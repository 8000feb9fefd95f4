use vstd::prelude::*;

verus! {

/// The application's saved settings. `P` is the record kept for each
/// configured portal; the settings only need the portals' order.
#[derive(Clone, Debug, PartialEq, Eq)]
pub struct Config<P> {
    pub auto_connect: bool,
    pub portals: Vec<P>,
    pub last_connected_portal: Option<String>,
}

impl<P> Default for Config<P> {
    fn default() -> (r: Self)
        ensures
            !r.auto_connect,
            r.portals@ == Seq::<P>::empty(),
            r.last_connected_portal is None,
    {
        Config { auto_connect: false, portals: Vec::new(), last_connected_portal: None }
    }
}

impl<P> Config<P> {
    /// The portal to connect to on start-up: the first one, when automatic
    /// connection is on and there is a portal at all.
    pub fn auto_connect_portal(&self) -> (r: Option<&P>)
        ensures
            match r {
                Some(p) => self.auto_connect && self.portals@.len() > 0 && *p == self.portals@[0],
                None => !self.auto_connect || self.portals@.len() == 0,
            },
    {
        if self.auto_connect && self.portals.len() > 0 {
            Some(&self.portals[0])
        } else {
            None
        }
    }
}

} // verus!
