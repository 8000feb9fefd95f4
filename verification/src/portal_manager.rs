use vstd::hash_map::StringHashMap;
use vstd::prelude::*;

verus! {

/// A VPN portal the user has configured.
#[derive(Clone, Debug, PartialEq, Eq)]
pub struct Portal {
    pub id: String,
    pub name: String,
    pub url: String,
    pub username: Option<String>,
    pub is_default: bool,
}

/// A lowercase hexadecimal digit.
pub open spec fn is_lower_hex_digit(c: char) -> bool {
    ('0' <= c && c <= '9') || ('a' <= c && c <= 'f')
}

/// The hyphenated text of a random (version 4, RFC 4122 variant) UUID:
/// `xxxxxxxx-xxxx-4xxx-yxxx-xxxxxxxxxxxx` with `y` one of `8`, `9`, `a`, `b`.
pub open spec fn is_uuid_v4_text(s: Seq<char>) -> bool {
    &&& s.len() == 36
    &&& forall|i: int|
        0 <= i < 36 ==> if i == 8 || i == 13 || i == 18 || i == 23 {
            s[i] == '-'
        } else {
            is_lower_hex_digit(#[trigger] s[i])
        }
    &&& s[14] == '4'
    &&& (s[19] == '8' || s[19] == '9' || s[19] == 'a' || s[19] == 'b')
}

/// Calls `uuid::Uuid::new_v4` and formats the result with `to_string`.
/// Claimed, from the crate's source: the text is the lowercase hyphenated
/// form of a UUID whose version nibble is 4 and whose variant bits are `10`.
/// The random bits are left unsaid. The crate panics if the operating
/// system's random source fails.
#[verifier::external_body]
fn random_portal_id() -> (r: String)
    ensures
        is_uuid_v4_text(r@),
{
    uuid::Uuid::new_v4().to_string()
}

impl Portal {
    /// A new, non-default portal without a user name, under a fresh random id.
    pub fn new(name: String, url: String) -> (p: Self)
        ensures
            p.name == name,
            p.url == url,
            p.username is None,
            !p.is_default,
            is_uuid_v4_text(p.id@),
    {
        let id = random_portal_id();
        Portal { id, name, url, username: None, is_default: false }
    }
}

// ---------------------------------------------------------------------------
// Model of the portal list
// ---------------------------------------------------------------------------

/// The index of the last portal in `s` whose id is `id`, or -1 if none has it.
/// (This is the index under which a portal is found: a later entry with the
/// same id shadows an earlier one.)
pub open spec fn last_index_of(s: Seq<Portal>, id: Seq<char>) -> int
    decreases s.len(),
{
    if s.len() == 0 {
        -1
    } else if s.last().id@ == id {
        s.len() - 1
    } else {
        last_index_of(s.drop_last(), id)
    }
}

/// The list after removing the portal found under `id`, if any.
pub open spec fn portals_after_remove(s: Seq<Portal>, id: Seq<char>) -> Seq<Portal> {
    let i = last_index_of(s, id);
    if i >= 0 {
        s.remove(i)
    } else {
        s
    }
}

/// The list after replacing the portal found under `p`'s id by `p`, if any.
pub open spec fn portals_after_update(s: Seq<Portal>, p: Portal) -> Seq<Portal> {
    let i = last_index_of(s, p.id@);
    if i >= 0 {
        s.update(i, p)
    } else {
        s
    }
}

proof fn lemma_last_index_of_bounds(s: Seq<Portal>, id: Seq<char>)
    ensures
        -1 <= last_index_of(s, id) < s.len(),
        last_index_of(s, id) >= 0 ==> s[last_index_of(s, id)].id@ == id,
        forall|k: int| last_index_of(s, id) < k < s.len() ==> (#[trigger] s[k]).id@ != id,
    decreases s.len(),
{
    if s.len() > 0 && s.last().id@ != id {
        lemma_last_index_of_bounds(s.drop_last(), id);
        assert forall|k: int| last_index_of(s, id) < k < s.len() implies (#[trigger] s[k]).id@
            != id by {
            if k < s.len() - 1 {
                assert(s[k] == s.drop_last()[k]);
            }
        }
    }
}

/// The last index is characterised by the entry it names and the entries after it.
proof fn lemma_last_index_of_unique(s: Seq<Portal>, id: Seq<char>, i: int)
    requires
        -1 <= i < s.len(),
        i >= 0 ==> s[i].id@ == id,
        forall|k: int| i < k < s.len() ==> (#[trigger] s[k]).id@ != id,
    ensures
        last_index_of(s, id) == i,
    decreases s.len(),
{
    if s.len() > 0 && i < s.len() - 1 {
        assert(s.last() == s[s.len() - 1]);
        let t = s.drop_last();
        assert forall|k: int| i < k < t.len() implies (#[trigger] t[k]).id@ != id by {
            assert(t[k] == s[k]);
        }
        lemma_last_index_of_unique(t, id, i);
    }
}

// ---------------------------------------------------------------------------
// Laws of the portal list
// ---------------------------------------------------------------------------

/// Removing by the id of the portal just added takes that portal out again:
/// the list is as it was before the addition, whatever it held.
pub proof fn law_remove_undoes_add(s: Seq<Portal>, p: Portal)
    ensures
        portals_after_remove(s.push(p), p.id@) == s,
{
    lemma_last_index_of_unique(s.push(p), p.id@, s.len() as int);
    assert(s.push(p).remove(s.len() as int) =~= s);
}

/// Updating never changes how many portals there are, nor the id at any place.
pub proof fn law_update_keeps_ids(s: Seq<Portal>, p: Portal)
    ensures
        portals_after_update(s, p).len() == s.len(),
        forall|i: int| 0 <= i < s.len() ==> (#[trigger] portals_after_update(s, p)[i]).id@ == s[i].id@,
{
    lemma_last_index_of_bounds(s, p.id@);
}

/// Updating writes `p` at the place where its id is found and nowhere else:
/// every other portal is kept exactly as it was, and the list keeps its length.
pub proof fn law_update_changes_only_found_place(s: Seq<Portal>, p: Portal)
    ensures
        portals_after_update(s, p).len() == s.len(),
        forall|k: int|
            0 <= k < s.len() && k != last_index_of(s, p.id@) ==> #[trigger] portals_after_update(
                s,
                p,
            )[k] == s[k],
        last_index_of(s, p.id@) >= 0 ==> portals_after_update(s, p)[last_index_of(s, p.id@)] == p,
        last_index_of(s, p.id@) >= 0 ==> s[last_index_of(s, p.id@)].id@ == p.id@,
{
    lemma_last_index_of_bounds(s, p.id@);
}

/// After an update, the portal found under the updated id is the new one,
/// provided some portal had that id; otherwise nothing changed.
pub proof fn law_update_then_find(s: Seq<Portal>, p: Portal)
    ensures
        last_index_of(s, p.id@) >= 0 ==> {
            let t = portals_after_update(s, p);
            &&& last_index_of(t, p.id@) == last_index_of(s, p.id@)
            &&& t[last_index_of(t, p.id@)] == p
        },
        last_index_of(s, p.id@) == -1 ==> portals_after_update(s, p) == s,
{
    lemma_last_index_of_bounds(s, p.id@);
    let i = last_index_of(s, p.id@);
    if i >= 0 {
        let t = s.update(i, p);
        assert forall|k: int| i < k < t.len() implies (#[trigger] t[k]).id@ != p.id@ by {
            assert(t[k] == s[k]);
        }
        lemma_last_index_of_unique(t, p.id@, i);
    }
}

/// Removing or updating under an id that no portal has leaves the list as it is.
pub proof fn law_absent_id_is_noop(s: Seq<Portal>, id: Seq<char>, p: Portal)
    requires
        forall|i: int| 0 <= i < s.len() ==> (#[trigger] s[i]).id@ != id,
        p.id@ == id,
    ensures
        portals_after_remove(s, id) == s,
        portals_after_update(s, p) == s,
{
    lemma_last_index_of_unique(s, id, -1);
}

/// Removal takes exactly one portal out when some portal has the id, and
/// keeps the others in their order.
pub proof fn law_remove_takes_one(s: Seq<Portal>, id: Seq<char>)
    requires
        exists|i: int| 0 <= i < s.len() && (#[trigger] s[i]).id@ == id,
    ensures
        portals_after_remove(s, id).len() == s.len() - 1,
        portals_after_remove(s, id) == s.take(last_index_of(s, id)) + s.skip(last_index_of(s, id) + 1),
{
    lemma_last_index_of_bounds(s, id);
    let w = choose|i: int| 0 <= i < s.len() && (#[trigger] s[i]).id@ == id;
    assert(last_index_of(s, id) >= 0) by {
        if last_index_of(s, id) == -1 {
            assert(s[w].id@ != id);
        }
    }
    let i = last_index_of(s, id);
    assert(s.remove(i) =~= s.take(i) + s.skip(i + 1));
}

// ---------------------------------------------------------------------------
// The id index
// ---------------------------------------------------------------------------

/// The index from ids to places that the manager keeps beside its list: each
/// id that some portal has maps to the last place holding that id.
pub open spec fn portal_index(s: Seq<Portal>) -> Map<Seq<char>, usize> {
    Map::new(|id: Seq<char>| last_index_of(s, id) >= 0, |id: Seq<char>| last_index_of(s, id) as usize)
}

proof fn lemma_last_index_of_push(s: Seq<Portal>, p: Portal, id: Seq<char>)
    ensures
        last_index_of(s.push(p), id) == if id == p.id@ {
            s.len() as int
        } else {
            last_index_of(s, id)
        },
{
    assert(s.push(p).last() == p);
    assert(s.push(p).drop_last() =~= s);
}

/// Appending a portal maps its id to the new last place and leaves the rest.
proof fn lemma_portal_index_push(s: Seq<Portal>, p: Portal)
    ensures
        portal_index(s.push(p)) == portal_index(s).insert(p.id@, s.len() as usize),
{
    assert forall|id: Seq<char>| #[trigger] last_index_of(s.push(p), id) == if id == p.id@ {
        s.len() as int
    } else {
        last_index_of(s, id)
    } by {
        lemma_last_index_of_push(s, p, id);
    }
    assert(portal_index(s.push(p)) =~= portal_index(s).insert(p.id@, s.len() as usize));
}

/// Lists that hold the same ids at the same places have the same index.
proof fn lemma_last_index_of_same_ids(s: Seq<Portal>, t: Seq<Portal>, id: Seq<char>)
    requires
        s.len() == t.len(),
        forall|k: int| 0 <= k < s.len() ==> (#[trigger] s[k]).id@ == t[k].id@,
    ensures
        last_index_of(s, id) == last_index_of(t, id),
    decreases s.len(),
{
    if s.len() > 0 {
        assert(s.last() == s[s.len() - 1]);
        assert(t.last() == t[t.len() - 1]);
        let (a, b) = (s.drop_last(), t.drop_last());
        assert forall|k: int| 0 <= k < a.len() implies (#[trigger] a[k]).id@ == b[k].id@ by {
            assert(a[k] == s[k] && b[k] == t[k]);
        }
        lemma_last_index_of_same_ids(a, b, id);
    }
}

proof fn lemma_portal_index_same_ids(s: Seq<Portal>, t: Seq<Portal>)
    requires
        s.len() == t.len(),
        forall|k: int| 0 <= k < s.len() ==> (#[trigger] s[k]).id@ == t[k].id@,
    ensures
        portal_index(s) == portal_index(t),
{
    assert forall|id: Seq<char>| #[trigger] last_index_of(s, id) == last_index_of(t, id) by {
        lemma_last_index_of_same_ids(s, t, id);
    }
    assert(portal_index(s) =~= portal_index(t));
}

/// Builds the index of `portals` afresh, entry by entry in list order, so
/// that a later portal with the same id overwrites an earlier one.
fn rebuild_index(portals: &Vec<Portal>, index: &mut StringHashMap<usize>)
    ensures
        final(index)@ == portal_index(portals@),
{
    index.clear();
    assert(portal_index(portals@.take(0)) =~= Map::<Seq<char>, usize>::empty());
    let mut i: usize = 0;
    while i < portals.len()
        invariant
            i <= portals@.len(),
            index@ == portal_index(portals@.take(i as int)),
        decreases portals@.len() - i,
    {
        index.insert(portals[i].id.clone(), i);
        proof {
            lemma_portal_index_push(portals@.take(i as int), portals@[i as int]);
            assert(portals@.take(i + 1) =~= portals@.take(i as int).push(portals@[i as int]));
        }
        i = i + 1;
    }
    assert(portals@.take(portals@.len() as int) =~= portals@);
}

// ---------------------------------------------------------------------------
// The manager
// ---------------------------------------------------------------------------

/// The configured portals, in the order they were added, with an index from
/// each id to the place of the last portal that has it. A portal is found by
/// its id through that index.
pub struct PortalManager {
    portals: Vec<Portal>,
    portal_map: StringHashMap<usize>,
}

impl View for PortalManager {
    type V = Seq<Portal>;

    closed spec fn view(&self) -> Seq<Portal> {
        self.portals@
    }
}

impl PortalManager {
    /// The index always describes the list.
    #[verifier::type_invariant]
    closed spec fn index_describes_list(self) -> bool {
        self.portal_map@ == portal_index(self.portals@)
    }

    pub fn new() -> (r: Self)
        ensures
            r@ == Seq::<Portal>::empty(),
    {
        let portals: Vec<Portal> = Vec::new();
        let portal_map: StringHashMap<usize> = StringHashMap::new();
        assert(portal_index(portals@) =~= portal_map@);
        PortalManager { portals, portal_map }
    }

    pub fn get_portals(&self) -> (r: &Vec<Portal>)
        ensures
            r@ == self@,
    {
        &self.portals
    }

    /// The place under which `id` is found in the index.
    fn index_of(&self, id: &str) -> (r: Option<usize>)
        ensures
            match r {
                Some(i) => i == last_index_of(self@, id@),
                None => last_index_of(self@, id@) == -1,
            },
    {
        proof {
            use_type_invariant(self);
            lemma_last_index_of_bounds(self.portals@, id@);
        }
        let n = self.portals.len();
        match self.portal_map.get(id) {
            Some(i) => {
                assert(0 <= last_index_of(self.portals@, id@) < n);
                Some(*i)
            },
            None => None,
        }
    }

    /// Takes the list and the index out, leaving an empty manager behind.
    fn take_parts(&mut self) -> (r: (Vec<Portal>, StringHashMap<usize>))
        ensures
            r.0@ == old(self)@,
            r.1@ == portal_index(old(self)@),
    {
        let mut taken = PortalManager::new();
        std::mem::swap(self, &mut taken);
        proof {
            use_type_invariant(&taken);
        }
        let PortalManager { portals, portal_map } = taken;
        (portals, portal_map)
    }

    /// Appends `portal`; from now on its id finds it.
    pub fn add_portal(&mut self, portal: Portal)
        ensures
            final(self)@ == old(self)@.push(portal),
    {
        let (mut portals, mut portal_map) = self.take_parts();
        proof {
            lemma_portal_index_push(portals@, portal);
        }
        portal_map.insert(portal.id.clone(), portals.len());
        portals.push(portal);
        *self = PortalManager { portals, portal_map };
    }

    /// Removes the portal found under `portal_id`, then builds the index
    /// afresh; does nothing if no portal is found.
    pub fn remove_portal(&mut self, portal_id: &str)
        ensures
            final(self)@ == portals_after_remove(old(self)@, portal_id@),
    {
        proof {
            lemma_last_index_of_bounds(self@, portal_id@);
        }
        match self.index_of(portal_id) {
            Some(i) => {
                let (mut portals, mut portal_map) = self.take_parts();
                portals.remove(i);
                rebuild_index(&portals, &mut portal_map);
                *self = PortalManager { portals, portal_map };
            },
            None => {},
        }
    }

    /// Replaces the portal found under `portal.id` by `portal`; does nothing
    /// if no portal has that id.
    pub fn update_portal(&mut self, portal: Portal)
        ensures
            final(self)@ == portals_after_update(old(self)@, portal),
    {
        proof {
            lemma_last_index_of_bounds(self@, portal.id@);
        }
        match self.index_of(portal.id.as_str()) {
            Some(i) => {
                let (mut portals, portal_map) = self.take_parts();
                let ghost before = portals@;
                portals.set(i, portal);
                proof {
                    lemma_portal_index_same_ids(before, portals@);
                }
                *self = PortalManager { portals, portal_map };
            },
            None => {},
        }
    }

    /// The first portal marked as default, if any.
    pub fn get_default_portal(&self) -> (r: Option<&Portal>)
        ensures
            match r {
                Some(p) => exists|i: int|
                    0 <= i < self@.len() && self@[i] == *p && p.is_default && forall|j: int|
                        0 <= j < i ==> !(#[trigger] self@[j]).is_default,
                None => forall|i: int| 0 <= i < self@.len() ==> !(#[trigger] self@[i]).is_default,
            },
    {
        let mut i: usize = 0;
        while i < self.portals.len()
            invariant
                i <= self.portals@.len(),
                forall|j: int| 0 <= j < i ==> !(#[trigger] self.portals@[j]).is_default,
            decreases self.portals@.len() - i,
        {
            if self.portals[i].is_default {
                return Some(&self.portals[i]);
            }
            i = i + 1;
        }
        None
    }
}

} // verus!
