use vstd::prelude::*;

verus! {

/// Obtains the portal cookie from the `gpauth` helper.
pub struct AuthManager;

/// Why no cookie could be had from the `gpauth` helper.
#[derive(Debug, PartialEq, Eq)]
pub enum AuthError {
    /// The helper exited unsuccessfully; `stderr` is what it wrote there.
    GpauthFailed { stderr: String },
    /// The helper's output holds no cookie.
    NoCookie,
}

// ---------------------------------------------------------------------------
// Text model: whitespace, trimming and line structure, as `str::trim` and
// `str::lines` define them.
// ---------------------------------------------------------------------------

/// The Unicode `White_Space` property, which `char::is_whitespace` tests.
pub open spec fn is_white_space(c: char) -> bool {
    let v = c as u32;
    ||| 0x09 <= v <= 0x0d
    ||| v == 0x20
    ||| v == 0x85
    ||| v == 0xa0
    ||| v == 0x1680
    ||| 0x2000 <= v <= 0x200a
    ||| v == 0x2028
    ||| v == 0x2029
    ||| v == 0x202f
    ||| v == 0x205f
    ||| v == 0x3000
}

/// `s` without its leading whitespace.
pub open spec fn trim_start(s: Seq<char>) -> Seq<char>
    decreases s.len(),
{
    if s.len() > 0 && is_white_space(s[0]) {
        trim_start(s.drop_first())
    } else {
        s
    }
}

/// `s` without its trailing whitespace.
pub open spec fn trim_end(s: Seq<char>) -> Seq<char>
    decreases s.len(),
{
    if s.len() > 0 && is_white_space(s.last()) {
        trim_end(s.drop_last())
    } else {
        s
    }
}

/// `s` without leading and trailing whitespace (`str::trim`).
pub open spec fn trim(s: Seq<char>) -> Seq<char> {
    trim_end(trim_start(s))
}

/// The position of the first `'\n'` at or after `p`, or `s.len()` if there is none.
pub open spec fn line_end(s: Seq<char>, p: int) -> int
    decreases s.len() - p,
{
    if p >= s.len() {
        s.len() as int
    } else if s[p] == '\n' {
        p
    } else {
        line_end(s, p + 1)
    }
}

/// Whether a line of `str::lines` begins at `p`: every non-empty text has
/// one at 0 and one after each `'\n'` that is not the last character.
pub open spec fn is_line_start(s: Seq<char>, p: int) -> bool {
    0 <= p < s.len() && (p == 0 || s[p - 1] == '\n')
}

/// The line that begins at `p`, as `str::lines` yields it: without its
/// `'\n'`, and without a `'\r'` just before that `'\n'`.
pub open spec fn line_content(s: Seq<char>, p: int) -> Seq<char> {
    let e = line_end(s, p);
    if e < s.len() && e > p && s[e - 1] == '\r' {
        s.subrange(p, e - 1)
    } else {
        s.subrange(p, e)
    }
}

/// The marker that introduces a cookie line.
pub open spec fn cookie_key() -> Seq<char> {
    seq!['C', 'O', 'O', 'K', 'I', 'E', '=']
}

/// Whether the line beginning at `p` starts with `COOKIE=`.
pub open spec fn is_cookie_line(s: Seq<char>, p: int) -> bool {
    let l = line_content(s, p);
    is_line_start(s, p) && l.len() >= cookie_key().len() && l.take(cookie_key().len() as int)
        == cookie_key()
}

/// `p` begins the first line of `s` that starts with `COOKIE=`.
pub open spec fn is_first_cookie_line(s: Seq<char>, p: int) -> bool {
    is_cookie_line(s, p) && forall|q: int| 0 <= q < p ==> !#[trigger] is_cookie_line(s, q)
}

pub open spec fn has_cookie_line(s: Seq<char>) -> bool {
    exists|p: int| is_cookie_line(s, p)
}

/// The cookie that the helper's output `s` carries: what follows `COOKIE=`
/// on the first line that starts with it; failing such a line, the whole
/// output trimmed of whitespace, unless nothing is left of it.
pub open spec fn cookie_in_output(s: Seq<char>) -> Option<Seq<char>> {
    if has_cookie_line(s) {
        let p = choose|p: int| is_first_cookie_line(s, p);
        Some(line_content(s, p).skip(cookie_key().len() as int))
    } else if trim(s).len() > 0 {
        Some(trim(s))
    } else {
        None
    }
}

// ---------------------------------------------------------------------------
// Lemmas
// ---------------------------------------------------------------------------

proof fn lemma_trim_start_skip(s: Seq<char>, a: int)
    requires
        0 <= a <= s.len(),
        forall|k: int| 0 <= k < a ==> is_white_space(#[trigger] s[k]),
    ensures
        trim_start(s) == trim_start(s.skip(a)),
    decreases a,
{
    if a == 0 {
        assert(s.skip(0) =~= s);
    } else {
        let t = s.drop_first();
        assert forall|k: int| 0 <= k < a - 1 implies is_white_space(#[trigger] t[k]) by {
            assert(t[k] == s[k + 1]);
        }
        lemma_trim_start_skip(t, a - 1);
        assert(t.skip(a - 1) =~= s.skip(a));
    }
}

proof fn lemma_trim_end_take(s: Seq<char>, b: int)
    requires
        0 <= b <= s.len(),
        forall|k: int| b <= k < s.len() ==> is_white_space(#[trigger] s[k]),
    ensures
        trim_end(s) == trim_end(s.take(b)),
    decreases s.len() - b,
{
    if b == s.len() {
        assert(s.take(b) =~= s);
    } else {
        let t = s.drop_last();
        assert(is_white_space(s[s.len() - 1]));
        lemma_trim_end_take(t, b);
        assert(t.take(b) =~= s.take(b));
    }
}

/// `trim(s)` is the stretch between the first and the last visible character.
proof fn lemma_trim_bounds(s: Seq<char>, a: int, b: int)
    requires
        0 <= a <= b <= s.len(),
        forall|k: int| 0 <= k < a ==> is_white_space(#[trigger] s[k]),
        forall|k: int| b <= k < s.len() ==> is_white_space(#[trigger] s[k]),
        a < s.len() ==> !is_white_space(s[a]),
        a < b ==> !is_white_space(s[b - 1]),
        a == s.len() || a < b,
    ensures
        trim(s) == s.subrange(a, b),
{
    lemma_trim_start_skip(s, a);
    let t = s.skip(a);
    if a == s.len() {
        assert(t =~= Seq::<char>::empty());
        assert(trim_start(t) == t);
        assert(s.subrange(a, b) =~= Seq::<char>::empty());
    } else {
        assert(t[0] == s[a]);
        assert(trim_start(t) == t);
        assert forall|k: int| b - a <= k < t.len() implies is_white_space(#[trigger] t[k]) by {
            assert(t[k] == s[k + a]);
        }
        lemma_trim_end_take(t, b - a);
        let u = t.take(b - a);
        assert(u.last() == s[b - 1]);
        assert(trim_end(u) == u);
        assert(u =~= s.subrange(a, b));
    }
}

proof fn lemma_line_end_bounds(s: Seq<char>, p: int)
    requires
        0 <= p <= s.len(),
    ensures
        p <= line_end(s, p) <= s.len(),
    decreases s.len() - p,
{
    if p < s.len() && s[p] != '\n' {
        lemma_line_end_bounds(s, p + 1);
    }
}

proof fn lemma_line_end(s: Seq<char>, p: int, e: int)
    requires
        0 <= p <= e <= s.len(),
        forall|k: int| p <= k < e ==> #[trigger] s[k] != '\n',
        e == s.len() || s[e] == '\n',
    ensures
        line_end(s, p) == e,
    decreases e - p,
{
    if p < e {
        lemma_line_end(s, p + 1, e);
    }
}

// ---------------------------------------------------------------------------
// Laws of the cookie reader
// ---------------------------------------------------------------------------

/// Output that is one line `COOKIE=<value>` carries exactly `<value>`
/// (a lone trailing `'\r'` without a `'\n'` stays part of the value, as
/// `str::lines` keeps it).
pub proof fn law_cookie_line_gives_value(x: Seq<char>)
    requires
        forall|k: int| 0 <= k < x.len() ==> #[trigger] x[k] != '\n',
    ensures
        cookie_in_output(cookie_key() + x) == Some(x),
{
    let s = cookie_key() + x;
    assert forall|k: int| 0 <= k < s.len() implies #[trigger] s[k] != '\n' by {
        if k >= 7 {
            assert(s[k] == x[k - 7]);
        }
    }
    lemma_line_end(s, 0, s.len() as int);
    assert(line_content(s, 0) =~= s);
    assert(s.take(7) =~= cookie_key());
    assert(is_first_cookie_line(s, 0));
    let c = choose|c: int| is_first_cookie_line(s, c);
    assert(c == 0) by {
        if c > 0 {
            assert(!is_cookie_line(s, 0));
        }
    }
    assert(s.skip(7) =~= x);
}

/// A `COOKIE=` line wins over any text around it: the value is taken from the
/// first such line, whatever the other lines hold.
pub proof fn law_first_cookie_line_wins(s: Seq<char>, p: int)
    requires
        is_first_cookie_line(s, p),
    ensures
        cookie_in_output(s) == Some(line_content(s, p).skip(7)),
{
    let c = choose|c: int| is_first_cookie_line(s, c);
    assert(is_first_cookie_line(s, c));
    assert(c == p) by {
        if c < p {
            assert(!is_cookie_line(s, c));
        }
        if p < c {
            assert(!is_cookie_line(s, p));
        }
    }
}

/// Visible ASCII characters (`!` to `~`) are not whitespace, so trimming
/// never takes them off.
pub proof fn law_visible_ascii_is_not_white_space(c: char)
    requires
        0x21 <= c as u32 <= 0x7e,
    ensures
        !is_white_space(c),
{
}

/// Output with no `COOKIE=` line that neither begins nor ends with
/// whitespace is taken whole; in particular output whose first and last
/// characters are visible ASCII.
pub proof fn law_untrimmed_output_is_taken_whole(s: Seq<char>)
    requires
        !has_cookie_line(s),
        s.len() > 0,
        !is_white_space(s[0]) || 0x21 <= s[0] as u32 <= 0x7e,
        !is_white_space(s.last()) || 0x21 <= s.last() as u32 <= 0x7e,
    ensures
        cookie_in_output(s) == Some(s),
{
    lemma_trim_bounds(s, 0, s.len() as int);
    assert(s.subrange(0, s.len() as int) =~= s);
}

/// Output made of whitespace only (or nothing) carries no cookie.
pub proof fn law_blank_output_has_no_cookie(s: Seq<char>)
    requires
        forall|k: int| 0 <= k < s.len() ==> is_white_space(#[trigger] s[k]),
    ensures
        cookie_in_output(s) is None,
{
    assert(!has_cookie_line(s)) by {
        if has_cookie_line(s) {
            let p = choose|p: int| is_cookie_line(s, p);
            let l = line_content(s, p);
            lemma_line_end_bounds(s, p);
            assert(l.take(7) == cookie_key());
            assert(l.take(7)[0] == 'C');
            assert(l[0] == s[p]);
            assert(is_white_space(s[p]));
        }
    }
    lemma_trim_bounds(s, s.len() as int, s.len() as int);
    assert(s.subrange(s.len() as int, s.len() as int) =~= Seq::<char>::empty());
}

// ---------------------------------------------------------------------------
// Trusted items
// ---------------------------------------------------------------------------

/// What `String::from_utf8_lossy` makes of `bytes`.
pub uninterp spec fn utf8_lossy_text(bytes: Seq<u8>) -> Seq<char>;

/// Calls `String::from_utf8_lossy`. Claimed: the result is a function of the
/// bytes alone, and, as std documents, valid UTF-8 is decoded unchanged.
/// What replaces invalid sequences is left unsaid.
#[verifier::external_body]
fn decode_utf8_lossy(bytes: &[u8]) -> (r: String)
    ensures
        r@ == utf8_lossy_text(bytes@),
        vstd::utf8::valid_utf8(bytes@) ==> r@ == vstd::utf8::decode_utf8(bytes@),
{
    String::from_utf8_lossy(bytes).into_owned()
}

// ---------------------------------------------------------------------------
// Executable helpers
// ---------------------------------------------------------------------------

/// The characters of `s`, in order.
fn chars_of(s: &str) -> (r: Vec<char>)
    ensures
        r@ == s@,
{
    broadcast use vstd::string::group_string_axioms;

    let mut r: Vec<char> = Vec::new();
    for c in it: s.chars()
        invariant
            it.seq() == s@,
            r@ == s@.take(it.index() as int),
    {
        r.push(c);
    }
    r
}

fn char_is_white_space(c: char) -> (r: bool)
    ensures
        r == is_white_space(c),
{
    let v = c as u32;
    (0x09 <= v && v <= 0x0d) || v == 0x20 || v == 0x85 || v == 0xa0 || v == 0x1680 || (0x2000
        <= v && v <= 0x200a) || v == 0x2028 || v == 0x2029 || v == 0x202f || v == 0x205f || v
        == 0x3000
}

/// Whether `cs[p..]` begins with `COOKIE=`.
fn has_cookie_key_at(cs: &Vec<char>, p: usize, end: usize) -> (r: bool)
    requires
        p <= end <= cs.len(),
    ensures
        r == (end - p >= cookie_key().len() && cs@.subrange(p as int, end as int).take(
            cookie_key().len() as int,
        ) == cookie_key()),
{
    let key: Vec<char> = vec!['C', 'O', 'O', 'K', 'I', 'E', '='];
    assert(key@ =~= cookie_key());
    if end - p < 7 {
        return false;
    }
    let ghost l = cs@.subrange(p as int, end as int).take(7);
    let mut k: usize = 0;
    while k < 7
        invariant
            k <= 7,
            p + 7 <= end <= cs.len(),
            key@ == cookie_key(),
            l == cs@.subrange(p as int, end as int).take(7),
            forall|j: int| 0 <= j < k ==> l[j] == key@[j],
        decreases 7 - k,
    {
        if cs[p + k] != key[k] {
            assert(l[k as int] != key@[k as int]);
            return false;
        }
        k = k + 1;
    }
    assert(l =~= key@);
    true
}

impl AuthError {
    /// A description of the error for the user.
    pub fn message(&self) -> (r: String)
        ensures
            r@ == (match self {
                AuthError::GpauthFailed { stderr } => "gpauth failed: "@ + stderr@,
                AuthError::NoCookie => "No cookie found in gpauth output"@,
            }),
    {
        match self {
            AuthError::GpauthFailed { stderr } => {
                let prefix = String::from_str("gpauth failed: ");
                prefix.concat(stderr.as_str())
            },
            AuthError::NoCookie => String::from_str("No cookie found in gpauth output"),
        }
    }
}

impl AuthManager {
    pub fn new() -> (r: Self)
        ensures
            r == AuthManager,
    {
        AuthManager
    }

    /// The program run to authenticate.
    pub fn gpauth_program(&self) -> (r: String)
        ensures
            r@ == "gpauth"@,
    {
        String::from_str("gpauth")
    }

    /// The arguments with which `gpauth` is run for `portal_url`.
    pub fn gpauth_arguments(&self, portal_url: &str) -> (r: Vec<String>)
        ensures
            r@.len() == 4,
            r@[0]@ == "--portal"@,
            r@[1]@ == portal_url@,
            r@[2]@ == "--browser"@,
            r@[3]@ == "default"@,
    {
        let mut r: Vec<String> = Vec::new();
        r.push(String::from_str("--portal"));
        r.push(String::from_str(portal_url));
        r.push(String::from_str("--browser"));
        r.push(String::from_str("default"));
        r
    }

    /// What the run of `gpauth` yields: its exit status, standard output and
    /// standard error decide between a cookie and an error.
    pub fn cookie_from_gpauth(&self, success: bool, stdout: &[u8], stderr: &[u8]) -> (r: Result<
        String,
        AuthError,
    >)
        ensures
            !success ==> (r matches Err(AuthError::GpauthFailed { stderr: text }) && text@
                == utf8_lossy_text(stderr@)),
            success ==> match r {
                Ok(cookie) => cookie_in_output(utf8_lossy_text(stdout@)) == Some(cookie@),
                Err(e) => cookie_in_output(utf8_lossy_text(stdout@)) is None && e
                    == AuthError::NoCookie,
            },
    {
        if !success {
            return Err(AuthError::GpauthFailed { stderr: decode_utf8_lossy(stderr) });
        }
        let text = decode_utf8_lossy(stdout);
        self.parse_cookie_from_output(text.as_str())
    }

    /// Reads the cookie out of the helper's standard output.
    pub fn parse_cookie_from_output(&self, output: &str) -> (r: Result<String, AuthError>)
        ensures
            match r {
                Ok(cookie) => cookie_in_output(output@) == Some(cookie@),
                Err(e) => cookie_in_output(output@) is None && e == AuthError::NoCookie,
            },
    {
        let cs = chars_of(output);
        let n = cs.len();
        let ghost s = output@;
        let mut p: usize = 0;
        while p < n
            invariant
                s == output@,
                cs@ == s,
                n == s.len(),
                p <= n,
                p < n ==> is_line_start(s, p as int),
                forall|q: int| 0 <= q < p ==> !#[trigger] is_cookie_line(s, q),
            decreases n - p,
        {
            let mut e: usize = p;
            while e < n && cs[e] != '\n'
                invariant
                    cs@ == s,
                    n == s.len(),
                    p <= e <= n,
                    forall|k: int| p <= k < e ==> #[trigger] s[k] != '\n',
                decreases n - e,
            {
                e = e + 1;
            }
            proof {
                lemma_line_end(s, p as int, e as int);
            }
            let ce = if e < n && e > p && cs[e - 1] == '\r' {
                e - 1
            } else {
                e
            };
            assert(line_content(s, p as int) =~= s.subrange(p as int, ce as int));
            if has_cookie_key_at(&cs, p, ce) {
                assert(cookie_key().len() == 7);
                assert(is_first_cookie_line(s, p as int));
                let cookie = String::from_str(output.substring_char(p + 7, ce));
                proof {
                    let c = choose|c: int| is_first_cookie_line(s, c);
                    assert(is_first_cookie_line(s, c));
                    assert(c == p) by {
                        if c < p {
                            assert(!is_cookie_line(s, c));
                        }
                        if p < c {
                            assert(!is_cookie_line(s, p as int));
                        }
                    }
                    assert(line_content(s, p as int).skip(7) =~= cookie@);
                }
                return Ok(cookie);
            }
            assert forall|q: int| 0 <= q < (if e < n { e + 1 } else { n as int }) implies !#[trigger] is_cookie_line(s, q) by {
                if p < q <= e {
                    assert(s[q - 1] != '\n');
                }
            }
            if e < n {
                p = e + 1;
            } else {
                p = n;
            }
        }
        assert(!has_cookie_line(s));
        // No cookie line: fall back to the whole output, trimmed.
        let mut a: usize = 0;
        while a < n && char_is_white_space(cs[a])
            invariant
                s == output@,
                cs@ == s,
                n == s.len(),
                a <= n,
                forall|k: int| 0 <= k < a ==> is_white_space(#[trigger] s[k]),
            decreases n - a,
        {
            a = a + 1;
        }
        let mut b: usize = n;
        while b > a && char_is_white_space(cs[b - 1])
            invariant
                s == output@,
                cs@ == s,
                n == s.len(),
                a <= b <= n,
                forall|k: int| b <= k < n ==> is_white_space(#[trigger] s[k]),
            decreases b,
        {
            b = b - 1;
        }
        proof {
            lemma_trim_bounds(s, a as int, b as int);
        }
        if a < b {
            Ok(String::from_str(output.substring_char(a, b)))
        } else {
            Err(AuthError::NoCookie)
        }
    }
}

} // verus!
