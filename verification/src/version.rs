//! Semantic versions: the plain three-component version record, its decimal
//! rendering, and extraction of a version from free-form text.

use vstd::prelude::*;
use crate::error::Error;
use crate::text::{dec_chars, u64_to_string};

verus! {

/// A plain semantic version: three numeric components. Pre-release and build
/// metadata never occur on the versions this engine compares, so they are not
/// carried.
#[derive(Debug, Clone, Copy, PartialEq, Eq, Structural)]
pub struct Version {
    pub major: u64,
    pub minor: u64,
    pub patch: u64,
}

/// The canonical `major.minor.patch` rendering of a version.
pub open spec fn version_chars(major: nat, minor: nat, patch: nat) -> Seq<char> {
    dec_chars(major) + seq!['.'] + dec_chars(minor) + seq!['.'] + dec_chars(patch)
}

impl Version {
    pub fn new(major: u64, minor: u64, patch: u64) -> (v: Version)
        ensures
            v == (Version { major, minor, patch }),
    {
        Version { major, minor, patch }
    }

    pub open spec fn chars(&self) -> Seq<char> {
        version_chars(self.major as nat, self.minor as nat, self.patch as nat)
    }

    /// Render the version as `major.minor.patch`.
    pub fn to_text(&self) -> (s: String)
        ensures
            s@ == self.chars(),
    {
        proof {
            reveal_strlit(".");
            assert("."@ =~= seq!['.']);
        }
        let mut s = u64_to_string(self.major);
        s.append(".");
        let minor = u64_to_string(self.minor);
        s.append(minor.as_str());
        s.append(".");
        let patch = u64_to_string(self.patch);
        s.append(patch.as_str());
        s
    }
}

/// Lexicographic order on plain version triples: `(a0,a1,a2) <= (b0,b1,b2)`.
pub open spec fn version_le(a0: int, a1: int, a2: int, b0: int, b1: int, b2: int) -> bool {
    a0 < b0 || (a0 == b0 && (a1 < b1 || (a1 == b1 && a2 <= b2)))
}

/// The numeric components of a name that is a well-formed semantic version,
/// `None` for any other name. What the semantic-version grammar accepts
/// depends on the name alone.
pub uninterp spec fn sem_version_of(s: Seq<char>) -> Option<(u64, u64, u64)>;

/// Relies on semver's `Version::parse`: whether a name is a well-formed
/// semantic version, and its numeric components, are a function of the name
/// alone. Pre-release and build metadata are not carried over; this engine
/// only compares plain three-component versions.
#[verifier::external_body]
pub fn parse_semver_name(s: &str) -> (r: Option<Version>)
    ensures
        r matches Some(v) ==> sem_version_of(s@) == Some((v.major, v.minor, v.patch)),
        r is None ==> sem_version_of(s@) is None,
{
    match semver::Version::parse(s) {
        Ok(v) => Some(Version { major: v.major, minor: v.minor, patch: v.patch }),
        Err(_) => None,
    }
}

/// The version a name carries: the components of the name read as a semantic
/// version, when it is one.
pub open spec fn name_version(name: Seq<char>) -> Option<Version> {
    match sem_version_of(name) {
        Some(t) => Some(Version { major: t.0, minor: t.1, patch: t.2 }),
        None => None,
    }
}

/// Whether a plain version satisfies a requirement expression: `None` when
/// the text is not a well-formed requirement, otherwise `Some` of the
/// verdict. A function of the text and the three components alone.
pub uninterp spec fn req_eval(req: Seq<char>, major: u64, minor: u64, patch: u64) -> Option<bool>;

/// Relies on semver's `VersionReq::parse` and `VersionReq::matches`: the two
/// are one lookup here because the parsed requirement is opaque, and whether
/// a plain `major.minor.patch` version satisfies a requirement text is a
/// function of the text and the three components alone.
#[verifier::external_body]
pub fn req_matches(req: &str, v: &Version) -> (r: Option<bool>)
    ensures
        r == req_eval(req@, v.major, v.minor, v.patch),
{
    match semver::VersionReq::parse(req) {
        Ok(r) => Some(r.matches(&semver::Version::new(v.major, v.minor, v.patch))),
        Err(_) => None,
    }
}

/// A decimal digit.
pub open spec fn is_digit(c: char) -> bool {
    '0' <= c <= '9'
}

/// The length of the run of digits starting at a position; zero outside the
/// text or on a non-digit.
pub open spec fn digit_run_len(t: Seq<char>, i: int) -> int
    decreases t.len() - i,
{
    if i < 0 || i >= t.len() {
        0
    } else if is_digit(t[i]) {
        1 + digit_run_len(t, i + 1)
    } else {
        0
    }
}

/// A digit run is within bounds, consists of digits, and is maximal.
pub proof fn lemma_run_bounds(t: Seq<char>, i: int)
    requires
        0 <= i <= t.len(),
    ensures
        0 <= digit_run_len(t, i),
        i + digit_run_len(t, i) <= t.len(),
        forall|k: int| i <= k < i + digit_run_len(t, i) ==> is_digit(#[trigger] t[k]),
        i + digit_run_len(t, i) == t.len() || !is_digit(t[i + digit_run_len(t, i)]),
    decreases t.len() - i,
{
    if i < t.len() && is_digit(t[i]) {
        lemma_run_bounds(t, i + 1);
    }
}

/// A run is as long as any all-digit stretch that begins it.
pub proof fn lemma_run_split(t: Seq<char>, i: int, j: int)
    requires
        0 <= i <= j <= t.len(),
        forall|k: int| i <= k < j ==> is_digit(#[trigger] t[k]),
    ensures
        digit_run_len(t, i) == (j - i) + digit_run_len(t, j),
    decreases j - i,
{
    if i < j {
        lemma_run_split(t, i + 1, j);
    }
}

/// A dotted numeric triple begins at position `s`: a digit run, a dot, a
/// digit run, a dot, a digit run, each run maximal and non-empty.
pub open spec fn triple_at(t: Seq<char>, s: int) -> bool {
    let a = digit_run_len(t, s);
    let b = digit_run_len(t, s + a + 1);
    let c = digit_run_len(t, s + a + b + 2);
    &&& 0 <= s
    &&& a > 0
    &&& s + a < t.len() && t[s + a] == '.'
    &&& b > 0
    &&& s + a + 1 + b < t.len() && t[s + a + 1 + b] == '.'
    &&& c > 0
}

/// Some dotted numeric triple occurs in the text.
pub open spec fn has_triple(t: Seq<char>) -> bool {
    exists|s: int| #[trigger] triple_at(t, s)
}

/// The first dotted numeric triple of the text begins at `s`.
pub open spec fn first_triple_at(t: Seq<char>, s: int) -> bool {
    triple_at(t, s) && (forall|j: int| 0 <= j < s ==> !triple_at(t, j))
}

/// The numeric value of a digit string.
pub open spec fn digits_val(d: Seq<char>) -> int
    decreases d.len(),
{
    if d.len() == 0 {
        0
    } else {
        digits_val(d.drop_last()) * 10 + (d.last() as int - '0' as int)
    }
}

/// The value of a digit string is not negative.
pub proof fn lemma_digits_val_nonneg(d: Seq<char>)
    requires
        forall|k: int| 0 <= k < d.len() ==> is_digit(#[trigger] d[k]),
    ensures
        digits_val(d) >= 0,
    decreases d.len(),
{
    if d.len() > 0 {
        lemma_digits_val_nonneg(d.drop_last());
    }
}

/// Extending a digit string never shrinks its value.
pub proof fn lemma_digits_val_prefix(d: Seq<char>, k: int)
    requires
        0 <= k <= d.len(),
        forall|j: int| 0 <= j < d.len() ==> is_digit(#[trigger] d[j]),
    ensures
        digits_val(d) >= digits_val(d.subrange(0, k)),
    decreases d.len() - k,
{
    if k == d.len() {
        assert(d.subrange(0, k) =~= d);
    } else {
        lemma_digits_val_prefix(d, k + 1);
        let p = d.subrange(0, k + 1);
        assert(p.drop_last() =~= d.subrange(0, k));
        lemma_digits_val_nonneg(d.subrange(0, k));
        assert(digits_val(p) == digits_val(d.subrange(0, k)) * 10 + (p.last() as int
            - '0' as int));
        assert(is_digit(d[k]));
    }
}

/// A digit string is a well-formed numeric component: no digit follows a
/// leading zero, and the value fits the widest machine word.
pub open spec fn valid_component(d: Seq<char>) -> bool {
    (d.len() == 1 || d[0] != '0') && digits_val(d) <= u64::MAX as int
}

/// What extracting a version from a text must yield once the first triple is
/// found at `s`: the three components as a version when each is well formed,
/// else an invalid-version error carrying exactly the matched text.
pub open spec fn parse_outcome(t: Seq<char>, s: int, r: Result<Version, Error>) -> bool {
    let a = digit_run_len(t, s);
    let b = digit_run_len(t, s + a + 1);
    let c = digit_run_len(t, s + a + b + 2);
    let ma = t.subrange(s, s + a);
    let mb = t.subrange(s + a + 1, s + a + 1 + b);
    let mc = t.subrange(s + a + b + 2, s + a + b + 2 + c);
    if valid_component(ma) && valid_component(mb) && valid_component(mc) {
        r matches Ok(v) && v.major as int == digits_val(ma) && v.minor as int == digits_val(mb)
            && v.patch as int == digits_val(mc)
    } else {
        r matches Err(e) && (e matches Error::InvalidVersion { version } && version@
            == t.subrange(s, s + a + b + c + 2))
    }
}

/// The characters of a text, as a list.
fn char_vec(s: &str) -> (r: Vec<char>)
    ensures
        r@ == s@,
{
    let n = s.unicode_len();
    let mut v: Vec<char> = Vec::new();
    let mut i: usize = 0;
    while i < n
        invariant
            0 <= i <= n,
            n == s@.len(),
            v@ == s@.subrange(0, i as int),
        decreases n - i,
    {
        let c = s.get_char(i);
        v.push(c);
        proof {
            assert(v@ =~= s@.subrange(0, i + 1 as int));
        }
        i += 1;
    }
    proof {
        assert(s@.subrange(0, n as int) =~= s@);
    }
    v
}

/// The length of the digit run starting at a position.
fn run_len(cs: &Vec<char>, i: usize) -> (r: usize)
    requires
        i <= cs@.len(),
    ensures
        r == digit_run_len(cs@, i as int),
        i + r <= cs@.len(),
{
    let n = cs.len();
    let mut j: usize = i;
    while j < n && '0' <= cs[j] && cs[j] <= '9'
        invariant
            i <= j <= n,
            n == cs@.len(),
            forall|k: int| i <= k < j ==> is_digit(#[trigger] cs@[k]),
        decreases n - j,
    {
        j += 1;
    }
    proof {
        assert(digit_run_len(cs@, j as int) == 0);
        lemma_run_split(cs@, i as int, j as int);
    }
    j - i
}

/// The numeric value of an all-digit stretch, when it is a well-formed
/// component.
fn component_value(cs: &Vec<char>, lo: usize, hi: usize) -> (r: Option<u64>)
    requires
        lo < hi <= cs@.len(),
        forall|k: int| lo <= k < hi ==> is_digit(#[trigger] cs@[k]),
    ensures
        valid_component(cs@.subrange(lo as int, hi as int)) ==> (r matches Some(v) && v as int
            == digits_val(cs@.subrange(lo as int, hi as int))),
        !valid_component(cs@.subrange(lo as int, hi as int)) ==> r is None,
{
    let ghost d = cs@.subrange(lo as int, hi as int);
    if cs[lo] == '0' && hi - lo > 1 {
        proof {
            assert(d[0] == '0' && d.len() != 1);
        }
        return None;
    }
    let mut acc: u64 = 0;
    let mut i: usize = lo;
    while i < hi
        invariant
            lo <= i <= hi <= cs@.len(),
            d == cs@.subrange(lo as int, hi as int),
            forall|k: int| lo <= k < hi ==> is_digit(#[trigger] cs@[k]),
            acc as int == digits_val(cs@.subrange(lo as int, i as int)),
        decreases hi - i,
    {
        let c = cs[i];
        proof {
            assert(is_digit(cs@[i as int]));
        }
        let dg: u64 = (c as u32 - 48) as u64;
        let ghost prev = cs@.subrange(lo as int, i as int);
        let ghost next = cs@.subrange(lo as int, i as int + 1);
        proof {
            assert(next.drop_last() =~= prev);
            assert(next.last() == cs@[i as int]);
            assert(digits_val(next) == acc as int * 10 + dg as int);
        }
        if acc > (u64::MAX - dg) / 10 {
            proof {
                assert(acc as int * 10 + dg as int > u64::MAX as int);
                lemma_digits_val_prefix(d, i as int + 1 - lo);
                assert(d.subrange(0, i as int + 1 - lo) =~= next);
                assert(digits_val(d) > u64::MAX as int);
            }
            return None;
        }
        proof {
            assert(acc as int * 10 + dg as int <= u64::MAX as int);
        }
        acc = acc * 10 + dg;
        i += 1;
    }
    proof {
        assert(cs@.subrange(lo as int, i as int) =~= d);
    }
    Some(acc)
}

/// Scan free-form text for the first dotted numeric triple and read it as
/// a version. Fails when no triple occurs, or when the matched triple is
/// not well formed (a digit after a leading zero, or a component too
/// large); the error carries the offending text.
pub fn parse_version(text: &str) -> (r: Result<Version, Error>)
    ensures
        !has_triple(text@) ==> (r matches Err(e) && (e matches Error::InvalidVersion {
            version,
        } && version@ == text@)),
        has_triple(text@) ==> exists|s: int|
            #[trigger] first_triple_at(text@, s) && parse_outcome(text@, s, r),
{
    let cs = char_vec(text);
    let n = cs.len();
    let mut s: usize = 0;
    while s < n
        invariant
            0 <= s <= n,
            n == cs@.len(),
            cs@ == text@,
            forall|j: int| 0 <= j < s ==> !triple_at(text@, j),
        decreases n - s,
    {
        let a = run_len(&cs, s);
        if a > 0 {
            if s + a < n && cs[s + a] == '.' {
                let b = run_len(&cs, s + a + 1);
                if b > 0 && s + a + 1 + b < n && cs[s + a + 1 + b] == '.' {
                    let c = run_len(&cs, s + a + b + 2);
                    if c > 0 {
                        proof {
                            assert(triple_at(text@, s as int));
                            lemma_run_bounds(cs@, s as int);
                            lemma_run_bounds(cs@, (s + a + 1) as int);
                            lemma_run_bounds(cs@, (s + a + b + 2) as int);
                        }
                        let va = component_value(&cs, s, s + a);
                        let vb = component_value(&cs, s + a + 1, s + a + 1 + b);
                        let vc = component_value(&cs, s + a + b + 2, s + a + b + 2 + c);
                        let end = s + a + b + 2 + c;
                        match (va, vb, vc) {
                            (Some(major), Some(minor), Some(patch)) => {
                                let out = Ok(Version { major, minor, patch });
                                proof {
                                    assert(first_triple_at(text@, s as int));
                                    assert(parse_outcome(text@, s as int, out));
                                }
                                return out;
                            },
                            _ => {
                                let matched = text.substring_char(s, end);
                                let out = Err(Error::InvalidVersion {
                                    version: matched.to_owned(),
                                });
                                proof {
                                    assert(first_triple_at(text@, s as int));
                                    assert(parse_outcome(text@, s as int, out));
                                }
                                return out;
                            },
                        }
                    }
                }
            }
        }
        proof {
            assert(!triple_at(text@, s as int));
        }
        s += 1;
    }
    proof {
        assert forall|j: int| !triple_at(text@, j) by {
            if 0 <= j < n {
            } else {
                assert(digit_run_len(text@, j) == 0);
            }
        }
        assert(!has_triple(text@));
    }
    Err(Error::InvalidVersion { version: text.to_owned() })
}

} // verus!
