//! Small verified helpers: identifier sanitizing, string equality, and
//! the Java runtime version a platform version calls for.

use vstd::prelude::*;

use crate::version::{parse_version, semver_lt, semver_lt_exec, version_of, SemVer, SemVerV};

verus! {

/// What `str::to_lowercase` returns on a given string.
pub uninterp spec fn lower_of(s: Seq<char>) -> Seq<char>;

/// Relies on `str::to_lowercase`: the Unicode lowercase mapping, a
/// function of the characters alone.
#[verifier::external_body]
pub(crate) fn to_lowercase_str(s: &str) -> (r: String)
    ensures
        r@ == lower_of(s@),
{
    s.to_lowercase()
}

/// Relies on `String`'s `FromIterator<char>`: collecting characters
/// yields exactly those characters in order.
#[verifier::external_body]
pub(crate) fn chars_to_string(v: &Vec<char>) -> (r: String)
    ensures
        r@ == v@,
{
    v.iter().collect()
}

/// A character a mod identifier may keep: a lowercase ASCII letter, an
/// ASCII digit or an underscore.
pub open spec fn is_mod_id_char(c: char) -> bool {
    ('a' <= c && c <= 'z') || ('0' <= c && c <= '9') || c == '_'
}

/// The characters of `s` that an identifier may keep, in order.
pub open spec fn keep_mod_id_chars(s: Seq<char>) -> Seq<char>
    decreases s.len(),
{
    if s.len() == 0 {
        Seq::empty()
    } else if is_mod_id_char(s[0]) {
        seq![s[0]] + keep_mod_id_chars(s.drop_first())
    } else {
        keep_mod_id_chars(s.drop_first())
    }
}

/// What sanitizing a name to a mod identifier yields: the lowercased
/// name with every other character dropped.
pub open spec fn mod_id_of(s: Seq<char>) -> Seq<char> {
    keep_mod_id_chars(lower_of(s))
}

/// Lowercase a mod name and keep only the characters an identifier may
/// hold.
pub fn sanitize_mod_id(name: &str) -> (r: String)
    ensures
        r@ == mod_id_of(name@),
{
    let lowered = to_lowercase_str(name);
    let low = lowered.as_str();
    let n = low.unicode_len();
    let mut out: Vec<char> = Vec::new();
    let mut i: usize = 0;
    proof {
        assert(low@.skip(0) =~= low@);
        assert(out@ + keep_mod_id_chars(low@) =~= keep_mod_id_chars(low@));
    }
    while i < n
        invariant
            0 <= i <= n,
            n == low@.len(),
            low@ == lower_of(name@),
            keep_mod_id_chars(low@) == out@ + keep_mod_id_chars(low@.skip(i as int)),
        decreases n - i,
    {
        let c = low.get_char(i);
        proof {
            assert(low@.skip(i as int)[0] == c);
            assert(low@.skip(i as int).drop_first() =~= low@.skip(i as int + 1));
        }
        if ('a' <= c && c <= 'z') || ('0' <= c && c <= '9') || c == '_' {
            out.push(c);
            proof {
                assert(out@ + keep_mod_id_chars(low@.skip(i as int + 1)) =~= out@.drop_last()
                    + (seq![c] + keep_mod_id_chars(low@.skip(i as int + 1))));
            }
        }
        i += 1;
    }
    proof {
        assert(low@.skip(n as int) =~= Seq::<char>::empty());
        assert(out@ + Seq::<char>::empty() =~= out@);
    }
    chars_to_string(&out)
}

/// Character-wise string equality.
pub fn str_eq(a: &str, b: &str) -> (r: bool)
    ensures
        r == (a@ == b@),
{
    let na = a.unicode_len();
    let nb = b.unicode_len();
    if na != nb {
        return false;
    }
    let mut i: usize = 0;
    while i < na
        invariant
            0 <= i <= na,
            na == a@.len(),
            na == b@.len(),
            forall|k: int| 0 <= k < i ==> a@[k] == b@[k],
        decreases na - i,
    {
        if a.get_char(i) != b.get_char(i) {
            return false;
        }
        i += 1;
    }
    proof {
        assert(a@ =~= b@);
    }
    true
}

pub open spec fn threshold_21() -> SemVerV {
    SemVerV { major: 1, minor: 20, patch: 5, pre: Seq::empty() }
}

pub open spec fn threshold_17() -> SemVerV {
    SemVerV { major: 1, minor: 17, patch: 0, pre: Seq::empty() }
}

/// The Java runtime major version a platform version calls for: 21 from
/// platform 1.20.5 on, 17 from 1.17.0 on, 8 below that.
pub open spec fn java_version_for(v: SemVerV) -> Seq<char> {
    if !semver_lt(v, threshold_21()) {
        "21"@
    } else if !semver_lt(v, threshold_17()) {
        "17"@
    } else {
        "8"@
    }
}

/// The Java version for a platform version string, or `None` where the
/// string is not a semantic version.
pub fn get_java_version(minecraft_version: &str) -> (r: Option<&'static str>)
    ensures
        match version_of(minecraft_version@) {
            None => r is None,
            Some(v) => r is Some && r->0@ == java_version_for(v),
        },
{
    match parse_version(minecraft_version) {
        None => None,
        Some(ver) => {
            let t21 = SemVer { major: 1, minor: 20, patch: 5, pre: Vec::new() };
            let t17 = SemVer { major: 1, minor: 17, patch: 0, pre: Vec::new() };
            proof {
                assert(crate::version::ids_view(t21.pre@) =~= Seq::<crate::version::PreIdV>::empty());
                assert(crate::version::ids_view(t17.pre@) =~= Seq::<crate::version::PreIdV>::empty());
                assert(t21@ =~= threshold_21());
                assert(t17@ =~= threshold_17());
            }
            if !semver_lt_exec(&ver, &t21) {
                Some("21")
            } else if !semver_lt_exec(&ver, &t17) {
                Some("17")
            } else {
                Some("8")
            }
        },
    }
}

} // verus!
