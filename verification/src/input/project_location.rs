//! The resolved project location: a sanitized mod name and the path the
//! project tree will be rooted at.

use vstd::prelude::*;

verus! {

/// What `char::is_alphanumeric` returns on a given character.
pub uninterp spec fn is_alphanum_of(c: char) -> bool;

/// Relies on `char::is_alphanumeric`: a property of the character alone,
/// by the Unicode tables.
#[verifier::external_body]
fn char_is_alphanumeric(c: char) -> (r: bool)
    ensures
        r == is_alphanum_of(c),
{
    c.is_alphanumeric()
}

/// The characters of `s` that are alphanumeric, in order.
pub open spec fn keep_alphanumeric(s: Seq<char>) -> Seq<char>
    decreases s.len(),
{
    if s.len() == 0 {
        Seq::empty()
    } else if is_alphanum_of(s[0]) {
        seq![s[0]] + keep_alphanumeric(s.drop_first())
    } else {
        keep_alphanumeric(s.drop_first())
    }
}

/// Drop every character of a raw mod name that is not alphanumeric.
pub fn sanitize_mod_name(name: &str) -> (r: String)
    ensures
        r@ == keep_alphanumeric(name@),
{
    let n = name.unicode_len();
    let mut out: Vec<char> = Vec::new();
    let mut i: usize = 0;
    proof {
        assert(name@.skip(0) =~= name@);
        assert(out@ + keep_alphanumeric(name@) =~= keep_alphanumeric(name@));
    }
    while i < n
        invariant
            0 <= i <= n,
            n == name@.len(),
            keep_alphanumeric(name@) == out@ + keep_alphanumeric(name@.skip(i as int)),
        decreases n - i,
    {
        let c = name.get_char(i);
        proof {
            assert(name@.skip(i as int)[0] == c);
            assert(name@.skip(i as int).drop_first() =~= name@.skip(i as int + 1));
        }
        if char_is_alphanumeric(c) {
            out.push(c);
            proof {
                assert(out@ + keep_alphanumeric(name@.skip(i as int + 1)) =~= out@.drop_last() + (
                seq![c] + keep_alphanumeric(name@.skip(i as int + 1))));
            }
        }
        i += 1;
    }
    proof {
        assert(name@.skip(n as int) =~= Seq::<char>::empty());
        assert(out@ + Seq::<char>::empty() =~= out@);
    }
    crate::utils::chars_to_string(&out)
}

/// An ASCII letter or digit.
pub open spec fn is_ascii_alnum(c: char) -> bool {
    ('a' <= c && c <= 'z') || ('A' <= c && c <= 'Z') || ('0' <= c && c <= '9')
}

/// A usable mod name: nonempty, ASCII letters and digits only.
pub open spec fn valid_mod_name(s: Seq<char>) -> bool {
    s.len() > 0 && forall|i: int| 0 <= i < s.len() ==> is_ascii_alnum(#[trigger] s[i])
}

/// Where the project will stand: the sanitized mod name and the resolved
/// path, as plain text. The path is resolved outside the library; the
/// name is what `validate` judges.
pub struct ProjectLocation {
    pub mod_name: String,
    pub path: String,
}

impl ProjectLocation {
    /// A location fit for materialization.
    pub open spec fn wf(self) -> bool {
        valid_mod_name(self.mod_name@)
    }

    /// Judge the sanitized mod name: nonempty and ASCII alphanumeric.
    pub fn validate(&self) -> (r: bool)
        ensures
            r == self.wf(),
    {
        let s = self.mod_name.as_str();
        let n = s.unicode_len();
        if n == 0 {
            return false;
        }
        let mut i: usize = 0;
        while i < n
            invariant
                0 <= i <= n,
                n == s@.len(),
                s@ == self.mod_name@,
                forall|k: int| 0 <= k < i ==> is_ascii_alnum(#[trigger] s@[k]),
            decreases n - i,
        {
            let c = s.get_char(i);
            if !(('a' <= c && c <= 'z') || ('A' <= c && c <= 'Z') || ('0' <= c && c <= '9')) {
                return false;
            }
            i += 1;
        }
        true
    }
}

} // verus!
