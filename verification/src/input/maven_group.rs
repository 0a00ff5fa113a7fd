//! Validation of the Maven group answer.

use vstd::prelude::*;

verus! {

/// A character a Maven group may hold: an ASCII letter, an ASCII digit,
/// or a dot.
pub open spec fn is_group_char(c: char) -> bool {
    ('a' <= c && c <= 'z') || ('A' <= c && c <= 'Z') || ('0' <= c && c <= '9') || c == '.'
}

pub open spec fn group_chars_ok(s: Seq<char>) -> bool {
    forall|i: int| 0 <= i < s.len() ==> is_group_char(#[trigger] s[i])
}

/// A well-formed Maven group: nonempty, only letters, digits and dots,
/// and neither starting nor ending with a dot.
pub open spec fn valid_maven_group(s: Seq<char>) -> bool {
    &&& s.len() > 0
    &&& group_chars_ok(s)
    &&& s[0] != '.'
    &&& s[s.len() - 1] != '.'
}

/// What the check of a Maven group answer found. Emptiness is looked at
/// first, then the character set, then the edges.
#[derive(Clone, Copy, Debug, PartialEq, Eq, Structural)]
pub enum GroupValidation {
    Valid,
    Empty,
    InvalidChar,
    EdgeDot,
}

impl GroupValidation {
    /// The message shown when the answer is rejected.
    pub fn message(self) -> (r: &'static str)
        ensures
            self is Valid ==> r@ =~= Seq::<char>::empty(),
    {
        match self {
            GroupValidation::Valid => {
                proof {
                    reveal_strlit("");
                }
                ""
            },
            GroupValidation::Empty => "Maven group cannot be empty",
            GroupValidation::InvalidChar => "Maven group can only contain alphanumeric characters and dots",
            GroupValidation::EdgeDot => "Maven group cannot start or end with a dot",
        }
    }
}

/// Check a Maven group answer. `Valid` exactly on the well-formed
/// groups; a rejected answer carries the first rule it breaks.
pub fn validate_maven_group(maven_group: &str) -> (r: GroupValidation)
    ensures
        r is Valid <==> valid_maven_group(maven_group@),
        r is Empty <==> maven_group@.len() == 0,
        r is InvalidChar <==> maven_group@.len() > 0 && !group_chars_ok(maven_group@),
        r is EdgeDot <==> maven_group@.len() > 0 && group_chars_ok(maven_group@) && (
        maven_group@[0] == '.' || maven_group@[maven_group@.len() - 1] == '.'),
{
    let n = maven_group.unicode_len();
    if n == 0 {
        return GroupValidation::Empty;
    }
    let mut i: usize = 0;
    while i < n
        invariant
            0 <= i <= n,
            n == maven_group@.len(),
            forall|k: int| 0 <= k < i ==> is_group_char(#[trigger] maven_group@[k]),
        decreases n - i,
    {
        let c = maven_group.get_char(i);
        if !(('a' <= c && c <= 'z') || ('A' <= c && c <= 'Z') || ('0' <= c && c <= '9') || c
            == '.') {
            return GroupValidation::InvalidChar;
        }
        i += 1;
    }
    let first = maven_group.get_char(0);
    let last = maven_group.get_char(n - 1);
    if first == '.' || last == '.' {
        return GroupValidation::EdgeDot;
    }
    GroupValidation::Valid
}

} // verus!
