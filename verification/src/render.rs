//! Literal placeholder substitution: each named token is replaced by its
//! value, leftmost first, never overlapping; text without a token passes
//! through unchanged.

use vstd::prelude::*;

use crate::utils::chars_to_string;

verus! {

/// Leftmost, non-overlapping replacement of `pat` by `val` throughout
/// `text`. An empty pattern replaces nothing.
pub open spec fn replace_all(text: Seq<char>, pat: Seq<char>, val: Seq<char>) -> Seq<char>
    decreases text.len(),
{
    if pat.len() == 0 || text.len() < pat.len() {
        text
    } else if text.take(pat.len() as int) == pat {
        val + replace_all(text.skip(pat.len() as int), pat, val)
    } else {
        seq![text[0]] + replace_all(text.drop_first(), pat, val)
    }
}

/// The substitutions applied one after the other, in order.
pub open spec fn apply_subs(text: Seq<char>, subs: Seq<(Seq<char>, Seq<char>)>) -> Seq<char>
    decreases subs.len(),
{
    if subs.len() == 0 {
        text
    } else {
        apply_subs(replace_all(text, subs[0].0, subs[0].1), subs.drop_first())
    }
}

pub open spec fn subs_view(s: Seq<(String, String)>) -> Seq<(Seq<char>, Seq<char>)> {
    s.map_values(|p: (String, String)| (p.0@, p.1@))
}

fn matches_at(text: &Vec<char>, i: usize, pat: &Vec<char>) -> (r: bool)
    requires
        i + pat@.len() <= text@.len(),
    ensures
        r == (text@.skip(i as int).take(pat@.len() as int) == pat@),
{
    let n = text.len();
    let mut k: usize = 0;
    while k < pat.len()
        invariant
            0 <= k <= pat@.len(),
            i + pat@.len() <= text@.len(),
            n == text@.len(),
            forall|j: int| 0 <= j < k ==> text@[i + j] == pat@[j],
        decreases pat@.len() - k,
    {
        if text[i + k] != pat[k] {
            proof {
                assert(text@.skip(i as int).take(pat@.len() as int)[k as int] != pat@[k as int]);
            }
            return false;
        }
        k += 1;
    }
    proof {
        assert(text@.skip(i as int).take(pat@.len() as int) =~= pat@);
    }
    true
}

fn replace_all_chars(text: &Vec<char>, pat: &Vec<char>, val: &Vec<char>) -> (r: Vec<char>)
    ensures
        r@ == replace_all(text@, pat@, val@),
{
    let n = text.len();
    let plen = pat.len();
    let mut out: Vec<char> = Vec::new();
    let mut i: usize = 0;
    proof {
        assert(text@.skip(0) =~= text@);
        assert(out@ + replace_all(text@, pat@, val@) =~= replace_all(text@, pat@, val@));
    }
    while i < n
        invariant
            0 <= i <= n,
            n == text@.len(),
            plen == pat@.len(),
            replace_all(text@, pat@, val@) == out@ + replace_all(
                text@.skip(i as int),
                pat@,
                val@,
            ),
        decreases n - i,
    {
        let ghost rem = text@.skip(i as int);
        if plen > 0 && plen <= n - i && matches_at(text, i, pat) {
            proof {
                assert(rem.take(plen as int) == pat@);
                assert(rem.skip(plen as int) =~= text@.skip(i as int + plen as int));
                assert(replace_all(rem, pat@, val@) == val@ + replace_all(
                    text@.skip(i as int + plen as int),
                    pat@,
                    val@,
                ));
            }
            let mut j: usize = 0;
            let ghost out0 = out@;
            while j < val.len()
                invariant
                    0 <= j <= val@.len(),
                    out@ == out0 + val@.take(j as int),
                decreases val@.len() - j,
            {
                let c = val[j];
                out.push(c);
                proof {
                    assert(out0 + val@.take(j as int + 1) =~= (out0 + val@.take(j as int)).push(c));
                }
                j += 1;
            }
            proof {
                assert(val@.take(val@.len() as int) =~= val@);
                assert((out0 + val@) + replace_all(text@.skip(i as int + plen as int), pat@, val@)
                    =~= out0 + (val@ + replace_all(text@.skip(i as int + plen as int), pat@, val@)));
            }
            i += plen;
        } else {
            let c = text[i];
            proof {
                assert(rem[0] == c);
                assert(rem.drop_first() =~= text@.skip(i as int + 1));
                if plen == 0 || rem.len() < plen as int {
                    assert(replace_all(rem, pat@, val@) == rem);
                    assert(replace_all(text@.skip(i as int + 1), pat@, val@) == text@.skip(
                        i as int + 1,
                    ));
                    assert(rem =~= seq![c] + text@.skip(i as int + 1));
                } else {
                    assert(rem.take(plen as int) != pat@);
                    assert(replace_all(rem, pat@, val@) == seq![c] + replace_all(
                        rem.drop_first(),
                        pat@,
                        val@,
                    ));
                }
                assert((out@ + seq![c]) + replace_all(text@.skip(i as int + 1), pat@, val@) =~= out@
                    + (seq![c] + replace_all(text@.skip(i as int + 1), pat@, val@)));
            }
            out.push(c);
            proof {
                assert(out@ =~= out@.drop_last() + seq![c]);
            }
            i += 1;
        }
    }
    proof {
        assert(text@.skip(n as int) =~= Seq::<char>::empty());
        assert(replace_all(Seq::<char>::empty(), pat@, val@) == Seq::<char>::empty());
        assert(out@ + Seq::<char>::empty() =~= out@);
    }
    out
}

/// Copy the characters of a string into a vector.
pub fn str_to_chars(s: &str) -> (v: Vec<char>)
    ensures
        v@ == s@,
{
    let n = s.unicode_len();
    let mut v: Vec<char> = Vec::new();
    let mut i: usize = 0;
    while i < n
        invariant
            0 <= i <= n,
            n == s@.len(),
            v@ == s@.take(i as int),
        decreases n - i,
    {
        let c = s.get_char(i);
        v.push(c);
        proof {
            assert(s@.take(i as int + 1) =~= s@.take(i as int).push(c));
        }
        i += 1;
    }
    proof {
        assert(s@.take(n as int) =~= s@);
    }
    v
}

/// Apply every substitution to the template, in order, and return the
/// rendered text. Tokens the map does not cover stay as they are.
pub fn render(template: &str, subs: &Vec<(String, String)>) -> (r: String)
    ensures
        r@ == apply_subs(template@, subs_view(subs@)),
{
    let mut text = str_to_chars(template);
    let mut i: usize = 0;
    let ghost sv = subs_view(subs@);
    proof {
        assert(sv.skip(0) =~= sv);
    }
    while i < subs.len()
        invariant
            0 <= i <= subs@.len(),
            sv == subs_view(subs@),
            apply_subs(template@, sv) == apply_subs(text@, sv.skip(i as int)),
        decreases subs@.len() - i,
    {
        proof {
            assert(sv.skip(i as int)[0] == sv[i as int]);
            assert(sv[i as int] == (subs@[i as int].0@, subs@[i as int].1@));
            assert(sv.skip(i as int).drop_first() =~= sv.skip(i as int + 1));
        }
        let pat = str_to_chars(subs[i].0.as_str());
        let val = str_to_chars(subs[i].1.as_str());
        text = replace_all_chars(&text, &pat, &val);
        i += 1;
    }
    proof {
        assert(sv.skip(subs@.len() as int) =~= Seq::<(Seq<char>, Seq<char>)>::empty());
    }
    chars_to_string(&text)
}

} // verus!
