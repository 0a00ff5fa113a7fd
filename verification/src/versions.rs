//! The fetched version catalogs as plain values, and the filtering that
//! narrows them to one platform version.

use vstd::prelude::*;

use crate::utils::str_eq;
use crate::version::{
    lemma_sort_desc_elems, parse_pairs, sort_desc, sort_versions, sorted_versions, strs_view,
};

verus! {

/// All four catalogs of one run, fetched once and read only. Platform,
/// mapping and loader entries carry a stability flag; API versions come
/// already narrowed and sorted.
pub struct VersionData {
    pub minecraft: Vec<(String, bool)>,
    pub yarn: Vec<(String, bool)>,
    pub loader: Vec<(String, bool)>,
    pub fabric_api: Vec<String>,
}

/// One mapping-catalog entry: the platform version it belongs to, its
/// own version, and its stability flag.
pub struct YarnEntry {
    pub game_version: String,
    pub version: String,
    pub stable: bool,
}

/// One API-catalog entry: its version and the platform versions it is
/// compatible with.
pub struct ApiEntry {
    pub version_number: String,
    pub game_versions: Vec<String>,
}

/// The versions of the entries flagged stable, in catalog order.
pub open spec fn stable_of(s: Seq<(String, bool)>) -> Seq<Seq<char>>
    decreases s.len(),
{
    if s.len() == 0 {
        Seq::empty()
    } else if s[0].1 {
        seq![s[0].0@] + stable_of(s.drop_first())
    } else {
        stable_of(s.drop_first())
    }
}

/// Keep the versions flagged stable, in catalog order.
pub fn stable_versions(entries: &Vec<(String, bool)>) -> (r: Vec<String>)
    ensures
        strs_view(r@) == stable_of(entries@),
{
    let mut out: Vec<String> = Vec::new();
    let mut i: usize = 0;
    proof {
        assert(entries@.skip(0) =~= entries@);
        assert(strs_view(out@) + stable_of(entries@) =~= stable_of(entries@));
    }
    while i < entries.len()
        invariant
            0 <= i <= entries@.len(),
            stable_of(entries@) == strs_view(out@) + stable_of(entries@.skip(i as int)),
        decreases entries@.len() - i,
    {
        proof {
            assert(entries@.skip(i as int)[0] == entries@[i as int]);
            assert(entries@.skip(i as int).drop_first() =~= entries@.skip(i as int + 1));
        }
        if entries[i].1 {
            let v = entries[i].0.clone();
            out.push(v);
            proof {
                assert(strs_view(out@) =~= strs_view(out@.drop_last()) + seq![out@.last()@]);
            }
        }
        i += 1;
    }
    proof {
        assert(entries@.skip(entries@.len() as int) =~= Seq::<(String, bool)>::empty());
        assert(strs_view(out@) + Seq::<Seq<char>>::empty() =~= strs_view(out@));
    }
    out
}

/// The mapping versions whose platform version equals `mc` exactly, in
/// catalog order.
pub open spec fn yarn_matches(s: Seq<YarnEntry>, mc: Seq<char>) -> Seq<Seq<char>>
    decreases s.len(),
{
    if s.len() == 0 {
        Seq::empty()
    } else if s[0].game_version@ == mc {
        seq![s[0].version@] + yarn_matches(s.drop_first(), mc)
    } else {
        yarn_matches(s.drop_first(), mc)
    }
}

/// What the compatible-mappings query yields: the matching entries'
/// versions, sorted by descending precedence.
pub open spec fn compatible_yarn(s: Seq<YarnEntry>, mc: Seq<char>) -> Seq<Seq<char>> {
    sorted_versions(yarn_matches(s, mc))
}

/// The mapping versions usable with the selected platform version:
/// exact matches only, sorted descending, unparsable versions dropped.
pub fn get_compatible_yarn_versions(entries: &Vec<YarnEntry>, minecraft_version: &str) -> (r: Vec<
    String,
>)
    ensures
        strs_view(r@) == compatible_yarn(entries@, minecraft_version@),
{
    let mut matching: Vec<String> = Vec::new();
    let mut i: usize = 0;
    proof {
        assert(entries@.skip(0) =~= entries@);
        assert(strs_view(matching@) + yarn_matches(entries@, minecraft_version@) =~= yarn_matches(
            entries@,
            minecraft_version@,
        ));
    }
    while i < entries.len()
        invariant
            0 <= i <= entries@.len(),
            yarn_matches(entries@, minecraft_version@) == strs_view(matching@) + yarn_matches(
                entries@.skip(i as int),
                minecraft_version@,
            ),
        decreases entries@.len() - i,
    {
        proof {
            assert(entries@.skip(i as int)[0] == entries@[i as int]);
            assert(entries@.skip(i as int).drop_first() =~= entries@.skip(i as int + 1));
        }
        if str_eq(entries[i].game_version.as_str(), minecraft_version) {
            let v = entries[i].version.clone();
            matching.push(v);
            proof {
                assert(strs_view(matching@) =~= strs_view(matching@.drop_last()) + seq![
                    matching@.last()@,
                ]);
            }
        }
        i += 1;
    }
    proof {
        assert(entries@.skip(entries@.len() as int) =~= Seq::<YarnEntry>::empty());
        assert(strs_view(matching@) + Seq::<Seq<char>>::empty() =~= strs_view(matching@));
    }
    sort_versions(matching)
}

/// Does the entry name `mc` among its compatible platform versions?
pub open spec fn api_entry_matches(e: ApiEntry, mc: Seq<char>) -> bool {
    exists|k: int| 0 <= k < e.game_versions@.len() && (#[trigger] e.game_versions@[k])@ == mc
}

/// The API versions whose compatibility set holds `mc`, in catalog
/// order.
pub open spec fn api_matches(s: Seq<ApiEntry>, mc: Seq<char>) -> Seq<Seq<char>>
    decreases s.len(),
{
    if s.len() == 0 {
        Seq::empty()
    } else if api_entry_matches(s[0], mc) {
        seq![s[0].version_number@] + api_matches(s.drop_first(), mc)
    } else {
        api_matches(s.drop_first(), mc)
    }
}

/// What the compatible-API query yields: the matching entries' versions,
/// sorted by descending precedence.
pub open spec fn compatible_api(s: Seq<ApiEntry>, mc: Seq<char>) -> Seq<Seq<char>> {
    sorted_versions(api_matches(s, mc))
}

fn entry_lists_version(e: &ApiEntry, minecraft_version: &str) -> (r: bool)
    ensures
        r == api_entry_matches(*e, minecraft_version@),
{
    let mut j: usize = 0;
    while j < e.game_versions.len()
        invariant
            0 <= j <= e.game_versions@.len(),
            forall|k: int| 0 <= k < j ==> (#[trigger] e.game_versions@[k])@ != minecraft_version@,
        decreases e.game_versions@.len() - j,
    {
        if str_eq(e.game_versions[j].as_str(), minecraft_version) {
            return true;
        }
        j += 1;
    }
    false
}

/// The API versions compatible with the selected platform version,
/// sorted descending, unparsable versions dropped.
pub fn get_compatible_fabric_api_versions(entries: &Vec<ApiEntry>, minecraft_version: &str) -> (r:
    Vec<String>)
    ensures
        strs_view(r@) == compatible_api(entries@, minecraft_version@),
{
    let mut matching: Vec<String> = Vec::new();
    let mut i: usize = 0;
    proof {
        assert(entries@.skip(0) =~= entries@);
        assert(strs_view(matching@) + api_matches(entries@, minecraft_version@) =~= api_matches(
            entries@,
            minecraft_version@,
        ));
    }
    while i < entries.len()
        invariant
            0 <= i <= entries@.len(),
            api_matches(entries@, minecraft_version@) == strs_view(matching@) + api_matches(
                entries@.skip(i as int),
                minecraft_version@,
            ),
        decreases entries@.len() - i,
    {
        proof {
            assert(entries@.skip(i as int)[0] == entries@[i as int]);
            assert(entries@.skip(i as int).drop_first() =~= entries@.skip(i as int + 1));
        }
        if entry_lists_version(&entries[i], minecraft_version) {
            let v = entries[i].version_number.clone();
            matching.push(v);
            proof {
                assert(strs_view(matching@) =~= strs_view(matching@.drop_last()) + seq![
                    matching@.last()@,
                ]);
            }
        }
        i += 1;
    }
    proof {
        assert(entries@.skip(entries@.len() as int) =~= Seq::<ApiEntry>::empty());
        assert(strs_view(matching@) + Seq::<Seq<char>>::empty() =~= strs_view(matching@));
    }
    sort_versions(matching)
}

proof fn lemma_parse_pairs_strings(vs: Seq<Seq<char>>)
    ensures
        forall|k: int|
            0 <= k < parse_pairs(vs).len() ==> vs.contains(#[trigger] parse_pairs(vs)[k].0),
    decreases vs.len(),
{
    if vs.len() > 0 {
        let rest = vs.drop_first();
        lemma_parse_pairs_strings(rest);
        assert forall|k: int| 0 <= k < parse_pairs(vs).len() implies vs.contains(
            #[trigger] parse_pairs(vs)[k].0,
        ) by {
            if crate::version::version_of(vs[0]) is Some {
                if k == 0 {
                    assert(parse_pairs(vs)[0].0 == vs[0]);
                } else {
                    assert(parse_pairs(vs)[k] == parse_pairs(rest)[k - 1]);
                    assert(rest.contains(parse_pairs(rest)[k - 1].0));
                    let m = choose|m: int|
                        0 <= m < rest.len() && rest[m] == parse_pairs(rest)[k - 1].0;
                    assert(vs[m + 1] == parse_pairs(vs)[k].0);
                }
            } else {
                assert(parse_pairs(vs)[k] == parse_pairs(rest)[k]);
                assert(rest.contains(parse_pairs(rest)[k].0));
                let m = choose|m: int| 0 <= m < rest.len() && rest[m] == parse_pairs(rest)[k].0;
                assert(vs[m + 1] == parse_pairs(vs)[k].0);
            }
        }
    }
}

proof fn lemma_yarn_matches_only(s: Seq<YarnEntry>, mc: Seq<char>)
    ensures
        forall|v: Seq<char>|
            #[trigger] yarn_matches(s, mc).contains(v) ==> exists|k: int|
                0 <= k < s.len() && (#[trigger] s[k]).game_version@ == mc && s[k].version@ == v,
    decreases s.len(),
{
    if s.len() > 0 {
        let rest = s.drop_first();
        lemma_yarn_matches_only(rest, mc);
        assert forall|v: Seq<char>| #[trigger] yarn_matches(s, mc).contains(v) implies exists|
            k: int,
        | 0 <= k < s.len() && (#[trigger] s[k]).game_version@ == mc && s[k].version@ == v by {
            let m = choose|m: int| 0 <= m < yarn_matches(s, mc).len() && yarn_matches(s, mc)[m] == v;
            if s[0].game_version@ == mc && m == 0 {
                assert(s[0].game_version@ == mc && s[0].version@ == v);
            } else {
                let m2 = if s[0].game_version@ == mc {
                    m - 1
                } else {
                    m
                };
                assert(yarn_matches(rest, mc)[m2] == v);
                assert(yarn_matches(rest, mc).contains(v));
                let k = choose|k: int|
                    0 <= k < rest.len() && (#[trigger] rest[k]).game_version@ == mc
                        && rest[k].version@ == v;
                assert(s[k + 1].game_version@ == mc && s[k + 1].version@ == v);
            }
        }
    }
}

proof fn lemma_api_matches_only(s: Seq<ApiEntry>, mc: Seq<char>)
    ensures
        forall|v: Seq<char>|
            #[trigger] api_matches(s, mc).contains(v) ==> exists|k: int|
                0 <= k < s.len() && api_entry_matches(#[trigger] s[k], mc) && s[k].version_number@
                    == v,
    decreases s.len(),
{
    if s.len() > 0 {
        let rest = s.drop_first();
        lemma_api_matches_only(rest, mc);
        assert forall|v: Seq<char>| #[trigger] api_matches(s, mc).contains(v) implies exists|
            k: int,
        |
            0 <= k < s.len() && api_entry_matches(#[trigger] s[k], mc) && s[k].version_number@
                == v by {
            let m = choose|m: int| 0 <= m < api_matches(s, mc).len() && api_matches(s, mc)[m] == v;
            if api_entry_matches(s[0], mc) && m == 0 {
                assert(api_entry_matches(s[0], mc) && s[0].version_number@ == v);
            } else {
                let m2 = if api_entry_matches(s[0], mc) {
                    m - 1
                } else {
                    m
                };
                assert(api_matches(rest, mc)[m2] == v);
                assert(api_matches(rest, mc).contains(v));
                let k = choose|k: int|
                    0 <= k < rest.len() && api_entry_matches(#[trigger] rest[k], mc)
                        && rest[k].version_number@ == v;
                assert(api_entry_matches(s[k + 1], mc) && s[k + 1].version_number@ == v);
            }
        }
    }
}

/// Law: the compatible-API list holds a version only through a catalog
/// entry whose compatibility set names the selected platform version.
pub proof fn lemma_compatible_api_only_matching(entries: Seq<ApiEntry>, mc: Seq<char>)
    ensures
        forall|v: Seq<char>|
            #[trigger] compatible_api(entries, mc).contains(v) ==> exists|k: int|
                0 <= k < entries.len() && api_entry_matches(#[trigger] entries[k], mc)
                    && entries[k].version_number@ == v,
{
    let vs = api_matches(entries, mc);
    let sorted = sort_desc(parse_pairs(vs));
    lemma_sort_desc_elems(parse_pairs(vs));
    lemma_parse_pairs_strings(vs);
    lemma_api_matches_only(entries, mc);
    assert forall|v: Seq<char>| #[trigger] compatible_api(entries, mc).contains(v) implies exists|
        k: int,
    |
        0 <= k < entries.len() && api_entry_matches(#[trigger] entries[k], mc)
            && entries[k].version_number@ == v by {
        let out = compatible_api(entries, mc);
        let m = choose|m: int| 0 <= m < out.len() && out[m] == v;
        assert(out[m] == sorted[m].0);
        assert(sorted.contains(sorted[m]));
        assert(parse_pairs(vs).contains(sorted[m]));
        let m2 = choose|m2: int|
            0 <= m2 < parse_pairs(vs).len() && parse_pairs(vs)[m2] == sorted[m];
        assert(vs.contains(parse_pairs(vs)[m2].0));
        assert(vs.contains(v));
    }
}

/// Law: the compatible-mappings list holds a version only through a
/// catalog entry whose platform version equals the selected one exactly.
pub proof fn lemma_compatible_yarn_only_matching(entries: Seq<YarnEntry>, mc: Seq<char>)
    ensures
        forall|v: Seq<char>|
            #[trigger] compatible_yarn(entries, mc).contains(v) ==> exists|k: int|
                0 <= k < entries.len() && (#[trigger] entries[k]).game_version@ == mc
                    && entries[k].version@ == v,
{
    let vs = yarn_matches(entries, mc);
    let sorted = sort_desc(parse_pairs(vs));
    lemma_sort_desc_elems(parse_pairs(vs));
    lemma_parse_pairs_strings(vs);
    lemma_yarn_matches_only(entries, mc);
    assert forall|v: Seq<char>| #[trigger] compatible_yarn(entries, mc).contains(v) implies exists|
        k: int,
    |
        0 <= k < entries.len() && (#[trigger] entries[k]).game_version@ == mc
            && entries[k].version@ == v by {
        let out = compatible_yarn(entries, mc);
        let m = choose|m: int| 0 <= m < out.len() && out[m] == v;
        assert(out[m] == sorted[m].0);
        assert(sorted.contains(sorted[m]));
        assert(parse_pairs(vs).contains(sorted[m]));
        let m2 = choose|m2: int|
            0 <= m2 < parse_pairs(vs).len() && parse_pairs(vs)[m2] == sorted[m];
        assert(vs.contains(parse_pairs(vs)[m2].0));
        assert(vs.contains(v));
    }
}

} // verus!
