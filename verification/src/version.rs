//! Semantic versions as plain values: parsing (through the `semver`
//! crate), the precedence order, and descending stable sorting.

use vstd::prelude::*;

verus! {

/// One identifier of a prerelease tag. A wholly numeric identifier keeps
/// its digits; every other identifier keeps its characters.
#[derive(Clone)]
pub enum PreId {
    Num(Vec<char>),
    Alpha(Vec<char>),
}

/// Mathematical model of a prerelease identifier.
pub ghost enum PreIdV {
    Num(Seq<char>),
    Alpha(Seq<char>),
}

impl View for PreId {
    type V = PreIdV;

    open spec fn view(&self) -> PreIdV {
        match self {
            PreId::Num(d) => PreIdV::Num(d@),
            PreId::Alpha(c) => PreIdV::Alpha(c@),
        }
    }
}

/// A parsed semantic version: numeric core plus the prerelease tag,
/// split into identifiers. Build metadata takes no part in precedence
/// and is not kept.
#[derive(Clone)]
pub struct SemVer {
    pub major: u64,
    pub minor: u64,
    pub patch: u64,
    pub pre: Vec<PreId>,
}

/// Mathematical model of a semantic version.
#[verifier::ext_equal]
pub ghost struct SemVerV {
    pub major: int,
    pub minor: int,
    pub patch: int,
    pub pre: Seq<PreIdV>,
}

pub open spec fn ids_view(v: Seq<PreId>) -> Seq<PreIdV> {
    v.map_values(|p: PreId| p@)
}

impl View for SemVer {
    type V = SemVerV;

    open spec fn view(&self) -> SemVerV {
        SemVerV { major: self.major as int, minor: self.minor as int, patch: self.patch as int, pre: ids_view(self.pre@) }
    }
}

/// What `semver::Version::parse` returns on a given string: `None` where
/// it errs, else the numeric core and the prerelease tag as one string.
pub uninterp spec fn semver_of(s: Seq<char>) -> Option<(int, int, int, Seq<char>)>;

/// Relies on `semver::Version::parse`: the result is a function of the
/// characters alone; `major`, `minor`, `patch` and `pre` are its fields.
#[verifier::external_body]
fn parse_semver_raw(s: &str) -> (r: Option<(u64, u64, u64, String)>)
    ensures
        match r {
            Some(p) => semver_of(s@) == Some((p.0 as int, p.1 as int, p.2 as int, p.3@)),
            None => semver_of(s@) is None,
        },
{
    match semver::Version::parse(s) {
        Ok(v) => Some((v.major, v.minor, v.patch, v.pre.as_str().to_string())),
        Err(_) => None,
    }
}

/// A nonempty run of ASCII digits.
pub open spec fn is_digit_seq(s: Seq<char>) -> bool {
    s.len() > 0 && forall|i: int| 0 <= i < s.len() ==> '0' <= #[trigger] s[i] <= '9'
}

/// How one dot-separated segment of a prerelease tag is read.
pub open spec fn classify_id(s: Seq<char>) -> PreIdV {
    if is_digit_seq(s) {
        PreIdV::Num(s)
    } else {
        PreIdV::Alpha(s)
    }
}

pub open spec fn split_pre_rec(s: Seq<char>, cur: Seq<char>) -> Seq<PreIdV>
    decreases s.len(),
{
    if s.len() == 0 {
        seq![classify_id(cur)]
    } else if s[0] == '.' {
        seq![classify_id(cur)] + split_pre_rec(s.drop_first(), Seq::empty())
    } else {
        split_pre_rec(s.drop_first(), cur.push(s[0]))
    }
}

/// The identifiers of a prerelease tag: the tag split at the dots, each
/// segment read as numeric or lexical. The empty tag has none.
pub open spec fn split_pre(s: Seq<char>) -> Seq<PreIdV> {
    if s.len() == 0 {
        Seq::empty()
    } else {
        split_pre_rec(s, Seq::empty())
    }
}

/// What parsing a version string yields in the model: the numeric core
/// and the split prerelease tag, or nothing where the string is not a
/// semantic version.
pub open spec fn version_of(s: Seq<char>) -> Option<SemVerV> {
    match semver_of(s) {
        None => None,
        Some(p) => Some(SemVerV { major: p.0, minor: p.1, patch: p.2, pre: split_pre(p.3) }),
    }
}

fn classify_id_exec(cur: Vec<char>) -> (r: PreId)
    ensures
        r@ == classify_id(cur@),
{
    let mut all_digits = cur.len() > 0;
    let mut i: usize = 0;
    while i < cur.len()
        invariant
            0 <= i <= cur@.len(),
            all_digits == (cur@.len() > 0 && forall|k: int| 0 <= k < i ==> '0' <= #[trigger] cur@[k] <= '9'),
        decreases cur@.len() - i,
    {
        let c = cur[i];
        if !('0' <= c && c <= '9') {
            all_digits = false;
        }
        i += 1;
    }
    if all_digits {
        PreId::Num(cur)
    } else {
        PreId::Alpha(cur)
    }
}

fn split_pre_exec(p: &str) -> (r: Vec<PreId>)
    ensures
        ids_view(r@) == split_pre(p@),
{
    let n = p.unicode_len();
    let mut out: Vec<PreId> = Vec::new();
    if n == 0 {
        assert(ids_view(out@) =~= split_pre(p@));
        return out;
    }
    let mut cur: Vec<char> = Vec::new();
    let mut i: usize = 0;
    proof {
        assert(p@.skip(0) =~= p@);
        assert(ids_view(out@) =~= Seq::<PreIdV>::empty());
        assert(ids_view(out@) + split_pre_rec(p@, Seq::empty()) =~= split_pre_rec(p@, Seq::empty()));
    }
    while i < n
        invariant
            0 <= i <= n,
            n == p@.len(),
            split_pre_rec(p@, Seq::empty()) =~= ids_view(out@) + split_pre_rec(p@.skip(i as int), cur@),
        decreases n - i,
    {
        let c = p.get_char(i);
        proof {
            assert(p@.skip(i as int)[0] == p@[i as int]);
            assert(p@.skip(i as int).drop_first() =~= p@.skip(i as int + 1));
        }
        if c == '.' {
            let id = classify_id_exec(cur);
            out.push(id);
            cur = Vec::new();
            proof {
                assert(ids_view(out@) =~= ids_view(out@.drop_last()) + seq![out@.last()@]);
            }
        } else {
            cur.push(c);
        }
        i += 1;
    }
    proof {
        assert(p@.skip(n as int) =~= Seq::<char>::empty());
    }
    let id = classify_id_exec(cur);
    out.push(id);
    proof {
        assert(ids_view(out@) =~= ids_view(out@.drop_last()) + seq![out@.last()@]);
        assert(ids_view(out@) =~= split_pre(p@));
    }
    out
}

/// Parse a version string. Returns `None` exactly where the `semver`
/// grammar rejects the string.
pub fn parse_version(s: &str) -> (r: Option<SemVer>)
    ensures
        match version_of(s@) {
            None => r is None,
            Some(v) => r is Some && r->0@ == v,
        },
{
    match parse_semver_raw(s) {
        None => None,
        Some(p) => {
            let pre = split_pre_exec(p.3.as_str());
            Some(SemVer { major: p.0, minor: p.1, patch: p.2, pre })
        },
    }
}

/// Strict lexicographic order on character sequences, by code point; a
/// proper prefix comes first.
pub open spec fn chars_lt(a: Seq<char>, b: Seq<char>) -> bool
    decreases a.len(),
{
    if b.len() == 0 {
        false
    } else if a.len() == 0 {
        true
    } else if a[0] != b[0] {
        (a[0] as u32) < (b[0] as u32)
    } else {
        chars_lt(a.drop_first(), b.drop_first())
    }
}

/// Numeric order on digit runs: fewer digits first, same count lexically.
pub open spec fn num_lt(a: Seq<char>, b: Seq<char>) -> bool {
    a.len() < b.len() || (a.len() == b.len() && chars_lt(a, b))
}

/// Order on prerelease identifiers: numeric ones numerically and before
/// every lexical one; lexical ones by ASCII code.
pub open spec fn pre_id_lt(a: PreIdV, b: PreIdV) -> bool {
    match (a, b) {
        (PreIdV::Num(x), PreIdV::Num(y)) => num_lt(x, y),
        (PreIdV::Num(_), PreIdV::Alpha(_)) => true,
        (PreIdV::Alpha(_), PreIdV::Num(_)) => false,
        (PreIdV::Alpha(x), PreIdV::Alpha(y)) => chars_lt(x, y),
    }
}

/// Order on prerelease tags: identifier by identifier from the left; a
/// tag that runs out first comes first.
pub open spec fn pre_lt(a: Seq<PreIdV>, b: Seq<PreIdV>) -> bool
    decreases a.len(),
{
    if b.len() == 0 {
        false
    } else if a.len() == 0 {
        true
    } else if a[0] != b[0] {
        pre_id_lt(a[0], b[0])
    } else {
        pre_lt(a.drop_first(), b.drop_first())
    }
}

/// Semantic-version precedence: the numeric core decides first; with
/// equal cores a version with a prerelease tag comes before the release,
/// and two tags compare identifier by identifier.
pub open spec fn semver_lt(a: SemVerV, b: SemVerV) -> bool {
    if a.major != b.major {
        a.major < b.major
    } else if a.minor != b.minor {
        a.minor < b.minor
    } else if a.patch != b.patch {
        a.patch < b.patch
    } else if a.pre.len() == 0 {
        false
    } else if b.pre.len() == 0 {
        true
    } else {
        pre_lt(a.pre, b.pre)
    }
}

fn chars_lt_exec(a: &Vec<char>, b: &Vec<char>) -> (r: bool)
    ensures
        r == chars_lt(a@, b@),
{
    let mut i: usize = 0;
    proof {
        assert(a@.skip(0) =~= a@);
        assert(b@.skip(0) =~= b@);
    }
    while i < a.len() && i < b.len()
        invariant
            0 <= i <= a@.len(),
            0 <= i <= b@.len(),
            chars_lt(a@, b@) == chars_lt(a@.skip(i as int), b@.skip(i as int)),
        decreases a@.len() - i,
    {
        proof {
            assert(a@.skip(i as int).drop_first() =~= a@.skip(i as int + 1));
            assert(b@.skip(i as int).drop_first() =~= b@.skip(i as int + 1));
        }
        if a[i] != b[i] {
            return (a[i] as u32) < (b[i] as u32);
        }
        i += 1;
    }
    a.len() < b.len()
}

fn chars_eq_exec(a: &Vec<char>, b: &Vec<char>) -> (r: bool)
    ensures
        r == (a@ == b@),
{
    if a.len() != b.len() {
        return false;
    }
    let mut i: usize = 0;
    while i < a.len()
        invariant
            0 <= i <= a@.len(),
            a@.len() == b@.len(),
            forall|k: int| 0 <= k < i ==> a@[k] == b@[k],
        decreases a@.len() - i,
    {
        if a[i] != b[i] {
            return false;
        }
        i += 1;
    }
    proof {
        assert(a@ =~= b@);
    }
    true
}

fn pre_id_eq_exec(a: &PreId, b: &PreId) -> (r: bool)
    ensures
        r == (a@ == b@),
{
    match (a, b) {
        (PreId::Num(x), PreId::Num(y)) => chars_eq_exec(x, y),
        (PreId::Alpha(x), PreId::Alpha(y)) => chars_eq_exec(x, y),
        _ => false,
    }
}

fn pre_id_lt_exec(a: &PreId, b: &PreId) -> (r: bool)
    ensures
        r == pre_id_lt(a@, b@),
{
    match (a, b) {
        (PreId::Num(x), PreId::Num(y)) => {
            if x.len() < y.len() {
                true
            } else if x.len() == y.len() {
                chars_lt_exec(x, y)
            } else {
                false
            }
        },
        (PreId::Num(_), PreId::Alpha(_)) => true,
        (PreId::Alpha(_), PreId::Num(_)) => false,
        (PreId::Alpha(x), PreId::Alpha(y)) => chars_lt_exec(x, y),
    }
}

fn pre_lt_exec(a: &Vec<PreId>, b: &Vec<PreId>) -> (r: bool)
    ensures
        r == pre_lt(ids_view(a@), ids_view(b@)),
{
    let mut i: usize = 0;
    proof {
        assert(ids_view(a@).skip(0) =~= ids_view(a@));
        assert(ids_view(b@).skip(0) =~= ids_view(b@));
    }
    while i < a.len() && i < b.len()
        invariant
            0 <= i <= a@.len(),
            0 <= i <= b@.len(),
            pre_lt(ids_view(a@), ids_view(b@)) == pre_lt(ids_view(a@).skip(i as int), ids_view(b@).skip(i as int)),
        decreases a@.len() - i,
    {
        proof {
            assert(ids_view(a@).skip(i as int).drop_first() =~= ids_view(a@).skip(i as int + 1));
            assert(ids_view(b@).skip(i as int).drop_first() =~= ids_view(b@).skip(i as int + 1));
            assert(ids_view(a@).skip(i as int)[0] == a@[i as int]@);
            assert(ids_view(b@).skip(i as int)[0] == b@[i as int]@);
        }
        if !pre_id_eq_exec(&a[i], &b[i]) {
            return pre_id_lt_exec(&a[i], &b[i]);
        }
        i += 1;
    }
    proof {
        assert(ids_view(a@).len() == a@.len());
        assert(ids_view(b@).len() == b@.len());
    }
    a.len() < b.len()
}

/// Does `a` come strictly before `b` in semantic-version precedence?
pub fn semver_lt_exec(a: &SemVer, b: &SemVer) -> (r: bool)
    ensures
        r == semver_lt(a@, b@),
{
    if a.major != b.major {
        a.major < b.major
    } else if a.minor != b.minor {
        a.minor < b.minor
    } else if a.patch != b.patch {
        a.patch < b.patch
    } else if a.pre.len() == 0 {
        proof {
            assert(ids_view(a.pre@).len() == a.pre@.len());
        }
        false
    } else if b.pre.len() == 0 {
        proof {
            assert(ids_view(a.pre@).len() == a.pre@.len());
            assert(ids_view(b.pre@).len() == b.pre@.len());
        }
        true
    } else {
        proof {
            assert(ids_view(a.pre@).len() == a.pre@.len());
            assert(ids_view(b.pre@).len() == b.pre@.len());
        }
        pre_lt_exec(&a.pre, &b.pre)
    }
}

pub open spec fn pair_view(p: (String, SemVer)) -> (Seq<char>, SemVerV) {
    (p.0@, p.1@)
}

pub open spec fn pairs_view(s: Seq<(String, SemVer)>) -> Seq<(Seq<char>, SemVerV)> {
    s.map_values(|p: (String, SemVer)| pair_view(p))
}

/// Insert one string/version pair into a descending run: it passes every
/// strictly greater pair and stands before the first remaining one.
pub open spec fn insert_desc(x: (Seq<char>, SemVerV), s: Seq<(Seq<char>, SemVerV)>) -> Seq<
    (Seq<char>, SemVerV),
>
    decreases s.len(),
{
    if s.len() == 0 {
        seq![x]
    } else if semver_lt(x.1, s[0].1) {
        seq![s[0]] + insert_desc(x, s.drop_first())
    } else {
        seq![x] + s
    }
}

/// Descending insertion sort, stable: a pair taken from earlier in the
/// input stands before every pair of equal precedence taken later.
pub open spec fn sort_desc(s: Seq<(Seq<char>, SemVerV)>) -> Seq<(Seq<char>, SemVerV)>
    decreases s.len(),
{
    if s.len() == 0 {
        s
    } else {
        insert_desc(s[0], sort_desc(s.drop_first()))
    }
}

/// The strings that parse as semantic versions, in input order, each
/// beside its parsed value; the others are dropped.
pub open spec fn parse_pairs(vs: Seq<Seq<char>>) -> Seq<(Seq<char>, SemVerV)>
    decreases vs.len(),
{
    if vs.len() == 0 {
        Seq::empty()
    } else {
        match version_of(vs[0]) {
            Some(v) => seq![(vs[0], v)] + parse_pairs(vs.drop_first()),
            None => parse_pairs(vs.drop_first()),
        }
    }
}

/// What sorting a list of version strings yields: the parseable ones,
/// in descending precedence, ties kept in input order.
pub open spec fn sorted_versions(vs: Seq<Seq<char>>) -> Seq<Seq<char>> {
    sort_desc(parse_pairs(vs)).map_values(|p: (Seq<char>, SemVerV)| p.0)
}

pub open spec fn strs_view(s: Seq<String>) -> Seq<Seq<char>> {
    s.map_values(|v: String| v@)
}

fn insert_sorted(out: &mut Vec<(String, SemVer)>, x: (String, SemVer))
    ensures
        pairs_view(final (out)@) == insert_desc(pair_view(x), pairs_view(old(out)@)),
{
    let ghost s = pairs_view(out@);
    let ghost xv = pair_view(x);
    let mut j: usize = 0;
    let mut scanning = true;
    proof {
        assert(s.take(0) =~= Seq::empty());
        assert(s.skip(0) =~= s);
        assert(insert_desc(xv, s) =~= s.take(0) + insert_desc(xv, s.skip(0)));
    }
    while scanning && j < out.len()
        invariant
            0 <= j <= s.len(),
            s == pairs_view(out@),
            xv == pair_view(x),
            insert_desc(xv, s) == s.take(j as int) + insert_desc(xv, s.skip(j as int)),
            !scanning ==> j < s.len() && !semver_lt(xv.1, s[j as int].1),
        decreases s.len() - j + (if scanning { 1int } else { 0int }),
    {
        proof {
            assert(s[j as int] == pair_view(out@[j as int]));
        }
        if semver_lt_exec(&x.1, &out[j].1) {
            proof {
                assert(s.skip(j as int)[0] == s[j as int]);
                assert(s.skip(j as int).drop_first() =~= s.skip(j as int + 1));
                assert(insert_desc(xv, s.skip(j as int)) == seq![s[j as int]] + insert_desc(
                    xv,
                    s.skip(j as int + 1),
                ));
                assert(s.take(j as int) + (seq![s[j as int]] + insert_desc(xv, s.skip(j as int + 1)))
                    =~= s.take(j as int + 1) + insert_desc(xv, s.skip(j as int + 1)));
            }
            j += 1;
        } else {
            scanning = false;
        }
    }
    proof {
        if j < s.len() {
            assert(s.skip(j as int)[0] == s[j as int]);
            assert(insert_desc(xv, s.skip(j as int)) == seq![xv] + s.skip(j as int));
        } else {
            assert(s.skip(j as int) =~= Seq::<(Seq<char>, SemVerV)>::empty());
            assert(insert_desc(xv, s.skip(j as int)) == seq![xv]);
            assert(seq![xv] =~= seq![xv] + s.skip(j as int));
        }
    }
    out.insert(j, x);
    proof {
        assert(pairs_view(out@) =~= s.take(j as int) + (seq![xv] + s.skip(j as int)));
    }
}

/// Sort version strings by descending semantic-version precedence. The
/// strings the `semver` grammar rejects are dropped; strings of equal
/// precedence keep their relative input order.
pub fn sort_versions(versions: Vec<String>) -> (r: Vec<String>)
    ensures
        strs_view(r@) == sorted_versions(strs_view(versions@)),
{
    let ghost vs = strs_view(versions@);
    let mut pairs: Vec<(String, SemVer)> = Vec::new();
    let mut i: usize = 0;
    proof {
        assert(vs.skip(0) =~= vs);
        assert(pairs_view(pairs@) =~= Seq::empty());
        assert(parse_pairs(vs) =~= pairs_view(pairs@) + parse_pairs(vs.skip(0)));
    }
    while i < versions.len()
        invariant
            0 <= i <= versions@.len(),
            vs == strs_view(versions@),
            parse_pairs(vs) == pairs_view(pairs@) + parse_pairs(vs.skip(i as int)),
        decreases versions@.len() - i,
    {
        proof {
            assert(vs.skip(i as int)[0] == vs[i as int]);
            assert(vs.skip(i as int).drop_first() =~= vs.skip(i as int + 1));
            assert(vs[i as int] == versions@[i as int]@);
        }
        match parse_version(versions[i].as_str()) {
            Some(v) => {
                let s = versions[i].clone();
                pairs.push((s, v));
                proof {
                    assert(pairs_view(pairs@) =~= pairs_view(pairs@.drop_last()) + seq![
                        pair_view(pairs@.last()),
                    ]);
                    assert(parse_pairs(vs) =~= pairs_view(pairs@) + parse_pairs(
                        vs.skip(i as int + 1),
                    ));
                }
            },
            None => {},
        }
        i += 1;
    }
    proof {
        assert(vs.skip(versions@.len() as int) =~= Seq::<Seq<char>>::empty());
        assert(parse_pairs(vs) =~= pairs_view(pairs@));
    }
    let ghost full = pairs_view(pairs@);
    let mut sorted: Vec<(String, SemVer)> = Vec::new();
    proof {
        assert(pairs_view(pairs@) =~= full.take(pairs@.len() as int));
        assert(full.skip(pairs@.len() as int) =~= Seq::<(Seq<char>, SemVerV)>::empty());
        assert(pairs_view(sorted@) =~= sort_desc(full.skip(pairs@.len() as int)));
    }
    while pairs.len() > 0
        invariant
            pairs@.len() <= full.len(),
            pairs_view(pairs@) == full.take(pairs@.len() as int),
            pairs_view(sorted@) == sort_desc(full.skip(pairs@.len() as int)),
        decreases pairs@.len(),
    {
        let ghost k = pairs@.len() as int;
        let ghost before = pairs@;
        let x = pairs.pop().unwrap();
        proof {
            assert(pairs_view(pairs@) =~= full.take(k - 1));
            assert(pair_view(x) == pairs_view(before)[k - 1]);
            assert(pair_view(x) == full.take(k)[k - 1]);
            assert(pair_view(x) == full[k - 1]);
            assert(full.skip(k - 1)[0] == full[k - 1]);
            assert(full.skip(k - 1).drop_first() =~= full.skip(k));
            assert(sort_desc(full.skip(k - 1)) == insert_desc(full[k - 1], sort_desc(full.skip(k))));
        }
        insert_sorted(&mut sorted, x);
    }
    proof {
        assert(full.skip(0) =~= full);
    }
    let mut r: Vec<String> = Vec::new();
    let ghost res = sort_desc(full);
    let mut i: usize = 0;
    while i < sorted.len()
        invariant
            0 <= i <= sorted@.len(),
            res == sort_desc(full),
            pairs_view(sorted@) == res,
            r@.len() == i,
            forall|k: int| 0 <= k < i ==> #[trigger] r@[k]@ == res[k].0,
        decreases sorted@.len() - i,
    {
        proof {
            assert(res[i as int] == pair_view(sorted@[i as int]));
        }
        let s = sorted[i].0.clone();
        r.push(s);
        i += 1;
    }
    proof {
        assert(pairs_view(sorted@).len() == sorted@.len());
        assert(strs_view(r@) =~= res.map_values(|p: (Seq<char>, SemVerV)| p.0));
    }
    r
}

proof fn lemma_char_code_inj(x: char, y: char)
    ensures
        (x as u32) == (y as u32) ==> x == y,
{
}

proof fn lemma_chars_lt_conn(a: Seq<char>, b: Seq<char>)
    ensures
        chars_lt(a, b) ==> !chars_lt(b, a),
        !chars_lt(a, b) && !chars_lt(b, a) ==> a == b,
    decreases a.len(),
{
    if a.len() == 0 && b.len() == 0 {
        assert(a =~= b);
    } else if a.len() > 0 && b.len() > 0 && a[0] == b[0] {
        lemma_chars_lt_conn(a.drop_first(), b.drop_first());
        if !chars_lt(a, b) && !chars_lt(b, a) {
            assert forall|k: int| 0 <= k < a.len() implies a[k] == b[k] by {
                if k >= 1 {
                    assert(a.drop_first()[k - 1] == b.drop_first()[k - 1]);
                }
            }
            assert(a =~= b);
        }
    } else if a.len() > 0 && b.len() > 0 && !chars_lt(a, b) && !chars_lt(b, a) {
        lemma_char_code_inj(a[0], b[0]);
        assert(a[0] == b[0]);
        assert(false);
    }
}

proof fn lemma_chars_lt_trans(a: Seq<char>, b: Seq<char>, c: Seq<char>)
    requires
        chars_lt(a, b),
        chars_lt(b, c),
    ensures
        chars_lt(a, c),
    decreases a.len(),
{
    if a.len() > 0 && b.len() > 0 && c.len() > 0 && a[0] == b[0] && b[0] == c[0] {
        lemma_chars_lt_trans(a.drop_first(), b.drop_first(), c.drop_first());
    }
}

proof fn lemma_pre_id_conn(a: PreIdV, b: PreIdV)
    ensures
        pre_id_lt(a, b) ==> !pre_id_lt(b, a),
        !pre_id_lt(a, b) && !pre_id_lt(b, a) ==> a == b,
{
    match (a, b) {
        (PreIdV::Num(x), PreIdV::Num(y)) => lemma_chars_lt_conn(x, y),
        (PreIdV::Alpha(x), PreIdV::Alpha(y)) => lemma_chars_lt_conn(x, y),
        _ => (),
    }
}

proof fn lemma_pre_id_trans(a: PreIdV, b: PreIdV, c: PreIdV)
    requires
        pre_id_lt(a, b),
        pre_id_lt(b, c),
    ensures
        pre_id_lt(a, c),
{
    match (a, b) {
        (PreIdV::Num(x), PreIdV::Num(y)) => {
            if c is Num && x.len() == y.len() && y.len() == c->Num_0.len() {
                lemma_chars_lt_trans(x, y, c->Num_0);
            }
        },
        (PreIdV::Alpha(x), PreIdV::Alpha(y)) => {
            if c is Alpha {
                lemma_chars_lt_trans(x, y, c->Alpha_0);
            }
        },
        _ => (),
    }
}

proof fn lemma_pre_lt_conn(a: Seq<PreIdV>, b: Seq<PreIdV>)
    ensures
        pre_lt(a, b) ==> !pre_lt(b, a),
        !pre_lt(a, b) && !pre_lt(b, a) ==> a == b,
    decreases a.len(),
{
    if a.len() == 0 && b.len() == 0 {
        assert(a =~= b);
    } else if a.len() > 0 && b.len() > 0 {
        lemma_pre_id_conn(a[0], b[0]);
        if a[0] == b[0] {
            lemma_pre_lt_conn(a.drop_first(), b.drop_first());
            if !pre_lt(a, b) && !pre_lt(b, a) {
                assert forall|k: int| 0 <= k < a.len() implies a[k] == b[k] by {
                    if k >= 1 {
                        assert(a.drop_first()[k - 1] == b.drop_first()[k - 1]);
                    }
                }
                assert(a =~= b);
            }
        }
    }
}

proof fn lemma_pre_lt_trans(a: Seq<PreIdV>, b: Seq<PreIdV>, c: Seq<PreIdV>)
    requires
        pre_lt(a, b),
        pre_lt(b, c),
    ensures
        pre_lt(a, c),
    decreases a.len(),
{
    if a.len() > 0 && b.len() > 0 && c.len() > 0 {
        lemma_pre_id_conn(a[0], b[0]);
        lemma_pre_id_conn(b[0], c[0]);
        lemma_pre_id_conn(a[0], c[0]);
        if pre_id_lt(a[0], b[0]) && pre_id_lt(b[0], c[0]) {
            lemma_pre_id_trans(a[0], b[0], c[0]);
        }
        if a[0] == b[0] && b[0] == c[0] {
            lemma_pre_lt_trans(a.drop_first(), b.drop_first(), c.drop_first());
        }
    }
}

/// Law: precedence is asymmetric, and two versions neither of which
/// comes before the other are one and the same.
pub proof fn lemma_semver_lt_conn(a: SemVerV, b: SemVerV)
    ensures
        semver_lt(a, b) ==> !semver_lt(b, a),
        !semver_lt(a, b) && !semver_lt(b, a) ==> a == b,
{
    lemma_pre_lt_conn(a.pre, b.pre);
    if !semver_lt(a, b) && !semver_lt(b, a) {
        if a.pre.len() == 0 && b.pre.len() == 0 {
            assert(a.pre =~= b.pre);
        }
        assert(a =~= b);
    }
}

/// Law: precedence is transitive.
pub proof fn lemma_semver_lt_trans(a: SemVerV, b: SemVerV, c: SemVerV)
    requires
        semver_lt(a, b),
        semver_lt(b, c),
    ensures
        semver_lt(a, c),
{
    if a.major == b.major && b.major == c.major && a.minor == b.minor && b.minor == c.minor
        && a.patch == b.patch && b.patch == c.patch && a.pre.len() > 0 && b.pre.len() > 0
        && c.pre.len() > 0 {
        lemma_pre_lt_trans(a.pre, b.pre, c.pre);
    }
}

/// Every pair is in descending precedence order.
pub open spec fn sorted_desc(s: Seq<(Seq<char>, SemVerV)>) -> bool {
    forall|i: int, j: int|
        0 <= i < j < s.len() ==> !semver_lt(#[trigger] s[i].1, #[trigger] s[j].1)
}

proof fn lemma_insert_desc_elems(x: (Seq<char>, SemVerV), s: Seq<(Seq<char>, SemVerV)>)
    ensures
        insert_desc(x, s).len() == s.len() + 1,
        forall|k: int|
            0 <= k < insert_desc(x, s).len() ==> (#[trigger] insert_desc(x, s)[k] == x
                || s.contains(insert_desc(x, s)[k])),
        insert_desc(x, s).contains(x),
        forall|y: (Seq<char>, SemVerV)| #[trigger] s.contains(y) ==> insert_desc(x, s).contains(y),
    decreases s.len(),
{
    if s.len() > 0 && semver_lt(x.1, s[0].1) {
        let rest = s.drop_first();
        lemma_insert_desc_elems(x, rest);
        let r = insert_desc(x, s);
        let rr = insert_desc(x, rest);
        assert(r == seq![s[0]] + rr);
        assert forall|k: int| 0 <= k < r.len() implies (#[trigger] r[k] == x || s.contains(
            r[k],
        )) by {
            if k == 0 {
                assert(r[0] == s[0]);
                assert(s.contains(s[0]));
            } else {
                assert(r[k] == rr[k - 1]);
                if rr[k - 1] != x {
                    assert(rest.contains(rr[k - 1]));
                    let m = choose|m: int| 0 <= m < rest.len() && rest[m] == rr[k - 1];
                    assert(s[m + 1] == rr[k - 1]);
                    assert(s.contains(rr[k - 1]));
                }
            }
        }
        assert(rr.contains(x));
        let mx = choose|mx: int| 0 <= mx < rr.len() && rr[mx] == x;
        assert(r[mx + 1] == x);
        assert(r.contains(x));
        assert forall|y: (Seq<char>, SemVerV)| #[trigger] s.contains(y) implies r.contains(y) by {
            let m = choose|m: int| 0 <= m < s.len() && s[m] == y;
            if m == 0 {
                assert(r[0] == y);
            } else {
                assert(rest[m - 1] == y);
                assert(rest.contains(y));
                assert(rr.contains(y));
                let m2 = choose|m2: int| 0 <= m2 < rr.len() && rr[m2] == y;
                assert(r[m2 + 1] == y);
            }
        }
    } else {
        let r = insert_desc(x, s);
        if s.len() == 0 {
            assert(r == seq![x]);
            assert(seq![x] =~= seq![x] + s);
        }
        assert(r == seq![x] + s);
        assert forall|k: int| 0 <= k < r.len() implies (#[trigger] r[k] == x || s.contains(
            r[k],
        )) by {
            if k > 0 {
                assert(r[k] == s[k - 1]);
                assert(s.contains(s[k - 1]));
            }
        }
        assert(r[0] == x);
        assert(r.contains(x));
        assert forall|y: (Seq<char>, SemVerV)| #[trigger] s.contains(y) implies r.contains(y) by {
            let m = choose|m: int| 0 <= m < s.len() && s[m] == y;
            assert(r[m + 1] == y);
        }
    }
}

proof fn lemma_insert_desc_sorted(x: (Seq<char>, SemVerV), s: Seq<(Seq<char>, SemVerV)>)
    requires
        sorted_desc(s),
    ensures
        sorted_desc(insert_desc(x, s)),
    decreases s.len(),
{
    let r = insert_desc(x, s);
    if s.len() == 0 {
        assert(r =~= seq![x]);
    } else if semver_lt(x.1, s[0].1) {
        let rest = s.drop_first();
        assert(sorted_desc(rest)) by {
            assert forall|i: int, j: int| 0 <= i < j < rest.len() implies !semver_lt(
                #[trigger] rest[i].1,
                #[trigger] rest[j].1,
            ) by {
                assert(rest[i] == s[i + 1] && rest[j] == s[j + 1]);
            }
        }
        lemma_insert_desc_sorted(x, rest);
        lemma_insert_desc_elems(x, rest);
        let rr = insert_desc(x, rest);
        assert(r == seq![s[0]] + rr);
        assert forall|i: int, j: int| 0 <= i < j < r.len() implies !semver_lt(
            #[trigger] r[i].1,
            #[trigger] r[j].1,
        ) by {
            if i == 0 {
                let y = rr[j - 1];
                assert(r[j] == y);
                if y == x {
                    lemma_semver_lt_conn(x.1, s[0].1);
                } else {
                    let m = choose|m: int| 0 <= m < rest.len() && rest[m] == y;
                    assert(s[m + 1] == y);
                }
            } else {
                assert(r[i] == rr[i - 1] && r[j] == rr[j - 1]);
            }
        }
    } else {
        assert(r == seq![x] + s);
        assert forall|i: int, j: int| 0 <= i < j < r.len() implies !semver_lt(
            #[trigger] r[i].1,
            #[trigger] r[j].1,
        ) by {
            if i == 0 {
                let y = s[j - 1];
                assert(r[j] == y);
                lemma_semver_lt_conn(s[0].1, y.1);
                lemma_semver_lt_conn(x.1, s[0].1);
                if semver_lt(x.1, y.1) && semver_lt(y.1, s[0].1) {
                    lemma_semver_lt_trans(x.1, y.1, s[0].1);
                }
            } else {
                assert(r[i] == s[i - 1] && r[j] == s[j - 1]);
            }
        }
    }
}

/// Law: the sorted run is in descending precedence order.
pub proof fn lemma_sort_desc_sorted(s: Seq<(Seq<char>, SemVerV)>)
    ensures
        sorted_desc(sort_desc(s)),
    decreases s.len(),
{
    if s.len() > 0 {
        lemma_sort_desc_sorted(s.drop_first());
        lemma_insert_desc_sorted(s[0], sort_desc(s.drop_first()));
    }
}

/// Law: sorting keeps exactly the elements it was given, with their
/// number.
pub proof fn lemma_sort_desc_elems(s: Seq<(Seq<char>, SemVerV)>)
    ensures
        sort_desc(s).len() == s.len(),
        forall|y: (Seq<char>, SemVerV)| #[trigger] sort_desc(s).contains(y) ==> s.contains(y),
        forall|y: (Seq<char>, SemVerV)| #[trigger] s.contains(y) ==> sort_desc(s).contains(y),
    decreases s.len(),
{
    if s.len() > 0 {
        let rest = s.drop_first();
        let sr = sort_desc(rest);
        lemma_sort_desc_elems(rest);
        lemma_insert_desc_elems(s[0], sr);
        assert(sort_desc(s) == insert_desc(s[0], sr));
        assert forall|y: (Seq<char>, SemVerV)| #[trigger]
            sort_desc(s).contains(y) implies s.contains(y) by {
            let m = choose|m: int| 0 <= m < sort_desc(s).len() && sort_desc(s)[m] == y;
            assert(insert_desc(s[0], sr)[m] == y);
            if y == s[0] {
                assert(s.contains(s[0]));
            } else {
                assert(sr.contains(y));
                assert(rest.contains(y));
                let m2 = choose|m2: int| 0 <= m2 < rest.len() && rest[m2] == y;
                assert(s[m2 + 1] == y);
                assert(s.contains(y));
            }
        }
        assert forall|y: (Seq<char>, SemVerV)| #[trigger]
            s.contains(y) implies sort_desc(s).contains(y) by {
            let m = choose|m: int| 0 <= m < s.len() && s[m] == y;
            if m > 0 {
                assert(rest[m - 1] == y);
                assert(rest.contains(y));
                assert(sr.contains(y));
            }
            assert(insert_desc(s[0], sr).contains(y));
        }
    }
}

/// Law: every pair kept by parsing carries the parse of its own string.
pub proof fn lemma_parse_pairs_wf(vs: Seq<Seq<char>>)
    ensures
        forall|k: int|
            0 <= k < parse_pairs(vs).len() ==> version_of(#[trigger] parse_pairs(vs)[k].0)
                == Some(parse_pairs(vs)[k].1),
    decreases vs.len(),
{
    if vs.len() > 0 {
        lemma_parse_pairs_wf(vs.drop_first());
    }
}

proof fn lemma_parse_pairs_wf_contains(vs: Seq<Seq<char>>)
    ensures
        forall|y: (Seq<char>, SemVerV)|
            #[trigger] parse_pairs(vs).contains(y) ==> version_of(y.0) == Some(y.1),
{
    lemma_parse_pairs_wf(vs);
    assert forall|y: (Seq<char>, SemVerV)| #[trigger]
        parse_pairs(vs).contains(y) implies version_of(y.0) == Some(y.1) by {
        let k = choose|k: int| 0 <= k < parse_pairs(vs).len() && parse_pairs(vs)[k] == y;
        assert(version_of(parse_pairs(vs)[k].0) == Some(parse_pairs(vs)[k].1));
    }
}

/// Law: in a sorted output every string parses, and no earlier string's
/// version precedes a later one's.
pub proof fn lemma_sorted_versions_desc(vs: Seq<Seq<char>>)
    ensures
        forall|i: int, j: int|
            0 <= i < j < sorted_versions(vs).len() ==> {
                &&& version_of(#[trigger] sorted_versions(vs)[i]) is Some
                &&& version_of(#[trigger] sorted_versions(vs)[j]) is Some
                &&& !semver_lt(
                    version_of(sorted_versions(vs)[i])->0,
                    version_of(sorted_versions(vs)[j])->0,
                )
            },
{
    let p = parse_pairs(vs);
    let s = sort_desc(p);
    lemma_sort_desc_sorted(p);
    lemma_sort_desc_elems(p);
    lemma_parse_pairs_wf_contains(vs);
    assert forall|i: int, j: int| 0 <= i < j < sorted_versions(vs).len() implies {
        &&& version_of(#[trigger] sorted_versions(vs)[i]) is Some
        &&& version_of(#[trigger] sorted_versions(vs)[j]) is Some
        &&& !semver_lt(
            version_of(sorted_versions(vs)[i])->0,
            version_of(sorted_versions(vs)[j])->0,
        )
    } by {
        assert(sorted_versions(vs)[i] == s[i].0);
        assert(sorted_versions(vs)[j] == s[j].0);
        assert(s.contains(s[i]) && s.contains(s[j]));
        assert(p.contains(s[i]) && p.contains(s[j]));
        assert(version_of(s[i].0) == Some(s[i].1));
        assert(version_of(s[j].0) == Some(s[j].1));
        assert(!semver_lt(s[i].1, s[j].1));
    }
}

/// Law: sorting two version strings puts the one of greater precedence
/// first, and keeps the input order when neither precedes the other.
pub proof fn lemma_sort_versions_pair(a: Seq<char>, b: Seq<char>, va: SemVerV, vb: SemVerV)
    requires
        version_of(a) == Some(va),
        version_of(b) == Some(vb),
    ensures
        sorted_versions(seq![a, b]) == if semver_lt(va, vb) {
            seq![b, a]
        } else {
            seq![a, b]
        },
{
    let vs = seq![a, b];
    let e = Seq::<Seq<char>>::empty();
    let ep = Seq::<(Seq<char>, SemVerV)>::empty();
    assert(parse_pairs(e) == ep);
    assert(vs.drop_first() =~= seq![b]);
    assert(seq![b].drop_first() =~= e);
    assert(vs[0] == a && seq![b][0] == b);
    assert(parse_pairs(seq![b]) == seq![(b, vb)] + parse_pairs(e));
    assert(parse_pairs(seq![b]) =~= seq![(b, vb)]);
    assert(parse_pairs(vs) == seq![(a, va)] + parse_pairs(seq![b]));
    assert(parse_pairs(vs) =~= seq![(a, va), (b, vb)]);
    let p = seq![(a, va), (b, vb)];
    assert(p.drop_first() =~= seq![(b, vb)]);
    assert(seq![(b, vb)].drop_first() =~= ep);
    assert(sort_desc(ep) == ep);
    assert(sort_desc(seq![(b, vb)]) == insert_desc((b, vb), ep));
    assert(insert_desc((b, vb), ep) == seq![(b, vb)]);
    assert(sort_desc(p) == insert_desc((a, va), seq![(b, vb)]));
    if semver_lt(va, vb) {
        assert(insert_desc((a, va), seq![(b, vb)]) == seq![(b, vb)] + insert_desc((a, va), ep));
        assert(insert_desc((a, va), ep) == seq![(a, va)]);
        assert(sort_desc(p) =~= seq![(b, vb), (a, va)]);
        assert(sorted_versions(vs) =~= seq![b, a]);
    } else {
        assert(insert_desc((a, va), seq![(b, vb)]) =~= seq![(a, va), (b, vb)]);
        assert(sorted_versions(vs) =~= seq![a, b]);
    }
}

} // verus!
