//! Merging the test names that discovery patterns find into the manifest's
//! entries.  Existing entries are never touched, and a test already listed
//! under the same name and source file is never added twice.
use vstd::prelude::*;

use crate::config::{Config, DiscoveryPattern, TestEntry, TestStatus};
use crate::order::{lemma_str_lt_order, lemma_str_lt_total, str_lt, string_lt};
use crate::patterns::{
    compile_regex, opt_views, regex_compiles, regex_first_group_texts, regex_first_groups,
    regex_group_count, regex_group_total, CompiledRegex,
};
use crate::components::{components, path_components};
use crate::feature::loader::{last_dot, last_dot_exec, last_name, last_name_exec};
use crate::mapping::strs;
use crate::text::{chars_of, chars_equal, copy_range, push_str, string_of};

verus! {

/// A scanned file: its path relative to the project root (with `/`
/// separators) and its text.
pub struct ScannedFile {
    pub source_file: String,
    pub content: String,
}

/// A discovery pattern that does not compile.
pub struct CollectError {
    pub index: usize,
    pub regex: String,
}

impl CollectError {
    pub fn message(&self) -> (s: String)
        ensures
            s@ == "invalid discovery regex: "@ + self.regex@,
    {
        let mut s = String::new();
        push_str(&mut s, "invalid discovery regex: ");
        push_str(&mut s, self.regex.as_str());
        s
    }
}

/// What a collection did: the number of entries added, and the patterns
/// without a capture group, which can never yield a name.
pub struct CollectOutcome {
    pub added: usize,
    pub patterns_without_group: Vec<usize>,
}

/// A test name found in a source file.
pub type FoundTest = (Seq<char>, Seq<char>);

/// An entry tracks the test `name` found in `path`.
pub open spec fn tracks(e: TestEntry, name: Seq<char>, path: Seq<char>) -> bool {
    e.c_test@ == name && (e.source_file matches Some(p) && p@ == path)
}

/// Some entry tracks the test.
pub open spec fn known_in(entries: Seq<TestEntry>, name: Seq<char>, path: Seq<char>) -> bool {
    exists|i: int| 0 <= i < entries.len() && #[trigger] tracks(entries[i], name, path)
}

/// The key of a found test: its file, then its name.
pub open spec fn found_lt(a: FoundTest, b: FoundTest) -> bool {
    str_lt(a.1, b.1) || (a.1 == b.1 && str_lt(a.0, b.0))
}

/// The key of a new entry, as `found_lt` orders keys.
pub open spec fn entry_key(e: TestEntry) -> FoundTest {
    (e.c_test@, match e.source_file {
        Some(p) => p@,
        None => Seq::empty(),
    })
}

/// `after` is `before` followed by one new entry for each found test that no
/// entry of `before` tracks, each once, ordered by source file and then
/// name, with nothing set but the name and the source file.
pub open spec fn merge_result(before: Seq<TestEntry>, found: Seq<FoundTest>, after: Seq<TestEntry>) -> bool {
    let added = after.subrange(before.len() as int, after.len() as int);
    &&& before.len() <= after.len()
    &&& after.subrange(0, before.len() as int) == before
    &&& forall|k: int| 0 <= k < added.len() ==> (#[trigger] added[k]).is_fresh(
        entry_key(added[k]).0,
        Some(entry_key(added[k]).1),
    )
    &&& forall|k: int, m: int|
        0 <= k < m < added.len() ==> found_lt(entry_key(#[trigger] added[k]), entry_key(#[trigger] added[m]))
    &&& forall|k: int| 0 <= k < added.len() ==> {
        &&& found.contains(#[trigger] entry_key(added[k]))
        &&& !known_in(before, entry_key(added[k]).0, entry_key(added[k]).1)
    }
    &&& forall|j: int| 0 <= j < found.len() ==> (known_in(before, (#[trigger] found[j]).0, found[j].1) || exists|k: int|
        0 <= k < added.len() && #[trigger] entry_key(added[k]) == found[j])
}

/// Merging what was found a second time adds nothing: once a merge has
/// taken place, an entry lists every found test.
pub proof fn lemma_merge_idempotent(before: Seq<TestEntry>, found: Seq<FoundTest>, after: Seq<TestEntry>)
    requires
        merge_result(before, found, after),
    ensures
        forall|j: int| 0 <= j < found.len() ==> known_in(after, (#[trigger] found[j]).0, found[j].1),
        merge_result(after, found, after),
{
    let added = after.subrange(before.len() as int, after.len() as int);
    assert forall|j: int| 0 <= j < found.len() implies known_in(after, (#[trigger] found[j]).0, found[j].1) by {
        if known_in(before, found[j].0, found[j].1) {
            let i = choose|i: int| 0 <= i < before.len() && #[trigger] tracks(before[i], found[j].0, found[j].1);
            assert(after[i] == before[i]);
            assert(tracks(after[i], found[j].0, found[j].1));
        } else {
            let k = choose|k: int| 0 <= k < added.len() && #[trigger] entry_key(added[k]) == found[j];
            assert(added[k] == after[before.len() + k]);
            assert(added[k].source_file is Some);
            assert(tracks(after[before.len() + k], found[j].0, found[j].1));
        }
    }
    assert(after.subrange(0, after.len() as int) =~= after);
    assert(after.subrange(after.len() as int, after.len() as int).len() == 0);
}

fn is_known(entries: &Vec<TestEntry>, name: &String, path: &String) -> (b: bool)
    ensures
        b == known_in(entries@, name@, path@),
{
    let mut i: usize = 0;
    while i < entries.len()
        invariant
            i <= entries@.len(),
            forall|k: int| 0 <= k < i ==> !tracks(#[trigger] entries@[k], name@, path@),
        decreases entries@.len() - i,
    {
        let e = &entries[i];
        let hit = match &e.source_file {
            Some(p) => e.c_test == *name && *p == *path,
            None => false,
        };
        if hit {
            proof {
                assert(tracks(entries@[i as int], name@, path@));
            }
            return true;
        }
        i = i + 1;
    }
    false
}

fn key_less(a: &(String, String), b: &(String, String)) -> (r: bool)
    ensures
        r == found_lt((a.0@, a.1@), (b.0@, b.1@)),
{
    if string_lt(a.1.as_str(), b.1.as_str()) {
        return true;
    }
    a.1 == b.1 && string_lt(a.0.as_str(), b.0.as_str())
}

pub open spec fn pair_view(p: (String, String)) -> FoundTest {
    (p.0@, p.1@)
}

pub open spec fn pair_views(s: Seq<(String, String)>) -> Seq<FoundTest> {
    s.map_values(|p: (String, String)| pair_view(p))
}

pub proof fn lemma_found_lt_order()
    ensures
        forall|a: FoundTest, b: FoundTest, c: FoundTest|
            #![trigger found_lt(a, b), found_lt(b, c)]
            found_lt(a, b) && found_lt(b, c) ==> found_lt(a, c),
        forall|a: FoundTest, b: FoundTest| a != b ==> found_lt(a, b) || found_lt(b, a),
        forall|a: FoundTest| !found_lt(a, a),
{
    lemma_str_lt_order();
    assert forall|a: FoundTest, b: FoundTest| a != b implies found_lt(a, b) || found_lt(b, a) by {
        lemma_str_lt_total(a.0, b.0);
        lemma_str_lt_total(a.1, b.1);
    }
}

/// Inserts `x` into the strictly increasing `v` unless it is there.
fn insert_key(v: &mut Vec<(String, String)>, x: (String, String))
    requires
        forall|i: int, j: int| 0 <= i < j < old(v)@.len() ==> found_lt(pair_view(#[trigger] old(v)@[i]), pair_view(#[trigger] old(v)@[j])),
    ensures
        forall|i: int, j: int| 0 <= i < j < final(v)@.len() ==> found_lt(pair_view(#[trigger] final(v)@[i]), pair_view(#[trigger] final(v)@[j])),
        forall|y: FoundTest| #[trigger] pair_views(final(v)@).contains(y) <==> (pair_views(old(v)@).contains(y) || y == pair_view(x)),
{
    let ghost os = pair_views(v@);
    proof {
        lemma_found_lt_order();
    }
    let mut p: usize = 0;
    while p < v.len() && key_less(&v[p], &x)
        invariant
            p <= v@.len(),
            os == pair_views(v@),
            forall|k: int| 0 <= k < p ==> found_lt(#[trigger] os[k], pair_view(x)),
        decreases v@.len() - p,
    {
        p = p + 1;
    }
    if p < v.len() && v[p].0 == x.0 && v[p].1 == x.1 {
        proof {
            assert(os[p as int] == pair_view(x));
        }
        return;
    }
    proof {
        if p < v@.len() {
            assert(os[p as int] != pair_view(x));
            assert(found_lt(pair_view(x), os[p as int]));
        }
    }
    v.insert(p, x);
    proof {
        let ns = pair_views(v@);
        assert(ns =~= os.insert(p as int, pair_view(x)));
        assert forall|i: int, j: int| 0 <= i < j < v@.len() implies found_lt(
            pair_view(#[trigger] v@[i]),
            pair_view(#[trigger] v@[j]),
        ) by {
            assert(ns[i] == pair_view(v@[i]) && ns[j] == pair_view(v@[j]));
            if j < p {
                assert(ns[i] == os[i] && ns[j] == os[j]);
            } else if j == p {
                assert(ns[i] == os[i]);
            } else if i == p {
                assert(ns[j] == os[j - 1]);
                if j - 1 > p {
                    assert(found_lt(os[p as int], os[j - 1]));
                }
            } else if i < p {
                assert(ns[i] == os[i] && ns[j] == os[j - 1]);
                assert(found_lt(os[i], pair_view(x)));
                if j - 1 > p {
                    assert(found_lt(os[p as int], os[j - 1]));
                }
            } else {
                assert(ns[i] == os[i - 1] && ns[j] == os[j - 1]);
            }
        }
        assert forall|y: FoundTest| #[trigger] ns.contains(y) <==> (os.contains(y) || y == pair_view(x)) by {
            if ns.contains(y) {
                let k = choose|k: int| 0 <= k < ns.len() && ns[k] == y;
                if k < p {
                    assert(os[k] == y);
                } else if k > p {
                    assert(os[k - 1] == y);
                }
            }
            if os.contains(y) {
                let k = choose|k: int| 0 <= k < os.len() && os[k] == y;
                if k < p {
                    assert(ns[k] == y);
                } else {
                    assert(ns[k + 1] == y);
                }
            }
            if y == pair_view(x) {
                assert(ns[p as int] == y);
            }
        }
    }
}

/// Appends to `cfg.tests` one entry for each test in `found` that no entry
/// tracks yet, ordered by source file and then name, and returns how many
/// were added.  Nothing else in `cfg` changes.
pub fn merge_discovered(cfg: &mut Config, found: &Vec<(String, String)>) -> (added: usize)
    ensures
        merge_result(old(cfg).tests@, pair_views(found@), final(cfg).tests@),
        added == final(cfg).tests@.len() - old(cfg).tests@.len(),
        final(cfg).version == old(cfg).version,
        final(cfg).project == old(cfg).project,
        final(cfg).feature_source == old(cfg).feature_source,
        final(cfg).test_commands == old(cfg).test_commands,
        final(cfg).discovery == old(cfg).discovery,
{
    let ghost fv = pair_views(found@);
    let mut keys: Vec<(String, String)> = Vec::new();
    let mut i: usize = 0;
    while i < found.len()
        invariant
            i <= found@.len(),
            fv == pair_views(found@),
            forall|a: int, b: int| 0 <= a < b < keys@.len() ==> found_lt(pair_view(#[trigger] keys@[a]), pair_view(#[trigger] keys@[b])),
            forall|y: FoundTest| #[trigger] pair_views(keys@).contains(y) <==> (exists|j: int|
                0 <= j < i && #[trigger] fv[j] == y && !known_in(cfg.tests@, y.0, y.1)),
        decreases found@.len() - i,
    {
        let (name, path) = (&found[i].0, &found[i].1);
        if !is_known(&cfg.tests, name, path) {
            insert_key(&mut keys, (name.clone(), path.clone()));
        }
        proof {
            assert(fv[i as int] == pair_view(found@[i as int]));
            assert forall|y: FoundTest| #[trigger] pair_views(keys@).contains(y) <==> (exists|j: int|
                0 <= j < i + 1 && #[trigger] fv[j] == y && !known_in(cfg.tests@, y.0, y.1)) by {
                if exists|j: int| 0 <= j < i + 1 && #[trigger] fv[j] == y && !known_in(cfg.tests@, y.0, y.1) {
                    let j = choose|j: int| 0 <= j < i + 1 && #[trigger] fv[j] == y && !known_in(cfg.tests@, y.0, y.1);
                    if j < i {
                        assert(exists|j2: int| 0 <= j2 < i && #[trigger] fv[j2] == y && !known_in(cfg.tests@, y.0, y.1));
                    }
                }
            }
        }
        i = i + 1;
    }
    let ghost before = cfg.tests@;
    let n = keys.len();
    let mut k: usize = 0;
    while k < n
        invariant
            n == keys@.len(),
            k <= n,
            before.len() + k == cfg.tests@.len(),
            cfg.tests@.subrange(0, before.len() as int) == before,
            forall|m: int| 0 <= m < k ==> entry_key(#[trigger] cfg.tests@[before.len() + m]) == pair_view(keys@[m]),
            forall|m: int| 0 <= m < k ==> (#[trigger] cfg.tests@[before.len() + m]).is_fresh(
                pair_view(keys@[m]).0,
                Some(pair_view(keys@[m]).1),
            ),
            cfg.version == old(cfg).version,
            cfg.project == old(cfg).project,
            cfg.feature_source == old(cfg).feature_source,
            cfg.test_commands == old(cfg).test_commands,
            cfg.discovery == old(cfg).discovery,
            before == old(cfg).tests@,
        decreases n - k,
    {
        let entry = TestEntry {
            c_test: keys[k].0.clone(),
            source_file: Some(keys[k].1.clone()),
            status: TestStatus::Pending,
            selected_file: None,
            module: None,
            symbols: Vec::new(),
            rust_tests: Vec::new(),
            contract: None,
            notes: None,
        };
        cfg.tests.push(entry);
        proof {
            assert(cfg.tests@.subrange(0, before.len() as int) =~= before);
        }
        k = k + 1;
    }
    proof {
        let after = cfg.tests@;
        let added = after.subrange(before.len() as int, after.len() as int);
        assert forall|m: int| 0 <= m < added.len() implies entry_key(#[trigger] added[m]) == pair_view(keys@[m]) by {
            assert(added[m] == after[before.len() + m]);
        }
        assert forall|a: int, b: int| 0 <= a < b < added.len() implies found_lt(
            entry_key(#[trigger] added[a]),
            entry_key(#[trigger] added[b]),
        ) by {
            assert(entry_key(added[a]) == pair_view(keys@[a]));
            assert(entry_key(added[b]) == pair_view(keys@[b]));
        }
        assert forall|m: int| 0 <= m < added.len() implies (#[trigger] added[m]).is_fresh(
            entry_key(added[m]).0,
            Some(entry_key(added[m]).1),
        ) by {
            assert(added[m] == after[before.len() + m]);
        }
        assert forall|m: int| 0 <= m < added.len() implies {
            &&& fv.contains(#[trigger] entry_key(added[m]))
            &&& !known_in(before, entry_key(added[m]).0, entry_key(added[m]).1)
        } by {
            let y = entry_key(added[m]);
            assert(pair_views(keys@)[m] == y);
            assert(pair_views(keys@).contains(y));
            let j = choose|j: int| 0 <= j < found@.len() && #[trigger] fv[j] == y && !known_in(before, y.0, y.1);
            assert(fv.contains(y));
        }
        assert forall|j: int| 0 <= j < fv.len() implies (known_in(before, (#[trigger] fv[j]).0, fv[j].1) || exists|m: int|
            0 <= m < added.len() && #[trigger] entry_key(added[m]) == fv[j]) by {
            if !known_in(before, fv[j].0, fv[j].1) {
                assert(pair_views(keys@).contains(fv[j]));
                let m = choose|m: int| 0 <= m < pair_views(keys@).len() && pair_views(keys@)[m] == fv[j];
                assert(entry_key(added[m]) == fv[j]);
            }
        }
    }
    n
}

/// Whether every pattern compiles.
pub open spec fn all_compile(cfg: Config) -> bool {
    forall|i: int| 0 <= i < cfg.discovery.patterns@.len() ==> regex_compiles(
        #[trigger] cfg.discovery.patterns@[i].regex@,
    )
}

/// The regexes of the patterns.
pub open spec fn pattern_texts(ps: Seq<DiscoveryPattern>) -> Seq<Seq<char>> {
    ps.map_values(|p: DiscoveryPattern| p.regex@)
}

/// The indices of the patterns whose regex has no group besides the whole
/// match, in order.
pub open spec fn groupless(pats: Seq<Seq<char>>) -> Seq<int>
    decreases pats.len(),
{
    if pats.len() == 0 {
        seq![]
    } else if regex_group_total(pats.last()) <= 1 {
        groupless(pats.drop_last()).push(pats.len() - 1)
    } else {
        groupless(pats.drop_last())
    }
}

/// The tests that the first-group texts `gs` name in `path`: one for each
/// match in which the group took part.
pub open spec fn group_found(gs: Seq<Option<Seq<char>>>, path: Seq<char>) -> Seq<FoundTest>
    decreases gs.len(),
{
    if gs.len() == 0 {
        seq![]
    } else {
        match gs.last() {
            Some(n) => group_found(gs.drop_last(), path).push((n, path)),
            None => group_found(gs.drop_last(), path),
        }
    }
}

/// The tests that the patterns find in one file, pattern by pattern.
pub open spec fn pattern_found(pats: Seq<Seq<char>>, text: Seq<char>, path: Seq<char>) -> Seq<FoundTest>
    decreases pats.len(),
{
    if pats.len() == 0 {
        seq![]
    } else {
        pattern_found(pats.drop_last(), text, path) + group_found(
            regex_first_group_texts(pats.last(), text),
            path,
        )
    }
}

/// The tests that the patterns find in the files, file by file.
pub open spec fn files_found(pats: Seq<Seq<char>>, files: Seq<ScannedFile>) -> Seq<FoundTest>
    decreases files.len(),
{
    if files.len() == 0 {
        seq![]
    } else {
        files_found(pats, files.drop_last()) + pattern_found(
            pats,
            files.last().content@,
            files.last().source_file@,
        )
    }
}

proof fn lemma_group_found_has(gs: Seq<Option<Seq<char>>>, path: Seq<char>, g: int, n: Seq<char>)
    requires
        0 <= g < gs.len(),
        gs[g] == Some(n),
    ensures
        group_found(gs, path).contains((n, path)),
    decreases gs.len(),
{
    if g == gs.len() - 1 {
        let e = group_found(gs.drop_last(), path);
        assert(group_found(gs, path)[e.len() as int] == (n, path));
    } else {
        assert(gs.drop_last()[g] == gs[g]);
        lemma_group_found_has(gs.drop_last(), path, g, n);
        let e = group_found(gs.drop_last(), path);
        let k = choose|k: int| 0 <= k < e.len() && e[k] == (n, path);
        match gs.last() {
            Some(m) => assert(group_found(gs, path)[k] == (n, path)),
            None => {},
        }
    }
}

proof fn lemma_pattern_found_has(pats: Seq<Seq<char>>, text: Seq<char>, path: Seq<char>, i: int, g: int, n: Seq<char>)
    requires
        0 <= i < pats.len(),
        0 <= g < regex_first_group_texts(pats[i], text).len(),
        regex_first_group_texts(pats[i], text)[g] == Some(n),
    ensures
        pattern_found(pats, text, path).contains((n, path)),
    decreases pats.len(),
{
    let earlier = pattern_found(pats.drop_last(), text, path);
    let here = group_found(regex_first_group_texts(pats.last(), text), path);
    assert(pattern_found(pats, text, path) == earlier + here);
    if i == pats.len() - 1 {
        lemma_group_found_has(regex_first_group_texts(pats.last(), text), path, g, n);
        let k = choose|k: int| 0 <= k < here.len() && here[k] == (n, path);
        assert((earlier + here)[earlier.len() + k] == (n, path));
    } else {
        assert(pats.drop_last()[i] == pats[i]);
        lemma_pattern_found_has(pats.drop_last(), text, path, i, g, n);
        let k = choose|k: int| 0 <= k < earlier.len() && earlier[k] == (n, path);
        assert((earlier + here)[k] == (n, path));
    }
}

proof fn lemma_files_found_has(pats: Seq<Seq<char>>, files: Seq<ScannedFile>, f: int, i: int, g: int, n: Seq<char>)
    requires
        0 <= f < files.len(),
        0 <= i < pats.len(),
        0 <= g < regex_first_group_texts(pats[i], files[f].content@).len(),
        regex_first_group_texts(pats[i], files[f].content@)[g] == Some(n),
    ensures
        files_found(pats, files).contains((n, files[f].source_file@)),
    decreases files.len(),
{
    let earlier = files_found(pats, files.drop_last());
    let here = pattern_found(pats, files.last().content@, files.last().source_file@);
    assert(files_found(pats, files) == earlier + here);
    if f == files.len() - 1 {
        lemma_pattern_found_has(pats, files.last().content@, files.last().source_file@, i, g, n);
        let k = choose|k: int| 0 <= k < here.len() && here[k] == (n, files[f].source_file@);
        assert((earlier + here)[earlier.len() + k] == (n, files[f].source_file@));
    } else {
        assert(files.drop_last()[f] == files[f]);
        lemma_files_found_has(pats, files.drop_last(), f, i, g, n);
        let k = choose|k: int| 0 <= k < earlier.len() && earlier[k] == (n, files[f].source_file@);
        assert((earlier + here)[k] == (n, files[f].source_file@));
    }
}

/// Every pattern counts, not only the first: for any pattern `i`, any
/// scanned file `f` and any match of pattern `i` in that file whose first
/// group captured a name `n`, after a collection some entry lists the test
/// `n` in that file's source file.
pub proof fn lemma_collect_keeps_every_capture(
    before: Seq<TestEntry>,
    pats: Seq<Seq<char>>,
    files: Seq<ScannedFile>,
    after: Seq<TestEntry>,
    f: int,
    i: int,
    g: int,
    n: Seq<char>,
)
    requires
        merge_result(before, files_found(pats, files), after),
        0 <= f < files.len(),
        0 <= i < pats.len(),
        0 <= g < regex_first_group_texts(pats[i], files[f].content@).len(),
        regex_first_group_texts(pats[i], files[f].content@)[g] == Some(n),
    ensures
        known_in(after, n, files[f].source_file@),
{
    lemma_files_found_has(pats, files, f, i, g, n);
    let found = files_found(pats, files);
    let j = choose|j: int| 0 <= j < found.len() && found[j] == (n, files[f].source_file@);
    lemma_merge_idempotent(before, found, after);
    assert(known_in(after, found[j].0, found[j].1));
}

/// Runs each discovery pattern over each scanned file and merges the names
/// its first group captures (`merge_discovered`), file by file and pattern
/// by pattern.  A pattern that does not compile stops the collection before
/// anything changes: the error names the first such pattern.  The outcome
/// also lists the patterns without a capture group.
pub fn collect_tests(cfg: &mut Config, files: &Vec<ScannedFile>) -> (r: Result<CollectOutcome, CollectError>)
    ensures
        r is Err <==> !all_compile(*old(cfg)),
        r matches Err(e) ==> {
            &&& e.index < old(cfg).discovery.patterns@.len()
            &&& e.regex@ == old(cfg).discovery.patterns@[e.index as int].regex@
            &&& !regex_compiles(e.regex@)
            &&& forall|i: int| 0 <= i < e.index ==> regex_compiles(
                #[trigger] old(cfg).discovery.patterns@[i].regex@,
            )
            &&& final(cfg).tests@ == old(cfg).tests@
        },
        r matches Ok(o) ==> {
            &&& o.added == final(cfg).tests@.len() - old(cfg).tests@.len()
            &&& o.patterns_without_group@.map_values(|k: usize| k as int) == groupless(
                pattern_texts(old(cfg).discovery.patterns@),
            )
            &&& merge_result(
                old(cfg).tests@,
                files_found(pattern_texts(old(cfg).discovery.patterns@), files@),
                final(cfg).tests@,
            )
        },
        final(cfg).version == old(cfg).version,
        final(cfg).project == old(cfg).project,
        final(cfg).feature_source == old(cfg).feature_source,
        final(cfg).test_commands == old(cfg).test_commands,
        final(cfg).discovery == old(cfg).discovery,
{
    let ghost pats = pattern_texts(cfg.discovery.patterns@);
    let mut compiled: Vec<CompiledRegex> = Vec::new();
    let mut i: usize = 0;
    while i < cfg.discovery.patterns.len()
        invariant
            i <= cfg.discovery.patterns@.len(),
            compiled@.len() == i,
            pats == pattern_texts(cfg.discovery.patterns@),
            forall|k: int| 0 <= k < i ==> regex_compiles(#[trigger] cfg.discovery.patterns@[k].regex@),
            forall|k: int| 0 <= k < i ==> (#[trigger] compiled@[k])@ == pats[k],
        decreases cfg.discovery.patterns@.len() - i,
    {
        match compile_regex(cfg.discovery.patterns[i].regex.as_str()) {
            Ok(re) => {
                compiled.push(re);
            },
            Err(_) => {
                return Err(CollectError { index: i, regex: cfg.discovery.patterns[i].regex.clone() });
            },
        }
        i = i + 1;
    }
    let mut without_group: Vec<usize> = Vec::new();
    let mut g: usize = 0;
    while g < compiled.len()
        invariant
            g <= compiled@.len(),
            compiled@.len() == pats.len(),
            forall|k: int| 0 <= k < compiled@.len() ==> (#[trigger] compiled@[k])@ == pats[k],
            without_group@.map_values(|k: usize| k as int) == groupless(pats.take(g as int)),
        decreases compiled@.len() - g,
    {
        proof {
            assert(pats.take(g + 1).drop_last() =~= pats.take(g as int));
        }
        let ghost before = without_group@.map_values(|k: usize| k as int);
        if regex_group_count(&compiled[g]) <= 1 {
            without_group.push(g);
            proof {
                assert(without_group@.map_values(|k: usize| k as int) =~= before.push(g as int));
            }
        }
        g = g + 1;
    }
    proof {
        assert(pats.take(pats.len() as int) =~= pats);
    }
    let mut found: Vec<(String, String)> = Vec::new();
    let mut f: usize = 0;
    while f < files.len()
        invariant
            f <= files@.len(),
            compiled@.len() == pats.len(),
            forall|k: int| 0 <= k < compiled@.len() ==> (#[trigger] compiled@[k])@ == pats[k],
            pair_views(found@) == files_found(pats, files@.take(f as int)),
        decreases files@.len() - f,
    {
        let ghost text = files@[f as int].content@;
        let ghost path = files@[f as int].source_file@;
        let ghost start = pair_views(found@);
        let mut p: usize = 0;
        while p < compiled.len()
            invariant
                f < files@.len(),
                p <= compiled@.len(),
                compiled@.len() == pats.len(),
                forall|k: int| 0 <= k < compiled@.len() ==> (#[trigger] compiled@[k])@ == pats[k],
                text == files@[f as int].content@,
                path == files@[f as int].source_file@,
                pair_views(found@) == start + pattern_found(pats.take(p as int), text, path),
            decreases compiled@.len() - p,
        {
            let groups = regex_first_groups(&compiled[p], files[f].content.as_str());
            let ghost gv = opt_views(groups@);
            let ghost mid = pair_views(found@);
            let mut q: usize = 0;
            while q < groups.len()
                invariant
                    f < files@.len(),
                    q <= groups@.len(),
                    gv == opt_views(groups@),
                    path == files@[f as int].source_file@,
                    pair_views(found@) == mid + group_found(gv.take(q as int), path),
                decreases groups@.len() - q,
            {
                proof {
                    assert(gv.take(q + 1).drop_last() =~= gv.take(q as int));
                }
                let ghost before = pair_views(found@);
                match &groups[q] {
                    Some(name) => {
                        let pair = (name.clone(), files[f].source_file.clone());
                        found.push(pair);
                        proof {
                            assert(gv[q as int] == Some(name@));
                            assert(pair_views(found@) =~= before.push((name@, path)));
                            assert(mid + group_found(gv.take(q + 1), path) =~= (mid + group_found(gv.take(q as int), path)).push((name@, path)));
                        }
                    },
                    None => {
                        proof {
                            assert(gv[q as int] is None);
                        }
                    },
                }
                q = q + 1;
            }
            proof {
                assert(gv.take(gv.len() as int) =~= gv);
                assert(pats.take(p + 1).drop_last() =~= pats.take(p as int));
                assert(pats.take(p + 1).last() == pats[p as int]);
                assert(gv == regex_first_group_texts(pats[p as int], text));
                assert(pair_views(found@) =~= start + pattern_found(pats.take(p + 1), text, path));
            }
            p = p + 1;
        }
        proof {
            assert(pats.take(pats.len() as int) =~= pats);
            assert(files@.take(f + 1).drop_last() =~= files@.take(f as int));
            assert(files@.take(f + 1).last() == files@[f as int]);
            assert(pair_views(found@) =~= files_found(pats, files@.take(f + 1)));
        }
        f = f + 1;
    }
    proof {
        assert(files@.take(files@.len() as int) =~= files@);
    }
    let added = merge_discovered(cfg, &found);
    Ok(CollectOutcome { added, patterns_without_group: without_group })
}

// ---------------------------------------------------------------------------
// File extensions
// ---------------------------------------------------------------------------

/// The lower-case form of `s` that `str::to_lowercase` gives (full Unicode
/// case mapping).
pub uninterp spec fn unicode_lowercase(s: Seq<char>) -> Seq<char>;

/// `str::to_lowercase`.  Claimed: the result depends on `s` alone, named
/// `unicode_lowercase`.
#[verifier::external_body]
fn to_lowercase(s: &str) -> (r: String)
    ensures
        r@ == unicode_lowercase(s@),
{
    s.to_lowercase()
}

/// The extension of the path's file name: the text after its last `.`,
/// when there is text before that dot.
pub open spec fn path_extension(path: Seq<char>) -> Option<Seq<char>> {
    match last_name(components(path)) {
        Some(name) => {
            let d = last_dot(name, name.len() as int);
            if d > 0 {
                Some(name.skip(d + 1))
            } else {
                None
            }
        },
        None => None,
    }
}

/// The path has one of `extensions`, compared in lower case.
pub open spec fn has_extension_spec(path: Seq<char>, extensions: Seq<Seq<char>>) -> bool {
    match path_extension(path) {
        Some(e) => exists|i: int| 0 <= i < extensions.len() && #[trigger] unicode_lowercase(extensions[i]) == unicode_lowercase(e),
        None => false,
    }
}

/// The extension of the path's file name (`path_extension`).
fn extension_of(path: &str) -> (r: Option<Vec<char>>)
    ensures
        match r {
            Some(e) => path_extension(path@) == Some(e@),
            None => path_extension(path@) is None,
        },
{
    let comps = path_components(&chars_of(path));
    let name = match last_name_exec(&comps) {
        Some(n) => n,
        None => {
            return None;
        },
    };
    let j = last_dot_exec(&name);
    if j <= 1 {
        return None;
    }
    let ext = copy_range(&name, j, name.len());
    proof {
        assert(ext@ =~= name@.skip(j as int));
    }
    Some(ext)
}

/// Whether the file at `path` has exactly the extension `c`, as C test
/// discovery wants it.
pub fn is_c_source(path: &str) -> (b: bool)
    ensures
        b == (path_extension(path@) == Some("c"@)),
{
    match extension_of(path) {
        Some(e) => chars_equal(&e, &chars_of("c")),
        None => false,
    }
}

/// Directories that C test discovery does not enter.
pub fn is_skipped_dir(name: &str) -> (b: bool)
    ensures
        b == (name@ == "target"@ || name@ == ".git"@),
{
    let n = chars_of(name);
    chars_equal(&n, &chars_of("target")) || chars_equal(&n, &chars_of(".git"))
}

/// Whether the file at `path` has one of `extensions` (without the dot,
/// compared in lower case).
pub fn has_extension(path: &str, extensions: &Vec<String>) -> (b: bool)
    ensures
        b == has_extension_spec(path@, strs(extensions@)),
{
    let ext = match extension_of(path) {
        Some(e) => e,
        None => {
            return false;
        },
    };
    let ext_text = string_of(&ext);
    let lower = to_lowercase(ext_text.as_str());
    let lower_chars = chars_of(lower.as_str());
    let mut i: usize = 0;
    while i < extensions.len()
        invariant
            i <= extensions@.len(),
            lower_chars@ == unicode_lowercase(ext@),
            path_extension(path@) == Some(ext@),
            forall|k: int| 0 <= k < i ==> unicode_lowercase(#[trigger] strs(extensions@)[k]) != unicode_lowercase(ext@),
        decreases extensions@.len() - i,
    {
        let x = to_lowercase(extensions[i].as_str());
        if chars_equal(&chars_of(x.as_str()), &lower_chars) {
            proof {
                assert(strs(extensions@)[i as int] == extensions@[i as int]@);
            }
            return true;
        }
        proof {
            assert(strs(extensions@)[i as int] == extensions@[i as int]@);
        }
        i = i + 1;
    }
    false
}

/// Whether discovery reads the file at `path`: every file when no
/// extension is configured, else those with one of `extensions`.
pub fn is_discovery_source(path: &str, extensions: &Vec<String>) -> (b: bool)
    ensures
        b == (extensions@.len() == 0 || has_extension_spec(path@, strs(extensions@))),
{
    extensions.len() == 0 || has_extension(path, extensions)
}

} // verus!
