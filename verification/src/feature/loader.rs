//! Loading a feature index: the layout of a feature workspace, its selected
//! files, and the modules generated from them.
//!
//! A workspace holds `meta/selected_files.json` and `rust/src/mod_<name>/`
//! directories with `fun_*.rs`, `decl_*.rs` and `var_*.rs` files.  The
//! module generated from a selected file is named after the file's path
//! relative to the feature's `c/` directory, without its extension, each
//! component reduced to ASCII letters and digits joined by `_`.
use vstd::prelude::*;

use crate::components::{comp_views, components, path_components, piece_comp, Comp, PathComp};
use crate::feature::index::{FeatureIndex, FeatureModule};
use crate::mapping::{join, strs};
use crate::paths::{join_paths, path_join};
use crate::order::{insert_pos, lemma_insert_pos, lemma_sort_seq_step, lemma_str_lt_order, sort_seq, sorted_version, lemma_sort_seq, str_lt, string_lt};
use crate::text::{chars_equal, chars_of, copy_chars, copy_range, has_prefix, push_chars, push_str, starts_with, string_of};

verus! {

// ---------------------------------------------------------------------------
// Layout
// ---------------------------------------------------------------------------

/// What exists of the expected layout under the feature root.
pub struct LayoutProbe {
    pub root_exists: bool,
    pub meta_exists: bool,
    pub selected_files_exists: bool,
    pub rust_src_exists: bool,
}

/// Why a feature index could not be loaded.
#[derive(Debug, Clone, Copy, PartialEq, Eq, Structural)]
pub enum LoadError {
    MissingRoot,
    MissingMeta,
    MissingSelectedFiles,
    MissingRustSrc,
    BadSelectedFiles,
}

/// The path of the selected files list under the feature root `root`:
/// `root` joined with `meta`, then with `selected_files.json`, as
/// `Path::join` joins.
pub open spec fn selected_files_path(root: Seq<char>) -> Seq<char> {
    path_join(path_join(root, "meta"@), "selected_files.json"@)
}

impl LoadError {
    pub open spec fn spec_message(self, root: Seq<char>) -> Seq<char> {
        match self {
            LoadError::MissingRoot => "feature source root does not exist: "@ + root,
            LoadError::MissingMeta => "expected `meta/` directory inside feature root: "@ + root,
            LoadError::MissingSelectedFiles => "expected `meta/selected_files.json` inside feature root: "@
                + root,
            LoadError::MissingRustSrc => "expected `rust/src/` directory inside feature root: "@ + root,
            LoadError::BadSelectedFiles => "failed to parse "@ + selected_files_path(root),
        }
    }

    /// The message for the feature root `root`.
    pub fn message(self, root: &str) -> (s: String)
        ensures
            s@ == self.spec_message(root@),
    {
        let mut s = String::new();
        match self {
            LoadError::MissingRoot => push_str(&mut s, "feature source root does not exist: "),
            LoadError::MissingMeta => push_str(&mut s, "expected `meta/` directory inside feature root: "),
            LoadError::MissingSelectedFiles => push_str(
                &mut s,
                "expected `meta/selected_files.json` inside feature root: ",
            ),
            LoadError::MissingRustSrc => push_str(
                &mut s,
                "expected `rust/src/` directory inside feature root: ",
            ),
            LoadError::BadSelectedFiles => push_str(&mut s, "failed to parse "),
        }
        match self {
            LoadError::BadSelectedFiles => {
                let meta = join_paths(&chars_of(root), &chars_of("meta"));
                let path = join_paths(&meta, &chars_of("selected_files.json"));
                push_chars(&mut s, &path);
            },
            _ => push_str(&mut s, root),
        }
        proof {
            assert(s@ =~= self.spec_message(root@));
        }
        s
    }
}

/// Checks the layout in order: the root, `meta/`, the selected files list,
/// `rust/src/`.
pub fn validate_layout(probe: &LayoutProbe) -> (r: Result<(), LoadError>)
    ensures
        r == if !probe.root_exists {
            Err(LoadError::MissingRoot)
        } else if !probe.meta_exists {
            Err(LoadError::MissingMeta)
        } else if !probe.selected_files_exists {
            Err(LoadError::MissingSelectedFiles)
        } else if !probe.rust_src_exists {
            Err(LoadError::MissingRustSrc)
        } else {
            Ok(())
        },
{
    if !probe.root_exists {
        Err(LoadError::MissingRoot)
    } else if !probe.meta_exists {
        Err(LoadError::MissingMeta)
    } else if !probe.selected_files_exists {
        Err(LoadError::MissingSelectedFiles)
    } else if !probe.rust_src_exists {
        Err(LoadError::MissingRustSrc)
    } else {
        Ok(())
    }
}

// ---------------------------------------------------------------------------
// The selected files list
// ---------------------------------------------------------------------------

#[verifier::external_type_specification]
#[verifier::external_body]
pub struct ExJsonError(serde_json::Error);

/// The JSON array of strings that `text` holds, if it holds one.
pub uninterp spec fn json_string_array(text: Seq<char>) -> Option<Seq<Seq<char>>>;

/// `serde_json::from_str::<Vec<String>>`.  Claimed: it succeeds exactly
/// when `text` is a JSON array of strings, giving them in order; both are
/// a function of `text` alone, named `json_string_array`.
#[verifier::external_body]
fn parse_json_strings(text: &str) -> (r: Result<Vec<String>, serde_json::Error>)
    ensures
        r is Ok <==> json_string_array(text@) is Some,
        r matches Ok(v) ==> json_string_array(text@) == Some(strs(v@)),
{
    serde_json::from_str::<Vec<String>>(text)
}

/// The selected files listed in the text of `meta/selected_files.json`.
pub fn load_selected_files(text: &str) -> (r: Result<Vec<String>, LoadError>)
    ensures
        match r {
            Ok(v) => json_string_array(text@) == Some(strs(v@)),
            Err(e) => e == LoadError::BadSelectedFiles && json_string_array(text@) is None,
        },
{
    match parse_json_strings(text) {
        Ok(v) => Ok(v),
        Err(_) => Err(LoadError::BadSelectedFiles),
    }
}

// ---------------------------------------------------------------------------
// Component names
// ---------------------------------------------------------------------------

pub open spec fn is_ascii_alnum(c: char) -> bool {
    ('A' <= c <= 'Z') || ('a' <= c <= 'z') || ('0' <= c <= '9')
}

/// `s` with every run of characters other than ASCII letters and digits
/// replaced by one `_`; and whether it ends with such a replacement.
pub open spec fn collapse(s: Seq<char>) -> (Seq<char>, bool)
    decreases s.len(),
{
    if s.len() == 0 {
        (seq![], false)
    } else {
        let (out, under) = collapse(s.drop_last());
        if is_ascii_alnum(s.last()) {
            (out.push(s.last()), false)
        } else if !under {
            (out.push('_'), true)
        } else {
            (out, true)
        }
    }
}

/// The first index at or after `i` that does not hold `_`.
pub open spec fn under_end(s: Seq<char>, i: int) -> int
    decreases s.len() - i,
{
    if 0 <= i < s.len() && s[i] == '_' {
        under_end(s, i + 1)
    } else {
        i
    }
}

/// Going back from `j`, not below `lo`, the first end not after a `_`.
pub open spec fn under_start_back(s: Seq<char>, lo: int, j: int) -> int
    decreases j - lo,
{
    if lo < j && j <= s.len() && s[j - 1] == '_' {
        under_start_back(s, lo, j - 1)
    } else {
        j
    }
}

/// `s` without leading and trailing `_`.
pub open spec fn trim_underscores(s: Seq<char>) -> Seq<char> {
    let a = under_end(s, 0);
    s.subrange(a, under_start_back(s, a, s.len() as int))
}

/// A path component reduced to ASCII letters, digits and single `_`
/// separators, with no `_` at either end.
pub open spec fn sanitized(s: Seq<char>) -> Seq<char> {
    trim_underscores(collapse(s).0)
}

proof fn lemma_under_end(s: Seq<char>, i: int)
    requires
        0 <= i <= s.len(),
    ensures
        i <= under_end(s, i) <= s.len(),
    decreases s.len() - i,
{
    if i < s.len() && s[i] == '_' {
        lemma_under_end(s, i + 1);
    }
}

proof fn lemma_under_start_back(s: Seq<char>, lo: int, j: int)
    requires
        0 <= lo <= j <= s.len(),
    ensures
        lo <= under_start_back(s, lo, j) <= j,
    decreases j - lo,
{
    if lo < j && s[j - 1] == '_' {
        lemma_under_start_back(s, lo, j - 1);
    }
}

/// `component` reduced for use in a module name.
pub fn sanitize_component(component: &Vec<char>) -> (r: Vec<char>)
    ensures
        r@ == sanitized(component@),
{
    let mut out: Vec<char> = Vec::new();
    let mut last_was_underscore = false;
    let mut i: usize = 0;
    while i < component.len()
        invariant
            i <= component@.len(),
            collapse(component@.take(i as int)) == (out@, last_was_underscore),
        decreases component@.len() - i,
    {
        proof {
            assert(component@.take(i + 1).drop_last() =~= component@.take(i as int));
        }
        let ch = component[i];
        if ('A' <= ch && ch <= 'Z') || ('a' <= ch && ch <= 'z') || ('0' <= ch && ch <= '9') {
            out.push(ch);
            last_was_underscore = false;
        } else if !last_was_underscore {
            out.push('_');
            last_was_underscore = true;
        }
        i = i + 1;
    }
    proof {
        assert(component@.take(component@.len() as int) =~= component@);
        lemma_under_end(out@, 0);
    }
    let n = out.len();
    let mut a: usize = 0;
    while a < n && out[a] == '_'
        invariant
            n == out@.len(),
            a <= n,
            under_end(out@, 0) == under_end(out@, a as int),
        decreases n - a,
    {
        a = a + 1;
    }
    proof {
        lemma_under_start_back(out@, a as int, n as int);
    }
    let mut b = n;
    while b > a && out[b - 1] == '_'
        invariant
            n == out@.len(),
            a <= b <= n,
            under_start_back(out@, a as int, n as int) == under_start_back(out@, a as int, b as int),
        decreases b,
    {
        b = b - 1;
    }
    copy_range(&out, a, b)
}

/// Only ASCII letters, digits and `_`, never two `_` in a row.
pub open spec fn underscore_separated(t: Seq<char>) -> bool {
    &&& forall|k: int| 0 <= k < t.len() ==> is_ascii_alnum(#[trigger] t[k]) || t[k] == '_'
    &&& forall|k: int| 0 <= k < t.len() - 1 ==> !(#[trigger] t[k] == '_' && t[k + 1] == '_')
}

/// The shape of a sanitized component: underscore-separated, with no `_`
/// at either end.
pub open spec fn sanitized_shape(t: Seq<char>) -> bool {
    &&& underscore_separated(t)
    &&& t.len() > 0 ==> t[0] != '_' && t[t.len() - 1] != '_'
}

proof fn lemma_collapse_shape(s: Seq<char>)
    ensures
        underscore_separated(collapse(s).0),
        collapse(s).1 <==> (collapse(s).0.len() > 0 && collapse(s).0.last() == '_'),
    decreases s.len(),
{
    if s.len() > 0 {
        lemma_collapse_shape(s.drop_last());
        let (out, under) = collapse(s.drop_last());
        let t = collapse(s).0;
        assert forall|k: int| 0 <= k < t.len() - 1 implies !(#[trigger] t[k] == '_' && t[k + 1] == '_') by {
            if k < out.len() - 1 {
                assert(t[k] == out[k] && t[k + 1] == out[k + 1]);
            }
        }
        assert forall|k: int| 0 <= k < t.len() implies is_ascii_alnum(#[trigger] t[k]) || t[k] == '_' by {
            if k < out.len() {
                assert(t[k] == out[k]);
            }
        }
    }
}

/// Collapsing keeps underscore-separated text as it is.
proof fn lemma_collapse_keeps(t: Seq<char>)
    requires
        underscore_separated(t),
    ensures
        collapse(t).0 == t,
        collapse(t).1 <==> (t.len() > 0 && t.last() == '_'),
    decreases t.len(),
{
    if t.len() > 0 {
        let u = t.drop_last();
        assert forall|k: int| 0 <= k < u.len() - 1 implies !(#[trigger] u[k] == '_' && u[k + 1] == '_') by {
            assert(u[k] == t[k] && u[k + 1] == t[k + 1]);
        }
        assert forall|k: int| 0 <= k < u.len() implies is_ascii_alnum(#[trigger] u[k]) || u[k] == '_' by {
            assert(u[k] == t[k]);
        }
        lemma_collapse_keeps(u);
        if u.len() > 0 && t.last() == '_' {
            assert(!(t[t.len() - 2] == '_' && t[t.len() - 1] == '_'));
        }
        assert(u.push(t.last()) =~= t);
    }
}

proof fn lemma_under_end_stops(s: Seq<char>, i: int)
    requires
        0 <= i <= s.len(),
    ensures
        under_end(s, i) < s.len() ==> s[under_end(s, i)] != '_',
    decreases s.len() - i,
{
    if i < s.len() && s[i] == '_' {
        lemma_under_end_stops(s, i + 1);
    }
}

proof fn lemma_under_start_back_stops(s: Seq<char>, lo: int, j: int)
    requires
        0 <= lo <= j <= s.len(),
    ensures
        under_start_back(s, lo, j) > lo ==> s[under_start_back(s, lo, j) - 1] != '_',
    decreases j - lo,
{
    if lo < j && s[j - 1] == '_' {
        lemma_under_start_back_stops(s, lo, j - 1);
    }
}

/// A sanitized component holds only ASCII letters, digits and `_`, never
/// two `_` in a row and no `_` at either end; sanitizing it again changes
/// nothing.
pub proof fn lemma_sanitized_shape(s: Seq<char>)
    ensures
        sanitized_shape(sanitized(s)),
        sanitized(sanitized(s)) == sanitized(s),
{
    lemma_collapse_shape(s);
    let out = collapse(s).0;
    lemma_under_end(out, 0);
    lemma_under_end_stops(out, 0);
    let a = under_end(out, 0);
    lemma_under_start_back(out, a, out.len() as int);
    lemma_under_start_back_stops(out, a, out.len() as int);
    let b = under_start_back(out, a, out.len() as int);
    let t = sanitized(s);
    assert(t =~= out.subrange(a, b));
    assert forall|k: int| 0 <= k < t.len() - 1 implies !(#[trigger] t[k] == '_' && t[k + 1] == '_') by {
        assert(t[k] == out[a + k] && t[k + 1] == out[a + k + 1]);
    }
    assert forall|k: int| 0 <= k < t.len() implies is_ascii_alnum(#[trigger] t[k]) || t[k] == '_' by {
        assert(t[k] == out[a + k]);
    }
    if t.len() > 0 {
        assert(t[0] == out[a]);
        assert(t[t.len() - 1] == out[b - 1]);
    }
    lemma_collapse_keeps(t);
    assert(under_end(t, 0) == 0);
    assert(under_start_back(t, 0, t.len() as int) == t.len());
    assert(t.subrange(0, t.len() as int) =~= t);
}


// ---------------------------------------------------------------------------
// Module names of selected files
// ---------------------------------------------------------------------------

/// `\` replaced by `/`.
pub open spec fn with_slashes(s: Seq<char>) -> Seq<char> {
    s.map_values(|c: char| if c == '\\' { '/' } else { c })
}

/// The name in a component.
pub open spec fn normal_name(c: Comp) -> Option<Seq<char>> {
    match c {
        Comp::Normal(n) => Some(n),
        _ => None,
    }
}

/// The components after those of `feature_root/c`, when they begin the path.
pub open spec fn after_feature_c(root: Seq<Comp>, pc: Seq<Comp>) -> Option<Seq<Comp>> {
    let base = root.push(Comp::Normal("c"@));
    if base.len() <= pc.len() && pc.take(base.len() as int) == base {
        Some(pc.skip(base.len() as int))
    } else {
        None
    }
}

/// The name of the last component, when it is a name.
pub open spec fn last_name(cs: Seq<Comp>) -> Option<Seq<char>> {
    if cs.len() > 0 {
        normal_name(cs.last())
    } else {
        None
    }
}

/// `.c2rust`, the feature name, `c` start at `p`.
pub open spec fn feature_c_at(pc: Seq<Comp>, p: int, feature: Seq<char>) -> bool {
    &&& 0 <= p
    &&& p + 3 <= pc.len()
    &&& pc[p] == Comp::Normal(".c2rust"@)
    &&& pc[p + 1] == Comp::Normal(feature)
    &&& pc[p + 2] == Comp::Normal("c"@)
}

/// The first index from `p` on where `.c2rust/<feature>/c` starts.
pub open spec fn first_feature_c(pc: Seq<Comp>, feature: Seq<char>, p: int) -> Option<int>
    decreases pc.len() - p,
{
    if p < 0 || p + 3 > pc.len() {
        None
    } else if feature_c_at(pc, p, feature) {
        Some(p)
    } else {
        first_feature_c(pc, feature, p + 1)
    }
}

/// The components after `.c2rust/<feature>/c` inside the path, where the
/// feature is the last name of the feature root; none when nothing follows.
pub open spec fn after_embedded_feature_c(root: Seq<Comp>, pc: Seq<Comp>) -> Option<Seq<Comp>> {
    match last_name(root) {
        None => None,
        Some(feature) => match first_feature_c(pc, feature, 0) {
            Some(p) => if pc.len() > p + 3 {
                Some(pc.skip(p + 3))
            } else {
                None
            },
            None => None,
        },
    }
}

/// The components after a leading `c`.
pub open spec fn after_literal_c(pc: Seq<Comp>) -> Option<Seq<Comp>> {
    if pc.len() >= 1 && pc[0] == Comp::Normal("c"@) {
        Some(pc.skip(1))
    } else {
        None
    }
}

/// The path of a selected file relative to the feature's `c/` directory,
/// wherever that directory appears; the whole path otherwise.
pub open spec fn relative_to_c(root: Seq<char>, selected_file: Seq<char>) -> Seq<Comp> {
    let pc = components(with_slashes(selected_file));
    let rc = components(root);
    match after_feature_c(rc, pc) {
        Some(r) => r,
        None => match after_embedded_feature_c(rc, pc) {
            Some(r) => r,
            None => match after_literal_c(pc) {
                Some(r) => r,
                None => pc,
            },
        },
    }
}

/// The path with its last component replaced by `name`, as
/// `PathBuf::set_file_name` does: an empty name or an inner `.` leaves no
/// component.
pub open spec fn rename_last(cs: Seq<Comp>, name: Seq<char>) -> Seq<Comp> {
    let pre = cs.drop_last();
    match piece_comp(name, pre.len() == 0, false) {
        Some(c) => pre.push(c),
        None => pre,
    }
}

/// The path without a `.c2rust` ending of its file name.
pub open spec fn without_c2rust(cs: Seq<Comp>) -> Seq<Comp> {
    match last_name(cs) {
        Some(n) => if n.len() >= 7 && n.skip(n.len() - 7) == ".c2rust"@ {
            rename_last(cs, n.take(n.len() - 7))
        } else {
            cs
        },
        None => cs,
    }
}

/// The index of the last `.` in `s` before `j`, or `-1`.
pub open spec fn last_dot(s: Seq<char>, j: int) -> int
    decreases j,
{
    if j <= 0 {
        -1
    } else if s[j - 1] == '.' {
        j - 1
    } else {
        last_dot(s, j - 1)
    }
}

/// The stem of a file name that has an extension: the part before its last
/// `.`, when that part is not empty.
pub open spec fn stem_with_extension(name: Seq<char>) -> Option<Seq<char>> {
    let d = last_dot(name, name.len() as int);
    if d > 0 {
        Some(name.take(d))
    } else {
        None
    }
}

/// The path without the extension of its file name.
pub open spec fn without_extension(cs: Seq<Comp>) -> Seq<Comp> {
    match last_name(cs) {
        Some(n) => match stem_with_extension(n) {
            Some(stem) => rename_last(cs, stem),
            None => cs,
        },
        None => cs,
    }
}

/// The module key of a selected file: its path relative to `c/`, without
/// a `.c2rust` ending and without its extension.
pub open spec fn module_key(root: Seq<char>, selected_file: Seq<char>) -> Seq<Comp> {
    without_extension(without_c2rust(relative_to_c(root, selected_file)))
}

/// The sanitized, non-empty names of `cs`.
pub open spec fn module_parts(cs: Seq<Comp>) -> Seq<Seq<char>>
    decreases cs.len(),
{
    if cs.len() == 0 {
        seq![]
    } else {
        let earlier = module_parts(cs.drop_last());
        match cs.last() {
            Comp::Normal(n) => if sanitized(n).len() > 0 {
                earlier.push(sanitized(n))
            } else {
                earlier
            },
            _ => earlier,
        }
    }
}

/// The module generated from a selected file: `mod_` and the sanitized
/// names of its module key joined by `_`; none when no name remains.
pub open spec fn module_name_for(root: Seq<char>, selected_file: Seq<char>) -> Option<Seq<char>> {
    let parts = module_parts(module_key(root, selected_file));
    if parts.len() == 0 {
        None
    } else {
        Some("mod_"@ + join(parts, "_"@))
    }
}

/// How a component is written.
pub open spec fn comp_text(c: Comp) -> Seq<char> {
    match c {
        Comp::Root => "/"@,
        Comp::Cur => "."@,
        Comp::Parent => ".."@,
        Comp::Normal(n) => n,
    }
}

/// The source key of a selected file: its module key without a further
/// extension, its components written out and joined by `/`.
pub open spec fn source_key(root: Seq<char>, selected_file: Seq<char>) -> Option<Seq<char>> {
    let key = without_extension(module_key(root, selected_file));
    let text = join(key.map_values(|c: Comp| comp_text(c)), "/"@);
    if text.len() == 0 {
        None
    } else {
        Some(text)
    }
}

fn copy_comp(c: &PathComp) -> (r: PathComp)
    ensures
        r@ == c@,
{
    match c {
        PathComp::RootDir => PathComp::RootDir,
        PathComp::CurDir => PathComp::CurDir,
        PathComp::ParentDir => PathComp::ParentDir,
        PathComp::Normal(n) => PathComp::Normal(copy_chars(n)),
    }
}

fn comp_equal(a: &PathComp, b: &PathComp) -> (r: bool)
    ensures
        r == (a@ == b@),
{
    match (a, b) {
        (PathComp::RootDir, PathComp::RootDir) => true,
        (PathComp::CurDir, PathComp::CurDir) => true,
        (PathComp::ParentDir, PathComp::ParentDir) => true,
        (PathComp::Normal(x), PathComp::Normal(y)) => chars_equal(x, y),
        _ => false,
    }
}

fn is_name(c: &PathComp, text: &str) -> (r: bool)
    ensures
        r == (c@ == Comp::Normal(text@)),
{
    match c {
        PathComp::Normal(x) => chars_equal(x, &chars_of(text)),
        _ => false,
    }
}

/// The components of `cs` from `from` on.
fn comps_from(cs: &Vec<PathComp>, from: usize) -> (r: Vec<PathComp>)
    requires
        from <= cs@.len(),
    ensures
        comp_views(r@) == comp_views(cs@).skip(from as int),
{
    let mut r: Vec<PathComp> = Vec::new();
    let mut i = from;
    while i < cs.len()
        invariant
            from <= i <= cs@.len(),
            comp_views(r@) == comp_views(cs@).subrange(from as int, i as int),
        decreases cs@.len() - i,
    {
        let c = copy_comp(&cs[i]);
        let ghost before = comp_views(r@);
        r.push(c);
        proof {
            assert(comp_views(r@) =~= before.push(c@));
            assert(comp_views(cs@).subrange(from as int, i + 1) =~= comp_views(cs@).subrange(from as int, i as int).push(cs@[i as int]@));
        }
        i = i + 1;
    }
    proof {
        assert(comp_views(cs@).subrange(from as int, cs@.len() as int) =~= comp_views(cs@).skip(from as int));
    }
    r
}

fn after_feature_c_exec(root: &Vec<PathComp>, pc: &Vec<PathComp>) -> (r: Option<Vec<PathComp>>)
    ensures
        match r {
            Some(v) => after_feature_c(comp_views(root@), comp_views(pc@)) == Some(comp_views(v@)),
            None => after_feature_c(comp_views(root@), comp_views(pc@)) is None,
        },
{
    let ghost base = comp_views(root@).push(Comp::Normal("c"@));
    let ghost pv = comp_views(pc@);
    if root.len() >= pc.len() {
        return None;
    }
    let mut i: usize = 0;
    while i < root.len()
        invariant
            i <= root@.len(),
            root@.len() + 1 <= pc@.len(),
            base == comp_views(root@).push(Comp::Normal("c"@)),
            pv == comp_views(pc@),
            forall|k: int| 0 <= k < i ==> pv[k] == base[k],
        decreases root@.len() - i,
    {
        if !comp_equal(&root[i], &pc[i]) {
            proof {
                assert(pv.take(base.len() as int)[i as int] != base[i as int]);
            }
            return None;
        }
        i = i + 1;
    }
    if !is_name(&pc[root.len()], "c") {
        proof {
            assert(pv.take(base.len() as int)[root@.len() as int] != base[root@.len() as int]);
        }
        return None;
    }
    proof {
        assert(pv.take(base.len() as int) =~= base);
    }
    Some(comps_from(pc, root.len() + 1))
}

fn after_embedded_feature_c_exec(root: &Vec<PathComp>, pc: &Vec<PathComp>) -> (r: Option<Vec<PathComp>>)
    ensures
        match r {
            Some(v) => after_embedded_feature_c(comp_views(root@), comp_views(pc@)) == Some(comp_views(v@)),
            None => after_embedded_feature_c(comp_views(root@), comp_views(pc@)) is None,
        },
{
    let ghost pv = comp_views(pc@);
    if root.len() == 0 {
        return None;
    }
    let feature = match &root[root.len() - 1] {
        PathComp::Normal(n) => n,
        _ => {
            return None;
        },
    };
    proof {
        assert(last_name(comp_views(root@)) == Some(feature@));
    }
    let tag = chars_of(".c2rust");
    let c = chars_of("c");
    let mut p: usize = 0;
    while p < pc.len() && pc.len() - p >= 3
        invariant
            pv == comp_views(pc@),
            last_name(comp_views(root@)) == Some(feature@),
            tag@ == ".c2rust"@,
            c@ == "c"@,
            first_feature_c(pv, feature@, 0) == first_feature_c(pv, feature@, p as int),
        decreases pc@.len() - p,
    {
        let at = match (&pc[p], &pc[p + 1], &pc[p + 2]) {
            (PathComp::Normal(a), PathComp::Normal(b), PathComp::Normal(d)) => chars_equal(a, &tag)
                && chars_equal(b, feature) && chars_equal(d, &c),
            _ => false,
        };
        if at {
            proof {
                assert(feature_c_at(pv, p as int, feature@));
            }
            if pc.len() > p + 3 {
                return Some(comps_from(pc, p + 3));
            } else {
                return None;
            }
        }
        p = p + 1;
    }
    None
}

/// The last name of the path, when its last component is a name.
pub(crate) fn last_name_exec(cs: &Vec<PathComp>) -> (r: Option<Vec<char>>)
    ensures
        match r {
            Some(n) => last_name(comp_views(cs@)) == Some(n@),
            None => last_name(comp_views(cs@)) is None,
        },
{
    if cs.len() == 0 {
        return None;
    }
    match &cs[cs.len() - 1] {
        PathComp::Normal(n) => Some(copy_chars(n)),
        _ => None,
    }
}

/// The path with its last component replaced by `name`.
fn rename_last_exec(cs: &Vec<PathComp>, name: Vec<char>) -> (r: Vec<PathComp>)
    requires
        cs@.len() > 0,
    ensures
        comp_views(r@) == rename_last(comp_views(cs@), name@),
{
    let mut pre: Vec<PathComp> = Vec::new();
    let mut i: usize = 0;
    while i < cs.len() - 1
        invariant
            i + 1 <= cs@.len(),
            comp_views(pre@) == comp_views(cs@).take(i as int),
        decreases cs@.len() - i,
    {
        let c = copy_comp(&cs[i]);
        let ghost before = comp_views(pre@);
        pre.push(c);
        proof {
            assert(comp_views(pre@) =~= before.push(c@));
            assert(comp_views(cs@).take(i + 1) =~= comp_views(cs@).take(i as int).push(cs@[i as int]@));
        }
        i = i + 1;
    }
    proof {
        assert(comp_views(cs@).drop_last() =~= comp_views(cs@).take(i as int));
    }
    let first = pre.len() == 0;
    let n = name.len();
    let one_dot = n == 1 && name[0] == '.';
    let two_dots = n == 2 && name[0] == '.' && name[1] == '.';
    let ghost before = comp_views(pre@);
    proof {
        if one_dot {
            assert(name@ =~= seq!['.']);
        }
        if two_dots {
            assert(name@ =~= seq!['.', '.']);
        }
        if name@ =~= seq!['.'] {
            assert(name@[0] == '.');
        }
        if name@ =~= seq!['.', '.'] {
            assert(name@[0] == '.' && name@[1] == '.');
        }
    }
    if n == 0 {
    } else if one_dot {
        if first {
            pre.push(PathComp::CurDir);
        }
    } else if two_dots {
        pre.push(PathComp::ParentDir);
    } else {
        pre.push(PathComp::Normal(name));
    }
    proof {
        assert(comp_views(pre@) =~= rename_last(comp_views(cs@), name@));
    }
    pre
}

proof fn lemma_last_dot(s: Seq<char>, j: int)
    requires
        0 <= j <= s.len(),
    ensures
        -1 <= last_dot(s, j) < j,
    decreases j,
{
    if j > 0 && s[j - 1] != '.' {
        lemma_last_dot(s, j - 1);
    }
}

pub(crate) fn last_dot_exec(s: &Vec<char>) -> (r: usize)
    ensures
        r as int == last_dot(s@, s@.len() as int) + 1,
        r <= s@.len(),
{
    proof {
        lemma_last_dot(s@, s@.len() as int);
    }
    let mut j = s.len();
    while j > 0
        invariant
            j <= s@.len(),
            last_dot(s@, s@.len() as int) == last_dot(s@, j as int),
        decreases j,
    {
        if s[j - 1] == '.' {
            return j;
        }
        j = j - 1;
    }
    0
}

fn without_c2rust_exec(cs: Vec<PathComp>) -> (r: Vec<PathComp>)
    ensures
        comp_views(r@) == without_c2rust(comp_views(cs@)),
{
    match last_name_exec(&cs) {
        Some(n) => {
            let tag = chars_of(".c2rust");
            let len = n.len();
            if len >= 7 {
                let tail = copy_range(&n, len - 7, len);
                if chars_equal(&tail, &tag) {
                    proof {
                        assert(n@.skip(len - 7) =~= tail@);
                    }
                    let stem = copy_range(&n, 0, len - 7);
                    proof {
                        assert(stem@ =~= n@.take(len - 7));
                    }
                    return rename_last_exec(&cs, stem);
                }
                proof {
                    assert(n@.skip(len - 7) =~= tail@);
                }
            }
            cs
        },
        None => cs,
    }
}

fn without_extension_exec(cs: Vec<PathComp>) -> (r: Vec<PathComp>)
    ensures
        comp_views(r@) == without_extension(comp_views(cs@)),
{
    match last_name_exec(&cs) {
        Some(n) => {
            let d1 = last_dot_exec(&n);
            if d1 > 1 {
                let stem = copy_range(&n, 0, d1 - 1);
                proof {
                    assert(stem@ =~= n@.take(d1 - 1));
                }
                rename_last_exec(&cs, stem)
            } else {
                cs
            }
        },
        None => cs,
    }
}

/// The module key of a selected file.
pub fn selected_file_module_key(feature_root: &str, selected_file: &str) -> (r: Vec<PathComp>)
    ensures
        comp_views(r@) == module_key(feature_root@, selected_file@),
{
    let raw = chars_of(selected_file);
    let mut normalized: Vec<char> = Vec::new();
    let mut i: usize = 0;
    while i < raw.len()
        invariant
            i <= raw@.len(),
            normalized@ == with_slashes(raw@.take(i as int)),
        decreases raw@.len() - i,
    {
        let c = raw[i];
        normalized.push(if c == '\\' { '/' } else { c });
        proof {
            assert(normalized@ =~= with_slashes(raw@.take(i + 1)));
        }
        i = i + 1;
    }
    proof {
        assert(raw@.take(raw@.len() as int) =~= raw@);
    }
    let pc = path_components(&normalized);
    let rc = path_components(&chars_of(feature_root));
    let relative = match after_feature_c_exec(&rc, &pc) {
        Some(r) => r,
        None => match after_embedded_feature_c_exec(&rc, &pc) {
            Some(r) => r,
            None => {
                if pc.len() >= 1 && is_name(&pc[0], "c") {
                    comps_from(&pc, 1)
                } else {
                    pc
                }
            },
        },
    };
    let without = without_c2rust_exec(relative);
    without_extension_exec(without)
}

/// The sanitized non-empty names of `cs`.
fn module_parts_exec(cs: &Vec<PathComp>) -> (r: Vec<Vec<char>>)
    ensures
        r.deep_view() == module_parts(comp_views(cs@)),
{
    let ghost cv = comp_views(cs@);
    let mut r: Vec<Vec<char>> = Vec::new();
    let mut i: usize = 0;
    while i < cs.len()
        invariant
            i <= cs@.len(),
            cv == comp_views(cs@),
            r.deep_view() == module_parts(cv.take(i as int)),
        decreases cs@.len() - i,
    {
        proof {
            assert(cv.take(i + 1).drop_last() =~= cv.take(i as int));
            assert(cv.take(i + 1).last() == cs@[i as int]@);
        }
        match &cs[i] {
            PathComp::Normal(n) => {
                let s = sanitize_component(n);
                if s.len() > 0 {
                    let ghost before = r.deep_view();
                    proof {
                        assert(s.deep_view() =~= s@);
                    }
                    r.push(s);
                    proof {
                        assert(r.deep_view() =~= before.push(sanitized(n@)));
                    }
                }
            },
            _ => {},
        }
        i = i + 1;
    }
    proof {
        assert(cv.take(cs@.len() as int) =~= cv);
    }
    r
}

/// Appends the parts joined by `sep`.
fn push_joined(out: &mut String, parts: &Vec<Vec<char>>, sep: &str)
    ensures
        final(out)@ == old(out)@ + join(parts.deep_view(), sep@),
{
    let ghost ps = parts.deep_view();
    let ghost start = out@;
    let mut i: usize = 0;
    while i < parts.len()
        invariant
            i <= parts@.len(),
            ps == parts.deep_view(),
            out@ == start + join(ps.take(i as int), sep@),
        decreases parts@.len() - i,
    {
        if i > 0 {
            push_str(out, sep);
        }
        push_chars(out, &parts[i]);
        proof {
            assert(parts@[i as int]@ =~= ps[i as int]);
            assert(ps.take(i + 1).drop_last() =~= ps.take(i as int));
            if i == 0 {
                assert(join(ps.take(1), sep@) == ps.take(1)[0]);
                assert(out@ =~= start + join(ps.take(1), sep@));
            }
        }
        i = i + 1;
    }
    proof {
        assert(ps.take(parts@.len() as int) =~= ps);
    }
}

/// The module generated from `selected_file`, if its key yields a name.
pub fn module_name_for_selected_file(feature_root: &str, selected_file: &str) -> (r: Option<String>)
    ensures
        match r {
            Some(m) => module_name_for(feature_root@, selected_file@) == Some(m@),
            None => module_name_for(feature_root@, selected_file@) is None,
        },
{
    let key = selected_file_module_key(feature_root, selected_file);
    let parts = module_parts_exec(&key);
    if parts.len() == 0 {
        return None;
    }
    let mut out = String::new();
    push_str(&mut out, "mod_");
    push_joined(&mut out, &parts, "_");
    Some(out)
}

/// Whether `selected_file` generates the module `mod_name`.
pub fn module_name_matches_selected_file(feature_root: &str, mod_name: &str, selected_file: &str) -> (b: bool)
    ensures
        b == (module_name_for(feature_root@, selected_file@) == Some(mod_name@)),
{
    match module_name_for_selected_file(feature_root, selected_file) {
        Some(candidate) => chars_equal(&chars_of(candidate.as_str()), &chars_of(mod_name)),
        None => false,
    }
}

/// The source key of `selected_file`.
pub fn selected_file_source_key(feature_root: &str, selected_file: &str) -> (r: Option<String>)
    ensures
        match r {
            Some(k) => source_key(feature_root@, selected_file@) == Some(k@),
            None => source_key(feature_root@, selected_file@) is None,
        },
{
    let key = selected_file_module_key(feature_root, selected_file);
    let key = without_extension_exec(key);
    let ghost kv = comp_views(key@);
    let mut texts: Vec<Vec<char>> = Vec::new();
    let mut i: usize = 0;
    while i < key.len()
        invariant
            i <= key@.len(),
            kv == comp_views(key@),
            texts.deep_view() == kv.take(i as int).map_values(|c: Comp| comp_text(c)),
        decreases key@.len() - i,
    {
        let t: Vec<char> = match &key[i] {
            PathComp::RootDir => chars_of("/"),
            PathComp::CurDir => chars_of("."),
            PathComp::ParentDir => chars_of(".."),
            PathComp::Normal(n) => copy_chars(n),
        };
        let ghost before = texts.deep_view();
        proof {
            assert(t.deep_view() =~= t@);
            assert(t@ == comp_text(kv[i as int]));
        }
        texts.push(t);
        proof {
            assert(texts.deep_view() =~= before.push(comp_text(kv[i as int])));
            assert(kv.take(i + 1).map_values(|c: Comp| comp_text(c)) =~= kv.take(i as int).map_values(|c: Comp| comp_text(c)).push(comp_text(kv[i as int])));
        }
        i = i + 1;
    }
    proof {
        assert(kv.take(key@.len() as int) =~= kv);
    }
    let mut out = String::new();
    push_joined(&mut out, &texts, "/");
    proof {
        assert(out@ =~= join(kv.map_values(|c: Comp| comp_text(c)), "/"@));
    }
    let written = chars_of(out.as_str());
    if written.len() == 0 {
        None
    } else {
        Some(out)
    }
}

// ---------------------------------------------------------------------------
// Modules
// ---------------------------------------------------------------------------

/// The selected files that generate the module `mod_name`, in order.
pub open spec fn files_for_module(root: Seq<char>, mod_name: Seq<char>, files: Seq<Seq<char>>) -> Seq<Seq<char>>
    decreases files.len(),
{
    if files.len() == 0 {
        seq![]
    } else {
        let earlier = files_for_module(root, mod_name, files.drop_last());
        if module_name_for(root, files.last()) == Some(mod_name) {
            earlier.push(files.last())
        } else {
            earlier
        }
    }
}

/// The selected file of a module: the one selected file that generates it,
/// if exactly one does.
pub open spec fn inferred_file(root: Seq<char>, mod_name: Seq<char>, files: Seq<Seq<char>>) -> Option<Seq<char>> {
    let m = files_for_module(root, mod_name, files);
    if m.len() == 1 {
        Some(m[0])
    } else {
        None
    }
}

/// The selected file that generates the module `mod_name`, when exactly one does.
pub fn infer_selected_file_for_module(feature_root: &str, mod_name: &str, selected_files: &Vec<String>) -> (r: Option<String>)
    ensures
        match r {
            Some(f) => inferred_file(feature_root@, mod_name@, strs(selected_files@)) == Some(f@),
            None => inferred_file(feature_root@, mod_name@, strs(selected_files@)) is None,
        },
{
    let ghost fs = strs(selected_files@);
    let mut found: Vec<usize> = Vec::new();
    let mut i: usize = 0;
    while i < selected_files.len()
        invariant
            i <= selected_files@.len(),
            fs == strs(selected_files@),
            found@.len() == files_for_module(feature_root@, mod_name@, fs.take(i as int)).len(),
            forall|k: int| 0 <= k < found@.len() ==> #[trigger] found@[k] < selected_files@.len()
                && fs[found@[k] as int] == files_for_module(feature_root@, mod_name@, fs.take(i as int))[k],
        decreases selected_files@.len() - i,
    {
        proof {
            assert(fs.take(i + 1).drop_last() =~= fs.take(i as int));
            assert(fs.take(i + 1).last() == selected_files@[i as int]@);
        }
        if module_name_matches_selected_file(feature_root, mod_name, selected_files[i].as_str()) {
            found.push(i);
        }
        i = i + 1;
    }
    proof {
        assert(fs.take(selected_files@.len() as int) =~= fs);
    }
    if found.len() == 1 {
        Some(selected_files[found[0]].clone())
    } else {
        None
    }
}

/// The name with `prefix` at its start and `.rs` at its end, both taken off.
pub open spec fn stem_of(name: Seq<char>, prefix: Seq<char>) -> Option<Seq<char>> {
    if has_prefix(name, prefix) && name.len() >= prefix.len() + 3 && name.skip(name.len() - 3) == ".rs"@ {
        Some(name.subrange(prefix.len() as int, name.len() - 3))
    } else {
        None
    }
}

/// The stems of the names that have them, in order.
pub open spec fn stems(names: Seq<Seq<char>>, prefix: Seq<char>) -> Seq<Seq<char>>
    decreases names.len(),
{
    if names.len() == 0 {
        seq![]
    } else {
        let earlier = stems(names.drop_last(), prefix);
        match stem_of(names.last(), prefix) {
            Some(st) => earlier.push(st),
            None => earlier,
        }
    }
}

pub open spec fn str_order() -> spec_fn(Seq<char>, Seq<char>) -> bool {
    |a: Seq<char>, b: Seq<char>| str_lt(a, b)
}

/// `v` sorted, stably, in string order.
pub fn sort_strings(v: Vec<String>) -> (r: Vec<String>)
    ensures
        strs(r@) == sort_seq(strs(v@), str_order()),
        sorted_version(strs(v@), strs(r@), str_order()),
{
    let ghost input = strs(v@);
    let mut r: Vec<String> = Vec::new();
    let mut i: usize = 0;
    while i < v.len()
        invariant
            i <= v@.len(),
            input == strs(v@),
            strs(r@) == sort_seq(input.take(i as int), str_order()),
        decreases v@.len() - i,
    {
        let x = v[i].clone();
        let ghost sorted = strs(r@);
        proof {
            lemma_insert_pos(sorted, x@, str_order(), 0);
        }
        let mut p: usize = 0;
        while p < r.len() && !string_lt(x.as_str(), r[p].as_str())
            invariant
                p <= r@.len(),
                sorted == strs(r@),
                insert_pos(sorted, x@, str_order(), 0) == insert_pos(sorted, x@, str_order(), p as int),
            decreases r@.len() - p,
        {
            p = p + 1;
        }
        r.insert(p, x);
        proof {
            assert(strs(r@) =~= sorted.insert(p as int, x@));
            assert(input[i as int] == x@);
            lemma_sort_seq_step(input, i as int, str_order());
        }
        i = i + 1;
    }
    proof {
        assert(input.take(v@.len() as int) =~= input);
        lemma_str_lt_order();
        lemma_sort_seq(input, str_order());
    }
    r
}

/// The stems of the `*.rs` file names that start with `prefix`, sorted.
pub fn collect_stems(file_names: &Vec<String>, prefix: &str) -> (r: Vec<String>)
    ensures
        strs(r@) == sort_seq(stems(strs(file_names@), prefix@), str_order()),
{
    let ghost ns = strs(file_names@);
    let p = chars_of(prefix);
    let rs = chars_of(".rs");
    let mut found: Vec<String> = Vec::new();
    let mut i: usize = 0;
    while i < file_names.len()
        invariant
            i <= file_names@.len(),
            ns == strs(file_names@),
            p@ == prefix@,
            rs@ == ".rs"@,
            strs(found@) == stems(ns.take(i as int), prefix@),
        decreases file_names@.len() - i,
    {
        proof {
            assert(ns.take(i + 1).drop_last() =~= ns.take(i as int));
            assert(ns.take(i + 1).last() == file_names@[i as int]@);
            reveal_strlit(".rs");
        }
        let name = chars_of(file_names[i].as_str());
        let n = name.len();
        if starts_with(&name, &p) && n >= 3 && n - 3 >= p.len() {
            let tail = copy_range(&name, n - 3, n);
            proof {
                assert(name@.skip(n - 3) =~= tail@);
            }
            if chars_equal(&tail, &rs) {
                let stem = copy_range(&name, p.len(), n - 3);
                let ghost before = strs(found@);
                let st = string_of(&stem);
                found.push(st);
                proof {
                    assert(strs(found@) =~= before.push(stem@));
                }
            }
        }
        i = i + 1;
    }
    proof {
        assert(ns.take(file_names@.len() as int) =~= ns);
    }
    sort_strings(found)
}

/// A directory under `rust/src/`: its name and whether it is a directory.
pub struct DirEntryInfo {
    pub name: String,
    pub is_dir: bool,
}

/// The module directory names among `entries`: directories whose names
/// start with `mod_`, in order.
pub open spec fn module_dirs(entries: Seq<DirEntryInfo>) -> Seq<Seq<char>>
    decreases entries.len(),
{
    if entries.len() == 0 {
        seq![]
    } else {
        let earlier = module_dirs(entries.drop_last());
        if entries.last().is_dir && has_prefix(entries.last().name@, "mod_"@) {
            earlier.push(entries.last().name@)
        } else {
            earlier
        }
    }
}

/// The module directories under `rust/src/`, sorted by name.
pub fn module_dir_names(entries: &Vec<DirEntryInfo>) -> (r: Vec<String>)
    ensures
        strs(r@) == sort_seq(module_dirs(entries@), str_order()),
{
    let p = chars_of("mod_");
    let mut found: Vec<String> = Vec::new();
    let mut i: usize = 0;
    while i < entries.len()
        invariant
            i <= entries@.len(),
            p@ == "mod_"@,
            strs(found@) == module_dirs(entries@.take(i as int)),
        decreases entries@.len() - i,
    {
        proof {
            assert(entries@.take(i + 1).drop_last() =~= entries@.take(i as int));
        }
        if entries[i].is_dir && starts_with(&chars_of(entries[i].name.as_str()), &p) {
            let ghost before = strs(found@);
            let c = entries[i].name.clone();
            found.push(c);
            proof {
                assert(strs(found@) =~= before.push(c@));
            }
        }
        i = i + 1;
    }
    proof {
        assert(entries@.take(entries@.len() as int) =~= entries@);
    }
    sort_strings(found)
}

/// A module directory and the names of the files in it.
pub struct ModuleListing {
    pub name: String,
    pub file_names: Vec<String>,
}

/// The module built from a listing: its functions, declarations and
/// variables from the `fun_`, `decl_` and `var_` files, and its selected file.
pub open spec fn module_from(root: Seq<char>, files: Seq<Seq<char>>, l: ModuleListing, m: FeatureModule) -> bool {
    &&& m.name@ == l.name@
    &&& strs(m.functions@) == sort_seq(stems(strs(l.file_names@), "fun_"@), str_order())
    &&& strs(m.decls@) == sort_seq(stems(strs(l.file_names@), "decl_"@), str_order())
    &&& strs(m.vars@) == sort_seq(stems(strs(l.file_names@), "var_"@), str_order())
    &&& match m.selected_file {
        Some(f) => inferred_file(root, l.name@, files) == Some(f@),
        None => inferred_file(root, l.name@, files) is None,
    }
}

/// The modules of the listed module directories, in order.
pub fn load_modules(feature_root: &str, selected_files: &Vec<String>, dirs: &Vec<ModuleListing>) -> (r: Vec<FeatureModule>)
    ensures
        r@.len() == dirs@.len(),
        forall|k: int| 0 <= k < dirs@.len() ==> module_from(feature_root@, strs(selected_files@), #[trigger] dirs@[k], r@[k]),
{
    let mut modules: Vec<FeatureModule> = Vec::new();
    let mut i: usize = 0;
    while i < dirs.len()
        invariant
            i <= dirs@.len(),
            modules@.len() == i,
            forall|k: int| 0 <= k < i ==> module_from(feature_root@, strs(selected_files@), #[trigger] dirs@[k], modules@[k]),
        decreases dirs@.len() - i,
    {
        let d = &dirs[i];
        let functions = collect_stems(&d.file_names, "fun_");
        let decls = collect_stems(&d.file_names, "decl_");
        let vars = collect_stems(&d.file_names, "var_");
        let selected_file = infer_selected_file_for_module(feature_root, d.name.as_str(), selected_files);
        let m = FeatureModule { name: d.name.clone(), selected_file, functions, decls, vars };
        proof {
            assert(module_from(feature_root@, strs(selected_files@), dirs@[i as int], m));
        }
        modules.push(m);
        i = i + 1;
    }
    modules
}

/// Builds the index of a feature workspace from the text of its selected
/// files list and the listings of its module directories (in name order).
pub fn load(feature_root: &str, selected_files_json: &str, dirs: &Vec<ModuleListing>) -> (r: Result<FeatureIndex, LoadError>)
    ensures
        r is Err <==> json_string_array(selected_files_json@) is None,
        r matches Err(e) ==> e == LoadError::BadSelectedFiles,
        r matches Ok(ix) ==> {
            &&& ix.feature_root@ == feature_root@
            &&& json_string_array(selected_files_json@) == Some(strs(ix.selected_files@))
            &&& ix.modules@.len() == dirs@.len()
            &&& forall|k: int| 0 <= k < dirs@.len() ==> module_from(feature_root@, strs(ix.selected_files@), #[trigger] dirs@[k], ix.modules@[k])
        },
{
    let selected_files = match load_selected_files(selected_files_json) {
        Ok(v) => v,
        Err(e) => {
            return Err(e);
        },
    };
    let modules = load_modules(feature_root, &selected_files, dirs);
    Ok(FeatureIndex { feature_root: feature_root.to_owned(), selected_files, modules })
}

} // verus!
