//! Where the interface report is looked for when no path is given: the
//! init report, then the merge report, under `meta/`; then, across the
//! feature directories under `.c2rust/` taken in name order, an init report,
//! and only then a merge report.
use vstd::prelude::*;

use crate::order::{lemma_str_lt_order, str_lt, string_lt};
use crate::text::push_str;

verus! {

pub const INIT_REPORT_PATH: &'static str = "meta/init-interface-report.md";

pub const MERGE_REPORT_PATH: &'static str = "meta/merge-interface-report.md";

pub const DISCOVER_OUTPUT_FILE: &'static str = "c-test-discovery-report.md";

pub const MAP_OUTPUT_FILE: &'static str = "c-test-map-report.md";

/// A directory under `.c2rust/` and which reports it holds.
pub struct FeatureReports {
    pub name: String,
    pub has_init: bool,
    pub has_merge: bool,
}

/// Where the report was found.
#[derive(Debug, Clone, PartialEq, Eq)]
pub enum ReportLocation {
    /// `meta/init-interface-report.md`
    Init,
    /// `meta/merge-interface-report.md`
    Merge,
    /// `.c2rust/<feature>/meta/init-interface-report.md`
    FeatureInit(String),
    /// `.c2rust/<feature>/meta/merge-interface-report.md`
    FeatureMerge(String),
}

/// No interface report was found in any of the places looked in.
#[derive(Debug, Clone, Copy, PartialEq, Eq, Structural)]
pub struct ReportNotFound;

impl ReportNotFound {
    pub open spec fn spec_message() -> Seq<char> {
        "interface report not found: tried meta/init-interface-report.md, meta/merge-interface-report.md, and .c2rust/<feature>/meta/{init,merge}-interface-report.md"@
    }

    /// The message that names every place looked in.
    pub fn message(&self) -> (s: String)
        ensures
            s@ == Self::spec_message(),
    {
        let mut s = String::new();
        push_str(
            &mut s,
            "interface report not found: tried meta/init-interface-report.md, meta/merge-interface-report.md, and .c2rust/<feature>/meta/{init,merge}-interface-report.md",
        );
        s
    }
}

/// Feature `i` has the report that `init` selects (init or merge).
pub open spec fn has_report(f: FeatureReports, init: bool) -> bool {
    if init {
        f.has_init
    } else {
        f.has_merge
    }
}

/// `name` is the least name among the features that hold the report.
pub open spec fn least_with(fs: Seq<FeatureReports>, init: bool, name: Seq<char>) -> bool {
    &&& exists|i: int| 0 <= i < fs.len() && has_report(fs[i], init) && #[trigger] fs[i].name@ == name
    &&& forall|j: int| 0 <= j < fs.len() && has_report(#[trigger] fs[j], init) ==> !str_lt(fs[j].name@, name)
}

/// Some feature holds the report.
pub open spec fn any_with(fs: Seq<FeatureReports>, init: bool) -> bool {
    exists|i: int| 0 <= i < fs.len() && #[trigger] has_report(fs[i], init)
}

/// The first feature, in name order, that holds the report.
fn least_feature(fs: &Vec<FeatureReports>, init: bool) -> (r: Option<String>)
    ensures
        match r {
            Some(n) => least_with(fs@, init, n@),
            None => !any_with(fs@, init),
        },
{
    proof {
        lemma_str_lt_order();
    }
    let mut best: Option<usize> = None;
    let mut i: usize = 0;
    while i < fs.len()
        invariant
            i <= fs@.len(),
            match best {
                Some(b) => b < i && has_report(fs@[b as int], init) && forall|j: int|
                    0 <= j < i && has_report(#[trigger] fs@[j], init) ==> !str_lt(
                        fs@[j].name@,
                        fs@[b as int].name@,
                    ),
                None => forall|j: int| 0 <= j < i ==> !has_report(#[trigger] fs@[j], init),
            },
        decreases fs@.len() - i,
    {
        proof {
            lemma_str_lt_order();
        }
        let holds = if init {
            fs[i].has_init
        } else {
            fs[i].has_merge
        };
        if holds {
            match best {
                Some(b) => {
                    if string_lt(fs[i].name.as_str(), fs[b].name.as_str()) {
                        proof {
                            assert forall|j: int|
                                0 <= j < i + 1 && has_report(#[trigger] fs@[j], init) implies !str_lt(
                                fs@[j].name@,
                                fs@[i as int].name@,
                            ) by {
                                if j < i && str_lt(fs@[j].name@, fs@[i as int].name@) {
                                    assert(str_lt(fs@[j].name@, fs@[b as int].name@));
                                }
                            }
                        }
                        best = Some(i);
                    } else {
                    }
                },
                None => {
                    best = Some(i);
                },
            }
        }
        i = i + 1;
    }
    match best {
        Some(b) => {
            proof {
                assert(fs@[b as int].name@ == fs@[b as int].name@);
            }
            Some(fs[b].name.clone())
        },
        None => None,
    }
}

/// The report path chosen when none is given.
pub open spec fn chosen_location(
    root_init: bool,
    root_merge: bool,
    fs: Seq<FeatureReports>,
    r: Result<ReportLocation, ReportNotFound>,
) -> bool {
    if root_init {
        r == Ok::<ReportLocation, ReportNotFound>(ReportLocation::Init)
    } else if root_merge {
        r == Ok::<ReportLocation, ReportNotFound>(ReportLocation::Merge)
    } else if any_with(fs, true) {
        r matches Ok(ReportLocation::FeatureInit(n)) && least_with(fs, true, n@)
    } else if any_with(fs, false) {
        r matches Ok(ReportLocation::FeatureMerge(n)) && least_with(fs, false, n@)
    } else {
        r is Err
    }
}

/// Chooses the interface report: `root_init` and `root_merge` tell whether
/// the two reports exist under `meta/`, and `features` describes the
/// directories under `.c2rust/`.
pub fn resolve_default_report_path(root_init: bool, root_merge: bool, features: &Vec<FeatureReports>) -> (r: Result<ReportLocation, ReportNotFound>)
    ensures
        chosen_location(root_init, root_merge, features@, r),
{
    if root_init {
        return Ok(ReportLocation::Init);
    }
    if root_merge {
        return Ok(ReportLocation::Merge);
    }
    match least_feature(features, true) {
        Some(n) => {
            return Ok(ReportLocation::FeatureInit(n));
        },
        None => {},
    }
    match least_feature(features, false) {
        Some(n) => Ok(ReportLocation::FeatureMerge(n)),
        None => Err(ReportNotFound),
    }
}

impl ReportLocation {
    /// The path of the report, relative to the directory searched.
    pub open spec fn spec_relative_path(self) -> Seq<char> {
        match self {
            ReportLocation::Init => "meta/init-interface-report.md"@,
            ReportLocation::Merge => "meta/merge-interface-report.md"@,
            ReportLocation::FeatureInit(n) => ".c2rust/"@ + n@ + "/"@
                + "meta/init-interface-report.md"@,
            ReportLocation::FeatureMerge(n) => ".c2rust/"@ + n@ + "/"@
                + "meta/merge-interface-report.md"@,
        }
    }

    /// The path of the report, relative to the directory searched.
    pub fn relative_path(&self) -> (s: String)
        ensures
            s@ == self.spec_relative_path(),
    {
        let mut s = String::new();
        match self {
            ReportLocation::Init => push_str(&mut s, INIT_REPORT_PATH),
            ReportLocation::Merge => push_str(&mut s, MERGE_REPORT_PATH),
            ReportLocation::FeatureInit(n) => {
                push_str(&mut s, ".c2rust/");
                push_str(&mut s, n.as_str());
                push_str(&mut s, "/");
                push_str(&mut s, INIT_REPORT_PATH);
            },
            ReportLocation::FeatureMerge(n) => {
                push_str(&mut s, ".c2rust/");
                push_str(&mut s, n.as_str());
                push_str(&mut s, "/");
                push_str(&mut s, MERGE_REPORT_PATH);
            },
        }
        proof {
            assert(s@ =~= self.spec_relative_path());
        }
        s
    }

    /// The report lies in a feature directory, whose path is given joined
    /// onto the directory searched; the reports under `meta/` are given as
    /// relative paths.
    pub fn in_feature_dir(&self) -> (b: bool)
        ensures
            b == (self is FeatureInit || self is FeatureMerge),
    {
        match self {
            ReportLocation::FeatureInit(_) | ReportLocation::FeatureMerge(_) => true,
            _ => false,
        }
    }
}

} // verus!
