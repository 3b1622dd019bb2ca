//! Resolution of the interpreter to invoke, with a strict precedence chain:
//! explicit override, bundled runtime next to the application binary, then
//! the system interpreter on the OS search path.
//!
//! The environment read, the lookup of the running binary's directory and
//! the on-disk existence probes happen in the surrounding application; their
//! outcomes come in here as plain values, and every decision made from them
//! is verified.

use vstd::prelude::*;
use vstd::seq_lib::*;
use vstd::string::StringExecFns;
use crate::views::opt_str_view;
use crate::views::result_str_view;

verus! {

/// What the application found out about the directory holding the running
/// binary: the directory itself, no parent directory, or the executable
/// path could not be read (with the OS error description).
pub enum ExeDirStatus {
    Found(String),
    NoParent,
    Unreadable(String),
}

/// Mathematical image of [`ExeDirStatus`].
pub enum ExeDirView {
    Found(Seq<char>),
    NoParent,
    Unreadable(Seq<char>),
}

impl View for ExeDirStatus {
    type V = ExeDirView;

    open spec fn view(&self) -> ExeDirView {
        match self {
            ExeDirStatus::Found(d) => ExeDirView::Found(d@),
            ExeDirStatus::NoParent => ExeDirView::NoParent,
            ExeDirStatus::Unreadable(m) => ExeDirView::Unreadable(m@),
        }
    }
}

/// The bare command name used when no override is set and no bundled
/// candidate exists: the OS search path resolves it at spawn time.
pub open spec fn spec_fallback_interpreter(windows: bool) -> Seq<char> {
    if windows {
        "python.exe"@
    } else {
        "python3"@
    }
}

/// The fixed, ordered candidate locations of a bundled interpreter below
/// the application directory; the order decides which match wins.
pub open spec fn spec_candidates(exe_dir: Seq<char>, windows: bool) -> Seq<Seq<char>> {
    if windows {
        seq![exe_dir + "/python/python.exe"@, exe_dir + "/resources/python/python.exe"@]
    } else {
        seq![
            exe_dir + "/python/bin/python3"@,
            exe_dir + "/python/bin/python"@,
            exe_dir + "/resources/python/bin/python3"@,
        ]
    }
}

/// How many bundled candidates are probed on each platform.
pub open spec fn spec_candidate_count(windows: bool) -> int {
    if windows {
        2
    } else {
        3
    }
}

/// The first candidate marked as existing, in list order; `None` when none
/// exists (or the lists are empty).
pub open spec fn spec_first_existing(cands: Seq<Seq<char>>, exists: Seq<bool>) -> Option<Seq<char>>
    decreases cands.len(),
{
    if cands.len() == 0 || exists.len() == 0 {
        None
    } else if exists[0] {
        Some(cands[0])
    } else {
        spec_first_existing(cands.drop_first(), exists.drop_first())
    }
}

/// The message reported when the application binary's directory has no
/// parent to look beside.
pub open spec fn spec_no_parent_message() -> Seq<char> {
    "Failed to determine executable directory"@
}

/// The whole resolution decision: override verbatim if set; otherwise a
/// failure if the application directory is unknown; otherwise the first
/// existing bundled candidate, or the system fallback when none exists.
pub open spec fn spec_locate(
    override_path: Option<Seq<char>>,
    exe_dir: ExeDirView,
    exists: Seq<bool>,
    windows: bool,
) -> Result<Seq<char>, Seq<char>> {
    match override_path {
        Some(v) => Ok(v),
        None => match exe_dir {
            ExeDirView::Unreadable(m) => Err(m),
            ExeDirView::NoParent => Err(spec_no_parent_message()),
            ExeDirView::Found(d) => match spec_first_existing(spec_candidates(d, windows), exists) {
                Some(c) => Ok(c),
                None => Ok(spec_fallback_interpreter(windows)),
            },
        },
    }
}

/// Builds the fixed candidate list for a given application directory.
pub fn bundled_python_candidates(exe_dir: &str, windows: bool) -> (cands: Vec<String>)
    ensures
        cands@.map_values(|c: String| c@) == spec_candidates(exe_dir@, windows),
{
    let mut cands: Vec<String> = Vec::new();
    if windows {
        let mut a = String::from_str(exe_dir);
        a.append("/python/python.exe");
        cands.push(a);
        let mut b = String::from_str(exe_dir);
        b.append("/resources/python/python.exe");
        cands.push(b);
    } else {
        let mut a = String::from_str(exe_dir);
        a.append("/python/bin/python3");
        cands.push(a);
        let mut b = String::from_str(exe_dir);
        b.append("/python/bin/python");
        cands.push(b);
        let mut c = String::from_str(exe_dir);
        c.append("/resources/python/bin/python3");
        cands.push(c);
    }
    proof {
        assert(cands@.map_values(|c: String| c@) =~= spec_candidates(exe_dir@, windows));
    }
    cands
}

/// Returns the first candidate whose existence bit is set, in list order:
/// the first match wins, with no further heuristic.
pub fn discover_bundled_python(candidates: &Vec<String>, exists: &Vec<bool>) -> (r: Option<String>)
    requires
        exists@.len() == candidates@.len(),
    ensures
        opt_str_view(r) == spec_first_existing(
            candidates@.map_values(|c: String| c@),
            exists@,
        ),
{
    let ghost cviews = candidates@.map_values(|c: String| c@);
    proof {
        assert(cviews.skip(0) =~= cviews);
        assert(exists@.skip(0) =~= exists@);
    }
    let mut i: usize = 0;
    while i < candidates.len()
        invariant
            i <= candidates@.len(),
            exists@.len() == candidates@.len(),
            cviews == candidates@.map_values(|c: String| c@),
            spec_first_existing(cviews, exists@) == spec_first_existing(
                cviews.skip(i as int),
                exists@.skip(i as int),
            ),
        decreases candidates@.len() - i,
    {
        proof {
            assert(cviews.skip(i as int)[0] == cviews[i as int]);
            assert(exists@.skip(i as int)[0] == exists@[i as int]);
        }
        if exists[i] {
            let found = candidates[i].clone();
            return Some(found);
        }
        proof {
            assert(cviews.skip(i as int).drop_first() =~= cviews.skip(i as int + 1));
            assert(exists@.skip(i as int).drop_first() =~= exists@.skip(i as int + 1));
        }
        i = i + 1;
    }
    proof {
        assert(cviews.skip(i as int).len() == 0);
    }
    None
}

/// Resolves the interpreter to invoke from the override variable's value,
/// the application-directory lookup and the candidate existence probes, as
/// [`spec_locate`] decides it.
pub fn locate_python_path(
    override_path: Option<String>,
    exe_dir: &ExeDirStatus,
    exists: &Vec<bool>,
    windows: bool,
) -> (r: Result<String, String>)
    requires
        (override_path is None && exe_dir is Found) ==> exists@.len() == spec_candidate_count(
            windows,
        ),
    ensures
        result_str_view(r) == spec_locate(opt_str_view(override_path), exe_dir@, exists@, windows),
{
    match override_path {
        Some(v) => Ok(v),
        None => match exe_dir {
            ExeDirStatus::Unreadable(m) => Err(m.clone()),
            ExeDirStatus::NoParent => Err(
                String::from_str("Failed to determine executable directory"),
            ),
            ExeDirStatus::Found(d) => {
                let cands = bundled_python_candidates(d.as_str(), windows);
                match discover_bundled_python(&cands, exists) {
                    Some(c) => Ok(c),
                    None => {
                        if windows {
                            Ok(String::from_str("python.exe"))
                        } else {
                            Ok(String::from_str("python3"))
                        }
                    },
                }
            },
        },
    }
}

/// A set override wins outright: the resolver's answer is the override's
/// exact value, and it does not depend in any way on which bundled
/// candidates exist on disk.
pub proof fn lemma_override_wins(
    v: Seq<char>,
    exe_dir: ExeDirView,
    exists_a: Seq<bool>,
    exists_b: Seq<bool>,
    windows: bool,
)
    ensures
        spec_locate(Some(v), exe_dir, exists_a, windows) == Ok::<Seq<char>, Seq<char>>(v),
        spec_locate(Some(v), exe_dir, exists_a, windows) == spec_locate(
            Some(v),
            exe_dir,
            exists_b,
            windows,
        ),
{
}

/// With no override and no bundled candidate on disk, the resolver falls
/// back to the platform's bare system command name.
pub proof fn lemma_system_fallback(d: Seq<char>, exists: Seq<bool>, windows: bool)
    requires
        forall|k: int| 0 <= k < exists.len() ==> !exists[k],
    ensures
        spec_locate(None, ExeDirView::Found(d), exists, windows) == Ok::<Seq<char>, Seq<char>>(
            spec_fallback_interpreter(windows),
        ),
{
    lemma_first_existing_none(spec_candidates(d, windows), exists);
}

proof fn lemma_first_existing_none(cands: Seq<Seq<char>>, exists: Seq<bool>)
    requires
        forall|k: int| 0 <= k < exists.len() ==> !exists[k],
    ensures
        spec_first_existing(cands, exists) is None,
    decreases cands.len(),
{
    if cands.len() != 0 && exists.len() != 0 {
        assert(!exists[0]);
        assert(forall|k: int|
            0 <= k < exists.drop_first().len() ==> !#[trigger] exists.drop_first()[k]);
        lemma_first_existing_none(cands.drop_first(), exists.drop_first());
    }
}

/// Probing order is respected: the first candidate in the fixed list whose
/// existence bit is set is the one resolved, whatever exists further down.
pub proof fn lemma_first_candidate_wins(d: Seq<char>, exists: Seq<bool>, windows: bool, i: int)
    requires
        exists.len() == spec_candidate_count(windows),
        0 <= i < exists.len(),
        exists[i],
        forall|k: int| 0 <= k < i ==> !exists[k],
    ensures
        spec_locate(None, ExeDirView::Found(d), exists, windows) == Ok::<Seq<char>, Seq<char>>(
            spec_candidates(d, windows)[i],
        ),
{
    lemma_first_existing_at(spec_candidates(d, windows), exists, i);
}

proof fn lemma_first_existing_at(cands: Seq<Seq<char>>, exists: Seq<bool>, i: int)
    requires
        exists.len() == cands.len(),
        0 <= i < exists.len(),
        exists[i],
        forall|k: int| 0 <= k < i ==> !exists[k],
    ensures
        spec_first_existing(cands, exists) == Some(cands[i]),
    decreases i,
{
    if i == 0 {
    } else {
        assert(!exists[0]);
        assert(forall|k: int|
            0 <= k < i - 1 ==> !#[trigger] exists.drop_first()[k]);
        lemma_first_existing_at(cands.drop_first(), exists.drop_first(), i - 1);
    }
}

} // verus!
