//! Cleaning the two well-known directories (desktop and downloads):
//! every regular file in a requested directory is deleted, every
//! subfolder is skipped with a notice.
//!
//! The logic here decides; the shell around the library resolves the
//! standard directories, lists them, performs the deletions and prints
//! the skip notices.

use vstd::prelude::*;

use crate::errors::ErrorWithContext;

verus! {

/// Which directories a clean invocation asks for.  At least one must
/// be requested.
#[derive(Debug)]
pub struct CleanArgs {
    pub desktop: bool,
    pub downloads: bool,
}

/// One entry of a directory listing, as the shell hands it in.
#[derive(Debug)]
pub struct DirEntry {
    pub path: String,
    pub is_dir: bool,
}

/// The paths of the entries whose `is_dir` flag equals `dir`, in
/// listing order.
pub open spec fn paths_with_kind(entries: Seq<DirEntry>, dir: bool) -> Seq<Seq<char>>
    decreases entries.len(),
{
    if entries.len() == 0 {
        seq![]
    } else {
        let rest = paths_with_kind(entries.drop_last(), dir);
        if entries.last().is_dir == dir {
            rest.push(entries.last().path@)
        } else {
            rest
        }
    }
}

/// The work to do in one directory: the files to delete and the
/// subfolders to skip, each in listing order.
#[derive(Debug)]
pub struct CleanPlan {
    pub delete: Vec<String>,
    pub skip: Vec<String>,
}

/// A plan holds exactly the listing's files to delete and its
/// subfolders to skip.
pub open spec fn plan_matches(plan: CleanPlan, entries: Seq<DirEntry>) -> bool {
    &&& plan.delete@.map_values(|p: String| p@) == paths_with_kind(entries, false)
    &&& plan.skip@.map_values(|p: String| p@) == paths_with_kind(entries, true)
}

/// Splits a directory listing into the files to delete and the
/// subfolders to skip.
pub fn plan_directory(entries: &Vec<DirEntry>) -> (plan: CleanPlan)
    ensures
        plan_matches(plan, entries@),
{
    let mut delete: Vec<String> = Vec::new();
    let mut skip: Vec<String> = Vec::new();
    assert(delete@.map_values(|p: String| p@) =~= paths_with_kind(entries@.take(0), false));
    assert(skip@.map_values(|p: String| p@) =~= paths_with_kind(entries@.take(0), true));
    let mut i: usize = 0;
    while i < entries.len()
        invariant
            i <= entries.len(),
            delete@.map_values(|p: String| p@) == paths_with_kind(entries@.take(i as int), false),
            skip@.map_values(|p: String| p@) == paths_with_kind(entries@.take(i as int), true),
        decreases entries.len() - i,
    {
        proof {
            assert(entries@.take(i + 1).drop_last() =~= entries@.take(i as int));
            assert(entries@.take(i + 1).last() == entries@[i as int]);
        }
        if entries[i].is_dir {
            let ghost old_skip = skip@;
            skip.push(entries[i].path.clone());
            assert(skip@.map_values(|p: String| p@) =~= old_skip.map_values(|p: String| p@).push(
                entries@[i as int].path@,
            ));
        } else {
            let ghost old_delete = delete@;
            delete.push(entries[i].path.clone());
            assert(delete@.map_values(|p: String| p@) =~= old_delete.map_values(
                |p: String| p@,
            ).push(entries@[i as int].path@));
        }
        i = i + 1;
    }
    proof {
        assert(entries@.take(entries@.len() as int) =~= entries@);
    }
    CleanPlan { delete, skip }
}

/// The user message of the failure that a clean invocation reports
/// before touching anything, if any: requesting no directory is a
/// usage error, and a requested directory that could not be resolved
/// (desktop first) is fatal.
pub open spec fn clean_failure(args: CleanArgs, has_desktop: bool, has_downloads: bool) -> Option<
    Seq<char>,
> {
    if !args.desktop && !args.downloads {
        Some("No directory selected to clean"@)
    } else if args.desktop && !has_desktop {
        Some("Unable to find desktop directory"@)
    } else if args.downloads && !has_downloads {
        Some("Unable to find downloads directory"@)
    } else {
        None
    }
}

/// The outcome of a clean invocation: a plan for each requested
/// directory.
#[derive(Debug)]
pub struct CleanReport {
    pub desktop: Option<CleanPlan>,
    pub downloads: Option<CleanPlan>,
}

/// Plans a clean invocation.  `desktop` and `downloads` are the
/// listings of the two standard directories, or `None` where the
/// directory could not be resolved; an unrequested directory's listing
/// is ignored.  Fails exactly when no directory is requested or a
/// requested one is unresolved, without planning any deletion.
pub fn run(args: &CleanArgs, desktop: &Option<Vec<DirEntry>>, downloads: &Option<Vec<DirEntry>>) -> (r:
    Result<CleanReport, ErrorWithContext>)
    ensures
        r is Err <==> clean_failure(*args, desktop is Some, downloads is Some) is Some,
        (match r {
            Err(e) => {
                &&& e.user_message@ == clean_failure(
                    *args,
                    desktop is Some,
                    downloads is Some,
                ).unwrap()
                &&& e.technical_details is None
            },
            Ok(rep) => {
                &&& (rep.desktop is Some <==> args.desktop)
                &&& (rep.downloads is Some <==> args.downloads)
                &&& (args.desktop ==> plan_matches(rep.desktop.unwrap(), desktop.unwrap()@))
                &&& (args.downloads ==> plan_matches(rep.downloads.unwrap(), downloads.unwrap()@))
            },
        }),
{
    if !args.desktop && !args.downloads {
        return Err(
            ErrorWithContext::new(String::from_str("No directory selected to clean"), None),
        );
    }
    let desktop_plan: Option<CleanPlan> = if args.desktop {
        match desktop {
            None => {
                return Err(
                    ErrorWithContext::new(
                        String::from_str("Unable to find desktop directory"),
                        None,
                    ),
                );
            },
            Some(entries) => Some(plan_directory(entries)),
        }
    } else {
        None
    };
    let downloads_plan: Option<CleanPlan> = if args.downloads {
        match downloads {
            None => {
                return Err(
                    ErrorWithContext::new(
                        String::from_str("Unable to find downloads directory"),
                        None,
                    ),
                );
            },
            Some(entries) => Some(plan_directory(entries)),
        }
    } else {
        None
    };
    Ok(CleanReport { desktop: desktop_plan, downloads: downloads_plan })
}

/// A directory holding exactly one regular file and one subfolder is
/// planned as: delete that file, skip that subfolder, nothing else.
pub proof fn lemma_one_file_one_folder(plan: CleanPlan, file: DirEntry, folder: DirEntry)
    requires
        !file.is_dir,
        folder.is_dir,
        plan_matches(plan, seq![file, folder]),
    ensures
        plan.delete@.map_values(|p: String| p@) == seq![file.path@],
        plan.skip@.map_values(|p: String| p@) == seq![folder.path@],
{
    let entries = seq![file, folder];
    assert(entries.drop_last() =~= seq![file]);
    assert(seq![file].drop_last() =~= Seq::<DirEntry>::empty());
    assert(paths_with_kind(Seq::<DirEntry>::empty(), false) =~= Seq::<Seq<char>>::empty());
    assert(paths_with_kind(Seq::<DirEntry>::empty(), true) =~= Seq::<Seq<char>>::empty());
    assert(paths_with_kind(seq![file], false) =~= seq![file.path@]);
    assert(paths_with_kind(seq![file], true) =~= Seq::<Seq<char>>::empty());
    assert(paths_with_kind(entries, false) =~= seq![file.path@]);
    assert(paths_with_kind(entries, true) =~= seq![folder.path@]);
}

} // verus!
