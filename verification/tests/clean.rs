//! Behaviour of the directory-cleaning planner.

use orb::clean::plan_directory;
use orb::clean::run;
use orb::clean::CleanArgs;
use orb::clean::DirEntry;

fn file(path: &str) -> DirEntry {
    DirEntry { path: path.to_string(), is_dir: false }
}

fn folder(path: &str) -> DirEntry {
    DirEntry { path: path.to_string(), is_dir: true }
}

#[test]
fn files_are_deleted_and_folders_skipped() {
    let listing = vec![file("/desk/a.txt"), folder("/desk/sub")];
    let args = CleanArgs { desktop: true, downloads: false };
    let report = run(&args, &Some(listing), &None).unwrap();
    let plan = report.desktop.unwrap();
    assert_eq!(plan.delete, vec!["/desk/a.txt".to_string()]);
    assert_eq!(plan.skip, vec!["/desk/sub".to_string()]);
    assert!(report.downloads.is_none());
}

#[test]
fn plan_keeps_listing_order() {
    let listing = vec![file("a"), folder("b"), file("c"), folder("d"), file("e")];
    let plan = plan_directory(&listing);
    assert_eq!(plan.delete, vec!["a".to_string(), "c".to_string(), "e".to_string()]);
    assert_eq!(plan.skip, vec!["b".to_string(), "d".to_string()]);
}

#[test]
fn requesting_no_directory_is_a_usage_error() {
    let args = CleanArgs { desktop: false, downloads: false };
    let e = run(&args, &None, &None).unwrap_err();
    assert_eq!(e.user_message, "No directory selected to clean");
    assert!(e.technical_details.is_none());
}

#[test]
fn unresolved_desktop_directory_is_fatal() {
    let args = CleanArgs { desktop: true, downloads: true };
    let e = run(&args, &None, &Some(vec![])).unwrap_err();
    assert_eq!(e.user_message, "Unable to find desktop directory");
}

#[test]
fn unresolved_downloads_directory_is_fatal() {
    let args = CleanArgs { desktop: false, downloads: true };
    let e = run(&args, &Some(vec![]), &None).unwrap_err();
    assert_eq!(e.user_message, "Unable to find downloads directory");
}

#[test]
fn both_directories_can_be_planned_at_once() {
    let args = CleanArgs { desktop: true, downloads: true };
    let report = run(&args, &Some(vec![file("x")]), &Some(vec![folder("y")])).unwrap();
    assert_eq!(report.desktop.unwrap().delete, vec!["x".to_string()]);
    assert_eq!(report.downloads.unwrap().skip, vec!["y".to_string()]);
}
