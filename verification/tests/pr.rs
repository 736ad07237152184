//! Behaviour of the pull-request helper.

use orb::bitwarden_pr::classify_remote;
use orb::bitwarden_pr::construct_pull_request_url;
use orb::bitwarden_pr::create_pr_description;
use orb::bitwarden_pr::find_first;
use orb::bitwarden_pr::get_ticket_from_branch;
use orb::bitwarden_pr::prepare_pull_request;
use orb::bitwarden_pr::replace_all;

const HEADER: &str = "## 🎟️ Tracking\n\n<!-- Paste the link to the Jira or GitHub issue or otherwise describe / point to where this change is coming from. -->";

#[test]
fn ticket_is_extracted_from_branch() {
    assert_eq!(
        get_ticket_from_branch("feature/AB-1234/add-thing"),
        Some("AB-1234".to_string())
    );
    assert_eq!(get_ticket_from_branch("main"), None);
    assert_eq!(get_ticket_from_branch("feature/ab-1/x"), Some("AB-1".to_string()));
    assert_eq!(get_ticket_from_branch("x/pm-99999/y"), Some("PM-99999".to_string()));
    // six digits do not match the pattern
    assert_eq!(get_ticket_from_branch("x/ab-123456/y"), None);
    // the ticket must be delimited by slashes on both sides
    assert_eq!(get_ticket_from_branch("AB-1234"), None);
    assert_eq!(get_ticket_from_branch("feature/AB-1234"), None);
    // the leftmost match wins
    assert_eq!(get_ticket_from_branch("a/xy-1/b/zw-2/c"), Some("XY-1".to_string()));
}

#[test]
fn remote_url_picks_the_repository() {
    assert_eq!(
        classify_remote("git@github.com:bitwarden/clients.git"),
        Some("https://github.com/bitwarden/clients".to_string())
    );
    assert_eq!(
        classify_remote("https://github.com/bitwarden/server.git"),
        Some("https://github.com/bitwarden/server".to_string())
    );
    assert_eq!(
        classify_remote("git@github.com:bitwarden/sdk-internal.git"),
        Some("https://github.com/bitwarden/sdk-internal".to_string())
    );
    assert_eq!(classify_remote("git@github.com:someone/else.git"), None);
}

#[test]
fn substring_search_finds_the_leftmost_occurrence() {
    assert_eq!(find_first("abcabc", "bc"), Some(1));
    assert_eq!(find_first("abc", "x"), None);
    assert_eq!(find_first("abc", ""), Some(0));
    assert_eq!(find_first("short", "longer than the text"), None);
}

#[test]
fn description_links_the_ticket_under_the_header() {
    let template = format!("Intro\n\n{}\n\nRest", HEADER);
    let filled = create_pr_description(&template, "AB-12");
    assert_eq!(
        filled,
        "Intro\n\n## 🎟️ Tracking\n\n[AB-12](https://bitwarden.atlassian.net/browse/AB-12)\n\nRest"
    );
    // a template without the tracking header stays unchanged
    assert_eq!(create_pr_description("no header here", "AB-12"), "no header here");
}

#[test]
fn replace_all_touches_every_occurrence() {
    assert_eq!(replace_all("aXbXc", "X", "-"), "a-b-c");
    assert_eq!(replace_all("abc", "z", "-"), "abc");
    // occurrences do not overlap, as in str::replace
    assert_eq!(replace_all("aaa", "aa", "b"), "ba");
    assert_eq!(replace_all("X", "X", "longer"), "longer");
}

#[test]
fn repeated_header_is_replaced_everywhere() {
    let template = format!("{}\nmid\n{}", HEADER, HEADER);
    let link = "## 🎟️ Tracking\n\n[AB-12](https://bitwarden.atlassian.net/browse/AB-12)";
    assert_eq!(
        create_pr_description(&template, "AB-12"),
        format!("{}\nmid\n{}", link, link)
    );
}

#[test]
fn comparison_url_is_percent_encoded() {
    let url = construct_pull_request_url(
        "https://github.com/bitwarden/clients",
        "feature/AB-1/x",
        "[AB-1]",
        "body text",
    )
    .unwrap();
    assert_eq!(
        url,
        "https://github.com/bitwarden/clients/compare/main...feature/AB-1/x?quick_pull=1&title=%5BAB-1%5D&body=body+text"
    );
}

#[test]
fn unparsable_address_is_reported() {
    let e = construct_pull_request_url("not a url", "b", "t", "d").unwrap_err();
    assert_eq!(e.user_message, "Invalid GitHub URL: not a url/compare/main...b");
    assert!(e.technical_details.is_some());
}

#[test]
fn whole_pull_request_is_prepared() {
    let template = format!("{}\n\nMore sections", HEADER);
    let pr = prepare_pull_request(
        "git@github.com:bitwarden/server.git",
        "feature/AB-1234/add-thing",
        &template,
    )
    .unwrap();
    assert_eq!(pr.repo_url, "https://github.com/bitwarden/server");
    assert_eq!(pr.branch, "feature/AB-1234/add-thing");
    assert_eq!(pr.ticket, "AB-1234");
    assert_eq!(pr.title, "[AB-1234]");
    assert_eq!(
        pr.description,
        "## 🎟️ Tracking\n\n[AB-1234](https://bitwarden.atlassian.net/browse/AB-1234)\n\nMore sections"
    );
    assert!(pr.url.starts_with(
        "https://github.com/bitwarden/server/compare/main...feature/AB-1234/add-thing?quick_pull=1&title=%5BAB-1234%5D&body="
    ));
}

#[test]
fn unrecognized_remote_is_reported() {
    let e = prepare_pull_request("git@github.com:other/repo.git", "feature/AB-1/x", "t")
        .unwrap_err();
    assert_eq!(e.user_message, "Not a recognized Bitwarden repository");
}

#[test]
fn branch_without_ticket_is_reported() {
    let e = prepare_pull_request("git@github.com:bitwarden/clients.git", "main", "t").unwrap_err();
    assert_eq!(e.user_message, "No ticket found in branch name: main");
}
