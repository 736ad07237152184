//! Behaviour of the config-backup planner and renderer.

use orb::backup_configs::path_join;
use orb::backup_configs::render_markdown;
use orb::backup_configs::run;
use orb::errors::ErrorWithContext;

#[test]
fn markdown_wraps_content_verbatim() {
    assert_eq!(render_markdown("X"), "```bash\nX\n```");
    assert_eq!(render_markdown(""), "```bash\n\n```");
    assert_eq!(
        render_markdown("[user]\n  name = someone"),
        "```bash\n[user]\n  name = someone\n```"
    );
}

#[test]
fn backup_plan_names_the_exact_paths() {
    let plan = run(&Some("/home/u".to_string()), &Some("/notes".to_string())).unwrap();
    assert_eq!(plan.gitconfig.source, "/home/u/.gitconfig");
    assert_eq!(plan.gitconfig.destination, "/notes/gitconfig.md");
    assert_eq!(plan.zshrc.source, "/home/u/.zshrc");
    assert_eq!(plan.zshrc.destination, "/notes/zshrc.md");
}

#[test]
fn missing_home_fails_naming_the_variable() {
    let e = run(&None, &Some("/notes".to_string())).unwrap_err();
    assert_eq!(e.user_message, "HOME environment variable not set");
    assert!(e.technical_details.is_none());
}

#[test]
fn missing_destination_folder_fails_first() {
    let e = run(&None, &None).unwrap_err();
    assert_eq!(e.user_message, "OBSIDIAN_CONFIG_FOLDER environment variable not set");
}

#[test]
fn paths_join_with_one_separator() {
    assert_eq!(path_join("/home/u", ".zshrc"), "/home/u/.zshrc");
    assert_eq!(path_join("", "f"), "/f");
}

#[test]
fn error_keeps_both_parts() {
    let e = ErrorWithContext::new("oops".to_string(), Some("detail".to_string()));
    assert_eq!(e.user_message, "oops");
    assert_eq!(e.technical_details, Some("detail".to_string()));
    let e2 = ErrorWithContext::new("plain".to_string(), None);
    assert!(e2.technical_details.is_none());
}
