use codex_models::build_info::first_remote;
use codex_models::build_info::format_version;
use codex_models::build_info::git_dir_of;
use codex_models::build_info::git_output;
use codex_models::build_info::head_reference;
use codex_models::build_info::normalize_slug;
use codex_models::build_info::parse_repo_slug;
use codex_models::build_info::resolve_repo_slug;

#[test]
fn version_names_what_is_known() {
    assert_eq!(format_version(Some("o/r"), Some("v1-2-gabc")), "o/r v1-2-gabc");
    assert_eq!(format_version(Some("o/r"), None), "o/r");
    assert_eq!(format_version(None, Some("v1")), "v1");
    assert_eq!(format_version(None, None), "unknown");
}

#[test]
fn slug_is_read_from_github_remotes() {
    let slug = Some("openai/codex".to_string());
    assert_eq!(parse_repo_slug("https://github.com/openai/codex.git\n"), slug);
    assert_eq!(parse_repo_slug("https://github.com/openai/codex/"), slug);
    assert_eq!(parse_repo_slug("git@github.com:openai/codex.git"), slug);
    assert_eq!(parse_repo_slug("ssh://git@github.com//openai//codex/tree"), slug);
    assert_eq!(parse_repo_slug("https://gitlab.com/openai/codex"), None);
    assert_eq!(parse_repo_slug("https://github.com/openai"), None);
    assert_eq!(normalize_slug("/openai/codex.git.git"), slug);
    assert_eq!(normalize_slug(""), None);
}

#[test]
fn origin_goes_before_the_first_remote() {
    let origin = "git@github.com:a/b.git";
    let other = "git@github.com:c/d.git";
    assert_eq!(resolve_repo_slug(Some(origin), Some(other)), Some("a/b".to_string()));
    assert_eq!(resolve_repo_slug(Some("elsewhere"), Some(other)), Some("c/d".to_string()));
    assert_eq!(resolve_repo_slug(None, Some(other)), Some("c/d".to_string()));
    assert_eq!(resolve_repo_slug(None, None), None);
}

#[test]
fn git_files_and_output_are_read() {
    assert_eq!(git_output("  v1\n"), Some("v1".to_string()));
    assert_eq!(git_output(" \n"), None);
    assert_eq!(first_remote("upstream\r\norigin"), Some("upstream".to_string()));
    assert_eq!(first_remote(""), None);
    assert_eq!(git_dir_of("gitdir: ../.git/worktrees/x\n"), Some("../.git/worktrees/x".to_string()));
    assert_eq!(git_dir_of("something"), None);
    assert_eq!(head_reference("ref: refs/heads/main\n"), Some("refs/heads/main".to_string()));
    assert_eq!(head_reference("0123abc"), None);
}
