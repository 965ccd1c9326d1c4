use skills_tui::icons::{branch, git, github, local, package, short_rev, source, source_icon};
use skills_tui::model::{Icons, Source};

#[test]
fn github_icons_require_the_actual_host() {
    for url in [
        "https://github.com/example/tools",
        "git@github.com:example/tools.git",
        "ssh://git@github.com:22/example/tools",
    ] {
        assert_eq!(git(Icons::Nerd, url), "󰊤");
        assert_eq!(git(Icons::Text, url), "github");
    }
    for url in [
        "https://github.com.example.org/tools",
        "https://example.org/github.com/tools",
        "https://github.com@example.org/tools",
        "/tmp/github.com/tools",
        "git@example.org:tools",
    ] {
        assert_eq!(git(Icons::Nerd, url), "󰊢");
        assert_eq!(git(Icons::Text, url), "git");
    }
}

#[test]
fn hosts_are_compared_without_case() {
    assert!(github("https://GitHub.COM/example/tools"));
    assert!(!github("https://gitlab.com/example/tools"));
    assert!(!github(""));
}

#[test]
fn sources_are_told_in_one_line() {
    let repository = Source::Git {
        url: "https://github.com/example/tools".to_string(),
        subpath: Some("skills/calendar".to_string()),
        branch: Some("main".to_string()),
        revision: Some("0123456789abcdef".to_string()),
    };
    assert_eq!(
        source(Icons::Text, &repository),
        "github https://github.com/example/tools · skills/calendar · branch main (0123456)"
    );
    let archive = Source::Archive { url: "https://example.org/tools.zip".to_string() };
    assert_eq!(source(Icons::Text, &archive), "installed https://example.org/tools.zip");
    let here = Source::Local { path: Some("/tmp/tools".to_string()) };
    assert_eq!(source(Icons::Text, &here), "local /tmp/tools");
    assert_eq!(source(Icons::Nerd, &Source::Local { path: None }), "󰉋 local");
    assert_eq!(source_icon(Icons::Text, &repository), "github");
    assert_eq!(source_icon(Icons::Text, &archive), "installed");
    assert_eq!(short_rev("abc"), "abc");
    assert_eq!(branch(Icons::Text), "branch");
    assert_eq!(package(Icons::Nerd), "󰏗");
    assert_eq!(local(Icons::Text), "local");
}
