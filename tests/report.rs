use branches::{
    collect_repo, compute_layout, display_name, name_le, render, sort_branches,
    try_compute_layout, Branch, Config, RawBranch, RenderOptions, RepoReport, ReportError,
    RepositoryState, Segment, Tone, STATE_LABEL_WIDTH,
};

fn br(name: &str, is_head: bool) -> Branch {
    Branch::new(name.to_string(), is_head)
}

fn raw(name: &str, is_head: bool) -> RawBranch {
    RawBranch { name: Some(name.to_string()), is_head }
}

fn names(v: &[Branch]) -> Vec<String> {
    v.iter().map(|b| b.name.clone()).collect()
}

fn repo(name: &str, branches: Vec<Branch>, state: RepositoryState) -> RepoReport {
    RepoReport { name: name.to_string(), branches, state }
}

fn text(segs: &[Segment]) -> String {
    segs.iter().map(|s| s.text.as_str()).collect()
}

fn plain() -> RenderOptions {
    RenderOptions { hide_master_stable: false, show_state: false }
}

#[test]
fn sort_puts_head_first_then_names_in_order() {
    let v = vec![br("zeta", false), br("alpha", false), br("main", true), br("beta", false)];
    let s = sort_branches(v);
    assert_eq!(names(&s), vec!["main", "alpha", "beta", "zeta"]);
    assert!(s[0].is_head);
    assert!(s[1..].iter().all(|b| !b.is_head));
}

#[test]
fn sort_without_head_is_lexicographic_and_case_sensitive() {
    let v = vec![br("b", false), br("B", false), br("a", false), br("ab", false), br("A", false)];
    let s = sort_branches(v);
    assert_eq!(names(&s), vec!["A", "B", "a", "ab", "b"]);
}

#[test]
fn sort_of_empty_list_is_empty() {
    assert!(sort_branches(Vec::new()).is_empty());
}

#[test]
fn name_order_by_code_point() {
    assert!(name_le("abc", "abd"));
    assert!(!name_le("abd", "abc"));
    assert!(name_le("ab", "abc"));
    assert!(!name_le("abc", "ab"));
    assert!(name_le("", ""));
    assert!(name_le("Z", "a"));
    assert!(name_le("same", "same"));
}

#[test]
fn display_name_takes_final_segment() {
    assert_eq!(display_name("/home/user/src/app"), Some("app".to_string()));
    assert_eq!(display_name("/home/user/src/app///"), Some("app".to_string()));
    assert_eq!(display_name("app"), Some("app".to_string()));
    assert_eq!(display_name("/"), None);
    assert_eq!(display_name(""), None);
    assert_eq!(display_name("/home/.."), None);
    assert_eq!(display_name("."), None);
    assert_eq!(display_name("/home/.hidden"), Some(".hidden".to_string()));
}

#[test]
fn collect_sorts_and_names() {
    let r = collect_repo(
        "/work/app",
        vec![raw("feature-x", false), raw("main", true)],
        RepositoryState::Clean,
    )
    .unwrap();
    assert_eq!(r.name, "app");
    assert_eq!(names(&r.branches), vec!["main", "feature-x"]);
    assert!(r.branches[0].is_head);
    assert_eq!(r.state, RepositoryState::Clean);
}

#[test]
fn collect_fails_on_branch_without_name() {
    let r = collect_repo(
        "/work/app",
        vec![raw("main", true), RawBranch { name: None, is_head: false }],
        RepositoryState::Clean,
    );
    assert_eq!(r.unwrap_err(), ReportError::BranchDecode);
}

#[test]
fn collect_fails_on_unusable_path() {
    let r = collect_repo("/", vec![raw("main", true)], RepositoryState::Clean);
    assert_eq!(r.unwrap_err(), ReportError::DisplayName);
}

#[test]
fn collect_reports_branch_error_before_path_error() {
    let r = collect_repo("/", vec![RawBranch { name: None, is_head: true }], RepositoryState::Merge);
    assert_eq!(r.unwrap_err(), ReportError::BranchDecode);
}

#[test]
fn collect_accepts_repository_without_branches() {
    let r = collect_repo("/work/fresh", Vec::new(), RepositoryState::Clean).unwrap();
    assert_eq!(r.name, "fresh");
    assert!(r.branches.is_empty());
}

#[test]
fn layout_takes_longest_names() {
    let reports = vec![
        repo("app", vec![br("main", true), br("feature-x", false)], RepositoryState::Clean),
        repo("library", vec![br("dev", true)], RepositoryState::Merge),
    ];
    let l = compute_layout(&reports);
    assert_eq!(l.max_repo_name_width, 7);
    assert_eq!(l.max_branch_name_width, 9);
    assert_eq!(l.max_state_label_width, 23);
    assert_eq!(l.divider_width, 7 + 5 + 9 + 1 + 23);
    for r in &reports {
        for b in &r.branches {
            assert!(b.name.chars().count() <= l.max_branch_name_width);
        }
    }
}

#[test]
fn layout_of_empty_set() {
    let l = compute_layout(&Vec::new());
    assert_eq!(l.max_repo_name_width, 0);
    assert_eq!(l.max_branch_name_width, 0);
    assert_eq!(l.divider_width, 29);
}

#[test]
fn layout_with_one_character_name_and_no_branch() {
    let l = compute_layout(&vec![repo("a", Vec::new(), RepositoryState::Clean)]);
    assert_eq!(l.divider_width, 1 + 5 + 0 + 1 + 23);
}

#[test]
fn layout_counts_characters_not_bytes() {
    let l = compute_layout(&vec![repo("café", vec![br("naïve", true)], RepositoryState::Clean)]);
    assert_eq!(l.max_repo_name_width, 4);
    assert_eq!(l.max_branch_name_width, 5);
}

#[test]
fn checked_layout_matches() {
    let reports = vec![repo("app", vec![br("main", true)], RepositoryState::Clean)];
    assert_eq!(try_compute_layout(&reports), Some(compute_layout(&reports)));
}

#[test]
fn state_labels() {
    let all = [
        (RepositoryState::Clean, "clean"),
        (RepositoryState::Merge, "merge"),
        (RepositoryState::Revert, "revert"),
        (RepositoryState::RevertSequence, "revert-sequence"),
        (RepositoryState::CherryPick, "cherry-pick"),
        (RepositoryState::CherryPickSequence, "cherry-pick-sequence"),
        (RepositoryState::Bisect, "bisect"),
        (RepositoryState::Rebase, "rebase"),
        (RepositoryState::RebaseInteractive, "rebase-interactive"),
        (RepositoryState::RebaseMerge, "rebase-merge"),
        (RepositoryState::ApplyMailbox, "apply-mailbox"),
        (RepositoryState::ApplyMailboxOrRebase, "apply-mailbox-or-rebase"),
    ];
    for (s, l) in all {
        assert_eq!(s.label(), l);
        assert!(l.len() <= STATE_LABEL_WIDTH);
    }
    assert_eq!(RepositoryState::ApplyMailboxOrRebase.label().len(), STATE_LABEL_WIDTH);
}

#[test]
fn error_messages_are_not_empty() {
    for e in [
        ReportError::Config,
        ReportError::RepositoryAccess,
        ReportError::BranchDecode,
        ReportError::DisplayName,
        ReportError::Output,
    ] {
        assert!(!e.message().is_empty());
    }
}

#[test]
fn config_keeps_paths_in_order() {
    let c = Config::new(vec!["/a".to_string(), "/b".to_string()]);
    assert_eq!(c.repos(), &["/a".to_string(), "/b".to_string()]);
}

#[test]
fn single_repository_head_first() {
    let r = collect_repo(
        "/work/app",
        vec![raw("feature-x", false), raw("main", true)],
        RepositoryState::Clean,
    )
    .unwrap();
    let reports = vec![r];
    let l = compute_layout(&reports);
    let out = render(&reports, &l, plain());
    assert_eq!(text(&out), "* app | main\n  app | feature-x\n");
    assert_eq!(out[0].tone, Tone::Reset);
    assert_eq!(out[1].tone, Tone::Head);
    assert_eq!(out[2].tone, Tone::Neutral);
    assert_eq!(out[2].text, "|");
    assert_eq!(out[3].tone, Tone::Head);
    assert_eq!(out[4].tone, Tone::Other);
    assert_eq!(out[6].tone, Tone::Other);
    assert_eq!(out.last().unwrap().tone, Tone::Reset);
    assert_eq!(out.last().unwrap().text, "");
}

#[test]
fn suppression_spares_head_branch() {
    let opts = RenderOptions { hide_master_stable: true, show_state: false };
    let reports = vec![repo(
        "app",
        vec![br("main", true), br("feature-x", false), br("master", false), br("stable", false)],
        RepositoryState::Clean,
    )];
    let l = compute_layout(&reports);
    assert_eq!(text(&render(&reports, &l, opts)), "* app | main\n  app | feature-x\n");
    let reports = vec![repo("app", vec![br("master", true), br("stable", false)], RepositoryState::Clean)];
    assert_eq!(text(&render(&reports, &l, opts)), "* app | master\n");
    assert_eq!(
        text(&render(&reports, &l, plain())),
        "* app | master\n  app | stable\n"
    );
}

#[test]
fn short_names_are_padded_to_three() {
    let reports = vec![repo("x", vec![br("main", true)], RepositoryState::Clean)];
    let l = compute_layout(&reports);
    assert_eq!(text(&render(&reports, &l, plain())), "* x   | main\n");
}

#[test]
fn divider_between_repositories_only() {
    let reports = vec![
        repo("one", vec![br("main", true)], RepositoryState::Clean),
        repo("two", Vec::new(), RepositoryState::Clean),
    ];
    let l = compute_layout(&reports);
    let out = render(&reports, &l, plain());
    let divider = format!("{}\n", "-".repeat(l.divider_width));
    assert_eq!(l.divider_width, 3 + 5 + 4 + 1 + 23);
    assert_eq!(text(&out), format!("* one | main\n{}", divider));
    let dividers = out.iter().filter(|s| s.text.starts_with('-')).count();
    assert_eq!(dividers, 1);
    assert_eq!(out.len(), 1 + 3 + 1 + 1);
}

#[test]
fn state_column_on_head_line_only() {
    let opts = RenderOptions { hide_master_stable: false, show_state: true };
    let reports = vec![repo(
        "app",
        vec![br("wip", true), br("feature-long", false)],
        RepositoryState::RebaseInteractive,
    )];
    let l = compute_layout(&reports);
    let t = text(&render(&reports, &l, opts));
    let lines: Vec<&str> = t.lines().collect();
    assert_eq!(lines.len(), 2);
    let head = format!("* app | wip          {}rebase-interactive", " ".repeat(5));
    assert_eq!(lines[0], head);
    assert!(lines[0].ends_with("rebase-interactive"));
    assert_eq!(lines[1], "  app | feature-long");
    assert!(!lines[1].contains("rebase"));
    assert_eq!(lines[0].chars().count(), l.divider_width);
}

#[test]
fn rendering_twice_gives_same_output() {
    let opts = RenderOptions { hide_master_stable: true, show_state: true };
    let reports = vec![
        repo("alpha", vec![br("main", true), br("dev", false)], RepositoryState::Merge),
        repo("beta", vec![br("x", false)], RepositoryState::Clean),
    ];
    let l = compute_layout(&reports);
    let a = render(&reports, &l, opts);
    let b = render(&reports, &l, opts);
    assert_eq!(a.len(), b.len());
    for (x, y) in a.iter().zip(b.iter()) {
        assert_eq!(x.tone, y.tone);
        assert_eq!(x.text, y.text);
    }
}

#[test]
fn empty_report_is_one_reset() {
    let reports: Vec<RepoReport> = Vec::new();
    let l = compute_layout(&reports);
    let out = render(&reports, &l, plain());
    assert_eq!(out.len(), 1);
    assert_eq!(out[0].tone, Tone::Reset);
}
