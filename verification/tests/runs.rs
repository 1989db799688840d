//! Command lines, plans, executions and whole runs.
use hotfix::{
    ensure_clean_worktree, execute_one, git_not_started, git_output, parse_options, plan_one, run,
    run_list, target_bases, usage, Action, HotfixOptions, HotfixPlan, HotfixVersion, Notice,
    Progress, Session,
};

type Reply = Result<String, String>;

fn ok(s: &str) -> Reply {
    Ok(s.to_string())
}

fn err(s: &str) -> Reply {
    Err(s.to_string())
}

/// An action in one line.
fn line(action: &Action) -> String {
    match action {
        Action::Locate => "locate".to_string(),
        Action::Capture(args) => format!("capture {}", args.join(" ")),
        Action::Run(args) => format!("run {}", args.join(" ")),
        Action::Quiet(args) => format!("quiet {}", args.join(" ")),
        Action::SetVersion(version) => format!("version {version}"),
        Action::Exit(success) => format!("exit {success}"),
    }
}

/// A text without its colors, whether they are on or not.
fn plain(text: String) -> String {
    console::strip_ansi_codes(&text).into_owned()
}

/// Drives a run with the given replies: the actions in order, the next one last, and what was
/// said without colors.
fn drive(args: &[&str], replies: &[Reply]) -> (Vec<String>, Vec<String>) {
    let mut session = run(args);
    let mut actions = Vec::new();
    let mut said = Vec::new();
    for reply in replies {
        actions.push(line(&session.action()));
        let (next, notices) = session.advance(reply);
        for notice in &notices {
            said.push(plain(notice.render()));
        }
        session = next;
    }
    actions.push(line(&session.action()));
    (actions, said)
}

fn options(args: &[&str]) -> HotfixOptions {
    parse_options(args).unwrap()
}

fn refusal(args: &[&str]) -> String {
    parse_options(args).unwrap_err()
}

fn sample_plan(flag: &str) -> HotfixPlan {
    let options = options(&["abc", flag]);
    plan_one("0.0.27", &HotfixVersion::new((0, 0, 27), 3), &options, "").unwrap()
}

#[test]
fn options_are_read_in_any_order() {
    let o = options(&["--push", "abc", "--tag", "0.0.27", "v0.0.20", "--dry-run"]);
    assert_eq!(o.sha, "abc");
    assert_eq!(o.tag, Some("0.0.27".to_string()));
    assert_eq!(o.last_tag, Some("v0.0.20".to_string()));
    assert!(o.push);
    assert!(!o.register);
    assert!(o.dry_run);
}

#[test]
fn every_flag_sets_itself_alone() {
    let pushed = options(&["abc123", "--push"]);
    assert!(pushed.push && !pushed.register && !pushed.dry_run);
    assert_eq!(pushed.sha, "abc123");
    assert_eq!(pushed.tag, None);
    assert_eq!(pushed.last_tag, None);
    let registered = options(&["abc", "--register"]);
    assert!(!registered.push && registered.register && !registered.dry_run);
    let dry = options(&["abc", "--dry-run"]);
    assert!(!dry.push && !dry.register && dry.dry_run);
    let both = options(&["abc", "--push", "--register"]);
    assert!(both.push && both.register && !both.dry_run);
    assert_eq!(dry.tag, None);
    assert_eq!(dry.last_tag, None);
}

#[test]
fn wrong_command_lines_are_refused() {
    assert_eq!(
        refusal(&["abc", "--tag"]),
        "--tag requires a base version, e.g. --tag 0.0.27"
    );
    assert_eq!(refusal(&["abc", "--force"]), "unknown option: --force");
    assert_eq!(refusal(&["-x", "--tag"]), "unknown option: -x");
    assert_eq!(
        refusal(&["--push"]),
        "missing <sha> — the commit to cherry-pick"
    );
    assert_eq!(refusal(&[]), "missing <sha> — the commit to cherry-pick");
    assert_eq!(
        refusal(&["a", "b", "c", "d", "--push"]),
        "unexpected extra argument: c"
    );
    assert_eq!(
        refusal(&["a"]),
        "use --push, --register, or --dry-run — hotfix would otherwise leave untracked work"
    );
}

#[test]
fn tag_takes_the_next_word_whatever_it_is() {
    let o = options(&["abc", "--tag", "--dry-run", "--push"]);
    assert_eq!(o.tag, Some("--dry-run".to_string()));
    assert!(!o.dry_run);
    let pushed = options(&["abc", "--tag", "--tag", "--push"]);
    assert_eq!(pushed.tag, Some("--tag".to_string()));
    assert!(pushed.push);
    assert_eq!(
        refusal(&["abc", "--tag", "--push"]),
        "use --push, --register, or --dry-run — hotfix would otherwise leave untracked work"
    );
    assert_eq!(
        refusal(&["abc", "--tag", "--register"]),
        "use --push, --register, or --dry-run — hotfix would otherwise leave untracked work"
    );
    let twice = options(&["abc", "--tag", "1.0.0", "--tag", "2.0.0", "--push"]);
    assert_eq!(twice.tag, Some("2.0.0".to_string()));
}

#[test]
fn usage_names_every_option() {
    let text = usage();
    assert!(text.starts_with(
        "Usage: cargo xtask hotfix <sha> [last-tag] [--tag X.Y.Z] [--push|--register] [--dry-run] [--list]\n\nCherry-pick <sha> into"
    ));
    assert!(text.contains("\n--register   same as --push; prints the Azure DevOps pipeline-run step\n"));
    assert!(text.ends_with("\n--list       list release and existing hotfix tags, then exit"));
    assert_eq!(text.lines().count(), 14);
}

#[test]
fn git_answers_with_its_output_or_a_message() {
    let args: Vec<String> = vec!["tag".to_string(), "-l".to_string(), "v*".to_string()];
    assert_eq!(git_output(&args, true, "v1\n", "warning"), ok("v1\n"));
    assert_eq!(
        git_output(&args, false, "v1\n", " fatal: no\n"),
        err("git tag -l v* failed: fatal: no")
    );
    assert_eq!(
        git_not_started(&args, "not found"),
        "failed to run git tag -l v*: not found"
    );
}

#[test]
fn one_tag_is_targeted_if_it_exists() {
    let o = options(&["abc", "v0.0.1", "--tag", "0.0.27", "--push"]);
    assert_eq!(target_bases(&o, &ok("c0ffee\n")), Ok(vec!["0.0.27".to_string()]));
    assert_eq!(
        target_bases(&o, &err("git failed")),
        Err("release tag v0.0.27 does not exist".to_string())
    );
}

#[test]
fn releases_since_a_tag_are_targeted_as_base_versions() {
    let o = options(&["abc", "v0.0.9", "--push"]);
    assert_eq!(
        target_bases(&o, &ok("v0.0.9\nv0.0.10\nv0.0.10-hotfix.1\nv0.1.0\n")),
        Ok(vec!["0.0.10".to_string(), "0.1.0".to_string()])
    );
    assert_eq!(target_bases(&o, &ok("v0.0.9\n")), Ok(vec![]));
    assert_eq!(target_bases(&o, &err("no git")), Err("no git".to_string()));
}

#[test]
fn latest_release_is_targeted_by_default() {
    let o = options(&["abc", "--push"]);
    assert_eq!(
        target_bases(&o, &ok("v0.0.9\nv0.0.10\nv0.0.10-hotfix.1\n")),
        Ok(vec!["0.0.10".to_string()])
    );
    assert_eq!(
        target_bases(&o, &ok("")),
        Err("no release tags (vX.Y.Z) found".to_string())
    );
    assert_eq!(target_bases(&o, &err("no git")), Err("no git".to_string()));
}

#[test]
fn plan_names_tags_and_branch() {
    let plan = sample_plan("--register");
    assert_eq!(plan.base, "0.0.27");
    assert_eq!(plan.release_tag, "v0.0.27");
    assert_eq!(plan.hotfix_version, "0.0.27-hotfix.3");
    assert_eq!(plan.hotfix_tag, "v0.0.27-hotfix.3");
    assert_eq!(plan.branch, "hotfix/0.0.27");
    assert!(plan.pushed);
    assert!(plan.registered);
    let pushed = sample_plan("--push");
    assert!(pushed.pushed);
    assert!(!pushed.registered);
    let dry = sample_plan("--dry-run");
    assert!(!dry.pushed);
    assert!(!dry.registered);
}

#[test]
fn existing_branch_is_refused_but_for_a_dry_run() {
    let next = HotfixVersion::new((0, 0, 27), 1);
    let real = options(&["abc", "--push"]);
    assert_eq!(
        plan_one("0.0.27", &next, &real, "  hotfix/0.0.27\n").unwrap_err(),
        "hotfix branch 'hotfix/0.0.27' already exists; resolve/merge it before cutting another hotfix on 0.0.27"
    );
    assert!(plan_one("0.0.27", &next, &real, " \n").is_ok());
    let dry = options(&["abc", "--dry-run"]);
    assert!(plan_one("0.0.27", &next, &dry, "  hotfix/0.0.27\n").is_ok());
}

#[test]
fn texts_are_styled_if_colors_are_on() {
    console::set_colors_enabled(true);
    assert_eq!(
        sample_plan("--register").display(),
        "\u{1b}[1m0.0.27\u{1b}[0m -> \u{1b}[36m0.0.27-hotfix.3\u{1b}[0m on \u{1b}[1mhotfix/0.0.27\u{1b}[0m (tag \u{1b}[36mv0.0.27-hotfix.3\u{1b}[0m, pushed to origin, pipeline register)"
    );
    assert_eq!(
        Notice::Failure("no".to_string()).render(),
        "  \u{1b}[31m\u{1b}[1m✘\u{1b}[0m no"
    );
    assert_eq!(
        Notice::NoTags.render(),
        "  \u{1b}[33m✘\u{1b}[0m no release or hotfix tags found"
    );
    assert_eq!(
        Notice::Tag("v1.0.0".to_string()).render(),
        "  \u{1b}[36m\u{1b}[1m•\u{1b}[0m v1.0.0"
    );
    assert_eq!(
        Notice::Opening(1).render(),
        "\n  \u{1b}[36m\u{1b}[1m⚡\u{1b}[0m hotfixing into \u{1b}[1m1\u{1b}[0m release"
    );
    assert_eq!(
        Notice::DryRun.render(),
        "\n  \u{1b}[33m\u{1b}[1m✦\u{1b}[0m DRY RUN — no changes made:"
    );
    assert_eq!(
        Notice::Summary(2).render(),
        "\n  \u{1b}[32m✨\u{1b}[0m released \u{1b}[1m2\u{1b}[0m hotfixes\n"
    );
    console::set_colors_enabled(false);
    assert_eq!(
        sample_plan("--dry-run").display(),
        "0.0.27 -> 0.0.27-hotfix.3 on hotfix/0.0.27 (tag v0.0.27-hotfix.3)"
    );
    assert_eq!(
        sample_plan("--push").display(),
        "0.0.27 -> 0.0.27-hotfix.3 on hotfix/0.0.27 (tag v0.0.27-hotfix.3, pushed to origin)"
    );
    assert_eq!(Notice::Failure("no".to_string()).render(), "  ✘ no");
    assert_eq!(Notice::Tag("v1.0.0".to_string()).render(), "  • v1.0.0");
    assert_eq!(Notice::Opening(1).render(), "\n  ⚡ hotfixing into 1 release");
    assert_eq!(Notice::Summary(2).render(), "\n  ✨ released 2 hotfixes\n");
}

#[test]
fn notices_read_plainly_without_colors() {
    let s = |t: &str| t.to_string();
    assert_eq!(plain(Notice::Fatal(s("lost")).render()), "xtask error: lost");
    assert_eq!(plain(Notice::Usage.render()), usage());
    assert_eq!(plain(Notice::Opening(12).render()), "\n  ⚡ hotfixing into 12 releases");
    assert_eq!(
        plain(Notice::Cutting(s("0.0.27"), s("0.0.27-hotfix.1")).render()),
        "  → 0.0.27 -> 0.0.27-hotfix.1"
    );
    assert_eq!(
        plain(Notice::Conflict(s("abc"), s("0.0.27")).render()),
        "  ✘ cherry-pick of abc into 0.0.27 failed; aborting (resolve conflicts manually if any were staged)"
    );
    assert_eq!(
        plain(Notice::Pipeline(s("hotfix/0.0.27"), s("0.0.27-hotfix.1")).render()),
        "      ☞ manually run the 'Web UI - CD' pipeline on branch 'hotfix/0.0.27' to sign + publish 0.0.27-hotfix.1"
    );
    assert_eq!(
        plain(Notice::Released(s("0.0.27-hotfix.1"), true, true).render()),
        "  ✔ hotfix 0.0.27-hotfix.1 pushed (registered)"
    );
    assert_eq!(
        plain(Notice::Released(s("0.0.27-hotfix.1"), true, false).render()),
        "  ✔ hotfix 0.0.27-hotfix.1 pushed "
    );
    assert_eq!(
        plain(Notice::Released(s("0.0.27-hotfix.1"), false, false).render()),
        "  ✔ hotfix 0.0.27-hotfix.1 tagged locally "
    );
    assert_eq!(plain(Notice::Summary(1).render()), "\n  ✨ released 1 hotfix\n");
    assert_eq!(
        plain(Notice::Plan(sample_plan("--register")).render()),
        "    0.0.27 -> 0.0.27-hotfix.3 on hotfix/0.0.27 (tag v0.0.27-hotfix.3, pushed to origin, pipeline register)"
    );
    assert_eq!(
        Notice::Failure(s("x")).compose("!", ""),
        "  ! x"
    );
}

#[test]
fn execution_without_push_stays_local() {
    let mut plan = sample_plan("--push");
    plan.pushed = false;
    plan.registered = false;
    let o = options(&["abc", "--push"]);
    let mut e = execute_one(plan, &o);
    let mut actions = Vec::new();
    let mut complete = false;
    for _ in 0..20 {
        actions.push(line(&e.action()));
        match e.advance(&ok("main\n")).0 {
            Progress::Ongoing(next) => e = next,
            Progress::Complete => {
                complete = true;
                break;
            }
            Progress::Failed(message) => panic!("{message}"),
        }
    }
    assert!(complete);
    assert_eq!(
        actions,
        vec![
            "capture rev-parse --abbrev-ref HEAD",
            "run checkout -b hotfix/0.0.27 v0.0.27^{}",
            "quiet cherry-pick -x abc",
            "version 0.0.27-hotfix.3",
            "run add -A",
            "run commit -m chore: hotfix 0.0.27-hotfix.3",
            "run tag v0.0.27-hotfix.3",
            "run checkout main",
        ]
    );
}

/// What a plan ends with if the step at the given index is the first to fail.
fn failing_at(step: usize) -> (String, usize) {
    let mut e = execute_one(sample_plan("--push"), &options(&["abc", "--push"]));
    let mut count = 0;
    loop {
        let reply = if count == step { err("boom") } else { ok("main\n") };
        count += 1;
        match e.advance(&reply).0 {
            Progress::Ongoing(next) => e = next,
            Progress::Complete => return ("complete".to_string(), count),
            Progress::Failed(message) => return (message, count),
        }
    }
}

#[test]
fn every_failing_step_says_which_it_was() {
    assert_eq!(failing_at(0), ("boom".to_string(), 1));
    assert_eq!(
        failing_at(1),
        ("failed to create branch hotfix/0.0.27 from v0.0.27: boom".to_string(), 2)
    );
    assert_eq!(failing_at(2), ("cherry-pick failed: boom".to_string(), 6));
    assert_eq!(
        failing_at(3),
        ("version bump to 0.0.27-hotfix.3 failed".to_string(), 6)
    );
    assert_eq!(failing_at(4), ("git add failed: boom".to_string(), 5));
    assert_eq!(failing_at(5), ("git commit failed: boom".to_string(), 6));
    assert_eq!(failing_at(6), ("git tag failed: boom".to_string(), 7));
    assert_eq!(
        failing_at(7),
        ("failed to push branch hotfix/0.0.27: boom".to_string(), 8)
    );
    assert_eq!(
        failing_at(8),
        ("failed to push tag v0.0.27-hotfix.3: boom".to_string(), 9)
    );
    assert_eq!(
        failing_at(9),
        ("failed to return to main: boom".to_string(), 10)
    );
    assert_eq!(failing_at(10), ("complete".to_string(), 10));
}

#[test]
fn detached_head_is_refused() {
    let e = execute_one(sample_plan("--push"), &options(&["abc", "--push"]));
    match e.advance(&ok("HEAD\n")).0 {
        Progress::Failed(message) => assert_eq!(
            message,
            "detached HEAD — check out a branch before running a hotfix"
        ),
        _ => panic!("a detached HEAD must fail"),
    }
}

#[test]
fn a_pushing_run_does_everything_in_order() {
    let (actions, said) = drive(
        &["abc", "--push"],
        &[
            ok("/work"),
            ok("true\n"),
            ok("\n"),
            ok(""),
            ok("v0.0.26\nv0.0.27\n"),
            ok("v0.0.26\nv0.0.27\nv0.0.27-hotfix.1\n"),
            ok(""),
            ok("main\n"),
            ok(""),
            ok(""),
            ok(""),
            ok(""),
            ok(""),
            ok(""),
            ok(""),
            ok(""),
            ok(""),
        ],
    );
    assert_eq!(
        actions,
        vec![
            "locate",
            "capture rev-parse --is-inside-work-tree",
            "capture status --porcelain",
            "capture fetch origin --tags",
            "capture tag -l v*",
            "capture tag -l v*",
            "capture branch --list hotfix/0.0.27 remotes/origin/hotfix/0.0.27",
            "capture rev-parse --abbrev-ref HEAD",
            "run checkout -b hotfix/0.0.27 v0.0.27^{}",
            "quiet cherry-pick -x abc",
            "version 0.0.27-hotfix.2",
            "run add -A",
            "run commit -m chore: hotfix 0.0.27-hotfix.2",
            "run tag v0.0.27-hotfix.2",
            "run push origin hotfix/0.0.27",
            "run push origin v0.0.27-hotfix.2",
            "run checkout main",
            "exit true",
        ]
    );
    assert_eq!(
        said,
        vec![
            "\n  ⚡ hotfixing into 1 release",
            "  → 0.0.27 -> 0.0.27-hotfix.2",
            "  ✔ hotfix 0.0.27-hotfix.2 pushed ",
            "\n  ✨ released 1 hotfix\n",
        ]
    );
}

#[test]
fn a_registering_run_pushes_and_names_the_pipeline() {
    let mut replies = vec![ok("/work"), ok("true\n"), ok(""), ok(""), ok("v0.0.27\n")];
    replies.push(ok("v0.0.27\nv0.0.27-hotfix.1\n"));
    replies.push(ok(""));
    replies.push(ok("main\n"));
    for _ in 0..9 {
        replies.push(ok(""));
    }
    let (actions, said) = drive(&["abc", "--register"], &replies);
    assert_eq!(
        &actions[13..],
        &[
            "run tag v0.0.27-hotfix.2",
            "run push origin hotfix/0.0.27",
            "run push origin v0.0.27-hotfix.2",
            "run checkout main",
            "exit true",
        ]
    );
    assert_eq!(
        &said[2..],
        &[
            "      ☞ manually run the 'Web UI - CD' pipeline on branch 'hotfix/0.0.27' to sign + publish 0.0.27-hotfix.2",
            "  ✔ hotfix 0.0.27-hotfix.2 pushed (registered)",
            "\n  ✨ released 1 hotfix\n",
        ]
    );
}

#[test]
fn nothing_is_pushed_unless_all_before_it_has_succeeded() {
    for step in 7..14 {
        let mut replies = vec![ok("/work"), ok("true\n"), ok(""), ok(""), ok("v0.0.27\n")];
        replies.push(ok("v0.0.27\n"));
        replies.push(ok(""));
        while replies.len() < step {
            replies.push(ok("main\n"));
        }
        replies.push(err("boom"));
        while replies.len() < 20 {
            replies.push(ok("main\n"));
        }
        let (actions, _) = drive(&["abc", "--push"], &replies);
        assert_eq!(actions.last().unwrap(), "exit false");
        assert!(!actions.iter().any(|action| action.starts_with("run push")));
    }
}

#[test]
fn a_dry_run_only_looks() {
    let (actions, said) = drive(
        &["abc", "v0.0.25", "--dry-run", "--push"],
        &[
            ok("/work"),
            ok("true\n"),
            ok("v0.0.25\nv0.0.26\nv0.0.27\n"),
            ok("v0.0.26\nv0.0.26-hotfix.7\n"),
            ok("v0.0.27\n"),
        ],
    );
    assert_eq!(
        actions,
        vec![
            "locate",
            "capture rev-parse --is-inside-work-tree",
            "capture tag -l v*",
            "capture tag -l v*",
            "capture tag -l v*",
            "exit true",
        ]
    );
    assert_eq!(
        said,
        vec![
            "\n  ⚡ hotfixing into 2 releases",
            "\n  ✦ DRY RUN — no changes made:",
            "    0.0.26 -> 0.0.26-hotfix.8 on hotfix/0.0.26 (tag v0.0.26-hotfix.8, pushed to origin)",
            "    0.0.27 -> 0.0.27-hotfix.1 on hotfix/0.0.27 (tag v0.0.27-hotfix.1, pushed to origin)",
        ]
    );
}

#[test]
fn a_dry_run_with_a_plan_succeeds_even_if_a_later_plan_fails() {
    let replies = [
        ok("/work"),
        ok("true\n"),
        ok("v0.0.26\nv0.0.27\n"),
        ok("v0.0.26\n"),
        err("gone"),
    ];
    let (actions, said) = drive(&["abc", "v0.0.1", "--dry-run"], &replies);
    assert_eq!(actions.last().unwrap(), "exit true");
    assert_eq!(
        said,
        vec![
            "\n  ⚡ hotfixing into 2 releases",
            "\n  ✦ DRY RUN — no changes made:",
            "    0.0.26 -> 0.0.26-hotfix.1 on hotfix/0.0.26 (tag v0.0.26-hotfix.1)",
        ]
    );
    let (first, why) = drive(&["abc", "--tag", "x", "--dry-run"], &[
        ok("/work"),
        ok("true\n"),
        ok("c0ffee\n"),
        ok("v0.0.26\n"),
    ]);
    assert_eq!(first.last().unwrap(), "exit false");
    assert_eq!(why.last().unwrap(), "  ✘ not a base version: x");
}

#[test]
fn a_conflict_is_aborted_loudly_and_ends_the_run() {
    let (actions, said) = drive(
        &["abc", "v0.0.25", "--register"],
        &[
            ok("/work"),
            ok("true\n"),
            ok(""),
            ok(""),
            ok("v0.0.26\nv0.0.27\n"),
            ok("v0.0.26\nv0.0.27\n"),
            ok(""),
            ok("main\n"),
            ok(""),
            err("exit status 1"),
            err("nothing to abort"),
            ok(""),
            ok(""),
        ],
    );
    assert_eq!(
        &actions[9..],
        &[
            "quiet cherry-pick -x abc",
            "quiet cherry-pick --abort",
            "run checkout main",
            "run branch -D hotfix/0.0.26",
            "exit false",
        ]
    );
    assert_eq!(
        &said[2..],
        &[
            "  ✘ cherry-pick of abc into 0.0.26 failed; aborting (resolve conflicts manually if any were staged)",
            "  ✘ cherry-pick failed: exit status 1",
        ]
    );
}

#[test]
fn a_plan_that_cannot_be_made_ends_the_run() {
    let with = |replies: &[Reply]| {
        let mut all = vec![ok("/work"), ok("true\n"), ok(""), ok(""), ok("v0.0.26\nv0.0.27\n")];
        all.extend_from_slice(replies);
        let (actions, said) = drive(&["abc", "v0.0.25", "--push"], &all);
        assert_eq!(actions.last().unwrap(), "exit false");
        assert_eq!(actions.len(), all.len() + 1);
        assert_eq!(said.len(), 2);
        said[1].clone()
    };
    assert_eq!(with(&[err("no tags")]), "  ✘ no tags");
    assert_eq!(
        with(&[ok("v0.0.26-hotfix.18446744073709551615\n")]),
        "  ✘ no hotfix number left for base version: 0.0.26"
    );
    assert_eq!(with(&[ok("v0.0.26\n"), err("no branches")]), "  ✘ no branches");
    assert_eq!(
        with(&[ok("v0.0.26\n"), ok("* hotfix/0.0.26\n")]),
        "  ✘ hotfix branch 'hotfix/0.0.26' already exists; resolve/merge it before cutting another hotfix on 0.0.26"
    );
}

#[test]
fn a_run_goes_from_release_to_release() {
    let mut replies = vec![ok("/work"), ok("true\n"), ok(""), ok(""), ok("v0.0.26\nv0.0.27\n")];
    for _ in 0..2 {
        replies.push(ok("v0.0.26\nv0.0.27\n"));
        replies.push(ok(""));
        replies.push(ok("main\n"));
        for _ in 0..9 {
            replies.push(ok(""));
        }
    }
    let (actions, said) = drive(&["abc", "v0.0.25", "--register"], &replies);
    assert_eq!(actions.last().unwrap(), "exit true");
    assert_eq!(said.first().unwrap(), "\n  ⚡ hotfixing into 2 releases");
    assert_eq!(said.last().unwrap(), "\n  ✨ released 2 hotfixes\n");
    assert_eq!(actions[17], "capture tag -l v*");
    let tagged: Vec<&String> = actions.iter().filter(|a| a.starts_with("run tag")).collect();
    assert_eq!(tagged, ["run tag v0.0.26-hotfix.1", "run tag v0.0.27-hotfix.1"]);
    for missing in 1..replies.len() {
        let (short, _) = drive(&["abc", "v0.0.25", "--register"], &replies[..missing]);
        assert!(!short.last().unwrap().starts_with("exit"));
    }
}

#[test]
fn a_dirty_tree_stops_a_run_before_it_changes_anything() {
    let (actions, said) = drive(
        &["abc", "--push"],
        &[ok("/work"), ok("true\n"), ok(" M file.txt\n")],
    );
    assert_eq!(actions.last().unwrap(), "exit false");
    assert_eq!(
        said,
        vec!["  ✘ working tree is not clean; commit or stash changes before a hotfix (use --dry-run to preview)"]
    );
    assert_eq!(ensure_clean_worktree(" \n"), Ok(()));
    assert!(ensure_clean_worktree("?? x").is_err());
}

#[test]
fn failed_checks_stop_a_run() {
    let (actions, said) = drive(&["abc", "--push"], &[err("no workspace")]);
    assert_eq!(actions.last().unwrap(), "exit false");
    assert_eq!(said, vec!["xtask error: no workspace"]);
    let (_, repo) = drive(&["abc", "--push"], &[ok("/work"), err("not a repo")]);
    assert_eq!(repo, vec!["  ✘ not a repo"]);
    let (_, fetch) = drive(
        &["abc", "--push"],
        &[ok("/work"), ok(""), ok(""), err("offline")],
    );
    assert_eq!(fetch, vec!["  ✘ offline"]);
    let (_, target) = drive(
        &["abc", "v9.0.0", "--dry-run"],
        &[ok("/work"), ok(""), ok("v0.0.1\n")],
    );
    assert_eq!(target, vec!["  ✘ no release tags matched the requested target"]);
    let (_, branch) = drive(
        &["abc", "--push"],
        &[ok("/work"), ok(""), ok(""), ok(""), ok("v0.0.1\n"), ok("v0.0.1\n"), ok("  hotfix/0.0.1\n")],
    );
    assert_eq!(
        branch.last().unwrap(),
        "  ✘ hotfix branch 'hotfix/0.0.1' already exists; resolve/merge it before cutting another hotfix on 0.0.1"
    );
}

#[test]
fn a_wrong_command_line_shows_the_usage() {
    let (actions, said) = drive(&["abc"], &[ok("/work")]);
    assert_eq!(actions, vec!["locate", "exit false"]);
    assert_eq!(
        said,
        vec![
            "  ✘ use --push, --register, or --dry-run — hotfix would otherwise leave untracked work"
                .to_string(),
            usage(),
        ]
    );
}

#[test]
fn list_comes_before_everything_else() {
    let (actions, said) = drive(
        &["--bogus", "--list"],
        &[ok("/work"), ok("v0.0.2\nv0.0.1-hotfix.1\nv0.0.1\n")],
    );
    assert_eq!(actions, vec!["locate", "capture tag -l v*", "exit true"]);
    assert_eq!(said, vec!["  • v0.0.1", "  • v0.0.1-hotfix.1", "  • v0.0.2"]);
    let (none, nothing) = drive(&["--list"], &[ok("/work"), ok("")]);
    assert_eq!(none.last().unwrap(), "exit false");
    assert_eq!(nothing, vec!["  ✘ no release or hotfix tags found"]);
    let (session, notices) = run_list(&err("no git"));
    assert!(matches!(session, Session::Finished(false)));
    assert_eq!(plain(notices[0].render()), "  ✘ failed to list tags: no git");
}

#[test]
fn a_run_that_is_over_stays_over() {
    let (session, notices) = Session::Finished(true).advance(&err("late"));
    assert!(matches!(session, Session::Finished(true)));
    assert!(notices.is_empty());
}

#[test]
fn a_listing_without_a_number_left_ends_the_run() {
    let start = [ok("/work"), ok("true\n"), ok("v0.0.1\n")];
    let with = |listing: &str| {
        let mut replies = start.to_vec();
        replies.push(ok(listing));
        drive(&["abc", "--dry-run"], &replies)
    };
    let (last, plan) = with("v0.0.1\nv0.0.1-hotfix.18446744073709551614\n");
    assert_eq!(last.last().unwrap(), "exit true");
    assert_eq!(
        plan.last().unwrap(),
        "    0.0.1 -> 0.0.1-hotfix.18446744073709551615 on hotfix/0.0.1 (tag v0.0.1-hotfix.18446744073709551615)"
    );
    let (none, why) = with("v0.0.1\nv0.0.1-hotfix.18446744073709551615\n");
    assert_eq!(none.last().unwrap(), "exit false");
    assert_eq!(
        why.last().unwrap(),
        "  ✘ no hotfix number left for base version: 0.0.1"
    );
}
