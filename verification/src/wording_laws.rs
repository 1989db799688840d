//! What is said on the terminal, word for word.
use vstd::prelude::*;

use crate::action;
use crate::notice;
use crate::number;
use crate::options;
use crate::plan;
use crate::style;
use crate::text;

verus! {

/// Colors put the codes of a style before a text and a reset behind it; without them the text
/// stays as it is.
pub proof fn law_styled(s: Seq<char>, codes: Seq<char>)
    ensures
        style::styled(s, codes, true) == codes + s + "\u{1b}[0m"@,
        style::styled(s, codes, false) == s,
{
}

/// What each notice says, with its mark and its count as they are given.
pub proof fn law_notices_in_words(n: notice::NoticeView, mark: Seq<char>, count: Seq<char>)
    ensures
        notice::composed(n, mark, count) == match n {
            notice::NoticeView::Fatal(message) => "xtask error: "@ + message,
            notice::NoticeView::Failure(message) => "  "@ + mark + " "@ + message,
            notice::NoticeView::Usage => options::USAGE@,
            notice::NoticeView::NoTags => "  "@ + mark + " no release or hotfix tags found"@,
            notice::NoticeView::Tag(tag) => "  "@ + mark + " "@ + tag,
            notice::NoticeView::Opening(k) => "\n  "@ + mark + " hotfixing into "@ + count
                + " release"@ + if k == 1 {
                ""@
            } else {
                "s"@
            },
            notice::NoticeView::Cutting(base, version) => "  "@ + mark + " "@ + base + " -> "@
                + version,
            notice::NoticeView::Conflict(sha, base) => "  "@ + mark + " cherry-pick of "@ + sha
                + " into "@ + base
                + " failed; aborting (resolve conflicts manually if any were staged)"@,
            notice::NoticeView::Pipeline(branch, version) => "      "@ + mark
                + " manually run the 'Web UI - CD' pipeline on branch '"@ + branch
                + "' to sign + publish "@ + version,
            notice::NoticeView::Released(version, pushed, registered) => "  "@ + mark + " hotfix "@
                + version + (if pushed {
                " pushed"@
            } else {
                " tagged locally"@
            }) + " "@ + (if registered {
                "(registered)"@
            } else {
                ""@
            }),
            notice::NoticeView::DryRun => "\n  "@ + mark + " DRY RUN — no changes made:"@,
            notice::NoticeView::Plan(_) => "    "@ + mark,
            notice::NoticeView::Summary(k) => "\n  "@ + mark + " released "@ + count + " hotfix"@
                + (if k == 1 {
                ""@
            } else {
                "es"@
            }) + "\n"@,
        },
{
}

/// How a notice is shown: with its mark and its count, the count in bold, and of a plan the line
/// about it. Failures are marked in red, what is missing or only looked at in yellow, what is
/// done in green, and the rest in cyan.
pub proof fn law_marks(n: notice::NoticeView, colors: (bool, bool, bool, bool))
    ensures
        notice::shown(n, colors) == notice::composed(
            n,
            match n {
                notice::NoticeView::Fatal(_) => ""@,
                notice::NoticeView::Usage => ""@,
                notice::NoticeView::Failure(_) => style::styled(
                    "✘"@,
                    "\u{1b}[31m\u{1b}[1m"@,
                    colors.0,
                ),
                notice::NoticeView::Conflict(_, _) => style::styled(
                    "✘"@,
                    "\u{1b}[31m\u{1b}[1m"@,
                    colors.0,
                ),
                notice::NoticeView::NoTags => style::styled("✘"@, "\u{1b}[33m"@, colors.0),
                notice::NoticeView::DryRun => style::styled(
                    "✦"@,
                    "\u{1b}[33m\u{1b}[1m"@,
                    colors.0,
                ),
                notice::NoticeView::Released(_, _, _) => style::styled(
                    "✔"@,
                    "\u{1b}[32m"@,
                    colors.0,
                ),
                notice::NoticeView::Summary(_) => style::styled("✨"@, "\u{1b}[32m"@, colors.0),
                notice::NoticeView::Tag(_) => style::styled(
                    "•"@,
                    "\u{1b}[36m\u{1b}[1m"@,
                    colors.0,
                ),
                notice::NoticeView::Opening(_) => style::styled(
                    "⚡"@,
                    "\u{1b}[36m\u{1b}[1m"@,
                    colors.0,
                ),
                notice::NoticeView::Cutting(_, _) => style::styled(
                    "→"@,
                    "\u{1b}[36m\u{1b}[1m"@,
                    colors.0,
                ),
                notice::NoticeView::Pipeline(_, _) => style::styled(
                    "☞"@,
                    "\u{1b}[36m\u{1b}[1m"@,
                    colors.0,
                ),
                notice::NoticeView::Plan(plan) => plan::plan_line(plan, colors),
            },
            match n {
                notice::NoticeView::Opening(k) => style::styled(
                    number::decimal(k as nat),
                    "\u{1b}[1m"@,
                    colors.1,
                ),
                notice::NoticeView::Summary(k) => style::styled(
                    number::decimal(k as nat),
                    "\u{1b}[1m"@,
                    colors.1,
                ),
                _ => ""@,
            },
        ),
{
}

/// A `git` that succeeds answers with all that it printed, and one that fails with its words and
/// with what it complained of, without the white space around that. One that cannot be started is
/// reported with its words and the reason.
pub proof fn law_git_answers(
    args: Seq<Seq<char>>,
    success: bool,
    stdout: Seq<char>,
    stderr: Seq<char>,
)
    ensures
        action::git_answer(args, success, stdout, stderr) == if success {
            Ok::<Seq<char>, Seq<char>>(stdout)
        } else {
            Err::<Seq<char>, Seq<char>>(
                "git "@ + text::join(args, " "@) + " failed: "@ + text::trim(stderr),
            )
        },
        action::not_started(args, stderr) == "failed to run git "@ + text::join(args, " "@) + ": "@
            + stderr,
{
}

/// The help text names every way to target releases and every option, each on a line of its own.
pub proof fn law_usage()
    ensures
        options::USAGE@
            == "Usage: cargo xtask hotfix <sha> [last-tag] [--tag X.Y.Z] [--push|--register] [--dry-run] [--list]\n\n"@
            + "Cherry-pick <sha> into one or more released lines and cut a `-hotfix.N` release.\n\n"@
            + "Targeting (exactly one applies):\n"@
            + "<sha>                    target only the latest release tag\n"@
            + "--tag X.Y.Z              target one specific base release\n"@
            + "<sha> <last-tag>         target every release tag newer than <last-tag>\n\n"@
            + "Options:\n"@
            + "--push       push the hotfix branch and the vX.Y.Z-hotfix.N tag to origin\n"@
            + "--register   same as --push; prints the Azure DevOps pipeline-run step\n"@
            + "--dry-run    print the plan without touching git or the working tree\n"@
            + "--list       list release and existing hotfix tags, then exit"@,
{
    reveal_strlit("Usage: cargo xtask hotfix <sha> [last-tag] [--tag X.Y.Z] [--push|--register] [--dry-run] [--list]\n\nCherry-pick <sha> into one or more released lines and cut a `-hotfix.N` release.\n\nTargeting (exactly one applies):\n<sha>                    target only the latest release tag\n--tag X.Y.Z              target one specific base release\n<sha> <last-tag>         target every release tag newer than <last-tag>\n\nOptions:\n--push       push the hotfix branch and the vX.Y.Z-hotfix.N tag to origin\n--register   same as --push; prints the Azure DevOps pipeline-run step\n--dry-run    print the plan without touching git or the working tree\n--list       list release and existing hotfix tags, then exit");
    reveal_strlit("Usage: cargo xtask hotfix <sha> [last-tag] [--tag X.Y.Z] [--push|--register] [--dry-run] [--list]\n\n");
    reveal_strlit("Cherry-pick <sha> into one or more released lines and cut a `-hotfix.N` release.\n\n");
    reveal_strlit("Targeting (exactly one applies):\n");
    reveal_strlit("<sha>                    target only the latest release tag\n");
    reveal_strlit("--tag X.Y.Z              target one specific base release\n");
    reveal_strlit("<sha> <last-tag>         target every release tag newer than <last-tag>\n\n");
    reveal_strlit("Options:\n");
    reveal_strlit("--push       push the hotfix branch and the vX.Y.Z-hotfix.N tag to origin\n");
    reveal_strlit("--register   same as --push; prints the Azure DevOps pipeline-run step\n");
    reveal_strlit("--dry-run    print the plan without touching git or the working tree\n");
    reveal_strlit("--list       list release and existing hotfix tags, then exit");
}

} // verus!
