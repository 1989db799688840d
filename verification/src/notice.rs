//! What a run says on the terminal.
use vstd::prelude::*;

use crate::number;
use crate::number::show_number;
use crate::options;
use crate::options::usage;
use crate::plan;
use crate::plan::HotfixPlan;
use crate::style;
use crate::style::{bold, cyan_bold, green, red_bold, yellow, yellow_bold};

verus! {

/// One thing to say.
#[derive(Debug)]
pub enum Notice {
    /// The workspace was not found.
    Fatal(String),
    /// Something went wrong.
    Failure(String),
    /// How the command is used.
    Usage,
    /// There are no version tags to list.
    NoTags,
    /// A version tag.
    Tag(String),
    /// So many releases are about to be patched.
    Opening(usize),
    /// This version is about to be cut on this release.
    Cutting(String, String),
    /// This commit does not apply to this release.
    Conflict(String, String),
    /// The pipeline is to be run on this branch for this version.
    Pipeline(String, String),
    /// This version is out: whether it was pushed and whether it was registered.
    Released(String, bool, bool),
    /// Nothing has been changed.
    DryRun,
    /// What would be done.
    Plan(HotfixPlan),
    /// So many hotfixes are out.
    Summary(usize),
}

/// What a [`Notice`] says.
pub enum NoticeView {
    Fatal(Seq<char>),
    Failure(Seq<char>),
    Usage,
    NoTags,
    Tag(Seq<char>),
    Opening(usize),
    Cutting(Seq<char>, Seq<char>),
    Conflict(Seq<char>, Seq<char>),
    Pipeline(Seq<char>, Seq<char>),
    Released(Seq<char>, bool, bool),
    DryRun,
    Plan(plan::PlanView),
    Summary(usize),
}

impl View for Notice {
    type V = NoticeView;

    open spec fn view(&self) -> NoticeView {
        match self {
            Notice::Fatal(message) => NoticeView::Fatal(message@),
            Notice::Failure(message) => NoticeView::Failure(message@),
            Notice::Usage => NoticeView::Usage,
            Notice::NoTags => NoticeView::NoTags,
            Notice::Tag(tag) => NoticeView::Tag(tag@),
            Notice::Opening(count) => NoticeView::Opening(*count),
            Notice::Cutting(base, version) => NoticeView::Cutting(base@, version@),
            Notice::Conflict(sha, base) => NoticeView::Conflict(sha@, base@),
            Notice::Pipeline(branch, version) => NoticeView::Pipeline(branch@, version@),
            Notice::Released(version, pushed, registered) => NoticeView::Released(
                version@,
                *pushed,
                *registered,
            ),
            Notice::DryRun => NoticeView::DryRun,
            Notice::Plan(plan) => NoticeView::Plan(plan@),
            Notice::Summary(count) => NoticeView::Summary(*count),
        }
    }
}

/// What the notices of a list say, in order.
pub open spec fn notices(list: Seq<Notice>) -> Seq<NoticeView> {
    list.map_values(|n: Notice| n@)
}

/// The text of a notice, given how its mark and its count are to appear. The mark of a plan is
/// the line about it.
pub open spec fn composed(n: NoticeView, mark: Seq<char>, count: Seq<char>) -> Seq<char> {
    match n {
        NoticeView::Fatal(message) => "xtask error: "@ + message,
        NoticeView::Failure(message) => "  "@ + mark + " "@ + message,
        NoticeView::Usage => options::USAGE@,
        NoticeView::NoTags => "  "@ + mark + " no release or hotfix tags found"@,
        NoticeView::Tag(tag) => "  "@ + mark + " "@ + tag,
        NoticeView::Opening(n) => "\n  "@ + mark + " hotfixing into "@ + count + " release"@ + (
        if n == 1 {
            ""@
        } else {
            "s"@
        }),
        NoticeView::Cutting(base, version) => "  "@ + mark + " "@ + base + " -> "@ + version,
        NoticeView::Conflict(sha, base) => "  "@ + mark + " cherry-pick of "@ + sha + " into "@
            + base + " failed; aborting (resolve conflicts manually if any were staged)"@,
        NoticeView::Pipeline(branch, version) => "      "@ + mark
            + " manually run the 'Web UI - CD' pipeline on branch '"@ + branch
            + "' to sign + publish "@ + version,
        NoticeView::Released(version, pushed, registered) => "  "@ + mark + " hotfix "@ + version
            + (if pushed {
            " pushed"@
        } else {
            " tagged locally"@
        }) + " "@ + (if registered {
            "(registered)"@
        } else {
            ""@
        }),
        NoticeView::DryRun => "\n  "@ + mark + " DRY RUN — no changes made:"@,
        NoticeView::Plan(plan) => "    "@ + mark,
        NoticeView::Summary(n) => "\n  "@ + mark + " released "@ + count + " hotfix"@ + (if n == 1 {
            ""@
        } else {
            "es"@
        }) + "\n"@,
    }
}

/// The mark of a notice, with colors on or off.
pub open spec fn mark_of(n: NoticeView, colors: (bool, bool, bool, bool)) -> Seq<char> {
    match n {
        NoticeView::Fatal(_) => ""@,
        NoticeView::Failure(_) => style::styled("✘"@, "\u{1b}[31m\u{1b}[1m"@, colors.0),
        NoticeView::Usage => ""@,
        NoticeView::NoTags => style::styled("✘"@, "\u{1b}[33m"@, colors.0),
        NoticeView::Tag(_) => style::styled("•"@, "\u{1b}[36m\u{1b}[1m"@, colors.0),
        NoticeView::Opening(_) => style::styled("⚡"@, "\u{1b}[36m\u{1b}[1m"@, colors.0),
        NoticeView::Cutting(_, _) => style::styled("→"@, "\u{1b}[36m\u{1b}[1m"@, colors.0),
        NoticeView::Conflict(_, _) => style::styled("✘"@, "\u{1b}[31m\u{1b}[1m"@, colors.0),
        NoticeView::Pipeline(_, _) => style::styled("☞"@, "\u{1b}[36m\u{1b}[1m"@, colors.0),
        NoticeView::Released(_, _, _) => style::styled("✔"@, "\u{1b}[32m"@, colors.0),
        NoticeView::DryRun => style::styled("✦"@, "\u{1b}[33m\u{1b}[1m"@, colors.0),
        NoticeView::Plan(plan) => plan::plan_line(plan, colors),
        NoticeView::Summary(_) => style::styled("✨"@, "\u{1b}[32m"@, colors.0),
    }
}

/// The count in a notice, with colors on or off.
pub open spec fn count_of(n: NoticeView, colors: bool) -> Seq<char> {
    match n {
        NoticeView::Opening(count) => style::styled(
            number::decimal(count as nat),
            "\u{1b}[1m"@,
            colors,
        ),
        NoticeView::Summary(count) => style::styled(
            number::decimal(count as nat),
            "\u{1b}[1m"@,
            colors,
        ),
        _ => ""@,
    }
}

/// The text of a notice, with colors on or off for each styled part.
pub open spec fn shown(n: NoticeView, colors: (bool, bool, bool, bool)) -> Seq<char> {
    composed(n, mark_of(n, colors), count_of(n, colors.1))
}

impl Notice {
    /// The text of the notice, given how its mark and its count are to appear.
    pub fn compose(&self, mark: &str, count: &str) -> (r: String)
        ensures
            r@ == composed(self@, mark@, count@),
    {
        match self {
            Notice::Fatal(message) => "xtask error: ".to_owned().concat(message.as_str()),
            Notice::Failure(message) => "  ".to_owned().concat(mark).concat(" ").concat(
                message.as_str(),
            ),
            Notice::Usage => usage(),
            Notice::NoTags => "  ".to_owned().concat(mark).concat(
                " no release or hotfix tags found",
            ),
            Notice::Tag(tag) => "  ".to_owned().concat(mark).concat(" ").concat(tag.as_str()),
            Notice::Opening(n) => "\n  ".to_owned().concat(mark).concat(" hotfixing into ").concat(
                count,
            ).concat(" release").concat(
                if *n == 1 {
                    ""
                } else {
                    "s"
                },
            ),
            Notice::Cutting(base, version) => "  ".to_owned().concat(mark).concat(" ").concat(
                base.as_str(),
            ).concat(" -> ").concat(version.as_str()),
            Notice::Conflict(sha, base) => "  ".to_owned().concat(mark).concat(
                " cherry-pick of ",
            ).concat(sha.as_str()).concat(" into ").concat(base.as_str()).concat(
                " failed; aborting (resolve conflicts manually if any were staged)",
            ),
            Notice::Pipeline(branch, version) => "      ".to_owned().concat(mark).concat(
                " manually run the 'Web UI - CD' pipeline on branch '",
            ).concat(branch.as_str()).concat("' to sign + publish ").concat(version.as_str()),
            Notice::Released(version, pushed, registered) => "  ".to_owned().concat(mark).concat(
                " hotfix ",
            ).concat(version.as_str()).concat(
                if *pushed {
                    " pushed"
                } else {
                    " tagged locally"
                },
            ).concat(" ").concat(
                if *registered {
                    "(registered)"
                } else {
                    ""
                },
            ),
            Notice::DryRun => "\n  ".to_owned().concat(mark).concat(" DRY RUN — no changes made:"),
            Notice::Plan(_) => "    ".to_owned().concat(mark),
            Notice::Summary(n) => "\n  ".to_owned().concat(mark).concat(" released ").concat(
                count,
            ).concat(" hotfix").concat(
                if *n == 1 {
                    ""
                } else {
                    "es"
                },
            ).concat("\n"),
        }
    }

    /// The notice as one or more lines for the terminal, without the last line's end.
    pub fn render(&self) -> (r: String)
        ensures
            exists|colors: (bool, bool, bool, bool)| r@ == #[trigger] shown(self@, colors),
    {
        let mark = match self {
            Notice::Fatal(_) => "".to_owned(),
            Notice::Failure(_) => red_bold("✘"),
            Notice::Usage => "".to_owned(),
            Notice::NoTags => yellow("✘"),
            Notice::Tag(_) => cyan_bold("•"),
            Notice::Opening(_) => cyan_bold("⚡"),
            Notice::Cutting(_, _) => cyan_bold("→"),
            Notice::Conflict(_, _) => red_bold("✘"),
            Notice::Pipeline(_, _) => cyan_bold("☞"),
            Notice::Released(_, _, _) => green("✔"),
            Notice::DryRun => yellow_bold("✦"),
            Notice::Plan(plan) => plan.display(),
            Notice::Summary(_) => green("✨"),
        };
        let count = match self {
            Notice::Opening(n) => bold(show_number(*n as u64).as_str()),
            Notice::Summary(n) => bold(show_number(*n as u64).as_str()),
            _ => "".to_owned(),
        };
        let r = self.compose(mark.as_str(), count.as_str());
        proof {
            let marked = choose|c: (bool, bool, bool, bool)| mark@ == #[trigger] mark_of(self@, c);
            if self is Plan {
                let c = choose|c: (bool, bool, bool, bool)|
                    mark@ == #[trigger] plan::plan_line(self->Plan_0@, c);
                assert(mark@ == mark_of(self@, c));
            } else {
                assert(mark@ == mark_of(self@, (true, true, true, true)) || mark@ == mark_of(
                    self@,
                    (false, true, true, true),
                ));
            }
            assert(mark@ == mark_of(self@, marked));
            if self is Plan {
                assert(r@ == shown(self@, marked));
            } else {
                assert(count@ == count_of(self@, true) || count@ == count_of(self@, false));
                let counted = choose|c: bool| count@ == #[trigger] count_of(self@, c);
                let colors = (marked.0, counted, marked.2, marked.3);
                assert(mark_of(self@, colors) == mark_of(self@, marked));
                assert(r@ == shown(self@, colors));
            }
        }
        r
    }
}

} // verus!
