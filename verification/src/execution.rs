//! The steps that carry out one plan.
use vstd::prelude::*;

use crate::action;
use crate::action::Action;
use crate::notice;
use crate::notice::Notice;
use crate::options::HotfixOptions;
use crate::plan;
use crate::plan::HotfixPlan;
use crate::text;
use crate::text::{owned, same, trimmed};

verus! {

/// The step that an execution is at.
#[derive(Clone, Copy, Debug, PartialEq, Eq, Structural)]
pub enum Stage {
    /// Learn which branch is checked out.
    FindHead,
    /// Create the hotfix branch off the release tag's commit.
    Branch,
    /// Cherry-pick the fix, recording the source commit.
    Pick,
    /// Give the cherry-pick up.
    Abort,
    /// Go back to the branch that was checked out.
    Leave,
    /// Delete the hotfix branch.
    Discard,
    /// Set every manifest to the hotfix version.
    Bump,
    /// Stage the version change.
    Add,
    /// Commit the version change.
    Commit,
    /// Tag the hotfix.
    Tag,
    /// Push the branch.
    PushBranch,
    /// Push the tag.
    PushTag,
    /// Return to the branch that was checked out.
    Return,
}

/// One plan on its way.
#[derive(Debug)]
pub struct Execution {
    pub plan: HotfixPlan,
    /// The commit to cherry-pick.
    pub sha: String,
    /// The branch that was checked out.
    pub original: String,
    /// Why the execution is being undone.
    pub failure: String,
    pub stage: Stage,
}

/// What an [`Execution`] says.
pub struct ExecutionView {
    pub plan: plan::PlanView,
    pub sha: Seq<char>,
    pub original: Seq<char>,
    pub failure: Seq<char>,
    pub stage: Stage,
}

impl View for Execution {
    type V = ExecutionView;

    open spec fn view(&self) -> ExecutionView {
        ExecutionView {
            plan: self.plan@,
            sha: self.sha@,
            original: self.original@,
            failure: self.failure@,
            stage: self.stage,
        }
    }
}

/// Where a step has led.
pub enum Progress {
    /// There is more to do.
    Ongoing(Execution),
    /// The hotfix is out.
    Complete,
    /// The hotfix has failed, and why.
    Failed(String),
}

/// What a [`Progress`] says.
pub enum ProgressView {
    Ongoing(ExecutionView),
    Complete,
    Failed(Seq<char>),
}

impl View for Progress {
    type V = ProgressView;

    open spec fn view(&self) -> ProgressView {
        match self {
            Progress::Ongoing(e) => ProgressView::Ongoing(e@),
            Progress::Complete => ProgressView::Complete,
            Progress::Failed(message) => ProgressView::Failed(message@),
        }
    }
}

impl ExecutionView {
    /// The execution at another stage.
    pub open spec fn at(self, stage: Stage) -> ExecutionView {
        ExecutionView { stage, ..self }
    }

    /// What the stage does.
    pub open spec fn action(self) -> action::ActionView {
        match self.stage {
            Stage::FindHead => action::ActionView::Capture(
                seq!["rev-parse"@, "--abbrev-ref"@, "HEAD"@],
            ),
            Stage::Branch => action::ActionView::Run(
                seq!["checkout"@, "-b"@, self.plan.branch, self.plan.release_tag + "^{}"@],
            ),
            Stage::Pick => action::ActionView::Quiet(seq!["cherry-pick"@, "-x"@, self.sha]),
            Stage::Abort => action::ActionView::Quiet(seq!["cherry-pick"@, "--abort"@]),
            Stage::Leave => action::ActionView::Run(seq!["checkout"@, self.original]),
            Stage::Discard => action::ActionView::Run(seq!["branch"@, "-D"@, self.plan.branch]),
            Stage::Bump => action::ActionView::SetVersion(self.plan.hotfix_version),
            Stage::Add => action::ActionView::Run(seq!["add"@, "-A"@]),
            Stage::Commit => action::ActionView::Run(
                seq!["commit"@, "-m"@, "chore: hotfix "@ + self.plan.hotfix_version],
            ),
            Stage::Tag => action::ActionView::Run(seq!["tag"@, self.plan.hotfix_tag]),
            Stage::PushBranch => action::ActionView::Run(
                seq!["push"@, "origin"@, self.plan.branch],
            ),
            Stage::PushTag => action::ActionView::Run(
                seq!["push"@, "origin"@, self.plan.hotfix_tag],
            ),
            Stage::Return => action::ActionView::Run(seq!["checkout"@, self.original]),
        }
    }

    /// Where a stage leads that has succeeded.
    pub open spec fn succeeded(self, output: Seq<char>) -> ProgressView {
        match self.stage {
            Stage::FindHead => if text::trim(output) == "HEAD"@ {
                ProgressView::Failed(
                    "detached HEAD — check out a branch before running a hotfix"@,
                )
            } else {
                ProgressView::Ongoing(
                    ExecutionView { original: text::trim(output), stage: Stage::Branch, ..self },
                )
            },
            Stage::Branch => ProgressView::Ongoing(self.at(Stage::Pick)),
            Stage::Pick => ProgressView::Ongoing(self.at(Stage::Bump)),
            Stage::Abort => ProgressView::Ongoing(self.at(Stage::Leave)),
            Stage::Leave => ProgressView::Ongoing(self.at(Stage::Discard)),
            Stage::Discard => ProgressView::Failed(self.failure),
            Stage::Bump => ProgressView::Ongoing(self.at(Stage::Add)),
            Stage::Add => ProgressView::Ongoing(self.at(Stage::Commit)),
            Stage::Commit => ProgressView::Ongoing(self.at(Stage::Tag)),
            Stage::Tag => if self.plan.pushed {
                ProgressView::Ongoing(self.at(Stage::PushBranch))
            } else {
                ProgressView::Ongoing(self.at(Stage::Return))
            },
            Stage::PushBranch => ProgressView::Ongoing(self.at(Stage::PushTag)),
            Stage::PushTag => ProgressView::Ongoing(self.at(Stage::Return)),
            Stage::Return => ProgressView::Complete,
        }
    }

    /// Where a stage leads that has failed: a commit that does not apply is given up, and then
    /// as for a version that could not be set, the hotfix branch is left and deleted; what is
    /// done to that end may fail; any other failure ends the execution at once.
    pub open spec fn failed(self, error: Seq<char>) -> ProgressView {
        match self.stage {
            Stage::FindHead => ProgressView::Failed(error),
            Stage::Branch => ProgressView::Failed(
                "failed to create branch "@ + self.plan.branch + " from "@ + self.plan.release_tag
                    + ": "@ + error,
            ),
            Stage::Pick => ProgressView::Ongoing(
                ExecutionView {
                    failure: "cherry-pick failed: "@ + error,
                    stage: Stage::Abort,
                    ..self
                },
            ),
            Stage::Abort => ProgressView::Ongoing(self.at(Stage::Leave)),
            Stage::Leave => ProgressView::Ongoing(self.at(Stage::Discard)),
            Stage::Discard => ProgressView::Failed(self.failure),
            Stage::Bump => ProgressView::Ongoing(
                ExecutionView {
                    failure: "version bump to "@ + self.plan.hotfix_version + " failed"@,
                    stage: Stage::Leave,
                    ..self
                },
            ),
            Stage::Add => ProgressView::Failed("git add failed: "@ + error),
            Stage::Commit => ProgressView::Failed("git commit failed: "@ + error),
            Stage::Tag => ProgressView::Failed("git tag failed: "@ + error),
            Stage::PushBranch => ProgressView::Failed(
                "failed to push branch "@ + self.plan.branch + ": "@ + error,
            ),
            Stage::PushTag => ProgressView::Failed(
                "failed to push tag "@ + self.plan.hotfix_tag + ": "@ + error,
            ),
            Stage::Return => ProgressView::Failed(
                "failed to return to "@ + self.original + ": "@ + error,
            ),
        }
    }

    /// Where a stage leads, given what came of it.
    pub open spec fn after(self, reply: action::ReplyView) -> ProgressView {
        match reply {
            Ok(output) => self.succeeded(output),
            Err(error) => self.failed(error),
        }
    }

    /// What is to be said once the stage is over.
    pub open spec fn remarks(self, reply: action::ReplyView) -> Seq<notice::NoticeView> {
        if self.stage == Stage::Pick && reply is Err {
            seq![notice::NoticeView::Conflict(self.sha, self.plan.base)]
        } else if self.stage == Stage::PushTag && reply is Ok && self.plan.registered {
            seq![notice::NoticeView::Pipeline(self.plan.branch, self.plan.hotfix_version)]
        } else {
            Seq::empty()
        }
    }
}

/// The start of a plan's execution.
pub open spec fn begun(plan: plan::PlanView, sha: Seq<char>) -> ExecutionView {
    ExecutionView {
        plan,
        sha,
        original: Seq::empty(),
        failure: Seq::empty(),
        stage: Stage::FindHead,
    }
}

/// Execute one plan: branch off the release tag, cherry-pick, bump the version, commit, tag,
/// and optionally push. This is the start; [`Execution::advance`] takes each step.
pub fn execute_one(plan: HotfixPlan, options: &HotfixOptions) -> (r: Execution)
    ensures
        r@ == begun(plan@, options@.sha),
{
    Execution {
        plan,
        sha: options.sha.clone(),
        original: String::new(),
        failure: String::new(),
        stage: Stage::FindHead,
    }
}

impl Execution {
    /// What to do now.
    pub fn action(&self) -> (r: Action)
        ensures
            r@ == self@.action(),
    {
        let plan = &self.plan;
        let r = match self.stage {
            Stage::FindHead => Action::Capture(owned(&["rev-parse", "--abbrev-ref", "HEAD"])),
            Stage::Branch => {
                let commit = plan.release_tag.clone().concat("^{}");
                Action::Run(owned(&["checkout", "-b", plan.branch.as_str(), commit.as_str()]))
            },
            Stage::Pick => Action::Quiet(owned(&["cherry-pick", "-x", self.sha.as_str()])),
            Stage::Abort => Action::Quiet(owned(&["cherry-pick", "--abort"])),
            Stage::Leave => Action::Run(owned(&["checkout", self.original.as_str()])),
            Stage::Discard => Action::Run(owned(&["branch", "-D", plan.branch.as_str()])),
            Stage::Bump => Action::SetVersion(plan.hotfix_version.clone()),
            Stage::Add => Action::Run(owned(&["add", "-A"])),
            Stage::Commit => {
                let message = "chore: hotfix ".to_owned().concat(plan.hotfix_version.as_str());
                Action::Run(owned(&["commit", "-m", message.as_str()]))
            },
            Stage::Tag => Action::Run(owned(&["tag", plan.hotfix_tag.as_str()])),
            Stage::PushBranch => Action::Run(owned(&["push", "origin", plan.branch.as_str()])),
            Stage::PushTag => Action::Run(owned(&["push", "origin", plan.hotfix_tag.as_str()])),
            Stage::Return => Action::Run(owned(&["checkout", self.original.as_str()])),
        };
        proof {
            match (r@, self@.action()) {
                (action::ActionView::Run(a), action::ActionView::Run(b)) => {
                    assert(a =~= b);
                },
                (action::ActionView::Quiet(a), action::ActionView::Quiet(b)) => {
                    assert(a =~= b);
                },
                (action::ActionView::Capture(a), action::ActionView::Capture(b)) => {
                    assert(a =~= b);
                },
                _ => {},
            }
        }
        r
    }

    /// The execution at another stage.
    fn at(self, stage: Stage) -> (r: Progress)
        ensures
            r@ == ProgressView::Ongoing(self@.at(stage)),
    {
        let Execution { plan, sha, original, failure, stage: _ } = self;
        Progress::Ongoing(Execution { plan, sha, original, failure, stage })
    }

    /// The execution at another stage, on its way back.
    fn undone(self, failure: String, stage: Stage) -> (r: Progress)
        ensures
            r@ == ProgressView::Ongoing(
                ExecutionView { failure: failure@, stage, ..self@ },
            ),
    {
        let Execution { plan, sha, original, failure: _, stage: _ } = self;
        Progress::Ongoing(Execution { plan, sha, original, failure, stage })
    }

    /// Where a stage leads that has succeeded.
    fn on_success(self, output: &str) -> (r: Progress)
        ensures
            r@ == self@.succeeded(output@),
    {
        match self.stage {
            Stage::FindHead => {
                let head = trimmed(output);
                if same(head, "HEAD") {
                    Progress::Failed(
                        "detached HEAD — check out a branch before running a hotfix".to_owned(),
                    )
                } else {
                    let original = head.to_owned();
                    let Execution { plan, sha, original: _, failure, stage: _ } = self;
                    Progress::Ongoing(
                        Execution { plan, sha, original, failure, stage: Stage::Branch },
                    )
                }
            },
            Stage::Branch => self.at(Stage::Pick),
            Stage::Pick => self.at(Stage::Bump),
            Stage::Abort => self.at(Stage::Leave),
            Stage::Leave => self.at(Stage::Discard),
            Stage::Discard => Progress::Failed(self.failure),
            Stage::Bump => self.at(Stage::Add),
            Stage::Add => self.at(Stage::Commit),
            Stage::Commit => self.at(Stage::Tag),
            Stage::Tag => if self.plan.pushed {
                self.at(Stage::PushBranch)
            } else {
                self.at(Stage::Return)
            },
            Stage::PushBranch => self.at(Stage::PushTag),
            Stage::PushTag => self.at(Stage::Return),
            Stage::Return => Progress::Complete,
        }
    }

    /// Where a stage leads that has failed.
    fn on_failure(self, error: &str) -> (r: Progress)
        ensures
            r@ == self@.failed(error@),
    {
        match self.stage {
            Stage::FindHead => Progress::Failed(error.to_owned()),
            Stage::Branch => Progress::Failed(
                "failed to create branch ".to_owned().concat(self.plan.branch.as_str()).concat(
                    " from ",
                ).concat(self.plan.release_tag.as_str()).concat(": ").concat(error),
            ),
            Stage::Pick => self.undone(
                "cherry-pick failed: ".to_owned().concat(error),
                Stage::Abort,
            ),
            Stage::Abort => self.at(Stage::Leave),
            Stage::Leave => self.at(Stage::Discard),
            Stage::Discard => Progress::Failed(self.failure),
            Stage::Bump => {
                let failure = "version bump to ".to_owned().concat(
                    self.plan.hotfix_version.as_str(),
                ).concat(" failed");
                self.undone(failure, Stage::Leave)
            },
            Stage::Add => Progress::Failed("git add failed: ".to_owned().concat(error)),
            Stage::Commit => Progress::Failed("git commit failed: ".to_owned().concat(error)),
            Stage::Tag => Progress::Failed("git tag failed: ".to_owned().concat(error)),
            Stage::PushBranch => Progress::Failed(
                "failed to push branch ".to_owned().concat(self.plan.branch.as_str()).concat(
                    ": ",
                ).concat(error),
            ),
            Stage::PushTag => Progress::Failed(
                "failed to push tag ".to_owned().concat(self.plan.hotfix_tag.as_str()).concat(
                    ": ",
                ).concat(error),
            ),
            Stage::Return => Progress::Failed(
                "failed to return to ".to_owned().concat(self.original.as_str()).concat(
                    ": ",
                ).concat(error),
            ),
        }
    }

    /// What to say, and where the execution is, given what came of its action.
    pub fn advance(self, reply: &Result<String, String>) -> (r: (Progress, Vec<Notice>))
        ensures
            r.0@ == self@.after(action::reply_text(*reply)),
            notice::notices(r.1@) == self@.remarks(action::reply_text(*reply)),
    {
        let mut said: Vec<Notice> = Vec::new();
        if self.stage == Stage::Pick && reply.is_err() {
            said.push(Notice::Conflict(self.sha.clone(), self.plan.base.clone()));
        } else if self.stage == Stage::PushTag && reply.is_ok() && self.plan.registered {
            said.push(
                Notice::Pipeline(self.plan.branch.clone(), self.plan.hotfix_version.clone()),
            );
        }
        assert(notice::notices(said@) =~= self@.remarks(action::reply_text(*reply)));
        let progress = match reply {
            Ok(output) => self.on_success(output.as_str()),
            Err(error) => self.on_failure(error.as_str()),
        };
        (progress, said)
    }
}

} // verus!
