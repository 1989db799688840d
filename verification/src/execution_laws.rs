//! What holds of every execution of a plan.
use vstd::prelude::*;

use crate::action;
use crate::execution;
use crate::execution::Stage;
use crate::notice;
use crate::plan;
use crate::text;

verus! {

/// Where an execution is after the given replies to its actions, one after another.
pub open spec fn carried(
    e: execution::ExecutionView,
    replies: Seq<action::ReplyView>,
) -> execution::ProgressView
    decreases replies.len(),
{
    if replies.len() == 0 {
        execution::ProgressView::Ongoing(e)
    } else {
        match e.after(replies[0]) {
            execution::ProgressView::Ongoing(next) => carried(next, replies.skip(1)),
            over => over,
        }
    }
}

/// The actions that are answered by the given replies, up to the end of the execution.
pub open spec fn performed(
    e: execution::ExecutionView,
    replies: Seq<action::ReplyView>,
) -> Seq<action::ActionView>
    decreases replies.len(),
{
    if replies.len() == 0 {
        Seq::empty()
    } else {
        match e.after(replies[0]) {
            execution::ProgressView::Ongoing(next) => seq![e.action()] + performed(
                next,
                replies.skip(1),
            ),
            _ => seq![e.action()],
        }
    }
}

/// What a hotfix takes: learn the branch, branch off the release, cherry-pick, set the version,
/// commit, tag, push branch and tag if that is planned, and return to the branch.
pub open spec fn script(
    plan: plan::PlanView,
    sha: Seq<char>,
    original: Seq<char>,
) -> Seq<action::ActionView> {
    seq![
        action::ActionView::Capture(seq!["rev-parse"@, "--abbrev-ref"@, "HEAD"@]),
        action::ActionView::Run(
            seq!["checkout"@, "-b"@, plan.branch, plan.release_tag + "^{}"@],
        ),
        action::ActionView::Quiet(seq!["cherry-pick"@, "-x"@, sha]),
        action::ActionView::SetVersion(plan.hotfix_version),
        action::ActionView::Run(seq!["add"@, "-A"@]),
        action::ActionView::Run(seq!["commit"@, "-m"@, "chore: hotfix "@ + plan.hotfix_version]),
        action::ActionView::Run(seq!["tag"@, plan.hotfix_tag]),
    ] + (if plan.pushed {
        seq![
            action::ActionView::Run(seq!["push"@, "origin"@, plan.branch]),
            action::ActionView::Run(seq!["push"@, "origin"@, plan.hotfix_tag]),
        ]
    } else {
        Seq::empty()
    }) + seq![action::ActionView::Run(seq!["checkout"@, original])]
}

/// The index in the script of what a stage does; of the stages on the way back there is none.
pub open spec fn place_in_script(e: execution::ExecutionView) -> Option<int> {
    match e.stage {
        Stage::FindHead => Some(0),
        Stage::Branch => Some(1),
        Stage::Pick => Some(2),
        Stage::Bump => Some(3),
        Stage::Add => Some(4),
        Stage::Commit => Some(5),
        Stage::Tag => Some(6),
        Stage::PushBranch => if e.plan.pushed {
            Some(7)
        } else {
            None
        },
        Stage::PushTag => if e.plan.pushed {
            Some(8)
        } else {
            None
        },
        Stage::Return => if e.plan.pushed {
            Some(9)
        } else {
            Some(7)
        },
        _ => None,
    }
}

/// The first `n` replies are all good.
pub open spec fn all_good(replies: Seq<action::ReplyView>, n: int) -> bool {
    n <= replies.len() && forall|i: int| 0 <= i < n ==> (#[trigger] replies[i]) is Ok
}

/// On the way back an execution does not complete.
proof fn lemma_way_back(e: execution::ExecutionView, replies: Seq<action::ReplyView>)
    requires
        e.stage == Stage::Abort || e.stage == Stage::Leave || e.stage == Stage::Discard,
    ensures
        !(carried(e, replies) is Complete),
    decreases replies.len(),
{
    if replies.len() > 0 {
        if let execution::ProgressView::Ongoing(next) = e.after(replies[0]) {
            lemma_way_back(next, replies.skip(1));
        }
    }
}

/// From any place behind the first, an execution completes exactly if the rest of the script
/// succeeds, and then the rest of the script is what it does.
proof fn lemma_rest_of_script(e: execution::ExecutionView, replies: Seq<action::ReplyView>)
    requires
        place_in_script(e) is Some,
        e.stage != Stage::FindHead,
    ensures
        ({
            let rest = script(e.plan, e.sha, e.original).skip(place_in_script(e)->0);
            &&& carried(e, replies) is Complete <==> all_good(replies, rest.len() as int)
            &&& carried(e, replies) is Complete ==> performed(e, replies) == rest
        }),
    decreases replies.len(),
{
    let whole = script(e.plan, e.sha, e.original);
    let at = place_in_script(e)->0;
    let rest = whole.skip(at);
    assert(rest[0] == whole[at]);
    assert(e.action() == whole[at]);
    if replies.len() > 0 {
        if replies[0] is Err {
            if let execution::ProgressView::Ongoing(next) = e.after(replies[0]) {
                lemma_way_back(next, replies.skip(1));
            }
        } else {
            match e.after(replies[0]) {
                execution::ProgressView::Ongoing(next) => {
                    let tail = replies.skip(1);
                    lemma_rest_of_script(next, tail);
                    assert(place_in_script(next) == Some(at + 1));
                    assert(whole.skip(at + 1) =~= rest.skip(1));
                    assert(rest =~= seq![whole[at]] + whole.skip(at + 1));
                    assert(all_good(replies, rest.len() as int) <==> all_good(tail, rest.len() - 1)) by {
                        if all_good(replies, rest.len() as int) {
                            assert forall|i: int| 0 <= i < rest.len() - 1 implies (
                            #[trigger] tail[i]) is Ok by {
                                assert(tail[i] == replies[i + 1]);
                            }
                        }
                        if all_good(tail, rest.len() - 1) {
                            assert forall|i: int| 0 <= i < rest.len() implies (
                            #[trigger] replies[i]) is Ok by {
                                if i > 0 {
                                    assert(tail[i - 1] == replies[i]);
                                }
                            }
                        }
                    }
                },
                _ => {
                    assert(e.stage == Stage::Return);
                    assert(rest =~= seq![whole[at]]);
                },
            }
        }
    }
}

/// A plan's execution completes exactly if a branch is checked out and every step of the
/// script succeeds, and then the script is what it does, in order and nothing else.
pub proof fn law_completion(
    plan: plan::PlanView,
    sha: Seq<char>,
    replies: Seq<action::ReplyView>,
)
    requires
        replies.len() > 0,
    ensures
        ({
            let e = execution::begun(plan, sha);
            let head = text::trim(replies[0]->Ok_0);
            let whole = script(plan, sha, head);
            &&& carried(e, replies) is Complete <==> all_good(replies, whole.len() as int)
                && head != "HEAD"@
            &&& carried(e, replies) is Complete ==> performed(e, replies) == whole
        }),
{
    let e = execution::begun(plan, sha);
    let head = text::trim(replies[0]->Ok_0);
    let whole = script(plan, sha, head);
    if replies[0] is Ok && head != "HEAD"@ {
        let next = e.after(replies[0])->Ongoing_0;
        let tail = replies.skip(1);
        lemma_rest_of_script(next, tail);
        assert(whole =~= seq![whole[0]] + whole.skip(1));
        assert(all_good(replies, whole.len() as int) <==> all_good(tail, whole.len() - 1)) by {
            if all_good(replies, whole.len() as int) {
                assert forall|i: int| 0 <= i < whole.len() - 1 implies (#[trigger] tail[i]) is Ok by {
                    assert(tail[i] == replies[i + 1]);
                }
            }
            if all_good(tail, whole.len() - 1) {
                assert forall|i: int| 0 <= i < whole.len() implies (#[trigger] replies[i]) is Ok by {
                    if i > 0 {
                        assert(tail[i - 1] == replies[i]);
                    }
                }
            }
        }
    } else if replies[0] is Err {
        assert(!all_good(replies, whole.len() as int));
    }
}

/// A commit that does not apply is given up: the cherry-pick is aborted, the branch that was
/// checked out is gone back to, the hotfix branch is deleted, and the execution fails with the
/// reason, whatever comes of these steps.
pub proof fn law_conflict_is_given_up(
    e: execution::ExecutionView,
    error: Seq<char>,
    abort: action::ReplyView,
    leave: action::ReplyView,
    discard: action::ReplyView,
)
    requires
        e.stage == Stage::Pick,
    ensures
        ({
            let replies = seq![Err(error), abort, leave, discard];
            &&& carried(e, replies) == execution::ProgressView::Failed(
                "cherry-pick failed: "@ + error,
            )
            &&& performed(e, replies) == seq![
                action::ActionView::Quiet(seq!["cherry-pick"@, "-x"@, e.sha]),
                action::ActionView::Quiet(seq!["cherry-pick"@, "--abort"@]),
                action::ActionView::Run(seq!["checkout"@, e.original]),
                action::ActionView::Run(seq!["branch"@, "-D"@, e.plan.branch]),
            ]
        }),
{
    let replies = seq![Err(error), abort, leave, discard];
    let e1 = e.after(Err(error))->Ongoing_0;
    assert(e1.stage == Stage::Abort);
    assert(replies.skip(1) =~= seq![abort, leave, discard]);
    lemma_given_up(e1, abort, leave, discard);
    assert(performed(e, replies) =~= seq![e.action()] + performed(e1, seq![abort, leave, discard]));
}

proof fn lemma_given_up(
    e: execution::ExecutionView,
    abort: action::ReplyView,
    leave: action::ReplyView,
    discard: action::ReplyView,
)
    requires
        e.stage == Stage::Abort,
    ensures
        carried(e, seq![abort, leave, discard]) == execution::ProgressView::Failed(e.failure),
        performed(e, seq![abort, leave, discard]) == seq![
            action::ActionView::Quiet(seq!["cherry-pick"@, "--abort"@]),
            action::ActionView::Run(seq!["checkout"@, e.original]),
            action::ActionView::Run(seq!["branch"@, "-D"@, e.plan.branch]),
        ],
{
    let replies = seq![abort, leave, discard];
    assert(replies.skip(1) =~= seq![leave, discard]);
    lemma_restored(e.at(Stage::Leave), leave, discard);
    assert(performed(e, replies) =~= seq![e.action()] + performed(
        e.at(Stage::Leave),
        seq![leave, discard],
    ));
}

proof fn lemma_restored(
    e: execution::ExecutionView,
    leave: action::ReplyView,
    discard: action::ReplyView,
)
    requires
        e.stage == Stage::Leave,
    ensures
        carried(e, seq![leave, discard]) == execution::ProgressView::Failed(e.failure),
        performed(e, seq![leave, discard]) == seq![
            action::ActionView::Run(seq!["checkout"@, e.original]),
            action::ActionView::Run(seq!["branch"@, "-D"@, e.plan.branch]),
        ],
{
    let e1 = e.at(Stage::Discard);
    let replies = seq![leave, discard];
    assert(replies.skip(1) =~= seq![discard]);
    assert(carried(e1, seq![discard]) == execution::ProgressView::Failed(e.failure));
    assert(performed(e1, seq![discard]) =~= seq![e1.action()]);
    assert(performed(e, replies) =~= seq![e.action()] + performed(e1, seq![discard]));
}

/// If the version cannot be set, the branch that was checked out is gone back to, the hotfix
/// branch is deleted, and the execution fails, whatever comes of these steps.
pub proof fn law_failed_bump_is_undone(
    e: execution::ExecutionView,
    error: Seq<char>,
    leave: action::ReplyView,
    discard: action::ReplyView,
)
    requires
        e.stage == Stage::Bump,
    ensures
        ({
            let replies = seq![Err(error), leave, discard];
            &&& carried(e, replies) == execution::ProgressView::Failed(
                "version bump to "@ + e.plan.hotfix_version + " failed"@,
            )
            &&& performed(e, replies) == seq![
                action::ActionView::SetVersion(e.plan.hotfix_version),
                action::ActionView::Run(seq!["checkout"@, e.original]),
                action::ActionView::Run(seq!["branch"@, "-D"@, e.plan.branch]),
            ]
        }),
{
    let replies = seq![Err(error), leave, discard];
    let e1 = e.after(Err(error))->Ongoing_0;
    assert(replies.skip(1) =~= seq![leave, discard]);
    lemma_restored(e1, leave, discard);
    assert(performed(e, replies) =~= seq![e.action()] + performed(e1, seq![leave, discard]));
}

/// The words of an action that runs `git`.
pub open spec fn git_words(a: action::ActionView) -> Option<Seq<Seq<char>>> {
    match a {
        action::ActionView::Capture(args) => Some(args),
        action::ActionView::Run(args) => Some(args),
        action::ActionView::Quiet(args) => Some(args),
        _ => None,
    }
}

/// Nothing is ever done about a cherry-pick but to start it and to abort it: a conflict is not
/// resolved.
pub proof fn law_conflicts_are_not_resolved(e: execution::ExecutionView)
    ensures
        git_words(e.action()) matches Some(args) ==> args[0] == "cherry-pick"@ ==> {
            ||| args == seq!["cherry-pick"@, "-x"@, e.sha]
            ||| args == seq!["cherry-pick"@, "--abort"@]
        },
{
    reveal_strlit("cherry-pick");
    reveal_strlit("rev-parse");
    reveal_strlit("checkout");
    reveal_strlit("branch");
    reveal_strlit("add");
    reveal_strlit("commit");
    reveal_strlit("tag");
    reveal_strlit("push");
    assert("cherry-pick"@.len() == 11);
    assert("rev-parse"@.len() == 9 && "checkout"@.len() == 8 && "branch"@.len() == 6);
    assert("add"@.len() == 3 && "commit"@.len() == 6 && "tag"@.len() == 3 && "push"@.len() == 4);
}

/// The action changes something on `origin`.
pub open spec fn moves_remote(a: action::ActionView) -> bool {
    match git_words(a) {
        Some(args) => args.len() > 0 && args[0] == "push"@,
        None => false,
    }
}

/// No other command of a run is called as `push` is.
pub proof fn lemma_words()
    ensures
        "push"@ != "rev-parse"@,
        "push"@ != "status"@,
        "push"@ != "tag"@,
        "push"@ != "branch"@,
        "push"@ != "fetch"@,
        "push"@ != "checkout"@,
        "push"@ != "cherry-pick"@,
        "push"@ != "add"@,
        "push"@ != "commit"@,
{
    reveal_strlit("push");
    reveal_strlit("rev-parse");
    reveal_strlit("status");
    reveal_strlit("tag");
    reveal_strlit("branch");
    reveal_strlit("fetch");
    reveal_strlit("checkout");
    reveal_strlit("cherry-pick");
    reveal_strlit("add");
    reveal_strlit("commit");
    assert("push"@.len() == 4);
    assert("rev-parse"@.len() == 9 && "status"@.len() == 6 && "tag"@.len() == 3);
    assert("branch"@.len() == 6 && "fetch"@.len() == 5 && "checkout"@.len() == 8);
    assert("cherry-pick"@.len() == 11 && "add"@.len() == 3 && "commit"@.len() == 6);
}

/// One reply more takes an execution one step further, if it is not over.
pub proof fn lemma_one_more(e: execution::ExecutionView, replies: Seq<action::ReplyView>)
    requires
        replies.len() > 0,
    ensures
        ({
            let init = replies.drop_last();
            match carried(e, init) {
                execution::ProgressView::Ongoing(x) => carried(e, replies) == x.after(
                    replies.last(),
                ) && performed(e, replies) == performed(e, init).push(x.action()),
                over => carried(e, replies) == over && performed(e, replies) == performed(e, init),
            }
        }),
    decreases replies.len(),
{
    let init = replies.drop_last();
    if replies.len() == 1 {
        assert(init =~= Seq::empty());
        if let execution::ProgressView::Ongoing(next) = e.after(replies[0]) {
            assert(carried(next, replies.skip(1)) == execution::ProgressView::Ongoing(next));
            assert(performed(next, replies.skip(1)) =~= Seq::empty());
        }
        assert(performed(e, replies) =~= performed(e, init).push(e.action()));
    } else {
        assert(init[0] == replies[0]);
        if let execution::ProgressView::Ongoing(next) = e.after(replies[0]) {
            let tail = replies.skip(1);
            lemma_one_more(next, tail);
            assert(tail.drop_last() =~= init.skip(1));
            assert(tail.last() == replies.last());
            if let execution::ProgressView::Ongoing(x) = carried(e, init) {
                assert(performed(e, replies) =~= performed(e, init).push(x.action()));
            }
        }
    }
}

/// An execution is at a place of the script only if all that stands before it in the script is
/// what was done, and has succeeded.
proof fn lemma_place_is_earned(
    plan: plan::PlanView,
    sha: Seq<char>,
    replies: Seq<action::ReplyView>,
)
    ensures
        carried(execution::begun(plan, sha), replies) matches execution::ProgressView::Ongoing(e)
            ==> {
            &&& e.plan == plan
            &&& e.sha == sha
            &&& e.stage == Stage::PushBranch || e.stage == Stage::PushTag ==> plan.pushed
            &&& place_in_script(e) matches Some(k) ==> {
                &&& k == replies.len()
                &&& all_good(replies, k)
                &&& k > 0 ==> e.original == text::trim(replies[0]->Ok_0)
                &&& performed(execution::begun(plan, sha), replies) == script(
                    plan,
                    sha,
                    e.original,
                ).take(k)
            }
        },
    decreases replies.len(),
{
    let start = execution::begun(plan, sha);
    if replies.len() > 0 {
        let init = replies.drop_last();
        lemma_place_is_earned(plan, sha, init);
        lemma_one_more(start, replies);
        if let execution::ProgressView::Ongoing(e) = carried(start, replies) {
            let x = carried(start, init)->Ongoing_0;
            if let Some(k) = place_in_script(e) {
                let whole = script(plan, sha, e.original);
                assert(place_in_script(x) == Some(k - 1));
                assert(replies.last() is Ok);
                assert forall|i: int| 0 <= i < k implies (#[trigger] replies[i]) is Ok by {
                    if i < k - 1 {
                        assert(init[i] == replies[i]);
                    }
                }
                if k > 1 {
                    assert(init[0] == replies[0]);
                } else {
                    assert(performed(start, init) =~= whole.take(0));
                }
                assert(whole[k - 1] == x.action());
                assert(whole.take(k) =~= whole.take(k - 1).push(whole[k - 1]));
            }
        }
    } else {
        assert(performed(start, replies) =~= script(plan, sha, start.original).take(0));
    }
}

/// A push is run only if the plan says so, and only when the branch, the cherry-pick, the
/// version, the commit and the tag are done: what was done before it is what the script puts
/// before it, and all of that has succeeded.
pub proof fn law_push_comes_after_the_tag(
    plan: plan::PlanView,
    sha: Seq<char>,
    replies: Seq<action::ReplyView>,
)
    ensures
        carried(execution::begun(plan, sha), replies) matches execution::ProgressView::Ongoing(e)
            ==> moves_remote(e.action()) ==> {
            let whole = script(plan, sha, text::trim(replies[0]->Ok_0));
            let n = replies.len() as int;
            &&& plan.pushed
            &&& 7 <= n <= 8
            &&& all_good(replies, n)
            &&& performed(execution::begun(plan, sha), replies) == whole.take(n)
            &&& e.action() == whole[n]
        },
{
    lemma_place_is_earned(plan, sha, replies);
    lemma_words();
}

/// What each stage does, in words.
pub proof fn law_steps_in_words(e: execution::ExecutionView)
    ensures
        e.action() == match e.stage {
            Stage::FindHead => action::ActionView::Capture(
                seq!["rev-parse"@, "--abbrev-ref"@, "HEAD"@],
            ),
            Stage::Branch => action::ActionView::Run(
                seq!["checkout"@, "-b"@, e.plan.branch, e.plan.release_tag + "^{}"@],
            ),
            Stage::Pick => action::ActionView::Quiet(seq!["cherry-pick"@, "-x"@, e.sha]),
            Stage::Bump => action::ActionView::SetVersion(e.plan.hotfix_version),
            Stage::Add => action::ActionView::Run(seq!["add"@, "-A"@]),
            Stage::Commit => action::ActionView::Run(
                seq!["commit"@, "-m"@, "chore: hotfix "@ + e.plan.hotfix_version],
            ),
            Stage::Tag => action::ActionView::Run(seq!["tag"@, e.plan.hotfix_tag]),
            Stage::PushBranch => action::ActionView::Run(seq!["push"@, "origin"@, e.plan.branch]),
            Stage::PushTag => action::ActionView::Run(seq!["push"@, "origin"@, e.plan.hotfix_tag]),
            Stage::Return => action::ActionView::Run(seq!["checkout"@, e.original]),
            Stage::Abort => action::ActionView::Quiet(seq!["cherry-pick"@, "--abort"@]),
            Stage::Leave => action::ActionView::Run(seq!["checkout"@, e.original]),
            Stage::Discard => action::ActionView::Run(seq!["branch"@, "-D"@, e.plan.branch]),
        },
{
}

/// An execution that starts, and the branch that it learns of and does not forget: nothing but
/// the stage, the branch to return to and the reason of a failure ever changes, and the branch
/// only at the start.
pub proof fn law_execution_keeps_its_plan(
    plan: plan::PlanView,
    sha: Seq<char>,
    e: execution::ExecutionView,
    reply: action::ReplyView,
)
    ensures
        execution::begun(plan, sha).plan == plan,
        execution::begun(plan, sha).sha == sha,
        execution::begun(plan, sha).stage == Stage::FindHead,
        e.after(reply) matches execution::ProgressView::Ongoing(next) ==> {
            &&& next.plan == e.plan
            &&& next.sha == e.sha
            &&& e.stage != Stage::FindHead ==> next.original == e.original
            &&& e.stage == Stage::FindHead ==> next.original == text::trim(reply->Ok_0)
        },
{
}

/// The stages in their order: from each that succeeds the next follows, the pushes only if they
/// are planned; a detached head is refused; and behind the way back there is the return from the
/// hotfix branch, its deletion and the failure.
pub proof fn law_stages_follow(e: execution::ExecutionView, output: Seq<char>)
    ensures
        e.stage == Stage::FindHead ==> if text::trim(output) == "HEAD"@ {
            e.after(Ok(output)) == execution::ProgressView::Failed(
                "detached HEAD — check out a branch before running a hotfix"@,
            )
        } else {
            e.after(Ok(output)) matches execution::ProgressView::Ongoing(x) && x.stage
                == Stage::Branch && x.failure == e.failure
        },
        e.stage == Stage::Return ==> e.after(Ok(output)) == execution::ProgressView::Complete,
        e.stage == Stage::Discard ==> e.after(Ok(output)) == execution::ProgressView::Failed(
            e.failure,
        ),
        e.stage != Stage::FindHead && e.stage != Stage::Return && e.stage != Stage::Discard
            ==> e.after(Ok(output)) == execution::ProgressView::Ongoing(
            execution::ExecutionView {
                stage: match e.stage {
                    Stage::Branch => Stage::Pick,
                    Stage::Pick => Stage::Bump,
                    Stage::Bump => Stage::Add,
                    Stage::Add => Stage::Commit,
                    Stage::Commit => Stage::Tag,
                    Stage::Tag => if e.plan.pushed {
                        Stage::PushBranch
                    } else {
                        Stage::Return
                    },
                    Stage::PushBranch => Stage::PushTag,
                    Stage::PushTag => Stage::Return,
                    Stage::Abort => Stage::Leave,
                    _ => Stage::Discard,
                },
                ..e
            },
        ),
{
}

/// A stage that fails ends the execution with a message that says which it was, but for the
/// cherry-pick, which is aborted, and for the version, after which the branch is left; on the way
/// back a failure changes nothing.
pub proof fn law_failures_in_words(e: execution::ExecutionView, error: Seq<char>)
    ensures
        e.after(Err(error)) == match e.stage {
            Stage::FindHead => execution::ProgressView::Failed(error),
            Stage::Branch => execution::ProgressView::Failed(
                "failed to create branch "@ + e.plan.branch + " from "@ + e.plan.release_tag + ": "@
                    + error,
            ),
            Stage::Pick => execution::ProgressView::Ongoing(
                execution::ExecutionView {
                    stage: Stage::Abort,
                    failure: "cherry-pick failed: "@ + error,
                    ..e
                },
            ),
            Stage::Bump => execution::ProgressView::Ongoing(
                execution::ExecutionView {
                    stage: Stage::Leave,
                    failure: "version bump to "@ + e.plan.hotfix_version + " failed"@,
                    ..e
                },
            ),
            Stage::Add => execution::ProgressView::Failed("git add failed: "@ + error),
            Stage::Commit => execution::ProgressView::Failed("git commit failed: "@ + error),
            Stage::Tag => execution::ProgressView::Failed("git tag failed: "@ + error),
            Stage::PushBranch => execution::ProgressView::Failed(
                "failed to push branch "@ + e.plan.branch + ": "@ + error,
            ),
            Stage::PushTag => execution::ProgressView::Failed(
                "failed to push tag "@ + e.plan.hotfix_tag + ": "@ + error,
            ),
            Stage::Return => execution::ProgressView::Failed(
                "failed to return to "@ + e.original + ": "@ + error,
            ),
            Stage::Abort => execution::ProgressView::Ongoing(
                execution::ExecutionView { stage: Stage::Leave, ..e },
            ),
            Stage::Leave => execution::ProgressView::Ongoing(
                execution::ExecutionView { stage: Stage::Discard, ..e },
            ),
            Stage::Discard => execution::ProgressView::Failed(e.failure),
        },
{
}

/// An execution speaks of a commit that does not apply, naming the commit and the release, and,
/// once the tag is pushed of a plan that is registered, of the pipeline; of nothing else.
pub proof fn law_remarks(e: execution::ExecutionView, reply: action::ReplyView)
    ensures
        e.remarks(reply) == if e.stage == Stage::Pick && reply is Err {
            seq![notice::NoticeView::Conflict(e.sha, e.plan.base)]
        } else if e.stage == Stage::PushTag && reply is Ok && e.plan.registered {
            seq![notice::NoticeView::Pipeline(e.plan.branch, e.plan.hotfix_version)]
        } else {
            Seq::<notice::NoticeView>::empty()
        },
{
}

/// What is done to cut a hotfix, in words: an execution that completes has learned the branch,
/// has branched off the release tag of the plan, has cherry-picked the commit, has set the
/// version, has committed and tagged, has pushed the branch and the tag if the plan says so, and
/// has gone back to the branch; in this order and nothing else.
pub proof fn law_completion_in_words(
    plan: plan::PlanView,
    sha: Seq<char>,
    replies: Seq<action::ReplyView>,
)
    ensures
        carried(execution::begun(plan, sha), replies) is Complete ==> {
            let done = performed(execution::begun(plan, sha), replies);
            &&& done.len() == if plan.pushed {
                10int
            } else {
                8
            }
            &&& done[0] == action::ActionView::Capture(
                seq!["rev-parse"@, "--abbrev-ref"@, "HEAD"@],
            )
            &&& done[1] == action::ActionView::Run(
                seq!["checkout"@, "-b"@, plan.branch, plan.release_tag + "^{}"@],
            )
            &&& done[2] == action::ActionView::Quiet(seq!["cherry-pick"@, "-x"@, sha])
            &&& done[3] == action::ActionView::SetVersion(plan.hotfix_version)
            &&& done[4] == action::ActionView::Run(seq!["add"@, "-A"@])
            &&& done[5] == action::ActionView::Run(
                seq!["commit"@, "-m"@, "chore: hotfix "@ + plan.hotfix_version],
            )
            &&& done[6] == action::ActionView::Run(seq!["tag"@, plan.hotfix_tag])
            &&& plan.pushed ==> done[7] == action::ActionView::Run(
                seq!["push"@, "origin"@, plan.branch],
            ) && done[8] == action::ActionView::Run(seq!["push"@, "origin"@, plan.hotfix_tag])
            &&& done.last() == action::ActionView::Run(
                seq!["checkout"@, text::trim(replies[0]->Ok_0)],
            )
        },
{
    if replies.len() > 0 {
        law_completion(plan, sha, replies);
    }
}

} // verus!
