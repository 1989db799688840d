//! Which releases a run is to patch, and the plan for each of them.
use vstd::prelude::*;

use crate::action;
use crate::options;
use crate::options::HotfixOptions;
use crate::style;
use crate::style::{bold, cyan};
use crate::tags;
use crate::tags::{latest_release_tag_in, release_tags_since_in, without_v};
use crate::text;
use crate::text::{owned, trimmed};
use crate::version;
use crate::version::HotfixVersion;

verus! {

/// The words behind `git` that list the tags of a repository.
pub open spec fn tag_query() -> Seq<Seq<char>> {
    seq!["tag"@, "-l"@, "v*"@]
}

/// The words behind `git` whose output settles which releases the options target.
pub open spec fn target_query(options: options::OptionsView) -> Seq<Seq<char>> {
    match options.tag {
        Some(base) => seq!["rev-parse"@, "--verify"@, "--quiet"@, "refs/tags/"@ + ("v"@ + base)],
        None => tag_query(),
    }
}

/// The tags of a list, each without its `v`.
pub open spec fn bases_of(list: Seq<Seq<char>>) -> Seq<Seq<char>> {
    list.map_values(|tag: Seq<char>| tags::bare(tag))
}

/// The base releases that the options target, given what the target query printed or why it
/// failed.
pub open spec fn targets(
    options: options::OptionsView,
    reply: action::ReplyView,
) -> Result<Seq<Seq<char>>, Seq<char>> {
    match options.tag {
        Some(base) => match reply {
            Ok(_) => Ok(seq![base]),
            Err(_) => Err("release tag "@ + ("v"@ + base) + " does not exist"@),
        },
        None => match reply {
            Err(message) => Err(message),
            Ok(listing) => match options.last_tag {
                Some(last) => Ok(
                    bases_of(tags::releases_since(tags::listed(listing), Some(last))),
                ),
                None => match tags::last_release(tags::listed(listing)) {
                    Some(tag) => Ok(seq![tags::bare(tag)]),
                    None => Err("no release tags (vX.Y.Z) found"@),
                },
            },
        },
    }
}

/// The texts of a list or of a message.
pub open spec fn list_text(r: Result<Vec<String>, String>) -> Result<Seq<Seq<char>>, Seq<char>> {
    match r {
        Ok(list) => Ok(text::texts(list@)),
        Err(message) => Err(message@),
    }
}

/// The words behind `git` that list the tags of a repository.
pub fn list_tags_args() -> (r: Vec<String>)
    ensures
        text::texts(r@) == tag_query(),
{
    owned(&["tag", "-l", "v*"])
}

/// The words behind `git` whose output settles which releases the options target.
pub fn target_args(options: &HotfixOptions) -> (r: Vec<String>)
    ensures
        text::texts(r@) == target_query(options@),
{
    match &options.tag {
        Some(base) => {
            let tag = "v".to_owned().concat(base.as_str());
            let reference = "refs/tags/".to_owned().concat(tag.as_str());
            let r = owned(&["rev-parse", "--verify", "--quiet", reference.as_str()]);
            assert(text::texts(r@) =~= target_query(options@));
            r
        },
        None => list_tags_args(),
    }
}

/// Resolve the ordered list of base-release versions to hotfix.
pub fn target_bases(options: &HotfixOptions, reply: &Result<String, String>) -> (r: Result<
    Vec<String>,
    String,
>)
    ensures
        list_text(r) == targets(options@, action::reply_text(*reply)),
{
    if let Some(base) = &options.tag {
        return match reply {
            Ok(_) => {
                let mut bases: Vec<String> = Vec::new();
                bases.push(base.clone());
                assert(text::texts(bases@) =~= seq![base@]);
                Ok(bases)
            },
            Err(_) => {
                let tag = "v".to_owned().concat(base.as_str());
                Err("release tag ".to_owned().concat(tag.as_str()).concat(" does not exist"))
            },
        };
    }
    let listing = match reply {
        Ok(listing) => listing,
        Err(message) => return Err(message.clone()),
    };
    match &options.last_tag {
        Some(last) => {
            let found = release_tags_since_in(listing.as_str(), Some(last.as_str()));
            let mut bases: Vec<String> = Vec::new();
            for i in 0..found.len()
                invariant
                    bases@.len() == i,
                    forall|j: int| 0 <= j < i ==> (#[trigger] bases@[j])@ == tags::bare(found@[j]@),
            {
                bases.push(without_v(found[i].as_str()).to_owned());
            }
            assert(text::texts(bases@) =~= bases_of(text::texts(found@)));
            Ok(bases)
        },
        None => match latest_release_tag_in(listing.as_str()) {
            Ok(tag) => {
                let mut bases: Vec<String> = Vec::new();
                bases.push(without_v(tag.as_str()).to_owned());
                assert(text::texts(bases@) =~= seq![tags::bare(tag@)]);
                Ok(bases)
            },
            Err(message) => Err(message),
        },
    }
}

/// A fully-resolved plan for one base release.
#[derive(Debug)]
pub struct HotfixPlan {
    pub base: String,
    pub release_tag: String,
    pub hotfix_version: String,
    pub hotfix_tag: String,
    pub branch: String,
    pub pushed: bool,
    pub registered: bool,
}

/// What a [`HotfixPlan`] says.
pub struct PlanView {
    pub base: Seq<char>,
    pub release_tag: Seq<char>,
    pub hotfix_version: Seq<char>,
    pub hotfix_tag: Seq<char>,
    pub branch: Seq<char>,
    pub pushed: bool,
    pub registered: bool,
}

impl View for HotfixPlan {
    type V = PlanView;

    open spec fn view(&self) -> PlanView {
        PlanView {
            base: self.base@,
            release_tag: self.release_tag@,
            hotfix_version: self.hotfix_version@,
            hotfix_tag: self.hotfix_tag@,
            branch: self.branch@,
            pushed: self.pushed,
            registered: self.registered,
        }
    }
}

/// The branch on which a release is patched.
pub open spec fn branch_of(base: Seq<char>) -> Seq<char> {
    "hotfix/"@ + base
}

/// The words behind `git` that look for the hotfix branch of a release, by its name and by the
/// name that it has as a branch of `origin`, among the local branches.
pub open spec fn branch_query(base: Seq<char>) -> Seq<Seq<char>> {
    seq!["branch"@, "--list"@, branch_of(base), "remotes/origin/"@ + branch_of(base)]
}

/// The plan for the given hotfix of the release `base`.
pub open spec fn plan_for(
    base: Seq<char>,
    next: version::VersionView,
    options: options::OptionsView,
) -> PlanView {
    PlanView {
        base,
        release_tag: "v"@ + base,
        hotfix_version: version::version_text(next),
        hotfix_tag: "v"@ + version::version_text(next),
        branch: branch_of(base),
        pushed: options.push || options.register,
        registered: options.register,
    }
}

/// The plan for one release, or why there is none: outside a dry run its hotfix branch must
/// not exist, so the branch query must have printed nothing.
pub open spec fn planned(
    base: Seq<char>,
    next: version::VersionView,
    options: options::OptionsView,
    branches: Seq<char>,
) -> Result<PlanView, Seq<char>> {
    if !options.dry_run && text::trim(branches).len() > 0 {
        Err(
            "hotfix branch '"@ + branch_of(base)
                + "' already exists; resolve/merge it before cutting another hotfix on "@ + base,
        )
    } else {
        Ok(plan_for(base, next, options))
    }
}

/// What a plan or a message says.
pub open spec fn plan_text(r: Result<HotfixPlan, String>) -> Result<PlanView, Seq<char>> {
    match r {
        Ok(plan) => Ok(plan@),
        Err(message) => Err(message@),
    }
}

/// The words behind `git` that look for the hotfix branch of a release among the local branches.
pub fn branch_args(base: &str) -> (r: Vec<String>)
    ensures
        text::texts(r@) == branch_query(base@),
{
    let branch = "hotfix/".to_owned().concat(base);
    let remote = "remotes/origin/".to_owned().concat(branch.as_str());
    let r = owned(&["branch", "--list", branch.as_str(), remote.as_str()]);
    assert(text::texts(r@) =~= branch_query(base@));
    r
}

/// Resolve the plan for a single base release without mutating anything.
pub fn plan_one(
    base: &str,
    next: &HotfixVersion,
    options: &HotfixOptions,
    branches: &str,
) -> (r: Result<HotfixPlan, String>)
    ensures
        plan_text(r) == planned(base@, next@, options@, branches@),
{
    let branch = "hotfix/".to_owned().concat(base);
    if !options.dry_run && trimmed(branches).unicode_len() > 0 {
        let mut message = "hotfix branch '".to_owned();
        message.append(branch.as_str());
        message.append("' already exists; resolve/merge it before cutting another hotfix on ");
        message.append(base);
        return Err(message);
    }
    let hotfix_version = next.to_string();
    Ok(
        HotfixPlan {
            base: base.to_owned(),
            release_tag: "v".to_owned().concat(base),
            hotfix_tag: "v".to_owned().concat(hotfix_version.as_str()),
            hotfix_version,
            branch,
            pushed: options.push || options.register,
            registered: options.register,
        },
    )
}

/// One line about a plan, from its parts as they are to appear.
pub open spec fn line_of(
    base: Seq<char>,
    version: Seq<char>,
    branch: Seq<char>,
    tag: Seq<char>,
    pushed: bool,
    registered: bool,
) -> Seq<char> {
    base + " -> "@ + version + " on "@ + branch + " (tag "@ + tag + (if pushed {
        ", pushed to origin"@
    } else {
        ""@
    }) + (if registered {
        ", pipeline register"@
    } else {
        ""@
    }) + ")"@
}

/// The line about a plan, with colors on or off for its base, version, branch and tag.
pub open spec fn plan_line(plan: PlanView, colors: (bool, bool, bool, bool)) -> Seq<char> {
    line_of(
        style::styled(plan.base, "\u{1b}[1m"@, colors.0),
        style::styled(plan.hotfix_version, "\u{1b}[36m"@, colors.1),
        style::styled(plan.branch, "\u{1b}[1m"@, colors.2),
        style::styled(plan.hotfix_tag, "\u{1b}[36m"@, colors.3),
        plan.pushed,
        plan.registered,
    )
}

/// One line about a plan, from its parts as they are to appear.
pub fn compose_line(
    base: &str,
    version: &str,
    branch: &str,
    tag: &str,
    pushed: bool,
    registered: bool,
) -> (r: String)
    ensures
        r@ == line_of(base@, version@, branch@, tag@, pushed, registered),
{
    let mut r = base.to_owned();
    r.append(" -> ");
    r.append(version);
    r.append(" on ");
    r.append(branch);
    r.append(" (tag ");
    r.append(tag);
    r.append(
        if pushed {
            ", pushed to origin"
        } else {
            ""
        },
    );
    r.append(
        if registered {
            ", pipeline register"
        } else {
            ""
        },
    );
    r.append(")");
    r
}

impl HotfixPlan {
    /// Render a plan as a single dry-run line.
    pub fn display(&self) -> (r: String)
        ensures
            exists|colors: (bool, bool, bool, bool)| r@ == #[trigger] plan_line(self@, colors),
    {
        let base = bold(self.base.as_str());
        let version = cyan(self.hotfix_version.as_str());
        let branch = bold(self.branch.as_str());
        let tag = cyan(self.hotfix_tag.as_str());
        let r = compose_line(
            base.as_str(),
            version.as_str(),
            branch.as_str(),
            tag.as_str(),
            self.pushed,
            self.registered,
        );
        proof {
            let c0 = choose|c: bool| base@ == #[trigger] style::styled(self.base@, "\u{1b}[1m"@, c);
            let c1 = choose|c: bool|
                version@ == #[trigger] style::styled(self.hotfix_version@, "\u{1b}[36m"@, c);
            let c2 = choose|c: bool|
                branch@ == #[trigger] style::styled(self.branch@, "\u{1b}[1m"@, c);
            let c3 = choose|c: bool|
                tag@ == #[trigger] style::styled(self.hotfix_tag@, "\u{1b}[36m"@, c);
            assert(r@ == plan_line(self@, (c0, c1, c2, c3)));
        }
        r
    }
}

} // verus!
