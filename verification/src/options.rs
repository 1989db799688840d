//! The command line of a hotfix run.
use vstd::prelude::*;

use crate::text;
use crate::text::{same, without_prefix};

verus! {

/// Options controlling a hotfix run, parsed from the CLI.
#[derive(Debug)]
pub struct HotfixOptions {
    /// The commit SHA to cherry-pick into each target release.
    pub sha: String,
    /// A single base release to target (e.g. `0.0.27`). Overrides `last_tag`.
    pub tag: Option<String>,
    /// When set, target every release strictly newer than this tag up to the
    /// latest release. Ignored when `tag` is present.
    pub last_tag: Option<String>,
    /// Push branches and tags to `origin`.
    pub push: bool,
    /// Push and print the Azure DevOps pipeline-run instructions.
    pub register: bool,
    /// Dry-run: print the plan without mutating git or the working tree.
    pub dry_run: bool,
}

/// What a [`HotfixOptions`] says.
pub struct OptionsView {
    pub sha: Seq<char>,
    pub tag: Option<Seq<char>>,
    pub last_tag: Option<Seq<char>>,
    pub push: bool,
    pub register: bool,
    pub dry_run: bool,
}

impl View for HotfixOptions {
    type V = OptionsView;

    open spec fn view(&self) -> OptionsView {
        OptionsView {
            sha: self.sha@,
            tag: text::maybe_text(self.tag),
            last_tag: text::maybe_text(self.last_tag),
            push: self.push,
            register: self.register,
            dry_run: self.dry_run,
        }
    }
}

/// What has been read of a command line.
pub struct Given {
    pub tag: Option<Seq<char>>,
    pub push: bool,
    pub register: bool,
    pub dry_run: bool,
    pub positionals: Seq<Seq<char>>,
}

/// Nothing read yet.
pub open spec fn nothing_given() -> Given {
    Given { tag: None, push: false, register: false, dry_run: false, positionals: Seq::empty() }
}

/// Reads the rest of a command line from left to right up to the first word that cannot be
/// read. `--tag` takes the word behind it, whatever that is.
pub open spec fn read_args(args: Seq<Seq<char>>, given: Given) -> Result<Given, Seq<char>>
    decreases args.len(),
{
    if args.len() == 0 {
        Ok(given)
    } else if args[0] == "--tag"@ {
        if args.len() < 2 {
            Err("--tag requires a base version, e.g. --tag 0.0.27"@)
        } else {
            read_args(args.skip(2), Given { tag: Some(args[1]), ..given })
        }
    } else if args[0] == "--push"@ {
        read_args(args.skip(1), Given { push: true, ..given })
    } else if args[0] == "--register"@ {
        read_args(args.skip(1), Given { register: true, ..given })
    } else if args[0] == "--dry-run"@ {
        read_args(args.skip(1), Given { dry_run: true, ..given })
    } else if text::starts_with(args[0], "-"@) {
        Err("unknown option: "@ + args[0])
    } else {
        read_args(args.skip(1), Given { positionals: given.positionals.push(args[0]), ..given })
    }
}

/// The options that a command line gives, or what is wrong with it.
pub open spec fn options_of(args: Seq<Seq<char>>) -> Result<OptionsView, Seq<char>> {
    match read_args(args, nothing_given()) {
        Err(message) => Err(message),
        Ok(given) => if given.positionals.len() == 0 {
            Err("missing <sha> — the commit to cherry-pick"@)
        } else if given.positionals.len() > 2 {
            Err("unexpected extra argument: "@ + given.positionals[2])
        } else if !given.push && !given.register && !given.dry_run {
            Err(
                "use --push, --register, or --dry-run — hotfix would otherwise leave untracked work"@,
            )
        } else {
            Ok(
                OptionsView {
                    sha: given.positionals[0],
                    tag: given.tag,
                    last_tag: if given.positionals.len() == 2 {
                        Some(given.positionals[1])
                    } else {
                        None
                    },
                    push: given.push,
                    register: given.register,
                    dry_run: given.dry_run,
                },
            )
        },
    }
}

/// The word at `i` is the value of the `--tag` in front of it, which is itself no value.
pub open spec fn is_tag_value(args: Seq<Seq<char>>, i: int) -> bool
    decreases i,
{
    i > 0 && args[i - 1] == "--tag"@ && !is_tag_value(args, i - 1)
}

/// `word` stands at `i` and is not the value of a `--tag`.
pub open spec fn stands_at(args: Seq<Seq<char>>, word: Seq<char>, i: int) -> bool {
    0 <= i < args.len() && args[i] == word && !is_tag_value(args, i)
}

/// `word` stands on the command line, not only as the value of a `--tag`.
pub open spec fn stands(args: Seq<Seq<char>>, word: Seq<char>) -> bool {
    exists|i: int| stands_at(args, word, i)
}

/// The word at `i` can be read: it is the value of a `--tag`, an option that is known (a `--tag`
/// with a value behind it), or no option.
pub open spec fn readable(args: Seq<Seq<char>>, i: int) -> bool {
    ||| is_tag_value(args, i)
    ||| args[i] == "--tag"@ && i + 1 < args.len()
    ||| args[i] == "--push"@
    ||| args[i] == "--register"@
    ||| args[i] == "--dry-run"@
    ||| !text::starts_with(args[i], "-"@)
}

/// The words from `k` on that are neither an option nor the value of a `--tag`, in order.
pub open spec fn plain_words(args: Seq<Seq<char>>, k: int) -> Seq<Seq<char>>
    decreases args.len() - k,
{
    if k >= args.len() {
        Seq::empty()
    } else if is_tag_value(args, k) || text::starts_with(args[k], "-"@) {
        plain_words(args, k + 1)
    } else {
        seq![args[k]] + plain_words(args, k + 1)
    }
}

/// `value` stands behind the last `--tag` of the command line.
pub open spec fn last_tag_value(args: Seq<Seq<char>>, value: Seq<char>) -> bool {
    exists|i: int|
        #![trigger stands_at(args, "--tag"@, i)]
        stands_at(args, "--tag"@, i) && i + 1 < args.len() && args[i + 1] == value && forall|j: int|
            i < j ==> !stands_at(args, "--tag"@, j)
}

/// No two options that are known are the same word.
pub proof fn lemma_options_differ()
    ensures
        "--tag"@ != "--push"@,
        "--tag"@ != "--register"@,
        "--tag"@ != "--dry-run"@,
        "--push"@ != "--register"@,
        "--push"@ != "--dry-run"@,
        "--register"@ != "--dry-run"@,
        text::starts_with("--tag"@, "-"@),
        text::starts_with("--push"@, "-"@),
        text::starts_with("--register"@, "-"@),
        text::starts_with("--dry-run"@, "-"@),
{
    reveal_strlit("-");
    reveal_strlit("--tag");
    reveal_strlit("--push");
    reveal_strlit("--register");
    reveal_strlit("--dry-run");
    assert("--tag"@.len() == 5);
    assert("--push"@.len() == 6);
    assert("--register"@.len() == 10);
    assert("--dry-run"@.len() == 9);
    assert("--tag"@.take(1) =~= "-"@);
    assert("--push"@.take(1) =~= "-"@);
    assert("--register"@.take(1) =~= "-"@);
    assert("--dry-run"@.take(1) =~= "-"@);
}

/// The rest of a command line from `k` on holds `word`, not only as the value of a `--tag`.
pub open spec fn stands_from(args: Seq<Seq<char>>, word: Seq<char>, k: int) -> bool {
    exists|i: int| k <= i && stands_at(args, word, i)
}

/// A word stands from `k` on exactly if it stands at `k` or from the next place on.
proof fn lemma_stands_from(args: Seq<Seq<char>>, word: Seq<char>, k: int)
    ensures
        stands_from(args, word, k) <==> stands_at(args, word, k) || stands_from(args, word, k + 1),
{
    if stands_from(args, word, k) {
        let i = choose|i: int| k <= i && stands_at(args, word, i);
        if i > k {
            assert(k + 1 <= i && stands_at(args, word, i));
        }
    }
    if stands_from(args, word, k + 1) {
        let i = choose|i: int| k + 1 <= i && stands_at(args, word, i);
        assert(k <= i && stands_at(args, word, i));
    }
}

/// What is read from the place `k` on, where a word stands that is no value.
pub proof fn lemma_read_from(args: Seq<Seq<char>>, k: int, given: Given)
    requires
        0 <= k <= args.len(),
        !is_tag_value(args, k),
    ensures
        read_args(args.skip(k), given) is Ok <==> forall|i: int|
            k <= i < args.len() ==> #[trigger] readable(args, i),
        read_args(args.skip(k), given) matches Ok(read) ==> {
            &&& read.push <==> given.push || stands_from(args, "--push"@, k)
            &&& read.register <==> given.register || stands_from(args, "--register"@, k)
            &&& read.dry_run <==> given.dry_run || stands_from(args, "--dry-run"@, k)
            &&& read.positionals == given.positionals + plain_words(args, k)
            &&& if stands_from(args, "--tag"@, k) {
                read.tag matches Some(value) && last_tag_value(args, value)
            } else {
                read.tag == given.tag
            }
        },
    decreases args.len() - k,
{
    let rest = args.skip(k);
    let tag = "--tag"@;
    if k == args.len() {
        assert(given.positionals + plain_words(args, k) =~= given.positionals);
    } else {
        let word = args[k];
        assert(rest[0] == word);
        lemma_options_differ();
        lemma_stands_from(args, "--push"@, k);
        lemma_stands_from(args, "--register"@, k);
        lemma_stands_from(args, "--dry-run"@, k);
        lemma_stands_from(args, tag, k);
        if word == tag {
            if k + 1 < args.len() {
                let next = Given { tag: Some(args[k + 1]), ..given };
                assert(rest[1] == args[k + 1]);
                assert(is_tag_value(args, k + 1));
                assert(!is_tag_value(args, k + 2));
                assert(rest.skip(2) =~= args.skip(k + 2));
                lemma_stands_from(args, "--push"@, k + 1);
                lemma_stands_from(args, "--register"@, k + 1);
                lemma_stands_from(args, "--dry-run"@, k + 1);
                lemma_stands_from(args, tag, k + 1);
                lemma_read_from(args, k + 2, next);
                assert(readable(args, k) && readable(args, k + 1));
                assert(plain_words(args, k) == plain_words(args, k + 1));
                assert(plain_words(args, k + 1) == plain_words(args, k + 2));
                assert(stands_at(args, tag, k));
                if !stands_from(args, tag, k + 2) {
                    assert forall|j: int| k < j implies !stands_at(args, tag, j) by {
                        if stands_at(args, tag, j) {
                            assert(k + 2 <= j && stands_at(args, tag, j));
                        }
                    }
                    assert(last_tag_value(args, args[k + 1]));
                }
            } else {
                assert(!readable(args, k));
            }
        } else if text::starts_with(word, "-"@) && word != "--push"@ && word != "--register"@ && word
            != "--dry-run"@ {
            assert(!readable(args, k));
        } else {
            let next = if word == "--push"@ {
                Given { push: true, ..given }
            } else if word == "--register"@ {
                Given { register: true, ..given }
            } else if word == "--dry-run"@ {
                Given { dry_run: true, ..given }
            } else {
                Given { positionals: given.positionals.push(word), ..given }
            };
            assert(rest.skip(1) =~= args.skip(k + 1));
            lemma_read_from(args, k + 1, next);
            assert(readable(args, k));
            assert(next.positionals + plain_words(args, k + 1) =~= given.positionals + plain_words(
                args,
                k,
            ));
        }
    }
}

/// A command line is accepted exactly if each of its words can be read, one or two of them are
/// plain, and it says to push, to register or to only look. The options then say what stands on
/// it, where the value of a `--tag` counts as nothing else: a flag is set exactly if its word
/// stands there; the commit is the first plain word and the last tag the second; and the tag is
/// the value of the last `--tag`.
pub proof fn law_options_say_what_is_given(args: Seq<Seq<char>>)
    ensures
        options_of(args) is Ok <==> {
            &&& forall|i: int| 0 <= i < args.len() ==> #[trigger] readable(args, i)
            &&& 1 <= plain_words(args, 0).len() <= 2
            &&& stands(args, "--push"@) || stands(args, "--register"@) || stands(
                args,
                "--dry-run"@,
            )
        },
        options_of(args) matches Ok(options) ==> {
            &&& options.push <==> stands(args, "--push"@)
            &&& options.register <==> stands(args, "--register"@)
            &&& options.dry_run <==> stands(args, "--dry-run"@)
            &&& options.sha == plain_words(args, 0)[0]
            &&& options.last_tag == if plain_words(args, 0).len() == 2 {
                Some(plain_words(args, 0)[1])
            } else {
                None
            }
            &&& match options.tag {
                Some(value) => last_tag_value(args, value),
                None => !stands(args, "--tag"@),
            }
        },
{
    assert(args.skip(0) =~= args);
    lemma_read_from(args, 0, nothing_given());
    assert forall|word: Seq<char>| #[trigger] stands(args, word) <==> stands_from(
        args,
        word,
        0,
    ) by {
        if stands(args, word) {
            let i = choose|i: int| stands_at(args, word, i);
            assert(0 <= i && stands_at(args, word, i));
        }
    }
    assert(nothing_given().positionals + plain_words(args, 0) =~= plain_words(args, 0));
}

/// Parse the positional and flag arguments into [`HotfixOptions`].
pub fn parse_options(args: &[&str]) -> (r: Result<HotfixOptions, String>)
    ensures
        match r {
            Ok(options) => options_of(text::words(args@)) == Ok::<OptionsView, Seq<char>>(options@),
            Err(message) => options_of(text::words(args@)) == Err::<OptionsView, Seq<char>>(
                message@,
            ),
        },
{
    let mut tag: Option<String> = None;
    let mut push = false;
    let mut register = false;
    let mut dry_run = false;
    let mut positionals: Vec<String> = Vec::new();
    let ghost all = text::words(args@);
    let mut i: usize = 0;
    assert(all.skip(0) =~= all);
    assert(text::texts(positionals@) =~= Seq::empty());
    while i < args.len()
        invariant
            i <= args@.len(),
            all == text::words(args@),
            read_args(all, nothing_given()) == read_args(
                all.skip(i as int),
                Given {
                    tag: text::maybe_text(tag),
                    push,
                    register,
                    dry_run,
                    positionals: text::texts(positionals@),
                },
            ),
        decreases args@.len() - i,
    {
        let arg = args[i];
        let ghost rest = all.skip(i as int);
        assert(rest[0] == arg@);
        assert(rest.skip(1) =~= all.skip(i + 1));
        if same(arg, "--tag") {
            if args.len() - i < 2 {
                return Err("--tag requires a base version, e.g. --tag 0.0.27".to_owned());
            }
            assert(rest[1] == args@[i + 1]@);
            assert(rest.skip(2) =~= all.skip(i + 2));
            tag = Some(args[i + 1].to_owned());
            i = i + 2;
        } else {
            if same(arg, "--push") {
                push = true;
            } else if same(arg, "--register") {
                register = true;
            } else if same(arg, "--dry-run") {
                dry_run = true;
            } else if without_prefix(arg, "-").is_some() {
                return Err("unknown option: ".to_owned().concat(arg));
            } else {
                let ghost kept = positionals@;
                positionals.push(arg.to_owned());
                assert(text::texts(positionals@) =~= text::texts(kept).push(arg@));
            }
            i = i + 1;
        }
    }
    let ghost given = text::texts(positionals@);
    if positionals.len() == 0 {
        return Err("missing <sha> — the commit to cherry-pick".to_owned());
    }
    if positionals.len() > 2 {
        return Err("unexpected extra argument: ".to_owned().concat(positionals[2].as_str()));
    }
    if !push && !register && !dry_run {
        return Err(
            "use --push, --register, or --dry-run — hotfix would otherwise leave untracked work".to_owned(),
        );
    }
    let last_tag = if positionals.len() == 2 {
        Some(positionals[1].clone())
    } else {
        None
    };
    let sha = positionals[0].clone();
    Ok(HotfixOptions { sha, tag, last_tag, push, register, dry_run })
}

/// The hotfix help text.
pub const USAGE: &'static str = "Usage: cargo xtask hotfix <sha> [last-tag] [--tag X.Y.Z] [--push|--register] [--dry-run] [--list]\n\nCherry-pick <sha> into one or more released lines and cut a `-hotfix.N` release.\n\nTargeting (exactly one applies):\n<sha>                    target only the latest release tag\n--tag X.Y.Z              target one specific base release\n<sha> <last-tag>         target every release tag newer than <last-tag>\n\nOptions:\n--push       push the hotfix branch and the vX.Y.Z-hotfix.N tag to origin\n--register   same as --push; prints the Azure DevOps pipeline-run step\n--dry-run    print the plan without touching git or the working tree\n--list       list release and existing hotfix tags, then exit";

/// The hotfix help text.
pub fn usage() -> (r: String)
    ensures
        r@ == USAGE@,
{
    USAGE.to_owned()
}

} // verus!
