//! What holds of every command line.
use vstd::prelude::*;

use crate::options;
use crate::text;

verus! {

/// A word begins with a hyphen exactly if a hyphen is its first character.
proof fn lemma_hyphen(word: Seq<char>)
    ensures
        text::starts_with(word, "-"@) <==> word.len() > 0 && word[0] == '-',
{
    reveal_strlit("-");
    if word.len() > 0 {
        assert(word.take(1)[0] == word[0]);
        if word[0] == '-' {
            assert(word.take(1) =~= "-"@);
        }
    }
}

/// The first word is the value of no `--tag`, and any other word is one exactly if the word in
/// front of it is `--tag` and is itself no value.
pub proof fn law_tag_values(args: Seq<Seq<char>>, i: int)
    requires
        0 <= i,
    ensures
        !options::is_tag_value(args, 0),
        options::is_tag_value(args, i + 1) <==> args[i] == "--tag"@ && !options::is_tag_value(
            args,
            i,
        ),
{
}

/// A flag is set exactly if its word stands on the line other than as the value of a `--tag`; and
/// the tag is the word behind the last `--tag` that is itself no value.
pub proof fn law_flags(args: Seq<Seq<char>>)
    ensures
        options::options_of(args) matches Ok(o) ==> {
            &&& o.push <==> exists|i: int|
                0 <= i < args.len() && #[trigger] args[i] == "--push"@ && !options::is_tag_value(
                    args,
                    i,
                )
            &&& o.register <==> exists|i: int|
                0 <= i < args.len() && #[trigger] args[i] == "--register"@
                    && !options::is_tag_value(args, i)
            &&& o.dry_run <==> exists|i: int|
                0 <= i < args.len() && #[trigger] args[i] == "--dry-run"@ && !options::is_tag_value(
                    args,
                    i,
                )
            &&& o.push || o.register || o.dry_run
            &&& o.tag is Some <==> exists|i: int|
                0 <= i < args.len() && #[trigger] args[i] == "--tag"@ && !options::is_tag_value(
                    args,
                    i,
                )
        },
{
    options::law_options_say_what_is_given(args);
    if let Ok(o) = options::options_of(args) {
        lemma_stands(args, "--push"@);
        lemma_stands(args, "--register"@);
        lemma_stands(args, "--dry-run"@);
        lemma_stands(args, "--tag"@);
        if let Some(value) = o.tag {
            let i = choose|i: int|
                #![trigger options::stands_at(args, "--tag"@, i)]
                options::stands_at(args, "--tag"@, i) && i + 1 < args.len() && args[i + 1] == value;
            assert(options::stands(args, "--tag"@));
        }
    }
}

proof fn lemma_stands(args: Seq<Seq<char>>, word: Seq<char>)
    ensures
        options::stands(args, word) <==> exists|i: int|
            0 <= i < args.len() && #[trigger] args[i] == word && !options::is_tag_value(args, i),
{
    if options::stands(args, word) {
        let i = choose|i: int| options::stands_at(args, word, i);
        assert(args[i] == word);
    }
    if exists|i: int|
        0 <= i < args.len() && #[trigger] args[i] == word && !options::is_tag_value(args, i) {
        let i = choose|i: int|
            0 <= i < args.len() && #[trigger] args[i] == word && !options::is_tag_value(args, i);
        assert(options::stands_at(args, word, i));
    }
}

/// The value of the last `--tag` is the tag.
pub proof fn law_last_tag_wins(args: Seq<Seq<char>>, i: int)
    requires
        0 <= i,
        i + 1 < args.len(),
        args[i] == "--tag"@,
        !options::is_tag_value(args, i),
        forall|j: int|
            i < j < args.len() && #[trigger] args[j] == "--tag"@ ==> options::is_tag_value(args, j),
    ensures
        options::options_of(args) matches Ok(o) ==> o.tag == Some(args[i + 1]),
{
    options::law_options_say_what_is_given(args);
    assert(options::stands_at(args, "--tag"@, i));
    if let Ok(o) = options::options_of(args) {
        assert(options::stands(args, "--tag"@));
        let value = o.tag->0;
        let k = choose|k: int|
            #![trigger options::stands_at(args, "--tag"@, k)]
            options::stands_at(args, "--tag"@, k) && k + 1 < args.len() && args[k + 1] == value
                && forall|j: int| k < j ==> !options::stands_at(args, "--tag"@, j);
        if k > i {
            assert(args[k] == "--tag"@);
        }
    }
}

/// The word at `i` is plain: neither the value of a `--tag` nor one that begins with a hyphen.
spec fn plain(args: Seq<Seq<char>>, i: int) -> bool {
    !options::is_tag_value(args, i) && !text::starts_with(args[i], "-"@)
}

/// Where there is no plain word, none is found, and one that is plain is found in its turn.
proof fn lemma_plain_words(args: Seq<Seq<char>>, k: int, i: int)
    requires
        0 <= k <= i <= args.len(),
        forall|j: int| k <= j < i ==> !plain(args, j),
    ensures
        options::plain_words(args, k) == options::plain_words(args, i),
        i < args.len() && plain(args, i) ==> options::plain_words(args, k) == seq![args[i]]
            + options::plain_words(args, i + 1),
    decreases i - k,
{
    if k < i {
        assert(!plain(args, k));
        lemma_plain_words(args, k + 1, i);
    }
}

/// The commit is the first plain word, and the last tag the second: a word is plain if it is not
/// the value of a `--tag` and does not begin with a hyphen.
pub proof fn law_positionals(args: Seq<Seq<char>>, i: int)
    requires
        0 <= i < args.len(),
        !options::is_tag_value(args, i),
        args[i].len() == 0 || args[i][0] != '-',
        forall|j: int|
            0 <= j < i ==> options::is_tag_value(args, j) || ((#[trigger] args[j]).len() > 0
                && args[j][0] == '-'),
    ensures
        options::options_of(args) matches Ok(o) ==> {
            &&& o.sha == args[i]
            &&& o.last_tag is None <==> forall|j: int|
                i < j < args.len() ==> options::is_tag_value(args, j) || ((
                #[trigger] args[j]).len() > 0 && args[j][0] == '-')
            &&& o.last_tag matches Some(last) ==> exists|j: int|
                i < j < args.len() && #[trigger] args[j] == last && !options::is_tag_value(args, j)
                    && (args[j].len() == 0 || args[j][0] != '-')
        },
{
    options::law_options_say_what_is_given(args);
    assert forall|j: int| 0 <= j < args.len() implies plain(args, j) == (!options::is_tag_value(
        args,
        j,
    ) && (args[j].len() == 0 || args[j][0] != '-')) by {
        lemma_hyphen(args[j]);
    }
    assert forall|j: int| 0 <= j < i implies !plain(args, j) by {
        assert(options::is_tag_value(args, j) || (args[j].len() > 0 && args[j][0] == '-'));
    }
    lemma_plain_words(args, 0, i);
    if let Ok(o) = options::options_of(args) {
        if exists|j: int| i < j < args.len() && plain(args, j) {
            let j = lemma_first_plain(args, i + 1);
            lemma_plain_words(args, i + 1, j);
            assert(args[j] == o.last_tag->0);
        } else {
            lemma_plain_words(args, i + 1, args.len() as int);
            assert forall|j: int| i < j < args.len() implies options::is_tag_value(args, j) || ((
            #[trigger] args[j]).len() > 0 && args[j][0] == '-') by {
                assert(!plain(args, j));
            }
        }
    }
}

proof fn lemma_first_plain(args: Seq<Seq<char>>, k: int) -> (i: int)
    requires
        0 <= k,
        exists|j: int| k <= j < args.len() && plain(args, j),
    ensures
        k <= i < args.len(),
        plain(args, i),
        forall|j: int| k <= j < i ==> !plain(args, j),
    decreases args.len() - k,
{
    if plain(args, k) {
        k
    } else {
        lemma_first_plain(args, k + 1)
    }
}

/// What is read up to a word that cannot be read.
proof fn lemma_unreadable(args: Seq<Seq<char>>, k: int, given: options::Given, i: int)
    requires
        0 <= k <= i < args.len(),
        !options::is_tag_value(args, k),
        forall|j: int| k <= j < i ==> #[trigger] options::readable(args, j),
        !options::readable(args, i),
    ensures
        options::read_args(args.skip(k), given) == Err::<options::Given, Seq<char>>(
            if args[i] == "--tag"@ {
                "--tag requires a base version, e.g. --tag 0.0.27"@
            } else {
                "unknown option: "@ + args[i]
            },
        ),
    decreases i - k,
{
    let rest = args.skip(k);
    assert(rest[0] == args[k]);
    if k < i {
        assert(options::readable(args, k));
        if args[k] == "--tag"@ {
            assert(options::is_tag_value(args, k + 1));
            assert(options::readable(args, k + 1));
            assert(k + 2 <= i);
            assert(rest[1] == args[k + 1]);
            assert(rest.skip(2) =~= args.skip(k + 2));
            lemma_unreadable(
                args,
                k + 2,
                options::Given { tag: Some(args[k + 1]), ..given },
                i,
            );
        } else {
            let next = if args[k] == "--push"@ {
                options::Given { push: true, ..given }
            } else if args[k] == "--register"@ {
                options::Given { register: true, ..given }
            } else if args[k] == "--dry-run"@ {
                options::Given { dry_run: true, ..given }
            } else {
                options::Given { positionals: given.positionals.push(args[k]), ..given }
            };
            assert(rest.skip(1) =~= args.skip(k + 1));
            lemma_unreadable(args, k + 1, next, i);
        }
    }
}

/// The word at `i` is the first that stands in the way: a `--tag` with nothing behind it, or a
/// word with a hyphen in front that is no option. The line is refused with a message about it.
pub proof fn law_first_wrong_word_is_named(args: Seq<Seq<char>>, i: int)
    requires
        0 <= i < args.len(),
        !options::is_tag_value(args, i),
        args[i] == "--tag"@ && i + 1 == args.len() || args[i] != "--tag"@ && args[i] != "--push"@
            && args[i] != "--register"@ && args[i] != "--dry-run"@ && args[i].len() > 0
            && args[i][0] == '-',
        forall|j: int|
            0 <= j < i ==> options::is_tag_value(args, j) || #[trigger] args[j] == "--tag"@
                || args[j] == "--push"@ || args[j] == "--register"@ || args[j] == "--dry-run"@
                || args[j].len() == 0 || args[j][0] != '-',
    ensures
        options::options_of(args) == Err::<options::OptionsView, Seq<char>>(
            if args[i] == "--tag"@ {
                "--tag requires a base version, e.g. --tag 0.0.27"@
            } else {
                "unknown option: "@ + args[i]
            },
        ),
{
    options::lemma_options_differ();
    lemma_hyphen(args[i]);
    assert forall|j: int| 0 <= j < i implies #[trigger] options::readable(args, j) by {
        lemma_hyphen(args[j]);
        assert(options::is_tag_value(args, j) || args[j] == "--tag"@ || args[j] == "--push"@
            || args[j] == "--register"@ || args[j] == "--dry-run"@ || args[j].len() == 0
            || args[j][0] != '-');
    }
    assert(args.skip(0) =~= args);
    lemma_unreadable(args, 0, options::nothing_given(), i);
}

/// If no word stands in the way, a line is refused for want of a commit, for the third plain
/// word, or because it neither pushes nor registers nor only looks, in this turn; and otherwise
/// it is accepted.
pub proof fn law_other_refusals(args: Seq<Seq<char>>)
    requires
        forall|j: int|
            0 <= j < args.len() ==> options::is_tag_value(args, j) || (#[trigger] args[j]
                == "--tag"@ && j + 1 < args.len()) || args[j] == "--push"@ || args[j]
                == "--register"@ || args[j] == "--dry-run"@ || args[j].len() == 0 || args[j][0]
                != '-',
    ensures
        ({
            let plain = options::plain_words(args, 0);
            let told = exists|i: int|
                0 <= i < args.len() && !options::is_tag_value(args, i) && (#[trigger] args[i]
                    == "--push"@ || args[i] == "--register"@ || args[i] == "--dry-run"@);
            match options::options_of(args) {
                Ok(_) => 1 <= plain.len() <= 2 && told,
                Err(message) => if plain.len() == 0 {
                    message == "missing <sha> — the commit to cherry-pick"@
                } else if plain.len() > 2 {
                    message == "unexpected extra argument: "@ + plain[2]
                } else {
                    !told && message
                        == "use --push, --register, or --dry-run — hotfix would otherwise leave untracked work"@
                },
            }
        }),
{
    options::law_options_say_what_is_given(args);
    lemma_stands(args, "--push"@);
    lemma_stands(args, "--register"@);
    lemma_stands(args, "--dry-run"@);
    assert forall|j: int| 0 <= j < args.len() implies #[trigger] options::readable(args, j) by {
        lemma_hyphen(args[j]);
        assert(options::is_tag_value(args, j) || (args[j] == "--tag"@ && j + 1 < args.len())
            || args[j] == "--push"@ || args[j] == "--register"@ || args[j] == "--dry-run"@
            || args[j].len() == 0 || args[j][0] != '-');
    }
    assert(args.skip(0) =~= args);
    options::lemma_read_from(args, 0, options::nothing_given());
    assert(options::nothing_given().positionals + options::plain_words(args, 0)
        =~= options::plain_words(args, 0));
}

/// The plain words of a line are those that are not the value of a `--tag` and do not begin with
/// a hyphen, one after another.
pub proof fn law_plain_words(args: Seq<Seq<char>>, k: int)
    ensures
        options::plain_words(args, args.len() as int) == Seq::<Seq<char>>::empty(),
        0 <= k < args.len() ==> options::plain_words(args, k) == if !options::is_tag_value(args, k)
            && (args[k].len() == 0 || args[k][0] != '-') {
            seq![args[k]] + options::plain_words(args, k + 1)
        } else {
            options::plain_words(args, k + 1)
        },
{
    if 0 <= k < args.len() {
        lemma_hyphen(args[k]);
    }
}

} // verus!
