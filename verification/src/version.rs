//! Release versions `X.Y.Z` and hotfix versions `X.Y.Z-hotfix.<N>`.
use vstd::prelude::*;

use crate::number;
use crate::number::{parse_number, show_number};
use crate::text;
use crate::text::{mentions, part_at, pieces, without_prefix};

verus! {

/// What a hotfix version says: the release it patches and its number, which starts at
/// one.
pub struct VersionView {
    pub base: (u64, u64, u64),
    pub number: u64,
}

/// The numbers of a release version: three of them with a dot between any two.
pub open spec fn release_version(s: Seq<char>) -> Option<(u64, u64, u64)> {
    let parts = text::split(s, '.');
    if parts.len() != 3 {
        None
    } else {
        match (
            number::number(parts[0]),
            number::number(parts[1]),
            number::number(parts[2]),
        ) {
            (Some(major), Some(minor), Some(patch)) => Some((major, minor, patch)),
            _ => None,
        }
    }
}

/// The hotfix version that `s` spells: a release version, `-hotfix.` and a number from
/// one on.
pub open spec fn hotfix_version(s: Seq<char>) -> Option<VersionView> {
    match text::split_once(s, "-hotfix."@) {
        Some((release, digits)) => match (
            release_version(release),
            number::number(digits),
        ) {
            (Some(base), Some(number)) => if number > 0 {
                Some(VersionView { base, number })
            } else {
                None
            },
            _ => None,
        },
        None => None,
    }
}

/// How a release version is written.
pub open spec fn release_text(base: (u64, u64, u64)) -> Seq<char> {
    number::decimal(base.0 as nat) + "."@ + number::decimal(base.1 as nat) + "."@
        + number::decimal(base.2 as nat)
}

/// How a hotfix version is written.
pub open spec fn version_text(v: VersionView) -> Seq<char> {
    release_text(v.base) + "-hotfix."@ + number::decimal(v.number as nat)
}

/// `tag` is `v` and a release version.
pub open spec fn is_release_tag(tag: Seq<char>) -> bool {
    match text::strip_prefix(tag, "v"@) {
        Some(version) => !text::contains(version, "-hotfix."@) && release_version(
            version,
        ) is Some,
        None => false,
    }
}

/// `tag` is `v` and a hotfix version.
pub open spec fn is_hotfix_tag(tag: Seq<char>) -> bool {
    match text::strip_prefix(tag, "v"@) {
        Some(version) => hotfix_version(version) is Some,
        None => false,
    }
}

/// The characters that a spelled number is made of.
pub proof fn lemma_number_chars(s: Seq<char>, c: char)
    requires
        number::number(s) is Some,
        s.contains(c),
    ensures
        number::is_digit(c) || c == '+',
{
    let i = choose|i: int| 0 <= i < s.len() && s[i] == c;
    if s[0] == '+' {
        if i > 0 {
            assert(number::is_digit(number::unsigned(s)[i - 1]));
        }
    } else {
        assert(number::is_digit(number::unsigned(s)[i]));
    }
}

/// The characters that a spelled release version is made of.
pub proof fn lemma_release_chars(s: Seq<char>, c: char)
    requires
        release_version(s) is Some,
        s.contains(c),
    ensures
        number::is_digit(c) || c == '+' || c == '.',
{
    let parts = text::split(s, '.');
    let dot = seq!['.'];
    text::law_pieces_make_the_whole(s, '.');
    let two = parts.drop_last();
    let one = two.drop_last();
    assert(one.len() == 1 && one[0] == parts[0]);
    assert(text::join(one, dot) == parts[0]);
    assert(text::join(two, dot) == parts[0] + dot + parts[1]);
    assert(s == parts[0] + dot + parts[1] + dot + parts[2]);
    let i = choose|i: int| 0 <= i < s.len() && s[i] == c;
    let n0 = parts[0].len();
    let n1 = parts[1].len();
    if i < n0 {
        assert(parts[0][i] == c);
        lemma_number_chars(parts[0], c);
    } else if n0 < i < n0 + 1 + n1 {
        assert(parts[1][i - n0 - 1] == c);
        lemma_number_chars(parts[1], c);
    } else if n0 + 1 + n1 < i {
        assert(parts[2][i - n0 - n1 - 2] == c);
        lemma_number_chars(parts[2], c);
    }
}

/// A release version, `-hotfix.` and a number from one on make a hotfix version, whose
/// parts are those.
pub proof fn law_hotfix_version_of_parts(release: Seq<char>, digits: Seq<char>)
    requires
        release_version(release) is Some,
        number::number(digits) is Some,
        number::number(digits)->0 > 0,
    ensures
        hotfix_version(release + "-hotfix."@ + digits) == Some(
            VersionView {
                base: release_version(release)->0,
                number: number::number(digits)->0,
            },
        ),
{
    reveal_strlit("-hotfix.");
    if release.contains('-') {
        lemma_release_chars(release, '-');
    }
    text::lemma_split_once_joint(release, "-hotfix."@, digits);
}

/// Every hotfix version is a release version, `-hotfix.` and a number from one on.
pub proof fn law_parts_of_hotfix_version(s: Seq<char>)
    requires
        hotfix_version(s) is Some,
    ensures
        exists|release: Seq<char>, digits: Seq<char>|
            s == #[trigger] (release + "-hotfix."@ + digits) && release_version(release) == Some(
                hotfix_version(s)->0.base,
            ) && number::number(digits) == Some(hotfix_version(s)->0.number),
        hotfix_version(s)->0.number > 0,
{
    let pat = "-hotfix."@;
    text::lemma_find_iff_contains(s, pat);
    let i = text::find(s, pat, 0)->0;
    assert(s =~= s.take(i) + pat + s.skip(i + pat.len())) by {
        assert(s.subrange(i, i + pat.len()) == pat);
    }
}

/// A release version is read back as the release that was written.
pub proof fn law_release_text_parses(base: (u64, u64, u64))
    ensures
        release_version(release_text(base)) == Some(base),
{
    reveal_strlit(".");
    let a = number::decimal(base.0 as nat);
    let b = number::decimal(base.1 as nat);
    let c = number::decimal(base.2 as nat);
    number::law_number_of_decimal(base.0);
    number::law_number_of_decimal(base.1);
    number::law_number_of_decimal(base.2);
    assert(!a.contains('.') && !b.contains('.') && !c.contains('.')) by {
        if a.contains('.') {
            lemma_number_chars(a, '.');
        }
        if b.contains('.') {
            lemma_number_chars(b, '.');
        }
        if c.contains('.') {
            lemma_number_chars(c, '.');
        }
    }
    text::lemma_split_whole(a, '.');
    text::lemma_split_whole(b, '.');
    text::lemma_split_whole(c, '.');
    text::lemma_split_joint(b, '.', c);
    text::lemma_split_joint(a, '.', b.push('.') + c);
    assert(release_text(base) =~= a.push('.') + (b.push('.') + c));
    assert(text::split(release_text(base), '.') =~= seq![a, b, c]);
}

/// A hotfix version is read back as the version that was written.
pub proof fn law_version_text_parses(v: VersionView)
    requires
        v.number > 0,
    ensures
        hotfix_version(version_text(v)) == Some(v),
{
    law_release_text_parses(v.base);
    number::law_number_of_decimal(v.number);
    law_hotfix_version_of_parts(release_text(v.base), number::decimal(v.number as nat));
}

/// No tag is both a release tag and a hotfix tag.
pub proof fn law_tag_kinds_are_disjoint(tag: Seq<char>)
    ensures
        !(is_release_tag(tag) && is_hotfix_tag(tag)),
{
    if is_hotfix_tag(tag) {
        text::lemma_find_iff_contains(text::strip_prefix(tag, "v"@)->0, "-hotfix."@);
    }
}

/// `v` before a release version makes a release tag.
pub proof fn law_release_tag_of_version(version: Seq<char>)
    requires
        release_version(version) is Some,
    ensures
        is_release_tag("v"@ + version),
{
    reveal_strlit("v");
    reveal_strlit("-hotfix.");
    let tag = "v"@ + version;
    assert(tag.take(1) =~= "v"@);
    assert(tag.skip(1) =~= version);
    assert forall|i: int| !text::occurs_at(version, "-hotfix."@, i) by {
        if text::occurs_at(version, "-hotfix."@, i) {
            assert(version.subrange(i, i + "-hotfix."@.len())[0] == version[i]);
            lemma_release_chars(version, '-');
        }
    }
}

/// `v` before a hotfix version makes a hotfix tag.
pub proof fn law_hotfix_tag_of_version(version: Seq<char>)
    requires
        hotfix_version(version) is Some,
    ensures
        is_hotfix_tag("v"@ + version),
{
    reveal_strlit("v");
    let tag = "v"@ + version;
    assert(tag.take(1) =~= "v"@);
    assert(tag.skip(1) =~= version);
}

/// A parsed `X.Y.Z-hotfix.<N>` release version.
#[derive(Clone, Copy, Debug, PartialEq, Eq)]
pub struct HotfixVersion {
    /// The base release, e.g. `0`, `0`, `27` for `0.0.27`.
    base: (u64, u64, u64),
    /// Zero-based hotfix number, e.g. `0` for `-hotfix.1`.
    num: u64,
}

impl View for HotfixVersion {
    type V = VersionView;

    closed spec fn view(&self) -> VersionView {
        VersionView { base: self.base, number: (self.num + 1) as u64 }
    }
}

impl HotfixVersion {
    /// One more than the stored number fits in a `u64`.
    #[verifier::type_invariant]
    spec fn well_formed(&self) -> bool {
        self.num < u64::MAX
    }

    /// The hotfix with the given number on the given release.
    pub fn new(base: (u64, u64, u64), number: u64) -> (v: Self)
        requires
            number > 0,
        ensures
            v@ == (VersionView { base, number }),
    {
        HotfixVersion { base, num: number - 1 }
    }

    /// Parse `X.Y.Z-hotfix.<N>` where `N >= 1`.
    pub fn parse(input: &str) -> (r: Option<Self>)
        ensures
            match r {
                Some(v) => hotfix_version(input@) == Some(v@),
                None => hotfix_version(input@) is None,
            },
    {
        proof {
            reveal_strlit("-hotfix.");
        }
        let (base, hotfix) = match part_at(input, "-hotfix.") {
            Some(sides) => sides,
            None => return None,
        };
        match (release_numbers(base), parse_number(hotfix)) {
            (Some(numbers), Some(number)) => if number == 0 {
                None
            } else {
                Some(HotfixVersion::new(numbers, number))
            },
            _ => None,
        }
    }

    /// The base release version as a string, e.g. `0.0.27`.
    pub fn base(&self) -> (r: String)
        ensures
            r@ == release_text(self@.base),
    {
        let mut r = show_number(self.base.0);
        r.append(".");
        r.append(show_number(self.base.1).as_str());
        r.append(".");
        r.append(show_number(self.base.2).as_str());
        r
    }

    /// The whole version as a string, e.g. `0.0.27-hotfix.1`.
    pub fn to_string(&self) -> (r: String)
        ensures
            r@ == version_text(self@),
    {
        let mut r = self.base();
        r.append("-hotfix.");
        r.append(show_number(self.number()).as_str());
        r
    }

    /// The numbers of the base release.
    pub fn release(&self) -> (r: (u64, u64, u64))
        ensures
            r == self@.base,
    {
        self.base
    }

    /// The hotfix number, which starts at one.
    pub fn number(&self) -> (r: u64)
        ensures
            r == self@.number,
            r > 0,
    {
        proof {
            use_type_invariant(self);
        }
        self.num + 1
    }

    /// The hotfix that follows this one on the same release.
    pub fn next(&self) -> (v: Self)
        requires
            self@.number < u64::MAX,
        ensures
            v@ == (VersionView { base: self@.base, number: (self@.number + 1) as u64 }),
    {
        proof {
            use_type_invariant(self);
        }
        HotfixVersion { base: self.base, num: self.num + 1 }
    }
}

/// The three numbers of a release version.
fn release_numbers(version: &str) -> (r: Option<(u64, u64, u64)>)
    ensures
        r == release_version(version@),
{
    let parts = pieces(version, '.');
    if parts.len() != 3 {
        return None;
    }
    match (parse_number(parts[0]), parse_number(parts[1]), parse_number(parts[2])) {
        (Some(major), Some(minor), Some(patch)) => Some((major, minor, patch)),
        _ => None,
    }
}

/// Validate a git tag as a hotfix tag, e.g. `v0.0.27-hotfix.1`.
pub fn is_valid_hotfix_tag(tag: &str) -> (r: bool)
    ensures
        r == is_hotfix_tag(tag@),
{
    match without_prefix(tag, "v") {
        Some(version) => HotfixVersion::parse(version).is_some(),
        None => false,
    }
}

/// Validate a git tag as a plain release tag, e.g. `v0.0.27` (no hotfix).
pub fn is_valid_release_tag(tag: &str) -> (r: bool)
    ensures
        r == is_release_tag(tag@),
{
    proof {
        reveal_strlit("-hotfix.");
    }
    match without_prefix(tag, "v") {
        Some(version) => !mentions(version, "-hotfix.") && release_numbers(version).is_some(),
        None => false,
    }
}

/// Why a text is not a base version, or the three numbers of the one that it is.
pub open spec fn base_version(base: Seq<char>) -> Result<(u64, u64, u64), Seq<char>> {
    match release_version(base) {
        Some(numbers) => Ok(numbers),
        None => if text::split(base, '.').len() != 3 {
            Err("not a base version: "@ + base)
        } else {
            Err("invalid base version: "@ + base)
        },
    }
}

/// Parse `X.Y.Z` into a `(major, minor, patch)` tuple.
pub fn parse_base(base: &str) -> (r: Result<(u64, u64, u64), String>)
    ensures
        match r {
            Ok(numbers) => base_version(base@) == Ok::<(u64, u64, u64), Seq<char>>(numbers),
            Err(message) => base_version(base@) == Err::<(u64, u64, u64), Seq<char>>(message@),
        },
{
    match release_numbers(base) {
        Some(numbers) => Ok(numbers),
        None => {
            let parts = pieces(base, '.');
            if parts.len() != 3 {
                Err("not a base version: ".to_owned().concat(base))
            } else {
                Err("invalid base version: ".to_owned().concat(base))
            }
        },
    }
}

} // verus!
