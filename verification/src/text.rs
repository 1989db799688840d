//! Operations on text, stated over sequences of characters.
use vstd::prelude::*;

verus! {

/// The texts that a list of strings holds, in order.
pub open spec fn texts(list: Seq<String>) -> Seq<Seq<char>> {
    list.map_values(|s: String| s@)
}

/// The texts that a list of string slices holds, in order.
pub open spec fn words(list: Seq<&str>) -> Seq<Seq<char>> {
    list.map_values(|s: &str| s@)
}

/// The text that an optional string holds.
pub open spec fn maybe_text(s: Option<String>) -> Option<Seq<char>> {
    match s {
        Some(t) => Some(t@),
        None => None,
    }
}

/// The text that an optional string slice holds.
pub open spec fn maybe_word(s: Option<&str>) -> Option<Seq<char>> {
    match s {
        Some(t) => Some(t@),
        None => None,
    }
}

/// `s` begins with `prefix`.
pub open spec fn starts_with(s: Seq<char>, prefix: Seq<char>) -> bool {
    prefix.len() <= s.len() && s.take(prefix.len() as int) == prefix
}

/// What follows `prefix` in `s`, if `s` begins with it.
pub open spec fn strip_prefix(s: Seq<char>, prefix: Seq<char>) -> Option<Seq<char>> {
    if starts_with(s, prefix) {
        Some(s.skip(prefix.len() as int))
    } else {
        None
    }
}

/// `pat` stands in `s` at index `i`.
pub open spec fn occurs_at(s: Seq<char>, pat: Seq<char>, i: int) -> bool {
    0 <= i && i + pat.len() <= s.len() && s.subrange(i, i + pat.len()) == pat
}

/// `pat` stands somewhere in `s`.
pub open spec fn contains(s: Seq<char>, pat: Seq<char>) -> bool {
    exists|i: int| occurs_at(s, pat, i)
}

/// The least index from `from` on at which `pat` stands in `s`.
pub open spec fn find(s: Seq<char>, pat: Seq<char>, from: int) -> Option<int>
    decreases s.len() - from + 1,
{
    if from < 0 || from + pat.len() > s.len() {
        None
    } else if occurs_at(s, pat, from) {
        Some(from)
    } else {
        find(s, pat, from + 1)
    }
}

/// The two sides of the first place where `pat` stands in `s`.
pub open spec fn split_once(s: Seq<char>, pat: Seq<char>) -> Option<(Seq<char>, Seq<char>)> {
    match find(s, pat, 0) {
        Some(i) => Some((s.take(i), s.skip(i + pat.len()))),
        None => None,
    }
}

/// The pieces of `s` between the places where `sep` stands: one more than there are
/// such places.
pub open spec fn split(s: Seq<char>, sep: char) -> Seq<Seq<char>>
    decreases s.len(),
{
    if s.len() == 0 {
        seq![s]
    } else {
        let init = split(s.drop_last(), sep);
        if s.last() == sep {
            init.push(Seq::empty())
        } else {
            init.drop_last().push(init.last().push(s.last()))
        }
    }
}

/// The characters with Unicode's `White_Space` property.
pub open spec fn is_whitespace(c: char) -> bool {
    ||| '\u{9}' <= c <= '\u{d}'
    ||| c == ' '
    ||| c == '\u{85}'
    ||| c == '\u{a0}'
    ||| c == '\u{1680}'
    ||| '\u{2000}' <= c <= '\u{200a}'
    ||| c == '\u{2028}'
    ||| c == '\u{2029}'
    ||| c == '\u{202f}'
    ||| c == '\u{205f}'
    ||| c == '\u{3000}'
}

/// `s` without the white space at its start.
pub open spec fn trim_start(s: Seq<char>) -> Seq<char>
    decreases s.len(),
{
    if s.len() > 0 && is_whitespace(s[0]) {
        trim_start(s.skip(1))
    } else {
        s
    }
}

/// `s` without the white space at its end.
pub open spec fn trim_end(s: Seq<char>) -> Seq<char>
    decreases s.len(),
{
    if s.len() > 0 && is_whitespace(s.last()) {
        trim_end(s.drop_last())
    } else {
        s
    }
}

/// `s` without the white space at either end.
pub open spec fn trim(s: Seq<char>) -> Seq<char> {
    trim_end(trim_start(s))
}

/// `a` and `b` agree before index `i`, and `a` ends there or holds the smaller
/// character.
pub open spec fn parts_below(a: Seq<char>, b: Seq<char>, i: int) -> bool {
    &&& 0 <= i <= a.len()
    &&& i < b.len()
    &&& a.take(i) == b.take(i)
    &&& i < a.len() ==> a[i] < b[i]
}

/// `a` stands before `b` in the order of a dictionary, character by character.
pub open spec fn text_less(a: Seq<char>, b: Seq<char>) -> bool {
    exists|i: int| parts_below(a, b, i)
}

/// The texts of `list` one after another, with `sep` between any two.
pub open spec fn join(list: Seq<Seq<char>>, sep: Seq<char>) -> Seq<char>
    decreases list.len(),
{
    if list.len() == 0 {
        Seq::empty()
    } else if list.len() == 1 {
        list[0]
    } else {
        join(list.drop_last(), sep) + sep + list.last()
    }
}

/// A text without `sep` is its own only piece.
pub proof fn lemma_split_whole(s: Seq<char>, sep: char)
    requires
        !s.contains(sep),
    ensures
        split(s, sep) == seq![s],
    decreases s.len(),
{
    if s.len() > 0 {
        assert(s.contains(s.last()));
        assert forall|c: char| #[trigger] s.drop_last().contains(c) implies s.contains(c) by {
            let i = choose|i: int| 0 <= i < s.drop_last().len() && s.drop_last()[i] == c;
            assert(s[i] == c);
        }
        lemma_split_whole(s.drop_last(), sep);
        assert(s.drop_last().push(s.last()) =~= s);
        assert(split(s, sep) =~= seq![s]);
    }
}

/// The pieces of two texts with `sep` between them are those of the one and then those
/// of the other.
pub proof fn lemma_split_joint(a: Seq<char>, sep: char, b: Seq<char>)
    ensures
        split(a.push(sep) + b, sep) == split(a, sep) + split(b, sep),
        split(b, sep).len() > 0,
    decreases b.len(),
{
    let s = a.push(sep) + b;
    if b.len() == 0 {
        assert(s.drop_last() =~= a);
        assert(b =~= Seq::empty());
        assert(split(s, sep) =~= split(a, sep) + split(b, sep));
    } else {
        lemma_split_joint(a, sep, b.drop_last());
        assert(s.drop_last() =~= a.push(sep) + b.drop_last());
        assert(split(s, sep) =~= split(a, sep) + split(b, sep));
    }
}

/// The pieces of a text, put together again with `sep` between any two, are that text.
pub proof fn law_pieces_make_the_whole(s: Seq<char>, sep: char)
    ensures
        split(s, sep).len() > 0,
        join(split(s, sep), seq![sep]) == s,
    decreases s.len(),
{
    let all = split(s, sep);
    if s.len() > 0 {
        let init = split(s.drop_last(), sep);
        law_pieces_make_the_whole(s.drop_last(), sep);
        if s.last() == sep {
            assert(all.drop_last() =~= init);
            assert(join(all, seq![sep]) =~= s);
        } else {
            assert(all.drop_last() =~= init.drop_last());
            assert(s =~= s.drop_last().push(s.last()));
            if init.len() == 1 {
                assert(join(all, seq![sep]) == init[0].push(s.last()));
            } else {
                let front = join(init.drop_last(), seq![sep]) + seq![sep];
                assert(join(init, seq![sep]) == front + init.last());
                assert(join(all, seq![sep]) == front + init.last().push(s.last()));
                assert(front + init.last().push(s.last()) =~= (front + init.last()).push(s.last()));
            }
        }
    }
}

/// The first place of `pat` behind a text that does not hold the first character of
/// `pat` is right behind that text.
pub proof fn lemma_split_once_joint(a: Seq<char>, pat: Seq<char>, b: Seq<char>)
    requires
        pat.len() > 0,
        !a.contains(pat[0]),
    ensures
        split_once(a + pat + b, pat) == Some((a, b)),
{
    let s = a + pat + b;
    assert(s.subrange(a.len() as int, (a.len() + pat.len()) as int) =~= pat);
    assert forall|j: int| 0 <= j < a.len() implies !occurs_at(s, pat, j) by {
        if occurs_at(s, pat, j) {
            assert(s.subrange(j, j + pat.len())[0] == s[j]);
            assert(a.contains(a[j]));
        }
    }
    lemma_find_skips(s, pat, 0, a.len() as int);
    assert(s.take(a.len() as int) =~= a);
    assert(s.skip((a.len() + pat.len()) as int) =~= b);
}

/// Places where `pat` does not stand can be passed over in the search for it.
proof fn lemma_find_skips(s: Seq<char>, pat: Seq<char>, from: int, to: int)
    requires
        0 <= from <= to,
        to + pat.len() <= s.len(),
        forall|j: int| from <= j < to ==> !occurs_at(s, pat, j),
    ensures
        find(s, pat, from) == find(s, pat, to),
    decreases to - from,
{
    if from < to {
        lemma_find_skips(s, pat, from + 1, to);
    }
}

/// The search for `pat` finds a place exactly if there is one.
pub proof fn lemma_find_iff_contains(s: Seq<char>, pat: Seq<char>)
    ensures
        find(s, pat, 0) is Some <==> contains(s, pat),
        find(s, pat, 0) matches Some(i) ==> occurs_at(s, pat, i),
{
    lemma_find_from(s, pat, 0);
}

proof fn lemma_find_from(s: Seq<char>, pat: Seq<char>, from: int)
    requires
        from >= 0,
    ensures
        find(s, pat, from) is Some <==> exists|i: int| i >= from && occurs_at(s, pat, i),
        find(s, pat, from) matches Some(i) ==> occurs_at(s, pat, i),
    decreases s.len() - from + 1,
{
    if from + pat.len() <= s.len() && !occurs_at(s, pat, from) {
        lemma_find_from(s, pat, from + 1);
    }
}

/// The characters of a string.
pub fn chars_of(s: &str) -> (r: Vec<char>)
    ensures
        r@ == s@,
{
    let mut r: Vec<char> = Vec::new();
    for c in it: s.chars()
        invariant
            r@ == s@.take(it.index() as int),
            it.seq() == s@,
    {
        r.push(c);
    }
    r
}

/// Owned copies of the given words.
pub fn owned(list: &[&str]) -> (r: Vec<String>)
    ensures
        texts(r@) == words(list@),
{
    let mut r: Vec<String> = Vec::new();
    for i in 0..list.len()
        invariant
            r@.len() == i,
            forall|j: int| 0 <= j < i ==> (#[trigger] r@[j])@ == list@[j]@,
    {
        r.push(list[i].to_owned());
    }
    assert(texts(r@) =~= words(list@));
    r
}

/// The two strings hold the same text.
pub fn same(a: &str, b: &str) -> (r: bool)
    ensures
        r == (a@ == b@),
{
    let x = chars_of(a);
    let y = chars_of(b);
    if x.len() != y.len() {
        return false;
    }
    for i in 0..x.len()
        invariant
            x@ == a@,
            y@ == b@,
            x@.len() == y@.len(),
            forall|j: int| 0 <= j < i ==> x@[j] == y@[j],
    {
        if x[i] != y[i] {
            return false;
        }
    }
    assert(a@ =~= b@);
    true
}

/// Whether `pat` stands in `s` at index `i`.
fn stands_at(s: &Vec<char>, pat: &Vec<char>, i: usize) -> (r: bool)
    requires
        i + pat@.len() <= s@.len(),
    ensures
        r == occurs_at(s@, pat@, i as int),
{
    for k in 0..pat.len()
        invariant
            i + pat.len() <= s.len(),
            forall|j: int| 0 <= j < k ==> s@[i + j] == pat@[j],
    {
        if s[i + k] != pat[k] {
            assert(s@.subrange(i as int, i + pat@.len())[k as int] != pat@[k as int]);
            return false;
        }
    }
    assert(s@.subrange(i as int, i + pat@.len()) =~= pat@);
    true
}

/// The index of the first place where `pat` stands in `s`.
fn find_in(s: &Vec<char>, pat: &Vec<char>) -> (r: Option<usize>)
    requires
        pat@.len() > 0,
    ensures
        match r {
            Some(i) => find(s@, pat@, 0) == Some(i as int) && occurs_at(s@, pat@, i as int),
            None => find(s@, pat@, 0) is None && !contains(s@, pat@),
        },
{
    if pat.len() > s.len() {
        return None;
    }
    let places = s.len() - pat.len() + 1;
    for i in 0..places
        invariant
            0 < pat.len() <= s.len(),
            places == s.len() - pat.len() + 1,
            find(s@, pat@, 0) == find(s@, pat@, i as int),
            forall|j: int| 0 <= j < i ==> !occurs_at(s@, pat@, j),
    {
        if stands_at(s, pat, i) {
            return Some(i);
        }
    }
    None
}

/// Whether `s` begins with `prefix`, and what follows it.
pub fn without_prefix<'a>(s: &'a str, prefix: &str) -> (r: Option<&'a str>)
    ensures
        match r {
            Some(rest) => strip_prefix(s@, prefix@) == Some(rest@),
            None => strip_prefix(s@, prefix@) is None,
        },
{
    let x = chars_of(s);
    let p = chars_of(prefix);
    if p.len() > x.len() {
        return None;
    }
    if stands_at(&x, &p, 0) {
        assert(x@.subrange(0, p@.len() as int) =~= x@.take(p@.len() as int));
        let rest = s.substring_char(p.len(), x.len());
        assert(rest@ =~= s@.skip(p@.len() as int));
        Some(rest)
    } else {
        assert(x@.subrange(0, p@.len() as int) =~= x@.take(p@.len() as int));
        None
    }
}

/// Whether `pat` stands somewhere in `s`.
pub fn mentions(s: &str, pat: &str) -> (r: bool)
    requires
        pat@.len() > 0,
    ensures
        r == contains(s@, pat@),
{
    find_in(&chars_of(s), &chars_of(pat)).is_some()
}

/// The two sides of the first place where `pat` stands in `s`.
pub fn part_at<'a>(s: &'a str, pat: &str) -> (r: Option<(&'a str, &'a str)>)
    requires
        pat@.len() > 0,
    ensures
        match r {
            Some(sides) => split_once(s@, pat@) == Some((sides.0@, sides.1@)),
            None => split_once(s@, pat@) is None,
        },
{
    let x = chars_of(s);
    let p = chars_of(pat);
    match find_in(&x, &p) {
        Some(i) => {
            assert(i + p.len() <= x.len());
            let left = s.substring_char(0, i);
            let right = s.substring_char(i + p.len(), x.len());
            assert(left@ =~= s@.take(i as int));
            assert(right@ =~= s@.skip(i + p@.len()));
            Some((left, right))
        },
        None => None,
    }
}

/// The pieces of `s` between the places where `sep` stands.
pub fn pieces<'a>(s: &'a str, sep: char) -> (r: Vec<&'a str>)
    ensures
        words(r@) == split(s@, sep),
{
    let x = chars_of(s);
    let mut done: Vec<&'a str> = Vec::new();
    let mut start: usize = 0;
    assert(x@.take(0) =~= Seq::empty());
    assert(words(done@).push(x@.subrange(0, 0)) =~= split(x@.take(0), sep));
    for i in 0..x.len()
        invariant
            x@ == s@,
            start <= i,
            words(done@).push(x@.subrange(start as int, i as int)) == split(x@.take(i as int), sep),
    {
        let ghost before = split(x@.take(i as int), sep);
        assert(before.drop_last() =~= words(done@));
        assert(x@.take(i + 1).drop_last() =~= x@.take(i as int));
        assert(x@.take(i + 1).last() == x@[i as int]);
        if x[i] == sep {
            let ghost old_done = done@;
            done.push(s.substring_char(start, i));
            assert(words(done@) =~= words(old_done).push(x@.subrange(start as int, i as int)));
            start = i + 1;
            assert(x@.subrange(start as int, i + 1) =~= Seq::empty());
        } else {
            assert(x@.subrange(start as int, i + 1) =~= x@.subrange(start as int, i as int).push(
                x@[i as int],
            ));
        }
    }
    let ghost old_done = done@;
    done.push(s.substring_char(start, x.len()));
    assert(words(done@) =~= words(old_done).push(x@.subrange(start as int, x@.len() as int)));
    assert(x@.take(x@.len() as int) =~= s@);
    done
}

/// Whether `c` is white space.
fn is_blank(c: char) -> (r: bool)
    ensures
        r == is_whitespace(c),
{
    ('\u{9}' <= c && c <= '\u{d}') || c == ' ' || c == '\u{85}' || c == '\u{a0}' || c == '\u{1680}'
        || ('\u{2000}' <= c && c <= '\u{200a}') || c == '\u{2028}' || c == '\u{2029}' || c
        == '\u{202f}' || c == '\u{205f}' || c == '\u{3000}'
}

/// `s` without the white space at either end.
pub fn trimmed<'a>(s: &'a str) -> (r: &'a str)
    ensures
        r@ == trim(s@),
{
    let x = chars_of(s);
    let mut from: usize = 0;
    assert(x@.skip(0) =~= x@);
    while from < x.len() && is_blank(x[from])
        invariant
            from <= x@.len(),
            trim_start(x@) == trim_start(x@.skip(from as int)),
        decreases x@.len() - from,
    {
        assert(x@.skip(from as int).skip(1) =~= x@.skip(from + 1));
        from = from + 1;
    }
    let mut to: usize = x.len();
    let ghost body = x@.skip(from as int);
    assert(x@.subrange(from as int, to as int) =~= body);
    while from < to && is_blank(x[to - 1])
        invariant
            from <= to <= x@.len(),
            trim_end(body) == trim_end(x@.subrange(from as int, to as int)),
        decreases to,
    {
        assert(x@.subrange(from as int, to as int).drop_last() =~= x@.subrange(
            from as int,
            to - 1,
        ));
        to = to - 1;
    }
    s.substring_char(from, to)
}

/// Whether `a` stands before `b` in the order of a dictionary.
pub fn before(a: &str, b: &str) -> (r: bool)
    ensures
        r == text_less(a@, b@),
{
    let x = chars_of(a);
    let y = chars_of(b);
    let mut i: usize = 0;
    while i < x.len() && i < y.len() && x[i] == y[i]
        invariant
            x@ == a@,
            y@ == b@,
            i <= x@.len(),
            i <= y@.len(),
            forall|j: int| 0 <= j < i ==> x@[j] == y@[j],
        decreases x@.len() - i,
    {
        i = i + 1;
    }
    assert(a@.take(i as int) =~= b@.take(i as int));
    let r = i < y.len() && (i == x.len() || x[i] < y[i]);
    proof {
        if r {
            assert(parts_below(a@, b@, i as int));
        } else {
            assert forall|k: int| !parts_below(a@, b@, k) by {
                if parts_below(a@, b@, k) {
                    if k > i {
                        assert(a@.take(k)[i as int] == b@.take(k)[i as int]);
                    }
                }
            }
        }
    }
    r
}

/// The strings of `list` one after another, with `sep` between any two.
pub fn joined(list: &[String], sep: &str) -> (r: String)
    ensures
        r@ == join(texts(list@), sep@),
{
    let mut r = String::new();
    assert(join(texts(list@).take(0), sep@) == Seq::<char>::empty());
    for i in 0..list.len()
        invariant
            r@ == join(texts(list@).take(i as int), sep@),
    {
        assert(texts(list@).take(i + 1).drop_last() =~= texts(list@).take(i as int));
        if i > 0 {
            r.append(sep);
        }
        r.append(list[i].as_str());
        assert(i == 0 ==> r@ =~= list@[0]@);
    }
    assert(texts(list@).take(list@.len() as int) =~= texts(list@));
    r
}

} // verus!
