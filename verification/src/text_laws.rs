//! What holds of every text and of every written number.
use vstd::prelude::*;

use crate::number;
use crate::text;

verus! {

/// A list of strings holds the text of each of them, in order.
pub proof fn law_texts(list: Seq<String>, slices: Seq<&str>)
    ensures
        text::texts(list).len() == list.len(),
        forall|i: int| 0 <= i < list.len() ==> #[trigger] text::texts(list)[i] == list[i]@,
        text::words(slices).len() == slices.len(),
        forall|i: int| 0 <= i < slices.len() ==> #[trigger] text::words(slices)[i] == slices[i]@,
{
}

/// What is left behind a prefix is what the prefix has to be put in front of.
pub proof fn law_strip_prefix(s: Seq<char>, prefix: Seq<char>, rest: Seq<char>)
    ensures
        text::strip_prefix(s, prefix) == Some(rest) <==> s == prefix + rest,
        text::starts_with(s, prefix) <==> text::strip_prefix(s, prefix) is Some,
{
    if s == prefix + rest {
        assert(s.take(prefix.len() as int) =~= prefix);
        assert(s.skip(prefix.len() as int) =~= rest);
    }
    if text::strip_prefix(s, prefix) == Some(rest) {
        assert(s =~= prefix + rest) by {
            assert(s =~= s.take(prefix.len() as int) + s.skip(prefix.len() as int));
        }
    }
}

/// A place that the search passes over is none where the pattern stands.
proof fn lemma_find_is_least(s: Seq<char>, pat: Seq<char>, from: int, j: int)
    requires
        0 <= from <= j,
        text::occurs_at(s, pat, j),
    ensures
        text::find(s, pat, from) matches Some(i) && from <= i <= j && text::occurs_at(s, pat, i),
    decreases j - from,
{
    if !text::occurs_at(s, pat, from) {
        lemma_find_is_least(s, pat, from + 1, j);
    }
}

/// A text is parted at the first place where the pattern stands: the two sides with the pattern
/// between them are the text, and no shorter left side will do.
pub proof fn law_split_once(s: Seq<char>, pat: Seq<char>, left: Seq<char>, right: Seq<char>)
    ensures
        text::split_once(s, pat) == Some((left, right)) <==> s == left + pat + right && forall|
            a: Seq<char>,
            b: Seq<char>,
        |
            s == #[trigger] (a + pat + b) ==> left.len() <= a.len(),
        s == left + pat + right ==> text::split_once(s, pat) is Some && text::contains(s, pat),
        text::contains(s, pat) <==> text::split_once(s, pat) is Some,
{
    text::lemma_find_iff_contains(s, pat);
    assert forall|a: Seq<char>, b: Seq<char>| s == #[trigger] (a + pat + b) implies (text::find(
        s,
        pat,
        0,
    ) matches Some(i) && i <= a.len()) by {
        assert(s.subrange(a.len() as int, (a.len() + pat.len()) as int) =~= pat);
        lemma_find_is_least(s, pat, 0, a.len() as int);
    }
    if let Some(i) = text::find(s, pat, 0) {
        let a = s.take(i);
        let b = s.skip(i + pat.len());
        assert(s =~= a + pat + b) by {
            assert(s.subrange(i, i + pat.len()) == pat);
        }
        if s == left + pat + right && left.len() <= a.len() {
            assert(left.len() == i);
            assert(left =~= a);
            assert(right =~= b);
        }
    }
}

/// No piece of a text holds the separator. Together with what the pieces make when they are put
/// together, this fixes them.
pub proof fn law_pieces_are_free(s: Seq<char>, sep: char)
    ensures
        forall|i: int|
            0 <= i < text::split(s, sep).len() ==> !(#[trigger] text::split(s, sep)[i]).contains(
                sep,
            ),
    decreases s.len(),
{
    let all = text::split(s, sep);
    if s.len() > 0 {
        let init = text::split(s.drop_last(), sep);
        law_pieces_are_free(s.drop_last(), sep);
        text::law_pieces_make_the_whole(s.drop_last(), sep);
        assert forall|i: int| 0 <= i < all.len() implies !(#[trigger] all[i]).contains(sep) by {
            if i < all.len() - 1 {
                assert(all[i] == init[i]);
            } else if s.last() != sep {
                let last = init[init.len() - 1];
                assert(all[i] == last.push(s.last()));
                if all[i].contains(sep) {
                    let k = choose|k: int| 0 <= k < all[i].len() && all[i][k] == sep;
                    assert(last[k] == sep);
                }
            }
        }
    }
}

/// Texts are joined one behind the other with the separator between any two.
pub proof fn law_join(list: Seq<Seq<char>>, last: Seq<char>, sep: Seq<char>)
    ensures
        text::join(Seq::empty(), sep) == Seq::<char>::empty(),
        text::join(seq![last], sep) == last,
        list.len() > 0 ==> text::join(list.push(last), sep) == text::join(list, sep) + sep + last,
{
    assert(list.push(last).drop_last() =~= list);
}

/// White space is the tab, the line feed and the three characters after it, the space, and the
/// other characters that Unicode counts as such.
pub proof fn law_whitespace(c: char)
    ensures
        text::is_whitespace(c) <==> {
            let n = c as u32;
            ||| 9 <= n <= 13
            ||| n == 32
            ||| n == 0x85
            ||| n == 0xa0
            ||| n == 0x1680
            ||| 0x2000 <= n <= 0x200a
            ||| n == 0x2028 || n == 0x2029
            ||| n == 0x202f
            ||| n == 0x205f
            ||| n == 0x3000
        },
{
}

/// Every character of `s` is white space.
pub open spec fn blank(s: Seq<char>) -> bool {
    forall|i: int| 0 <= i < s.len() ==> text::is_whitespace(#[trigger] s[i])
}

proof fn lemma_trim_start(s: Seq<char>) -> (a: Seq<char>)
    ensures
        s == a + text::trim_start(s),
        blank(a),
        text::trim_start(s).len() > 0 ==> !text::is_whitespace(text::trim_start(s)[0]),
    decreases s.len(),
{
    if s.len() > 0 && text::is_whitespace(s[0]) {
        let a = lemma_trim_start(s.skip(1));
        let r = seq![s[0]] + a;
        assert(s =~= seq![s[0]] + s.skip(1));
        assert(seq![s[0]] + (a + text::trim_start(s)) =~= r + text::trim_start(s));
        assert forall|i: int| 0 <= i < r.len() implies text::is_whitespace(#[trigger] r[i]) by {
            if i > 0 {
                assert(r[i] == a[i - 1]);
            }
        }
        r
    } else {
        assert(s =~= Seq::<char>::empty() + s);
        Seq::empty()
    }
}

proof fn lemma_trim_end(s: Seq<char>) -> (b: Seq<char>)
    ensures
        s == text::trim_end(s) + b,
        blank(b),
        text::trim_end(s).len() > 0 ==> !text::is_whitespace(text::trim_end(s).last()),
    decreases s.len(),
{
    if s.len() > 0 && text::is_whitespace(s.last()) {
        let b = lemma_trim_end(s.drop_last());
        let r = b.push(s.last());
        assert(s =~= s.drop_last().push(s.last()));
        assert((text::trim_end(s) + b).push(s.last()) =~= text::trim_end(s) + r);
        r
    } else {
        assert(s =~= s + Seq::<char>::empty());
        Seq::empty()
    }
}

/// Trimming takes away white space alone, at either end, and leaves none at an end.
pub proof fn law_trim(s: Seq<char>)
    ensures
        exists|a: Seq<char>, b: Seq<char>|
            s == #[trigger] (a + text::trim(s) + b) && (forall|i: int|
                0 <= i < a.len() ==> text::is_whitespace(#[trigger] a[i])) && (forall|i: int|
                0 <= i < b.len() ==> text::is_whitespace(#[trigger] b[i])),
        text::trim(s).len() > 0 ==> !text::is_whitespace(text::trim(s)[0]) && !text::is_whitespace(
            text::trim(s).last(),
        ),
{
    let a = lemma_trim_start(s);
    let b = lemma_trim_end(text::trim_start(s));
    let t = text::trim(s);
    assert(s =~= a + t + b);
    if t.len() > 0 {
        assert(text::trim_start(s)[0] == t[0]);
    }
}

/// Nothing is left of a text by trimming exactly if all of it is white space.
pub proof fn law_blank(s: Seq<char>)
    ensures
        text::trim(s).len() == 0 <==> forall|i: int|
            0 <= i < s.len() ==> text::is_whitespace(#[trigger] s[i]),
{
    law_trim(s);
    let t = text::trim(s);
    let (a, b) = choose|a: Seq<char>, b: Seq<char>|
        s == #[trigger] (a + t + b) && (forall|i: int|
            0 <= i < a.len() ==> text::is_whitespace(#[trigger] a[i])) && (forall|i: int|
            0 <= i < b.len() ==> text::is_whitespace(#[trigger] b[i]));
    if t.len() == 0 {
        assert forall|i: int| 0 <= i < s.len() implies text::is_whitespace(#[trigger] s[i]) by {
            if i < a.len() {
                assert(s[i] == a[i]);
            } else {
                assert(s[i] == b[i - a.len()]);
            }
        }
    } else {
        assert(s[a.len() as int] == t[0]);
    }
}

/// In the order of texts the first character in which two of them differ decides, and a text
/// comes before every longer one that begins with it.
pub proof fn law_text_order(common: Seq<char>, a: Seq<char>, b: Seq<char>)
    requires
        a.len() == 0 || b.len() == 0 || a[0] != b[0],
    ensures
        text::text_less(common + a, common + b) <==> b.len() > 0 && (a.len() == 0 || a[0] < b[0]),
{
    let x = common + a;
    let y = common + b;
    let n: int = common.len() as int;
    assert(x.take(n) =~= y.take(n));
    assert(a.len() > 0 ==> x[n] == a[0]);
    assert(b.len() > 0 ==> y[n] == b[0]);
    if b.len() > 0 && (a.len() == 0 || a[0] < b[0]) {
        assert(text::parts_below(x, y, n));
    }
    if text::text_less(x, y) {
        let i = choose|i: int| text::parts_below(x, y, i);
        if i > n {
            assert(x.take(i)[n] == y.take(i)[n]);
        } else if i < n {
            assert(x[i] == common[i] && y[i] == common[i]);
        }
    }
}

/// A number below ten is written as its digit, and every other number as the number of its tens
/// and the digit of its ones behind it.
pub proof fn law_decimal(tens: nat, ones: nat)
    requires
        ones < 10,
    ensures
        number::decimal(ones) == seq!["0123456789"@[ones as int]],
        tens > 0 ==> number::decimal(10 * tens + ones) == number::decimal(tens).push(
            "0123456789"@[ones as int],
        ),
{
    reveal_strlit("0123456789");
    assert((10 * tens + ones) / 10 == tens && (10 * tens + ones) % 10 == ones);
    assert(number::digit_char(ones) == "0123456789"@[ones as int]);
}

/// Every character of `s` is a zero.
spec fn all_zeros(s: Seq<char>) -> bool {
    forall|i: int| 0 <= i < s.len() ==> #[trigger] s[i] == '0'
}

/// A row of digits is the shortest one with its value behind zeros.
proof fn lemma_leading_zeros(s: Seq<char>) -> (zeros: Seq<char>)
    requires
        s.len() > 0,
        number::all_digits(s),
    ensures
        all_zeros(zeros),
        s == zeros + number::decimal(number::value(s)),
    decreases s.len(),
{
    let init = s.drop_last();
    let c = s.last();
    let d = (c as nat - '0' as nat) as nat;
    let v = number::value(init);
    assert(number::is_digit(s[s.len() - 1]));
    assert(number::digit_char(d) == c);
    assert(number::value(s) == v * 10 + d);
    if init.len() == 0 {
        assert(v == 0);
        assert(s =~= Seq::<char>::empty() + number::decimal(d));
        Seq::empty()
    } else {
        assert forall|i: int| 0 <= i < init.len() implies number::is_digit(#[trigger] init[i]) by {
            assert(init[i] == s[i]);
        }
        let zeros = lemma_leading_zeros(init);
        if v == 0 {
            assert(number::digit_char(0) == '0');
            assert(init =~= zeros.push('0'));
            assert(s =~= init + number::decimal(d));
            assert forall|i: int| 0 <= i < init.len() implies #[trigger] init[i] == '0' by {
                if i < zeros.len() {
                    assert(init[i] == zeros[i]);
                }
            }
            init
        } else {
            assert((v * 10 + d) / 10 == v && (v * 10 + d) % 10 == d);
            assert(number::decimal(v * 10 + d) == number::decimal(v).push(c));
            assert(s =~= init.push(c));
            assert((zeros + number::decimal(v)).push(c) =~= zeros + number::decimal(v).push(c));
            zeros
        }
    }
}

/// Zeros in front of a row of digits do not count.
proof fn lemma_zeros_count_nothing(zeros: Seq<char>, s: Seq<char>)
    requires
        all_zeros(zeros),
    ensures
        number::value(zeros + s) == number::value(s),
    decreases zeros.len() + s.len(),
{
    let all = zeros + s;
    if s.len() > 0 {
        lemma_zeros_count_nothing(zeros, s.drop_last());
        assert(all.drop_last() =~= zeros + s.drop_last());
        assert(all.last() == s.last());
    } else if zeros.len() > 0 {
        lemma_zeros_count_nothing(zeros.drop_last(), s);
        assert(all.drop_last() =~= zeros.drop_last() + s);
        assert(all.last() == zeros[zeros.len() - 1]);
    } else {
        assert(all =~= s);
    }
}

/// A text spells a number exactly if it is the number as it is written, with zeros in front of it
/// or not, and with one plus sign in front of that or not.
pub proof fn law_spelled_numbers(s: Seq<char>, n: u64)
    ensures
        number::number(s) == Some(n) <==> exists|sign: Seq<char>, zeros: Seq<char>|
            s == #[trigger] (sign + zeros + number::decimal(n as nat)) && (sign == Seq::<
                char,
            >::empty() || sign == seq!['+']) && forall|i: int|
                0 <= i < zeros.len() ==> #[trigger] zeros[i] == '0',
{
    let shortest = number::decimal(n as nat);
    number::lemma_decimal(n as nat);
    if number::number(s) == Some(n) {
        let digits = number::unsigned(s);
        let zeros = lemma_leading_zeros(digits);
        let sign = if digits == s {
            Seq::empty()
        } else {
            seq!['+']
        };
        assert(s =~= sign + digits);
        assert(s =~= sign + zeros + shortest);
    }
    if exists|sign: Seq<char>, zeros: Seq<char>|
        s == #[trigger] (sign + zeros + shortest) && (sign == Seq::<char>::empty() || sign
            == seq!['+']) && all_zeros(zeros) {
        let (sign, zeros) = choose|sign: Seq<char>, zeros: Seq<char>|
            s == #[trigger] (sign + zeros + shortest) && (sign == Seq::<char>::empty() || sign
                == seq!['+']) && all_zeros(zeros);
        let digits = zeros + shortest;
        lemma_zeros_count_nothing(zeros, shortest);
        assert forall|i: int| 0 <= i < digits.len() implies number::is_digit(
            #[trigger] digits[i],
        ) by {
            if i < zeros.len() {
                assert(digits[i] == zeros[i]);
            } else {
                assert(digits[i] == shortest[i - zeros.len()]);
            }
        }
        assert(number::is_digit(digits[0]));
        if sign.len() == 0 {
            assert(s =~= digits);
        } else {
            assert(s.skip(1) =~= digits);
        }
        assert(number::unsigned(s) == digits);
    }
}

} // verus!
