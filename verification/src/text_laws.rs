//! Laws of the string operations, stated of what they are given and what they return.

use vstd::prelude::*;

use crate::text::{
    blank, decimal, digit, digits, lemma_until, lower, octal, same, starts_with, strip_prefix,
    to_lower, trim_end, trim_start, trimmed_until, until,
};

verus! {

/// The number that a text of digits denotes in base `radix`.
pub open spec fn numeral(text: Seq<char>, radix: nat) -> int
    decreases text.len(),
{
    if text.len() == 0 {
        0
    } else {
        radix * numeral(text.drop_last(), radix) + (text.last() as int - 48)
    }
}

/// A text is a numeral in base `radix`: at least one digit, each of them below the
/// base, and no leading zero but in zero itself.
pub open spec fn well_formed_numeral(text: Seq<char>, radix: nat) -> bool {
    &&& text.len() > 0
    &&& forall|i: int| 0 <= i < text.len() ==> 48 <= #[trigger] text[i] as int && (text[i] as int)
        < 48 + radix
    &&& text.len() > 1 ==> text[0] as int != 48
}

/// The digits of a number denote it.
pub(crate) proof fn lemma_digits_denote(n: nat, radix: nat)
    requires
        radix == 10 || radix == 8,
    ensures
        numeral(digits(n, radix), radix) == n,
        well_formed_numeral(digits(n, radix), radix),
        n > 0 ==> digits(n, radix)[0] as int != 48,
    decreases n,
{
    let text = digits(n, radix);
    if n < radix {
        assert(text == seq![digit(n)]);
        assert(text.drop_last() == Seq::<char>::empty());
        assert(numeral(text.drop_last(), radix) == 0);
        assert(radix * 0 == 0);
    } else {
        let front = digits(n / radix, radix);
        lemma_digits_denote(n / radix, radix);
        assert(text == front.push(digit(n % radix)));
        assert(text.drop_last() == front);
        assert(text[0] == front[0]);
        assert(n == radix * (n / radix) + n % radix);
        assert(n / radix > 0);
        assert forall|i: int| 0 <= i < text.len() implies 48 <= #[trigger] text[i] as int && (
        text[i] as int) < 48 + radix by {
            if i < front.len() {
                assert(text[i] == front[i]);
            }
        }
    }
}

/// [`decimal`] writes the number that it is given in base ten.
pub proof fn law_decimal_denotes_its_number(n: u64, r: String)
    requires
        call_ensures(decimal, (n,), r),
    ensures
        numeral(r@, 10) == n,
        well_formed_numeral(r@, 10),
{
    lemma_digits_denote(n as nat, 10);
}

/// [`octal`] writes the number that it is given in base eight.
pub proof fn law_octal_denotes_its_number(n: u32, r: String)
    requires
        call_ensures(octal, (n,), r),
    ensures
        numeral(r@, 8) == n,
        well_formed_numeral(r@, 8),
{
    lemma_digits_denote(n as nat, 8);
}

/// [`same`] tells whether two texts agree in their length and in every character.
pub proof fn law_same_is_equality(a: &str, b: &str, r: bool)
    requires
        call_ensures(same, (a, b), r),
    ensures
        r <==> a@.len() == b@.len() && forall|i: int|
            0 <= i < a@.len() ==> #[trigger] a@[i] == b@[i],
{
    if a@.len() == b@.len() && forall|i: int| 0 <= i < a@.len() ==> #[trigger] a@[i] == b@[i] {
        assert(a@ == b@);
    }
}

/// [`strip_prefix`] takes a prefix off: put in front again, it gives the text back. It
/// fails exactly where no text could follow the prefix.
pub proof fn law_stripped_prefix_can_be_put_back(s: &str, prefix: &str, r: Option<String>)
    requires
        call_ensures(strip_prefix, (s, prefix), r),
    ensures
        match r {
            Some(rest) => s@ == prefix@ + rest@,
            None => forall|rest: Seq<char>| s@ != #[trigger] (prefix@ + rest),
        },
{
    match r {
        Some(rest) => {
            assert(s@ == s@.take(prefix@.len() as int) + s@.skip(prefix@.len() as int));
        },
        None => {
            assert forall|rest: Seq<char>| s@ != #[trigger] (prefix@ + rest) by {
                if s@ == prefix@ + rest {
                    assert(s@.take(prefix@.len() as int) == prefix@);
                }
            }
        },
    }
}

/// [`to_lower`] adds 32 to each of `A` to `Z`, and leaves every other character.
pub proof fn law_lowering_changes_capitals_alone(s: &str, r: String)
    requires
        call_ensures(to_lower, (s,), r),
    ensures
        r@.len() == s@.len(),
        forall|i: int|
            0 <= i < s@.len() ==> #[trigger] r@[i] as int == if 65 <= s@[i] as int && s@[i] as int
                <= 90 {
                s@[i] as int + 32
            } else {
                s@[i] as int
            },
{
}

/// [`starts_with`] tells whether a text is that character and some more.
pub proof fn law_beginning_is_the_first_character(s: &str, c: char, r: bool)
    requires
        call_ensures(starts_with, (s, c), r),
    ensures
        r ==> s@ == seq![c] + s@.skip(1),
        forall|rest: Seq<char>| s@ == #[trigger] (seq![c] + rest) ==> r,
{
    if r {
        assert(s@ == seq![c] + s@.skip(1));
    }
    assert forall|rest: Seq<char>| s@ == #[trigger] (seq![c] + rest) implies r by {
        assert((seq![c] + rest)[0] == c);
    }
}

/// Every character is a space or a tab.
pub open spec fn blanks(s: Seq<char>) -> bool {
    forall|i: int| 0 <= i < s.len() ==> #[trigger] s[i] as int == 32 || s[i] as int == 9
}

/// `s` is `word` between blanks, followed by nothing or by something that begins with
/// `c`.
pub open spec fn cut_out(
    s: Seq<char>,
    before: Seq<char>,
    word: Seq<char>,
    after: Seq<char>,
    rest: Seq<char>,
    c: char,
) -> bool {
    &&& s == before + word + after + rest
    &&& blanks(before)
    &&& blanks(after)
    &&& rest.len() == 0 || rest[0] == c
}

/// Blanks in front of a text that does not begin with one are trimmed off.
pub(crate) proof fn lemma_trim_start(before: Seq<char>, s: Seq<char>)
    requires
        blanks(before),
        s.len() == 0 || !blank(s[0]),
    ensures
        trim_start(before + s) == s,
    decreases before.len(),
{
    if before.len() == 0 {
        assert(before + s == s);
    } else {
        assert((before + s)[0] == before[0]);
        assert((before + s).skip(1) == before.skip(1) + s);
        lemma_trim_start(before.skip(1), s);
    }
}

/// Blanks behind a text that does not end with one are trimmed off.
pub(crate) proof fn lemma_trim_end(s: Seq<char>, after: Seq<char>)
    requires
        blanks(after),
        s.len() == 0 || !blank(s.last()),
    ensures
        trim_end(s + after) == s,
    decreases after.len(),
{
    if after.len() == 0 {
        assert(s + after == s);
    } else {
        assert((s + after).last() == after.last());
        assert((s + after).drop_last() == s + after.drop_last());
        lemma_trim_end(s, after.drop_last());
    }
}

/// What is trimmed off the beginning are blanks, and all of them.
pub(crate) proof fn lemma_trimmed_start(s: Seq<char>) -> (before: Seq<char>)
    ensures
        s == before + trim_start(s),
        blanks(before),
        trim_start(s).len() == 0 || !blank(trim_start(s)[0]),
    decreases s.len(),
{
    if s.len() > 0 && blank(s[0]) {
        let rest = lemma_trimmed_start(s.skip(1));
        let before = seq![s[0]] + rest;
        assert(s == seq![s[0]] + s.skip(1));
        assert(s == before + trim_start(s));
        before
    } else {
        assert(s == Seq::<char>::empty() + s);
        Seq::empty()
    }
}

/// What is trimmed off the end are blanks, and all of them.
pub(crate) proof fn lemma_trimmed_end(s: Seq<char>) -> (after: Seq<char>)
    ensures
        s == trim_end(s) + after,
        blanks(after),
        trim_end(s).len() == 0 || !blank(trim_end(s).last()),
    decreases s.len(),
{
    if s.len() > 0 && blank(s.last()) {
        let rest = lemma_trimmed_end(s.drop_last());
        let after = rest.push(s.last());
        assert(s == s.drop_last().push(s.last()));
        assert(s == trim_end(s) + after);
        after
    } else {
        assert(s == s + Seq::<char>::empty());
        Seq::empty()
    }
}

/// A text is what stands before the first `c`, and a rest that begins with it.
pub(crate) proof fn lemma_until_splits(s: Seq<char>, c: char) -> (rest: Seq<char>)
    ensures
        s == until(s, c) + rest,
        rest.len() == 0 || rest[0] == c,
        forall|i: int| 0 <= i < until(s, c).len() ==> #[trigger] until(s, c)[i] != c,
    decreases s.len(),
{
    if s.len() == 0 || s[0] == c {
        assert(s == Seq::<char>::empty() + s);
        s
    } else {
        let rest = lemma_until_splits(s.skip(1), c);
        assert(s == seq![s[0]] + s.skip(1));
        assert(s == until(s, c) + rest);
        rest
    }
}

/// The word that is cut out of a text is found, where it holds no `c` and neither begins
/// nor ends with a blank.
pub(crate) proof fn lemma_cut_out(
    s: Seq<char>,
    before: Seq<char>,
    word: Seq<char>,
    after: Seq<char>,
    rest: Seq<char>,
    c: char,
)
    requires
        cut_out(s, before, word, after, rest, c),
        !blank(c),
        word.len() > 0,
        !blank(word[0]),
        !blank(word.last()),
        forall|i: int| 0 <= i < word.len() ==> #[trigger] word[i] != c,
    ensures
        trim_end(trim_start(until(s, c))) == word,
{
    let head = before + word + after;
    let n = head.len() as int;
    assert(s.take(n) == head);
    assert forall|i: int| 0 <= i < n implies s[i] != c by {
        assert(s[i] == head[i]);
        if i < before.len() {
            assert(head[i] == before[i]);
        } else if i < before.len() + word.len() {
            assert(head[i] == word[i - before.len()]);
        } else {
            assert(head[i] == after[i - before.len() - word.len()]);
        }
    }
    if n < s.len() {
        assert(s[n] == rest[0]);
    }
    lemma_until(s, c, n);
    assert(head == before + (word + after));
    assert((word + after)[0] == word[0]);
    lemma_trim_start(before, word + after);
    lemma_trim_end(word, after);
}

/// [`trimmed_until`] cuts a word out of a text: blanks around it, and behind them
/// nothing or the separator. The word neither begins nor ends with a blank, and holds
/// no separator.
pub proof fn law_word_is_cut_out(s: &str, c: char, r: String)
    requires
        call_ensures(trimmed_until, (s, c), r),
    ensures
        exists|before: Seq<char>, after: Seq<char>, rest: Seq<char>|
            cut_out(s@, before, r@, after, rest, c),
        forall|i: int| 0 <= i < r@.len() ==> #[trigger] r@[i] != c,
        r@.len() > 0 ==> {
            &&& r@[0] as int != 32 && r@[0] as int != 9
            &&& r@.last() as int != 32 && r@.last() as int != 9
        },
{
    let rest = lemma_until_splits(s@, c);
    let before = lemma_trimmed_start(until(s@, c));
    let after = lemma_trimmed_end(trim_start(until(s@, c)));
    assert(s@ == before + (r@ + after) + rest);
    assert(before + (r@ + after) == before + r@ + after);
    assert(cut_out(s@, before, r@, after, rest, c));
    assert forall|i: int| 0 <= i < r@.len() implies #[trigger] r@[i] != c by {
        assert(until(s@, c)[before.len() + i] == r@[i]);
    }
    if r@.len() > 0 {
        assert(trim_start(until(s@, c))[0] == r@[0]);
    }
}

/// Lowering changes nothing but capital letters.
pub(crate) proof fn lemma_lower_char_by_char(s: Seq<char>, i: int)
    requires
        0 <= i < s.len(),
    ensures
        lower(s).len() == s.len(),
        lower(s)[i] as int == if 65 <= s[i] as int && s[i] as int <= 90 {
            s[i] as int + 32
        } else {
            s[i] as int
        },
{
}

} // verus!
