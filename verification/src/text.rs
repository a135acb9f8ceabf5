//! Texts: the few string operations that the policy and its messages need.

use vstd::prelude::*;

verus! {

/// The characters of an optional text.
pub open spec fn view_of(s: Option<String>) -> Option<Seq<char>> {
    match s {
        Some(s) => Some(s@),
        None => None,
    }
}

/// The character of a digit below ten.
pub open spec fn digit(d: nat) -> char {
    (48 + d) as char
}

/// `n` written in base `radix`, most significant digit first, without leading zeros.
pub open spec fn digits(n: nat, radix: nat) -> Seq<char>
    recommends
        2 <= radix <= 10,
    decreases n,
{
    if n < radix || radix < 2 {
        seq![digit(n)]
    } else {
        proof {
            assert(n / radix < n) by (nonlinear_arith)
                requires
                    n >= radix,
                    radix >= 2,
            ;
        }
        digits(n / radix, radix).push(digit(n % radix))
    }
}

/// `String::push` of std: appends one character.
pub assume_specification[ String::push ](s: &mut String, c: char)
    ensures
        final(s)@ == old(s)@.push(c),
;

/// `n` in base ten.
pub fn decimal(n: u64) -> (r: String)
    ensures
        r@ == digits(n as nat, 10),
    decreases n,
{
    let last: u8 = (n % 10) as u8;
    let mut out = if n < 10 {
        String::new()
    } else {
        decimal(n / 10)
    };
    out.push((48 + last) as char);
    out
}

/// `n` in base eight.
pub fn octal(n: u32) -> (r: String)
    ensures
        r@ == digits(n as nat, 8),
    decreases n,
{
    let last: u8 = (n % 8) as u8;
    let mut out = if n < 8 {
        String::new()
    } else {
        octal(n / 8)
    };
    out.push((48 + last) as char);
    out
}

/// The text that std's `Debug` gives for a string: in double quotes, with
/// escapes.
pub uninterp spec fn debug_text(s: Seq<char>) -> Seq<char>;

/// `format!` of std with `{:?}` on a string. The escapes are left to the name.
#[verifier::external_body]
pub(crate) fn quoted(s: &str) -> (r: String)
    ensures
        r@ == debug_text(s@),
{
    format!("{:?}", s)
}

/// Whether two texts are the same.
pub fn same(a: &str, b: &str) -> (r: bool)
    ensures
        r == (a@ == b@),
{
    a.to_owned() == b.to_owned()
}

/// The characters of `s`, in order.
pub(crate) fn chars_of(s: &str) -> (r: Vec<char>)
    ensures
        r@ == s@,
{
    let mut out: Vec<char> = Vec::new();
    for c in it: s.chars()
        invariant
            out@ == it.seq().take(it.index() as int),
            it.seq() == s@,
    {
        out.push(c);
    }
    out
}

/// The text made of the characters from `from` on.
pub(crate) fn text_from(chars: &Vec<char>, from: usize) -> (r: String)
    requires
        from <= chars@.len(),
    ensures
        r@ == chars@.skip(from as int),
{
    let mut out = String::new();
    let mut i: usize = from;
    while i < chars.len()
        invariant
            from <= i <= chars@.len(),
            out@ == chars@.subrange(from as int, i as int),
        decreases chars@.len() - i,
    {
        out.push(chars[i]);
        i += 1;
    }
    out
}

/// What follows `prefix` in `s`, where `s` begins with it.
pub open spec fn after_prefix(s: Seq<char>, prefix: Seq<char>) -> Option<Seq<char>> {
    if prefix.len() <= s.len() && s.take(prefix.len() as int) == prefix {
        Some(s.skip(prefix.len() as int))
    } else {
        None
    }
}

/// What follows `prefix` in `s`, where `s` begins with it.
pub fn strip_prefix(s: &str, prefix: &str) -> (r: Option<String>)
    ensures
        match r {
            Some(rest) => after_prefix(s@, prefix@) == Some(rest@),
            None => after_prefix(s@, prefix@) is None,
        },
{
    let chars = chars_of(s);
    let head = chars_of(prefix);
    if chars.len() < head.len() {
        return None;
    }
    let mut i: usize = 0;
    while i < head.len()
        invariant
            i <= head@.len() <= chars@.len(),
            head@ == prefix@,
            chars@ == s@,
            chars@.take(i as int) == head@.take(i as int),
        decreases head@.len() - i,
    {
        if chars[i] != head[i] {
            assert(s@.take(prefix@.len() as int)[i as int] != prefix@[i as int]);
            return None;
        }
        assert(chars@.take(i + 1) == chars@.take(i as int).push(chars@[i as int]));
        assert(head@.take(i + 1) == head@.take(i as int).push(head@[i as int]));
        i += 1;
    }
    assert(head@.take(i as int) == prefix@);
    Some(text_from(&chars, head.len()))
}

/// A character with `A` to `Z` turned into `a` to `z`.
pub open spec fn lower_char(c: char) -> char {
    if 'A' <= c <= 'Z' {
        (c as u8 + 32) as char
    } else {
        c
    }
}

/// A text with `A` to `Z` turned into `a` to `z`.
pub open spec fn lower(s: Seq<char>) -> Seq<char> {
    s.map_values(|c: char| lower_char(c))
}

/// A text with `A` to `Z` turned into `a` to `z`.
pub fn to_lower(s: &str) -> (r: String)
    ensures
        r@ == lower(s@),
{
    let mut out = String::new();
    for c in it: s.chars()
        invariant
            it.seq() == s@,
            out@ == lower(s@.take(it.index() as int)),
    {
        let low = if 'A' <= c && c <= 'Z' {
            (c as u8 + 32) as char
        } else {
            c
        };
        out.push(low);
        assert(lower(s@.take(it.index() + 1)) == lower(s@.take(it.index() as int)).push(
            lower_char(c),
        ));
    }
    assert(s@.take(s@.len() as int) == s@);
    out
}

/// Whether `s` begins with `c`.
pub fn starts_with(s: &str, c: char) -> (r: bool)
    ensures
        r == (s@.len() > 0 && s@[0] == c),
{
    if s.is_empty() {
        false
    } else {
        s.get_char(0) == c
    }
}

/// The part of `s` before the first `c`; all of it where there is none.
pub open spec fn until(s: Seq<char>, c: char) -> Seq<char>
    decreases s.len(),
{
    if s.len() == 0 || s[0] == c {
        Seq::empty()
    } else {
        seq![s[0]] + until(s.skip(1), c)
    }
}

/// The first occurrence of `c` cuts `s` at `n`.
pub proof fn lemma_until(s: Seq<char>, c: char, n: int)
    requires
        0 <= n <= s.len(),
        forall|i: int| 0 <= i < n ==> s[i] != c,
        n < s.len() ==> s[n] == c,
    ensures
        until(s, c) == s.take(n),
    decreases n,
{
    if n > 0 {
        lemma_until(s.skip(1), c, n - 1);
        assert(s.take(n) == seq![s[0]] + s.skip(1).take(n - 1));
    }
}

/// A space or a tab.
pub open spec fn blank(c: char) -> bool {
    c == ' ' || c == '\t'
}

/// `s` without the blanks that it begins with.
pub open spec fn trim_start(s: Seq<char>) -> Seq<char>
    decreases s.len(),
{
    if s.len() > 0 && blank(s[0]) {
        trim_start(s.skip(1))
    } else {
        s
    }
}

/// `s` without the blanks that it ends with.
pub open spec fn trim_end(s: Seq<char>) -> Seq<char>
    decreases s.len(),
{
    if s.len() > 0 && blank(s.last()) {
        trim_end(s.drop_last())
    } else {
        s
    }
}

/// The part of `s` before the first `c`, without the blanks around it.
pub fn trimmed_until(s: &str, c: char) -> (r: String)
    ensures
        r@ == trim_end(trim_start(until(s@, c))),
{
    let chars = chars_of(s);
    let mut end: usize = 0;
    while end < chars.len() && chars[end] != c
        invariant
            end <= chars@.len(),
            forall|i: int| 0 <= i < end ==> chars@[i] != c,
        decreases chars@.len() - end,
    {
        end += 1;
    }
    proof {
        lemma_until(s@, c, end as int);
    }
    let ghost part = s@.take(end as int);
    let mut start: usize = 0;
    assert(part.skip(0) == part);
    while start < end && (chars[start] == ' ' || chars[start] == '\t')
        invariant
            start <= end <= chars@.len(),
            chars@ == s@,
            part == s@.take(end as int),
            trim_start(part) == trim_start(part.skip(start as int)),
        decreases end - start,
    {
        assert(part.skip(start as int).skip(1) == part.skip(start + 1));
        start += 1;
    }
    let ghost body = part.skip(start as int);
    assert(trim_start(part) == body);
    assert(body == s@.subrange(start as int, end as int));
    while start < end && (chars[end - 1] == ' ' || chars[end - 1] == '\t')
        invariant
            start <= end <= chars@.len(),
            chars@ == s@,
            trim_end(body) == trim_end(s@.subrange(start as int, end as int)),
        decreases end - start,
    {
        assert(s@.subrange(start as int, end as int).drop_last() == s@.subrange(
            start as int,
            end - 1,
        ));
        end -= 1;
    }
    let mut out = String::new();
    let mut i: usize = start;
    while i < end
        invariant
            start <= i <= end <= chars@.len(),
            out@ == chars@.subrange(start as int, i as int),
        decreases end - i,
    {
        out.push(chars[i]);
        i += 1;
    }
    out
}

/// The error that an operation gave, if any.
pub open spec fn error_of(ended: Result<(), String>) -> Option<Seq<char>> {
    match ended {
        Ok(()) => None,
        Err(text) => Some(text@),
    }
}

/// Whether a `Result` reports exactly the fault `fault`: its text where there
/// is one, success where there is none.
pub open spec fn reports<T>(r: Result<T, String>, fault: Option<Seq<char>>) -> bool {
    match r {
        Ok(_) => fault is None,
        Err(text) => fault == Some(text@),
    }
}

} // verus!
