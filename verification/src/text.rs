//! Text: joining, comparing, trimming, and decimal numbers.
use vstd::prelude::*;
use vstd::utf8::is_ascii_chars;

verus! {

/// The text of an optional string.
pub open spec fn optional_text(text: Option<String>) -> Option<Seq<char>> {
    match text {
        Some(s) => Some(s@),
        None => None,
    }
}

/// `first` and `second`, one after the other.
pub fn join2(first: &str, second: &str) -> (res: String)
    ensures
        res@ == first@ + second@,
{
    let mut out = first.to_string();
    out.append(second);
    out
}

/// `prefix`, `middle` and `suffix`, one after the other.
pub fn join3(prefix: &str, middle: &str, suffix: &str) -> (res: String)
    ensures
        res@ == prefix@ + middle@ + suffix@,
{
    let mut out = prefix.to_string();
    out.append(middle);
    out.append(suffix);
    out
}

/// Whether `text` is exactly `expected`.
pub fn same_text(text: &String, expected: &str) -> (res: bool)
    ensures
        res == (text@ == expected@),
{
    *text == expected.to_string()
}

/// Whether an optional text is there and is exactly `expected`.
pub fn is_text(text: &Option<String>, expected: &str) -> (res: bool)
    ensures
        res == (optional_text(*text) == Some(expected@)),
{
    match text {
        Some(s) => same_text(s, expected),
        None => false,
    }
}

/// Whether the character `wanted` occurs in `text`.
pub fn contains_char(text: &str, wanted: char) -> (res: bool)
    ensures
        res == text@.contains(wanted),
{
    let mut found = false;
    for c in it: text.chars()
        invariant
            it.seq() == text@,
            found == (exists|j: int| 0 <= j < it.index() && text@[j] == wanted),
    {
        if c == wanted {
            found = true;
        }
    }
    found
}

/// The characters with the Unicode property White_Space.
pub open spec fn is_white_space(c: char) -> bool {
    let code = c as int;
    ||| 9 <= code <= 13
    ||| code == 0x20
    ||| code == 0x85
    ||| code == 0xa0
    ||| code == 0x1680
    ||| 0x2000 <= code <= 0x200a
    ||| code == 0x2028
    ||| code == 0x2029
    ||| code == 0x202f
    ||| code == 0x205f
    ||| code == 0x3000
}

/// `text` without the white space that it starts with.
pub open spec fn trimmed_start(text: Seq<char>) -> Seq<char>
    decreases text.len(),
{
    if text.len() > 0 && is_white_space(text[0]) {
        trimmed_start(text.drop_first())
    } else {
        text
    }
}

/// `text` without the white space that it ends with.
pub open spec fn trimmed_end(text: Seq<char>) -> Seq<char>
    decreases text.len(),
{
    if text.len() > 0 && is_white_space(text.last()) {
        trimmed_end(text.drop_last())
    } else {
        text
    }
}

/// `text` without the white space around it.
pub open spec fn trimmed(text: Seq<char>) -> Seq<char> {
    trimmed_end(trimmed_start(text))
}

fn is_space(c: char) -> (res: bool)
    ensures
        res == is_white_space(c),
{
    let code: u32 = c as u32;
    (9 <= code && code <= 13) || code == 0x20 || code == 0x85 || code == 0xa0 || code == 0x1680 || (
    0x2000 <= code && code <= 0x200a) || code == 0x2028 || code == 0x2029 || code == 0x202f || code
        == 0x205f || code == 0x3000
}

proof fn trimmed_start_skips(text: Seq<char>, first: int)
    requires
        0 <= first <= text.len(),
        forall|i: int| 0 <= i < first ==> is_white_space(#[trigger] text[i]),
        first < text.len() ==> !is_white_space(text[first]),
    ensures
        trimmed_start(text) == text.skip(first),
    decreases first,
{
    if first > 0 {
        trimmed_start_skips(text.drop_first(), first - 1);
        assert(text.drop_first().skip(first - 1) =~= text.skip(first));
    } else {
        assert(text.skip(0) =~= text);
    }
}

proof fn trimmed_end_takes(text: Seq<char>, last: int)
    requires
        0 <= last <= text.len(),
        forall|i: int| last <= i < text.len() ==> is_white_space(#[trigger] text[i]),
        last > 0 ==> !is_white_space(text[last - 1]),
    ensures
        trimmed_end(text) == text.take(last),
    decreases text.len() - last,
{
    if last < text.len() {
        trimmed_end_takes(text.drop_last(), last);
        assert(text.drop_last().take(last) =~= text.take(last));
    } else {
        assert(text.take(last) =~= text);
    }
}

/// `text` without the white space around it.
pub fn trim(text: &str) -> (res: String)
    ensures
        res@ == trimmed(text@),
{
    let total = text.unicode_len();
    let mut seen = false;
    let mut at: usize = 0;
    let mut first: usize = 0;
    let mut last: usize = 0;
    for c in it: text.chars()
        invariant
            it.seq() == text@,
            text@.len() == total,
            at == it.index(),
            first <= last <= at,
            seen ==> first < last && !is_white_space(text@[first as int]) && !is_white_space(
                text@[last - 1],
            ),
            !seen ==> first == 0 && last == 0,
            forall|i: int|
                0 <= i < (if seen { first as int } else { at as int }) ==> is_white_space(
                    #[trigger] text@[i],
                ),
            forall|i: int| last <= i < at ==> is_white_space(#[trigger] text@[i]),
    {
        if !is_space(c) {
            if !seen {
                seen = true;
                first = at;
            }
            last = at + 1;
        }
        at = at + 1;
    }
    proof {
        if seen {
            trimmed_start_skips(text@, first as int);
            let rest = text@.skip(first as int);
            assert(rest[last - first - 1] == text@[last - 1]);
            assert forall|i: int| last - first <= i < rest.len() implies is_white_space(
                #[trigger] rest[i],
            ) by {
                assert(rest[i] == text@[first + i]);
            }
            trimmed_end_takes(rest, last - first);
            assert(rest.take(last - first) =~= text@.subrange(first as int, last as int));
        } else {
            trimmed_start_skips(text@, text@.len() as int);
            assert(text@.skip(text@.len() as int) =~= text@.subrange(0, 0));
        }
    }
    text.substring_char(first, last).to_string()
}

/// What `str::to_lowercase` makes of a text.
pub uninterp spec fn lowercase(text: Seq<char>) -> Seq<char>;

/// The lower-case form of an ASCII character.
pub open spec fn ascii_lowercase(c: char) -> char {
    if 'A' <= c <= 'Z' {
        (c as int + 32) as char
    } else {
        c
    }
}

/// `str::to_lowercase`. Believed: the result depends on the text alone, and on a
/// text of ASCII characters it turns `A` to `Z` into `a` to `z` and keeps the rest.
#[verifier::external_body]
pub(crate) fn to_lowercase(text: &str) -> (res: String)
    ensures
        res@ == lowercase(text@),
        is_ascii_chars(text@) ==> res@ == text@.map_values(|c: char| ascii_lowercase(c)),
{
    text.to_lowercase()
}

/// The digit of a number from zero to nine.
pub open spec fn digit(d: int) -> char {
    ('0' as int + d) as char
}

/// A natural number in decimal, without leading zeros.
pub open spec fn decimal_digits(n: nat) -> Seq<char>
    decreases n,
{
    if n < 10 {
        seq![digit(n as int)]
    } else {
        decimal_digits(n / 10).push(digit((n % 10) as int))
    }
}

/// An integer in decimal: a minus sign where it is negative, and its digits.
pub open spec fn decimal(n: int) -> Seq<char> {
    if n < 0 {
        seq!['-'] + decimal_digits((-n) as nat)
    } else {
        decimal_digits(n as nat)
    }
}

/// The number that a row of decimal digits stands for.
pub open spec fn decimal_value(digits: Seq<char>) -> nat
    decreases digits.len(),
{
    if digits.len() == 0 {
        0
    } else {
        decimal_value(digits.drop_last()) * 10 + (digits.last() as int - '0' as int) as nat
    }
}

/// The digits of an unsigned number: what follows an optional plus sign.
pub open spec fn unsigned_digits(text: Seq<char>) -> Seq<char> {
    if text.len() > 0 && text[0] == '+' {
        text.drop_first()
    } else {
        text
    }
}

/// The number that `text` writes down, where it is an optional plus sign and at
/// least one decimal digit.
pub open spec fn unsigned_number(text: Seq<char>) -> Option<nat> {
    let digits = unsigned_digits(text);
    if digits.len() > 0 && (forall|i: int|
        0 <= i < digits.len() ==> '0' <= #[trigger] digits[i] <= '9') {
        Some(decimal_value(digits))
    } else {
        None
    }
}

/// The number that `text` writes down, where it writes one down that can be held.
pub fn parse_u64(text: &str) -> (res: Option<u64>)
    ensures
        res == (match unsigned_number(text@) {
            Some(n) => if n <= u64::MAX {
                Some(n as u64)
            } else {
                None
            },
            None => None,
        }),
{
    let ghost digits = unsigned_digits(text@);
    let mut first = true;
    let mut found = false;
    let mut wrong = false;
    let mut over = false;
    let mut value: u64 = 0;
    let ghost mut read: int = 0;
    proof {
        assert(digits.take(0) =~= Seq::<char>::empty());
    }
    for c in it: text.chars()
        invariant
            it.seq() == text@,
            digits == unsigned_digits(text@),
            first == (it.index() == 0),
            read == (if it.index() > 0 && text@[0] == '+' {
                it.index() - 1
            } else {
                it.index() as int
            }),
            found == (read > 0),
            wrong == (exists|i: int| 0 <= i < read && !('0' <= #[trigger] digits[i] <= '9')),
            !wrong ==> over == (decimal_value(digits.take(read)) > u64::MAX),
            !wrong && !over ==> value == decimal_value(digits.take(read)),
    {
        if first && c == '+' {
            proof {
                assert(digits.take(0) =~= Seq::<char>::empty());
            }
        } else {
            proof {
                assert(digits[read] == c);
                assert(digits.take(read + 1).drop_last() =~= digits.take(read));
                assert(digits.take(read + 1).last() == c);
            }
            found = true;
            if '0' <= c && c <= '9' {
                let digit: u64 = (c as u32 - '0' as u32) as u64;
                if over || value > (u64::MAX - digit) / 10 {
                    over = true;
                } else {
                    value = value * 10 + digit;
                }
            } else {
                wrong = true;
            }
            proof {
                read = read + 1;
            }
        }
        first = false;
    }
    proof {
        assert(digits.take(read) =~= digits);
    }
    if !found || wrong || over {
        None
    } else {
        Some(value)
    }
}

fn digit_text(d: u64) -> (res: &'static str)
    requires
        d < 10,
    ensures
        res@ == seq![digit(d as int)],
{
    proof {
        reveal_strlit("0");
        reveal_strlit("1");
        reveal_strlit("2");
        reveal_strlit("3");
        reveal_strlit("4");
        reveal_strlit("5");
        reveal_strlit("6");
        reveal_strlit("7");
        reveal_strlit("8");
        reveal_strlit("9");
    }
    match d {
        0 => "0",
        1 => "1",
        2 => "2",
        3 => "3",
        4 => "4",
        5 => "5",
        6 => "6",
        7 => "7",
        8 => "8",
        _ => "9",
    }
}

fn append_digits(out: &mut String, n: u64)
    ensures
        final(out)@ == old(out)@ + decimal_digits(n as nat),
    decreases n,
{
    if n >= 10 {
        append_digits(out, n / 10);
    }
    out.append(digit_text(n % 10));
}

/// An integer in decimal.
pub fn decimal_text(n: i64) -> (res: String)
    ensures
        res@ == decimal(n as int),
{
    if n < 0 {
        proof {
            reveal_strlit("-");
        }
        let mut out = "-".to_string();
        let magnitude: u64 = (-(n as i128)) as u64;
        append_digits(&mut out, magnitude);
        out
    } else {
        let mut out = String::new();
        append_digits(&mut out, n as u64);
        out
    }
}

/// Reading the decimal form of a number gives the number back.
pub proof fn decimal_round_trip(n: nat)
    ensures
        unsigned_number(decimal_digits(n)) == Some(n),
        decimal_digits(n).len() > 0,
        forall|i: int|
            0 <= i < decimal_digits(n).len() ==> '0' <= #[trigger] decimal_digits(n)[i] <= '9',
    decreases n,
{
    let digits = decimal_digits(n);
    if n >= 10 {
        decimal_round_trip(n / 10);
        assert(digits.drop_last() =~= decimal_digits(n / 10));
        assert(unsigned_digits(decimal_digits(n / 10)) == decimal_digits(n / 10)) by {
            assert('0' <= decimal_digits(n / 10)[0] <= '9');
        }
    } else {
        assert(digits.drop_last() =~= Seq::<char>::empty());
        assert(decimal_value(digits.drop_last()) == 0);
    }
    assert('0' <= digits[0] <= '9');
    assert(unsigned_digits(digits) == digits);
}

/// Different integers have different decimal forms.
pub proof fn decimal_is_injective(a: int, b: int)
    requires
        decimal(a) == decimal(b),
    ensures
        a == b,
{
    let na = if a < 0 { (-a) as nat } else { a as nat };
    let nb = if b < 0 { (-b) as nat } else { b as nat };
    decimal_round_trip(na);
    decimal_round_trip(nb);
    assert('0' <= decimal_digits(na)[0] <= '9');
    assert('0' <= decimal_digits(nb)[0] <= '9');
    if a < 0 {
        assert(decimal(a)[0] == '-');
        assert(decimal(b)[0] == '-');
        assert(decimal(a).drop_first() =~= decimal_digits(na));
        assert(decimal(b).drop_first() =~= decimal_digits(nb));
    } else if b < 0 {
        assert(decimal(b)[0] == '-');
    }
}

/// The value of an optional text is the whole text, if there is one.
pub proof fn optional_texts_are_whole(text: Option<String>)
    ensures
        text is None <==> optional_text(text) is None,
        text matches Some(s) ==> optional_text(text) == Some(s@),
{
}

/// Trimming takes white space away and nothing else: the text is what is left, with white
/// space alone before and after it; and what is left neither starts nor ends with white space.
pub proof fn trimming_takes_white_space_alone(text: Seq<char>) -> (around: (Seq<char>, Seq<char>))
    ensures
        text == around.0 + trimmed(text) + around.1,
        forall|i: int| 0 <= i < around.0.len() ==> is_white_space(#[trigger] around.0[i]),
        forall|i: int| 0 <= i < around.1.len() ==> is_white_space(#[trigger] around.1[i]),
        trimmed(text).len() > 0 ==> !is_white_space(trimmed(text)[0]) && !is_white_space(
            trimmed(text).last(),
        ),
{
    let before = start_taken(text);
    let rest = trimmed_start(text);
    let after = end_taken(rest);
    assert(text =~= before + trimmed(text) + after);
    if trimmed(text).len() > 0 {
        assert(trimmed(text)[0] == rest[0]);
    }
    (before, after)
}

proof fn start_taken(text: Seq<char>) -> (before: Seq<char>)
    ensures
        text == before + trimmed_start(text),
        forall|i: int| 0 <= i < before.len() ==> is_white_space(#[trigger] before[i]),
        trimmed_start(text).len() > 0 ==> !is_white_space(trimmed_start(text)[0]),
    decreases text.len(),
{
    if text.len() > 0 && is_white_space(text[0]) {
        let rest = start_taken(text.drop_first());
        let before = seq![text[0]] + rest;
        assert(text =~= seq![text[0]] + text.drop_first());
        assert(before + trimmed_start(text) =~= seq![text[0]] + (rest + trimmed_start(
            text.drop_first(),
        )));
        assert(text =~= before + trimmed_start(text));
        assert forall|i: int| 0 <= i < before.len() implies is_white_space(
            #[trigger] before[i],
        ) by {
            if i > 0 {
                assert(before[i] == rest[i - 1]);
            }
        }
        before
    } else {
        assert(text =~= Seq::<char>::empty() + trimmed_start(text));
        Seq::empty()
    }
}

proof fn end_taken(text: Seq<char>) -> (after: Seq<char>)
    ensures
        text == trimmed_end(text) + after,
        forall|i: int| 0 <= i < after.len() ==> is_white_space(#[trigger] after[i]),
        trimmed_end(text).len() > 0 ==> !is_white_space(trimmed_end(text).last()),
    decreases text.len(),
{
    if text.len() > 0 && is_white_space(text.last()) {
        let rest = end_taken(text.drop_last());
        let after = rest.push(text.last());
        assert(text =~= text.drop_last().push(text.last()));
        assert(trimmed_end(text) + after =~= (trimmed_end(text.drop_last()) + rest).push(
            text.last(),
        ));
        assert(text =~= trimmed_end(text) + after);
        assert forall|i: int| 0 <= i < after.len() implies is_white_space(#[trigger] after[i]) by {
            if i < rest.len() {
                assert(after[i] == rest[i]);
            }
        }
        after
    } else {
        assert(text =~= trimmed_end(text) + Seq::<char>::empty());
        Seq::empty()
    }
}

/// The characters that count as white space.
pub proof fn white_space_is_that_of_unicode(c: char)
    ensures
        is_white_space(c) <==> c == '\u{9}' || c == '\u{a}' || c == '\u{b}' || c == '\u{c}' || c
            == '\u{d}' || c == '\u{20}' || c == '\u{85}' || c == '\u{a0}' || c == '\u{1680}' || (
        '\u{2000}' <= c <= '\u{200a}') || c == '\u{2028}' || c == '\u{2029}' || c == '\u{202f}' || c
            == '\u{205f}' || c == '\u{3000}',
{
}

/// A number is read digit by digit: a further digit makes it ten times as large and adds the
/// digit, a further character that is no digit makes it no number, and a leading plus sign
/// makes no difference.
pub proof fn numbers_are_read_digit_by_digit(digits: Seq<char>, next: char)
    requires
        forall|i: int| 0 <= i < digits.len() ==> '0' <= #[trigger] digits[i] <= '9',
    ensures
        unsigned_number(Seq::<char>::empty()) is None,
        '0' <= next <= '9' ==> unsigned_number(digits.push(next)) == Some(
            ((if digits.len() > 0 {
                unsigned_number(digits)->0 as int
            } else {
                0
            }) * 10 + (next as int - '0' as int)) as nat,
        ),
        !('0' <= next <= '9') && (digits.len() > 0 || next != '+') ==> unsigned_number(
            digits.push(next),
        ) is None,
        unsigned_number(seq!['+'] + digits) == unsigned_number(digits),
{
    let text = digits.push(next);
    let signed = seq!['+'] + digits;
    assert(signed.drop_first() =~= digits);
    if digits.len() > 0 {
        assert('0' <= digits[0] <= '9');
        assert(text[0] == digits[0]);
        assert(unsigned_digits(digits) == digits);
    }
    if '0' <= next <= '9' {
        assert(unsigned_digits(text) == text);
        assert(text.drop_last() =~= digits);
        if digits.len() == 0 {
            assert(decimal_value(digits) == 0);
        }
    } else if digits.len() > 0 || next != '+' {
        assert(unsigned_digits(text) == text);
        assert(text[text.len() - 1] == next);
    }
}

/// The decimal form of a negative number is a minus sign and that of its magnitude.
pub proof fn negative_numbers_have_a_sign(n: int)
    requires
        n > 0,
    ensures
        decimal(-n) == seq!['-'] + decimal(n),
{
}

/// A number is written digit by digit, without leading zeros: ten times a number and a digit
/// is the number followed by the digit.
pub proof fn numbers_are_written_digit_by_digit(n: nat, d: nat)
    requires
        d < 10,
    ensures
        decimal_digits(d) == seq![('0' as int + d) as char],
        n > 0 ==> decimal_digits(n * 10 + d) == decimal_digits(n).push(('0' as int + d) as char),
        decimal(n as int) == decimal_digits(n),
{
    if n > 0 {
        assert((n * 10 + d) / 10 == n);
        assert((n * 10 + d) % 10 == d);
    }
}

} // verus!
