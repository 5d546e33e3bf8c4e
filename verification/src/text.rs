//! Text handling shared by the converters.

use vstd::prelude::*;
use vstd::utf8::encode_utf8;

verus! {

/// The decimal digits of `n`, most significant first, without leading zeros.
pub open spec fn decimal(n: nat) -> Seq<char>
    decreases n,
{
    if n < 10 {
        seq![digit(n)]
    } else {
        decimal(n / 10).push(digit(n % 10))
    }
}

/// The decimal digit for `n`, which is below ten.
pub open spec fn digit(n: nat) -> char {
    (('0' as u32) + n) as char
}

/// `n` in decimal, behind a minus sign where it is negative.
pub open spec fn integer(n: int) -> Seq<char> {
    if n < 0 {
        "-"@ + decimal((-n) as nat)
    } else {
        decimal(n as nat)
    }
}

/// Whether every character is white space.
pub open spec fn blank(text: Seq<char>) -> bool {
    forall|i: int| 0 <= i < text.len() ==> white_space(#[trigger] text[i])
}

/// Whether a character has the Unicode `White_Space` property.
pub open spec fn white_space(c: char) -> bool {
    let code = c as u32;
    ||| 0x09 <= code <= 0x0d
    ||| code == 0x20
    ||| code == 0x85
    ||| code == 0xa0
    ||| code == 0x1680
    ||| 0x2000 <= code <= 0x200a
    ||| code == 0x2028
    ||| code == 0x2029
    ||| code == 0x202f
    ||| code == 0x205f
    ||| code == 0x3000
}

/// Whether `needle` occurs in `text`.
pub open spec fn occurs(text: Seq<char>, needle: Seq<char>) -> bool {
    exists|i: int| occurs_at(text, needle, i)
}

pub open spec fn occurs_at(text: Seq<char>, needle: Seq<char>, i: int) -> bool {
    0 <= i && i + needle.len() <= text.len() && text.subrange(i, i + needle.len()) == needle
}

/// Where `c` stands last in `text`.
pub open spec fn last_position(text: Seq<char>, c: char) -> Option<int>
    decreases text.len(),
{
    if text.len() == 0 {
        None
    } else if text.last() == c {
        Some(text.len() - 1)
    } else {
        last_position(text.drop_last(), c)
    }
}

/// `text` without `prefix`, where it starts with it.
pub open spec fn without_prefix(text: Seq<char>, prefix: Seq<char>) -> Seq<char> {
    if occurs_at(text, prefix, 0) {
        text.skip(prefix.len() as int)
    } else {
        text
    }
}

pub open spec fn bracket(c: char) -> bool {
    c == '[' || c == ']'
}

/// `text` without the square brackets in front.
pub open spec fn unbracketed_start(text: Seq<char>) -> Seq<char>
    decreases text.len(),
{
    if text.len() > 0 && bracket(text[0]) {
        unbracketed_start(text.drop_first())
    } else {
        text
    }
}

/// `text` without the square brackets at its end.
pub open spec fn unbracketed_end(text: Seq<char>) -> Seq<char>
    decreases text.len(),
{
    if text.len() > 0 && bracket(text.last()) {
        unbracketed_end(text.drop_last())
    } else {
        text
    }
}

/// `text` without the square brackets at either end.
pub open spec fn unbracketed(text: Seq<char>) -> Seq<char> {
    unbracketed_end(unbracketed_start(text))
}

pub open spec fn is_digit(c: char) -> bool {
    '0' <= c <= '9'
}

/// The number that a string of decimal digits writes.
pub open spec fn digits_value(digits: Seq<char>) -> nat
    decreases digits.len(),
{
    if digits.len() == 0 {
        0
    } else {
        digits_value(digits.drop_last()) * 10 + ((digits.last() as u32) - ('0' as u32)) as nat
    }
}

pub open spec fn all_digits(text: Seq<char>) -> bool {
    forall|i: int| 0 <= i < text.len() ==> is_digit(#[trigger] text[i])
}

/// The digits of an unsigned number, behind its optional plus sign.
pub open spec fn magnitude(text: Seq<char>) -> Seq<char> {
    if text.len() > 0 && text[0] == '+' {
        text.skip(1)
    } else {
        text
    }
}

/// The 32-bit unsigned number that `text` writes in decimal, with an optional plus sign.
pub open spec fn parsed_u32(text: Seq<char>) -> Option<u32> {
    let digits = magnitude(text);
    if digits.len() > 0 && all_digits(digits) && digits_value(digits) <= u32::MAX {
        Some(digits_value(digits) as u32)
    } else {
        None
    }
}

pub fn same_text(a: &str, b: &str) -> (same: bool)
    ensures
        same == (a@ == b@),
{
    let a_bytes = a.as_bytes();
    let b_bytes = b.as_bytes();
    proof {
        vstd::utf8::encode_utf8_decode_utf8(a@);
        vstd::utf8::encode_utf8_decode_utf8(b@);
    }
    same_bytes(a_bytes, b_bytes)
}

/// Whether bytes come before others: at the first place where they differ, or because they end
/// there.
pub open spec fn bytes_before(a: Seq<u8>, b: Seq<u8>) -> bool
    decreases a.len(),
{
    if b.len() == 0 {
        false
    } else if a.len() == 0 {
        true
    } else if a[0] != b[0] {
        a[0] < b[0]
    } else {
        bytes_before(a.skip(1), b.skip(1))
    }
}

/// Whether a text comes before another one, in the order of their bytes.
pub open spec fn text_before(a: Seq<char>, b: Seq<char>) -> bool {
    bytes_before(encode_utf8(a), encode_utf8(b))
}

pub proof fn lemma_bytes_before_trans(a: Seq<u8>, b: Seq<u8>, c: Seq<u8>)
    requires
        bytes_before(a, b),
        bytes_before(b, c),
    ensures
        bytes_before(a, c),
    decreases a.len(),
{
    if a.len() > 0 && a[0] == b[0] && b[0] == c[0] {
        lemma_bytes_before_trans(a.skip(1), b.skip(1), c.skip(1));
    }
}

pub proof fn lemma_bytes_before_irreflexive(a: Seq<u8>)
    ensures
        !bytes_before(a, a),
    decreases a.len(),
{
    if a.len() > 0 {
        lemma_bytes_before_irreflexive(a.skip(1));
    }
}

pub fn is_text_before(a: &str, b: &str) -> (before: bool)
    ensures
        before == text_before(a@, b@),
{
    let a = a.as_bytes();
    let b = b.as_bytes();
    let mut i: usize = 0;
    assert(a@.skip(0) =~= a@ && b@.skip(0) =~= b@);
    while i < a.len() && i < b.len() && a[i] == b[i]
        invariant
            i <= a@.len(),
            i <= b@.len(),
            bytes_before(a@, b@) == bytes_before(a@.skip(i as int), b@.skip(i as int)),
        decreases a@.len() - i,
    {
        assert(a@.skip(i as int).skip(1) =~= a@.skip(i + 1));
        assert(b@.skip(i as int).skip(1) =~= b@.skip(i + 1));
        i += 1;
    }
    if i == b.len() {
        false
    } else if i == a.len() {
        true
    } else {
        a[i] < b[i]
    }
}

pub fn same_bytes(a: &[u8], b: &[u8]) -> (same: bool)
    ensures
        same == (a@ == b@),
{
    if a.len() != b.len() {
        return false;
    }
    for i in 0..a.len()
        invariant
            a@.len() == b@.len(),
            forall|j: int| 0 <= j < i ==> a@[j] == b@[j],
    {
        if a[i] != b[i] {
            return false;
        }
    }
    assert(a@ =~= b@);
    true
}

pub fn is_white_space(c: char) -> (white: bool)
    ensures
        white == white_space(c),
{
    let code: u32 = c as u32;
    (0x09 <= code && code <= 0x0d) || code == 0x20 || code == 0x85 || code == 0xa0
        || code == 0x1680 || (0x2000 <= code && code <= 0x200a) || code == 0x2028
        || code == 0x2029 || code == 0x202f || code == 0x205f || code == 0x3000
}

/// The characters of `text`.
pub fn chars_of(text: &str) -> (chars: Vec<char>)
    ensures
        chars@ == text@,
{
    let mut chars: Vec<char> = Vec::new();
    for c in iter: text.chars()
        invariant
            chars@ == text@.take(iter.index() as int),
            iter.seq() == text@,
    {
        chars.push(c);
    }
    chars
}

pub fn is_blank(text: &str) -> (is: bool)
    ensures
        is == blank(text@),
{
    for c in iter: text.chars()
        invariant
            iter.seq() == text@,
            forall|j: int| 0 <= j < iter.index() ==> white_space(#[trigger] text@[j]),
    {
        if !is_white_space(c) {
            assert(!white_space(text@[iter.index() as int]));
            return false;
        }
    }
    true
}

/// Whether `needle` occurs in `text`.
pub fn text_contains(text: &str, needle: &str) -> (found: bool)
    ensures
        found == occurs(text@, needle@),
{
    let hay = chars_of(text);
    let pattern = chars_of(needle);
    if pattern.len() > hay.len() {
        return false;
    }
    let last: usize = hay.len() - pattern.len();
    let mut start: usize = 0;
    while start <= last
        invariant
            hay@ == text@,
            pattern@ == needle@,
            last == hay@.len() - pattern@.len(),
            start <= last + 1,
            forall|i: int| 0 <= i < start ==> !occurs_at(text@, needle@, i),
        decreases last + 1 - start,
    {
        if matches_at(&hay, &pattern, start) {
            assert(occurs_at(text@, needle@, start as int));
            return true;
        }
        if start == last {
            return false;
        }
        start += 1;
    }
    false
}

/// Whether `pattern` stands in `hay` at `start`.
fn matches_at(hay: &Vec<char>, pattern: &Vec<char>, start: usize) -> (found: bool)
    requires
        start + pattern@.len() <= hay@.len(),
    ensures
        found == occurs_at(hay@, pattern@, start as int),
{
    let total: usize = hay.len();
    for j in 0..pattern.len()
        invariant
            start + pattern@.len() <= total,
            total == hay@.len(),
            forall|k: int| 0 <= k < j ==> hay@[start + k] == pattern@[k],
    {
        if hay[start + j] != pattern[j] {
            assert(hay@.subrange(start as int, start + pattern@.len())[j as int]
                != pattern@[j as int]);
            return false;
        }
    }
    assert(hay@.subrange(start as int, start + pattern@.len()) =~= pattern@);
    true
}

/// Where `c` stands last in `chars`.
pub fn find_last(chars: &Vec<char>, c: char) -> (position: Option<usize>)
    ensures
        match position {
            Some(i) => last_position(chars@, c) == Some(i as int) && i < chars@.len()
                && chars@[i as int] == c,
            None => last_position(chars@, c) is None,
        },
{
    let mut end: usize = chars.len();
    assert(chars@.take(end as int) =~= chars@);
    while end > 0
        invariant
            end <= chars@.len(),
            last_position(chars@.take(end as int), c) == last_position(chars@, c),
        decreases end,
    {
        assert(chars@.take(end as int).last() == chars@[end - 1]);
        if chars[end - 1] == c {
            return Some(end - 1);
        }
        assert(chars@.take(end as int).drop_last() =~= chars@.take(end - 1));
        end -= 1;
    }
    None
}

/// `text` without `prefix`, where it starts with it.
pub fn strip_prefix<'a>(text: &'a str, prefix: &str) -> (rest: &'a str)
    ensures
        rest@ == without_prefix(text@, prefix@),
{
    let hay = chars_of(text);
    let pattern = chars_of(prefix);
    if pattern.len() <= hay.len() && matches_at(&hay, &pattern, 0) {
        assert(text@.skip(prefix@.len() as int) =~= text@.subrange(
            prefix@.len() as int,
            text@.len() as int,
        ));
        text.substring_char(pattern.len(), hay.len())
    } else {
        text
    }
}

fn is_bracket(c: char) -> (is: bool)
    ensures
        is == bracket(c),
{
    c == '[' || c == ']'
}

/// `text` without the square brackets at either end.
pub fn trim_brackets<'a>(text: &'a str) -> (rest: &'a str)
    ensures
        rest@ == unbracketed(text@),
{
    let chars = chars_of(text);
    let mut start: usize = 0;
    assert(text@.skip(0) =~= text@);
    while start < chars.len() && is_bracket(chars[start])
        invariant
            chars@ == text@,
            start <= chars@.len(),
            unbracketed_start(text@) == unbracketed_start(text@.skip(start as int)),
        decreases chars@.len() - start,
    {
        assert(text@.skip(start as int).drop_first() =~= text@.skip(start + 1));
        start += 1;
    }
    let ghost front = text@.skip(start as int);
    assert(unbracketed_start(text@) == front);
    let mut end: usize = chars.len();
    assert(front =~= text@.subrange(start as int, end as int));
    while end > start && is_bracket(chars[end - 1])
        invariant
            chars@ == text@,
            start <= end <= chars@.len(),
            unbracketed_end(front) == unbracketed_end(text@.subrange(start as int, end as int)),
        decreases end,
    {
        assert(text@.subrange(start as int, end as int).drop_last() =~= text@.subrange(
            start as int,
            end - 1,
        ));
        end -= 1;
    }
    text.substring_char(start, end)
}

proof fn lemma_value_grows(digits: Seq<char>, n: int)
    requires
        0 <= n <= digits.len(),
        all_digits(digits),
    ensures
        digits_value(digits.take(n)) <= digits_value(digits),
    decreases digits.len() - n,
{
    if n < digits.len() {
        lemma_value_grows(digits, n + 1);
        assert(digits.take(n + 1).drop_last() =~= digits.take(n));
    } else {
        assert(digits.take(n) =~= digits);
    }
}

/// The 32-bit unsigned number that `text` writes in decimal.
pub fn parse_u32(text: &str) -> (number: Option<u32>)
    ensures
        number == parsed_u32(text@),
{
    let chars = chars_of(text);
    let start: usize = if chars.len() > 0 && chars[0] == '+' {
        1
    } else {
        0
    };
    let ghost digits = magnitude(text@);
    assert(digits =~= text@.skip(start as int));
    if start == chars.len() {
        return None;
    }
    let mut value: u64 = 0;
    let mut fits: bool = true;
    let mut i: usize = start;
    while i < chars.len()
        invariant
            chars@ == text@,
            start <= i <= chars@.len(),
            digits == text@.skip(start as int),
            digits == magnitude(text@),
            forall|j: int| 0 <= j < i - start ==> is_digit(#[trigger] digits[j]),
            fits ==> value == digits_value(digits.take(i - start)) && value <= u32::MAX,
            !fits ==> exists|n: int|
                0 <= n <= i - start && #[trigger] digits_value(digits.take(n)) > u32::MAX,
        decreases chars@.len() - i,
    {
        let c = chars[i];
        assert(digits[i - start] == c);
        if !('0' <= c && c <= '9') {
            return None;
        }
        assert(digits.take(i - start + 1).drop_last() =~= digits.take(i - start));
        if fits {
            value = value * 10 + ((c as u32) - ('0' as u32)) as u64;
            if value > 0xffff_ffff {
                assert(digits_value(digits.take(i - start + 1)) > u32::MAX);
                fits = false;
            }
        }
        i += 1;
    }
    assert(digits.take(i - start) =~= digits);
    if !fits {
        proof {
            let n = choose|n: int|
                0 <= n <= i - start && #[trigger] digits_value(digits.take(n)) > u32::MAX;
            lemma_value_grows(digits, n);
        }
        return None;
    }
    Some(value as u32)
}

fn digit_text(n: u64) -> (text: &'static str)
    requires
        n < 10,
    ensures
        text@ == seq![digit(n as nat)],
{
    proof {
        reveal_strlit("0");
        reveal_strlit("1");
        reveal_strlit("2");
        reveal_strlit("3");
        reveal_strlit("4");
        reveal_strlit("5");
        reveal_strlit("6");
        reveal_strlit("7");
        reveal_strlit("8");
        reveal_strlit("9");
    }
    let text = match n {
        0 => "0",
        1 => "1",
        2 => "2",
        3 => "3",
        4 => "4",
        5 => "5",
        6 => "6",
        7 => "7",
        8 => "8",
        _ => "9",
    };
    assert(text@ =~= seq![digit(n as nat)]);
    text
}

/// `n` in decimal.
pub fn decimal_text(n: u64) -> (text: String)
    ensures
        text@ == decimal(n as nat),
    decreases n,
{
    if n < 10 {
        digit_text(n).to_string()
    } else {
        let text = decimal_text(n / 10).concat(digit_text(n % 10));
        assert(text@ =~= decimal((n / 10) as nat).push(digit((n % 10) as nat)));
        text
    }
}

/// Different numbers are written differently.
pub proof fn lemma_decimal_is_injective(a: nat, b: nat)
    requires
        decimal(a) == decimal(b),
    ensures
        a == b,
    decreases a,
{
    lemma_decimal_len(a);
    lemma_decimal_len(b);
    if a < 10 && b < 10 {
        assert(decimal(a)[0] == digit(a) && decimal(b)[0] == digit(b));
    } else if a < 10 {
        lemma_decimal_len(b / 10);
        assert(decimal(b).len() >= 2);
    } else if b < 10 {
        lemma_decimal_len(a / 10);
        assert(decimal(a).len() >= 2);
    } else {
        assert(decimal(a).drop_last() =~= decimal(a / 10));
        assert(decimal(b).drop_last() =~= decimal(b / 10));
        assert(decimal(a).last() == digit(a % 10) && decimal(b).last() == digit(b % 10));
        lemma_decimal_is_injective(a / 10, b / 10);
    }
}

proof fn lemma_decimal_len(n: nat)
    ensures
        decimal(n).len() >= 1,
    decreases n,
{
    if n >= 10 {
        lemma_decimal_len(n / 10);
    }
}

/// `n` in decimal, behind a minus sign where it is negative.
pub fn integer_text(n: i32) -> (text: String)
    ensures
        text@ == integer(n as int),
{
    if n < 0 {
        "-".to_string().concat(decimal_text((-(n as i64)) as u64).as_str())
    } else {
        decimal_text(n as u64)
    }
}

/// The text, or the empty one where there is none.
pub open spec fn or_empty(text: Option<Seq<char>>) -> Seq<char> {
    match text {
        Some(text) => text,
        None => Seq::empty(),
    }
}

pub open spec fn text_view(text: Option<String>) -> Option<Seq<char>> {
    match text {
        Some(text) => Some(text@),
        None => None,
    }
}

pub fn no_text() -> (text: String)
    ensures
        text@ == Seq::<char>::empty(),
{
    proof {
        reveal_strlit("");
    }
    let text = "".to_string();
    assert(text@ =~= Seq::empty());
    text
}

/// A copy of the text, or the empty text where there is none.
pub fn text_or_empty(text: &Option<String>) -> (copy: String)
    ensures
        copy@ == or_empty(text_view(*text)),
{
    match text {
        Some(text) => text.clone(),
        None => no_text(),
    }
}

// Laws.

proof fn lemma_decimal_reads_back(n: nat)
    ensures
        decimal(n).len() >= 1,
        all_digits(decimal(n)),
        digits_value(decimal(n)) == n,
    decreases n,
{
    if n < 10 {
        let c = digit(n);
        assert('0' <= c <= '9' && (c as u32) - ('0' as u32) == n);
        assert(decimal(n).drop_last() =~= Seq::empty());
        assert(decimal(n).last() == c);
        assert(digits_value(Seq::empty()) == 0);
    } else {
        lemma_decimal_reads_back(n / 10);
        let c = digit(n % 10);
        assert('0' <= c <= '9' && (c as u32) - ('0' as u32) == n % 10);
        assert(decimal(n).drop_last() =~= decimal(n / 10));
        assert forall|i: int| 0 <= i < decimal(n).len() implies is_digit(
            #[trigger] decimal(n)[i],
        ) by {
            if i < decimal(n / 10).len() {
                assert(decimal(n)[i] == decimal(n / 10)[i]);
            }
        }
    }
}

/// A number that is written in decimal is made of digits alone, without a zero in front, and is
/// read back as the same number, with a plus sign in front or without, as long as it fits into 32
/// bits. Larger ones are not read.
pub proof fn numbers_are_read_back(n: nat)
    ensures
        decimal(n).len() >= 1,
        forall|i: int| 0 <= i < decimal(n).len() ==> '0' <= #[trigger] decimal(n)[i] <= '9',
        n > 0 ==> decimal(n)[0] != '0',
        n <= 4294967295 ==> parsed_u32(decimal(n)) == Some(n as u32),
        n <= 4294967295 ==> parsed_u32(seq!['+'] + decimal(n)) == Some(n as u32),
        n > 4294967295 ==> parsed_u32(decimal(n)) is None,
    decreases n,
{
    lemma_decimal_reads_back(n);
    assert forall|i: int| 0 <= i < decimal(n).len() implies '0' <= #[trigger] decimal(n)[i]
        <= '9' by {
        assert(is_digit(decimal(n)[i]));
    }
    assert(magnitude(decimal(n)) == decimal(n));
    assert((seq!['+'] + decimal(n)).skip(1) =~= decimal(n));
    if n >= 10 {
        numbers_are_read_back(n / 10);
        assert(decimal(n)[0] == decimal(n / 10)[0]);
    } else if n > 0 {
        assert(decimal(n)[0] == digit(n));
    }
}

/// What is no row of digits is not read as a number.
pub proof fn only_digits_are_read(text: Seq<char>, i: int)
    requires
        1 <= i < text.len(),
        !('0' <= text[i] <= '9'),
    ensures
        parsed_u32(text) is None,
        parsed_u32(Seq::empty()) is None,
{
    let digits = magnitude(text);
    if text[0] == '+' {
        assert(digits[i - 1] == text[i]);
        assert(!is_digit(digits[i - 1]));
    } else {
        assert(!is_digit(digits[i]));
    }
}

/// A text is blank exactly where it holds nothing but spaces: the tab, the line ends, the space
/// and the spaces and separators beyond ASCII.
pub proof fn blank_texts_hold_spaces(text: Seq<char>)
    ensures
        blank(text) <==> forall|i: int|
            0 <= i < text.len() ==> {
                let code = (#[trigger] text[i]) as u32;
                code == 9 || code == 10 || code == 11 || code == 12 || code == 13 || code == 32
                    || code == 133 || code == 160 || code == 5760 || 8192 <= code <= 8202 || code
                    == 8232 || code == 8233 || code == 8239 || code == 8287 || code == 12288
            },
        blank(Seq::empty()),
{
    assert forall|i: int| 0 <= i < text.len() implies white_space(#[trigger] text[i]) == {
        let code = text[i] as u32;
        code == 9 || code == 10 || code == 11 || code == 12 || code == 13 || code == 32 || code
            == 133 || code == 160 || code == 5760 || 8192 <= code <= 8202 || code == 8232 || code
            == 8233 || code == 8239 || code == 8287 || code == 12288
    } by {}
    if blank(text) {
        assert forall|i: int| 0 <= i < text.len() implies white_space(#[trigger] text[i]) by {}
    }
}

/// The last place of a character holds it, and no later one does.
pub proof fn last_positions_are_last(text: Seq<char>, c: char)
    ensures
        match last_position(text, c) {
            Some(i) => 0 <= i < text.len() && text[i] == c && forall|j: int|
                i < j < text.len() ==> #[trigger] text[j] != c,
            None => forall|j: int| 0 <= j < text.len() ==> #[trigger] text[j] != c,
        },
    decreases text.len(),
{
    if text.len() > 0 && text.last() != c {
        last_positions_are_last(text.drop_last(), c);
        assert forall|j: int| 0 <= j < text.len() - 1 implies text.drop_last()[j]
            == #[trigger] text[j] by {}
    }
}

/// A text is found behind and in front of any others, and is taken off where it is the prefix.
/// What does not start with it is left as it is.
pub proof fn parts_are_found(front: Seq<char>, part: Seq<char>, back: Seq<char>)
    ensures
        occurs(front + part + back, part),
        without_prefix(part + back, part) == back,
        front.len() >= part.len() && front.take(part.len() as int) != part ==> without_prefix(
            front,
            part,
        ) == front,
{
    let text = front + part + back;
    assert(text.subrange(front.len() as int, front.len() as int + part.len()) =~= part);
    assert(occurs_at(text, part, front.len() as int));
    assert((part + back).subrange(0, part.len() as int) =~= part);
    assert((part + back).skip(part.len() as int) =~= back);
    if front.len() >= part.len() {
        assert(front.subrange(0, part.len() as int) =~= front.take(part.len() as int));
    }
}

/// Square brackets are taken off at both ends, however many there are, and nothing else is.
pub proof fn brackets_are_taken_off(text: Seq<char>)
    requires
        text.len() > 0,
        text[0] != '[' && text[0] != ']',
        text[text.len() - 1] != '[' && text[text.len() - 1] != ']',
    ensures
        unbracketed(text) == text,
        unbracketed(seq!['['] + text + seq![']']) == text,
        unbracketed(seq!['[', ']']).len() == 0,
{
    let enclosed = seq!['['] + text + seq![']'];
    let started = text + seq![']'];
    assert(enclosed.drop_first() =~= started);
    assert(started[0] == text[0]);
    reveal_with_fuel(unbracketed_start, 3);
    reveal_with_fuel(unbracketed_end, 3);
    assert(started.drop_last() =~= text);
    assert(seq!['[', ']'].drop_first() =~= seq![']']);
    assert(seq![']'].drop_first() =~= Seq::empty());
}

/// What occurs at a position lies within the text, character by character.
pub proof fn parts_lie_within(text: Seq<char>, needle: Seq<char>, i: int, j: int)
    requires
        occurs_at(text, needle, i),
    ensures
        0 <= i,
        i + needle.len() <= text.len(),
        0 <= j < needle.len() ==> text[i + j] == needle[j],
{
    if 0 <= j < needle.len() {
        assert(text.subrange(i, i + needle.len() as int)[j] == needle[j]);
    }
}

/// A text that may be left out is seen as it is, and stands for no text where it is left out.
pub proof fn texts_may_be_left_out(text: Option<String>)
    ensures
        text is None ==> text_view(text) is None && or_empty(text_view(text)).len() == 0,
        text matches Some(given) ==> text_view(text) == Some(given@) && or_empty(text_view(text))
            == given@,
{
}

} // verus!
