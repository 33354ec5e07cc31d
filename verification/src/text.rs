//! Text as sequences of characters: trimming, prefixes, and decimal numerals.
use vstd::prelude::*;

verus! {

/// `String::push` appends one character to the end of the string.
pub assume_specification[ String::push ](text: &mut String, c: char)
    ensures
        final(text)@ == old(text)@.push(c),
;

/// The characters with the Unicode property `White_Space`.
pub open spec fn is_white_space(c: char) -> bool {
    let code = c as u32;
    ||| 0x09 <= code <= 0x0d
    ||| code == 0x20
    ||| code == 0x85
    ||| code == 0xa0
    ||| code == 0x1680
    ||| 0x2000 <= code <= 0x200a
    ||| code == 0x2028
    ||| code == 0x2029
    ||| code == 0x202f
    ||| code == 0x205f
    ||| code == 0x3000
}

/// Whether `c` has the Unicode property `White_Space`.
pub fn white_space(c: char) -> (result: bool)
    ensures
        result == is_white_space(c),
{
    let code: u32 = c as u32;
    (0x09 <= code && code <= 0x0d) || code == 0x20 || code == 0x85 || code == 0xa0 || code == 0x1680
        || (0x2000 <= code && code <= 0x200a) || code == 0x2028 || code == 0x2029 || code == 0x202f
        || code == 0x205f || code == 0x3000
}

/// The characters of a text, in order.
pub fn chars_of(text: &str) -> (result: Vec<char>)
    ensures
        result@ == text@,
{
    let mut result: Vec<char> = Vec::new();
    for c in it: text.chars()
        invariant
            it.seq() == text@,
            result@ == it.seq().take(it.index() as int),
    {
        result.push(c);
    }
    result
}

/// The text made of the characters of `chars` from `from` up to `to`.
pub fn text_of(chars: &Vec<char>, from: usize, to: usize) -> (result: String)
    requires
        from <= to <= chars@.len(),
    ensures
        result@ == chars@.subrange(from as int, to as int),
{
    let mut result = String::new();
    let mut i: usize = from;
    while i < to
        invariant
            from <= i <= to <= chars@.len(),
            result@ == chars@.subrange(from as int, i as int),
        decreases to - i,
    {
        result.push(chars[i]);
        i = i + 1;
    }
    result
}

/// `text` without its longest prefix of characters that satisfy `drop`.
pub open spec fn drop_leading(text: Seq<char>, drop: spec_fn(char) -> bool) -> Seq<char>
    decreases text.len(),
{
    if text.len() > 0 && drop(text[0]) {
        drop_leading(text.drop_first(), drop)
    } else {
        text
    }
}

/// `text` without its longest suffix of characters that satisfy `drop`.
pub open spec fn drop_trailing(text: Seq<char>, drop: spec_fn(char) -> bool) -> Seq<char>
    decreases text.len(),
{
    if text.len() > 0 && drop(text.last()) {
        drop_trailing(text.drop_last(), drop)
    } else {
        text
    }
}

/// The predicate that holds of white space.
pub open spec fn white() -> spec_fn(char) -> bool {
    |c: char| is_white_space(c)
}

/// The predicate that holds of `/`.
pub open spec fn slash() -> spec_fn(char) -> bool {
    |c: char| c == '/'
}

/// `text` without the white space around it.
pub open spec fn trimmed(text: Seq<char>) -> Seq<char> {
    drop_trailing(drop_leading(text, white()), white())
}

pub proof fn lemma_drop_leading(text: Seq<char>, drop: spec_fn(char) -> bool, from: int)
    requires
        0 <= from <= text.len(),
        forall|i: int| 0 <= i < from ==> drop(#[trigger] text[i]),
        from < text.len() ==> !drop(text[from]),
    ensures
        drop_leading(text, drop) == text.subrange(from, text.len() as int),
    decreases text.len(),
{
    if from == 0 {
        assert(text.subrange(0, text.len() as int) == text);
    } else {
        lemma_drop_leading(text.drop_first(), drop, from - 1);
        assert(text.drop_first().subrange(from - 1, text.len() - 1) == text.subrange(
            from,
            text.len() as int,
        ));
    }
}

pub proof fn lemma_drop_trailing(text: Seq<char>, drop: spec_fn(char) -> bool, to: int)
    requires
        0 <= to <= text.len(),
        forall|i: int| to <= i < text.len() ==> drop(#[trigger] text[i]),
        to > 0 ==> !drop(text[to - 1]),
    ensures
        drop_trailing(text, drop) == text.subrange(0, to),
    decreases text.len(),
{
    if to == text.len() {
        assert(text.subrange(0, to) == text);
    } else {
        lemma_drop_trailing(text.drop_last(), drop, to);
        assert(text.drop_last().subrange(0, to) == text.subrange(0, to));
    }
}

/// `text` without the white space around it.
pub fn trim(text: &str) -> (result: String)
    ensures
        result@ == trimmed(text@),
{
    let chars = chars_of(text);
    let mut from: usize = 0;
    while from < chars.len() && white_space(chars[from])
        invariant
            from <= chars@.len(),
            forall|i: int| 0 <= i < from ==> is_white_space(#[trigger] chars@[i]),
        decreases chars@.len() - from,
    {
        from = from + 1;
    }
    let mut to: usize = chars.len();
    while to > from && white_space(chars[to - 1])
        invariant
            from <= to <= chars@.len(),
            forall|i: int| to <= i < chars@.len() ==> is_white_space(#[trigger] chars@[i]),
        decreases to,
    {
        to = to - 1;
    }
    proof {
        let tail = chars@.subrange(from as int, chars@.len() as int);
        lemma_drop_leading(chars@, white(), from as int);
        lemma_drop_trailing(tail, white(), to - from);
        assert(tail.subrange(0, to - from) == chars@.subrange(from as int, to as int));
    }
    text_of(&chars, from, to)
}

/// `text` without the slashes that it begins with.
pub fn trim_leading_slashes(text: &str) -> (result: String)
    ensures
        result@ == drop_leading(text@, slash()),
{
    let chars = chars_of(text);
    let mut from: usize = 0;
    while from < chars.len() && chars[from] == '/'
        invariant
            from <= chars@.len(),
            forall|i: int| 0 <= i < from ==> #[trigger] chars@[i] == '/',
        decreases chars@.len() - from,
    {
        from = from + 1;
    }
    proof {
        lemma_drop_leading(chars@, slash(), from as int);
    }
    text_of(&chars, from, chars.len())
}

/// `text` without the slashes that it ends with.
pub fn trim_trailing_slashes(text: &str) -> (result: String)
    ensures
        result@ == drop_trailing(text@, slash()),
{
    let chars = chars_of(text);
    let mut to: usize = chars.len();
    while to > 0 && chars[to - 1] == '/'
        invariant
            to <= chars@.len(),
            forall|i: int| to <= i < chars@.len() ==> #[trigger] chars@[i] == '/',
        decreases to,
    {
        to = to - 1;
    }
    proof {
        lemma_drop_trailing(chars@, slash(), to as int);
    }
    text_of(&chars, 0, to)
}

/// Whether `a` and `b` are the same bytes.
pub fn same_bytes(a: &[u8], b: &[u8]) -> (result: bool)
    ensures
        result == (a@ == b@),
{
    if a.len() != b.len() {
        return false;
    }
    let mut i: usize = 0;
    while i < a.len()
        invariant
            i <= a@.len() == b@.len(),
            forall|j: int| 0 <= j < i ==> a@[j] == b@[j],
        decreases a@.len() - i,
    {
        if a[i] != b[i] {
            return false;
        }
        i = i + 1;
    }
    assert(a@ =~= b@);
    true
}

/// Whether `a` and `b` are the same text.
pub fn same_text(a: &str, b: &str) -> (result: bool)
    ensures
        result == (a@ == b@),
{
    proof {
        vstd::utf8::encode_utf8_decode_utf8(a@);
        vstd::utf8::encode_utf8_decode_utf8(b@);
    }
    same_bytes(a.as_bytes(), b.as_bytes())
}

/// Whether `text` begins with `prefix`.
pub fn has_prefix(text: &str, prefix: &str) -> (result: bool)
    ensures
        result == prefix@.is_prefix_of(text@),
{
    let whole = chars_of(text);
    let head = chars_of(prefix);
    if head.len() > whole.len() {
        return false;
    }
    let mut i: usize = 0;
    while i < head.len()
        invariant
            i <= head@.len() <= whole@.len(),
            whole@ == text@,
            head@ == prefix@,
            forall|j: int| 0 <= j < i ==> head@[j] == whole@[j],
        decreases head@.len() - i,
    {
        if head[i] != whole[i] {
            assert(text@.subrange(0, prefix@.len() as int)[i as int] != prefix@[i as int]);
            return false;
        }
        i = i + 1;
    }
    assert(prefix@ =~= text@.subrange(0, prefix@.len() as int));
    true
}

/// Whether `text` ends with `/`.
pub fn ends_with_slash(text: &str) -> (result: bool)
    ensures
        result == (text@.len() > 0 && text@.last() == '/'),
{
    let chars = chars_of(text);
    chars.len() > 0 && chars[chars.len() - 1] == '/'
}

/// Whether `c` occurs in `text`.
pub fn has_char(text: &str, c: char) -> (result: bool)
    ensures
        result == text@.contains(c),
{
    let chars = chars_of(text);
    let mut i: usize = 0;
    while i < chars.len()
        invariant
            i <= chars@.len(),
            chars@ == text@,
            forall|j: int| 0 <= j < i ==> chars@[j] != c,
        decreases chars@.len() - i,
    {
        if chars[i] == c {
            return true;
        }
        i = i + 1;
    }
    false
}

/// Two slashes stand next to each other in `text`.
pub open spec fn has_double_slash(text: Seq<char>) -> bool {
    exists|i: int| 0 <= i < text.len() - 1 && #[trigger] text[i] == '/' && text[i + 1] == '/'
}

/// Whether two slashes stand next to each other in `text`.
pub fn double_slash(text: &str) -> (result: bool)
    ensures
        result == has_double_slash(text@),
{
    let chars = chars_of(text);
    let mut i: usize = 1;
    while i < chars.len()
        invariant
            1 <= i,
            chars@ == text@,
            forall|j: int|
                0 <= j < i - 1 && j < chars@.len() - 1 ==> !(#[trigger] chars@[j] == '/' && chars@[j
                    + 1] == '/'),
        decreases chars@.len() - i,
    {
        if chars[i - 1] == '/' && chars[i] == '/' {
            assert(text@[i - 1] == '/' && text@[i - 1 + 1] == '/');
            return true;
        }
        i = i + 1;
    }
    false
}

/// The character for a digit.
pub open spec fn digit_char(digit: nat) -> char {
    (('0' as u32) + digit) as char
}

/// The decimal numeral of a natural number.
pub open spec fn numeral(n: nat) -> Seq<char>
    decreases n,
{
    if n < 10 {
        seq![digit_char(n)]
    } else {
        numeral(n / 10).push(digit_char(n % 10))
    }
}

/// The decimal numeral of an integer.
pub open spec fn signed_numeral(n: int) -> Seq<char> {
    if n < 0 {
        seq!['-'] + numeral((-n) as nat)
    } else {
        numeral(n as nat)
    }
}

fn digit(d: u64) -> (result: char)
    requires
        d < 10,
    ensures
        result == digit_char(d as nat),
{
    match d {
        0 => '0',
        1 => '1',
        2 => '2',
        3 => '3',
        4 => '4',
        5 => '5',
        6 => '6',
        7 => '7',
        8 => '8',
        _ => '9',
    }
}

/// The decimal numeral of `n`.
pub fn decimal(n: u64) -> (result: String)
    ensures
        result@ == numeral(n as nat),
    decreases n,
{
    if n < 10 {
        let mut result = String::new();
        result.push(digit(n));
        result
    } else {
        let mut result = decimal(n / 10);
        result.push(digit(n % 10));
        result
    }
}

/// The decimal numeral of `n`.
pub fn signed_decimal(n: i64) -> (result: String)
    ensures
        result@ == signed_numeral(n as int),
{
    if n < 0 {
        let mut result = String::new();
        result.push('-');
        result.append(decimal((-(n as i128)) as u64).as_str());
        result
    } else {
        decimal(n as u64)
    }
}

/// A decimal digit.
pub open spec fn is_digit(c: char) -> bool {
    '0' <= c <= '9'
}

/// The number that a row of digits stands for.
pub open spec fn digits_value(digits: Seq<char>) -> nat
    decreases digits.len(),
{
    if digits.len() == 0 {
        0
    } else {
        10 * digits_value(digits.drop_last()) + (digits.last() as u32 - '0' as u32) as nat
    }
}

/// The whole number that a text stands for: digits, with a sign before them or without.
pub open spec fn integer_of(text: Seq<char>) -> Option<int> {
    let signed = text.len() > 0 && (text[0] == '+' || text[0] == '-');
    let digits = if signed {
        text.drop_first()
    } else {
        text
    };
    if digits.len() == 0 || exists|i: int| 0 <= i < digits.len() && !is_digit(#[trigger] digits[i]) {
        None
    } else if text[0] == '-' {
        Some(-digits_value(digits))
    } else {
        Some(digits_value(digits) as int)
    }
}

/// `str::parse` to an `i32`: the whole number that the text stands for, if an `i32` holds it. The
/// text of the error is not known.
#[verifier::external_body]
pub(crate) fn parse_i32(text: &str) -> (result: Result<i32, String>)
    ensures
        match integer_of(text@) {
            Some(n) if i32::MIN <= n <= i32::MAX => result == Ok::<i32, String>(n as i32),
            _ => result is Err,
        },
{
    text.parse::<i32>().map_err(|e| e.to_string())
}

} // verus!
