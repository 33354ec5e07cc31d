//! What holds of the texts that paths, settings and numbers are made of.
use vstd::prelude::*;

use crate::config::{mask_secret, normalize_env_value, read_config_value, ConfigValue};
use crate::text::{
    decimal, digit_char, digits_value, double_slash, drop_leading, drop_trailing, is_white_space,
    lemma_drop_leading, lemma_drop_trailing, numeral, signed_decimal, slash, trim,
    trim_leading_slashes, trim_trailing_slashes, trimmed, white, white_space,
};

verus! {

/// White space is the tabulator, the five characters that end a line, the blank, and the blanks of
/// other scripts and widths; nothing else is.
pub proof fn law_white_space(c: char, result: bool)
    requires
        call_ensures(white_space, (c,), result),
    ensures
        is_white_space(c) == result,
        result <==> seq![
            '\t',
            '\n',
            '\u{b}',
            '\u{c}',
            '\r',
            ' ',
            '\u{85}',
            '\u{a0}',
            '\u{1680}',
            '\u{2000}',
            '\u{2001}',
            '\u{2002}',
            '\u{2003}',
            '\u{2004}',
            '\u{2005}',
            '\u{2006}',
            '\u{2007}',
            '\u{2008}',
            '\u{2009}',
            '\u{200a}',
            '\u{2028}',
            '\u{2029}',
            '\u{202f}',
            '\u{205f}',
            '\u{3000}',
        ].contains(c),
{
    let list = seq![
        '\t',
        '\n',
        '\u{b}',
        '\u{c}',
        '\r',
        ' ',
        '\u{85}',
        '\u{a0}',
        '\u{1680}',
        '\u{2000}',
        '\u{2001}',
        '\u{2002}',
        '\u{2003}',
        '\u{2004}',
        '\u{2005}',
        '\u{2006}',
        '\u{2007}',
        '\u{2008}',
        '\u{2009}',
        '\u{200a}',
        '\u{2028}',
        '\u{2029}',
        '\u{202f}',
        '\u{205f}',
        '\u{3000}',
    ];
    assert(list.len() == 25);
    if result {
        assert(list[0] == c || list[1] == c || list[2] == c || list[3] == c || list[4] == c
            || list[5] == c || list[6] == c || list[7] == c || list[8] == c || list[9] == c
            || list[10] == c || list[11] == c || list[12] == c || list[13] == c || list[14] == c
            || list[15] == c || list[16] == c || list[17] == c || list[18] == c || list[19] == c
            || list[20] == c || list[21] == c || list[22] == c || list[23] == c || list[24] == c);
    }
}

/// Every character of the text is white space.
pub open spec fn is_blank(text: Seq<char>) -> bool {
    forall|i: int| 0 <= i < text.len() ==> is_white_space(#[trigger] text[i])
}

/// The text neither begins nor ends with white space.
pub open spec fn is_trim(text: Seq<char>) -> bool {
    text.len() > 0 ==> !is_white_space(text[0]) && !is_white_space(text.last())
}

pub proof fn lemma_trimmed(lead: Seq<char>, middle: Seq<char>, trail: Seq<char>)
    requires
        is_blank(lead),
        is_trim(middle),
        is_blank(trail),
    ensures
        trimmed(lead + middle + trail) == middle,
{
    let text = lead + middle + trail;
    if middle.len() == 0 {
        assert forall|i: int| 0 <= i < text.len() implies white()(#[trigger] text[i]) by {
            if i < lead.len() {
                assert(text[i] == lead[i]);
            } else {
                assert(text[i] == trail[i - lead.len()]);
            }
        }
        lemma_drop_leading(text, white(), text.len() as int);
        assert(drop_leading(text, white()) =~= Seq::<char>::empty());
        assert(trimmed(text) =~= middle);
    } else {
        let from = lead.len() as int;
        let to = middle.len() as int;
        assert forall|i: int| 0 <= i < from implies white()(#[trigger] text[i]) by {
            assert(text[i] == lead[i]);
        }
        assert(text[from] == middle[0]);
        lemma_drop_leading(text, white(), from);
        let tail = text.subrange(from, text.len() as int);
        assert forall|i: int| to <= i < tail.len() implies white()(#[trigger] tail[i]) by {
            assert(tail[i] == trail[i - to]);
        }
        assert(tail[to - 1] == middle.last());
        lemma_drop_trailing(tail, white(), to);
        assert(tail.subrange(0, to) =~= middle);
    }
}

/// Trimming takes the white space off both ends of a text, all of it and nothing else.
pub proof fn law_trim_takes_white_space_off(
    lead: Seq<char>,
    middle: Seq<char>,
    trail: Seq<char>,
    text: &str,
    result: String,
)
    requires
        call_ensures(trim, (text,), result),
        text@ == lead + middle + trail,
        is_blank(lead),
        is_trim(middle),
        is_blank(trail),
    ensures
        result@ == middle,
{
    lemma_trimmed(lead, middle, trail);
}

/// Every text is white space, what trimming leaves of it, and white space again.
pub proof fn law_trim_splits_every_text(text: Seq<char>)
    ensures
        exists|lead: Seq<char>, trail: Seq<char>|
            is_blank(lead) && is_blank(trail) && is_trim(trimmed(text)) && text == #[trigger] (lead
                + trimmed(text) + trail),
{
    let tail = drop_leading(text, white());
    let from = choose|from: int|
        {
            &&& 0 <= from <= text.len()
            &&& forall|i: int| 0 <= i < from ==> is_white_space(#[trigger] text[i])
            &&& (from < text.len() ==> !is_white_space(text[from]))
            &&& #[trigger] text.subrange(from, text.len() as int) == tail
        };
    lemma_leading_run(text);
    lemma_trailing_run(tail);
    let to = choose|to: int|
        {
            &&& 0 <= to <= tail.len()
            &&& forall|i: int| to <= i < tail.len() ==> is_white_space(#[trigger] tail[i])
            &&& (to > 0 ==> !is_white_space(tail[to - 1]))
            &&& #[trigger] tail.subrange(0, to) == trimmed(text)
        };
    let lead = text.subrange(0, from);
    let trail = tail.subrange(to, tail.len() as int);
    assert(is_blank(lead));
    assert(is_blank(trail));
    assert(text =~= lead + trimmed(text) + trail);
}

proof fn lemma_leading_run(text: Seq<char>)
    ensures
        exists|from: int|
            {
                &&& 0 <= from <= text.len()
                &&& forall|i: int| 0 <= i < from ==> is_white_space(#[trigger] text[i])
                &&& (from < text.len() ==> !is_white_space(text[from]))
                &&& #[trigger] text.subrange(from, text.len() as int) == drop_leading(text, white())
            },
    decreases text.len(),
{
    if text.len() > 0 && is_white_space(text[0]) {
        let rest = text.drop_first();
        lemma_leading_run(rest);
        let from = choose|from: int|
            {
                &&& 0 <= from <= rest.len()
                &&& forall|i: int| 0 <= i < from ==> is_white_space(#[trigger] rest[i])
                &&& (from < rest.len() ==> !is_white_space(rest[from]))
                &&& #[trigger] rest.subrange(from, rest.len() as int) == drop_leading(rest, white())
            };
        assert(text.subrange(from + 1, text.len() as int) =~= rest.subrange(
            from,
            rest.len() as int,
        ));
        assert forall|i: int| 0 <= i < from + 1 implies is_white_space(#[trigger] text[i]) by {
            if i > 0 {
                assert(text[i] == rest[i - 1]);
            }
        }
    } else {
        assert(text.subrange(0, text.len() as int) =~= text);
    }
}

proof fn lemma_trailing_run(text: Seq<char>)
    ensures
        exists|to: int|
            {
                &&& 0 <= to <= text.len()
                &&& forall|i: int| to <= i < text.len() ==> is_white_space(#[trigger] text[i])
                &&& (to > 0 ==> !is_white_space(text[to - 1]))
                &&& #[trigger] text.subrange(0, to) == drop_trailing(text, white())
            },
    decreases text.len(),
{
    if text.len() > 0 && is_white_space(text.last()) {
        let rest = text.drop_last();
        lemma_trailing_run(rest);
        let to = choose|to: int|
            {
                &&& 0 <= to <= rest.len()
                &&& forall|i: int| to <= i < rest.len() ==> is_white_space(#[trigger] rest[i])
                &&& (to > 0 ==> !is_white_space(rest[to - 1]))
                &&& #[trigger] rest.subrange(0, to) == drop_trailing(rest, white())
            };
        assert(text.subrange(0, to) =~= rest.subrange(0, to));
        assert forall|i: int| to <= i < text.len() implies is_white_space(#[trigger] text[i]) by {
            if i < rest.len() {
                assert(text[i] == rest[i]);
            }
        }
    } else {
        assert(text.subrange(0, text.len() as int) =~= text);
    }
}

/// Every character of the text is a slash.
pub open spec fn is_slashes(text: Seq<char>) -> bool {
    forall|i: int| 0 <= i < text.len() ==> #[trigger] text[i] == '/'
}

pub proof fn lemma_leading_slashes(slashes: Seq<char>, rest: Seq<char>)
    requires
        is_slashes(slashes),
        rest.len() > 0 ==> rest[0] != '/',
    ensures
        drop_leading(slashes + rest, slash()) == rest,
{
    let text = slashes + rest;
    lemma_drop_leading(text, slash(), slashes.len() as int);
    assert(text.subrange(slashes.len() as int, text.len() as int) =~= rest);
}

pub proof fn lemma_trailing_slashes(text: Seq<char>, slashes: Seq<char>)
    requires
        is_slashes(slashes),
        text.len() > 0 ==> text.last() != '/',
    ensures
        drop_trailing(text + slashes, slash()) == text,
{
    let whole = text + slashes;
    lemma_drop_trailing(whole, slash(), text.len() as int);
    assert(whole.subrange(0, text.len() as int) =~= text);
}

/// The slashes before a text, and those behind it, are taken off, all of them and nothing else.
pub proof fn law_slashes_are_taken_off(
    before: Seq<char>,
    middle: Seq<char>,
    behind: Seq<char>,
    first: &str,
    without_first: String,
    second: &str,
    without_second: String,
)
    requires
        is_slashes(before),
        is_slashes(behind),
        middle.len() > 0,
        middle[0] != '/',
        middle.last() != '/',
        call_ensures(trim_leading_slashes, (first,), without_first),
        first@ == before + middle,
        call_ensures(trim_trailing_slashes, (second,), without_second),
        second@ == middle + behind,
    ensures
        without_first@ == middle,
        without_second@ == middle,
{
    lemma_leading_slashes(before, middle);
    lemma_trailing_slashes(middle, behind);
}

pub proof fn lemma_numeral(n: nat)
    ensures
        numeral(n).len() > 0,
        forall|i: int| 0 <= i < numeral(n).len() ==> '0' <= #[trigger] numeral(n)[i] <= '9',
        n > 0 ==> numeral(n)[0] != '0',
        n < 10 ==> numeral(n).len() == 1,
        digits_value(numeral(n)) == n,
    decreases n,
{
    reveal_with_fuel(digits_value, 2);
    if n < 10 {
        assert(numeral(n).drop_last() =~= Seq::<char>::empty());
    } else {
        lemma_numeral(n / 10);
        assert(numeral(n).drop_last() =~= numeral(n / 10));
        assert(numeral(n).last() == digit_char(n % 10));
    }
}

/// A number is written in decimal digits, the most significant first and no zero before it, and the
/// digits stand for that number and no other.
pub proof fn law_decimal_stands_for_its_number(n: u64, result: String)
    requires
        call_ensures(decimal, (n,), result),
    ensures
        result@.len() > 0,
        forall|i: int| 0 <= i < result@.len() ==> '0' <= #[trigger] result@[i] <= '9',
        n > 0 ==> result@[0] != '0',
        n == 0 ==> result@ == seq!['0'],
        digits_value(result@) == n,
{
    lemma_numeral(n as nat);
    if n == 0 {
        assert(digit_char(0) == '0');
    }
}

/// A negative number is written as a minus and the digits of the number without its sign.
pub proof fn law_signed_decimal(n: i64, result: String)
    requires
        call_ensures(signed_decimal, (n,), result),
    ensures
        n < 0 ==> result@ == seq!['-'] + numeral((-n) as nat),
        n >= 0 ==> result@ == numeral(n as nat),
{
}

/// The digits of a number tell it from every other.
pub proof fn law_numerals_are_told_apart(a: nat, b: nat)
    ensures
        numeral(a) == numeral(b) ==> a == b,
{
    lemma_numeral(a);
    lemma_numeral(b);
}

/// The value of a digit string is that of its digits before the last, ten times, and the last.
pub proof fn law_digits_count_in_tens(digits: Seq<char>, digit: nat)
    requires
        digit < 10,
    ensures
        digits_value(Seq::empty()) == 0,
        digits_value(digits.push((0x30 + digit) as char)) == 10 * digits_value(digits) + digit,
{
    let longer = digits.push((0x30 + digit) as char);
    assert(longer.drop_last() =~= digits);
}

/// Two slashes next to each other are found wherever they stand.
pub proof fn law_empty_components_are_found(
    before: Seq<char>,
    behind: Seq<char>,
    text: &str,
    result: bool,
)
    requires
        call_ensures(double_slash, (text,), result),
        text@ == before + seq!['/', '/'] + behind,
    ensures
        result,
{
    assert(text@[before.len() as int] == '/');
    assert(text@[before.len() as int + 1] == '/');
}

/// A setting is what is set at run time, without white space around it; where that is missing or
/// blank, what was built in; and missing where that is missing or blank too.
pub proof fn law_settings(setting: ConfigValue, result: Option<String>)
    requires
        call_ensures(read_config_value, (setting,), result),
    ensures
        match (setting.runtime, setting.builtin) {
            (Some(value), _) if trimmed(value@).len() > 0 => result matches Some(text) && text@
                == trimmed(value@),
            (_, Some(value)) if trimmed(value@).len() > 0 => result matches Some(text) && text@
                == trimmed(value@),
            _ => result is None,
        },
{
}

/// A value of which trimming leaves nothing counts as missing, any other as what trimming leaves.
pub proof fn law_blank_values_are_missing(value: String, result: Option<String>)
    requires
        call_ensures(normalize_env_value, (value,), result),
    ensures
        is_blank(value@) ==> result is None,
        is_trim(value@) && value@.len() > 0 ==> (result matches Some(text) && text@ == value@),
{
    let nothing = Seq::<char>::empty();
    if is_blank(value@) {
        lemma_trimmed(value@, nothing, nothing);
        assert(value@ + nothing + nothing =~= value@);
    } else if is_trim(value@) {
        lemma_trimmed(nothing, value@, nothing);
        assert(nothing + value@ + nothing =~= value@);
    }
}

/// A secret that is shown shows its first four and its last four characters, and three dots for
/// however many stand between. One of up to eight characters is not shown at all.
pub proof fn law_mask_shows_the_ends(
    first: Seq<char>,
    middle: Seq<char>,
    last: Seq<char>,
    long: &str,
    shown: String,
    short: &str,
    hidden: String,
)
    requires
        call_ensures(mask_secret, (long,), shown),
        long@ == first + middle + last,
        first.len() == 4,
        middle.len() > 0,
        last.len() == 4,
        call_ensures(mask_secret, (short,), hidden),
        short@.len() <= 8,
    ensures
        shown@ == first + "..."@ + last,
        hidden@ == "****"@,
{
    assert(long@.subrange(0, 4) =~= first);
    assert(long@.subrange(long@.len() - 4, long@.len() as int) =~= last);
}

} // verus!
