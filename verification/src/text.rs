//! Decimal and UTF-16 forms of the names written to the registry.

use vstd::prelude::*;

verus! {

/// The character of the decimal digit `d`.
pub open spec fn digit(d: nat) -> char {
    (48 + d) as char
}

/// `value` in decimal, padded with zeros on the left to `width` digits; the
/// last `width` digits of a longer one.
pub open spec fn decimal(value: nat, width: nat) -> Seq<char>
    decreases width,
{
    if width == 0 {
        Seq::empty()
    } else {
        decimal(value / 10, (width - 1) as nat).push(digit(value % 10))
    }
}

/// The UTF-16 code units of one character: the character itself in the basic
/// plane, a surrogate pair above it.
pub open spec fn utf16_units(c: char) -> Seq<u16> {
    if (c as u32) < 0x1_0000 {
        seq![c as u16]
    } else {
        seq![
            (0xD800 + (c as u32 - 0x1_0000) / 0x400) as u16,
            (0xDC00 + (c as u32 - 0x1_0000) % 0x400) as u16,
        ]
    }
}

/// The UTF-16 code units of a text.
pub open spec fn utf16(text: Seq<char>) -> Seq<u16>
    decreases text.len(),
{
    if text.len() == 0 {
        Seq::empty()
    } else {
        utf16(text.drop_last()) + utf16_units(text.last())
    }
}

fn digit_text(d: u32) -> (text: &'static str)
    requires
        d < 10,
    ensures
        text@ == seq![digit(d as nat)],
{
    proof {
        reveal_strlit("0");
        reveal_strlit("1");
        reveal_strlit("2");
        reveal_strlit("3");
        reveal_strlit("4");
        reveal_strlit("5");
        reveal_strlit("6");
        reveal_strlit("7");
        reveal_strlit("8");
        reveal_strlit("9");
    }
    match d {
        0 => "0",
        1 => "1",
        2 => "2",
        3 => "3",
        4 => "4",
        5 => "5",
        6 => "6",
        7 => "7",
        8 => "8",
        _ => "9",
    }
}

/// Appends the last `width` decimal digits of `value`.
pub fn append_decimal(text: &mut String, value: u32, width: u32)
    ensures
        final(text)@ == old(text)@ + decimal(value as nat, width as nat),
    decreases width,
{
    if width > 0 {
        append_decimal(text, value / 10, width - 1);
        text.append(digit_text(value % 10));
    }
    assert(text@ =~= old(text)@ + decimal(value as nat, width as nat));
}

fn push_utf16(units: &mut Vec<u16>, c: char)
    ensures
        final(units)@ == old(units)@ + utf16_units(c),
{
    let code: u32 = c as u32;
    if code < 0x1_0000 {
        units.push(code as u16);
    } else {
        let rest: u32 = code - 0x1_0000;
        units.push((0xD800 + rest / 0x400) as u16);
        units.push((0xDC00 + rest % 0x400) as u16);
    }
    assert(units@ =~= old(units)@ + utf16_units(c));
}

/// The UTF-16 code units of `text`.
pub fn encode_utf16(text: &str) -> (units: Vec<u16>)
    ensures
        units@ == utf16(text@),
{
    let mut units: Vec<u16> = Vec::new();
    for c in chars: text.chars()
        invariant
            chars.seq() == text@,
            units@ == utf16(text@.take(chars.index() as int)),
    {
        let ghost k = chars.index() as int;
        assert(text@.take(k + 1).drop_last() =~= text@.take(k));
        push_utf16(&mut units, c);
    }
    assert(text@.take(text@.len() as int) =~= text@);
    units
}

/// Whether `a` comes before `b` in the order of character codes, decided by a
/// character that both have.
pub open spec fn sorts_before(a: Seq<char>, b: Seq<char>) -> bool {
    exists|i: int|
        {
            &&& 0 <= i < a.len()
            &&& i < b.len()
            &&& #[trigger] a[i] < b[i]
            &&& a.take(i) == b.take(i)
        }
}

/// A zero-padded number has as many characters as its width.
pub proof fn lemma_decimal_len(value: nat, width: nat)
    ensures
        decimal(value, width).len() == width,
    decreases width,
{
    if width > 0 {
        lemma_decimal_len(value / 10, (width - 1) as nat);
    }
}

/// Zero-padded numbers of one width sort like the numbers.
pub proof fn law_decimal_keeps_order(a: nat, b: nat, width: nat)
    requires
        a < b < vstd::arithmetic::power::pow(10, width),
    ensures
        sorts_before(decimal(a, width), decimal(b, width)),
    decreases width,
{
    reveal(vstd::arithmetic::power::pow);
    let da = decimal(a, width);
    let db = decimal(b, width);
    lemma_decimal_len(a, width);
    lemma_decimal_len(b, width);
    if width > 0 {
        let less = (width - 1) as nat;
        let ha = decimal(a / 10, less);
        let hb = decimal(b / 10, less);
        lemma_decimal_len(a / 10, less);
        lemma_decimal_len(b / 10, less);
        if a / 10 < b / 10 {
            assert(b / 10 < vstd::arithmetic::power::pow(10, less)) by {
                assert(vstd::arithmetic::power::pow(10, width) == 10
                    * vstd::arithmetic::power::pow(10, less));
            }
            law_decimal_keeps_order(a / 10, b / 10, less);
            let i = choose|i: int|
                {
                    &&& 0 <= i < ha.len()
                    &&& i < hb.len()
                    &&& #[trigger] ha[i] < hb[i]
                    &&& ha.take(i) == hb.take(i)
                };
            assert(da[i] < db[i]);
            assert(da.take(i) =~= ha.take(i));
            assert(db.take(i) =~= hb.take(i));
        } else {
            assert(a / 10 == b / 10);
            assert(a % 10 < b % 10);
            assert(da[less as int] < db[less as int]);
            assert(da.take(less as int) =~= ha);
            assert(db.take(less as int) =~= hb);
        }
    }
}

/// UTF-16 takes at most two code units for a character.
pub proof fn lemma_utf16_len(text: Seq<char>)
    ensures
        utf16(text).len() <= 2 * text.len(),
    decreases text.len(),
{
    if text.len() > 0 {
        lemma_utf16_len(text.drop_last());
    }
}

/// Character `i` of a zero-padded number is the digit of weight
/// `10^(width - 1 - i)`.
pub proof fn law_decimal_digits(value: nat, width: nat, i: int)
    requires
        0 <= i < width,
    ensures
        decimal(value, width).len() == width,
        decimal(value, width)[i] as int == 48 + (value as int / vstd::arithmetic::power::pow(
            10,
            (width - 1 - i) as nat,
        )) % 10,
    decreases width,
{
    let less = (width - 1) as nat;
    lemma_decimal_len(value, width);
    lemma_decimal_len(value / 10, less);
    if i == width - 1 {
        vstd::arithmetic::power::lemma_pow0(10);
    } else {
        let e = (less - 1 - i) as nat;
        let p = vstd::arithmetic::power::pow(10, e);
        law_decimal_digits(value / 10, less, i);
        vstd::arithmetic::power::lemma_pow_positive(10, e);
        assert(vstd::arithmetic::power::pow(10, (e + 1) as nat) == 10 * p) by {
            reveal(vstd::arithmetic::power::pow);
        }
        vstd::arithmetic::div_mod::lemma_div_denominator(value as int, 10, p);
    }
}

/// UTF-16 goes character by character.
pub proof fn law_utf16_of_a_concatenation(a: Seq<char>, b: Seq<char>)
    ensures
        utf16(a + b) == utf16(a) + utf16(b),
    decreases b.len(),
{
    if b.len() == 0 {
        assert(a + b =~= a);
        assert(utf16(a) + utf16(b) =~= utf16(a));
    } else {
        law_utf16_of_a_concatenation(a, b.drop_last());
        assert((a + b).drop_last() =~= a + b.drop_last());
        assert(utf16(a + b) =~= utf16(a) + utf16(b));
    }
}

/// A character of the basic plane is its own code unit; one above it is a high
/// and a low surrogate that carry its upper and lower ten bits.
pub proof fn law_utf16_of_a_character(c: char)
    ensures
        (c as u32) < 0x1_0000 ==> utf16(seq![c]).len() == 1 && utf16(seq![c])[0] == c as u32,
        (c as u32) >= 0x1_0000 ==> {
            let units = utf16(seq![c]);
            &&& units.len() == 2
            &&& 0xD800 <= units[0] <= 0xDBFF
            &&& 0xDC00 <= units[1] <= 0xDFFF
            &&& 0x1_0000 + (units[0] - 0xD800) * 0x400 + (units[1] - 0xDC00) == c as u32
        },
{
    reveal_with_fuel(utf16, 2);
    assert(seq![c].drop_last() =~= Seq::empty());
    assert(utf16(seq![c]) =~= utf16_units(c));
}

} // verus!
