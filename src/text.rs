//! The text of the grid: address labels and byte values in upper-case
//! hexadecimal, and the characters of the ASCII sidebar.
use vstd::prelude::*;

verus! {

/// The upper-case hexadecimal digit of `d`, for `d < 16`.
pub open spec fn digit_char(d: nat) -> char {
    if d < 10 {
        ((48 + d) as u8) as char
    } else {
        ((55 + d) as u8) as char
    }
}

/// `v` in upper-case hexadecimal, with at least one digit and padded with
/// leading zeros to at least `width` digits.
pub open spec fn hex_pad(v: nat, width: nat) -> Seq<char>
    decreases v + width,
{
    if v < 16 && width <= 1 {
        seq![digit_char(v)]
    } else {
        hex_pad(v / 16, if width > 0 { (width - 1) as nat } else { 0 }).push(digit_char(v % 16))
    }
}

/// The number of hexadecimal digits of `v`, without padding.
pub open spec fn hex_len(v: nat) -> nat {
    hex_pad(v, 0).len()
}

/// The character that the ASCII sidebar shows for a byte: the byte itself
/// when it is printable, from 32 up to but not including 128, else a dot.
pub open spec fn spec_ascii_char(v: u8) -> char {
    if 32 <= v < 128 {
        v as char
    } else {
        '.'
    }
}

/// A padded number is as long as its width or as its unpadded digits,
/// whichever is more.
pub proof fn lemma_hex_pad_len(v: nat, width: nat)
    ensures
        hex_pad(v, width).len() == if width < hex_len(v) { hex_len(v) } else { width },
        hex_len(v) >= 1,
    decreases v + width,
{
    if v < 16 && width <= 1 {
    } else {
        let w1: nat = if width > 0 { (width - 1) as nat } else { 0 };
        lemma_hex_pad_len(v / 16, w1);
        if v >= 16 {
            lemma_hex_pad_len(v / 16, 0);
        } else {
            assert(v / 16 == 0);
            lemma_hex_pad_len(0, w1);
            lemma_hex_pad_len(0, 0);
        }
    }
}

/// A number has no more hexadecimal digits than a larger one.
pub proof fn lemma_hex_len_monotonic(a: nat, b: nat)
    requires
        a <= b,
    ensures
        hex_len(a) <= hex_len(b),
    decreases b,
{
    if b < 16 {
    } else if a < 16 {
        lemma_hex_pad_len(b / 16, 0);
    } else {
        assert(a / 16 <= b / 16) by {
            vstd::arithmetic::div_mod::lemma_div_is_ordered(a as int, b as int, 16);
        }
        lemma_hex_len_monotonic(a / 16, b / 16);
    }
}

/// Every address up to `end`, padded to the digits of `end`, takes exactly
/// that many digits: the address labels of one region share one width.
pub proof fn lemma_label_width_stable(address: nat, end: nat)
    requires
        address <= end,
    ensures
        hex_pad(address, hex_len(end)).len() == hex_len(end),
{
    lemma_hex_len_monotonic(address, end);
    lemma_hex_pad_len(address, hex_len(end));
}

/// The upper-case hexadecimal digit of `d`.
pub fn hex_digit(d: u8) -> (c: char)
    requires
        d < 16,
    ensures
        c == digit_char(d as nat),
{
    if d < 10 {
        (48 + d) as char
    } else {
        (55 + d) as char
    }
}

/// `value` in upper-case hexadecimal, zero-padded to at least `width` digits.
pub fn format_hex(value: usize, width: usize) -> (r: Vec<char>)
    ensures
        r@ == hex_pad(value as nat, width as nat),
{
    let mut acc: Vec<char> = Vec::new();
    let mut cur: usize = value;
    let mut rem: usize = width;
    while !(cur < 16 && rem <= 1)
        invariant
            hex_pad(value as nat, width as nat) == hex_pad(cur as nat, rem as nat) + acc@,
        decreases cur + rem,
    {
        let d = hex_digit((cur % 16) as u8);
        let ghost before = acc@;
        acc.insert(0, d);
        assert(hex_pad(cur as nat, rem as nat) + before =~= hex_pad(
            (cur / 16) as nat,
            if rem > 0 { (rem - 1) as nat } else { 0 },
        ) + acc@);
        cur = cur / 16;
        rem = if rem > 0 {
            rem - 1
        } else {
            0
        };
    }
    let d = hex_digit(cur as u8);
    let ghost before = acc@;
    acc.insert(0, d);
    assert(hex_pad(cur as nat, rem as nat) + before =~= acc@);
    acc
}

/// Relies on `String`'s `FromIterator<char>`: the string of the given
/// characters, in order.
#[verifier::external_body]
fn string_of(chars: &Vec<char>) -> (r: String)
    ensures
        r@ == chars@,
{
    chars.iter().collect()
}

/// The number of hexadecimal digits that the address labels of a region
/// ending at `end` take: the digits of `end` itself.
pub fn address_digit_count(end: usize) -> (r: usize)
    ensures
        r == hex_len(end as nat),
        r >= 1,
{
    proof {
        lemma_hex_pad_len(end as nat, 0);
    }
    format_hex(end, 0).len()
}

/// The label of a row that begins at `address`: `0x` and the address,
/// zero-padded to `digits` digits.
pub fn address_label(address: usize, digits: usize) -> (r: String)
    ensures
        r@ == seq!['0', 'x'] + hex_pad(address as nat, digits as nat),
{
    let mut chars: Vec<char> = Vec::new();
    chars.push('0');
    chars.push('x');
    let mut digits_of = format_hex(address, digits);
    let ghost hex = digits_of@;
    chars.append(&mut digits_of);
    assert(chars@ =~= seq!['0', 'x'] + hex);
    string_of(&chars)
}

/// The two upper-case hexadecimal digits of a byte cell.
pub fn byte_label(value: u8) -> (r: String)
    ensures
        r@ == hex_pad(value as nat, 2),
        r@.len() == 2,
{
    proof {
        lemma_hex_pad_len(value as nat, 2);
        if value >= 16 {
            lemma_hex_pad_len(value as nat / 16, 0);
        }
        lemma_hex_pad_len(value as nat, 0);
    }
    let chars = format_hex(value as usize, 2);
    string_of(&chars)
}

/// The character of the ASCII sidebar for `value`.
pub fn ascii_char(value: u8) -> (c: char)
    ensures
        c == spec_ascii_char(value),
{
    if value < 32 || value >= 128 {
        '.'
    } else {
        value as char
    }
}

} // verus!
