//! Bytes in hexadecimal.
use vstd::prelude::*;

verus! {

/// The hexadecimal digit of value `d`, in lower case.
pub open spec fn hex_digit(d: int) -> char {
    if d < 10 {
        (('0' as u8) + d) as u8 as char
    } else {
        (('a' as u8) + (d - 10)) as u8 as char
    }
}

/// The value of a hexadecimal digit in lower case.
pub open spec fn hex_value(c: char) -> int {
    if '0' <= c && c <= '9' {
        c as int - '0' as int
    } else {
        c as int - 'a' as int + 10
    }
}

/// Two hexadecimal digits for each byte.
pub open spec fn hex_text(bytes: Seq<u8>) -> Seq<char> {
    Seq::new(
        2 * bytes.len(),
        |i: int|
            if i % 2 == 0 {
                hex_digit(bytes[i / 2] as int / 16)
            } else {
                hex_digit(bytes[i / 2] as int % 16)
            },
    )
}

fn digit_char(d: u8) -> (r: char)
    requires
        d < 16,
    ensures
        r == hex_digit(d as int),
{
    if d < 10 {
        ('0' as u8 + d) as char
    } else {
        ('a' as u8 + (d - 10)) as char
    }
}

/// Two hexadecimal digits for each byte.
pub fn encode_hex(bytes: &[u8]) -> (r: String)
    ensures
        r@ == hex_text(bytes@),
{
    let mut output: String = String::new();
    let mut i: usize = 0;
    while i < bytes.len()
        invariant
            i <= bytes.len(),
            output@ == hex_text(bytes@.take(i as int)),
        decreases bytes.len() - i,
    {
        let ghost before = output@;
        output.push(digit_char(bytes[i] / 16));
        output.push(digit_char(bytes[i] % 16));
        proof {
            let shorter = bytes@.take(i as int);
            let longer = bytes@.take(i + 1);
            assert forall|k: int| 0 <= k < 2 * (i + 1) implies output@[k] == hex_text(longer)[k] by {
                if k < 2 * i {
                    assert(before[k] == hex_text(shorter)[k]);
                    assert(shorter[k / 2] == longer[k / 2]);
                } else {
                    assert(longer[k / 2] == bytes@[i as int]);
                }
            }
            assert(output@ =~= hex_text(longer));
        }
        i = i + 1;
    }
    assert(bytes@.take(bytes@.len() as int) == bytes@);
    output
}

/// The bytes can be read back from their hexadecimal text.
pub proof fn law_hex_reads_back(bytes: Seq<u8>, i: int)
    requires
        0 <= i < bytes.len(),
    ensures
        hex_text(bytes).len() == 2 * bytes.len(),
        bytes[i] == 16 * hex_value(hex_text(bytes)[2 * i]) + hex_value(hex_text(bytes)[2 * i + 1]),
{
    assert((2 * i) / 2 == i && (2 * i) % 2 == 0);
    assert((2 * i + 1) / 2 == i && (2 * i + 1) % 2 == 1);
}

/// Each byte is two digits, `0` to `9` or `a` to `f`, the upper half first: different bytes are
/// written differently.
pub proof fn law_hex_digits(bytes: Seq<u8>, i: int)
    requires
        0 <= i < bytes.len(),
    ensures
        ({
            let upper = hex_text(bytes)[2 * i] as int;
            let lower = hex_text(bytes)[2 * i + 1] as int;
            &&& 48 <= upper <= 57 || 97 <= upper <= 102
            &&& 48 <= lower <= 57 || 97 <= lower <= 102
            &&& bytes[i] as int == 16 * (if upper <= 57 {
                upper - 48
            } else {
                upper - 87
            }) + (if lower <= 57 {
                lower - 48
            } else {
                lower - 87
            })
        }),
{
    assert((2 * i) / 2 == i && (2 * i) % 2 == 0);
    assert((2 * i + 1) / 2 == i && (2 * i + 1) % 2 == 1);
}

} // verus!
