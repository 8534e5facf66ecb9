//! Numbers laid out for reading.

use vstd::prelude::*;

verus! {

/// The lowest `width` binary digits of `n`, the most significant first.
pub open spec fn bits(n: nat, width: nat) -> Seq<char>
    decreases width,
{
    if width == 0 {
        seq![]
    } else {
        bits(n / 2, (width - 1) as nat).push(
            if n % 2 == 1 {
                '1'
            } else {
                '0'
            },
        )
    }
}

/// The number in binary, byte by byte: as many bytes as it takes, but at least one, the
/// most significant first, each in eight digits, with a space between two bytes.
pub open spec fn binary_text(n: nat) -> Seq<char>
    decreases n,
{
    if n < 256 {
        bits(n, 8)
    } else {
        binary_text(n / 256) + seq![' '] + bits(n % 256, 8)
    }
}

/// The lowest `width` binary digits of `n` as text.
fn bits_string(n: u64, width: u32) -> (text: String)
    ensures
        text@ == bits(n as nat, width as nat),
    decreases width,
{
    if width == 0 {
        let text = String::new();
        text
    } else {
        let mut text = bits_string(n / 2, width - 1);
        proof {
            reveal_strlit("1");
            reveal_strlit("0");
        }
        if n % 2 == 1 {
            text.append("1");
        } else {
            text.append("0");
        }
        text
    }
}

/// The number in binary, in groups of eight digits.
pub fn as_bin(num: u64) -> (text: String)
    ensures
        text@ == binary_text(num as nat),
    decreases num,
{
    if num < 256 {
        bits_string(num, 8)
    } else {
        let mut text = as_bin(num / 256);
        proof {
            reveal_strlit(" ");
        }
        text.append(" ");
        let low = bits_string(num % 256, 8);
        text.append(low.as_str());
        text
    }
}

} // verus!
