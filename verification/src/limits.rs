//! What the word size of the machine asks of a binary before it is parsed.
//!
//! A binary declares the lengths of its sections, function bodies and names
//! as unsigned LEB128 numbers of up to 32 bits. A parser adds such a length
//! to its position in the bytes. Where a machine word has 32 bits that sum
//! may not fit, so the lengths are looked at first.

use vstd::prelude::*;

verus! {

/// The seven value bits of a byte of a LEB128 number.
pub open spec fn low_bits(byte: u8) -> int {
    byte as int % 128
}

/// The unsigned LEB128 number of at most 32 bits that starts at `at`, as its
/// value and its width in bytes; `None` where no such number starts there:
/// the bytes end first, or a fifth byte goes on or holds more than the four
/// bits that are left.
pub open spec fn var_u32_at(bytes: Seq<u8>, at: int) -> Option<(int, int)> {
    if at < 0 || at >= bytes.len() {
        None
    } else if bytes[at] < 128 {
        Some((bytes[at] as int, 1))
    } else if at + 1 >= bytes.len() {
        None
    } else if bytes[at + 1] < 128 {
        Some((low_bits(bytes[at]) + 128 * bytes[at + 1], 2))
    } else if at + 2 >= bytes.len() {
        None
    } else if bytes[at + 2] < 128 {
        Some((low_bits(bytes[at]) + 128 * low_bits(bytes[at + 1]) + 16384 * bytes[at + 2], 3))
    } else if at + 3 >= bytes.len() {
        None
    } else if bytes[at + 3] < 128 {
        Some(
            (
                low_bits(bytes[at]) + 128 * low_bits(bytes[at + 1]) + 16384 * low_bits(
                    bytes[at + 2],
                ) + 2097152 * bytes[at + 3],
                4,
            ),
        )
    } else if at + 4 >= bytes.len() {
        None
    } else if bytes[at + 4] < 16 {
        Some(
            (
                low_bits(bytes[at]) + 128 * low_bits(bytes[at + 1]) + 16384 * low_bits(
                    bytes[at + 2],
                ) + 2097152 * low_bits(bytes[at + 3]) + 268435456 * bytes[at + 4],
                5,
            ),
        )
    } else {
        None
    }
}

/// Whether what a number at `at` would declare ends within a machine word:
/// the position behind the number plus its value is at most `usize::MAX`.
pub open spec fn length_fits_at(bytes: Seq<u8>, at: int) -> bool {
    match var_u32_at(bytes, at) {
        Some((value, width)) => at + width + value <= usize::MAX,
        None => true,
    }
}

/// Whether a binary can be parsed on this machine without a position
/// running over: its fixed-width fields fit, and so does every length that
/// any of its offsets could declare. On a machine with 64-bit words this
/// holds of every slice in memory.
pub open spec fn lengths_fit(bytes: Seq<u8>) -> bool {
    &&& bytes.len() + 8 <= usize::MAX
    &&& forall|at: int| 0 <= at < bytes.len() ==> #[trigger] length_fits_at(bytes, at)
}

/// Reads the unsigned LEB128 number of at most 32 bits that starts at `at`.
pub fn read_var_u32(bytes: &[u8], at: usize) -> (number: Option<(u32, usize)>)
    ensures
        match number {
            Some((value, width)) => var_u32_at(bytes@, at as int) == Some(
                (value as int, width as int),
            ),
            None => var_u32_at(bytes@, at as int) is None,
        },
{
    let len = bytes.len();
    if at >= len {
        return None;
    }
    let first: u32 = bytes[at] as u32;
    if first < 128 {
        return Some((first, 1));
    }
    if len - at < 2 {
        return None;
    }
    let second: u32 = bytes[at + 1] as u32;
    let two: u32 = first % 128 + 128 * second;
    if second < 128 {
        return Some((two, 2));
    }
    if len - at < 3 {
        return None;
    }
    let third: u32 = bytes[at + 2] as u32;
    let three: u32 = first % 128 + 128 * (second % 128) + 16384 * third;
    if third < 128 {
        return Some((three, 3));
    }
    if len - at < 4 {
        return None;
    }
    let fourth: u32 = bytes[at + 3] as u32;
    let four: u32 = first % 128 + 128 * (second % 128) + 16384 * (third % 128) + 2097152 * fourth;
    if fourth < 128 {
        return Some((four, 4));
    }
    if len - at < 5 {
        return None;
    }
    let fifth: u32 = bytes[at + 4] as u32;
    if fifth < 16 {
        let five: u32 = first % 128 + 128 * (second % 128) + 16384 * (third % 128) + 2097152 * (
        fourth % 128) + 268435456 * fifth;
        return Some((five, 5));
    }
    None
}

/// Decides `lengths_fit`. A bound on the length of the bytes settles it on
/// a machine with 64-bit words; elsewhere every offset is looked at.
pub fn check_lengths(bytes: &[u8]) -> (fit: bool)
    ensures
        fit == lengths_fit(bytes@),
{
    let len = bytes.len();
    if len <= usize::MAX - 0xffff_ffff {
        assert forall|at: int| 0 <= at < bytes@.len() implies #[trigger] length_fits_at(
            bytes@,
            at,
        ) by {
            lemma_var_u32_bounds(bytes@, at);
        }
        return true;
    }
    if len > usize::MAX - 8 {
        return false;
    }
    let mut at: usize = 0;
    while at < len
        invariant
            len == bytes@.len(),
            at <= len,
            len + 8 <= usize::MAX,
            forall|i: int| 0 <= i < at ==> #[trigger] length_fits_at(bytes@, i),
        decreases len - at,
    {
        match read_var_u32(bytes, at) {
            Some((value, width)) => {
                proof {
                    lemma_var_u32_bounds(bytes@, at as int);
                }
                if value as usize > usize::MAX - (at + width) {
                    assert(!length_fits_at(bytes@, at as int));
                    return false;
                }
            },
            None => {},
        }
        at += 1;
    }
    true
}

/// A number that starts at `at` is at most five bytes wide, ends within the
/// bytes and is below two to the power of 32.
pub proof fn lemma_var_u32_bounds(bytes: Seq<u8>, at: int)
    ensures
        var_u32_at(bytes, at) matches Some((value, width)) ==> 0 <= value <= 0xffff_ffff && 1
            <= width <= 5 && 0 <= at && at + width <= bytes.len(),
{
}

} // verus!
