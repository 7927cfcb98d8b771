//! Supply-level readings: a short token holding a quantity and a level
//! suffix, or one of the single-character forms for "unknown" and "zero".
use vstd::prelude::*;
use vstd::string::StringSliceAdditionalSpecFns;

verus! {

/// An ASCII decimal digit.
pub open spec fn is_digit(c: u8) -> bool {
    0x30 <= c <= 0x39
}

pub open spec fn all_digits(s: Seq<u8>) -> bool {
    forall|i: int| 0 <= i < s.len() ==> is_digit(#[trigger] s[i])
}

/// The number written by a run of decimal digits, most significant first.
pub open spec fn decimal_value(s: Seq<u8>) -> nat
    decreases s.len(),
{
    if s.len() == 0 {
        0
    } else {
        decimal_value(s.drop_last()) * 10 + (s.last() - 0x30) as nat
    }
}

/// The level that a suffix byte names, letters in either case.
pub open spec fn level_of(c: u8) -> Option<i32> {
    if c == 0x6C || c == 0x4C {
        Some(1i32)
    } else if c == 0x6D || c == 0x4D {
        Some(2i32)
    } else if c == 0x68 || c == 0x48 {
        Some(3i32)
    } else if c == 0x3F {
        Some(-1i32)
    } else {
        None
    }
}

/// A UTF-8 continuation byte, `0b10xxxxxx`: it never starts a character.
pub open spec fn is_continuation(c: u8) -> bool {
    0x80 <= c < 0xC0
}

/// Where the last character of UTF-8 text starts: the last index whose byte
/// is not a continuation byte (0 when there is none).
pub open spec fn last_char_start(b: Seq<u8>) -> int
    decreases b.len(),
{
    if b.len() == 0 {
        0
    } else if !is_continuation(b.last()) {
        b.len() - 1
    } else {
        last_char_start(b.drop_last())
    }
}

/// What a reading, given by its UTF-8 bytes, stands for. A longer reading is
/// split before its last character: the digits before it are the quantity,
/// the character is the level suffix. A quantity is read as an unsigned
/// 32-bit number and then reinterpreted as signed.
pub open spec fn supply_reading(b: Seq<u8>) -> Result<(i32, i32), Seq<char>> {
    if b.len() > 1 {
        let split = last_char_start(b);
        let digits = b.subrange(0, split);
        let suffix = b.subrange(split, b.len() as int);
        if !is_digit(b[0]) {
            Err("malformed supply reading"@)
        } else if !(digits.len() > 0 && all_digits(digits) && decimal_value(digits) <= u32::MAX) {
            Err("invalid number in supply reading"@)
        } else if suffix.len() == 1 && is_digit(suffix[0]) {
            Err("missing level-suffix in supply reading"@)
        } else if suffix.len() == 1 && level_of(suffix[0]) is Some {
            Ok((decimal_value(digits) as u32 as i32, level_of(suffix[0])->Some_0))
        } else {
            Err("invalid unit in supply reading"@)
        }
    } else if b.len() == 0 {
        Err("empty supply reading"@)
    } else if b[0] == 0x3F {
        Ok((-1i32, -1i32))
    } else if b[0] == 0x2D || b[0] == 0x30 {
        Ok((0i32, 0i32))
    } else {
        Err("invalid supply reading"@)
    }
}

/// A parse result with its error message seen as characters.
pub open spec fn result_view(r: Result<(i32, i32), &str>) -> Result<(i32, i32), Seq<char>> {
    match r {
        Ok(v) => Ok(v),
        Err(e) => Err(e@),
    }
}

/// A longer run of digits never has a smaller value than its prefix.
proof fn lemma_decimal_value_prefix(s: Seq<u8>, i: int, j: int)
    requires
        0 <= i <= j <= s.len(),
    ensures
        decimal_value(s.subrange(0, i)) <= decimal_value(s.subrange(0, j)),
    decreases j - i,
{
    if i < j {
        lemma_decimal_value_prefix(s, i, j - 1);
        assert(s.subrange(0, j).drop_last() =~= s.subrange(0, j - 1));
    }
}

/// Reads the first `len` bytes as an unsigned 32-bit decimal number: `None`
/// when one of them is not a digit or the value does not fit.
fn parse_decimal_u32(bytes: &[u8], len: usize) -> (r: Option<u32>)
    requires
        len <= bytes@.len(),
    ensures
        match r {
            Some(v) => all_digits(bytes@.subrange(0, len as int)) && v as nat == decimal_value(
                bytes@.subrange(0, len as int),
            ),
            None => !(all_digits(bytes@.subrange(0, len as int)) && decimal_value(
                bytes@.subrange(0, len as int),
            ) <= u32::MAX),
        },
{
    let mut acc: u32 = 0;
    let mut i: usize = 0;
    while i < len
        invariant
            i <= len <= bytes@.len(),
            all_digits(bytes@.subrange(0, i as int)),
            acc as nat == decimal_value(bytes@.subrange(0, i as int)),
        decreases len - i,
    {
        let c = bytes[i];
        proof {
            assert(bytes@.subrange(0, i + 1).drop_last() =~= bytes@.subrange(0, i as int));
        }
        if c < 0x30 || c > 0x39 {
            assert(!is_digit(bytes@.subrange(0, len as int)[i as int]));
            return None;
        }
        let next = acc as u64 * 10 + (c - 0x30) as u64;
        if next > u32::MAX as u64 {
            proof {
                if all_digits(bytes@.subrange(0, len as int)) {
                    assert(bytes@.subrange(0, len as int).subrange(0, i + 1) =~= bytes@.subrange(
                        0,
                        i + 1,
                    ));
                    lemma_decimal_value_prefix(bytes@.subrange(0, len as int), i + 1, len as int);
                    assert(bytes@.subrange(0, len as int).subrange(0, len as int) =~= bytes@.subrange(
                        0,
                        len as int,
                    ));
                }
            }
            return None;
        }
        acc = next as u32;
        i = i + 1;
    }
    Some(acc)
}

/// The index at which the last character of `bytes` starts.
fn last_char_start_of(bytes: &[u8]) -> (r: usize)
    requires
        bytes@.len() > 0,
    ensures
        r as int == last_char_start(bytes@),
        r < bytes@.len(),
{
    let mut k: usize = bytes.len() - 1;
    assert(bytes@.subrange(0, k + 1) =~= bytes@);
    while k > 0 && bytes[k] >= 0x80 && bytes[k] < 0xC0
        invariant
            k < bytes@.len(),
            last_char_start(bytes@) == last_char_start(bytes@.subrange(0, k + 1)),
        decreases k,
    {
        proof {
            assert(bytes@.subrange(0, k + 1).drop_last() =~= bytes@.subrange(0, k as int));
        }
        k = k - 1;
    }
    proof {
        assert(bytes@.subrange(0, k + 1).drop_last() =~= bytes@.subrange(0, k as int));
        assert(last_char_start(bytes@.subrange(0, 0)) == 0);
    }
    k
}

/// Parses a supply-level reading. Longer readings are a quantity of digits
/// followed by one level suffix: `l`, `m`, `h` (either case) for levels 1 to
/// 3, or `?` for an unknown level (-1). A single `?` is unknown, `(-1, -1)`;
/// a single `-` or `0` is zero, `(0, 0)`.
pub fn parse_supply_level(reading: &str) -> (r: Result<(i32, i32), &'static str>)
    ensures
        result_view(r) == supply_reading(reading.spec_bytes()),
{
    let bytes = reading.as_bytes();
    let n = bytes.len();
    if n > 1 {
        if bytes[0] < 0x30 || bytes[0] > 0x39 {
            return Err("malformed supply reading");
        }
        let split = last_char_start_of(bytes);
        if split == 0 {
            return Err("invalid number in supply reading");
        }
        let number = match parse_decimal_u32(bytes, split) {
            Some(v) => v,
            None => return Err("invalid number in supply reading"),
        };
        if split != n - 1 {
            return Err("invalid unit in supply reading");
        }
        let suffix = bytes[split];
        if suffix >= 0x30 && suffix <= 0x39 {
            return Err("missing level-suffix in supply reading");
        }
        let level: i32 = if suffix == 0x6C || suffix == 0x4C {
            1
        } else if suffix == 0x6D || suffix == 0x4D {
            2
        } else if suffix == 0x68 || suffix == 0x48 {
            3
        } else if suffix == 0x3F {
            -1
        } else {
            return Err("invalid unit in supply reading");
        };
        return Ok((number as i32, level));
    }
    if n == 0 {
        Err("empty supply reading")
    } else if bytes[0] == 0x3F {
        Ok((-1, -1))
    } else if bytes[0] == 0x2D || bytes[0] == 0x30 {
        Ok((0, 0))
    } else {
        Err("invalid supply reading")
    }
}

} // verus!
