//! A least-significant-bit-first bit reader over an immutable byte buffer:
//! the packed decode treats the whole payload as one contiguous bitstream
//! and pulls fixed-width unsigned integers out of it. Bit positions are
//! carried as `u128` so that even a buffer of `usize::MAX` bytes has every
//! bit addressable.

use vstd::prelude::*;

verus! {

/// Character codes are saturated at this value when a packed unit is too
/// wide to matter: every code at or above it lies far outside the Unicode
/// scalar range and decodes to the replacement character.
pub const CODE_CAP: u64 = 0x110020;

/// Bit `i` of the buffer, counting least-significant-bit first within each
/// byte.
pub open spec fn bit_at(b: Seq<u8>, i: int) -> bool {
    ((b[i / 8] >> ((i % 8) as u8)) & 1) == 1
}

/// The unsigned integer held by the `w` bits starting at bit position `pos`,
/// least-significant bit first.
pub open spec fn unit_val(b: Seq<u8>, pos: int, w: int) -> int
    decreases w,
{
    if w <= 0 {
        0
    } else {
        (if bit_at(b, pos) {
            1int
        } else {
            0int
        }) + 2 * unit_val(b, pos + 1, w - 1)
    }
}

/// `v` saturated at `CODE_CAP`.
pub open spec fn cap_val(v: int) -> int {
    if v < CODE_CAP {
        v
    } else {
        CODE_CAP as int
    }
}

/// Reads bit `i` of the buffer, least-significant-bit first.
pub fn read_bit(b: &[u8], i: u128) -> (r: bool)
    requires
        i < b@.len() * 8,
    ensures
        r == bit_at(b@, i as int),
{
    proof {
        assert(i / 8 < b@.len()) by (nonlinear_arith)
            requires
                i < b@.len() * 8,
        ;
    }
    let byte = b[(i / 8) as usize];
    ((byte >> ((i % 8) as u8)) & 1) == 1
}

/// Extracts the `w`-bit unit at bit position `pos`, saturated at `CODE_CAP`:
/// the exact value where that value is below the cap, and `CODE_CAP` itself
/// otherwise.
pub fn extract_unit(b: &[u8], pos: u128, w: u8) -> (v: u64)
    requires
        pos + w <= b@.len() * 8,
    ensures
        v == cap_val(unit_val(b@, pos as int, w as int)),
{
    proof {
        vstd::slice::axiom_spec_len(b);
    }
    let mut v: u64 = 0;
    let mut j: u8 = w;
    while j > 0
        invariant
            j <= w,
            pos + w <= b@.len() * 8,
            b@.len() <= usize::MAX,
            v <= CODE_CAP,
            v == cap_val(unit_val(b@, pos + j as int, w - j as int)),
        decreases j,
    {
        j = j - 1;
        let bit = read_bit(b, pos + j as u128);
        let t: u64 = 2 * v + (if bit {
            1
        } else {
            0
        });
        proof {
            assert(unit_val(b@, pos + j as int, w - j as int) == (if bit_at(b@, pos + j as int) {
                1int
            } else {
                0int
            }) + 2 * unit_val(b@, pos + j as int + 1, w - j as int - 1));
        }
        v = if t >= CODE_CAP {
            CODE_CAP
        } else {
            t
        };
    }
    v
}

} // verus!
