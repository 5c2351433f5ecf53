//! Converts a raw record payload plus its packing parameters — code width,
//! codepoint offset, and, for shifted records, a decryption capability —
//! into Unicode text. Shifted or narrow records use the bit-packed decode;
//! records with no shift and 16-bit units are little-endian UTF-16.

use vstd::prelude::*;

use crate::bits::{extract_unit, unit_val, CODE_CAP};
use crate::records::spec_u16_le;
use crate::table::{spec_char_table, table_char};

verus! {

/// A Unicode scalar value: any code point outside the surrogate range.
pub open spec fn spec_valid_scalar(s: int) -> bool {
    0 <= s < 0xD800 || 0xE000 <= s <= 0x10FFFF
}

/// Relies on `char::from_u32` of std: it returns the character with scalar
/// value `v` exactly when `v` is a Unicode scalar value, and `None` when `v`
/// is a surrogate code point or lies above `0x10FFFF`.
pub assume_specification[ char::from_u32 ](v: u32) -> (r: Option<char>)
    ensures
        spec_valid_scalar(v as int) ==> r == Some(v as char),
        !spec_valid_scalar(v as int) ==> r == None::<char>,
;

/// Relies on `String::push` of std: it appends the given character to the
/// end of the string.
pub assume_specification[ String::push ](s: &mut String, c: char)
    ensures
        final(s)@ == old(s)@.push(c),
;

/// The character a packed unit code stands for: 0 is NUL, 1 through 31 name
/// entries of the fixed table, and any higher code is the Unicode scalar
/// `code - 32 + offset`, or the replacement character where that value is
/// not a scalar.
pub open spec fn spec_map_code(v: int, offset: u16) -> char {
    if v == 0 {
        '\0'
    } else if 1 <= v <= 31 {
        spec_char_table()[v - 1]
    } else {
        let s = v - 32 + offset;
        if spec_valid_scalar(s) {
            s as char
        } else {
            '\u{FFFD}'
        }
    }
}

/// Every code at or above the saturation cap maps to the replacement
/// character, whatever the offset: its shifted value lies above the scalar
/// range.
pub proof fn lemma_map_code_saturated(v: int, offset: u16)
    requires
        v >= CODE_CAP,
    ensures
        spec_map_code(v, offset) == '\u{FFFD}',
{
}

/// Maps one saturated unit code to its character.
fn map_code(v: u64, offset: u16) -> (c: char)
    requires
        v <= CODE_CAP,
    ensures
        v < CODE_CAP ==> c == spec_map_code(v as int, offset),
        v == CODE_CAP ==> c == '\u{FFFD}',
{
    if v == 0 {
        '\0'
    } else if v <= 31 {
        table_char(v as u32)
    } else {
        let s = v - 32 + offset as u64;
        if s < 0xD800 || (0xE000 <= s && s <= 0x10FFFF) {
            match char::from_u32(s as u32) {
                Some(c) => c,
                None => '\u{FFFD}',
            }
        } else {
            '\u{FFFD}'
        }
    }
}

/// The bit-packed decode: the payload is one LSB-first bitstream holding
/// `floor(len * 8 / width)` units of `width` bits each; a trailing partial
/// unit is discarded; each unit's code maps through `spec_map_code`.
pub open spec fn spec_packed_chars(b: Seq<u8>, width: int, offset: u16) -> Seq<char>
    recommends
        width >= 1,
{
    Seq::new(
        ((b.len() * 8) as int / width) as nat,
        |i: int| spec_map_code(unit_val(b, i * width, width), offset),
    )
}

/// Decodes the payload as an LSB-first bitstream of `bits_per_unit`-wide
/// unit codes.
fn decode_packed(buffer: &[u8], bits_per_unit: u8, offset: u16) -> (s: String)
    requires
        bits_per_unit != 0,
    ensures
        s@ == spec_packed_chars(buffer@, bits_per_unit as int, offset),
{
    proof {
        vstd::slice::axiom_spec_len(buffer);
    }
    let ghost spec_chars = spec_packed_chars(buffer@, bits_per_unit as int, offset);
    let w: u128 = bits_per_unit as u128;
    let total_bits: u128 = buffer.len() as u128 * 8;
    let n: u128 = total_bits / w;
    let mut s = String::new();
    let mut i: u128 = 0;
    proof {
        assert(s@ =~= spec_chars.take(0));
    }
    while i < n
        invariant
            i <= n,
            w == bits_per_unit as u128,
            bits_per_unit != 0,
            total_bits == buffer@.len() * 8,
            buffer@.len() <= usize::MAX,
            n == (buffer@.len() * 8) as int / (bits_per_unit as int),
            spec_chars == spec_packed_chars(buffer@, bits_per_unit as int, offset),
            spec_chars.len() == n,
            s@ == spec_chars.take(i as int),
        decreases n - i,
    {
        proof {
            vstd::arithmetic::div_mod::lemma_fundamental_div_mod(
                total_bits as int,
                bits_per_unit as int,
            );
            vstd::arithmetic::mul::lemma_mul_inequality(i + 1 as int, n as int, bits_per_unit as int);
            assert((i + 1) * w == i * w + w) by (nonlinear_arith);
        }
        let pos: u128 = i * w;
        let v = extract_unit(buffer, pos, bits_per_unit);
        let c = map_code(v, offset);
        proof {
            let raw = unit_val(buffer@, pos as int, bits_per_unit as int);
            if raw >= CODE_CAP {
                lemma_map_code_saturated(raw, offset);
            }
            assert(c == spec_map_code(raw, offset));
            assert(spec_chars[i as int] == spec_map_code(raw, offset));
            assert(spec_chars.take(i + 1) =~= spec_chars.take(i as int).push(
                spec_chars[i as int],
            ));
        }
        s.push(c);
        i = i + 1;
    }
    proof {
        assert(s@ =~= spec_chars);
    }
    s
}

/// The 16-bit code units held by the payload, little-endian; a trailing odd
/// byte is discarded.
pub open spec fn spec_utf16_units(b: Seq<u8>) -> Seq<u16> {
    Seq::new((b.len() / 2) as nat, |i: int| spec_u16_le(b, 2 * i))
}

/// A high (leading) surrogate code unit.
pub open spec fn spec_is_high_surrogate(u: u16) -> bool {
    0xD800 <= u <= 0xDBFF
}

/// A low (trailing) surrogate code unit.
pub open spec fn spec_is_low_surrogate(u: u16) -> bool {
    0xDC00 <= u <= 0xDFFF
}

/// The supplementary-plane character a surrogate pair stands for.
pub open spec fn spec_surrogate_pair_char(hi: u16, lo: u16) -> char
    recommends
        spec_is_high_surrogate(hi),
        spec_is_low_surrogate(lo),
{
    (0x10000 + (hi - 0xD800) * 0x400 + (lo - 0xDC00)) as char
}

/// Standard UTF-16 decoding with replacement: a high surrogate followed by
/// a low surrogate yields one supplementary character; any unpaired
/// surrogate yields the replacement character; every other unit is its own
/// character.
pub open spec fn spec_utf16_chars(units: Seq<u16>) -> Seq<char>
    decreases units.len(),
{
    if units.len() == 0 {
        Seq::empty()
    } else if spec_is_high_surrogate(units[0]) {
        if units.len() >= 2 && spec_is_low_surrogate(units[1]) {
            seq![spec_surrogate_pair_char(units[0], units[1])] + spec_utf16_chars(units.skip(2))
        } else {
            seq!['\u{FFFD}'] + spec_utf16_chars(units.skip(1))
        }
    } else if spec_is_low_surrogate(units[0]) {
        seq!['\u{FFFD}'] + spec_utf16_chars(units.skip(1))
    } else {
        seq![units[0] as char] + spec_utf16_chars(units.skip(1))
    }
}

/// Decodes the payload as little-endian UTF-16 with replacement.
fn decode_utf16le(buffer: &[u8]) -> (s: String)
    ensures
        s@ == spec_utf16_chars(spec_utf16_units(buffer@)),
{
    broadcast use vstd::seq_lib::group_seq_properties;

    proof {
        vstd::slice::axiom_spec_len(buffer);
    }
    let ghost units = spec_utf16_units(buffer@);
    let n: usize = buffer.len() / 2;
    let mut s = String::new();
    let mut i: usize = 0;
    proof {
        assert(units.skip(0) =~= units);
        assert(Seq::<char>::empty() + spec_utf16_chars(units) =~= spec_utf16_chars(units));
    }
    while i < n
        invariant
            i <= n,
            n == buffer@.len() / 2,
            buffer@.len() <= usize::MAX,
            units == spec_utf16_units(buffer@),
            units.len() == n,
            spec_utf16_chars(units) == s@ + spec_utf16_chars(units.skip(i as int)),
        decreases n - i,
    {
        let ghost rest = units.skip(i as int);
        let u = crate::records::u16_le(buffer, 2 * i);
        proof {
            assert(rest[0] == units[i as int]);
            assert(u == units[i as int]);
        }
        let step: usize;
        let c: char;
        if 0xD800 <= u && u <= 0xDBFF {
            let mut paired = false;
            let mut u2: u16 = 0;
            if i + 1 < n {
                u2 = crate::records::u16_le(buffer, 2 * i + 2);
                proof {
                    assert(rest[1] == units[i + 1]);
                    assert(u2 == units[i + 1]);
                }
                if 0xDC00 <= u2 && u2 <= 0xDFFF {
                    paired = true;
                }
            }
            if paired {
                let scalar: u32 = 0x10000 + (u as u32 - 0xD800) * 0x400 + (u2 as u32 - 0xDC00);
                c = match char::from_u32(scalar) {
                    Some(c0) => c0,
                    None => '\u{FFFD}',
                };
                step = 2;
                proof {
                    assert(c == spec_surrogate_pair_char(units[i as int], units[i + 1]));
                    assert(spec_utf16_chars(rest) == seq![c] + spec_utf16_chars(rest.skip(2)));
                }
            } else {
                c = '\u{FFFD}';
                step = 1;
                proof {
                    assert(spec_utf16_chars(rest) == seq![c] + spec_utf16_chars(rest.skip(1)));
                }
            }
        } else if 0xDC00 <= u && u <= 0xDFFF {
            c = '\u{FFFD}';
            step = 1;
            proof {
                assert(spec_utf16_chars(rest) == seq![c] + spec_utf16_chars(rest.skip(1)));
            }
        } else {
            c = match char::from_u32(u as u32) {
                Some(c0) => c0,
                None => '\u{FFFD}',
            };
            step = 1;
            proof {
                assert(c == units[i as int] as char);
                assert(spec_utf16_chars(rest) == seq![c] + spec_utf16_chars(rest.skip(1)));
            }
        }
        proof {
            vstd::seq_lib::lemma_seq_skip_of_skip(units, i as int, step as int);
            assert(rest.skip(step as int) == units.skip(i + step));
            assert(s@.push(c) =~= s@ + seq![c]);
            assert((s@ + seq![c]) + spec_utf16_chars(units.skip(i + step)) =~= s@ + (seq![c]
                + spec_utf16_chars(units.skip(i + step))));
        }
        s.push(c);
        i = i + step;
    }
    proof {
        assert(units.skip(n as int) =~= Seq::<u16>::empty());
        assert(s@ + spec_utf16_chars(Seq::<u16>::empty()) =~= s@);
    }
    s
}

/// The text a payload decodes to: little-endian UTF-16 exactly when the
/// record is unshifted with 16-bit units, and the bit-packed decode in
/// every other case.
pub open spec fn spec_raw_chars(b: Seq<u8>, bits_per_unit: u8, offset: u16) -> Seq<char>
    recommends
        bits_per_unit != 0,
{
    if offset != 0 || bits_per_unit != 16 {
        spec_packed_chars(b, bits_per_unit as int, offset)
    } else {
        spec_utf16_chars(spec_utf16_units(b))
    }
}

/// The two decode paths never both apply: the bit-packed decode is selected
/// exactly when the offset is nonzero or the unit width is not 16, and the
/// UTF-16 decode exactly otherwise. In particular every shifted record —
/// so every decrypted payload — takes the bit-packed path.
pub proof fn lemma_decode_path_exclusive(b: Seq<u8>, bits_per_unit: u8, offset: u16)
    ensures
        offset != 0 || bits_per_unit != 16 ==> spec_raw_chars(b, bits_per_unit, offset)
            == spec_packed_chars(b, bits_per_unit as int, offset),
        offset == 0 && bits_per_unit == 16 ==> spec_raw_chars(b, bits_per_unit, offset)
            == spec_utf16_chars(spec_utf16_units(b)),
{
}

/// An empty payload decodes to the empty string, whatever the width and
/// offset.
pub proof fn lemma_empty_payload_decodes_empty(bits_per_unit: u8, offset: u16)
    requires
        bits_per_unit != 0,
    ensures
        spec_raw_chars(Seq::empty(), bits_per_unit, offset) == Seq::<char>::empty(),
{
    assert(spec_packed_chars(Seq::empty(), bits_per_unit as int, offset) =~= Seq::<
        char,
    >::empty());
    assert(spec_utf16_units(Seq::empty()) =~= Seq::<u16>::empty());
}

/// The unit-code mapping in full: code 0 is always NUL, codes 1 through 31
/// always name their entry of the fixed table, and every code of 32 or more
/// is the Unicode scalar `code - 32 + offset`, with the replacement
/// character standing in where that value is no scalar.
pub proof fn lemma_code_mapping(offset: u16)
    ensures
        spec_map_code(0, offset) == '\0',
        forall|v: int| 1 <= v <= 31 ==> #[trigger] spec_map_code(v, offset)
            == spec_char_table()[v - 1],
        forall|v: int|
            v >= 32 && spec_valid_scalar(v - 32 + offset) ==> #[trigger] spec_map_code(v, offset)
                == (v - 32 + offset) as char,
        forall|v: int|
            v >= 32 && !spec_valid_scalar(v - 32 + offset) ==> #[trigger] spec_map_code(v, offset)
                == '\u{FFFD}',
{
}

/// The decryption capability a shifted record needs: an opaque keyed
/// transform of the whole payload, pure in the pair of payload and key.
/// The concrete cipher is supplied by the caller and is outside this
/// decoder's concern.
pub trait Decrypter {
    /// The bytes this transform yields for a payload and a key.
    spec fn decrypted(&self, payload: Seq<u8>, key: u64) -> Seq<u8>;

    /// Applies the transform to the whole payload.
    fn decrypt(&self, payload: &[u8], key: u64) -> (r: Vec<u8>)
        ensures
            r@ == self.decrypted(payload@, key),
    ;
}

/// The identity transform: for payloads that are already plaintext.
pub struct IdentityDecrypter;

impl Decrypter for IdentityDecrypter {
    open spec fn decrypted(&self, payload: Seq<u8>, key: u64) -> Seq<u8> {
        payload
    }

    fn decrypt(&self, payload: &[u8], key: u64) -> (r: Vec<u8>) {
        vstd::slice::slice_to_vec(payload)
    }
}

/// One parsed string record: its entry descriptor and its raw — possibly
/// encrypted, possibly multi-width-packed — payload bytes.
#[derive(Debug)]
pub struct StringData(pub crate::records::Entry, pub Vec<u8>);

impl StringData {
    /// A record the decoder can rely on: its descriptor invariant holds.
    pub open spec fn wf(self) -> bool {
        self.0.wf()
    }

    /// Decodes a record's text given its payload and packing parameters.
    pub fn get_raw_string(offset: u16, bits_per_unit: u8, buffer: &[u8]) -> (s: String)
        requires
            bits_per_unit != 0,
        ensures
            s@ == spec_raw_chars(buffer@, bits_per_unit, offset),
    {
        if offset != 0 || bits_per_unit != 16 {
            decode_packed(buffer, bits_per_unit, offset)
        } else {
            decode_utf16le(buffer)
        }
    }

    /// Decodes this record: a shifted record demands a key and is decrypted
    /// through the supplied capability before the bit-packed decode; an
    /// unshifted record decodes directly and ignores any key.
    pub fn get_string<D: Decrypter>(&self, encryption_key: Option<u64>, decrypter: &D) -> (r:
        Result<String, crate::Error>)
        requires
            self.wf(),
        ensures
            self.0.offset != 0 && encryption_key is None ==> r == Err::<String, crate::Error>(
                crate::Error::NoEncryptionKeyProvided,
            ),
            self.0.offset != 0 ==> (encryption_key matches Some(key) ==> (r matches Ok(s) && s@
                == spec_raw_chars(
                decrypter.decrypted(self.1@, key),
                self.0.bits_per_unit,
                self.0.offset,
            ))),
            self.0.offset == 0 ==> (r matches Ok(s) && s@ == spec_raw_chars(
                self.1@,
                self.0.bits_per_unit,
                0,
            )),
    {
        if self.0.offset != 0 {
            match encryption_key {
                Some(key) => self.get_encrypted_string(key, decrypter),
                None => Err(crate::Error::NoEncryptionKeyProvided),
            }
        } else {
            Ok(Self::get_raw_string(0, self.0.bits_per_unit, self.1.as_slice()))
        }
    }

    /// Decodes this record after decrypting its whole payload with the
    /// supplied capability and key.
    pub fn get_encrypted_string<D: Decrypter>(&self, encryption_key: u64, decrypter: &D) -> (r:
        Result<String, crate::Error>)
        requires
            self.wf(),
        ensures
            r matches Ok(s) && s@ == spec_raw_chars(
                decrypter.decrypted(self.1@, encryption_key),
                self.0.bits_per_unit,
                self.0.offset,
            ),
    {
        let buffer = decrypter.decrypt(self.1.as_slice(), encryption_key);
        Ok(Self::get_raw_string(self.0.offset, self.0.bits_per_unit, buffer.as_slice()))
    }
}

} // verus!
