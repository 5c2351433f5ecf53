use gw2_strs::records::{Entry, Header, Trailer};
use gw2_strs::{Error, IdentityDecrypter, Language, Reader, StringData};

/// Little-endian magic header bytes.
fn header_bytes() -> Vec<u8> {
    vec![0x73, 0x74, 0x72, 0x73]
}

/// One on-disk record: size, offset, bits_per_unit, then the payload.
fn record_bytes(offset: u16, bits_per_unit: u8, payload: &[u8]) -> Vec<u8> {
    let size = (5 + payload.len()) as u16;
    let mut out = Vec::new();
    out.extend_from_slice(&size.to_le_bytes());
    out.extend_from_slice(&offset.to_le_bytes());
    out.push(bits_per_unit);
    out.extend_from_slice(payload);
    out
}

/// A whole buffer: header, records, trailer.
fn buffer_bytes(records: &[Vec<u8>], language: u8) -> Vec<u8> {
    let mut out = header_bytes();
    for r in records {
        out.extend_from_slice(r);
    }
    out.push(language);
    out.push(0);
    out
}

/// Byte-wide unshifted codes: every character as its scalar value plus 32.
fn encode_plain8(s: &str) -> Vec<u8> {
    s.chars().map(|c| (c as u32 + 32) as u8).collect()
}

/// Byte-wide codes shifted by `offset`: scalar value plus 32 minus offset.
fn encode_shifted8(s: &str, offset: u16) -> Vec<u8> {
    s.chars().map(|c| (c as u32 + 32 - offset as u32) as u8).collect()
}

/// UTF-16LE bytes of a string.
fn encode_utf16le(s: &str) -> Vec<u8> {
    let mut out = Vec::new();
    for u in s.encode_utf16() {
        out.extend_from_slice(&u.to_le_bytes());
    }
    out
}

/// Packs fixed-width codes into an LSB-first bitstream.
fn pack_bits(codes: &[u32], width: usize) -> Vec<u8> {
    let total = codes.len() * width;
    let mut out = vec![0u8; (total + 7) / 8];
    for (i, &code) in codes.iter().enumerate() {
        for j in 0..width {
            if (code >> j) & 1 == 1 {
                let bit = i * width + j;
                out[bit / 8] |= 1 << (bit % 8);
            }
        }
    }
    out
}

#[test]
fn test_language() {
    let r = Reader::from(buffer_bytes(&[], 0)).unwrap();
    assert_eq!(r.language, Language::English);
    let r = Reader::from(buffer_bytes(&[], 5)).unwrap();
    assert_eq!(r.language, Language::Chinese);
}

#[test]
fn test_raw() {
    // "Cotton Shoe Upper[s]" spells its brackets with table codes 16 and 17.
    let mut bracketed = Vec::new();
    for c in "Cotton Shoe Upper".chars() {
        bracketed.push((c as u32 + 32) as u8);
    }
    bracketed.push(16);
    bracketed.push((b's' as u32 + 32) as u8);
    bracketed.push(17);
    let records = vec![
        record_bytes(0, 8, &encode_plain8("Skale Toxin")),
        record_bytes(0, 8, &encode_plain8("Charge Shot")),
        record_bytes(0, 8, &bracketed),
        record_bytes(0, 8, &encode_plain8("Spin attack to knock back foes.")),
        record_bytes(0, 16, &encode_utf16le("\u{672a}\u{9274}\u{5b9a}\u{7684}\u{7ea2}\u{8272}\u{67d3}\u{6599}")),
    ];
    let r = Reader::from(buffer_bytes(&records, 0)).unwrap();
    assert_eq!(r.get_string(0).unwrap(), "Skale Toxin");
    assert_eq!(r.get_string(1).unwrap(), "Charge Shot");
    assert_eq!(r.get_string(2).unwrap(), "Cotton Shoe Upper[s]");
    assert_eq!(r.get_string(3).unwrap(), "Spin attack to knock back foes.");
    assert_eq!(
        r.get_string(4).unwrap(),
        "\u{672a}\u{9274}\u{5b9a}\u{7684}\u{7ea2}\u{8272}\u{67d3}\u{6599}"
    );
}

#[test]
fn test_missing_key() {
    let records = vec![
        record_bytes(0, 8, &encode_plain8("Stun")),
        record_bytes(3, 8, &encode_shifted8("Outlaw Outfit", 3)),
    ];
    let r = Reader::from(buffer_bytes(&records, 0)).unwrap();
    assert_eq!(r.get_string(0).unwrap(), "Stun");
    assert_eq!(r.get_string(1).unwrap_err(), Error::NoEncryptionKeyProvided);
}

#[test]
fn test_empty() {
    let records = vec![
        record_bytes(0, 8, &[]),
        record_bytes(0, 16, &[]),
        record_bytes(0, 8, &encode_plain8("end")),
    ];
    let r = Reader::from(buffer_bytes(&records, 0)).unwrap();
    assert_eq!(r.get_string(0).unwrap(), "");
    assert_eq!(r.get_string(1).unwrap(), "");
    assert_eq!(r.get_string(2).unwrap(), "end");
}

#[test]
fn test_encrypted() {
    // The identity capability stands in for the concrete cipher: the stored
    // payload is already the shifted plaintext stream.
    let records = vec![record_bytes(3, 8, &encode_shifted8("Outlaw Outfit", 3))];
    let r = Reader::from(buffer_bytes(&records, 0)).unwrap();
    assert_eq!(
        r.get_encrypted_string(0, 14399848955341, &IdentityDecrypter).unwrap(),
        "Outlaw Outfit"
    );
}

#[test]
fn test_index_out_of_range() {
    let records = vec![record_bytes(0, 8, &encode_plain8("only"))];
    let r = Reader::from(buffer_bytes(&records, 0)).unwrap();
    assert_eq!(r.get_string(1).unwrap_err(), Error::StringIndexOutOfRange);
    assert_eq!(r.get_string(1000).unwrap_err(), Error::StringIndexOutOfRange);
    assert_eq!(
        r.get_encrypted_string(1, 7, &IdentityDecrypter).unwrap_err(),
        Error::StringIndexOutOfRange
    );
    let empty = Reader::from(buffer_bytes(&[], 0)).unwrap();
    assert_eq!(empty.get_string(0).unwrap_err(), Error::StringIndexOutOfRange);
}

#[test]
fn test_encrypted_key_ignored_for_unshifted() {
    let records = vec![record_bytes(0, 8, &encode_plain8("Stun"))];
    let r = Reader::from(buffer_bytes(&records, 0)).unwrap();
    assert_eq!(r.get_encrypted_string(0, 123456, &IdentityDecrypter).unwrap(), "Stun");
}

#[test]
fn test_control_codes() {
    // Codes 0 through 31: NUL, then the whole fixed table in order.
    let codes: Vec<u8> = (0u8..32).collect();
    let records = vec![record_bytes(0, 8, &codes)];
    let r = Reader::from(buffer_bytes(&records, 0)).unwrap();
    assert_eq!(r.get_string(0).unwrap(), "\u{0}0123456strnum()[]<>%#/:-'\" ,.!\n");
}

#[test]
fn test_bit_packed_narrow_width() {
    // Codes 8, 9, 10 name 's', 't', 'r'; packed at six bits the three
    // codes span 18 bits, and the six trailing zero bits of the third byte
    // form a fourth unit decoding to NUL.
    let payload = pack_bits(&[8, 9, 10], 6);
    assert_eq!(payload, vec![72, 162, 0]);
    let records = vec![record_bytes(0, 6, &payload)];
    let r = Reader::from(buffer_bytes(&records, 0)).unwrap();
    assert_eq!(r.get_string(0).unwrap(), "str\u{0}");
}

#[test]
fn test_partial_trailing_unit_discarded() {
    // Two codes at twelve bits fill three bytes exactly; adding one more
    // byte leaves a partial unit that is dropped.
    let mut payload = pack_bits(&[('A' as u32) + 32, ('B' as u32) + 32], 12);
    assert_eq!(payload.len(), 3);
    payload.push(0xFF);
    let records = vec![record_bytes(0, 12, &payload)];
    let r = Reader::from(buffer_bytes(&records, 0)).unwrap();
    assert_eq!(r.get_string(0).unwrap(), "AB");
}

#[test]
fn test_shifted_sixteen_bit_units_stay_packed() {
    // A shifted record with 16-bit units takes the bit-packed path, not
    // UTF-16: each unit is a code, not a UTF-16 code unit.
    let codes: Vec<u32> = "Hi".chars().map(|c| c as u32 + 32 - 7).collect();
    let payload = pack_bits(&codes, 16);
    let records = vec![record_bytes(7, 16, &payload)];
    let r = Reader::from(buffer_bytes(&records, 0)).unwrap();
    assert_eq!(r.get_string(0).unwrap_err(), Error::NoEncryptionKeyProvided);
    assert_eq!(r.get_encrypted_string(0, 1, &IdentityDecrypter).unwrap(), "Hi");
}

#[test]
fn test_utf16_surrogates() {
    let records = vec![
        record_bytes(0, 16, &encode_utf16le("a\u{1F3BC}z")),
        // A lone high surrogate decodes to the replacement character.
        record_bytes(0, 16, &[0x41, 0x00, 0x00, 0xD8, 0x42, 0x00]),
        // A trailing odd byte is discarded.
        record_bytes(0, 16, &[0x41, 0x00, 0x7A]),
    ];
    let r = Reader::from(buffer_bytes(&records, 0)).unwrap();
    assert_eq!(r.get_string(0).unwrap(), "a\u{1F3BC}z");
    assert_eq!(r.get_string(1).unwrap(), "A\u{FFFD}B");
    assert_eq!(r.get_string(2).unwrap(), "A");
}

#[test]
fn test_invalid_scalar_replaced() {
    // Code 255 shifted by this offset lands in the surrogate range, which
    // is no Unicode scalar: the replacement character stands in.
    let payload = vec![0xFF];
    let records = vec![record_bytes(0xD733, 8, &payload)];
    let r = Reader::from(buffer_bytes(&records, 0)).unwrap();
    assert_eq!(
        r.get_encrypted_string(0, 0, &IdentityDecrypter).unwrap(),
        "\u{FFFD}"
    );
}

#[test]
fn test_construction_errors() {
    assert_eq!(Reader::from(vec![0x73, 0x74]).unwrap_err(), Error::HeaderTooShort);
    assert_eq!(
        Reader::from(vec![0x00, 0x00, 0x00, 0x00, 0x00, 0x00]).unwrap_err(),
        Error::InvalidFile
    );
    // Language byte 6 names no supported language.
    assert_eq!(Reader::from(buffer_bytes(&[], 6)).unwrap_err(), Error::LanguageNotSupported);
    assert_eq!(Reader::from(buffer_bytes(&[], 255)).unwrap_err(), Error::LanguageNotSupported);
    // An entry with a zero code width is semantically invalid.
    let mut zero_width = header_bytes();
    zero_width.extend_from_slice(&[5, 0, 0, 0, 0]);
    zero_width.extend_from_slice(&[0, 0]);
    assert_eq!(Reader::from(zero_width).unwrap_err(), Error::Unexpected);
    // An entry whose size cannot hold its own descriptor is invalid.
    let mut undersized = header_bytes();
    undersized.extend_from_slice(&[4, 0, 0, 0, 8]);
    undersized.extend_from_slice(&[0, 0]);
    assert_eq!(Reader::from(undersized).unwrap_err(), Error::InvalidFile);
    // An entry whose payload runs past the end of the buffer is invalid.
    let mut oversized = header_bytes();
    oversized.extend_from_slice(&[200, 0, 0, 0, 8]);
    oversized.extend_from_slice(&[0, 0]);
    assert_eq!(Reader::from(oversized).unwrap_err(), Error::InvalidFile);
}

#[test]
fn test_header_from_bytes() {
    let h = Header::from_bytes(&[0x73, 0x74, 0x72, 0x73, 0xAA]).unwrap();
    assert_eq!(h.magic, 0x73727473);
    assert_eq!(Header::from_bytes(&[0x73, 0x74, 0x72]).unwrap_err(), Error::HeaderTooShort);
    assert_eq!(
        Header::from_bytes(&[0x74, 0x74, 0x72, 0x73]).unwrap_err(),
        Error::InvalidFile
    );
}

#[test]
fn test_entry_from_bytes() {
    let e = Entry::from_bytes(&[0x07, 0x00, 0x34, 0x12, 0x08, 0xFF, 0xFF]).unwrap();
    assert_eq!(e.size, 7);
    assert_eq!(e.offset, 0x1234);
    assert_eq!(e.bits_per_unit, 8);
    assert_eq!(Entry::from_bytes(&[0x07, 0x00, 0x00, 0x00]).unwrap_err(), Error::HeaderTooShort);
    assert_eq!(
        Entry::from_bytes(&[0x07, 0x00, 0x00, 0x00, 0x00]).unwrap_err(),
        Error::Unexpected
    );
    assert_eq!(
        Entry::from_bytes(&[0x04, 0x00, 0x00, 0x00, 0x08]).unwrap_err(),
        Error::InvalidFile
    );
}

#[test]
fn test_trailer_from_bytes() {
    let t = Trailer::from_bytes(&[0x05, 0x09]).unwrap();
    assert_eq!(t.language, 5);
    assert_eq!(t.index, 9);
    assert_eq!(Trailer::from_bytes(&[0x05]).unwrap_err(), Error::HeaderTooShort);
}

#[test]
fn test_string_data_get_string() {
    let entry = Entry { size: 5 + 4, offset: 0, bits_per_unit: 8 };
    let data = StringData(entry, encode_plain8("Stun"));
    assert_eq!(data.get_string(None, &IdentityDecrypter).unwrap(), "Stun");
    assert_eq!(data.get_string(Some(9), &IdentityDecrypter).unwrap(), "Stun");
    let shifted = Entry { size: 5 + 4, offset: 2, bits_per_unit: 8 };
    let data = StringData(shifted, encode_shifted8("Stun", 2));
    assert_eq!(
        data.get_string(None, &IdentityDecrypter).unwrap_err(),
        Error::NoEncryptionKeyProvided
    );
    assert_eq!(data.get_string(Some(9), &IdentityDecrypter).unwrap(), "Stun");
}

#[test]
fn test_get_raw_string_direct() {
    assert_eq!(StringData::get_raw_string(0, 8, &encode_plain8("Skale Toxin")), "Skale Toxin");
    assert_eq!(StringData::get_raw_string(0, 8, &[]), "");
    assert_eq!(StringData::get_raw_string(0, 16, &encode_utf16le("ok")), "ok");
    assert_eq!(StringData::get_raw_string(3, 8, &encode_shifted8("ok", 3)), "ok");
}

#[test]
fn test_deterministic_construction() {
    let records = vec![
        record_bytes(0, 8, &encode_plain8("Skale Toxin")),
        record_bytes(3, 8, &encode_shifted8("Outlaw Outfit", 3)),
    ];
    let bytes = buffer_bytes(&records, 5);
    let a = Reader::from(bytes.clone()).unwrap();
    let b = Reader::from(bytes).unwrap();
    assert_eq!(a.language, b.language);
    assert_eq!(a.get_string(0).unwrap(), b.get_string(0).unwrap());
    assert_eq!(a.get_string(1).unwrap_err(), b.get_string(1).unwrap_err());
    assert_eq!(a.get_string(2).unwrap_err(), b.get_string(2).unwrap_err());
}
