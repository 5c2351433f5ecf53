//! Decoder for a binary localized string-table resource: a magic header,
//! variable-length bit-packed string records, and a trailer naming the
//! content's language.

use vstd::prelude::*;

pub mod bits;
pub mod decode;
pub mod reader;
pub mod records;
pub mod table;

pub use decode::{Decrypter, IdentityDecrypter, StringData};
pub use reader::Reader;
pub use records::{Entry, Header, Trailer};

verus! {

/// The language named by the trailer's language byte (codes 0 through 5).
#[derive(Debug, PartialEq, Eq, Structural, Default)]
pub enum Language {
    #[default]
    English,
    Korean,
    French,
    German,
    Spanish,
    Chinese,
}

/// Everything that can go wrong while parsing a buffer or querying a string.
#[derive(Debug, PartialEq, Eq, Structural)]
pub enum Error {
    HeaderTooShort,
    InvalidFile,
    LanguageNotSupported,
    StringIndexOutOfRange,
    NoEncryptionKeyProvided,
    Unexpected,
}

/// Maps a trailer language byte to its `Language`; bytes 6 and above name
/// no supported language.
pub open spec fn spec_language_of(code: u8) -> Result<Language, Error> {
    if code == 0 {
        Ok(Language::English)
    } else if code == 1 {
        Ok(Language::Korean)
    } else if code == 2 {
        Ok(Language::French)
    } else if code == 3 {
        Ok(Language::German)
    } else if code == 4 {
        Ok(Language::Spanish)
    } else if code == 5 {
        Ok(Language::Chinese)
    } else {
        Err(Error::LanguageNotSupported)
    }
}

/// Resolves a trailer language byte.
pub fn language_of(code: u8) -> (r: Result<Language, Error>)
    ensures
        r == spec_language_of(code),
{
    match code {
        0 => Ok(Language::English),
        1 => Ok(Language::Korean),
        2 => Ok(Language::French),
        3 => Ok(Language::German),
        4 => Ok(Language::Spanish),
        5 => Ok(Language::Chinese),
        _ => Err(Error::LanguageNotSupported),
    }
}

/// Language bytes 0 and 5 map to English and Chinese, and every byte of 6 or
/// more is rejected with `LanguageNotSupported`.
pub proof fn lemma_language_codes()
    ensures
        spec_language_of(0) == Ok::<Language, Error>(Language::English),
        spec_language_of(5) == Ok::<Language, Error>(Language::Chinese),
        forall|code: u8| code >= 6 ==> spec_language_of(code) == Err::<Language, Error>(
            Error::LanguageNotSupported,
        ),
{
}

} // verus!
