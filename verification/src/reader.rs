//! The root of the decoder: parses a whole buffer into an ordered sequence
//! of string records plus the trailer's language, and answers per-index
//! string queries by delegating to the text decoder.

use vstd::prelude::*;

use crate::decode::{spec_raw_chars, Decrypter, IdentityDecrypter, StringData};
use crate::records::{
    spec_parse_entry, spec_parse_header, spec_parse_trailer, Entry, Header, Trailer, ENTRY_SIZE,
    HEADER_SIZE, TRAILER_SIZE,
};
use crate::{language_of, spec_language_of, Error, Language};

verus! {

/// The records parsed from `b` starting at byte `pos`, walking entry by
/// entry until the trailer boundary, together with the final byte position:
/// each record pairs its entry with the payload bytes the entry's size
/// spans. An entry that fails to parse, or whose payload would run past the
/// end of the buffer, fails the whole walk.
pub open spec fn spec_parse_records(b: Seq<u8>, pos: int) -> Result<
    (Seq<(Entry, Seq<u8>)>, int),
    Error,
>
    decreases b.len() - pos,
{
    if pos >= b.len() - TRAILER_SIZE {
        Ok((Seq::empty(), pos))
    } else {
        match spec_parse_entry(b.skip(pos)) {
            Err(e) => Err(e),
            Ok(entry) => {
                if pos + entry.size > b.len() {
                    Err(Error::InvalidFile)
                } else {
                    match spec_parse_records(b, pos + entry.size) {
                        Err(e) => Err(e),
                        Ok((rest, end)) => Ok(
                            (
                                seq![(entry, b.subrange(pos + ENTRY_SIZE, pos + entry.size))]
                                    + rest,
                                end,
                            ),
                        ),
                    }
                }
            },
        }
    }
}

/// The walk of `spec_parse_records` from `pos` on, with the records already
/// walked prepended.
pub open spec fn spec_records_continue(
    b: Seq<u8>,
    done: Seq<(Entry, Seq<u8>)>,
    pos: int,
) -> Result<(Seq<(Entry, Seq<u8>)>, int), Error> {
    match spec_parse_records(b, pos) {
        Ok((rest, end)) => Ok((done + rest, end)),
        Err(e) => Err(e),
    }
}

/// What `Reader::from` yields on a given buffer: the parsed records and the
/// trailer's language, or the first failure. The header opens the buffer,
/// records are walked from behind it to the trailer boundary, and the
/// trailer is read at wherever the walk lands.
pub open spec fn spec_reader_from(b: Seq<u8>) -> Result<
    (Seq<(Entry, Seq<u8>)>, Language),
    Error,
> {
    match spec_parse_header(b) {
        Err(e) => Err(e),
        Ok(_) => match spec_parse_records(b, HEADER_SIZE as int) {
            Err(e) => Err(e),
            Ok((records, end)) => match spec_parse_trailer(b.skip(end)) {
                Err(e) => Err(e),
                Ok(trailer) => match spec_language_of(trailer.language) {
                    Err(e) => Err(e),
                    Ok(lang) => Ok((records, lang)),
                },
            },
        },
    }
}

/// Construction is deterministic: the record sequence and language that
/// `Reader::from` yields — and with them every later per-index decode —
/// are a function of the buffer's bytes alone.
pub proof fn lemma_from_deterministic(b1: Seq<u8>, b2: Seq<u8>)
    requires
        b1 == b2,
    ensures
        spec_reader_from(b1) == spec_reader_from(b2),
{
}

/// The parsed form of one whole buffer: its string records in file order
/// and its resolved language. Immutable once constructed.
#[derive(Debug)]
pub struct Reader {
    strings: Vec<StringData>,
    pub language: Language,
}

impl Reader {
    /// The records this reader holds, each as its entry and payload bytes.
    pub closed spec fn records(self) -> Seq<(Entry, Seq<u8>)> {
        self.strings@.map_values(|s: StringData| (s.0, s.1@))
    }

    /// The language this reader resolved from the trailer.
    pub closed spec fn spec_language(self) -> Language {
        self.language
    }

    /// Every held record satisfies the descriptor invariant.
    pub closed spec fn wf(self) -> bool {
        forall|i: int|
            0 <= i < self.strings@.len() ==> (#[trigger] self.strings@[i]).0.wf()
    }

    /// Parses a whole buffer: header, the record walk, then the trailer and
    /// its language. Construction is all-or-nothing: any failure yields no
    /// reader at all.
    pub fn from(buffer: Vec<u8>) -> (r: Result<Self, Error>)
        ensures
            r matches Ok(rd) ==> (spec_reader_from(buffer@) matches Ok(m) && rd.records() == m.0
                && rd.spec_language() == m.1 && rd.wf()),
            r matches Err(e) ==> spec_reader_from(buffer@) == Err::<
                (Seq<(Entry, Seq<u8>)>, Language),
                Error,
            >(e),
    {
        let ghost b = buffer@;
        match Header::from_bytes(buffer.as_slice()) {
            Err(e) => {
                return Err(e);
            },
            Ok(_) => {},
        }
        let mut strings: Vec<StringData> = Vec::with_capacity(1024);
        let length: usize = buffer.len() - TRAILER_SIZE;
        let mut offset: usize = HEADER_SIZE;
        proof {
            assert(spec_records_continue(b, strings@.map_values(|s: StringData| (s.0, s.1@)), HEADER_SIZE as int)
                == spec_parse_records(b, HEADER_SIZE as int)) by {
                assert(strings@.map_values(|s: StringData| (s.0, s.1@)) =~= Seq::<(Entry, Seq<u8>)>::empty());
                match spec_parse_records(b, HEADER_SIZE as int) {
                    Ok((rest, end)) => {
                        assert(Seq::<(Entry, Seq<u8>)>::empty() + rest =~= rest);
                    },
                    Err(_) => {},
                }
            }
        }
        while offset < length
            invariant
                b == buffer@,
                spec_parse_header(b) is Ok,
                HEADER_SIZE <= offset <= b.len(),
                b.len() >= HEADER_SIZE,
                length == b.len() - TRAILER_SIZE,
                spec_parse_records(b, HEADER_SIZE as int) == spec_records_continue(
                    b,
                    strings@.map_values(|s: StringData| (s.0, s.1@)),
                    offset as int,
                ),
                forall|i: int|
                    0 <= i < strings@.len() ==> (#[trigger] strings@[i]).0.wf(),
            decreases b.len() - offset,
        {
            let ghost done = strings@.map_values(|s: StringData| (s.0, s.1@));
            let tail = vstd::slice::slice_subrange(buffer.as_slice(), offset, buffer.len());
            proof {
                assert(tail@ == b.skip(offset as int));
            }
            let entry = match Entry::from_bytes(tail) {
                Ok(e) => e,
                Err(e) => {
                    proof {
                        assert(spec_parse_records(b, offset as int) == Err::<
                            (Seq<(Entry, Seq<u8>)>, int),
                            Error,
                        >(e));
                    }
                    return Err(e);
                },
            };
            let esize = entry.size as usize;
            if esize > buffer.len() - offset {
                proof {
                    assert(spec_parse_records(b, offset as int) == Err::<
                        (Seq<(Entry, Seq<u8>)>, int),
                        Error,
                    >(Error::InvalidFile));
                }
                return Err(Error::InvalidFile);
            }
            let string_offset = offset + ENTRY_SIZE;
            let new_offset = offset + esize;
            let payload = vstd::slice::slice_to_vec(
                vstd::slice::slice_subrange(buffer.as_slice(), string_offset, new_offset),
            );
            let ghost rec = (entry, payload@);
            strings.push(StringData(entry, payload));
            proof {
                let done2 = strings@.map_values(|s: StringData| (s.0, s.1@));
                assert(done2 =~= done.push(rec));
                match spec_parse_records(b, new_offset as int) {
                    Ok((rest, end)) => {
                        assert(spec_parse_records(b, offset as int) == Ok::<
                            (Seq<(Entry, Seq<u8>)>, int),
                            Error,
                        >((seq![rec] + rest, end)));
                        assert(done + (seq![rec] + rest) =~= done.push(rec) + rest);
                    },
                    Err(_) => {},
                }
            }
            offset = new_offset;
        }
        proof {
            let done = strings@.map_values(|s: StringData| (s.0, s.1@));
            assert(spec_parse_records(b, offset as int) == Ok::<(Seq<(Entry, Seq<u8>)>, int), Error>(
                (Seq::empty(), offset as int),
            ));
            assert(done + Seq::<(Entry, Seq<u8>)>::empty() =~= done);
        }
        let tail = vstd::slice::slice_subrange(buffer.as_slice(), offset, buffer.len());
        proof {
            assert(tail@ == b.skip(offset as int));
        }
        let trailer = match Trailer::from_bytes(tail) {
            Ok(t) => t,
            Err(e) => {
                return Err(e);
            },
        };
        let language = match language_of(trailer.language) {
            Ok(l) => l,
            Err(e) => {
                return Err(e);
            },
        };
        Ok(Reader { strings, language })
    }

    /// Looks the record at `index` up and decodes it with no key: an index
    /// past the record count fails with `StringIndexOutOfRange`, a shifted
    /// record with `NoEncryptionKeyProvided`.
    pub fn get_string(&self, index: usize) -> (r: Result<String, Error>)
        requires
            self.wf(),
        ensures
            index >= self.records().len() ==> r == Err::<String, Error>(
                Error::StringIndexOutOfRange,
            ),
            index < self.records().len() ==> ({
                let entry = self.records()[index as int].0;
                let payload = self.records()[index as int].1;
                &&& (entry.offset != 0 ==> r == Err::<String, Error>(
                    Error::NoEncryptionKeyProvided,
                ))
                &&& (entry.offset == 0 ==> (r matches Ok(s) && s@ == spec_raw_chars(
                    payload,
                    entry.bits_per_unit,
                    0,
                )))
            }),
    {
        if index < self.strings.len() {
            let data = &self.strings[index];
            proof {
                assert(self.records()[index as int] == (data.0, data.1@));
            }
            data.get_string(None, &IdentityDecrypter)
        } else {
            Err(Error::StringIndexOutOfRange)
        }
    }

    /// Looks the record at `index` up and decodes it with the supplied key
    /// and decryption capability: a shifted record is decrypted first; an
    /// unshifted record decodes directly, the key having no effect.
    pub fn get_encrypted_string<D: Decrypter>(
        &self,
        index: usize,
        encryption_key: u64,
        decrypter: &D,
    ) -> (r: Result<String, Error>)
        requires
            self.wf(),
        ensures
            index >= self.records().len() ==> r == Err::<String, Error>(
                Error::StringIndexOutOfRange,
            ),
            index < self.records().len() ==> ({
                let entry = self.records()[index as int].0;
                let payload = self.records()[index as int].1;
                &&& (entry.offset != 0 ==> (r matches Ok(s) && s@ == spec_raw_chars(
                    decrypter.decrypted(payload, encryption_key),
                    entry.bits_per_unit,
                    entry.offset,
                )))
                &&& (entry.offset == 0 ==> (r matches Ok(s) && s@ == spec_raw_chars(
                    payload,
                    entry.bits_per_unit,
                    0,
                )))
            }),
    {
        if index < self.strings.len() {
            let data = &self.strings[index];
            proof {
                assert(self.records()[index as int] == (data.0, data.1@));
            }
            data.get_string(Some(encryption_key), decrypter)
        } else {
            Err(Error::StringIndexOutOfRange)
        }
    }
}

} // verus!
