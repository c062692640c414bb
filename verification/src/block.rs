//! The block grammar: a path field and a payload field make one record, and an
//! archive is blocks laid end to end up to the last byte.

use vstd::prelude::*;
use vstd::slice::slice_to_vec;
use crate::text::{decode_path, spec_path_text};
use crate::wire::{fetch_payload, spec_field_data, spec_field_fits, spec_field_rest, ParseError};

verus! {

/// One decoded block: where the payload belongs, and the payload itself.
#[derive(Debug, Clone)]
pub struct NamedPayload {
    pub file_name: String,
    pub payload: Vec<u8>,
}

/// A record as a mathematical value.
pub struct NamedPayloadView {
    pub file_name: Seq<char>,
    pub payload: Seq<u8>,
}

impl View for NamedPayload {
    type V = NamedPayloadView;

    open spec fn view(&self) -> NamedPayloadView {
        NamedPayloadView { file_name: self.file_name@, payload: self.payload@ }
    }
}

/// The records of a vector, each as a mathematical value.
pub open spec fn spec_views(records: Seq<NamedPayload>) -> Seq<NamedPayloadView> {
    Seq::new(records.len(), |k: int| records[k]@)
}

/// The path field at the head of `s`: what follows it, and its text.
pub open spec fn spec_path_field(s: Seq<u8>) -> Result<(Seq<u8>, Seq<char>), ParseError> {
    if !spec_field_fits(s) {
        Err(ParseError::Truncated)
    } else if spec_field_data(s).len() % 2 != 0 {
        Err(ParseError::OddPathLength)
    } else {
        Ok((spec_field_rest(s), spec_path_text(spec_field_data(s))))
    }
}

/// The payload field at the head of `s`: what follows it, and its bytes.
pub open spec fn spec_payload_field(s: Seq<u8>) -> Result<(Seq<u8>, Seq<u8>), ParseError> {
    if !spec_field_fits(s) {
        Err(ParseError::Truncated)
    } else {
        Ok((spec_field_rest(s), spec_field_data(s)))
    }
}

/// The block at the head of `s`: what follows it, and its record. The first
/// fault in byte order decides the error.
pub open spec fn spec_block(s: Seq<u8>) -> Result<(Seq<u8>, NamedPayloadView), ParseError> {
    match spec_path_field(s) {
        Err(e) => Err(e),
        Ok((after_path, file_name)) => match spec_payload_field(after_path) {
            Err(e) => Err(e),
            Ok((rest, payload)) => Ok((rest, NamedPayloadView { file_name, payload })),
        },
    }
}

/// `records` put in front of a later outcome; a failure stays a failure.
pub open spec fn spec_after(
    records: Seq<NamedPayloadView>,
    later: Result<Seq<NamedPayloadView>, ParseError>,
) -> Result<Seq<NamedPayloadView>, ParseError> {
    match later {
        Err(e) => Err(e),
        Ok(more) => Ok(records + more),
    }
}

/// A whole archive: no bytes decode to no records; otherwise one block, then
/// the archive that the remaining bytes form. Bytes left over that make no
/// whole block are a failure.
pub open spec fn spec_archive(s: Seq<u8>) -> Result<Seq<NamedPayloadView>, ParseError>
    decreases s.len(),
{
    if s.len() == 0 {
        Ok(Seq::empty())
    } else {
        match spec_block(s) {
            Err(e) => Err(e),
            Ok((rest, record)) => spec_after(seq![record], spec_archive(rest)),
        }
    }
}

/// Reads a path field and decodes its text.
pub fn file_path_name<'a>(i: &'a [u8]) -> (r: Result<(&'a [u8], String), ParseError>)
    ensures
        match spec_path_field(i@) {
            Ok((rest, text)) => r is Ok && r->Ok_0.0@ == rest && r->Ok_0.1@ == text,
            Err(e) => r == Err::<(&[u8], String), ParseError>(e),
        },
{
    match fetch_payload(i) {
        Err(e) => Err(e),
        Ok((rest, data)) => match decode_path(data) {
            Err(e) => Err(e),
            Ok(text) => Ok((rest, text)),
        },
    }
}

/// Reads a payload field and copies its bytes out unchanged.
pub fn block_payload<'a>(i: &'a [u8]) -> (r: Result<(&'a [u8], Vec<u8>), ParseError>)
    ensures
        match spec_payload_field(i@) {
            Ok((rest, bytes)) => r is Ok && r->Ok_0.0@ == rest && r->Ok_0.1@ == bytes,
            Err(e) => r == Err::<(&[u8], Vec<u8>), ParseError>(e),
        },
{
    match fetch_payload(i) {
        Err(e) => Err(e),
        Ok((rest, data)) => Ok((rest, slice_to_vec(data))),
    }
}

/// Reads one block: a path field, then a payload field.
pub fn parse_block<'a>(i: &'a [u8]) -> (r: Result<(&'a [u8], NamedPayload), ParseError>)
    ensures
        match spec_block(i@) {
            Ok((rest, record)) => r is Ok && r->Ok_0.0@ == rest && r->Ok_0.1@ == record,
            Err(e) => r == Err::<(&[u8], NamedPayload), ParseError>(e),
        },
{
    match file_path_name(i) {
        Err(e) => Err(e),
        Ok((after_path, file_name)) => match block_payload(after_path) {
            Err(e) => Err(e),
            Ok((rest, payload)) => Ok((rest, NamedPayload { file_name, payload })),
        },
    }
}

/// A block that decodes takes at least its two length prefixes from the input.
pub proof fn lemma_block_consumes(s: Seq<u8>)
    requires
        spec_block(s) is Ok,
    ensures
        spec_block(s)->Ok_0.0.len() + 8 <= s.len(),
{
}

/// Decodes a whole archive into its records, in the order of their blocks.
/// It fails on the first block that is cut short or whose path field is odd,
/// and on trailing bytes that make no whole block.
pub fn parse_file(i: &[u8]) -> (r: Result<Vec<NamedPayload>, ParseError>)
    ensures
        match spec_archive(i@) {
            Ok(records) => r is Ok && spec_views(r->Ok_0@) == records,
            Err(e) => r == Err::<Vec<NamedPayload>, ParseError>(e),
        },
{
    let mut blocks: Vec<NamedPayload> = Vec::new();
    let mut cur: &[u8] = i;
    assert(spec_views(blocks@) =~= Seq::empty());
    assert(spec_after(spec_views(blocks@), spec_archive(cur@)) == spec_archive(i@)) by {
        match spec_archive(cur@) {
            Ok(more) => assert(Seq::<NamedPayloadView>::empty() + more =~= more),
            Err(_) => {},
        }
    }
    while cur.len() > 0
        invariant
            spec_after(spec_views(blocks@), spec_archive(cur@)) == spec_archive(i@),
        decreases cur@.len(),
    {
        proof {
            if spec_block(cur@) is Ok {
                lemma_block_consumes(cur@);
            }
        }
        match parse_block(cur) {
            Err(e) => {
                return Err(e);
            },
            Ok((rest, record)) => {
                let ghost before = spec_views(blocks@);
                blocks.push(record);
                proof {
                    assert(spec_views(blocks@) =~= before + seq![record@]);
                    match spec_archive(rest@) {
                        Ok(more) => assert((before + seq![record@]) + more =~= before + (seq![
                            record@,
                        ] + more)),
                        Err(_) => {},
                    }
                }
                cur = rest;
            },
        }
    }
    proof {
        assert(spec_views(blocks@) + Seq::<NamedPayloadView>::empty() =~= spec_views(blocks@));
    }
    Ok(blocks)
}

} // verus!
