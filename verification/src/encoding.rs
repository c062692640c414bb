//! The archive format read the other way, as a mathematical function from
//! blocks to bytes, and what decoding owes to bytes laid out that way.

use vstd::prelude::*;
use crate::block::{spec_after, spec_archive, spec_block, spec_path_field, spec_payload_field, NamedPayloadView};
use crate::text::{spec_code_units, utf16_lossy};
use crate::wire::{be_u16_of, be_u32_of, spec_field_data, spec_field_fits, spec_field_rest, spec_length_prefix, ParseError};

verus! {

/// What an archive's author puts into one block: the path as UTF-16 code
/// units, and the payload.
pub struct SourceBlock {
    pub units: Seq<u16>,
    pub payload: Seq<u8>,
}

/// The four bytes that spell `n`, most significant first.
pub open spec fn spec_be_u32_bytes(n: nat) -> Seq<u8>
    recommends
        n <= u32::MAX,
{
    seq![
        ((n / 0x100_0000) % 0x100) as u8,
        ((n / 0x1_0000) % 0x100) as u8,
        ((n / 0x100) % 0x100) as u8,
        (n % 0x100) as u8,
    ]
}

/// The bytes that spell a run of code units, two each, most significant first.
pub open spec fn spec_unit_bytes(units: Seq<u16>) -> Seq<u8> {
    Seq::new(
        2 * units.len(),
        |k: int|
            if k % 2 == 0 {
                (units[k / 2] / 0x100) as u8
            } else {
                (units[k / 2] % 0x100) as u8
            },
    )
}

/// A field: the length of `data` as a prefix, then `data`.
pub open spec fn spec_encode_field(data: Seq<u8>) -> Seq<u8>
    recommends
        data.len() <= u32::MAX,
{
    spec_be_u32_bytes(data.len()) + data
}

/// Whether both fields of a block have a length that four bytes can spell.
pub open spec fn spec_encodable(b: SourceBlock) -> bool {
    2 * b.units.len() <= u32::MAX && b.payload.len() <= u32::MAX
}

/// Whether every block of a run can be encoded.
pub open spec fn spec_all_encodable(blocks: Seq<SourceBlock>) -> bool {
    forall|k: int| 0 <= k < blocks.len() ==> spec_encodable(#[trigger] blocks[k])
}

/// A block: the path field, then the payload field.
pub open spec fn spec_encode_block(b: SourceBlock) -> Seq<u8> {
    spec_encode_field(spec_unit_bytes(b.units)) + spec_encode_field(b.payload)
}

/// An archive: the blocks end to end, with nothing between or after them.
pub open spec fn spec_encode_archive(blocks: Seq<SourceBlock>) -> Seq<u8>
    decreases blocks.len(),
{
    if blocks.len() == 0 {
        Seq::empty()
    } else {
        spec_encode_block(blocks[0]) + spec_encode_archive(blocks.skip(1))
    }
}

/// The record that a block decodes to.
pub open spec fn spec_decoded(b: SourceBlock) -> NamedPayloadView {
    NamedPayloadView { file_name: utf16_lossy(b.units), payload: b.payload }
}

/// The records that a run of blocks decodes to, in order.
pub open spec fn spec_decoded_all(blocks: Seq<SourceBlock>) -> Seq<NamedPayloadView> {
    Seq::new(blocks.len(), |k: int| spec_decoded(blocks[k]))
}

/// A length prefix reads back as the number it was written from.
pub proof fn lemma_prefix_reads_back(n: nat)
    requires
        n <= u32::MAX,
    ensures
        spec_be_u32_bytes(n).len() == 4,
        spec_length_prefix(spec_be_u32_bytes(n)) == n,
{
    let b = spec_be_u32_bytes(n);
    assert(n / 0x100_0000 < 0x100);
    assert(b[0] as nat == n / 0x100_0000);
    assert(b[1] as nat == (n / 0x1_0000) % 0x100);
    assert(b[2] as nat == (n / 0x100) % 0x100);
    assert(b[3] as nat == n % 0x100);
    assert(be_u32_of(b[0], b[1], b[2], b[3]) == n);
}

/// A field followed by anything reads back as its data, with what followed
/// left over.
pub proof fn lemma_field_reads_back(data: Seq<u8>, tail: Seq<u8>)
    requires
        data.len() <= u32::MAX,
    ensures
        spec_field_fits(spec_encode_field(data) + tail),
        spec_field_data(spec_encode_field(data) + tail) == data,
        spec_field_rest(spec_encode_field(data) + tail) == tail,
{
    let s = spec_encode_field(data) + tail;
    let p = spec_be_u32_bytes(data.len());
    lemma_prefix_reads_back(data.len());
    assert(s[0] == p[0] && s[1] == p[1] && s[2] == p[2] && s[3] == p[3]);
    assert(spec_length_prefix(s) == data.len());
    assert(spec_field_data(s) =~= data);
    assert(spec_field_rest(s) =~= tail);
}

/// Code units written as bytes read back as the same code units.
pub proof fn lemma_units_read_back(units: Seq<u16>)
    ensures
        spec_unit_bytes(units).len() == 2 * units.len(),
        spec_code_units(spec_unit_bytes(units)) == units,
{
    let b = spec_unit_bytes(units);
    assert forall|k: int| 0 <= k < units.len() implies #[trigger] spec_code_units(b)[k]
        == units[k] by {
        let u = units[k];
        assert((2 * k) % 2 == 0 && (2 * k) / 2 == k);
        assert((2 * k + 1) % 2 == 1 && (2 * k + 1) / 2 == k);
        assert(b[2 * k] as nat == (u as nat) / 0x100);
        assert(b[2 * k + 1] as nat == (u as nat) % 0x100);
        assert(be_u16_of(b[2 * k], b[2 * k + 1]) == u as nat);
    }
    assert(spec_code_units(b) =~= units);
}

/// A block followed by anything decodes to its record, with what followed
/// left over.
pub proof fn lemma_block_reads_back(b: SourceBlock, tail: Seq<u8>)
    requires
        spec_encodable(b),
    ensures
        spec_block(spec_encode_block(b) + tail) == Ok::<(Seq<u8>, NamedPayloadView), ParseError>(
            (tail, spec_decoded(b)),
        ),
{
    let path_bytes = spec_unit_bytes(b.units);
    let after_path = spec_encode_field(b.payload) + tail;
    let s = spec_encode_block(b) + tail;
    lemma_units_read_back(b.units);
    assert(s =~= spec_encode_field(path_bytes) + after_path);
    lemma_field_reads_back(path_bytes, after_path);
    lemma_field_reads_back(b.payload, tail);
}

/// Decoding well-formed blocks followed by more bytes yields the blocks'
/// records, in order, in front of whatever the remaining bytes decode to.
pub proof fn lemma_blocks_then_rest(blocks: Seq<SourceBlock>, tail: Seq<u8>)
    requires
        spec_all_encodable(blocks),
    ensures
        spec_archive(spec_encode_archive(blocks) + tail) == spec_after(
            spec_decoded_all(blocks),
            spec_archive(tail),
        ),
    decreases blocks.len(),
{
    let s = spec_encode_archive(blocks) + tail;
    if blocks.len() == 0 {
        assert(s =~= tail);
        assert(spec_decoded_all(blocks) =~= Seq::empty());
        match spec_archive(tail) {
            Ok(more) => assert(Seq::<NamedPayloadView>::empty() + more =~= more),
            Err(_) => {},
        }
    } else {
        let first = blocks[0];
        let others = blocks.skip(1);
        let after = spec_encode_archive(others) + tail;
        assert(spec_encodable(first));
        assert(spec_all_encodable(others)) by {
            assert forall|k: int| 0 <= k < others.len() implies spec_encodable(
                #[trigger] others[k],
            ) by {
                assert(others[k] == blocks[k + 1]);
            }
        }
        assert(s =~= spec_encode_block(first) + after);
        lemma_block_reads_back(first, after);
        lemma_prefix_reads_back(spec_unit_bytes(first.units).len());
        assert(s.len() > 0);
        lemma_blocks_then_rest(others, tail);
        assert(spec_decoded_all(blocks) =~= seq![spec_decoded(first)] + spec_decoded_all(others));
        match spec_archive(tail) {
            Ok(more) => assert(seq![spec_decoded(first)] + (spec_decoded_all(others) + more)
                =~= (seq![spec_decoded(first)] + spec_decoded_all(others)) + more),
            Err(_) => {},
        }
    }
}

/// Round trip: an archive made of `blocks` and nothing else decodes to exactly
/// as many records, in the same order, each with its block's payload and the
/// lossy decoding of its block's path.
pub proof fn lemma_round_trip(blocks: Seq<SourceBlock>)
    requires
        spec_all_encodable(blocks),
    ensures
        spec_archive(spec_encode_archive(blocks)) == Ok::<Seq<NamedPayloadView>, ParseError>(
            spec_decoded_all(blocks),
        ),
        spec_decoded_all(blocks).len() == blocks.len(),
        forall|k: int|
            0 <= k < blocks.len() ==> (#[trigger] spec_decoded_all(blocks)[k]).payload
                == blocks[k].payload && spec_decoded_all(blocks)[k].file_name == utf16_lossy(
                blocks[k].units,
            ),
{
    lemma_blocks_then_rest(blocks, Seq::empty());
    assert(spec_encode_archive(blocks) + Seq::<u8>::empty() =~= spec_encode_archive(blocks));
    assert(spec_decoded_all(blocks) + Seq::<NamedPayloadView>::empty() =~= spec_decoded_all(
        blocks,
    ));
}

/// Truncation: after any well-formed blocks, a block whose payload field
/// declares more bytes than the archive still holds makes the whole archive
/// fail; no shortened record comes out.
pub proof fn lemma_truncated_payload_fails(
    blocks: Seq<SourceBlock>,
    units: Seq<u16>,
    declared: nat,
    remaining: Seq<u8>,
)
    requires
        spec_all_encodable(blocks),
        2 * units.len() <= u32::MAX,
        declared <= u32::MAX,
        remaining.len() < declared,
    ensures
        spec_archive(
            spec_encode_archive(blocks) + (spec_encode_field(spec_unit_bytes(units)) + (
            spec_be_u32_bytes(declared) + remaining)),
        ) == Err::<Seq<NamedPayloadView>, ParseError>(ParseError::Truncated),
{
    let cut = spec_be_u32_bytes(declared) + remaining;
    let last = spec_encode_field(spec_unit_bytes(units)) + cut;
    lemma_blocks_then_rest(blocks, last);
    lemma_units_read_back(units);
    lemma_field_reads_back(spec_unit_bytes(units), cut);
    lemma_prefix_reads_back(declared);
    lemma_prefix_reads_back(spec_unit_bytes(units).len());
    let p = spec_be_u32_bytes(declared);
    assert(cut[0] == p[0] && cut[1] == p[1] && cut[2] == p[2] && cut[3] == p[3]);
    assert(!spec_field_fits(cut));
    assert(spec_payload_field(cut) is Err);
    assert(last.len() > 0);
    assert(spec_block(last) == Err::<(Seq<u8>, NamedPayloadView), ParseError>(
        ParseError::Truncated,
    ));
}

/// Leftovers: after any well-formed blocks, one to three stray bytes, too few
/// for a length prefix, make the whole archive fail.
pub proof fn lemma_stray_bytes_fail(blocks: Seq<SourceBlock>, stray: Seq<u8>)
    requires
        spec_all_encodable(blocks),
        0 < stray.len() < 4,
    ensures
        spec_archive(spec_encode_archive(blocks) + stray) == Err::<
            Seq<NamedPayloadView>,
            ParseError,
        >(ParseError::Truncated),
{
    lemma_blocks_then_rest(blocks, stray);
    assert(spec_path_field(stray) is Err);
}

/// Odd path length: after any well-formed blocks, a path field that is whole
/// but holds an odd number of bytes makes the whole archive fail, whatever
/// follows it.
pub proof fn lemma_odd_path_fails(blocks: Seq<SourceBlock>, path_bytes: Seq<u8>, tail: Seq<u8>)
    requires
        spec_all_encodable(blocks),
        path_bytes.len() <= u32::MAX,
        path_bytes.len() % 2 == 1,
    ensures
        spec_archive(spec_encode_archive(blocks) + (spec_encode_field(path_bytes) + tail)) == Err::<
            Seq<NamedPayloadView>,
            ParseError,
        >(ParseError::OddPathLength),
{
    let last = spec_encode_field(path_bytes) + tail;
    lemma_blocks_then_rest(blocks, last);
    lemma_field_reads_back(path_bytes, tail);
    lemma_prefix_reads_back(path_bytes.len());
    assert(last.len() > 0);
    assert(spec_path_field(last) == Err::<(Seq<u8>, Seq<char>), ParseError>(
        ParseError::OddPathLength,
    ));
}

} // verus!
