//! Big-endian primitives and the length-prefixed field they frame.

use vstd::prelude::*;
use vstd::slice::slice_subrange;

verus! {

/// Why an archive could not be decoded.
#[derive(Debug, Clone, Copy, PartialEq, Eq, Structural)]
pub enum ParseError {
    /// A length prefix is cut short, or declares more bytes than remain.
    Truncated,
    /// A path field holds an odd number of bytes, so it is no run of 16-bit units.
    OddPathLength,
}

/// The unsigned integer that four bytes spell, most significant byte first.
pub open spec fn be_u32_of(b0: u8, b1: u8, b2: u8, b3: u8) -> nat {
    (b0 as nat) * 0x100_0000 + (b1 as nat) * 0x1_0000 + (b2 as nat) * 0x100 + (b3 as nat)
}

/// The unsigned integer that two bytes spell, most significant byte first.
pub open spec fn be_u16_of(b0: u8, b1: u8) -> nat {
    (b0 as nat) * 0x100 + (b1 as nat)
}

/// The length prefix at the head of `s`.
pub open spec fn spec_length_prefix(s: Seq<u8>) -> nat
    recommends
        s.len() >= 4,
{
    be_u32_of(s[0], s[1], s[2], s[3])
}

/// Whether `s` starts with a whole field: a prefix and all the bytes it declares.
pub open spec fn spec_field_fits(s: Seq<u8>) -> bool {
    s.len() >= 4 && spec_length_prefix(s) <= s.len() - 4
}

/// The bytes of the field at the head of `s`.
pub open spec fn spec_field_data(s: Seq<u8>) -> Seq<u8>
    recommends
        spec_field_fits(s),
{
    s.subrange(4, 4 + spec_length_prefix(s) as int)
}

/// What follows the field at the head of `s`.
pub open spec fn spec_field_rest(s: Seq<u8>) -> Seq<u8>
    recommends
        spec_field_fits(s),
{
    s.skip(4 + spec_length_prefix(s) as int)
}

/// `nom::error::ErrorKind`: which parser of nom reported an error. Opaque
/// here; nothing is claimed of it.
#[verifier::external_type_specification]
#[verifier::external_body]
pub struct ExErrorKind(nom::error::ErrorKind);

/// `nom::Err`: the error half of what a parser of nom returns. Opaque here;
/// nothing is claimed of it, and it is turned into `ParseError` at once.
#[verifier::external_type_specification]
#[verifier::external_body]
#[verifier::reject_recursive_types(E)]
pub struct ExErr<E>(nom::Err<E>);

/// `nom::number::complete::be_u32`: on fewer than four bytes it reports an
/// error; otherwise it hands back the input past its first four bytes and the
/// integer those four bytes spell, most significant first.
#[verifier::external_body]
fn be_u32<'a>(i: &'a [u8]) -> (r: Result<(&'a [u8], u32), nom::Err<(&'a [u8], nom::error::ErrorKind)>>)
    ensures
        i@.len() < 4 ==> r is Err,
        i@.len() >= 4 ==> r is Ok && r->Ok_0.0@ == i@.skip(4) && r->Ok_0.1 == spec_length_prefix(i@),
{
    nom::number::complete::be_u32(i)
}

/// Reads one length-prefixed field: a 4-byte big-endian length, then that many
/// bytes. Returns what follows the field and the field's bytes.
pub fn fetch_payload<'a>(i: &'a [u8]) -> (r: Result<(&'a [u8], &'a [u8]), ParseError>)
    ensures
        spec_field_fits(i@) ==> r is Ok && r->Ok_0.0@ == spec_field_rest(i@) && r->Ok_0.1@
            == spec_field_data(i@),
        !spec_field_fits(i@) ==> r == Err::<(&[u8], &[u8]), ParseError>(ParseError::Truncated),
{
    match be_u32(i) {
        Err(_) => Err(ParseError::Truncated),
        Ok((rest, n)) => {
            let length: usize = n as usize;
            if rest.len() < length {
                Err(ParseError::Truncated)
            } else {
                let data = slice_subrange(rest, 0, length);
                let after = slice_subrange(rest, length, rest.len());
                assert(data@ =~= spec_field_data(i@));
                assert(after@ =~= spec_field_rest(i@));
                Ok((after, data))
            }
        },
    }
}

} // verus!
