//! Path text: bytes to 16-bit big-endian code units, code units to characters.

use vstd::prelude::*;
use vstd::slice::slice_subrange;
use crate::wire::{be_u16_of, ParseError};

verus! {

/// The code units that an even run of bytes spells, two bytes each, most
/// significant byte first.
pub open spec fn spec_code_units(b: Seq<u8>) -> Seq<u16>
    recommends
        b.len() % 2 == 0,
{
    Seq::new(b.len() / 2, |k: int| be_u16_of(b[2 * k], b[2 * k + 1]) as u16)
}

/// The text that a run of UTF-16 code units decodes to when every unpaired
/// surrogate is replaced by U+FFFD, as `String::from_utf16_lossy` computes it.
pub uninterp spec fn utf16_lossy(units: Seq<u16>) -> Seq<char>;

/// The text of a path field with the raw bytes `b`.
pub open spec fn spec_path_text(b: Seq<u8>) -> Seq<char>
    recommends
        b.len() % 2 == 0,
{
    utf16_lossy(spec_code_units(b))
}

/// `byteorder::BigEndian::read_u16`: the integer that the first two bytes of
/// `buf` spell, most significant first. It panics on a shorter buffer.
#[verifier::external_body]
fn read_u16_be(buf: &[u8]) -> (r: u16)
    requires
        buf@.len() >= 2,
    ensures
        r == be_u16_of(buf@[0], buf@[1]),
{
    <byteorder::BigEndian as byteorder::ByteOrder>::read_u16(buf)
}

/// `String::from_utf16_lossy`: decodes UTF-16 code units, putting U+FFFD in
/// place of each unpaired surrogate. The contract only names the outcome.
#[verifier::external_body]
fn from_utf16_lossy(units: &[u16]) -> (r: String)
    ensures
        r@ == utf16_lossy(units@),
{
    String::from_utf16_lossy(units)
}

/// Splits raw path bytes into 16-bit big-endian code units. An odd byte count
/// is refused, never rounded.
pub fn code_units(data: &[u8]) -> (r: Result<Vec<u16>, ParseError>)
    ensures
        data@.len() % 2 == 0 ==> r is Ok && r->Ok_0@ == spec_code_units(data@),
        data@.len() % 2 != 0 ==> r == Err::<Vec<u16>, ParseError>(ParseError::OddPathLength),
{
    if data.len() % 2 != 0 {
        return Err(ParseError::OddPathLength);
    }
    let count: usize = data.len() / 2;
    let mut units: Vec<u16> = Vec::with_capacity(count);
    let mut k: usize = 0;
    while k < count
        invariant
            k <= count,
            count == data@.len() / 2,
            2 * count == data@.len(),
            data@.len() <= usize::MAX,
            data@.len() % 2 == 0,
            units@.len() == k,
            forall|j: int| 0 <= j < k ==> units@[j] == spec_code_units(data@)[j],
        decreases count - k,
    {
        let pair = slice_subrange(data, 2 * k, 2 * k + 2);
        let unit: u16 = read_u16_be(pair);
        units.push(unit);
        k += 1;
    }
    assert(units@ =~= spec_code_units(data@));
    Ok(units)
}

/// Decodes raw path bytes to text: big-endian UTF-16 with lossy substitution.
pub fn decode_path(data: &[u8]) -> (r: Result<String, ParseError>)
    ensures
        data@.len() % 2 == 0 ==> r is Ok && r->Ok_0@ == spec_path_text(data@),
        data@.len() % 2 != 0 ==> r == Err::<String, ParseError>(ParseError::OddPathLength),
{
    match code_units(data) {
        Err(e) => Err(e),
        Ok(units) => Ok(from_utf16_lossy(units.as_slice())),
    }
}

} // verus!
