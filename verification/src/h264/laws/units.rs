//! Laws of the units of a stream and of what their bytes stand for.

use vstd::prelude::*;

use crate::h264::bits::{bit_at, Cursor};
use crate::h264::nal::NalHeader;
use crate::h264::rbsp::{more_data, trailing_bits, unescaped};

verus! {

/// The first byte of a unit holds a zero, two bits that say how much others refer to it
/// and five bits of its type.
pub proof fn law_units_begin_with_their_type(byte: u8, priority: u8, code: u8)
    requires
        priority < 4,
        code < 32,
        byte == 32 * priority + code,
    ensures
        NalHeader::of_byte(byte) matches Ok(header) && {
            &&& header.nal_ref_idc == priority
            &&& header.unit_type.code() == code
            &&& header.unit_type is NonIdrSlice <==> code == 1
            &&& header.unit_type is SliceDataPartitionA <==> code == 2
            &&& header.unit_type is SliceDataPartitionB <==> code == 3
            &&& header.unit_type is SliceDataPartitionC <==> code == 4
            &&& header.unit_type is IdrSlice <==> code == 5
            &&& header.unit_type is Sei <==> code == 6
            &&& header.unit_type is Sps <==> code == 7
            &&& header.unit_type is Pps <==> code == 8
            &&& header.unit_type is AccessUnitDelimiter <==> code == 9
            &&& header.unit_type is EndOfSequence <==> code == 10
            &&& header.unit_type is EndOfStream <==> code == 11
            &&& header.unit_type is FillerData <==> code == 12
            &&& header.unit_type is SpsExtension <==> code == 13
            &&& header.unit_type is Prefix <==> code == 14
            &&& header.unit_type is SubsetSps <==> code == 15
            &&& header.unit_type is AuxiliaryCodedPicture <==> code == 19
            &&& header.unit_type is Extension <==> code == 20
            &&& header.unit_type is DepthExtension <==> code == 21
        },
{
}

/// A unit whose first bit is set is refused.
pub proof fn law_the_first_bit_of_a_unit_is_zero(byte: u8)
    ensures
        byte >= 128 <==> NalHeader::of_byte(byte) is Err,
{
}

/// Bytes that hold two zeros in front of a byte below three are refused.
pub proof fn law_bare_zeros_are_refused(ebsp: Seq<u8>, from: int, place: int)
    requires
        0 <= from <= place,
        place + 2 < ebsp.len(),
        ebsp[place] == 0,
        ebsp[place + 1] == 0,
        ebsp[place + 2] < 3,
    ensures
        unescaped(ebsp, from) is Err,
    decreases ebsp.len() - from,
{
    if from < place {
        if ebsp[from] == 0 && ebsp[from + 1] == 0 && ebsp[from + 2] <= 3 {
            if ebsp[from + 2] == 3 && from + 3 <= place {
                law_bare_zeros_are_refused(ebsp, from + 3, place);
            }
        } else {
            law_bare_zeros_are_refused(ebsp, from + 1, place);
        }
    }
}

/// A payload ends with a one and zeros up to its last byte. There is no more data, and
/// all of it is taken.
pub proof fn law_payloads_end_with_a_one(cursor: Cursor)
    requires
        cursor.error is None,
        0 <= cursor.position < 8 * cursor.data.len(),
        bit_at(cursor.data, cursor.position),
        forall|i: int|
            cursor.position < i < 8 * cursor.data.len() ==> !#[trigger] bit_at(cursor.data, i),
    ensures
        !more_data(cursor),
        trailing_bits(cursor).1 == (Cursor { position: 8 * cursor.data.len() as int, ..cursor }),
{
}

/// What stands before the last one of a payload is data, and not the end.
pub proof fn law_data_stands_before_the_last_one(cursor: Cursor, last: int)
    requires
        cursor.error is None,
        0 <= cursor.position < last < 8 * cursor.data.len(),
        bit_at(cursor.data, last),
    ensures
        more_data(cursor),
        trailing_bits(cursor).1.error is Some,
{
}

/// Without a one there is no end.
pub proof fn law_zeros_are_no_end(cursor: Cursor)
    requires
        cursor.error is None,
        0 <= cursor.position < 8 * cursor.data.len(),
        !bit_at(cursor.data, cursor.position),
    ensures
        more_data(cursor),
        trailing_bits(cursor).1.error is Some,
{
}

} // verus!
