//! Laws of scaling lists.

use vstd::prelude::*;

use crate::h264::error::H264Error;
use crate::h264::sps::ScalingListView;
use crate::h264::transform::{
    picture_lists_4x4, picture_lists_8x8, resolved_list_4x4, sequence_lists_4x4, sequence_lists_8x8,
    DEFAULT_SCALING_LIST_4X4_INTER, DEFAULT_SCALING_LIST_4X4_INTRA, DEFAULT_SCALING_LIST_8X8_INTER,
    DEFAULT_SCALING_LIST_8X8_INTRA, FRAME_SCAN_4X4, FRAME_SCAN_8X8,
};

verus! {

/// The weights of the diagonals of default 4x4 lists, for intra prediction.
pub const DIAGONALS_4X4_INTRA: [u8; 7] = [6, 13, 20, 28, 32, 37, 42];

/// The weights of the diagonals of default 4x4 lists, for inter prediction.
pub const DIAGONALS_4X4_INTER: [u8; 7] = [10, 14, 20, 24, 27, 30, 34];

/// The weights of the diagonals of default 8x8 lists, for intra prediction.
pub const DIAGONALS_8X8_INTRA: [u8; 15] = [
    6, 10, 13, 16, 18, 23, 25, 27, 29, 31, 33, 36, 38, 40, 42,
];

/// The weights of the diagonals of default 8x8 lists, for inter prediction.
pub const DIAGONALS_8X8_INTER: [u8; 15] = [
    9, 13, 15, 17, 19, 21, 22, 24, 25, 27, 28, 30, 32, 33, 35,
];

/// Default 4x4 lists weigh a frequency by its diagonal.
pub proof fn law_default_4x4_lists_weigh_by_diagonals(row: int, column: int)
    requires
        0 <= row < 4,
        0 <= column < 4,
    ensures
        DEFAULT_SCALING_LIST_4X4_INTRA[FRAME_SCAN_4X4[row][column] as int]
            == DIAGONALS_4X4_INTRA[row + column],
        DEFAULT_SCALING_LIST_4X4_INTER[FRAME_SCAN_4X4[row][column] as int]
            == DIAGONALS_4X4_INTER[row + column],
{
    assert(FRAME_SCAN_4X4[0][0] == 0);
    assert(FRAME_SCAN_4X4[0][1] == 1);
    assert(FRAME_SCAN_4X4[1][0] == 2);
    assert(FRAME_SCAN_4X4[2][0] == 3);
    assert(FRAME_SCAN_4X4[1][1] == 4);
    assert(FRAME_SCAN_4X4[0][2] == 5);
    assert(FRAME_SCAN_4X4[0][3] == 6);
    assert(FRAME_SCAN_4X4[1][2] == 7);
    assert(FRAME_SCAN_4X4[2][1] == 8);
    assert(FRAME_SCAN_4X4[3][0] == 9);
    assert(FRAME_SCAN_4X4[3][1] == 10);
    assert(FRAME_SCAN_4X4[2][2] == 11);
    assert(FRAME_SCAN_4X4[1][3] == 12);
    assert(FRAME_SCAN_4X4[2][3] == 13);
    assert(FRAME_SCAN_4X4[3][2] == 14);
    assert(FRAME_SCAN_4X4[3][3] == 15);
}

/// Default 8x8 lists weigh a frequency by its diagonal, but for the one next to the
/// constant in both directions, which weighs less.
pub proof fn law_default_8x8_lists_weigh_by_diagonals(row: int, column: int)
    requires
        0 <= row < 8,
        0 <= column < 8,
    ensures
        !(row == 1 && column == 1) ==> DEFAULT_SCALING_LIST_8X8_INTRA[FRAME_SCAN_8X8[row][column] as int]
            == DIAGONALS_8X8_INTRA[row + column],
        !(row == 1 && column == 1) ==> DEFAULT_SCALING_LIST_8X8_INTER[FRAME_SCAN_8X8[row][column] as int]
            == DIAGONALS_8X8_INTER[row + column],
        row == 1 && column == 1 ==> DEFAULT_SCALING_LIST_8X8_INTRA[FRAME_SCAN_8X8[row][column] as int]
            == 11,
        row == 1 && column == 1 ==> DEFAULT_SCALING_LIST_8X8_INTER[FRAME_SCAN_8X8[row][column] as int]
            == 13,
{
    assert(FRAME_SCAN_8X8[0][0] == 0);
    assert(FRAME_SCAN_8X8[0][1] == 1);
    assert(FRAME_SCAN_8X8[1][0] == 2);
    assert(FRAME_SCAN_8X8[2][0] == 3);
    assert(FRAME_SCAN_8X8[1][1] == 4);
    assert(FRAME_SCAN_8X8[0][2] == 5);
    assert(FRAME_SCAN_8X8[0][3] == 6);
    assert(FRAME_SCAN_8X8[1][2] == 7);
    assert(FRAME_SCAN_8X8[2][1] == 8);
    assert(FRAME_SCAN_8X8[3][0] == 9);
    assert(FRAME_SCAN_8X8[4][0] == 10);
    assert(FRAME_SCAN_8X8[3][1] == 11);
    assert(FRAME_SCAN_8X8[2][2] == 12);
    assert(FRAME_SCAN_8X8[1][3] == 13);
    assert(FRAME_SCAN_8X8[0][4] == 14);
    assert(FRAME_SCAN_8X8[0][5] == 15);
    assert(FRAME_SCAN_8X8[1][4] == 16);
    assert(FRAME_SCAN_8X8[2][3] == 17);
    assert(FRAME_SCAN_8X8[3][2] == 18);
    assert(FRAME_SCAN_8X8[4][1] == 19);
    assert(FRAME_SCAN_8X8[5][0] == 20);
    assert(FRAME_SCAN_8X8[6][0] == 21);
    assert(FRAME_SCAN_8X8[5][1] == 22);
    assert(FRAME_SCAN_8X8[4][2] == 23);
    assert(FRAME_SCAN_8X8[3][3] == 24);
    assert(FRAME_SCAN_8X8[2][4] == 25);
    assert(FRAME_SCAN_8X8[1][5] == 26);
    assert(FRAME_SCAN_8X8[0][6] == 27);
    assert(FRAME_SCAN_8X8[0][7] == 28);
    assert(FRAME_SCAN_8X8[1][6] == 29);
    assert(FRAME_SCAN_8X8[2][5] == 30);
    assert(FRAME_SCAN_8X8[3][4] == 31);
    assert(FRAME_SCAN_8X8[4][3] == 32);
    assert(FRAME_SCAN_8X8[5][2] == 33);
    assert(FRAME_SCAN_8X8[6][1] == 34);
    assert(FRAME_SCAN_8X8[7][0] == 35);
    assert(FRAME_SCAN_8X8[7][1] == 36);
    assert(FRAME_SCAN_8X8[6][2] == 37);
    assert(FRAME_SCAN_8X8[5][3] == 38);
    assert(FRAME_SCAN_8X8[4][4] == 39);
    assert(FRAME_SCAN_8X8[3][5] == 40);
    assert(FRAME_SCAN_8X8[2][6] == 41);
    assert(FRAME_SCAN_8X8[1][7] == 42);
    assert(FRAME_SCAN_8X8[2][7] == 43);
    assert(FRAME_SCAN_8X8[3][6] == 44);
    assert(FRAME_SCAN_8X8[4][5] == 45);
    assert(FRAME_SCAN_8X8[5][4] == 46);
    assert(FRAME_SCAN_8X8[6][3] == 47);
    assert(FRAME_SCAN_8X8[7][2] == 48);
    assert(FRAME_SCAN_8X8[7][3] == 49);
    assert(FRAME_SCAN_8X8[6][4] == 50);
    assert(FRAME_SCAN_8X8[5][5] == 51);
    assert(FRAME_SCAN_8X8[4][6] == 52);
    assert(FRAME_SCAN_8X8[3][7] == 53);
    assert(FRAME_SCAN_8X8[4][7] == 54);
    assert(FRAME_SCAN_8X8[5][6] == 55);
    assert(FRAME_SCAN_8X8[6][5] == 56);
    assert(FRAME_SCAN_8X8[7][4] == 57);
    assert(FRAME_SCAN_8X8[7][5] == 58);
    assert(FRAME_SCAN_8X8[6][6] == 59);
    assert(FRAME_SCAN_8X8[5][7] == 60);
    assert(FRAME_SCAN_8X8[6][7] == 61);
    assert(FRAME_SCAN_8X8[7][6] == 62);
    assert(FRAME_SCAN_8X8[7][7] == 63);
}

/// The default list of a 4x4 position: the first three are for intra prediction.
pub open spec fn default_4x4(index: int) -> Seq<u8> {
    if index < 3 {
        DEFAULT_SCALING_LIST_4X4_INTRA@
    } else {
        DEFAULT_SCALING_LIST_4X4_INTER@
    }
}

/// The default list of an 8x8 position.
pub open spec fn default_8x8(index: int) -> Seq<u8> {
    if index == 0 {
        DEFAULT_SCALING_LIST_8X8_INTRA@
    } else {
        DEFAULT_SCALING_LIST_8X8_INTER@
    }
}

/// Without scaling matrices all weights are 16.
pub proof fn law_without_matrices_weights_are_flat()
    ensures
        picture_lists_4x4(None, None) matches Ok(lists) && lists.len() == 6 && forall|list: int, k: int|
            0 <= list < 6 && 0 <= k < 16 ==> #[trigger] lists[list][k] == 16,
        picture_lists_8x8(None, None) matches Ok(lists) && lists.len() == 2 && forall|list: int, k: int|
            0 <= list < 2 && 0 <= k < 64 ==> #[trigger] lists[list][k] == 16,
{
}

/// A picture without scaling matrices of its own uses those of its sequence.
pub proof fn law_pictures_use_the_lists_of_their_sequence(
    sequence: Option<Seq<Option<ScalingListView>>>,
)
    ensures
        picture_lists_4x4(sequence, None) == sequence_lists_4x4(sequence),
        picture_lists_8x8(sequence, None) == sequence_lists_8x8(sequence),
{
}

/// A 4x4 list of a sequence is the one that is there, or the default where that asks for
/// it. One that is missing is the list before it, and the first of each prediction class
/// the default.
pub proof fn law_sequence_lists_fall_back(
    lists: Seq<Option<ScalingListView>>,
    resolved: Seq<Seq<u8>>,
    index: int,
)
    requires
        sequence_lists_4x4(Some(lists)) == Ok::<Seq<Seq<u8>>, H264Error>(resolved),
        0 <= index < 6,
    ensures
        resolved.len() == 6,
        lists[index] matches Some(list) ==> resolved[index] == if list.use_default {
            default_4x4(index)
        } else {
            list.values
        },
        lists[index] is None && (index == 0 || index == 3) ==> resolved[index] == default_4x4(index),
        lists[index] is None && index != 0 && index != 3 ==> resolved[index] == resolved[index - 1],
        resolved[index].len() == 16,
    decreases index,
{
    reveal_with_fuel(resolved_list_4x4, 2);
    if lists[index] is None && index != 0 && index != 3 {
        law_sequence_lists_fall_back(lists, resolved, index - 1);
    }
}

/// A 4x4 list of a picture is the one that is there, or the default where that asks for
/// it. One that is missing is the list before it, and the first of each prediction class
/// that of the sequence, or the default where the sequence has no lists.
pub proof fn law_picture_lists_fall_back(
    sequence: Option<Seq<Option<ScalingListView>>>,
    lists: Seq<Option<ScalingListView>>,
    resolved: Seq<Seq<u8>>,
    index: int,
)
    requires
        picture_lists_4x4(sequence, Some(lists)) == Ok::<Seq<Seq<u8>>, H264Error>(resolved),
        0 <= index < 6,
    ensures
        resolved.len() == 6,
        lists[index] matches Some(list) ==> resolved[index] == if list.use_default {
            default_4x4(index)
        } else {
            list.values
        },
        lists[index] is None && (index == 0 || index == 3) && sequence is None ==> resolved[index]
            == default_4x4(index),
        lists[index] is None && (index == 0 || index == 3) && sequence is Some ==> resolved[index]
            == sequence_lists_4x4(sequence)->Ok_0[index],
        lists[index] is None && index != 0 && index != 3 ==> resolved[index] == resolved[index - 1],
{
    reveal_with_fuel(resolved_list_4x4, 2);
}

/// An 8x8 list is the one that is there, or the default where that asks for it. One that
/// is missing is the default in a sequence, and in a picture that of the sequence, or
/// the default where the sequence has no lists.
pub proof fn law_8x8_lists_fall_back(
    sequence: Option<Seq<Option<ScalingListView>>>,
    lists: Seq<Option<ScalingListView>>,
    index: int,
)
    requires
        0 <= index < 2,
    ensures
        sequence_lists_8x8(Some(lists)) matches Ok(resolved) ==> {
            &&& resolved.len() == 2
            &&& lists[6 + index] is None ==> resolved[index] == default_8x8(index)
            &&& lists[6 + index] matches Some(list) ==> resolved[index] == if list.use_default {
                default_8x8(index)
            } else {
                list.values
            }
        },
        picture_lists_8x8(sequence, Some(lists)) matches Ok(resolved) ==> {
            &&& resolved.len() == 2
            &&& lists[6 + index] is None && sequence is None ==> resolved[index] == default_8x8(
                index,
            )
            &&& lists[6 + index] is None && sequence is Some ==> resolved[index]
                == sequence_lists_8x8(sequence)->Ok_0[index]
            &&& lists[6 + index] matches Some(list) ==> resolved[index] == if list.use_default {
                default_8x8(index)
            } else {
                list.values
            }
        },
{
}

} // verus!
