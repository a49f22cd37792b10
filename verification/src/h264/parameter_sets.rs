//! Bounded storage and stable resolution of SPS/PPS versions.

use std::sync::Arc;

use vstd::prelude::*;

use super::bits::{BitReader, Cursor};
use super::error::{H264Error, Result};
use super::pps::{
    parameter_set_ids_syntax, parse_parameter_set_ids, picture_syntax, PictureParameterSet,
    PictureView, SliceGroupMapView,
};
use super::sps::{sequence_syntax, PicOrderCountView, SequenceParameterSet, SequenceView};
use crate::shared::share;

verus! {

/// The bounds that every parsed SPS keeps.
pub open spec fn valid_sequence(sps: SequenceView) -> bool {
    &&& sps.id <= 31
    &&& 4 <= sps.log2_max_frame_num <= 16
    &&& sps.pic_order_count matches PicOrderCountView::Type0 { log2_max_pic_order_cnt_lsb } ==> 4
        <= log2_max_pic_order_cnt_lsb <= 16
    &&& sps.pic_order_count matches PicOrderCountView::Type1 { offset_for_ref_frame, .. }
        ==> offset_for_ref_frame.len() <= 255
}

/// The bounds that every PPS keeps that was parsed against `sps`.
pub open spec fn valid_picture(pps: PictureView, sps: SequenceView) -> bool {
    &&& pps.id <= 255
    &&& 0 <= pps.pic_init_qp <= 51
    &&& 0 <= pps.pic_init_qs <= 51
    &&& 1 <= pps.num_ref_idx_l0_default_active <= 32
    &&& 1 <= pps.num_ref_idx_l1_default_active <= 32
    &&& pps.slice_group_map matches Some(SliceGroupMapView::Changing { change_rate, .. }) ==> 1
        <= change_rate <= sps.pic_width_in_mbs * sps.pic_height_in_map_units <= u32::MAX
}

/// Offsets are read until there are as many as announced.
proof fn lemma_offsets_length(cursor: Cursor, count: nat, offsets: Seq<i32>)
    requires
        offsets.len() <= count,
    ensures
        super::sps::offsets_syntax(cursor, count, offsets).0.len() <= count,
    decreases count - offsets.len(),
{
    if !(cursor.error is Some || offsets.len() >= count) {
        let (offset, next) = cursor.se();
        lemma_offsets_length(next, count, offsets.push(offset));
    }
}

/// A cycle of picture order offsets has at most 255 of them.
proof fn lemma_order_count_cycle(cursor: Cursor)
    requires
        super::sps::pic_order_count_syntax(cursor).1.error is None,
    ensures
        super::sps::pic_order_count_syntax(cursor).0 matches PicOrderCountView::Type1 {
            offset_for_ref_frame,
            ..
        } ==> offset_for_ref_frame.len() <= 255,
{
    let (count, next) = cursor.ue().1.flag().1.se().1.se().1.ue();
    let next = next.require(
        count <= 255,
        H264Error::InvalidSyntax("num_ref_frames_in_pic_order_cnt_cycle exceeds 255"),
    );
    lemma_offsets_length(next, count as nat, Seq::empty());
}

/// A parsed SPS keeps its bounds.
pub proof fn law_parsed_sequence_is_valid(data: Seq<u8>)
    requires
        sequence_syntax(data).1.error is None,
    ensures
        valid_sequence(sequence_syntax(data).0),
{
    let start = Cursor { data, position: 0, error: None };
    let (header, after_header) = super::sps::sequence_header_syntax(start);
    let after_format = super::sps::format_syntax(after_header, header.profile).1;
    let (log2_minus4, next) = after_format.ue();
    lemma_order_count_cycle(
        next.require(
            log2_minus4 <= 12,
            H264Error::InvalidSyntax("log2_max_frame_num_minus4 exceeds 12"),
        ),
    );
}

/// A parsed PPS keeps its bounds.
pub proof fn law_parsed_picture_is_valid(data: Seq<u8>, sps: SequenceView)
    requires
        picture_syntax(data, sps).1.error is None,
    ensures
        valid_picture(picture_syntax(data, sps).0, sps),
        picture_syntax(data, sps).0.sequence_parameter_set_id == sps.id,
{
}

/// A PPS and the SPS that it was parsed against.
#[derive(Debug, Clone)]
pub struct ActiveParameterSets {
    pub sequence: Arc<SequenceParameterSet>,
    pub picture: Arc<PictureParameterSet>,
}

impl ActiveParameterSets {
    /// Both sets keep their bounds.
    pub open spec fn valid(self) -> bool {
        valid_sequence(self.sequence@) && valid_picture(self.picture@, self.sequence@)
    }
}

#[derive(Debug)]
pub struct ParameterSetStore {
    sequence: Vec<Option<Arc<SequenceParameterSet>>>,
    picture: Vec<Option<ActiveParameterSets>>,
}

impl ParameterSetStore {
    /// The SPS stored under `id`.
    pub closed spec fn stored_sequence(self, id: u32) -> Option<Arc<SequenceParameterSet>> {
        if id < 32 {
            self.sequence@[id as int]
        } else {
            None
        }
    }

    /// The PPS stored under `id`, with its SPS.
    pub closed spec fn resolved(self, id: u32) -> Option<ActiveParameterSets> {
        if id < 256 {
            self.picture@[id as int]
        } else {
            None
        }
    }

    /// There is room for every identifier, and what is stored is valid.
    pub closed spec fn well_formed(self) -> bool {
        &&& self.sequence@.len() == 32
        &&& self.picture@.len() == 256
        &&& forall|i: int|
            0 <= i < 32 ==> ((#[trigger] self.sequence@[i]) matches Some(sps)
                ==> valid_sequence(sps@) && sps@.id == i)
        &&& forall|i: int|
            0 <= i < 256 ==> ((#[trigger] self.picture@[i]) matches Some(sets) ==> sets.valid())
    }

    /// What is resolved is valid.
    pub proof fn lemma_resolved_valid(self, id: u32)
        requires
            self.well_formed(),
        ensures
            self.resolved(id) matches Some(sets) ==> sets.valid(),
            self.stored_sequence(id) matches Some(sps) ==> valid_sequence(sps@) && sps@.id == id,
    {
    }

    pub fn new() -> (store: Self)
        ensures
            store.well_formed(),
            forall|id: u32| store.stored_sequence(id) is None,
            forall|id: u32| store.resolved(id) is None,
    {
        let mut sequence: Vec<Option<Arc<SequenceParameterSet>>> = Vec::with_capacity(32);
        while sequence.len() < 32
            invariant
                sequence@.len() <= 32,
                forall|i: int| 0 <= i < sequence@.len() ==> sequence@[i] is None,
            decreases 32 - sequence@.len(),
        {
            sequence.push(None);
        }
        let mut picture: Vec<Option<ActiveParameterSets>> = Vec::with_capacity(256);
        while picture.len() < 256
            invariant
                picture@.len() <= 256,
                forall|i: int| 0 <= i < picture@.len() ==> picture@[i] is None,
            decreases 256 - picture@.len(),
        {
            picture.push(None);
        }
        ParameterSetStore { sequence, picture }
    }

    /// Parses and replaces the SPS at its bounded identifier.
    pub fn parse_sps(&mut self, rbsp: &[u8]) -> (result: Result<Arc<SequenceParameterSet>>)
        requires
            old(self).well_formed(),
        ensures
            final(self).well_formed(),
            sequence_stored(*old(self), *final(self), rbsp@, result),
    {
        let sps = Arc::new(SequenceParameterSet::parse(rbsp)?);
        proof {
            law_parsed_sequence_is_valid(rbsp@);
        }
        self.sequence[sps.id as usize] = Some(share(&sps));
        Ok(sps)
    }

    /// Parses and replaces the PPS at its bounded identifier.
    ///
    /// Each stored PPS retains the exact SPS version against which it was
    /// validated. Reusing an SPS identifier therefore cannot silently mutate
    /// the configuration of an already active picture.
    pub fn parse_pps(&mut self, rbsp: &[u8]) -> (result: Result<Arc<PictureParameterSet>>)
        requires
            old(self).well_formed(),
        ensures
            final(self).well_formed(),
            picture_stored(*old(self), *final(self), rbsp@, result),
    {
        let (pps_id, sps_id): (u32, u32) = read_parameter_set_ids(rbsp)?;
        let sequence = self.sequence(sps_id)?;
        let picture = Arc::new(PictureParameterSet::parse(rbsp, &sequence)?);
        proof {
            law_parsed_picture_is_valid(rbsp@, sequence@);
            self.lemma_resolved_valid(sps_id);
        }
        assert(picture.id == pps_id);
        let sets = ActiveParameterSets { sequence, picture: share(&picture) };
        self.picture[pps_id as usize] = Some(sets);
        Ok(picture)
    }

    pub fn sequence(&self, id: u32) -> (result: Result<Arc<SequenceParameterSet>>)
        requires
            self.well_formed(),
        ensures
            result == match self.stored_sequence(id) {
                Some(sps) => Ok::<Arc<SequenceParameterSet>, H264Error>(sps),
                None => Err(H264Error::MissingSps(id)),
            },
    {
        if id >= 32 {
            return Err(H264Error::MissingSps(id));
        }
        match &self.sequence[id as usize] {
            Some(sps) => Ok(share(sps)),
            None => Err(H264Error::MissingSps(id)),
        }
    }

    pub fn resolve(&self, picture_id: u32) -> (result: Result<ActiveParameterSets>)
        requires
            self.well_formed(),
        ensures
            result == match self.resolved(picture_id) {
                Some(sets) => Ok::<ActiveParameterSets, H264Error>(sets),
                None => Err(H264Error::MissingPps(picture_id)),
            },
    {
        if picture_id >= 256 {
            return Err(H264Error::MissingPps(picture_id));
        }
        match &self.picture[picture_id as usize] {
            Some(sets) => Ok(
                ActiveParameterSets {
                    sequence: share(&sets.sequence),
                    picture: share(&sets.picture),
                },
            ),
            None => Err(H264Error::MissingPps(picture_id)),
        }
    }

    pub fn clear(&mut self)
        ensures
            final(self).well_formed(),
            forall|id: u32| final(self).stored_sequence(id) is None,
            forall|id: u32| final(self).resolved(id) is None,
    {
        *self = ParameterSetStore::new();
    }
}

/// A sequence parameter set takes the place of the one with its identifier, if it
/// can be parsed, and nothing else changes.
pub open spec fn sequence_stored(
    before: ParameterSetStore,
    after: ParameterSetStore,
    rbsp: Seq<u8>,
    result: Result<Arc<SequenceParameterSet>>,
) -> bool {
    &&& match result {
        Ok(sps) => {
            &&& sequence_syntax(rbsp).1.error is None
            &&& sps@ == sequence_syntax(rbsp).0
            &&& forall|id: u32| #[trigger]
                after.stored_sequence(id) == if id == sps.id {
                    Some(sps)
                } else {
                    before.stored_sequence(id)
                }
        },
        Err(error) => sequence_syntax(rbsp).1.error == Some(error) && forall|id: u32| #[trigger]
            after.stored_sequence(id) == before.stored_sequence(id),
    }
    &&& forall|id: u32| #[trigger] after.resolved(id) == before.resolved(id)
}

/// The identifiers of a picture parameter set and of the sequence parameter set
/// that it refers to.
pub open spec fn set_ids(rbsp: Seq<u8>) -> ((u32, u32), Cursor) {
    parameter_set_ids_syntax(Cursor { data: rbsp, position: 0, error: None })
}

/// A picture parameter set takes the place of the one with its identifier,
/// together with the sequence parameter set that is stored at that time, if it can
/// be parsed against it, and nothing else changes.
pub open spec fn picture_stored(
    before: ParameterSetStore,
    after: ParameterSetStore,
    rbsp: Seq<u8>,
    result: Result<Arc<PictureParameterSet>>,
) -> bool {
    let (ids, cursor) = set_ids(rbsp);
    &&& forall|id: u32| #[trigger] after.stored_sequence(id) == before.stored_sequence(id)
    &&& match result {
        Ok(pps) => {
            &&& cursor.error is None
            &&& pps.id == ids.0
            &&& before.stored_sequence(ids.1) matches Some(sps)
            &&& picture_syntax(rbsp, sps@).1.error is None
            &&& pps@ == picture_syntax(rbsp, sps@).0
            &&& forall|id: u32| #[trigger]
                after.resolved(id) == if id == pps.id {
                    Some(ActiveParameterSets { sequence: sps, picture: pps })
                } else {
                    before.resolved(id)
                }
        },
        Err(error) => {
            &&& forall|id: u32| #[trigger] after.resolved(id) == before.resolved(id)
            &&& if cursor.error is Some {
                cursor.error == Some(error)
            } else {
                match before.stored_sequence(ids.1) {
                    Some(sps) => picture_syntax(rbsp, sps@).1.error == Some(error),
                    None => error == H264Error::MissingSps(ids.1),
                }
            }
        },
    }
}

/// A call that parses a parameter set.
pub enum StoreCall {
    ParseSps { rbsp: Seq<u8>, sps: Result<Arc<SequenceParameterSet>> },
    ParsePps { rbsp: Seq<u8>, pps: Result<Arc<PictureParameterSet>> },
}

impl StoreCall {
    /// The call leads from one store to another.
    pub open spec fn leads(self, before: ParameterSetStore, after: ParameterSetStore) -> bool {
        match self {
            StoreCall::ParseSps { rbsp, sps } => sequence_stored(before, after, rbsp, sps),
            StoreCall::ParsePps { rbsp, pps } => picture_stored(before, after, rbsp, pps),
        }
    }

    /// The call replaces the picture parameter set with an identifier.
    pub open spec fn replaces(self, id: u32) -> bool {
        self matches StoreCall::ParsePps { pps: Ok(pps), .. } && pps.id == id
    }
}

/// What an identifier resolves to stays the same over any calls that do not
/// replace its picture parameter set. In particular what was never stored, or was
/// cleared, stays missing.
pub proof fn law_resolved_sets_are_kept(
    stores: Seq<ParameterSetStore>,
    calls: Seq<StoreCall>,
    id: u32,
)
    requires
        stores.len() == calls.len() + 1,
        forall|i: int|
            0 <= i < calls.len() ==> (#[trigger] calls[i]).leads(stores[i], stores[i + 1])
                && !calls[i].replaces(id),
    ensures
        stores.last().resolved(id) == stores[0].resolved(id),
    decreases calls.len(),
{
    if calls.len() > 0 {
        let last = calls.len() - 1;
        assert(calls[last].leads(stores[last], stores[last + 1]));
        assert forall|i: int| 0 <= i < calls.drop_last().len() implies (
        #[trigger] calls.drop_last()[i]).leads(stores.drop_last()[i], stores.drop_last()[i + 1])
            && !calls.drop_last()[i].replaces(id) by {
            assert(calls[i].leads(stores[i], stores[i + 1]));
        }
        law_resolved_sets_are_kept(stores.drop_last(), calls.drop_last(), id);
    }
}

/// A picture parameter set keeps the very sequence parameter set against which it
/// was parsed, though others with the same identifier are stored later, until it is
/// replaced itself.
pub proof fn law_a_picture_set_keeps_its_sequence_set(
    before: ParameterSetStore,
    rbsp: Seq<u8>,
    pps: Arc<PictureParameterSet>,
    stores: Seq<ParameterSetStore>,
    calls: Seq<StoreCall>,
)
    requires
        stores.len() == calls.len() + 1,
        picture_stored(before, stores[0], rbsp, Ok(pps)),
        forall|i: int|
            0 <= i < calls.len() ==> (#[trigger] calls[i]).leads(stores[i], stores[i + 1])
                && !calls[i].replaces(pps.id),
    ensures
        before.stored_sequence(set_ids(rbsp).0.1) matches Some(sps) && stores.last().resolved(
            pps.id,
        ) == Some(ActiveParameterSets { sequence: sps, picture: pps }),
{
    law_resolved_sets_are_kept(stores, calls, pps.id);
}

impl Default for ParameterSetStore {
    fn default() -> (store: Self)
        ensures
            store.well_formed(),
            forall|id: u32| store.stored_sequence(id) is None,
            forall|id: u32| store.resolved(id) is None,
    {
        ParameterSetStore::new()
    }
}

fn read_parameter_set_ids(rbsp: &[u8]) -> (result: Result<(u32, u32)>)
    ensures
        ({
            let (ids, cursor) = parameter_set_ids_syntax(
                Cursor { data: rbsp@, position: 0, error: None },
            );
            match result {
                Ok(read) => cursor.error is None && read == ids && ids.0 <= 255 && ids.1 <= 31,
                Err(error) => cursor.error == Some(error),
            }
        }),
{
    let mut reader = BitReader::new(rbsp);
    parse_parameter_set_ids(&mut reader)
}

} // verus!
