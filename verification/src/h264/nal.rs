//! NAL-header parsing and NAL-unit classification.

use vstd::prelude::*;

use super::error::{H264Error, Result};

verus! {

/// Semantically meaningful H.264 NAL-unit types.
#[derive(Debug, Clone, Copy, PartialEq, Eq, Structural)]
#[non_exhaustive]
pub enum NalUnitType {
    NonIdrSlice,
    SliceDataPartitionA,
    SliceDataPartitionB,
    SliceDataPartitionC,
    IdrSlice,
    Sei,
    Sps,
    Pps,
    AccessUnitDelimiter,
    EndOfSequence,
    EndOfStream,
    FillerData,
    SpsExtension,
    Prefix,
    SubsetSps,
    AuxiliaryCodedPicture,
    Extension,
    DepthExtension,
    Unknown(u8),
}

impl NalUnitType {
    /// The type with the code `value`.
    pub open spec fn of_value(value: u8) -> NalUnitType {
        match value {
            1 => NalUnitType::NonIdrSlice,
            2 => NalUnitType::SliceDataPartitionA,
            3 => NalUnitType::SliceDataPartitionB,
            4 => NalUnitType::SliceDataPartitionC,
            5 => NalUnitType::IdrSlice,
            6 => NalUnitType::Sei,
            7 => NalUnitType::Sps,
            8 => NalUnitType::Pps,
            9 => NalUnitType::AccessUnitDelimiter,
            10 => NalUnitType::EndOfSequence,
            11 => NalUnitType::EndOfStream,
            12 => NalUnitType::FillerData,
            13 => NalUnitType::SpsExtension,
            14 => NalUnitType::Prefix,
            15 => NalUnitType::SubsetSps,
            19 => NalUnitType::AuxiliaryCodedPicture,
            20 => NalUnitType::Extension,
            21 => NalUnitType::DepthExtension,
            _ => NalUnitType::Unknown(value),
        }
    }

    /// The code of the type.
    pub open spec fn code(self) -> u8 {
        match self {
            NalUnitType::NonIdrSlice => 1,
            NalUnitType::SliceDataPartitionA => 2,
            NalUnitType::SliceDataPartitionB => 3,
            NalUnitType::SliceDataPartitionC => 4,
            NalUnitType::IdrSlice => 5,
            NalUnitType::Sei => 6,
            NalUnitType::Sps => 7,
            NalUnitType::Pps => 8,
            NalUnitType::AccessUnitDelimiter => 9,
            NalUnitType::EndOfSequence => 10,
            NalUnitType::EndOfStream => 11,
            NalUnitType::FillerData => 12,
            NalUnitType::SpsExtension => 13,
            NalUnitType::Prefix => 14,
            NalUnitType::SubsetSps => 15,
            NalUnitType::AuxiliaryCodedPicture => 19,
            NalUnitType::Extension => 20,
            NalUnitType::DepthExtension => 21,
            NalUnitType::Unknown(value) => value,
        }
    }

    #[inline]
    pub fn from_value(value: u8) -> (unit_type: Self)
        ensures
            unit_type == NalUnitType::of_value(value),
    {
        match value {
            1 => NalUnitType::NonIdrSlice,
            2 => NalUnitType::SliceDataPartitionA,
            3 => NalUnitType::SliceDataPartitionB,
            4 => NalUnitType::SliceDataPartitionC,
            5 => NalUnitType::IdrSlice,
            6 => NalUnitType::Sei,
            7 => NalUnitType::Sps,
            8 => NalUnitType::Pps,
            9 => NalUnitType::AccessUnitDelimiter,
            10 => NalUnitType::EndOfSequence,
            11 => NalUnitType::EndOfStream,
            12 => NalUnitType::FillerData,
            13 => NalUnitType::SpsExtension,
            14 => NalUnitType::Prefix,
            15 => NalUnitType::SubsetSps,
            19 => NalUnitType::AuxiliaryCodedPicture,
            20 => NalUnitType::Extension,
            21 => NalUnitType::DepthExtension,
            value => NalUnitType::Unknown(value),
        }
    }

    #[inline]
    pub fn value(self) -> (value: u8)
        ensures
            value == self.code(),
    {
        match self {
            NalUnitType::NonIdrSlice => 1,
            NalUnitType::SliceDataPartitionA => 2,
            NalUnitType::SliceDataPartitionB => 3,
            NalUnitType::SliceDataPartitionC => 4,
            NalUnitType::IdrSlice => 5,
            NalUnitType::Sei => 6,
            NalUnitType::Sps => 7,
            NalUnitType::Pps => 8,
            NalUnitType::AccessUnitDelimiter => 9,
            NalUnitType::EndOfSequence => 10,
            NalUnitType::EndOfStream => 11,
            NalUnitType::FillerData => 12,
            NalUnitType::SpsExtension => 13,
            NalUnitType::Prefix => 14,
            NalUnitType::SubsetSps => 15,
            NalUnitType::AuxiliaryCodedPicture => 19,
            NalUnitType::Extension => 20,
            NalUnitType::DepthExtension => 21,
            NalUnitType::Unknown(value) => value,
        }
    }

    /// Whether the unit carries coded picture data.
    #[inline]
    pub fn is_vcl(self) -> (vcl: bool)
        ensures
            vcl == (self is NonIdrSlice || self is SliceDataPartitionA
                || self is SliceDataPartitionB || self is SliceDataPartitionC || self is IdrSlice
                || self is AuxiliaryCodedPicture || self is Extension || self is DepthExtension),
    {
        match self {
            NalUnitType::NonIdrSlice
            | NalUnitType::SliceDataPartitionA
            | NalUnitType::SliceDataPartitionB
            | NalUnitType::SliceDataPartitionC
            | NalUnitType::IdrSlice
            | NalUnitType::AuxiliaryCodedPicture
            | NalUnitType::Extension
            | NalUnitType::DepthExtension => true,
            _ => false,
        }
    }
}

/// The code of a type read from a byte is that byte.
pub proof fn law_value_of_from_value(value: u8)
    ensures
        NalUnitType::of_value(value).code() == value,
{
}

/// Distinct codes are distinct types.
pub proof fn law_from_value_is_injective(first: u8, second: u8)
    requires
        NalUnitType::of_value(first) == NalUnitType::of_value(second),
    ensures
        first == second,
{
}

/// The one-byte header shared by ordinary H.264 NAL units.
#[derive(Debug, Clone, Copy, PartialEq, Eq, Structural)]
pub struct NalHeader {
    pub nal_ref_idc: u8,
    pub unit_type: NalUnitType,
}

impl NalHeader {
    /// The header in `byte`: a zero bit, two bits of reference importance and
    /// five bits of unit type.
    pub open spec fn of_byte(byte: u8) -> Result<NalHeader> {
        if byte >= 128 {
            Err(H264Error::InvalidNalHeader)
        } else {
            Ok(
                NalHeader {
                    nal_ref_idc: byte / 32,
                    unit_type: NalUnitType::of_value(byte % 32),
                },
            )
        }
    }

    #[inline]
    pub fn parse(byte: u8) -> (result: Result<Self>)
        ensures
            result == NalHeader::of_byte(byte),
    {
        assert(byte & 0x80 != 0 <==> byte >= 128) by (bit_vector);
        if byte & 0x80 != 0 {
            return Err(H264Error::InvalidNalHeader);
        }
        assert(byte < 128 ==> (byte >> 5) & 0b11 == byte / 32 && byte & 0x1f == byte % 32)
            by (bit_vector);
        Ok(
            NalHeader {
                nal_ref_idc: (byte >> 5) & 0b11,
                unit_type: NalUnitType::from_value(byte & 0x1f),
            },
        )
    }
}

/// The bytes of one NAL unit and where they begin in their stream.
#[derive(Debug, Clone, Copy, PartialEq, Eq)]
pub struct AnnexBNalUnit<'a> {
    bytes: &'a [u8],
    stream_offset: usize,
}

impl<'a> AnnexBNalUnit<'a> {
    /// The bytes of the unit.
    pub closed spec fn unit_bytes(self) -> Seq<u8> {
        self.bytes@
    }

    /// Where the unit begins.
    pub closed spec fn offset(self) -> usize {
        self.stream_offset
    }

    pub fn new(bytes: &'a [u8], stream_offset: usize) -> (unit: Self)
        ensures
            unit.unit_bytes() == bytes@,
            unit.offset() == stream_offset,
    {
        AnnexBNalUnit { bytes, stream_offset }
    }

    pub fn bytes(&self) -> (bytes: &'a [u8])
        ensures
            bytes@ == self.unit_bytes(),
    {
        self.bytes
    }

    pub fn stream_offset(&self) -> (offset: usize)
        ensures
            offset == self.offset(),
    {
        self.stream_offset
    }
}

/// A parsed NAL header and its borrowed EBSP payload.
#[derive(Debug, Clone, Copy, PartialEq, Eq)]
pub struct NalUnit<'a> {
    pub header: NalHeader,
    pub ebsp: &'a [u8],
    pub stream_offset: usize,
}

impl<'a> vstd::std_specs::convert::TryFromSpecImpl<AnnexBNalUnit<'a>> for NalUnit<'a> {
    open spec fn obeys_try_from_spec() -> bool {
        false
    }

    open spec fn try_from_spec(unit: AnnexBNalUnit<'a>) -> std::result::Result<Self, H264Error> {
        Err(H264Error::InvalidNalHeader)
    }
}

impl<'a> TryFrom<AnnexBNalUnit<'a>> for NalUnit<'a> {
    type Error = H264Error;

    fn try_from(unit: AnnexBNalUnit<'a>) -> (result: std::result::Result<Self, H264Error>)
        ensures
            unit.unit_bytes().len() == 0 ==> result == Err::<NalUnit<'a>, H264Error>(
                H264Error::InvalidNalHeader,
            ),
            unit.unit_bytes().len() > 0 ==> match NalHeader::of_byte(unit.unit_bytes()[0]) {
                Ok(header) => {
                    &&& result matches Ok(nal)
                    &&& nal.header == header
                    &&& nal.ebsp@ == unit.unit_bytes().skip(1)
                    &&& nal.stream_offset == unit.offset()
                },
                Err(error) => result == Err::<NalUnit<'a>, H264Error>(error),
            },
    {
        let bytes = unit.bytes();
        if bytes.len() == 0 {
            return Err(H264Error::InvalidNalHeader);
        }
        let header = NalHeader::parse(bytes[0])?;
        Ok(NalUnit { header, ebsp: &bytes[1..bytes.len()], stream_offset: unit.stream_offset() })
    }
}

} // verus!
