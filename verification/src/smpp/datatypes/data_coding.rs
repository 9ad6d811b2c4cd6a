//! The data codings of SMPP.

use vstd::prelude::*;

verus! {

/// The alphabet of a short message.
#[derive(Debug, Clone, Copy, PartialEq, Eq, Hash, Structural)]
pub enum DataCoding {
    SMSCDefault,
    IA5,
    Binary,
    ISO88591,
    ISO88595,
    ISO885910,
    ISO885915,
    ISO10646,
    JIS,
    Cyrillic,
    Hebrew,
    UCS2,
    Pictogram,
    ISO2022JP,
    Reserved,
    Extended,
}

impl DataCoding {
    /// The number on the wire.
    pub open spec fn code(self) -> u8 {
        match self {
            DataCoding::SMSCDefault => 0x00,
            DataCoding::IA5 => 0x01,
            DataCoding::Binary => 0x02,
            DataCoding::ISO88591 => 0x03,
            DataCoding::ISO88595 => 0x04,
            DataCoding::ISO885910 => 0x05,
            DataCoding::ISO885915 => 0x06,
            DataCoding::ISO10646 => 0x07,
            DataCoding::JIS => 0x08,
            DataCoding::Cyrillic => 0x09,
            DataCoding::Hebrew => 0x0a,
            DataCoding::UCS2 => 0x10,
            DataCoding::Pictogram => 0x11,
            DataCoding::ISO2022JP => 0x12,
            DataCoding::Reserved => 0x13,
            DataCoding::Extended => 0x14,
        }
    }

    /// What a number on the wire means.
    pub open spec fn of_code(code: u8) -> Option<DataCoding> {
        match code {
            0x00 => Some(DataCoding::SMSCDefault),
            0x01 => Some(DataCoding::IA5),
            0x02 => Some(DataCoding::Binary),
            0x03 => Some(DataCoding::ISO88591),
            0x04 => Some(DataCoding::ISO88595),
            0x05 => Some(DataCoding::ISO885910),
            0x06 => Some(DataCoding::ISO885915),
            0x07 => Some(DataCoding::ISO10646),
            0x08 => Some(DataCoding::JIS),
            0x09 => Some(DataCoding::Cyrillic),
            0x0a => Some(DataCoding::Hebrew),
            0x10 => Some(DataCoding::UCS2),
            0x11 => Some(DataCoding::Pictogram),
            0x12 => Some(DataCoding::ISO2022JP),
            0x13 => Some(DataCoding::Reserved),
            0x14 => Some(DataCoding::Extended),
            _ => None,
        }
    }

    /// The number on the wire.
    pub fn as_u8(&self) -> (code: u8)
        ensures
            code == self.code(),
    {
        match self {
            DataCoding::SMSCDefault => 0x00,
            DataCoding::IA5 => 0x01,
            DataCoding::Binary => 0x02,
            DataCoding::ISO88591 => 0x03,
            DataCoding::ISO88595 => 0x04,
            DataCoding::ISO885910 => 0x05,
            DataCoding::ISO885915 => 0x06,
            DataCoding::ISO10646 => 0x07,
            DataCoding::JIS => 0x08,
            DataCoding::Cyrillic => 0x09,
            DataCoding::Hebrew => 0x0a,
            DataCoding::UCS2 => 0x10,
            DataCoding::Pictogram => 0x11,
            DataCoding::ISO2022JP => 0x12,
            DataCoding::Reserved => 0x13,
            DataCoding::Extended => 0x14,
        }
    }

    /// What a number on the wire means, if it means anything.
    pub fn from_u8(code: u8) -> (value: Option<DataCoding>)
        ensures
            value == Self::of_code(code),
    {
        match code {
            0x00 => Some(DataCoding::SMSCDefault),
            0x01 => Some(DataCoding::IA5),
            0x02 => Some(DataCoding::Binary),
            0x03 => Some(DataCoding::ISO88591),
            0x04 => Some(DataCoding::ISO88595),
            0x05 => Some(DataCoding::ISO885910),
            0x06 => Some(DataCoding::ISO885915),
            0x07 => Some(DataCoding::ISO10646),
            0x08 => Some(DataCoding::JIS),
            0x09 => Some(DataCoding::Cyrillic),
            0x0a => Some(DataCoding::Hebrew),
            0x10 => Some(DataCoding::UCS2),
            0x11 => Some(DataCoding::Pictogram),
            0x12 => Some(DataCoding::ISO2022JP),
            0x13 => Some(DataCoding::Reserved),
            0x14 => Some(DataCoding::Extended),
            _ => None,
        }
    }

    /// An alphabet of seven bits.
    pub fn is_7bit(&self) -> (yes: bool)
        ensures
            yes == (*self == DataCoding::SMSCDefault || *self == DataCoding::IA5),
    {
        matches!(self, DataCoding::SMSCDefault | DataCoding::IA5)
    }

    /// An alphabet of eight bits.
    pub fn is_8bit(&self) -> (yes: bool)
        ensures
            yes == (*self == DataCoding::Binary || *self == DataCoding::ISO88591),
    {
        matches!(self, DataCoding::Binary | DataCoding::ISO88591)
    }

    /// An alphabet of two bytes.
    pub fn is_ucs2(&self) -> (yes: bool)
        ensures
            yes == (*self == DataCoding::UCS2 || *self == DataCoding::ISO10646),
    {
        matches!(self, DataCoding::UCS2 | DataCoding::ISO10646)
    }
}

/// Numbers and their meanings go one to one.
pub proof fn law_data_coding_codes(value: DataCoding, code: u8)
    ensures
        DataCoding::of_code(value.code()) == Some(value),
        DataCoding::of_code(code) matches Some(other) ==> other.code() == code,
{
}

/// The data codings in numbers.
pub proof fn law_data_coding_numbers()
    ensures
        DataCoding::SMSCDefault.code() == 0,
        DataCoding::IA5.code() == 1,
        DataCoding::Binary.code() == 2,
        DataCoding::ISO88591.code() == 3,
        DataCoding::ISO88595.code() == 4,
        DataCoding::ISO885910.code() == 5,
        DataCoding::ISO885915.code() == 6,
        DataCoding::ISO10646.code() == 7,
        DataCoding::JIS.code() == 8,
        DataCoding::Cyrillic.code() == 9,
        DataCoding::Hebrew.code() == 10,
        DataCoding::UCS2.code() == 16,
        DataCoding::Pictogram.code() == 17,
        DataCoding::ISO2022JP.code() == 18,
        DataCoding::Reserved.code() == 19,
        DataCoding::Extended.code() == 20,
{
}

/// Which codings have seven bits, eight bits and two bytes, by their numbers.
pub proof fn law_widths(coding: DataCoding, seven: bool, eight: bool, two: bool)
    requires
        call_ensures(DataCoding::is_7bit, (&coding,), seven),
        call_ensures(DataCoding::is_8bit, (&coding,), eight),
        call_ensures(DataCoding::is_ucs2, (&coding,), two),
    ensures
        seven <==> coding.code() <= 1,
        eight <==> coding.code() == 2 || coding.code() == 3,
        two <==> coding.code() == 7 || coding.code() == 16,
{
}

} // verus!
