//! The versions of SMPP and the field sizes that they differ in.

use vstd::prelude::*;

verus! {

/// A version of SMPP.
#[derive(Debug, Clone, Copy, PartialEq, Eq, Structural)]
pub enum SmppVersion {
    /// Version 3.4 and before.
    V34,
    /// Version 5.0.
    V50,
}

pub const SMPP_V34_SOURCE_ADDR_SIZE: usize = 21;

pub const SMPP_V34_DEST_ADDR_SIZE: usize = 21;

pub const SMPP_V34_PASSWORD_SIZE: usize = 9;

pub const SMPP_V34_SYSTEM_TYPE_SIZE: usize = 13;

pub const SMPP_V34_SERVICE_TYPE_SIZE: usize = 6;

pub const SMPP_V50_SOURCE_ADDR_SIZE: usize = 65;

pub const SMPP_V50_DEST_ADDR_SIZE: usize = 65;

pub const SMPP_V50_PASSWORD_SIZE: usize = 65;

pub const SMPP_V50_SYSTEM_TYPE_SIZE: usize = 32;

pub const SMPP_V50_SERVICE_TYPE_SIZE: usize = 16;

impl SmppVersion {
    /// The version that an interface version stands for.
    pub open spec fn of_interface(v: u8) -> Option<SmppVersion> {
        if v == 0x32 || v == 0x33 || v == 0x34 {
            Some(SmppVersion::V34)
        } else if v == 0x50 || v == 0x51 {
            Some(SmppVersion::V50)
        } else {
            None
        }
    }

    pub open spec fn source_addr(self) -> usize {
        match self {
            SmppVersion::V34 => SMPP_V34_SOURCE_ADDR_SIZE,
            SmppVersion::V50 => SMPP_V50_SOURCE_ADDR_SIZE,
        }
    }

    pub open spec fn destination_addr(self) -> usize {
        match self {
            SmppVersion::V34 => SMPP_V34_DEST_ADDR_SIZE,
            SmppVersion::V50 => SMPP_V50_DEST_ADDR_SIZE,
        }
    }

    pub open spec fn password(self) -> usize {
        match self {
            SmppVersion::V34 => SMPP_V34_PASSWORD_SIZE,
            SmppVersion::V50 => SMPP_V50_PASSWORD_SIZE,
        }
    }

    pub open spec fn system_type(self) -> usize {
        match self {
            SmppVersion::V34 => SMPP_V34_SYSTEM_TYPE_SIZE,
            SmppVersion::V50 => SMPP_V50_SYSTEM_TYPE_SIZE,
        }
    }

    pub open spec fn service_type(self) -> usize {
        match self {
            SmppVersion::V34 => SMPP_V34_SERVICE_TYPE_SIZE,
            SmppVersion::V50 => SMPP_V50_SERVICE_TYPE_SIZE,
        }
    }

    /// The version that a peer's interface version stands for.
    pub fn from_interface_version(v: u8) -> (version: Option<Self>)
        ensures
            version == Self::of_interface(v),
    {
        match v {
            0x34 | 0x33 | 0x32 => Some(SmppVersion::V34),
            0x50 | 0x51 => Some(SmppVersion::V50),
            _ => None,
        }
    }

    /// The size of a source address, terminator included.
    pub fn source_addr_size(self) -> (size: usize)
        ensures
            size == self.source_addr(),
    {
        match self {
            SmppVersion::V34 => SMPP_V34_SOURCE_ADDR_SIZE,
            SmppVersion::V50 => SMPP_V50_SOURCE_ADDR_SIZE,
        }
    }

    /// The size of a destination address, terminator included.
    pub fn destination_addr_size(self) -> (size: usize)
        ensures
            size == self.destination_addr(),
    {
        match self {
            SmppVersion::V34 => SMPP_V34_DEST_ADDR_SIZE,
            SmppVersion::V50 => SMPP_V50_DEST_ADDR_SIZE,
        }
    }

    /// The size of a password, terminator included.
    pub fn password_size(self) -> (size: usize)
        ensures
            size == self.password(),
    {
        match self {
            SmppVersion::V34 => SMPP_V34_PASSWORD_SIZE,
            SmppVersion::V50 => SMPP_V50_PASSWORD_SIZE,
        }
    }

    /// The size of a system type, terminator included.
    pub fn system_type_size(self) -> (size: usize)
        ensures
            size == self.system_type(),
    {
        match self {
            SmppVersion::V34 => SMPP_V34_SYSTEM_TYPE_SIZE,
            SmppVersion::V50 => SMPP_V50_SYSTEM_TYPE_SIZE,
        }
    }

    /// The size of a service type, terminator included.
    pub fn service_type_size(self) -> (size: usize)
        ensures
            size == self.service_type(),
    {
        match self {
            SmppVersion::V34 => SMPP_V34_SERVICE_TYPE_SIZE,
            SmppVersion::V50 => SMPP_V50_SERVICE_TYPE_SIZE,
        }
    }
}

/// The room for strings in each version, terminators included.
pub proof fn law_sizes()
    ensures
        SmppVersion::V34.source_addr() == 21,
        SmppVersion::V34.destination_addr() == 21,
        SmppVersion::V34.password() == 9,
        SmppVersion::V34.system_type() == 13,
        SmppVersion::V34.service_type() == 6,
        SmppVersion::V50.source_addr() == 65,
        SmppVersion::V50.destination_addr() == 65,
        SmppVersion::V50.password() == 65,
        SmppVersion::V50.system_type() == 32,
        SmppVersion::V50.service_type() == 16,
{
}

/// Which versions the interface versions stand for, in numbers.
pub proof fn law_interfaces(v: u8)
    ensures
        SmppVersion::of_interface(v) == Some(SmppVersion::V34) <==> 50 <= v <= 52,
        SmppVersion::of_interface(v) == Some(SmppVersion::V50) <==> 80 <= v <= 81,
        SmppVersion::of_interface(v) is None <==> v < 50 || 52 < v < 80 || v > 81,
{
}

} // verus!
