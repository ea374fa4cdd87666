//! Memory protection unit configuration types: the boot code marks flash
//! read/execute, RAM read/write and peripheral memory read/write, and
//! clears the remaining regions.

use vstd::prelude::*;

verus! {

/// Access permissions for one protected region.
#[derive(Debug, Clone, Copy, PartialEq, Eq, Structural)]
pub struct MpuPerms {
    pub read: bool,
    pub write: bool,
    pub execute: bool,
}

/// Possible sizes for an mpu region.
#[derive(Debug, Clone, Copy, PartialEq, Eq, Structural)]
pub enum MpuRegionSize {
    Bytes32,
    Bytes64,
    Bytes128,
    KibiByte128,
    KibiByte512,
    MibiByte512,
}

impl MpuRegionSize {
    /// The encoding of this size in the region attribute register: the
    /// region covers `2^(bits + 1)` bytes.
    pub open spec fn spec_size_bits(self) -> u32 {
        match self {
            MpuRegionSize::Bytes32 => 0x4,
            MpuRegionSize::Bytes64 => 0x5,
            MpuRegionSize::Bytes128 => 0x6,
            MpuRegionSize::KibiByte128 => 0x10,
            MpuRegionSize::KibiByte512 => 0x12,
            MpuRegionSize::MibiByte512 => 0x1c,
        }
    }

    /// The encoding of this size in the region attribute register.
    pub fn size_bits(&self) -> (r: u32)
        ensures
            r == self.spec_size_bits(),
    {
        match self {
            MpuRegionSize::Bytes32 => 0x4,
            MpuRegionSize::Bytes64 => 0x5,
            MpuRegionSize::Bytes128 => 0x6,
            MpuRegionSize::KibiByte128 => 0x10,
            MpuRegionSize::KibiByte512 => 0x12,
            MpuRegionSize::MibiByte512 => 0x1c,
        }
    }
}

/// Represents caching behavior the cpu will use when accessing a region of memory.
#[derive(Debug, Clone, Copy, PartialEq, Eq, Structural)]
pub enum MemoryCacheType {
    StronglyOrdered,
    DeviceShared,
    WriteBackUnshared,
}

impl MemoryCacheType {
    /// The tex, c, b and s bits this caching behavior sets in the region
    /// attribute register.
    pub open spec fn spec_to_bits(self) -> u32 {
        match self {
            MemoryCacheType::StronglyOrdered => 0b000000,
            MemoryCacheType::DeviceShared => 0b000001,
            MemoryCacheType::WriteBackUnshared => 0b000011,
        }
    }

    /// The tex, c, b and s bits this caching behavior sets in the region
    /// attribute register.
    pub fn to_bits(&self) -> (r: u32)
        ensures
            r == self.spec_to_bits(),
    {
        match self {
            MemoryCacheType::StronglyOrdered => 0b000000,
            MemoryCacheType::DeviceShared => 0b000001,
            MemoryCacheType::WriteBackUnshared => 0b000011,
        }
    }
}

} // verus!
