use vstd::prelude::*;

verus! {

/// The engine's name as it is reported to the graphics driver.
pub const ENGINE_NAME: &'static str = "Icarus Engine";

/// Version 1.0.0 of the graphics interface, packed.
pub const API_VERSION: u32 = 0x0040_0000;

/// A version number packed into one word: three bits of variant, seven of
/// major, ten of minor and twelve of patch, from the top.
pub open spec fn packed_version(variant: u32, major: u32, minor: u32, patch: u32) -> u32 {
    (variant << 29) | (major << 22) | (minor << 12) | patch
}

/// Packs a version number into one word.
pub fn make_api_version(variant: u32, major: u32, minor: u32, patch: u32) -> (version: u32)
    ensures
        version == packed_version(variant, major, minor, patch),
{
    (variant << 29) | (major << 22) | (minor << 12) | patch
}

/// The packed form of version 1.0.0 is `API_VERSION`.
pub proof fn lemma_api_version()
    ensures
        packed_version(0, 1, 0, 0) == API_VERSION,
{
    assert(((0u32 << 29) | (1u32 << 22) | (0u32 << 12) | 0u32) == 0x0040_0000u32) by (bit_vector);
}

} // verus!
