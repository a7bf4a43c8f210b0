//! Which kind of device memory an object gets.

use ash::vk;
use vstd::prelude::*;

use crate::error::{RenderError, VK_ERROR_FEATURE_NOT_PRESENT};

verus! {

/// Memory local to the device.
pub const MEMORY_DEVICE_LOCAL: u32 = 0x1;

/// Memory that the host can map, and whose writes both sides see at once.
pub const MEMORY_HOST_VISIBLE_COHERENT: u32 = 0x6;

/// `ash::vk::MemoryPropertyFlags::contains`: whether every flag of `want` is
/// among `flags`. The numbers are taken as the flags' raw bits.
#[verifier::external_body]
fn flags_contain(flags: u32, want: u32) -> (r: bool)
    ensures
        r == (flags & want == want),
{
    vk::MemoryPropertyFlags::from_raw(flags).contains(vk::MemoryPropertyFlags::from_raw(want))
}

/// Whether memory type `i` may hold an object and has the wanted properties.
pub open spec fn suitable(types: Seq<u32>, type_bits: u32, want: u32, i: int) -> bool {
    (type_bits >> (i as u32)) & 1 == 1 && types[i] & want == want
}

/// The first suitable memory type.
pub fn find_memory_type(types: &Vec<u32>, type_bits: u32, want: u32) -> (r: Result<
    u32,
    RenderError,
>)
    requires
        types@.len() <= 32,
    ensures
        match r {
            Ok(n) => {
                &&& n < types@.len()
                &&& suitable(types@, type_bits, want, n as int)
                &&& forall|i: int| 0 <= i < n ==> !suitable(types@, type_bits, want, i)
            },
            Err(e) => {
                &&& e == RenderError::Vk(VK_ERROR_FEATURE_NOT_PRESENT)
                &&& forall|i: int| 0 <= i < types@.len() ==> !suitable(types@, type_bits, want, i)
            },
        },
{
    let mut i: usize = 0;
    while i < types.len()
        invariant
            i <= types.len(),
            types@.len() <= 32,
            forall|j: int| 0 <= j < i ==> !suitable(types@, type_bits, want, j),
        decreases types.len() - i,
    {
        let n: u32 = i as u32;
        if (type_bits >> n) & 1 == 1 && flags_contain(types[i], want) {
            return Ok(n);
        }
        i = i + 1;
    }
    Err(RenderError::Vk(VK_ERROR_FEATURE_NOT_PRESENT))
}

} // verus!
