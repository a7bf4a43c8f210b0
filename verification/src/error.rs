//! The ways a paint operation fails.

use vstd::prelude::*;

verus! {

/// Names a drawable of the store.
pub type DrawableId = usize;

/// A failed Vulkan call, as its raw result code.
pub type VkCode = i32;

pub const VK_ERROR_OUT_OF_DEVICE_MEMORY: VkCode = -2;

pub const VK_ERROR_INITIALIZATION_FAILED: VkCode = -3;

pub const VK_ERROR_FEATURE_NOT_PRESENT: VkCode = -8;

/// Why an operation was declined.
#[derive(Clone, Copy, Debug, PartialEq, Eq, Structural)]
pub enum RenderError {
    /// A Vulkan call failed.
    Vk(VkCode),
    /// The drawable is not in the store.
    UnknownDrawable(DrawableId),
    /// The engine has no device.
    NoVk,
    /// An earlier submission failed for good.
    RendererFailed,
    /// The depth or format cannot take part in the operation.
    UnsupportedDepth(u8),
    /// An uploaded image is shorter than its size and depth imply.
    TruncatedSource { expected: usize },
}

} // verus!
