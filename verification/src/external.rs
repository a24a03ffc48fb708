//! The calls into the Vulkan bindings, the memory allocator and the random
//! number generator, each behind a small contract.

use vstd::prelude::*;

verus! {

/// `vk_mem::VirtualBlock`: the book-keeping of ranges handed out of a buffer.
/// Nothing inside a value of it is visible here.
#[verifier::external_type_specification]
#[verifier::external_body]
pub struct ExVirtualBlock(vk_mem::VirtualBlock);

/// `rand::rngs::ThreadRng`: the generator of the running thread.
#[verifier::external_type_specification]
#[verifier::external_body]
pub struct ExThreadRng(rand::rngs::ThreadRng);

/// `ash::vk::Result`: the status code of a failed Vulkan or allocator call.
#[verifier::external_type_specification]
#[verifier::external_body]
pub struct ExVkResult(ash::vk::Result);

/// The size that a virtual block was made with.
pub uninterp spec fn block_capacity(block: vk_mem::VirtualBlock) -> u64;

/// The ranges that are handed out of a virtual block: offset to size.
pub uninterp spec fn block_ranges(block: vk_mem::VirtualBlock) -> Map<u64, u64>;

/// Calls `vk_mem::VirtualBlock::new` with the given size and no flags. A positive
/// size is never refused; the block has that size and no range handed out of it.
/// A size of zero trips an assertion of the allocator.
#[verifier::external_body]
pub(crate) fn new_virtual_block(size: u64) -> (made: Result<vk_mem::VirtualBlock, ash::vk::Result>)
    requires
        size > 0,
    ensures
        made is Ok,
        block_capacity(made->Ok_0) == size,
        block_ranges(made->Ok_0).dom() == Set::<u64>::empty(),
{
    vk_mem::VirtualBlock::new(vk_mem::VirtualBlockCreateInfo::new().size(size))
}

/// Calls `rand::thread_rng`. Nothing is claimed of the generator.
#[verifier::external_body]
pub(crate) fn thread_generator() -> (rng: rand::rngs::ThreadRng) {
    rand::thread_rng()
}

/// Calls `rand::Rng::gen_range` on the half-open range from zero to `bound`:
/// the drawn number lies in that range. An empty range panics.
#[verifier::external_body]
pub(crate) fn draw_below(rng: &mut rand::rngs::ThreadRng, bound: usize) -> (drawn: usize)
    requires
        bound > 0,
    ensures
        drawn < bound,
{
    rand::Rng::gen_range(rng, 0..bound)
}

/// `ash::vk::make_api_version` packs a version number: the patch in the low
/// twelve bits, then the minor, the major and the variant.
pub assume_specification[ ash::vk::make_api_version ](
    variant: u32,
    major: u32,
    minor: u32,
    patch: u32,
) -> (version: u32)
    ensures
        version == (variant << 29) | (major << 22) | (minor << 12) | patch,
;

/// Calls `contains` of `ash::vk::QueueFlags` on raw bits: whether every bit of
/// `bits` is set in `flags`.
#[verifier::external_body]
pub(crate) fn queue_flags_contain(flags: u32, bits: u32) -> (contained: bool)
    ensures
        contained == (flags & bits == bits),
{
    ash::vk::QueueFlags::from_raw(flags).contains(ash::vk::QueueFlags::from_raw(bits))
}

/// Calls `ash::extensions::khr::Swapchain::name`, the name of the extension
/// that presents images to a surface.
#[verifier::external_body]
pub(crate) fn swapchain_extension_name() -> (name: &'static str)
    ensures
        name@ == "VK_KHR_swapchain"@,
{
    ash::extensions::khr::Swapchain::name().to_str().unwrap()
}

/// Calls `ash::extensions::ext::DebugUtils::name`, the name of the extension
/// that reports validation messages.
#[verifier::external_body]
pub(crate) fn debug_utils_extension_name() -> (name: &'static str)
    ensures
        name@ == "VK_EXT_debug_utils"@,
{
    ash::extensions::ext::DebugUtils::name().to_str().unwrap()
}

} // verus!
