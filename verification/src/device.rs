//! Which physical device is rendered on, which of its queue families are used,
//! and what the instance and the logical device are created with.

use vstd::prelude::*;

use crate::external::{
    debug_utils_extension_name, queue_flags_contain, swapchain_extension_name,
};
use crate::vulkan::{FLOAT_ONE, QUEUE_GRAPHICS, QUEUE_TRANSFER, VK_TRUE};

verus! {

/// Why the renderer could not be set up.
#[derive(Clone, Copy, Debug, PartialEq, Eq, Structural)]
pub enum SetupError {
    /// No physical device meets the requirements.
    NoSuitableDevice,
    /// None of the depth formats asked for is supported.
    NoDepthFormat,
    /// The allocator of the vertex buffer could not be made.
    NoVertexBlock,
    /// The allocator of the index buffer could not be made.
    NoIndexBlock,
}

/// A queue family as the device reports it.
#[derive(Clone, Copy, Debug)]
pub struct QueueFamily {
    pub queue_count: u32,
    /// The raw bits of `VkQueueFlags`.
    pub queue_flags: u32,
}

/// The queue families that the renderer works with.
#[derive(Clone, Copy, Debug, PartialEq, Eq, Structural)]
pub struct QueueFamiliesIndices {
    pub graphics_index: u32,
    pub present_index: u32,
    pub transfer_index: u32,
}

/// What a physical device reports about itself and about the surface.
#[derive(Debug)]
pub struct DeviceInfo {
    pub queue_families: Vec<QueueFamily>,
    /// Whether the queue family of that index presents to the surface.
    pub present_support: Vec<bool>,
    /// The names of the extensions that the device offers.
    pub extensions: Vec<String>,
    /// How many surface formats the device offers.
    pub surface_formats: usize,
    /// How many present modes the device offers.
    pub present_modes: usize,
    /// `samplerAnisotropy` of the device features.
    pub sampler_anisotropy: u32,
}

/// Whether all of `bits` are set in `flags`.
pub open spec fn contains_bits(flags: u32, bits: u32) -> bool {
    flags & bits == bits
}

/// The position of the first `true`.
pub open spec fn first_true(answers: Seq<bool>) -> Option<int>
    decreases answers.len(),
{
    if answers.len() == 0 {
        None
    } else if first_true(answers.drop_last()) is Some {
        first_true(answers.drop_last())
    } else if answers.last() {
        Some(answers.len() - 1)
    } else {
        None
    }
}

/// A position as an index of a queue family.
pub open spec fn family_index(position: Option<int>) -> Option<u32> {
    match position {
        Some(p) => Some(p as u32),
        None => None,
    }
}

/// `found` is the first position of a `true`, and is missing where there is
/// none.
pub open spec fn is_first(found: Option<u32>, answers: Seq<bool>) -> bool {
    match found {
        Some(i) => i < answers.len() && answers[i as int] && forall|j: int|
            0 <= j < i ==> !answers[j],
        None => forall|j: int| 0 <= j < answers.len() ==> !answers[j],
    }
}

/// Whether a family has a queue and all of the capabilities `bits`.
pub open spec fn has_queue_with(family: QueueFamily, bits: u32) -> bool {
    family.queue_count > 0 && contains_bits(family.queue_flags, bits)
}

/// For each family, whether it has a graphics queue.
pub open spec fn graphics_answers(families: Seq<QueueFamily>) -> Seq<bool> {
    families.map_values(|f: QueueFamily| has_queue_with(f, QUEUE_GRAPHICS))
}

/// For each family, whether it has a queue that presents.
pub open spec fn present_answers(families: Seq<QueueFamily>, present_support: Seq<bool>) -> Seq<
    bool,
> {
    Seq::new(families.len(), |i: int| families[i].queue_count > 0 && present_support[i])
}

/// The graphics, the present and the transfer family: the first family with a
/// graphics queue, the first with a queue that presents, and family 1 where it
/// has a transfer queue.
pub open spec fn chosen_families(families: Seq<QueueFamily>, present_support: Seq<bool>) -> (
    Option<u32>,
    Option<u32>,
    Option<u32>,
) {
    (
        family_index(first_true(graphics_answers(families))),
        family_index(first_true(present_answers(families, present_support))),
        if families.len() > 1 && has_queue_with(families[1], QUEUE_TRANSFER) {
            Some(1u32)
        } else {
            None
        },
    )
}

/// The extensions that a device must offer.
pub open spec fn required_extensions() -> Seq<Seq<char>> {
    seq!["VK_KHR_swapchain"@]
}

/// Whether `name` is among `offered`.
pub open spec fn offers(offered: Seq<String>, name: Seq<char>) -> bool {
    exists|i: int| 0 <= i < offered.len() && (#[trigger] offered[i])@ == name
}

/// Whether every required extension is among `offered`.
pub open spec fn offers_required(offered: Seq<String>) -> bool {
    forall|k: int|
        0 <= k < required_extensions().len() ==> offers(
            offered,
            #[trigger] required_extensions()[k],
        )
}

impl DeviceInfo {
    /// Every family was asked whether it presents.
    pub open spec fn wf(&self) -> bool {
        &&& self.queue_families@.len() <= u32::MAX
        &&& self.queue_families@.len() <= self.present_support@.len()
    }

    /// The queue families of this device.
    pub open spec fn chosen(&self) -> (Option<u32>, Option<u32>, Option<u32>) {
        chosen_families(self.queue_families@, self.present_support@)
    }

    /// Whether the renderer can run on this device.
    pub open spec fn suitable(&self) -> bool {
        &&& self.chosen().0 is Some
        &&& self.chosen().1 is Some
        &&& offers_required(self.extensions@)
        &&& self.surface_formats > 0
        &&& self.present_modes > 0
        &&& self.sampler_anisotropy == VK_TRUE
    }
}

/// The transfer family where there is one, else the graphics family.
pub open spec fn transfer_or_graphics(transfer: Option<u32>, graphics_index: u32) -> u32 {
    match transfer {
        Some(transfer_index) => transfer_index,
        None => graphics_index,
    }
}

/// The device to use, by its position, with its queue families. Where it has no
/// transfer family, transfers go to the graphics family.
pub open spec fn picked_device(devices: Seq<DeviceInfo>) -> Result<
    (usize, QueueFamiliesIndices),
    SetupError,
> {
    match first_true(devices.map_values(|d: DeviceInfo| d.suitable())) {
        None => Err(SetupError::NoSuitableDevice),
        Some(k) => {
            let chosen = devices[k].chosen();
            Ok(
                (
                    k as usize,
                    QueueFamiliesIndices {
                        graphics_index: chosen.0->Some_0,
                        present_index: chosen.1->Some_0,
                        transfer_index: transfer_or_graphics(chosen.2, chosen.0->Some_0),
                    },
                ),
            )
        },
    }
}

/// `first_true` points at a `true` with no `true` before it, and is missing
/// only where there is none.
pub proof fn lemma_first_true(answers: Seq<bool>)
    ensures
        match first_true(answers) {
            Some(k) => 0 <= k < answers.len() && answers[k] && forall|j: int|
                0 <= j < k ==> !answers[j],
            None => forall|j: int| 0 <= j < answers.len() ==> !answers[j],
        },
    decreases answers.len(),
{
    if answers.len() > 0 {
        let front = answers.drop_last();
        lemma_first_true(front);
        assert forall|j: int| 0 <= j < front.len() implies front[j] == answers[j] by {}
        if first_true(front) is None {
            assert forall|j: int| 0 <= j < front.len() implies !answers[j] by {
                assert(!front[j]);
            }
        } else {
            let k = first_true(front)->Some_0;
            assert forall|j: int| 0 <= j < k implies !answers[j] by {
                assert(!front[j]);
            }
        }
    }
}

/// Appending an answer to those before it.
proof fn lemma_first_true_push(answers: Seq<bool>, answer: bool)
    ensures
        first_true(answers.push(answer)) == (if first_true(answers) is Some {
            first_true(answers)
        } else if answer {
            Some(answers.len() as int)
        } else {
            None
        }),
{
    assert(answers.push(answer).drop_last() =~= answers);
}

/// Finds a family with a graphics queue, one with a queue that presents to the
/// surface, and the transfer family. Indices are those of the device's families.
pub fn find_queue_families(families: &Vec<QueueFamily>, present_support: &Vec<bool>) -> (found: (
    Option<u32>,
    Option<u32>,
    Option<u32>,
))
    requires
        families@.len() <= u32::MAX,
        families@.len() <= present_support@.len(),
    ensures
        found == chosen_families(families@, present_support@),
        is_first(found.0, graphics_answers(families@)),
        is_first(found.1, present_answers(families@, present_support@)),
{
    let mut graphics: Option<u32> = None;
    let mut present: Option<u32> = None;
    let mut transfer: Option<u32> = None;
    let mut i: usize = 0;
    let ghost graphics_all = graphics_answers(families@);
    let ghost present_all = present_answers(families@, present_support@);
    proof {
        assert(graphics_all.take(0) =~= Seq::<bool>::empty());
        assert(present_all.take(0) =~= Seq::<bool>::empty());
    }
    while i < families.len()
        invariant
            i <= families@.len() <= u32::MAX,
            families@.len() <= present_support@.len(),
            graphics_all == graphics_answers(families@),
            present_all == present_answers(families@, present_support@),
            graphics == family_index(first_true(graphics_all.take(i as int))),
            present == family_index(first_true(present_all.take(i as int))),
            transfer == (if i > 1 && has_queue_with(families@[1], QUEUE_TRANSFER) {
                Some(1u32)
            } else {
                None
            }),
        decreases families@.len() - i,
    {
        let family = families[i];
        let index = i as u32;
        proof {
            assert(graphics_all.take(i + 1) =~= graphics_all.take(i as int).push(
                graphics_all[i as int],
            ));
            lemma_first_true_push(graphics_all.take(i as int), graphics_all[i as int]);
            assert(present_all.take(i + 1) =~= present_all.take(i as int).push(
                present_all[i as int],
            ));
            lemma_first_true_push(present_all.take(i as int), present_all[i as int]);
        }
        if family.queue_count > 0 {
            if queue_flags_contain(family.queue_flags, QUEUE_GRAPHICS) {
                if graphics.is_none() {
                    graphics = Some(index);
                }
            }
            if present_support[i] {
                if present.is_none() {
                    present = Some(index);
                }
            }
            if queue_flags_contain(family.queue_flags, QUEUE_TRANSFER) {
                if index == 1 {
                    transfer = Some(index);
                }
            }
        }
        i = i + 1;
    }
    proof {
        assert(graphics_all.take(families@.len() as int) =~= graphics_all);
        assert(present_all.take(families@.len() as int) =~= present_all);
        lemma_first_true(graphics_all);
        lemma_first_true(present_all);
    }
    (graphics, present, transfer)
}

/// The extensions that the logical device is created with.
pub fn get_required_device_extensions() -> (names: Vec<&'static str>)
    ensures
        names@.len() == required_extensions().len(),
        forall|k: int|
            0 <= k < names@.len() ==> (#[trigger] names@[k])@ == required_extensions()[k],
{
    let mut result: Vec<&'static str> = Vec::new();
    result.push(swapchain_extension_name());
    result
}

/// Whether the device offers every required extension.
pub fn check_device_extension_support(offered: &Vec<String>) -> (supported: bool)
    ensures
        supported == offers_required(offered@),
{
    let required = get_required_device_extensions();
    let mut k: usize = 0;
    while k < required.len()
        invariant
            k <= required@.len(),
            required@.len() == required_extensions().len(),
            forall|j: int|
                0 <= j < required@.len() ==> (#[trigger] required@[j])@
                    == required_extensions()[j],
            forall|j: int|
                0 <= j < k ==> offers(offered@, #[trigger] required_extensions()[j]),
        decreases required@.len() - k,
    {
        let name = required[k].to_owned();
        let mut found = false;
        let mut i: usize = 0;
        while i < offered.len() && !found
            invariant
                i <= offered@.len(),
                found ==> offers(offered@, name@),
                !found ==> forall|j: int| 0 <= j < i ==> (#[trigger] offered@[j])@ != name@,
            decreases offered@.len() - i,
        {
            if offered[i] == name {
                found = true;
            }
            i = i + 1;
        }
        if !found {
            assert(!offers(offered@, required_extensions()[k as int]));
            return false;
        }
        k = k + 1;
    }
    true
}

/// Whether the renderer can run on a device: it has a graphics and a present
/// family, the required extensions, a surface format, a present mode and
/// anisotropic sampling.
pub fn is_device_suitable(device: &DeviceInfo) -> (suitable: bool)
    requires
        device.wf(),
    ensures
        suitable == device.suitable(),
{
    let found = find_queue_families(&device.queue_families, &device.present_support);
    let extension_support = check_device_extension_support(&device.extensions);
    let is_swapchain_adequate = device.surface_formats > 0 && device.present_modes > 0;
    found.0.is_some() && found.1.is_some() && extension_support && is_swapchain_adequate
        && device.sampler_anisotropy == VK_TRUE
}

/// Picks the first suitable physical device. Where it has no transfer family,
/// transfers go to the graphics family.
pub fn pick_physical_device(devices: &Vec<DeviceInfo>) -> (picked: Result<
    (usize, QueueFamiliesIndices),
    SetupError,
>)
    requires
        forall|i: int| 0 <= i < devices@.len() ==> (#[trigger] devices@[i]).wf(),
    ensures
        picked == picked_device(devices@),
{
    let ghost answers = devices@.map_values(|d: DeviceInfo| d.suitable());
    let mut i: usize = 0;
    while i < devices.len()
        invariant
            i <= devices@.len(),
            forall|j: int| 0 <= j < devices@.len() ==> (#[trigger] devices@[j]).wf(),
            answers == devices@.map_values(|d: DeviceInfo| d.suitable()),
            forall|j: int| 0 <= j < i ==> !answers[j],
        decreases devices@.len() - i,
    {
        if is_device_suitable(&devices[i]) {
            proof {
                lemma_first_true(answers);
                assert(answers[i as int]);
                let k = first_true(answers)->Some_0;
                assert(first_true(answers) is Some);
                assert(k == i) by {
                    if k < i {
                        assert(answers[k]);
                    }
                }
            }
            let found = find_queue_families(
                &devices[i].queue_families,
                &devices[i].present_support,
            );
            let graphics_index = found.0.unwrap();
            let present_index = found.1.unwrap();
            let transfer_index = match found.2 {
                Some(transfer_index) => transfer_index,
                None => graphics_index,
            };
            return Ok((i, QueueFamiliesIndices { graphics_index, present_index, transfer_index }));
        }
        i = i + 1;
    }
    proof {
        lemma_first_true(answers);
    }
    Err(SetupError::NoSuitableDevice)
}

/// The different items of a sequence, each where it occurs first.
pub open spec fn first_occurrences(items: Seq<u32>) -> Seq<u32>
    decreases items.len(),
{
    if items.len() == 0 {
        items
    } else {
        let before = first_occurrences(items.drop_last());
        if before.contains(items.last()) {
            before
        } else {
            before.push(items.last())
        }
    }
}

/// `first_occurrences` lists the same items, each once.
proof fn lemma_first_occurrences(items: Seq<u32>)
    ensures
        first_occurrences(items).no_duplicates(),
        forall|x: u32| first_occurrences(items).contains(x) <==> items.contains(x),
    decreases items.len(),
{
    if items.len() > 0 {
        let front = items.drop_last();
        let last = items.last();
        let before = first_occurrences(front);
        let kept = first_occurrences(items);
        lemma_first_occurrences(front);
        assert(forall|x: u32| front.contains(x) ==> #[trigger] before.contains(x));
        assert forall|x: u32| kept.contains(x) <==> items.contains(x) by {
            if kept.contains(x) {
                let k = choose|k: int| 0 <= k < kept.len() && kept[k] == x;
                if k < before.len() {
                    assert(before[k] == x);
                    assert(front.contains(x));
                    let j = choose|j: int| 0 <= j < front.len() && front[j] == x;
                    assert(items[j] == x);
                } else {
                    assert(items[items.len() - 1] == x);
                }
            }
            if items.contains(x) {
                let j = choose|j: int| 0 <= j < items.len() && items[j] == x;
                if j < front.len() {
                    assert(front[j] == x);
                    assert(front.contains(x));
                    assert(before.contains(x));
                    let k = choose|k: int| 0 <= k < before.len() && before[k] == x;
                    assert(kept[k] == x);
                } else if !before.contains(last) {
                    assert(kept[before.len() as int] == x);
                }
            }
        }
        if !before.contains(last) {
            assert forall|i: int, j: int|
                0 <= i < kept.len() && 0 <= j < kept.len() && i != j implies kept[i]
                != kept[j] by {
                if i < before.len() {
                    assert(before.contains(before[i]));
                }
                if j < before.len() {
                    assert(before.contains(before[j]));
                }
            }
        }
    }
}

/// Drops every item that occurred before.
pub fn distinct(items: &Vec<u32>) -> (kept: Vec<u32>)
    ensures
        kept@ == first_occurrences(items@),
        kept@.no_duplicates(),
        forall|x: u32| kept@.contains(x) <==> items@.contains(x),
{
    let mut kept: Vec<u32> = Vec::new();
    let mut i: usize = 0;
    assert(items@.take(0) =~= Seq::<u32>::empty());
    assert(items@.take(items@.len() as int) =~= items@);
    while i < items.len()
        invariant
            i <= items@.len(),
            kept@ == first_occurrences(items@.take(i as int)),
        decreases items@.len() - i,
    {
        let mut found = false;
        let mut k: usize = 0;
        while k < kept.len()
            invariant
                k <= kept@.len(),
                i < items@.len(),
                found <==> exists|j: int| 0 <= j < k && kept@[j] == items@[i as int],
            decreases kept@.len() - k,
        {
            if kept[k] == items[i] {
                found = true;
            }
            k = k + 1;
        }
        proof {
            let next = items@.take(i + 1);
            assert(next.drop_last() =~= items@.take(i as int));
            assert(found == kept@.contains(items@[i as int]));
        }
        if !found {
            kept.push(items[i]);
        }
        i = i + 1;
    }
    proof {
        lemma_first_occurrences(items@);
    }
    kept
}

/// What the Vulkan instance is created with.
#[derive(Debug)]
pub struct InstanceDesc {
    pub application_name: &'static str,
    pub application_version: u32,
    pub engine_name: &'static str,
    pub engine_version: u32,
    pub api_version: u32,
    pub extension_names: Vec<String>,
    /// Whether the layers are checked for support and enabled.
    pub validation: bool,
}

/// The instance extensions: those of the surface, then that of the debug
/// messages where validation is on.
pub open spec fn instance_extensions(
    surface_extensions: Seq<Seq<char>>,
    validation: bool,
) -> Seq<Seq<char>> {
    if validation {
        surface_extensions.push("VK_EXT_debug_utils"@)
    } else {
        surface_extensions
    }
}

/// A version number in the layout of the Vulkan interface.
pub open spec fn api_version(variant: u32, major: u32, minor: u32, patch: u32) -> u32 {
    (variant << 29) | (major << 22) | (minor << 12) | patch
}

/// Describes the Vulkan instance for a surface that needs `surface_extensions`.
pub fn instance_desc(surface_extensions: Vec<String>, validation: bool) -> (desc: InstanceDesc)
    ensures
        desc.application_name@ == "Vulkan Application"@,
        desc.application_version == api_version(0, 0, 1, 0),
        desc.engine_name@ == "No Engine"@,
        desc.engine_version == api_version(0, 0, 1, 0),
        desc.api_version == api_version(0, 1, 2, 148),
        desc.extension_names@.map_values(|name: String| name@) == instance_extensions(
            surface_extensions@.map_values(|name: String| name@),
            validation,
        ),
        desc.validation == validation,
{
    let mut extension_names = surface_extensions;
    if validation {
        extension_names.push(debug_utils_extension_name().to_owned());
    }
    assert(extension_names@.map_values(|name: String| name@) =~= instance_extensions(
        surface_extensions@.map_values(|name: String| name@),
        validation,
    ));
    InstanceDesc {
        application_name: "Vulkan Application",
        application_version: ash::vk::make_api_version(0, 0, 1, 0),
        engine_name: "No Engine",
        engine_version: ash::vk::make_api_version(0, 0, 1, 0),
        api_version: ash::vk::make_api_version(0, 1, 2, 148),
        extension_names,
        validation,
    }
}

/// A queue of the logical device.
#[derive(Clone, Copy, Debug, PartialEq, Eq, Structural)]
pub struct DeviceQueue {
    pub family_index: u32,
    pub queue_index: u32,
}

/// What the logical device is created with, and which of its queues are fetched.
/// One queue is asked for in each listed family.
#[derive(Debug)]
pub struct LogicalDeviceDesc {
    pub queue_families: Vec<u32>,
    /// The bits of the priority of each queue.
    pub queue_priority: u32,
    pub extension_names: Vec<&'static str>,
    pub sampler_anisotropy: bool,
    pub descriptor_binding_partially_bound: bool,
    pub runtime_descriptor_array: bool,
    pub descriptor_binding_variable_descriptor_count: bool,
    /// Whether the layers are enabled.
    pub validation: bool,
    pub graphics_queue: DeviceQueue,
    pub present_queue: DeviceQueue,
    pub transfer_queue: DeviceQueue,
}

/// The queue families of the indices in the order graphics, present, transfer.
pub open spec fn family_list(indices: QueueFamiliesIndices) -> Seq<u32> {
    seq![indices.graphics_index, indices.present_index, indices.transfer_index]
}

/// Describes the logical device with the queues of `indices`.
pub fn logical_device_desc(indices: QueueFamiliesIndices, validation: bool) -> (desc:
    LogicalDeviceDesc)
    ensures
        desc.queue_families@ == first_occurrences(family_list(indices)),
        desc.queue_families@.no_duplicates(),
        forall|f: u32| desc.queue_families@.contains(f) <==> family_list(indices).contains(f),
        desc.queue_priority == FLOAT_ONE,
        desc.extension_names@.len() == required_extensions().len(),
        forall|k: int|
            0 <= k < desc.extension_names@.len() ==> (#[trigger] desc.extension_names@[k])@
                == required_extensions()[k],
        desc.sampler_anisotropy,
        desc.descriptor_binding_partially_bound,
        desc.runtime_descriptor_array,
        desc.descriptor_binding_variable_descriptor_count,
        desc.validation == validation,
        desc.graphics_queue == (DeviceQueue { family_index: indices.graphics_index, queue_index: 0 }),
        desc.present_queue == (DeviceQueue { family_index: indices.present_index, queue_index: 0 }),
        desc.transfer_queue == (DeviceQueue { family_index: indices.transfer_index, queue_index: 0 }),
{
    let mut families: Vec<u32> = Vec::new();
    families.push(indices.graphics_index);
    families.push(indices.present_index);
    families.push(indices.transfer_index);
    assert(families@ =~= family_list(indices));
    LogicalDeviceDesc {
        queue_families: distinct(&families),
        queue_priority: FLOAT_ONE,
        extension_names: get_required_device_extensions(),
        sampler_anisotropy: true,
        descriptor_binding_partially_bound: true,
        runtime_descriptor_array: true,
        descriptor_binding_variable_descriptor_count: true,
        validation,
        graphics_queue: DeviceQueue { family_index: indices.graphics_index, queue_index: 0 },
        present_queue: DeviceQueue { family_index: indices.present_index, queue_index: 0 },
        transfer_queue: DeviceQueue { family_index: indices.transfer_index, queue_index: 0 },
    }
}

/// Law: a device is picked exactly where one is suitable; the picked device is
/// suitable, and no device before it is.
pub proof fn law_first_suitable_device_is_picked(devices: Seq<DeviceInfo>)
    requires
        devices.len() <= usize::MAX,
    ensures
        match picked_device(devices) {
            Ok((k, _)) => {
                &&& k < devices.len()
                &&& devices[k as int].suitable()
                &&& forall|j: int| 0 <= j < k ==> !(#[trigger] devices[j]).suitable()
            },
            Err(error) => {
                &&& error == SetupError::NoSuitableDevice
                &&& forall|j: int| 0 <= j < devices.len() ==> !(#[trigger] devices[j]).suitable()
            },
        },
{
    let answers = devices.map_values(|d: DeviceInfo| d.suitable());
    lemma_first_true(answers);
    assert forall|j: int| 0 <= j < devices.len() implies answers[j] == (
    #[trigger] devices[j]).suitable() by {}
}

/// Law: the queue families of the picked device are families of that device
/// with a queue that does what it is picked for, transfers falling back on the
/// graphics family, and the device offers the swapchain extension.
pub proof fn law_picked_device_meets_the_requirements(devices: Seq<DeviceInfo>)
    requires
        devices.len() <= usize::MAX,
        forall|i: int| 0 <= i < devices.len() ==> (#[trigger] devices[i]).wf(),
    ensures
        match picked_device(devices) {
            Ok((k, indices)) => {
                let device = devices[k as int];
                let families = device.queue_families@;
                let transfer = indices.transfer_index;
                &&& indices.graphics_index < families.len()
                &&& has_queue_with(families[indices.graphics_index as int], QUEUE_GRAPHICS)
                &&& indices.present_index < families.len()
                &&& families[indices.present_index as int].queue_count > 0
                &&& device.present_support@[indices.present_index as int]
                &&& transfer < families.len()
                &&& has_queue_with(families[transfer as int], QUEUE_TRANSFER) || transfer
                    == indices.graphics_index
                &&& offers(device.extensions@, "VK_KHR_swapchain"@)
            },
            Err(_) => true,
        },
{
    lemma_first_true(devices.map_values(|d: DeviceInfo| d.suitable()));
    match picked_device(devices) {
        Ok((k, indices)) => {
            let device = devices[k as int];
            assert(device.wf() && device.suitable());
            let graphics = graphics_answers(device.queue_families@);
            lemma_first_true(graphics);
            assert(graphics[indices.graphics_index as int]);
            let present = present_answers(device.queue_families@, device.present_support@);
            lemma_first_true(present);
            assert(present[indices.present_index as int]);
            assert(offers(device.extensions@, required_extensions()[0]));
        },
        Err(_) => {},
    }
}

/// Law: the logical device gets a queue in each family that is used, and no
/// family is listed twice.
pub proof fn law_every_family_is_listed_once(indices: QueueFamiliesIndices)
    ensures
        first_occurrences(family_list(indices)).no_duplicates(),
        first_occurrences(family_list(indices)).contains(indices.graphics_index),
        first_occurrences(family_list(indices)).contains(indices.present_index),
        first_occurrences(family_list(indices)).contains(indices.transfer_index),
{
    let all = family_list(indices);
    lemma_first_occurrences(all);
    assert(all[0] == indices.graphics_index && all.contains(indices.graphics_index));
    assert(all[1] == indices.present_index && all.contains(indices.present_index));
    assert(all[2] == indices.transfer_index && all.contains(indices.transfer_index));
}

/// Law: the graphics family is the first with a graphics queue and the present
/// family the first with a queue that presents, each missing only where there is
/// none; the transfer family is family 1 exactly where that has a transfer queue.
pub proof fn law_families_are_the_first_that_serve(
    families: Vec<QueueFamily>,
    present_support: Vec<bool>,
    found: (Option<u32>, Option<u32>, Option<u32>),
)
    requires
        call_ensures(find_queue_families, (&families, &present_support), found),
        families@.len() <= u32::MAX,
        families@.len() <= present_support@.len(),
    ensures
        found == chosen_families(families@, present_support@),
        found.0 matches Some(g) ==> {
            &&& g < families@.len()
            &&& families@[g as int].queue_count > 0
            &&& families@[g as int].queue_flags & 1 == 1
        },
        forall|j: int|
            0 <= j < families@.len() && (#[trigger] families@[j]).queue_count > 0
                && families@[j].queue_flags & 1 == 1 ==> found.0 is Some && found.0->Some_0 <= j,
        found.1 matches Some(p) ==> {
            &&& p < families@.len()
            &&& families@[p as int].queue_count > 0
            &&& present_support@[p as int]
        },
        forall|j: int|
            0 <= j < families@.len() && (#[trigger] families@[j]).queue_count > 0
                && present_support@[j] ==> found.1 is Some && found.1->Some_0 <= j,
        found.2 is Some ==> found.2->Some_0 == 1,
        found.2 is Some <==> {
            &&& families@.len() > 1
            &&& families@[1].queue_count > 0
            &&& families@[1].queue_flags & 4 == 4
        },
{
    let graphics = graphics_answers(families@);
    let present = present_answers(families@, present_support@);
    lemma_first_true(graphics);
    lemma_first_true(present);
    assert forall|j: int|
        0 <= j < families@.len() && (#[trigger] families@[j]).queue_count > 0
            && families@[j].queue_flags & 1 == 1 implies found.0 is Some && found.0->Some_0
        <= j by {
        assert(graphics[j]);
    }
    assert forall|j: int|
        0 <= j < families@.len() && (#[trigger] families@[j]).queue_count > 0
            && present_support@[j] implies found.1 is Some && found.1->Some_0 <= j by {
        assert(present[j]);
    }
}

/// Law: a device is suitable exactly where it has a graphics queue, a queue that
/// presents, the swapchain extension, a surface format, a present mode and
/// anisotropic sampling.
pub proof fn law_suitable_devices_have_all_that_is_needed(device: DeviceInfo, suitable: bool)
    requires
        call_ensures(is_device_suitable, (&device,), suitable),
        device.wf(),
    ensures
        suitable == device.suitable(),
        suitable <==> {
            &&& exists|j: int|
                0 <= j < device.queue_families@.len() && (
                #[trigger] device.queue_families@[j]).queue_count > 0
                    && device.queue_families@[j].queue_flags & 1 == 1
            &&& exists|j: int|
                0 <= j < device.queue_families@.len() && (
                #[trigger] device.queue_families@[j]).queue_count > 0 && device.present_support@[j]
            &&& exists|i: int|
                0 <= i < device.extensions@.len() && (#[trigger] device.extensions@[i])@
                    == "VK_KHR_swapchain"@
            &&& device.surface_formats >= 1
            &&& device.present_modes >= 1
            &&& device.sampler_anisotropy == 1
        },
{
    let families = device.queue_families@;
    let graphics = graphics_answers(families);
    let present = present_answers(families, device.present_support@);
    lemma_first_true(graphics);
    lemma_first_true(present);
    assert(required_extensions()[0] == "VK_KHR_swapchain"@);
    assert(offers_required(device.extensions@) <==> offers(
        device.extensions@,
        "VK_KHR_swapchain"@,
    ));
    if device.suitable() {
        let g = device.chosen().0->Some_0 as int;
        let p = device.chosen().1->Some_0 as int;
        assert(graphics[g] && families[g].queue_count > 0);
        assert(present[p] && families[p].queue_count > 0);
    }
    if exists|j: int|
        0 <= j < families.len() && (#[trigger] families[j]).queue_count > 0
            && families[j].queue_flags & 1 == 1 {
        let j = choose|j: int|
            0 <= j < families.len() && (#[trigger] families[j]).queue_count > 0
                && families[j].queue_flags & 1 == 1;
        assert(graphics[j]);
    }
    if exists|j: int|
        0 <= j < families.len() && (#[trigger] families[j]).queue_count > 0
            && device.present_support@[j] {
        let j = choose|j: int|
            0 <= j < families.len() && (#[trigger] families[j]).queue_count > 0
                && device.present_support@[j];
        assert(present[j]);
    }
}

/// Law: a picked device is used with its own families, and transfers go to family 1
/// where it has a transfer queue and to the graphics family otherwise.
pub proof fn law_picked_device_uses_its_own_families(
    devices: Vec<DeviceInfo>,
    picked: Result<(usize, QueueFamiliesIndices), SetupError>,
)
    requires
        call_ensures(pick_physical_device, (&devices,), picked),
        forall|i: int| 0 <= i < devices@.len() ==> (#[trigger] devices@[i]).wf(),
    ensures
        picked == picked_device(devices@),
        picked matches Ok((k, indices)) ==> {
            let families = devices@[k as int].queue_families@;
            let transfers = families.len() > 1 && families[1].queue_count > 0
                && families[1].queue_flags & 4 == 4;
            &&& k < devices@.len()
            &&& Some(indices.graphics_index) == devices@[k as int].chosen().0
            &&& Some(indices.present_index) == devices@[k as int].chosen().1
            &&& transfers ==> indices.transfer_index == 1
            &&& !transfers ==> indices.transfer_index == indices.graphics_index
        },
{
    let answers = devices@.map_values(|d: DeviceInfo| d.suitable());
    lemma_first_true(answers);
    assert(devices@.len() == devices.len());
    if picked is Ok {
        let k = first_true(answers)->Some_0;
        assert(answers[k] && devices@[k].suitable());
        assert(picked->Ok_0.0 == k);
    }
}

/// Law: where no device is suitable, that is reported.
pub proof fn law_no_suitable_device_is_reported(devices: Vec<DeviceInfo>, picked: Result<
    (usize, QueueFamiliesIndices),
    SetupError,
>)
    requires
        call_ensures(pick_physical_device, (&devices,), picked),
    ensures
        picked is Err <==> forall|j: int| 0 <= j < devices@.len() ==> !(#[trigger] devices@[j]).suitable(),
        picked matches Err(error) ==> error == SetupError::NoSuitableDevice,
{
    let answers = devices@.map_values(|d: DeviceInfo| d.suitable());
    lemma_first_true(answers);
    assert forall|j: int| 0 <= j < devices@.len() implies answers[j] == (
    #[trigger] devices@[j]).suitable() by {}
}

/// Where items stand before one another, so do the items that are kept of them.
proof fn lemma_first_occurrences_keep_order(items: Seq<u32>, i: int, j: int, b: int)
    requires
        0 <= i < j < first_occurrences(items).len(),
        0 <= b < items.len(),
        items[b] == first_occurrences(items)[j],
    ensures
        exists|a: int| 0 <= a < b && #[trigger] items[a] == first_occurrences(items)[i],
    decreases items.len(),
{
    let front = items.drop_last();
    let before = first_occurrences(front);
    let kept = first_occurrences(items);
    lemma_first_occurrences(front);
    lemma_first_occurrences(items);
    if j < before.len() && b < front.len() {
        assert(front[b] == items[b] && before[j] == kept[j]);
        lemma_first_occurrences_keep_order(front, i, j, b);
        let a = choose|a: int| 0 <= a < b && #[trigger] front[a] == before[i];
        assert(items[a] == kept[i]);
    } else if b < front.len() {
        assert(front[b] == items[b]);
        assert(front.contains(items[b]));
        assert(before.contains(items[b]));
        assert(false);
    } else {
        assert(before.contains(before[i]));
        assert(front.contains(before[i]));
        let a = choose|a: int| 0 <= a < front.len() && front[a] == before[i];
        assert(items[a] == kept[i]);
    }
}

/// Law: of a list, each item is kept once and no other, and what is kept stays in
/// the order in which it occurred first: before any item that is kept later, each
/// item kept earlier occurred.
pub proof fn law_distinct_items_keep_their_order(
    items: Vec<u32>,
    kept: Vec<u32>,
    i: int,
    j: int,
    b: int,
)
    requires
        call_ensures(distinct, (&items,), kept),
        0 <= i < j < kept@.len(),
        0 <= b < items@.len(),
        items@[b] == kept@[j],
    ensures
        kept@.no_duplicates(),
        forall|x: u32| kept@.contains(x) <==> items@.contains(x),
        exists|a: int| 0 <= a < b && #[trigger] items@[a] == kept@[i],
{
    lemma_first_occurrences(items@);
    lemma_first_occurrences_keep_order(items@, i, j, b);
}

/// Law: the logical device has a queue in the families of graphics, presenting and
/// transfers and in no other, fetches each from its family, and turns on what the
/// renderer relies on.
pub proof fn law_logical_device_serves_the_families(
    indices: QueueFamiliesIndices,
    validation: bool,
    desc: LogicalDeviceDesc,
    family: u32,
)
    requires
        call_ensures(logical_device_desc, (indices, validation), desc),
    ensures
        desc.queue_families@.contains(family) <==> family == indices.graphics_index || family
            == indices.present_index || family == indices.transfer_index,
        desc.queue_families@.no_duplicates(),
        desc.queue_families@.len() > 0 && desc.queue_families@[0] == indices.graphics_index,
        desc.graphics_queue.family_index == indices.graphics_index,
        desc.present_queue.family_index == indices.present_index,
        desc.transfer_queue.family_index == indices.transfer_index,
        desc.graphics_queue.queue_index == 0,
        desc.present_queue.queue_index == 0,
        desc.transfer_queue.queue_index == 0,
        desc.queue_priority == 0x3f80_0000,
        desc.extension_names@.len() == 1,
        desc.extension_names@[0]@ == "VK_KHR_swapchain"@,
        desc.sampler_anisotropy,
        desc.descriptor_binding_partially_bound,
        desc.runtime_descriptor_array,
        desc.descriptor_binding_variable_descriptor_count,
        desc.validation == validation,
{
    let all = family_list(indices);
    assert(all.len() == 3);
    assert(all[0] == indices.graphics_index && all[1] == indices.present_index && all[2]
        == indices.transfer_index);
    assert(all.contains(all[0]) && all.contains(all[1]) && all.contains(all[2]));
    if all.contains(family) {
        let k = choose|k: int| 0 <= k < all.len() && all[k] == family;
        assert(k == 0 || k == 1 || k == 2);
    }
    let kept = desc.queue_families@;
    assert(kept.contains(all[0]));
    let j = choose|j: int| 0 <= j < kept.len() && kept[j] == all[0];
    if j > 0 {
        lemma_first_occurrences_keep_order(all, 0, j, 0);
    }
    assert(desc.extension_names@[0]@ == required_extensions()[0]);
}

/// Law: the instance has all extensions that the surface needs, in their order, and
/// that of the debug messages behind them exactly where validation is on.
pub proof fn law_instance_has_the_surface_extensions(
    surface_extensions: Seq<Seq<char>>,
    validation: bool,
    k: int,
)
    requires
        0 <= k < surface_extensions.len(),
    ensures
        ({
            let names = instance_extensions(surface_extensions, validation);
            &&& names[k] == surface_extensions[k]
            &&& validation ==> names.len() == surface_extensions.len() + 1 && names.last()
                == "VK_EXT_debug_utils"@
            &&& !validation ==> names.len() == surface_extensions.len()
        }),
{
}

/// Law: the instance is created for version 1.2.148 of the interface, by version
/// 0.1.0 of the application and of its engine, with the extensions that the surface
/// needs and with validation where it was asked for.
pub proof fn law_instance_is_created_for_the_interface(
    surface_extensions: Vec<String>,
    validation: bool,
    desc: InstanceDesc,
    k: int,
)
    requires
        call_ensures(instance_desc, (surface_extensions, validation), desc),
        0 <= k < surface_extensions@.len(),
    ensures
        desc.api_version == 1 * 0x40_0000 + 2 * 0x1000 + 148,
        desc.application_version == 1 * 0x1000,
        desc.engine_version == desc.application_version,
        desc.application_name@ == "Vulkan Application"@,
        desc.engine_name@ == "No Engine"@,
        desc.validation == validation,
        desc.extension_names@.len() == surface_extensions@.len() + (if validation {
            1int
        } else {
            0int
        }),
        desc.extension_names@[k]@ == surface_extensions@[k]@,
        validation ==> desc.extension_names@.last()@ == "VK_EXT_debug_utils"@,
{
    assert(api_version(0, 1, 2, 148) == 1 * 0x40_0000 + 2 * 0x1000 + 148) by (bit_vector);
    assert(api_version(0, 0, 1, 0) == 0x1000) by (bit_vector);
    let names = desc.extension_names@.map_values(|name: String| name@);
    let needed = surface_extensions@.map_values(|name: String| name@);
    law_instance_has_the_surface_extensions(needed, validation, k);
    assert(names == instance_extensions(needed, validation));
    assert(names.len() == desc.extension_names@.len());
    assert(names[k] == desc.extension_names@[k]@);
    assert(needed[k] == surface_extensions@[k]@);
    if validation {
        assert(names.last() == desc.extension_names@.last()@);
    }
}

/// Law: a device can be judged as soon as each of its families was asked whether it
/// presents and can be told by a 32-bit index.
pub proof fn law_devices_are_judged_once_asked(device: DeviceInfo)
    ensures
        device.wf() <==> device.queue_families@.len() <= device.present_support@.len()
            && device.queue_families@.len() < 0x1_0000_0000,
{
}

} // verus!
