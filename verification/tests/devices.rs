use renderinstance::device::{
    check_device_extension_support, distinct, find_queue_families, get_required_device_extensions,
    instance_desc, is_device_suitable, logical_device_desc, pick_physical_device, DeviceInfo,
    DeviceQueue, QueueFamiliesIndices, QueueFamily, SetupError,
};

const GRAPHICS: u32 = 0x1;
const COMPUTE: u32 = 0x2;
const TRANSFER: u32 = 0x4;
const SPARSE: u32 = 0x8;

fn family(queue_count: u32, queue_flags: u32) -> QueueFamily {
    QueueFamily { queue_count, queue_flags }
}

fn good_device() -> DeviceInfo {
    DeviceInfo {
        queue_families: vec![
            family(16, GRAPHICS | COMPUTE | TRANSFER | SPARSE),
            family(2, TRANSFER | SPARSE),
            family(8, COMPUTE | TRANSFER | SPARSE),
        ],
        present_support: vec![true, false, true],
        extensions: vec!["VK_KHR_maintenance1".to_string(), "VK_KHR_swapchain".to_string()],
        surface_formats: 2,
        present_modes: 1,
        sampler_anisotropy: 1,
    }
}

#[test]
fn families_of_a_discrete_card() {
    let device = good_device();
    assert_eq!(
        find_queue_families(&device.queue_families, &device.present_support),
        (Some(0), Some(0), Some(1))
    );
}

#[test]
fn first_matching_family_is_kept() {
    let families = vec![family(1, COMPUTE), family(1, GRAPHICS), family(1, GRAPHICS | TRANSFER)];
    assert_eq!(
        find_queue_families(&families, &vec![false, false, true]),
        (Some(1), Some(2), None)
    );
}

#[test]
fn all_flag_bits_are_needed() {
    let families = vec![family(1, COMPUTE | SPARSE), family(1, GRAPHICS | COMPUTE)];
    assert_eq!(find_queue_families(&families, &vec![false, false]), (Some(1), None, None));
}

#[test]
fn only_family_one_transfers() {
    let families = vec![family(1, TRANSFER), family(1, GRAPHICS), family(1, TRANSFER)];
    assert_eq!(
        find_queue_families(&families, &vec![true, true, true]),
        (Some(1), Some(0), None)
    );
}

#[test]
fn families_without_a_queue_are_passed_over() {
    let families = vec![family(0, GRAPHICS | TRANSFER), family(1, GRAPHICS | TRANSFER)];
    assert_eq!(
        find_queue_families(&families, &vec![true, true]),
        (Some(1), Some(1), Some(1))
    );
    let families = vec![family(0, GRAPHICS), family(0, TRANSFER), family(4, GRAPHICS)];
    assert_eq!(
        find_queue_families(&families, &vec![true, true, false]),
        (Some(2), None, None)
    );
}

#[test]
fn no_families_at_all() {
    assert_eq!(find_queue_families(&vec![], &vec![]), (None, None, None));
    assert_eq!(find_queue_families(&vec![family(0, GRAPHICS)], &vec![true]), (None, None, None));
}

#[test]
fn swapchain_extension_is_required() {
    assert_eq!(get_required_device_extensions(), vec!["VK_KHR_swapchain"]);
    assert!(check_device_extension_support(&vec![
        "VK_KHR_maintenance1".to_string(),
        "VK_KHR_swapchain".to_string(),
    ]));
    assert!(!check_device_extension_support(&vec!["VK_KHR_swapchain2".to_string()]));
    assert!(!check_device_extension_support(&vec![]));
}

#[test]
fn every_requirement_decides() {
    assert!(is_device_suitable(&good_device()));
    let mut device = good_device();
    device.queue_families = vec![family(1, COMPUTE), family(1, TRANSFER), family(1, COMPUTE)];
    assert!(!is_device_suitable(&device));
    let mut device = good_device();
    device.present_support = vec![false, false, false];
    assert!(!is_device_suitable(&device));
    let mut device = good_device();
    device.extensions = vec!["VK_KHR_maintenance1".to_string()];
    assert!(!is_device_suitable(&device));
    let mut device = good_device();
    device.surface_formats = 0;
    assert!(!is_device_suitable(&device));
    let mut device = good_device();
    device.present_modes = 0;
    assert!(!is_device_suitable(&device));
    let mut device = good_device();
    device.sampler_anisotropy = 0;
    assert!(!is_device_suitable(&device));
}

#[test]
fn transfer_is_no_requirement_of_suitability() {
    let mut device = good_device();
    device.queue_families = vec![family(1, GRAPHICS)];
    device.present_support = vec![true];
    assert!(is_device_suitable(&device));
}

#[test]
fn first_suitable_device_is_picked() {
    let mut bad = good_device();
    bad.sampler_anisotropy = 0;
    let mut other = good_device();
    other.present_support = vec![false, false, true];
    assert_eq!(
        pick_physical_device(&vec![bad, other, good_device()]),
        Ok((
            1,
            QueueFamiliesIndices { graphics_index: 0, present_index: 2, transfer_index: 1 }
        ))
    );
}

#[test]
fn no_suitable_device() {
    let mut bad = good_device();
    bad.present_modes = 0;
    assert_eq!(pick_physical_device(&vec![bad]), Err(SetupError::NoSuitableDevice));
    assert_eq!(pick_physical_device(&vec![]), Err(SetupError::NoSuitableDevice));
}

#[test]
fn transfers_fall_back_on_the_graphics_family() {
    let mut device = good_device();
    device.queue_families = vec![family(1, GRAPHICS | COMPUTE | TRANSFER)];
    device.present_support = vec![true];
    assert_eq!(
        pick_physical_device(&vec![device, good_device()]),
        Ok((
            0,
            QueueFamiliesIndices { graphics_index: 0, present_index: 0, transfer_index: 0 }
        ))
    );
    let mut device = good_device();
    device.queue_families = vec![family(1, COMPUTE), family(1, COMPUTE), family(1, GRAPHICS)];
    device.present_support = vec![true, false, false];
    assert_eq!(
        pick_physical_device(&vec![device]),
        Ok((
            0,
            QueueFamiliesIndices { graphics_index: 2, present_index: 0, transfer_index: 2 }
        ))
    );
}

#[test]
fn distinct_items_stand_where_they_occur_first() {
    assert_eq!(distinct(&vec![]), Vec::<u32>::new());
    assert_eq!(distinct(&vec![7]), vec![7]);
    assert_eq!(distinct(&vec![0, 0, 0]), vec![0]);
    assert_eq!(distinct(&vec![0, 0, 1]), vec![0, 1]);
    assert_eq!(distinct(&vec![0, 1, 1]), vec![0, 1]);
    assert_eq!(distinct(&vec![1, 0, 1]), vec![1, 0]);
    assert_eq!(distinct(&vec![3, 3, 2, 1, 2, 3]), vec![3, 2, 1]);
}

#[test]
fn logical_device_asks_for_each_family() {
    let indices = QueueFamiliesIndices { graphics_index: 0, present_index: 0, transfer_index: 1 };
    let desc = logical_device_desc(indices, true);
    assert_eq!(desc.queue_families, vec![0, 1]);
    assert_eq!(f32::from_bits(desc.queue_priority), 1.0);
    assert_eq!(desc.extension_names, vec!["VK_KHR_swapchain"]);
    assert!(desc.sampler_anisotropy);
    assert!(desc.descriptor_binding_partially_bound);
    assert!(desc.runtime_descriptor_array);
    assert!(desc.descriptor_binding_variable_descriptor_count);
    assert!(desc.validation);
    assert!(!logical_device_desc(indices, false).validation);
}

#[test]
fn first_queue_of_each_family_is_fetched() {
    let indices = QueueFamiliesIndices { graphics_index: 0, present_index: 2, transfer_index: 1 };
    let desc = logical_device_desc(indices, false);
    assert_eq!(desc.graphics_queue, DeviceQueue { family_index: 0, queue_index: 0 });
    assert_eq!(desc.present_queue, DeviceQueue { family_index: 2, queue_index: 0 });
    assert_eq!(desc.transfer_queue, DeviceQueue { family_index: 1, queue_index: 0 });
}

#[test]
fn shared_families_are_listed_once() {
    let indices = QueueFamiliesIndices { graphics_index: 0, present_index: 1, transfer_index: 0 };
    assert_eq!(logical_device_desc(indices, false).queue_families, vec![0, 1]);
}

#[test]
fn families_are_listed_once_when_all_differ() {
    let indices = QueueFamiliesIndices { graphics_index: 2, present_index: 0, transfer_index: 1 };
    assert_eq!(logical_device_desc(indices, false).queue_families, vec![2, 0, 1]);
}

#[test]
fn instance_is_described() {
    let surface = vec!["VK_KHR_surface".to_string(), "VK_KHR_xcb_surface".to_string()];
    let desc = instance_desc(surface.clone(), false);
    assert_eq!(desc.application_name, "Vulkan Application");
    assert_eq!(desc.application_version, 1 << 12);
    assert_eq!(desc.engine_name, "No Engine");
    assert_eq!(desc.engine_version, 1 << 12);
    assert_eq!(desc.api_version, (1 << 22) | (2 << 12) | 148);
    assert_eq!(desc.extension_names, surface);
    assert!(!desc.validation);
}

#[test]
fn validation_adds_the_debug_extension() {
    let desc = instance_desc(vec!["VK_KHR_surface".to_string()], true);
    assert_eq!(
        desc.extension_names,
        vec!["VK_KHR_surface".to_string(), "VK_EXT_debug_utils".to_string()]
    );
    assert!(desc.validation);
    assert_eq!(instance_desc(vec![], true).extension_names, vec!["VK_EXT_debug_utils".to_string()]);
}
