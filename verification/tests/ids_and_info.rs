//! Pool identifiers and the adapter info report.

use voidin::info::{backend_name, device_type_name, vendor_name, Backend, DeviceType, RendererInfo};
use voidin::material::MaterialId;
use voidin::mesh::MeshId;

#[test]
fn mesh_ids_round_trip_their_index() {
    let id = MeshId::new(7);
    assert_eq!(id.id(), 7);
    assert_eq!(u32::from(id), 7);
    assert_eq!(usize::from(id), 7);
    assert_eq!(MeshId::default().id(), 0);
    assert_eq!(MeshId::new(7), MeshId::new(7));
}

#[test]
fn material_ids_round_trip_their_index() {
    assert_eq!(MaterialId::new(3).id(), 3);
    assert_eq!(MaterialId::default().id(), 0);
    assert_eq!(MaterialId::new(3), MaterialId::new(3));
}

#[test]
fn known_vendors_are_named() {
    assert_eq!(vendor_name(0x1002), "AMD");
    assert_eq!(vendor_name(0x1010), "ImgTec");
    assert_eq!(vendor_name(0x10DE), "NVIDIA Corporation");
    assert_eq!(vendor_name(0x13B5), "ARM");
    assert_eq!(vendor_name(0x5143), "Qualcomm");
    assert_eq!(vendor_name(0x8086), "INTEL Corporation");
    assert_eq!(vendor_name(0x1234), "Unknown vendor");
}

#[test]
fn backends_and_device_types_are_named() {
    assert_eq!(backend_name(Backend::Vulkan), "Vulkan");
    assert_eq!(backend_name(Backend::Gl), "GL");
    assert_eq!(backend_name(Backend::BrowserWebGpu), "Browser WGPU");
    assert_eq!(device_type_name(DeviceType::DiscreteGpu), "Discrete GPU");
    assert_eq!(device_type_name(DeviceType::Cpu), "CPU");
}

#[test]
fn the_info_report_lists_every_fact_on_its_own_line() {
    let info = RendererInfo {
        device_name: "Stub 3000".to_owned(),
        device_type: "Discrete GPU".to_owned(),
        vendor_name: "AMD".to_owned(),
        backend: "Vulkan".to_owned(),
    };
    assert_eq!(
        info.describe(),
        "Vendor name: AMD\nDevice name: Stub 3000\nDevice type: Discrete GPU\nBackend: Vulkan\n"
    );
}
