//! Human-readable facts about the GPU adapter the renderer runs on.
//!
//! The adapter itself belongs to the GPU backend; the renderer only keeps
//! the plain values reported about it. The naming functions here turn the
//! reported vendor id, backend and device type into the strings shown to
//! the user.

use vstd::prelude::*;
use vstd::string::StringExecFns;

verus! {

/// Graphics API family the adapter is driven through.
#[derive(Debug, Copy, Clone, PartialEq, Eq, Structural)]
pub enum Backend {
    Empty,
    Vulkan,
    Metal,
    Dx12,
    Dx11,
    Gl,
    BrowserWebGpu,
}

/// Kind of device the adapter is.
#[derive(Debug, Copy, Clone, PartialEq, Eq, Structural)]
pub enum DeviceType {
    Other,
    IntegratedGpu,
    DiscreteGpu,
    VirtualGpu,
    Cpu,
}

/// The hardware vendor's display name for a PCI vendor id, with a generic
/// fallback for ids not in the table.
pub fn vendor_name(vendor: u32) -> (r: &'static str)
    ensures
        r@ == match vendor {
            0x1002u32 => "AMD"@,
            0x1010u32 => "ImgTec"@,
            0x10DEu32 => "NVIDIA Corporation"@,
            0x13B5u32 => "ARM"@,
            0x5143u32 => "Qualcomm"@,
            0x8086u32 => "INTEL Corporation"@,
            _ => "Unknown vendor"@,
        },
{
    match vendor {
        0x1002u32 => "AMD",
        0x1010u32 => "ImgTec",
        0x10DEu32 => "NVIDIA Corporation",
        0x13B5u32 => "ARM",
        0x5143u32 => "Qualcomm",
        0x8086u32 => "INTEL Corporation",
        _ => "Unknown vendor",
    }
}

/// Display name of a backend.
pub fn backend_name(backend: Backend) -> (r: &'static str)
    ensures
        r@ == match backend {
            Backend::Empty => "Empty"@,
            Backend::Vulkan => "Vulkan"@,
            Backend::Metal => "Metal"@,
            Backend::Dx12 => "Dx12"@,
            Backend::Dx11 => "Dx11"@,
            Backend::Gl => "GL"@,
            Backend::BrowserWebGpu => "Browser WGPU"@,
        },
{
    match backend {
        Backend::Empty => "Empty",
        Backend::Vulkan => "Vulkan",
        Backend::Metal => "Metal",
        Backend::Dx12 => "Dx12",
        Backend::Dx11 => "Dx11",
        Backend::Gl => "GL",
        Backend::BrowserWebGpu => "Browser WGPU",
    }
}

/// Display name of a device type.
pub fn device_type_name(device_type: DeviceType) -> (r: &'static str)
    ensures
        r@ == match device_type {
            DeviceType::Other => "Other"@,
            DeviceType::IntegratedGpu => "Integrated GPU"@,
            DeviceType::DiscreteGpu => "Discrete GPU"@,
            DeviceType::VirtualGpu => "Virtual GPU"@,
            DeviceType::Cpu => "CPU"@,
        },
{
    match device_type {
        DeviceType::Other => "Other",
        DeviceType::IntegratedGpu => "Integrated GPU",
        DeviceType::DiscreteGpu => "Discrete GPU",
        DeviceType::VirtualGpu => "Virtual GPU",
        DeviceType::Cpu => "CPU",
    }
}

/// Adapter facts shown to the user when the renderer starts.
#[derive(Debug, Clone)]
pub struct RendererInfo {
    pub device_name: String,
    pub device_type: String,
    pub vendor_name: String,
    pub backend: String,
}

impl RendererInfo {
    /// The report printed at startup, one line per fact.
    pub fn describe(&self) -> (r: String)
        ensures
            r@ == "Vendor name: "@ + self.vendor_name@ + "\nDevice name: "@ + self.device_name@
                + "\nDevice type: "@ + self.device_type@ + "\nBackend: "@ + self.backend@ + "\n"@,
    {
        let mut out: String = String::from_str("Vendor name: ");
        out.append(self.vendor_name.as_str());
        out.append("\nDevice name: ");
        out.append(self.device_name.as_str());
        out.append("\nDevice type: ");
        out.append(self.device_type.as_str());
        out.append("\nBackend: ");
        out.append(self.backend.as_str());
        out.append("\n");
        out
    }
}

} // verus!
