//! Descriptor construction, equality and the vertex layout builder.

use voidin::descriptor::{
    ColorTargetState, CompareFunction, ComputePipelineDescriptor, DescriptorValue,
    RenderPipelineDescriptor, TextureFormat, VertexFormat, VertexStepMode, VertexBufferLayout,
};

#[test]
fn vertex_format_sizes_are_exact() {
    assert_eq!(VertexFormat::Uint8x2.size(), 2);
    assert_eq!(VertexFormat::Float32.size(), 4);
    assert_eq!(VertexFormat::Float32x2.size(), 8);
    assert_eq!(VertexFormat::Float32x3.size(), 12);
    assert_eq!(VertexFormat::Float32x4.size(), 16);
    assert_eq!(VertexFormat::Float64x3.size(), 24);
    assert_eq!(VertexFormat::Float64x4.size(), 32);
}

#[test]
fn from_vertex_formats_packs_attributes_tightly() {
    let formats = vec![
        VertexFormat::Float32x3,
        VertexFormat::Float32x2,
        VertexFormat::Uint8x4,
    ];
    let layout = VertexBufferLayout::from_vertex_formats(VertexStepMode::Instance, &formats);

    assert_eq!(layout.step_mode, VertexStepMode::Instance);
    assert_eq!(layout.array_stride, 12 + 8 + 4);
    assert_eq!(layout.attributes.len(), 3);

    assert_eq!(layout.attributes[0].format, VertexFormat::Float32x3);
    assert_eq!(layout.attributes[0].offset, 0);
    assert_eq!(layout.attributes[0].shader_location, 0);

    assert_eq!(layout.attributes[1].format, VertexFormat::Float32x2);
    assert_eq!(layout.attributes[1].offset, 12);
    assert_eq!(layout.attributes[1].shader_location, 1);

    assert_eq!(layout.attributes[2].format, VertexFormat::Uint8x4);
    assert_eq!(layout.attributes[2].offset, 20);
    assert_eq!(layout.attributes[2].shader_location, 2);
}

#[test]
fn from_vertex_formats_of_nothing_is_empty() {
    let layout = VertexBufferLayout::from_vertex_formats(VertexStepMode::Vertex, &Vec::new());
    assert_eq!(layout.array_stride, 0);
    assert!(layout.attributes.is_empty());
}

#[test]
fn equal_descriptors_compare_equal() {
    let a = RenderPipelineDescriptor::default();
    let b = RenderPipelineDescriptor::default();
    assert!(a.equals(&b));
    assert!(ComputePipelineDescriptor::default().equals(&ComputePipelineDescriptor::default()));
}

#[test]
fn the_label_takes_part_in_equality() {
    let a = RenderPipelineDescriptor::default();
    let b = RenderPipelineDescriptor {
        label: Some("Shading".to_owned()),
        ..RenderPipelineDescriptor::default()
    };
    assert!(!a.equals(&b));
}

#[test]
fn every_field_takes_part_in_equality() {
    let base = RenderPipelineDescriptor::default();

    let no_fragment = RenderPipelineDescriptor {
        fragment: None,
        ..RenderPipelineDescriptor::default()
    };
    assert!(!base.equals(&no_fragment));

    let no_depth = RenderPipelineDescriptor {
        depth_stencil: None,
        ..RenderPipelineDescriptor::default()
    };
    assert!(!base.equals(&no_depth));

    let mut other_target = RenderPipelineDescriptor::default();
    other_target.fragment.as_mut().unwrap().targets[0] = Some(ColorTargetState {
        format: TextureFormat::Rgba16Float,
        blend: None,
        write_mask: 0xF,
    });
    assert!(!base.equals(&other_target));
}

#[test]
fn render_descriptor_default_matches_the_renderer_baseline() {
    let d = RenderPipelineDescriptor::default();
    assert_eq!(d.name(), "Pipeline");
    assert_eq!(d.vertex.entry_point, "vs_main");
    assert!(d.vertex.buffers.is_empty());
    assert!(d.layout.is_empty());
    assert!(d.push_constant_ranges.is_empty());
    assert_eq!(d.multisample.count, 1);

    let ds = d.depth_stencil.unwrap();
    assert_eq!(ds.format, TextureFormat::Depth32Float);
    assert!(ds.depth_write_enabled);
    assert_eq!(ds.depth_compare, CompareFunction::GreaterEqual);

    let fragment = d.fragment.unwrap();
    assert_eq!(fragment.entry_point, "fs_main");
    assert_eq!(fragment.targets.len(), 1);
    let target = fragment.targets[0].unwrap();
    assert_eq!(target.format, TextureFormat::Bgra8UnormSrgb);
    assert!(target.blend.is_none());
}

#[test]
fn compute_descriptor_default_matches_the_renderer_baseline() {
    let d = ComputePipelineDescriptor::default();
    assert_eq!(d.label.as_deref(), Some("Compute Pipeline"));
    assert_eq!(d.entry_point, "cs_main");
    assert!(d.layout.is_empty());
    assert!(d.push_constant_ranges.is_empty());
}

#[test]
fn unlabeled_render_descriptors_fall_back_to_a_generic_name() {
    let d = RenderPipelineDescriptor {
        label: None,
        ..RenderPipelineDescriptor::default()
    };
    assert_eq!(d.name(), "Render Pipeline");
}
