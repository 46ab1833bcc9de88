//! Value-type pipeline configuration records.
//!
//! A descriptor fully determines how a pipeline is built from a shader
//! module: two descriptors with identical field values are interchangeable
//! regardless of identity, and the arena's dedup cache compares them by
//! full field content. Every field is plain data; the GPU objects a
//! descriptor refers to (bind group layouts) are named by opaque ids.

use vstd::prelude::*;

verus! {

/// Primitive assembly mode for a render pipeline.
#[derive(Clone, Copy, Debug, PartialEq, Eq, Structural)]
pub enum PrimitiveTopology {
    PointList,
    LineList,
    LineStrip,
    TriangleList,
    TriangleStrip,
}

/// Index buffer entry width, required when drawing indexed strip topologies.
#[derive(Clone, Copy, Debug, PartialEq, Eq, Structural)]
pub enum IndexFormat {
    Uint16,
    Uint32,
}

/// Winding order that defines the front face of a triangle.
#[derive(Clone, Copy, Debug, PartialEq, Eq, Structural)]
pub enum FrontFace {
    Ccw,
    Cw,
}

/// Face of a triangle, as selected by culling.
#[derive(Clone, Copy, Debug, PartialEq, Eq, Structural)]
pub enum Face {
    Front,
    Back,
}

/// Rasterization mode for polygons.
#[derive(Clone, Copy, Debug, PartialEq, Eq, Structural)]
pub enum PolygonMode {
    Fill,
    Line,
    Point,
}

/// Comparison function used by depth and stencil tests.
#[derive(Clone, Copy, Debug, PartialEq, Eq, Structural)]
pub enum CompareFunction {
    Never,
    Less,
    Equal,
    LessEqual,
    Greater,
    NotEqual,
    GreaterEqual,
    Always,
}

/// Operation applied to a stencil buffer entry after a test.
#[derive(Clone, Copy, Debug, PartialEq, Eq, Structural)]
pub enum StencilOperation {
    Keep,
    Zero,
    Replace,
    Invert,
    IncrementClamp,
    DecrementClamp,
    IncrementWrap,
    DecrementWrap,
}

/// Multiplication factor in the blend equation.
#[derive(Clone, Copy, Debug, PartialEq, Eq, Structural)]
pub enum BlendFactor {
    Zero,
    One,
    Src,
    OneMinusSrc,
    SrcAlpha,
    OneMinusSrcAlpha,
    Dst,
    OneMinusDst,
    DstAlpha,
    OneMinusDstAlpha,
    SrcAlphaSaturated,
    Constant,
    OneMinusConstant,
}

/// Operation combining the two sides of the blend equation.
#[derive(Clone, Copy, Debug, PartialEq, Eq, Structural)]
pub enum BlendOperation {
    Add,
    Subtract,
    ReverseSubtract,
    Min,
    Max,
}

/// Whether a vertex buffer advances per vertex or per instance.
#[derive(Clone, Copy, Debug, PartialEq, Eq, Structural)]
pub enum VertexStepMode {
    Vertex,
    Instance,
}

/// Format of a single vertex attribute.
#[derive(Clone, Copy, Debug, PartialEq, Eq, Structural)]
pub enum VertexFormat {
    Uint8x2,
    Uint8x4,
    Sint8x2,
    Sint8x4,
    Unorm8x2,
    Unorm8x4,
    Snorm8x2,
    Snorm8x4,
    Uint16x2,
    Uint16x4,
    Sint16x2,
    Sint16x4,
    Unorm16x2,
    Unorm16x4,
    Snorm16x2,
    Snorm16x4,
    Float16x2,
    Float16x4,
    Float32,
    Float32x2,
    Float32x3,
    Float32x4,
    Uint32,
    Uint32x2,
    Uint32x3,
    Uint32x4,
    Sint32,
    Sint32x2,
    Sint32x3,
    Sint32x4,
    Float64,
    Float64x2,
    Float64x3,
    Float64x4,
}

/// Texel layout of a texture, as far as pipeline state needs to name it.
#[derive(Clone, Copy, Debug, PartialEq, Eq, Structural)]
pub enum TextureFormat {
    R8Unorm,
    Rg8Unorm,
    Rgba8Unorm,
    Rgba8UnormSrgb,
    Bgra8Unorm,
    Bgra8UnormSrgb,
    R16Float,
    Rg16Float,
    Rgba16Float,
    R32Float,
    Rg32Float,
    Rgba32Float,
    R32Uint,
    Rg32Uint,
    Rgba32Uint,
    Rg11b10Float,
    Depth16Unorm,
    Depth24Plus,
    Depth24PlusStencil8,
    Depth32Float,
    Depth32FloatStencil8,
}

/// Opaque reference to a bind group layout owned by the GPU backend. The
/// arena never looks inside a layout; it only compares ids, so two
/// descriptors agree on their layouts exactly when their id lists agree.
#[derive(Clone, Copy, Debug, PartialEq, Eq, Structural)]
pub struct BindGroupLayoutId {
    pub id: u64,
}

/// A push constant range: `stages` is a bitmask of the shader stages that
/// can see it, and `[start, end)` the byte range in push constant memory.
#[derive(Clone, Copy, Debug, PartialEq, Eq, Structural)]
pub struct PushConstantRange {
    pub stages: u32,
    pub start: u32,
    pub end: u32,
}

/// One attribute inside a vertex buffer: its format, byte offset from the
/// start of an element, and the shader location it feeds.
#[derive(Clone, Copy, Debug, PartialEq, Eq, Structural)]
pub struct VertexAttribute {
    pub format: VertexFormat,
    pub offset: u64,
    pub shader_location: u32,
}

/// One side (color or alpha) of the blend equation.
#[derive(Clone, Copy, Debug, PartialEq, Eq, Structural)]
pub struct BlendComponent {
    pub src_factor: BlendFactor,
    pub dst_factor: BlendFactor,
    pub operation: BlendOperation,
}

/// Full blend state of a color target.
#[derive(Clone, Copy, Debug, PartialEq, Eq, Structural)]
pub struct BlendState {
    pub color: BlendComponent,
    pub alpha: BlendComponent,
}

/// A color target of the fragment stage: format, optional blending, and a
/// bitmask selecting which channels are written.
#[derive(Clone, Copy, Debug, PartialEq, Eq, Structural)]
pub struct ColorTargetState {
    pub format: TextureFormat,
    pub blend: Option<BlendState>,
    pub write_mask: u32,
}

/// Fixed-function primitive state of a render pipeline.
#[derive(Clone, Copy, Debug, PartialEq, Eq, Structural)]
pub struct PrimitiveState {
    pub topology: PrimitiveTopology,
    pub strip_index_format: Option<IndexFormat>,
    pub front_face: FrontFace,
    pub cull_mode: Option<Face>,
    pub unclipped_depth: bool,
    pub polygon_mode: PolygonMode,
    pub conservative: bool,
}

/// Multi-sampling state of a render pipeline.
#[derive(Clone, Copy, Debug, PartialEq, Eq, Structural)]
pub struct MultisampleState {
    pub count: u32,
    pub mask: u64,
    pub alpha_to_coverage_enabled: bool,
}

/// Stencil behaviour for one face orientation.
#[derive(Clone, Copy, Debug, PartialEq, Eq, Structural)]
pub struct StencilFaceState {
    pub compare: CompareFunction,
    pub fail_op: StencilOperation,
    pub depth_fail_op: StencilOperation,
    pub pass_op: StencilOperation,
}

/// Stencil state for both faces plus the read and write masks.
#[derive(Clone, Copy, Debug, PartialEq, Eq, Structural)]
pub struct StencilState {
    pub front: StencilFaceState,
    pub back: StencilFaceState,
    pub read_mask: u32,
    pub write_mask: u32,
}

/// Depth bias settings. The slope scale and clamp factors are fractional
/// quantities; they are stored here by their bit patterns, which is also
/// exactly how GPU APIs compare two bias states for equality.
#[derive(Clone, Copy, Debug, PartialEq, Eq, Structural)]
pub struct DepthBiasState {
    pub constant: i32,
    pub slope_scale_bits: u32,
    pub clamp_bits: u32,
}

/// Depth/stencil state of a render pipeline.
#[derive(Clone, Copy, Debug, PartialEq, Eq, Structural)]
pub struct DepthStencilState {
    pub format: TextureFormat,
    pub depth_write_enabled: bool,
    pub depth_compare: CompareFunction,
    pub stencil: StencilState,
    pub bias: DepthBiasState,
}

impl DeepView for BindGroupLayoutId {
    type V = BindGroupLayoutId;

    open spec fn deep_view(&self) -> BindGroupLayoutId {
        *self
    }
}

impl DeepView for PushConstantRange {
    type V = PushConstantRange;

    open spec fn deep_view(&self) -> PushConstantRange {
        *self
    }
}

impl DeepView for VertexAttribute {
    type V = VertexAttribute;

    open spec fn deep_view(&self) -> VertexAttribute {
        *self
    }
}

impl DeepView for ColorTargetState {
    type V = ColorTargetState;

    open spec fn deep_view(&self) -> ColorTargetState {
        *self
    }
}

/// Layout of one vertex buffer: element stride, step mode, and the ordered
/// attributes read out of each element.
#[derive(Clone, Debug, PartialEq, Eq)]
pub struct VertexBufferLayout {
    pub array_stride: u64,
    pub step_mode: VertexStepMode,
    pub attributes: Vec<VertexAttribute>,
}

/// Mathematical value of a [`VertexBufferLayout`].
#[verifier::ext_equal]
pub struct VertexBufferLayoutModel {
    pub array_stride: u64,
    pub step_mode: VertexStepMode,
    pub attributes: Seq<VertexAttribute>,
}

impl DeepView for VertexBufferLayout {
    type V = VertexBufferLayoutModel;

    open spec fn deep_view(&self) -> VertexBufferLayoutModel {
        VertexBufferLayoutModel {
            array_stride: self.array_stride,
            step_mode: self.step_mode,
            attributes: self.attributes.deep_view(),
        }
    }
}

/// Vertex stage description: entry point name and the ordered vertex buffer
/// layouts the stage reads.
#[derive(Clone, Debug, PartialEq, Eq)]
pub struct VertexState {
    pub entry_point: String,
    pub buffers: Vec<VertexBufferLayout>,
}

/// Mathematical value of a [`VertexState`].
#[verifier::ext_equal]
pub struct VertexStateModel {
    pub entry_point: Seq<char>,
    pub buffers: Seq<VertexBufferLayoutModel>,
}

impl DeepView for VertexState {
    type V = VertexStateModel;

    open spec fn deep_view(&self) -> VertexStateModel {
        VertexStateModel {
            entry_point: self.entry_point.deep_view(),
            buffers: self.buffers.deep_view(),
        }
    }
}

/// Fragment stage description: entry point name and the ordered, possibly
/// sparse list of color targets.
#[derive(Clone, Debug, PartialEq, Eq)]
pub struct FragmentState {
    pub entry_point: String,
    pub targets: Vec<Option<ColorTargetState>>,
}

/// Mathematical value of a [`FragmentState`].
#[verifier::ext_equal]
pub struct FragmentStateModel {
    pub entry_point: Seq<char>,
    pub targets: Seq<Option<ColorTargetState>>,
}

impl DeepView for FragmentState {
    type V = FragmentStateModel;

    open spec fn deep_view(&self) -> FragmentStateModel {
        FragmentStateModel {
            entry_point: self.entry_point.deep_view(),
            targets: self.targets.deep_view(),
        }
    }
}

/// Describes render pipeline.
#[derive(Clone, Debug, PartialEq, Eq)]
pub struct RenderPipelineDescriptor {
    pub label: Option<String>,
    pub layout: Vec<BindGroupLayoutId>,
    pub push_constant_ranges: Vec<PushConstantRange>,
    pub vertex: VertexState,
    pub primitive: PrimitiveState,
    pub depth_stencil: Option<DepthStencilState>,
    pub multisample: MultisampleState,
    pub fragment: Option<FragmentState>,
    pub multiview: Option<u32>,
}

/// Mathematical value of a [`RenderPipelineDescriptor`]: the dedup cache
/// treats two descriptors as the same exactly when these values are equal.
#[verifier::ext_equal]
pub struct RenderPipelineDescriptorModel {
    pub label: Option<Seq<char>>,
    pub layout: Seq<BindGroupLayoutId>,
    pub push_constant_ranges: Seq<PushConstantRange>,
    pub vertex: VertexStateModel,
    pub primitive: PrimitiveState,
    pub depth_stencil: Option<DepthStencilState>,
    pub multisample: MultisampleState,
    pub fragment: Option<FragmentStateModel>,
    pub multiview: Option<u32>,
}

impl DeepView for RenderPipelineDescriptor {
    type V = RenderPipelineDescriptorModel;

    open spec fn deep_view(&self) -> RenderPipelineDescriptorModel {
        RenderPipelineDescriptorModel {
            label: self.label.deep_view(),
            layout: self.layout.deep_view(),
            push_constant_ranges: self.push_constant_ranges.deep_view(),
            vertex: self.vertex.deep_view(),
            primitive: self.primitive,
            depth_stencil: self.depth_stencil,
            multisample: self.multisample,
            fragment: self.fragment.deep_view(),
            multiview: self.multiview,
        }
    }
}

/// Describes compute pipeline.
#[derive(Clone, Debug, PartialEq, Eq)]
pub struct ComputePipelineDescriptor {
    pub label: Option<String>,
    pub layout: Vec<BindGroupLayoutId>,
    pub push_constant_ranges: Vec<PushConstantRange>,
    pub entry_point: String,
}

/// Mathematical value of a [`ComputePipelineDescriptor`].
#[verifier::ext_equal]
pub struct ComputePipelineDescriptorModel {
    pub label: Option<Seq<char>>,
    pub layout: Seq<BindGroupLayoutId>,
    pub push_constant_ranges: Seq<PushConstantRange>,
    pub entry_point: Seq<char>,
}

impl DeepView for ComputePipelineDescriptor {
    type V = ComputePipelineDescriptorModel;

    open spec fn deep_view(&self) -> ComputePipelineDescriptorModel {
        ComputePipelineDescriptorModel {
            label: self.label.deep_view(),
            layout: self.layout.deep_view(),
            push_constant_ranges: self.push_constant_ranges.deep_view(),
            entry_point: self.entry_point.deep_view(),
        }
    }
}

impl VertexFormat {
    /// Byte size of the format.
    pub open spec fn spec_size(self) -> u64 {
        match self {
            VertexFormat::Uint8x2 | VertexFormat::Sint8x2 | VertexFormat::Unorm8x2
                | VertexFormat::Snorm8x2 => 2,
            VertexFormat::Uint8x4 | VertexFormat::Sint8x4 | VertexFormat::Unorm8x4
                | VertexFormat::Snorm8x4 | VertexFormat::Uint16x2 | VertexFormat::Sint16x2
                | VertexFormat::Unorm16x2 | VertexFormat::Snorm16x2 | VertexFormat::Float16x2
                | VertexFormat::Float32 | VertexFormat::Uint32 | VertexFormat::Sint32 => 4,
            VertexFormat::Uint16x4 | VertexFormat::Sint16x4 | VertexFormat::Unorm16x4
                | VertexFormat::Snorm16x4 | VertexFormat::Float16x4 | VertexFormat::Float32x2
                | VertexFormat::Uint32x2 | VertexFormat::Sint32x2 | VertexFormat::Float64 => 8,
            VertexFormat::Float32x3 | VertexFormat::Uint32x3 | VertexFormat::Sint32x3 => 12,
            VertexFormat::Float32x4 | VertexFormat::Uint32x4 | VertexFormat::Sint32x4
                | VertexFormat::Float64x2 => 16,
            VertexFormat::Float64x3 => 24,
            VertexFormat::Float64x4 => 32,
        }
    }

    /// Returns the byte size of the format.
    pub fn size(&self) -> (r: u64)
        ensures
            r == self.spec_size(),
            2 <= r <= 32,
    {
        match self {
            VertexFormat::Uint8x2 | VertexFormat::Sint8x2 | VertexFormat::Unorm8x2
                | VertexFormat::Snorm8x2 => 2,
            VertexFormat::Uint8x4 | VertexFormat::Sint8x4 | VertexFormat::Unorm8x4
                | VertexFormat::Snorm8x4 | VertexFormat::Uint16x2 | VertexFormat::Sint16x2
                | VertexFormat::Unorm16x2 | VertexFormat::Snorm16x2 | VertexFormat::Float16x2
                | VertexFormat::Float32 | VertexFormat::Uint32 | VertexFormat::Sint32 => 4,
            VertexFormat::Uint16x4 | VertexFormat::Sint16x4 | VertexFormat::Unorm16x4
                | VertexFormat::Snorm16x4 | VertexFormat::Float16x4 | VertexFormat::Float32x2
                | VertexFormat::Uint32x2 | VertexFormat::Sint32x2 | VertexFormat::Float64 => 8,
            VertexFormat::Float32x3 | VertexFormat::Uint32x3 | VertexFormat::Sint32x3 => 12,
            VertexFormat::Float32x4 | VertexFormat::Uint32x4 | VertexFormat::Sint32x4
                | VertexFormat::Float64x2 => 16,
            VertexFormat::Float64x3 => 24,
            VertexFormat::Float64x4 => 32,
        }
    }
}

/// Sum of the byte sizes of the first `n` formats of `s`: the offset at
/// which attribute `n` starts in a tightly packed vertex buffer element.
pub open spec fn packed_offset(s: Seq<VertexFormat>, n: int) -> int
    decreases n,
{
    if n <= 0 {
        0
    } else {
        packed_offset(s, n - 1) + s[n - 1].spec_size()
    }
}

proof fn lemma_packed_offset_bound(s: Seq<VertexFormat>, n: int)
    requires
        0 <= n <= s.len(),
    ensures
        0 <= packed_offset(s, n) <= 32 * n,
    decreases n,
{
    if n > 0 {
        lemma_packed_offset_bound(s, n - 1);
    }
}

impl VertexBufferLayout {
    /// Builds a tightly packed layout from an ordered list of attribute
    /// formats: attribute `i` gets shader location `i` and the offset right
    /// after the bytes of the formats before it, and the array stride is the
    /// total size of all attributes.
    pub fn from_vertex_formats(step_mode: VertexStepMode, vertex_formats: &Vec<VertexFormat>) -> (r:
        VertexBufferLayout)
        requires
            vertex_formats@.len() <= u32::MAX,
        ensures
            r.step_mode == step_mode,
            r.attributes@.len() == vertex_formats@.len(),
            forall|i: int|
                0 <= i < vertex_formats@.len() ==> r.attributes@[i] == (VertexAttribute {
                    format: vertex_formats@[i],
                    offset: packed_offset(vertex_formats@, i) as u64,
                    shader_location: i as u32,
                }),
            r.array_stride == packed_offset(vertex_formats@, vertex_formats@.len() as int),
    {
        let ghost fmts = vertex_formats@;
        let mut offset: u64 = 0;
        let mut attributes: Vec<VertexAttribute> = Vec::new();
        let mut shader_location: usize = 0;
        while shader_location < vertex_formats.len()
            invariant
                fmts == vertex_formats@,
                fmts.len() <= u32::MAX,
                shader_location <= fmts.len(),
                attributes@.len() == shader_location,
                offset == packed_offset(fmts, shader_location as int),
                offset <= 32 * shader_location,
                forall|i: int|
                    0 <= i < shader_location ==> attributes@[i] == (VertexAttribute {
                        format: fmts[i],
                        offset: packed_offset(fmts, i) as u64,
                        shader_location: i as u32,
                    }),
            decreases fmts.len() - shader_location,
        {
            let format = vertex_formats[shader_location];
            attributes.push(
                VertexAttribute { format, offset, shader_location: shader_location as u32 },
            );
            proof {
                lemma_packed_offset_bound(fmts, shader_location as int);
            }
            offset = offset + format.size();
            shader_location = shader_location + 1;
        }
        VertexBufferLayout { array_stride: offset, step_mode, attributes }
    }
}

impl Default for PrimitiveState {
    /// Triangle lists, counter-clockwise front faces, no culling, plain
    /// fill rasterization.
    fn default() -> (r: Self)
        ensures
            r == (PrimitiveState {
                topology: PrimitiveTopology::TriangleList,
                strip_index_format: None,
                front_face: FrontFace::Ccw,
                cull_mode: None,
                unclipped_depth: false,
                polygon_mode: PolygonMode::Fill,
                conservative: false,
            }),
    {
        PrimitiveState {
            topology: PrimitiveTopology::TriangleList,
            strip_index_format: None,
            front_face: FrontFace::Ccw,
            cull_mode: None,
            unclipped_depth: false,
            polygon_mode: PolygonMode::Fill,
            conservative: false,
        }
    }
}

impl Default for MultisampleState {
    /// A single sample per pixel with every sample bit enabled.
    fn default() -> (r: Self)
        ensures
            r == (MultisampleState {
                count: 1,
                mask: 0xFFFF_FFFF_FFFF_FFFF,
                alpha_to_coverage_enabled: false,
            }),
    {
        MultisampleState { count: 1, mask: 0xFFFF_FFFF_FFFF_FFFF, alpha_to_coverage_enabled: false }
    }
}

impl StencilFaceState {
    /// The face state that ignores the stencil entirely.
    pub fn ignore() -> (r: Self)
        ensures
            r == (StencilFaceState {
                compare: CompareFunction::Always,
                fail_op: StencilOperation::Keep,
                depth_fail_op: StencilOperation::Keep,
                pass_op: StencilOperation::Keep,
            }),
    {
        StencilFaceState {
            compare: CompareFunction::Always,
            fail_op: StencilOperation::Keep,
            depth_fail_op: StencilOperation::Keep,
            pass_op: StencilOperation::Keep,
        }
    }
}

impl Default for StencilFaceState {
    fn default() -> (r: Self)
        ensures
            r == (StencilFaceState {
                compare: CompareFunction::Always,
                fail_op: StencilOperation::Keep,
                depth_fail_op: StencilOperation::Keep,
                pass_op: StencilOperation::Keep,
            }),
    {
        StencilFaceState::ignore()
    }
}

impl Default for StencilState {
    /// Both faces ignored, all mask bits cleared: the stencil test off.
    fn default() -> (r: Self)
        ensures
            r.front == StencilFaceState::default_spec(),
            r.back == StencilFaceState::default_spec(),
            r.read_mask == 0,
            r.write_mask == 0,
    {
        StencilState {
            front: StencilFaceState::ignore(),
            back: StencilFaceState::ignore(),
            read_mask: 0,
            write_mask: 0,
        }
    }
}

impl StencilFaceState {
    /// The value [`StencilFaceState::default`] returns.
    pub open spec fn default_spec() -> StencilFaceState {
        StencilFaceState {
            compare: CompareFunction::Always,
            fail_op: StencilOperation::Keep,
            depth_fail_op: StencilOperation::Keep,
            pass_op: StencilOperation::Keep,
        }
    }
}

impl Default for DepthBiasState {
    /// No depth biasing.
    fn default() -> (r: Self)
        ensures
            r == (DepthBiasState { constant: 0, slope_scale_bits: 0, clamp_bits: 0 }),
    {
        DepthBiasState { constant: 0, slope_scale_bits: 0, clamp_bits: 0 }
    }
}

impl Default for VertexBufferLayout {
    /// An empty layout: no attributes, zero stride, per-vertex stepping.
    fn default() -> (r: Self)
        ensures
            r.array_stride == 0,
            r.step_mode == VertexStepMode::Vertex,
            r.attributes@.len() == 0,
    {
        VertexBufferLayout {
            array_stride: 0,
            step_mode: VertexStepMode::Vertex,
            attributes: Vec::new(),
        }
    }
}

impl Default for VertexState {
    /// The conventional vertex entry point and no vertex buffers: vertices
    /// are synthesized in the shader.
    fn default() -> (r: Self)
        ensures
            r.entry_point@ == "vs_main"@,
            r.buffers@.len() == 0,
    {
        VertexState { entry_point: "vs_main".to_owned(), buffers: Vec::new() }
    }
}

impl Default for FragmentState {
    /// The conventional fragment entry point writing one swapchain-format
    /// color target with blending off.
    fn default() -> (r: Self)
        ensures
            r.entry_point@ == "fs_main"@,
            r.targets@.len() == 1,
            r.targets@[0] == Some(
                ColorTargetState {
                    format: TextureFormat::Bgra8UnormSrgb,
                    blend: None,
                    write_mask: 0xF,
                },
            ),
    {
        let mut targets: Vec<Option<ColorTargetState>> = Vec::new();
        targets.push(
            Some(
                ColorTargetState {
                    format: TextureFormat::Bgra8UnormSrgb,
                    blend: None,
                    write_mask: 0xF,
                },
            ),
        );
        FragmentState { entry_point: "fs_main".to_owned(), targets }
    }
}

impl Default for RenderPipelineDescriptor {
    /// The renderer's baseline render pipeline: default vertex and fragment
    /// stages, reverse-Z depth testing against a 32-bit depth buffer, no
    /// bind group layouts and no push constants.
    fn default() -> (r: Self)
        ensures
            match r.label {
                Some(l) => l@ == "Pipeline"@,
                None => false,
            },
            r.layout@.len() == 0,
            r.push_constant_ranges@.len() == 0,
            r.vertex.entry_point@ == "vs_main"@,
            r.vertex.buffers@.len() == 0,
            r.primitive == PrimitiveState::default_spec(),
            r.depth_stencil matches Some(ds) && ds.format == TextureFormat::Depth32Float
                && ds.depth_write_enabled && ds.depth_compare == CompareFunction::GreaterEqual
                && ds.stencil.read_mask == 0 && ds.stencil.write_mask == 0 && ds.bias == (
            DepthBiasState { constant: 0, slope_scale_bits: 0, clamp_bits: 0 }),
            r.multisample == MultisampleState::default_spec(),
            r.fragment matches Some(f) && f.entry_point@ == "fs_main"@ && f.targets@.len() == 1
                && f.targets@[0] == Some(
                ColorTargetState {
                    format: TextureFormat::Bgra8UnormSrgb,
                    blend: None,
                    write_mask: 0xF,
                },
            ),
            r.multiview is None,
    {
        RenderPipelineDescriptor {
            label: Some("Pipeline".to_owned()),
            layout: Vec::new(),
            push_constant_ranges: Vec::new(),
            vertex: VertexState::default(),
            primitive: PrimitiveState::default(),
            depth_stencil: Some(
                DepthStencilState {
                    format: TextureFormat::Depth32Float,
                    depth_write_enabled: true,
                    depth_compare: CompareFunction::GreaterEqual,
                    stencil: StencilState::default(),
                    bias: DepthBiasState::default(),
                },
            ),
            multisample: MultisampleState::default(),
            fragment: Some(FragmentState::default()),
            multiview: None,
        }
    }
}

impl PrimitiveState {
    /// The value [`PrimitiveState::default`] returns.
    pub open spec fn default_spec() -> PrimitiveState {
        PrimitiveState {
            topology: PrimitiveTopology::TriangleList,
            strip_index_format: None,
            front_face: FrontFace::Ccw,
            cull_mode: None,
            unclipped_depth: false,
            polygon_mode: PolygonMode::Fill,
            conservative: false,
        }
    }
}

impl MultisampleState {
    /// The value [`MultisampleState::default`] returns.
    pub open spec fn default_spec() -> MultisampleState {
        MultisampleState { count: 1, mask: 0xFFFF_FFFF_FFFF_FFFF, alpha_to_coverage_enabled: false }
    }
}

impl Default for ComputePipelineDescriptor {
    /// The renderer's baseline compute pipeline: the conventional compute
    /// entry point, no bind group layouts and no push constants.
    fn default() -> (r: Self)
        ensures
            match r.label {
                Some(l) => l@ == "Compute Pipeline"@,
                None => false,
            },
            r.layout@.len() == 0,
            r.push_constant_ranges@.len() == 0,
            r.entry_point@ == "cs_main"@,
    {
        ComputePipelineDescriptor {
            label: Some("Compute Pipeline".to_owned()),
            layout: Vec::new(),
            push_constant_ranges: Vec::new(),
            entry_point: "cs_main".to_owned(),
        }
    }
}

fn eq_label(a: &Option<String>, b: &Option<String>) -> (r: bool)
    ensures
        r == (a.deep_view() == b.deep_view()),
{
    match a {
        Some(x) => match b {
            Some(y) => *x == *y,
            None => false,
        },
        None => match b {
            Some(_) => false,
            None => true,
        },
    }
}

fn eq_layout_ids(a: &Vec<BindGroupLayoutId>, b: &Vec<BindGroupLayoutId>) -> (r: bool)
    ensures
        r == (a.deep_view() == b.deep_view()),
{
    if a.len() != b.len() {
        proof {
            assert(a.deep_view().len() == a@.len());
            assert(b.deep_view().len() == b@.len());
        }
        return false;
    }
    let n = a.len();
    let mut i: usize = 0;
    while i < n
        invariant
            n == a@.len() == b@.len(),
            i <= n,
            forall|j: int| 0 <= j < i ==> a@[j] == b@[j],
        decreases n - i,
    {
        if a[i].id != b[i].id {
            proof {
                assert(a.deep_view()[i as int] == a@[i as int]);
                assert(b.deep_view()[i as int] == b@[i as int]);
            }
            return false;
        }
        i = i + 1;
    }
    proof {
        assert(a.deep_view() =~= b.deep_view());
    }
    true
}

fn eq_push_constant_ranges(a: &Vec<PushConstantRange>, b: &Vec<PushConstantRange>) -> (r: bool)
    ensures
        r == (a.deep_view() == b.deep_view()),
{
    if a.len() != b.len() {
        proof {
            assert(a.deep_view().len() == a@.len());
            assert(b.deep_view().len() == b@.len());
        }
        return false;
    }
    let n = a.len();
    let mut i: usize = 0;
    while i < n
        invariant
            n == a@.len() == b@.len(),
            i <= n,
            forall|j: int| 0 <= j < i ==> a@[j] == b@[j],
        decreases n - i,
    {
        if !(a[i] == b[i]) {
            proof {
                assert(a.deep_view()[i as int] == a@[i as int]);
                assert(b.deep_view()[i as int] == b@[i as int]);
            }
            return false;
        }
        i = i + 1;
    }
    proof {
        assert(a.deep_view() =~= b.deep_view());
    }
    true
}

fn eq_attributes(a: &Vec<VertexAttribute>, b: &Vec<VertexAttribute>) -> (r: bool)
    ensures
        r == (a.deep_view() == b.deep_view()),
{
    if a.len() != b.len() {
        proof {
            assert(a.deep_view().len() == a@.len());
            assert(b.deep_view().len() == b@.len());
        }
        return false;
    }
    let n = a.len();
    let mut i: usize = 0;
    while i < n
        invariant
            n == a@.len() == b@.len(),
            i <= n,
            forall|j: int| 0 <= j < i ==> a@[j] == b@[j],
        decreases n - i,
    {
        if !(a[i] == b[i]) {
            proof {
                assert(a.deep_view()[i as int] == a@[i as int]);
                assert(b.deep_view()[i as int] == b@[i as int]);
            }
            return false;
        }
        i = i + 1;
    }
    proof {
        assert(a.deep_view() =~= b.deep_view());
    }
    true
}

fn eq_vertex_buffer_layout(a: &VertexBufferLayout, b: &VertexBufferLayout) -> (r: bool)
    ensures
        r == (a.deep_view() == b.deep_view()),
{
    a.array_stride == b.array_stride && a.step_mode == b.step_mode && eq_attributes(
        &a.attributes,
        &b.attributes,
    )
}

fn eq_buffers(a: &Vec<VertexBufferLayout>, b: &Vec<VertexBufferLayout>) -> (r: bool)
    ensures
        r == (a.deep_view() == b.deep_view()),
{
    if a.len() != b.len() {
        proof {
            assert(a.deep_view().len() == a@.len());
            assert(b.deep_view().len() == b@.len());
        }
        return false;
    }
    let n = a.len();
    let mut i: usize = 0;
    while i < n
        invariant
            n == a@.len() == b@.len(),
            i <= n,
            forall|j: int| 0 <= j < i ==> a@[j].deep_view() == b@[j].deep_view(),
        decreases n - i,
    {
        if !eq_vertex_buffer_layout(&a[i], &b[i]) {
            proof {
                assert(a.deep_view()[i as int] == a@[i as int].deep_view());
                assert(b.deep_view()[i as int] == b@[i as int].deep_view());
            }
            return false;
        }
        i = i + 1;
    }
    proof {
        assert(a.deep_view() =~= b.deep_view());
    }
    true
}

fn eq_targets(a: &Vec<Option<ColorTargetState>>, b: &Vec<Option<ColorTargetState>>) -> (r: bool)
    ensures
        r == (a.deep_view() == b.deep_view()),
{
    if a.len() != b.len() {
        proof {
            assert(a.deep_view().len() == a@.len());
            assert(b.deep_view().len() == b@.len());
        }
        return false;
    }
    let n = a.len();
    let mut i: usize = 0;
    while i < n
        invariant
            n == a@.len() == b@.len(),
            i <= n,
            forall|j: int| 0 <= j < i ==> a@[j] == b@[j],
        decreases n - i,
    {
        let same = match &a[i] {
            Some(x) => match &b[i] {
                Some(y) => *x == *y,
                None => false,
            },
            None => match &b[i] {
                Some(_) => false,
                None => true,
            },
        };
        if !same {
            proof {
                assert(a.deep_view()[i as int] == a@[i as int].deep_view());
                assert(b.deep_view()[i as int] == b@[i as int].deep_view());
            }
            return false;
        }
        i = i + 1;
    }
    proof {
        assert(a.deep_view() =~= b.deep_view());
    }
    true
}

fn eq_vertex_state(a: &VertexState, b: &VertexState) -> (r: bool)
    ensures
        r == (a.deep_view() == b.deep_view()),
{
    a.entry_point == b.entry_point && eq_buffers(&a.buffers, &b.buffers)
}

fn eq_fragment(a: &Option<FragmentState>, b: &Option<FragmentState>) -> (r: bool)
    ensures
        r == (a.deep_view() == b.deep_view()),
{
    match a {
        Some(x) => match b {
            Some(y) => x.entry_point == y.entry_point && eq_targets(&x.targets, &y.targets),
            None => false,
        },
        None => match b {
            Some(_) => false,
            None => true,
        },
    }
}

fn eq_depth_stencil(a: &Option<DepthStencilState>, b: &Option<DepthStencilState>) -> (r: bool)
    ensures
        r == (a == b),
{
    match a {
        Some(x) => match b {
            Some(y) => *x == *y,
            None => false,
        },
        None => match b {
            Some(_) => false,
            None => true,
        },
    }
}

fn eq_multiview(a: &Option<u32>, b: &Option<u32>) -> (r: bool)
    ensures
        r == (a == b),
{
    match a {
        Some(x) => match b {
            Some(y) => *x == *y,
            None => false,
        },
        None => match b {
            Some(_) => false,
            None => true,
        },
    }
}

/// A pipeline configuration record that can be compared by full field
/// content, the way the arena's dedup cache compares requests.
pub trait DescriptorValue: DeepView + Sized {
    /// Structural equality: true exactly when the two records carry the
    /// same mathematical value, label included.
    fn equals(&self, other: &Self) -> (r: bool)
        ensures
            r == (self.deep_view() == other.deep_view()),
    ;
}

impl DescriptorValue for RenderPipelineDescriptor {
    fn equals(&self, other: &Self) -> (r: bool) {
        eq_label(&self.label, &other.label) && eq_layout_ids(&self.layout, &other.layout)
            && eq_push_constant_ranges(&self.push_constant_ranges, &other.push_constant_ranges)
            && eq_vertex_state(&self.vertex, &other.vertex) && self.primitive == other.primitive
            && eq_depth_stencil(&self.depth_stencil, &other.depth_stencil) && self.multisample
            == other.multisample && eq_fragment(&self.fragment, &other.fragment) && eq_multiview(
            &self.multiview,
            &other.multiview,
        )
    }
}

impl DescriptorValue for ComputePipelineDescriptor {
    fn equals(&self, other: &Self) -> (r: bool) {
        eq_label(&self.label, &other.label) && eq_layout_ids(&self.layout, &other.layout)
            && eq_push_constant_ranges(&self.push_constant_ranges, &other.push_constant_ranges)
            && self.entry_point == other.entry_point
    }
}

impl ComputePipelineDescriptor {
    /// True when materialization must create an explicit pipeline layout:
    /// the descriptor names bind group layouts or push constant ranges.
    /// Without either, the backend derives the layout from the shader.
    pub fn needs_explicit_layout(&self) -> (r: bool)
        ensures
            r == (self.layout@.len() > 0 || self.push_constant_ranges@.len() > 0),
    {
        self.layout.len() > 0 || self.push_constant_ranges.len() > 0
    }
}

impl RenderPipelineDescriptor {
    /// True when materialization must create an explicit pipeline layout:
    /// the descriptor names bind group layouts or push constant ranges.
    /// Without either, the backend derives the layout from the shader.
    pub fn needs_explicit_layout(&self) -> (r: bool)
        ensures
            r == (self.layout@.len() > 0 || self.push_constant_ranges@.len() > 0),
    {
        self.layout.len() > 0 || self.push_constant_ranges.len() > 0
    }

    /// Human-readable name of the pipeline: the label when one is set, and
    /// a generic fallback otherwise.
    pub fn name(&self) -> (r: &str)
        ensures
            match self.label {
                Some(l) => r@ == l@,
                None => r@ == "Render Pipeline"@,
            },
    {
        match &self.label {
            Some(l) => l.as_str(),
            None => "Render Pipeline",
        }
    }
}

} // verus!
