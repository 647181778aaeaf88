//! The terrain renderer's decisions: which pipeline variant a setting selects, the geometry and
//! tables it uploads, how the scatter variant follows the screen size, and the commands each
//! frame records. The GPU objects themselves are made and driven by the host.
use crate::level::{TerrainConfig, NUM_TERRAINS};
use vstd::prelude::*;

verus! {

/// Threads per scatter work group, along x.
pub const SCATTER_GROUP_WIDTH: u32 = 16;

/// Threads per scatter work group, along y.
pub const SCATTER_GROUP_HEIGHT: u32 = 16;

/// Work groups of the scatter pass. Fixed for now: how it should follow the level's
/// dimensions is not settled.
pub const SCATTER_DISPATCH: [u32; 3] = [100, 100, 1];

/// Instances of the slab quad drawn by the sliced variant, one per height level.
pub const SLICE_INSTANCES: u32 = 0x100;

/// Vertices of the full-screen strip of the scatter copy pass.
pub const COPY_VERTICES: u32 = 4;

/// A texture or screen size.
#[derive(Clone, Copy, Debug, PartialEq, Eq)]
pub struct Extent {
    pub width: u32,
    pub height: u32,
    pub depth: u32,
}

/// Per-frame terrain constants: the screen size.
#[derive(Clone, Copy, Debug, PartialEq, Eq)]
pub struct Constants {
    pub scr_size: [u32; 4],
}

impl Constants {
    /// The constants of a screen of size `extent`.
    pub fn new(extent: &Extent) -> (r: Constants)
        ensures
            r.scr_size == [extent.width, extent.height, 0u32, 0u32],
    {
        Constants { scr_size: [extent.width, extent.height, 0, 0] }
    }
}

/// How the terrain is to be drawn, as configured.
#[derive(Clone, Copy, Debug, PartialEq, Eq)]
pub enum TerrainSettings {
    RayTracedOld,
    RayTraced,
    Tessellated,
    Sliced,
    Scattered,
}

/// Why a terrain renderer could not be made.
#[derive(Clone, Copy, Debug, PartialEq, Eq)]
pub enum RenderError {
    /// The configured kind of terrain rendering has no implementation.
    Unimplemented { kind: TerrainSettings },
}

/// The pipeline variant in use, with the state that its frames depend on.
#[derive(Clone, Copy, Debug, PartialEq, Eq)]
pub enum Kind {
    /// Ray casting from a fan of four triangles.
    Ray { num_indices: usize },
    /// A quad drawn once per horizontal slab.
    Slice { num_indices: usize },
    /// Compute passes into a storage texture of the screen's size, then a copy to the screen.
    Scatter { storage_extent: Extent, compute_groups: [u32; 3] },
}

/// A pipeline of the terrain renderer.
#[derive(Clone, Copy, Debug, PartialEq, Eq)]
pub enum Pipeline {
    Ray,
    Slice,
    ScatterClear,
    Scatter,
    ScatterCopy,
}

/// A bind group that a pass uses.
#[derive(Clone, Copy, Debug, PartialEq, Eq)]
pub enum BindGroup {
    /// Camera and light constants, shared with the other renderers.
    Global,
    /// The terrain's textures, samplers and constants.
    Terrain,
    /// The scatter variant's storage texture.
    Scatter,
}

/// One command that a frame records.
#[derive(Clone, Copy, Debug, PartialEq, Eq)]
pub enum Command {
    SetPipeline(Pipeline),
    SetBindGroup { index: u32, group: BindGroup },
    Dispatch([u32; 3]),
    /// Binds the variant's index and vertex buffers.
    SetGeometry,
    DrawIndexed { num_indices: u32, num_instances: u32 },
    Draw { num_vertices: u32, num_instances: u32 },
}

/// One binding of the terrain's bind group.
#[derive(Clone, Copy, Debug, PartialEq, Eq)]
pub enum TerrainBinding {
    SurfaceUniforms,
    FrameUniforms,
    HeightMap,
    MetaMap,
    FloodMap,
    TableMap,
    PaletteMap,
    MainSampler,
    FloodSampler,
    TableSampler,
}

/// A vertex of the terrain's proxy geometry.
#[derive(Clone, Copy, Debug, PartialEq, Eq)]
pub struct Vertex {
    pub pos: [i8; 4],
}

/// `n` split into groups of `g`, the last one possibly partial.
pub open spec fn groups_of(n: u32, g: u32) -> u32 {
    (n / g + if n % g > 0 { 1u32 } else { 0u32 }) as u32
}

/// The scatter work groups that cover a screen of size `extent`.
pub open spec fn group_count(extent: Extent) -> [u32; 3] {
    [groups_of(extent.width, SCATTER_GROUP_WIDTH), groups_of(extent.height, SCATTER_GROUP_HEIGHT), 1u32]
}

/// Work groups that cover a screen of size `extent`: its width and height divided by the
/// group size, rounded up.
pub fn scatter_group_count(extent: &Extent) -> (r: [u32; 3])
    ensures
        r == group_count(*extent),
{
    let w = extent.width / SCATTER_GROUP_WIDTH + if extent.width % SCATTER_GROUP_WIDTH > 0 {
        1
    } else {
        0
    };
    let h = extent.height / SCATTER_GROUP_HEIGHT + if extent.height % SCATTER_GROUP_HEIGHT > 0 {
        1
    } else {
        0
    };
    [w, h, 1]
}

/// The fan of the ray-cast variant: an apex and four directions around it.
pub open spec fn ray_vertices() -> Seq<Vertex> {
    seq![
        Vertex { pos: [0i8, 0i8, 0i8, 1i8] },
        Vertex { pos: [-1i8, 0i8, 0i8, 0i8] },
        Vertex { pos: [0i8, -1i8, 0i8, 0i8] },
        Vertex { pos: [1i8, 0i8, 0i8, 0i8] },
        Vertex { pos: [0i8, 1i8, 0i8, 0i8] },
    ]
}

/// The four triangles of the fan.
pub open spec fn ray_indices() -> Seq<u16> {
    seq![0u16, 1, 2, 0, 2, 3, 0, 3, 4, 0, 4, 1]
}

/// The unit quad of the sliced variant.
pub open spec fn slice_vertices() -> Seq<Vertex> {
    seq![
        Vertex { pos: [-1i8, -1i8, 0i8, 1i8] },
        Vertex { pos: [1i8, -1i8, 0i8, 1i8] },
        Vertex { pos: [1i8, 1i8, 0i8, 1i8] },
        Vertex { pos: [-1i8, 1i8, 0i8, 1i8] },
    ]
}

/// The two triangles of the quad.
pub open spec fn slice_indices() -> Seq<u16> {
    seq![0u16, 1, 2, 0, 2, 3]
}

/// The vertices and indices of the ray-cast fan.
pub fn ray_geometry() -> (r: (Vec<Vertex>, Vec<u16>))
    ensures
        r.0@ == ray_vertices(),
        r.1@ == ray_indices(),
{
    let v = vec![
        Vertex { pos: [0, 0, 0, 1] },
        Vertex { pos: [-1, 0, 0, 0] },
        Vertex { pos: [0, -1, 0, 0] },
        Vertex { pos: [1, 0, 0, 0] },
        Vertex { pos: [0, 1, 0, 0] },
    ];
    let i = vec![0u16, 1, 2, 0, 2, 3, 0, 3, 4, 0, 4, 1];
    assert(v@ =~= ray_vertices());
    assert(i@ =~= ray_indices());
    (v, i)
}

/// The vertices and indices of the slab quad.
pub fn slice_geometry() -> (r: (Vec<Vertex>, Vec<u16>))
    ensures
        r.0@ == slice_vertices(),
        r.1@ == slice_indices(),
{
    let v = vec![
        Vertex { pos: [-1, -1, 0, 1] },
        Vertex { pos: [1, -1, 0, 1] },
        Vertex { pos: [1, 1, 0, 1] },
        Vertex { pos: [-1, 1, 0, 1] },
    ];
    let i = vec![0u16, 1, 2, 0, 2, 3];
    assert(v@ =~= slice_vertices());
    assert(i@ =~= slice_indices());
    (v, i)
}

/// The texel of a terrain in the table texture: shadow offset, height shift, first and end
/// palette index.
pub open spec fn table_texel(t: TerrainConfig) -> [u8; 4] {
    [t.shadow_offset, t.height_shift, t.color_range.0, t.color_range.1]
}

/// The table texture: one texel per terrain.
pub fn terrain_table(terrains: &[TerrainConfig; NUM_TERRAINS]) -> (r: Vec<[u8; 4]>)
    ensures
        r@ == terrains@.map_values(|t: TerrainConfig| table_texel(t)),
{
    let mut out: Vec<[u8; 4]> = Vec::new();
    let mut i: usize = 0;
    while i < NUM_TERRAINS
        invariant
            i <= NUM_TERRAINS,
            terrains@.len() == NUM_TERRAINS,
            out@ == terrains@.subrange(0, i as int).map_values(|t: TerrainConfig| table_texel(t)),
        decreases NUM_TERRAINS - i,
    {
        let t = terrains[i];
        out.push([t.shadow_offset, t.height_shift, t.color_range.0, t.color_range.1]);
        i = i + 1;
        assert(out@ =~= terrains@.subrange(0, i as int).map_values(
            |t: TerrainConfig| table_texel(t),
        ));
    }
    assert(terrains@.subrange(0, NUM_TERRAINS as int) =~= terrains@);
    out
}

/// The bindings of the terrain's bind group, in binding order.
pub open spec fn terrain_bindings() -> Seq<TerrainBinding> {
    seq![
        TerrainBinding::SurfaceUniforms,
        TerrainBinding::FrameUniforms,
        TerrainBinding::HeightMap,
        TerrainBinding::MetaMap,
        TerrainBinding::FloodMap,
        TerrainBinding::TableMap,
        TerrainBinding::PaletteMap,
        TerrainBinding::MainSampler,
        TerrainBinding::FloodSampler,
        TerrainBinding::TableSampler,
    ]
}

/// The layout of the terrain's bind group: two uniform buffers, five textures and three
/// samplers.
pub fn terrain_layout() -> (r: Vec<TerrainBinding>)
    ensures
        r@ == terrain_bindings(),
{
    let r = vec![
        TerrainBinding::SurfaceUniforms,
        TerrainBinding::FrameUniforms,
        TerrainBinding::HeightMap,
        TerrainBinding::MetaMap,
        TerrainBinding::FloodMap,
        TerrainBinding::TableMap,
        TerrainBinding::PaletteMap,
        TerrainBinding::MainSampler,
        TerrainBinding::FloodSampler,
        TerrainBinding::TableSampler,
    ];
    assert(r@ =~= terrain_bindings());
    r
}

/// The variant that a setting selects, for a screen of size `screen`.
pub open spec fn kind_for(settings: TerrainSettings, screen: Extent) -> Result<Kind, RenderError> {
    match settings {
        TerrainSettings::RayTracedOld => Ok(Kind::Ray { num_indices: ray_indices().len() as usize }),
        TerrainSettings::Sliced => Ok(Kind::Slice { num_indices: slice_indices().len() as usize }),
        TerrainSettings::Scattered => Ok(
            Kind::Scatter { storage_extent: screen, compute_groups: group_count(screen) },
        ),
        _ => Err(RenderError::Unimplemented { kind: settings }),
    }
}

/// The compute commands that a frame records before drawing: for the scatter variant, clear
/// the storage texture over the screen's groups, then scatter; nothing for the others.
pub open spec fn prepare_commands(kind: Kind) -> Seq<Command> {
    match kind {
        Kind::Scatter { compute_groups, .. } => seq![
            Command::SetBindGroup { index: 0, group: BindGroup::Global },
            Command::SetBindGroup { index: 1, group: BindGroup::Terrain },
            Command::SetBindGroup { index: 2, group: BindGroup::Scatter },
            Command::SetPipeline(Pipeline::ScatterClear),
            Command::Dispatch(compute_groups),
            Command::SetPipeline(Pipeline::Scatter),
            Command::Dispatch(SCATTER_DISPATCH),
        ],
        _ => Seq::empty(),
    }
}

/// The commands that draw the terrain in a render pass.
pub open spec fn draw_commands(kind: Kind) -> Seq<Command> {
    seq![Command::SetBindGroup { index: 1, group: BindGroup::Terrain }] + match kind {
        Kind::Ray { num_indices } => seq![
            Command::SetPipeline(Pipeline::Ray),
            Command::SetGeometry,
            Command::DrawIndexed { num_indices: num_indices as u32, num_instances: 1 },
        ],
        Kind::Slice { num_indices } => seq![
            Command::SetPipeline(Pipeline::Slice),
            Command::SetGeometry,
            Command::DrawIndexed { num_indices: num_indices as u32, num_instances: SLICE_INSTANCES },
        ],
        Kind::Scatter { .. } => seq![
            Command::SetPipeline(Pipeline::ScatterCopy),
            Command::SetBindGroup { index: 2, group: BindGroup::Scatter },
            Command::Draw { num_vertices: COPY_VERTICES, num_instances: 1 },
        ],
    }
}

/// The pipelines of a variant, which a reload builds anew.
pub open spec fn pipelines_of(kind: Kind) -> Seq<Pipeline> {
    match kind {
        Kind::Ray { .. } => seq![Pipeline::Ray],
        Kind::Slice { .. } => seq![Pipeline::Slice],
        Kind::Scatter { .. } => seq![Pipeline::Scatter, Pipeline::ScatterClear, Pipeline::ScatterCopy],
    }
}

/// The terrain renderer's state: the variant in use.
pub struct Context {
    pub kind: Kind,
}

impl Context {
    /// The renderer for `settings` on a screen of size `screen`; the ray-traced and tessellated
    /// settings have no implementation.
    pub fn new(settings: TerrainSettings, screen: &Extent) -> (r: Result<Context, RenderError>)
        ensures
            match r {
                Ok(c) => kind_for(settings, *screen) == Ok::<Kind, RenderError>(c.kind),
                Err(e) => kind_for(settings, *screen) == Err::<Kind, RenderError>(e),
            },
    {
        match settings {
            TerrainSettings::RayTracedOld => {
                let (_, indices) = ray_geometry();
                Ok(Context { kind: Kind::Ray { num_indices: indices.len() } })
            },
            TerrainSettings::Sliced => {
                let (_, indices) = slice_geometry();
                Ok(Context { kind: Kind::Slice { num_indices: indices.len() } })
            },
            TerrainSettings::Scattered => {
                let compute_groups = scatter_group_count(screen);
                Ok(Context { kind: Kind::Scatter { storage_extent: *screen, compute_groups } })
            },
            _ => Err(RenderError::Unimplemented { kind: settings }),
        }
    }

    /// The pipelines to build anew on a reload; buffers and bind groups stay.
    pub fn reload(&self) -> (r: Vec<Pipeline>)
        ensures
            r@ == pipelines_of(self.kind),
    {
        let r = match self.kind {
            Kind::Ray { .. } => vec![Pipeline::Ray],
            Kind::Slice { .. } => vec![Pipeline::Slice],
            Kind::Scatter { .. } => vec![Pipeline::Scatter, Pipeline::ScatterClear, Pipeline::ScatterCopy],
        };
        assert(r@ =~= pipelines_of(self.kind));
        r
    }

    /// Follows a new screen size: the scatter variant takes a storage texture of that size
    /// and the groups that cover it; the others draw in clip space and stay as they are.
    pub fn resize(&mut self, extent: Extent)
        ensures
            match old(self).kind {
                Kind::Scatter { .. } => final(self).kind == Kind::Scatter {
                    storage_extent: extent,
                    compute_groups: group_count(extent),
                },
                _ => *final(self) == *old(self),
            },
    {
        if let Kind::Scatter { .. } = self.kind {
            let compute_groups = scatter_group_count(&extent);
            self.kind = Kind::Scatter { storage_extent: extent, compute_groups };
        }
    }

    /// The compute commands of a frame, to record before `draw`; none but for the scatter
    /// variant.
    pub fn prepare(&self) -> (r: Vec<Command>)
        ensures
            r@ == prepare_commands(self.kind),
            !(self.kind is Scatter) ==> r@.len() == 0,
    {
        match self.kind {
            Kind::Scatter { compute_groups, .. } => {
                let r = vec![
                    Command::SetBindGroup { index: 0, group: BindGroup::Global },
                    Command::SetBindGroup { index: 1, group: BindGroup::Terrain },
                    Command::SetBindGroup { index: 2, group: BindGroup::Scatter },
                    Command::SetPipeline(Pipeline::ScatterClear),
                    Command::Dispatch(compute_groups),
                    Command::SetPipeline(Pipeline::Scatter),
                    Command::Dispatch(SCATTER_DISPATCH),
                ];
                assert(r@ =~= prepare_commands(self.kind));
                r
            },
            _ => Vec::new(),
        }
    }

    /// The commands that draw the terrain.
    pub fn draw(&self) -> (r: Vec<Command>)
        requires
            match self.kind {
                Kind::Ray { num_indices } => num_indices <= u32::MAX,
                Kind::Slice { num_indices } => num_indices <= u32::MAX,
                Kind::Scatter { .. } => true,
            },
        ensures
            r@ == draw_commands(self.kind),
    {
        let mut r = vec![Command::SetBindGroup { index: 1, group: BindGroup::Terrain }];
        match self.kind {
            Kind::Ray { num_indices } => {
                r.push(Command::SetPipeline(Pipeline::Ray));
                r.push(Command::SetGeometry);
                r.push(Command::DrawIndexed { num_indices: num_indices as u32, num_instances: 1 });
            },
            Kind::Slice { num_indices } => {
                r.push(Command::SetPipeline(Pipeline::Slice));
                r.push(Command::SetGeometry);
                r.push(
                    Command::DrawIndexed {
                        num_indices: num_indices as u32,
                        num_instances: SLICE_INSTANCES,
                    },
                );
            },
            Kind::Scatter { .. } => {
                r.push(Command::SetPipeline(Pipeline::ScatterCopy));
                r.push(Command::SetBindGroup { index: 2, group: BindGroup::Scatter });
                r.push(Command::Draw { num_vertices: COPY_VERTICES, num_instances: 1 });
            },
        }
        assert(r@ =~= draw_commands(self.kind));
        r
    }
}

} // verus!
