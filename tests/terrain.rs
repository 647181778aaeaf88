use vangers::level::{TerrainConfig, NUM_TERRAINS};
use vangers::terrain::{
    ray_geometry, scatter_group_count, slice_geometry, terrain_layout, terrain_table, BindGroup,
    Command, Constants, Context, Extent, Kind, Pipeline, RenderError, TerrainBinding,
    TerrainSettings, SCATTER_DISPATCH,
};

fn screen(width: u32, height: u32) -> Extent {
    Extent { width, height, depth: 1 }
}

#[test]
fn scatter_dispatch_for_full_hd() {
    assert_eq!(scatter_group_count(&screen(1920, 1080)), [120, 68, 1]);
}

#[test]
fn scatter_dispatch_exact_multiple() {
    assert_eq!(scatter_group_count(&screen(32, 16)), [2, 1, 1]);
    assert_eq!(scatter_group_count(&screen(0, 0)), [0, 0, 1]);
    assert_eq!(scatter_group_count(&screen(1, 17)), [1, 2, 1]);
}

#[test]
fn constants_hold_screen_size() {
    assert_eq!(Constants::new(&screen(640, 480)).scr_size, [640, 480, 0, 0]);
}

#[test]
fn unimplemented_kinds_are_refused() {
    assert_eq!(
        Context::new(TerrainSettings::RayTraced, &screen(8, 8)).err(),
        Some(RenderError::Unimplemented { kind: TerrainSettings::RayTraced })
    );
    assert_eq!(
        Context::new(TerrainSettings::Tessellated, &screen(8, 8)).err(),
        Some(RenderError::Unimplemented { kind: TerrainSettings::Tessellated })
    );
}

#[test]
fn prepare_is_empty_without_scatter() {
    let ray = Context::new(TerrainSettings::RayTracedOld, &screen(8, 8)).ok().unwrap();
    let slice = Context::new(TerrainSettings::Sliced, &screen(8, 8)).ok().unwrap();
    assert!(ray.prepare().is_empty());
    assert!(slice.prepare().is_empty());
}

#[test]
fn prepare_dispatches_clear_then_scatter() {
    let ctx = Context::new(TerrainSettings::Scattered, &screen(1920, 1080)).ok().unwrap();
    let cmds = ctx.prepare();
    assert_eq!(cmds.len(), 7);
    assert_eq!(cmds[3], Command::SetPipeline(Pipeline::ScatterClear));
    assert_eq!(cmds[4], Command::Dispatch([120, 68, 1]));
    assert_eq!(cmds[5], Command::SetPipeline(Pipeline::Scatter));
    assert_eq!(cmds[6], Command::Dispatch(SCATTER_DISPATCH));
    assert_eq!(SCATTER_DISPATCH, [100, 100, 1]);
}

#[test]
fn resize_follows_screen_for_scatter() {
    let mut ctx = Context::new(TerrainSettings::Scattered, &screen(16, 16)).ok().unwrap();
    ctx.resize(screen(1920, 1080));
    assert_eq!(
        ctx.kind,
        Kind::Scatter { storage_extent: screen(1920, 1080), compute_groups: [120, 68, 1] }
    );
}

#[test]
fn resize_leaves_other_kinds() {
    let mut ctx = Context::new(TerrainSettings::Sliced, &screen(16, 16)).ok().unwrap();
    ctx.resize(screen(1920, 1080));
    assert_eq!(ctx.kind, Kind::Slice { num_indices: 6 });
}

#[test]
fn draw_commands_per_kind() {
    let slice = Context::new(TerrainSettings::Sliced, &screen(8, 8)).ok().unwrap();
    let cmds = slice.draw();
    assert_eq!(cmds[0], Command::SetBindGroup { index: 1, group: BindGroup::Terrain });
    assert_eq!(cmds[3], Command::DrawIndexed { num_indices: 6, num_instances: 0x100 });
    let ray = Context::new(TerrainSettings::RayTracedOld, &screen(8, 8)).ok().unwrap();
    assert_eq!(ray.draw()[3], Command::DrawIndexed { num_indices: 12, num_instances: 1 });
    let scatter = Context::new(TerrainSettings::Scattered, &screen(8, 8)).ok().unwrap();
    assert_eq!(scatter.draw()[3], Command::Draw { num_vertices: 4, num_instances: 1 });
}

#[test]
fn reload_rebuilds_variant_pipelines() {
    let scatter = Context::new(TerrainSettings::Scattered, &screen(8, 8)).ok().unwrap();
    assert_eq!(
        scatter.reload(),
        vec![Pipeline::Scatter, Pipeline::ScatterClear, Pipeline::ScatterCopy]
    );
    let ray = Context::new(TerrainSettings::RayTracedOld, &screen(8, 8)).ok().unwrap();
    assert_eq!(ray.reload(), vec![Pipeline::Ray]);
}

#[test]
fn proxy_geometry() {
    let (v, i) = ray_geometry();
    assert_eq!(v.len(), 5);
    assert_eq!(v[0].pos, [0, 0, 0, 1]);
    assert_eq!(i, vec![0, 1, 2, 0, 2, 3, 0, 3, 4, 0, 4, 1]);
    let (v, i) = slice_geometry();
    assert_eq!(v[2].pos, [1, 1, 0, 1]);
    assert_eq!(i, vec![0, 1, 2, 0, 2, 3]);
}

#[test]
fn table_texels_follow_terrains() {
    let mut terrains = [TerrainConfig { shadow_offset: 0, height_shift: 0, color_range: (0, 0) };
        NUM_TERRAINS];
    terrains[3] = TerrainConfig { shadow_offset: 4, height_shift: 2, color_range: (16, 32) };
    let table = terrain_table(&terrains);
    assert_eq!(table.len(), 8);
    assert_eq!(table[3], [4, 2, 16, 32]);
    assert_eq!(table[0], [0, 0, 0, 0]);
}

#[test]
fn layout_has_ten_bindings() {
    let layout = terrain_layout();
    assert_eq!(layout.len(), 10);
    assert_eq!(layout[0], TerrainBinding::SurfaceUniforms);
    assert_eq!(layout[9], TerrainBinding::TableSampler);
}
