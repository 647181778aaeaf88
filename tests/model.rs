use vangers::compact::{compact, sort_corners, VertexKey};
use vangers::model::{
    filter_slots, load_c3d, load_c3d_shape, load_m3d, DebugVertex, ModelError, Slot, Tessellator,
    COLOR_ID_BODY,
};

struct Poly {
    corners: u32,
    color: [u32; 2],
    normal: [i8; 3],
    middle: [i8; 3],
    ids: Vec<(u32, u32)>,
}

fn u32s(out: &mut Vec<u8>, vs: &[u32]) {
    for v in vs {
        out.extend_from_slice(&v.to_le_bytes());
    }
}

fn i32s(out: &mut Vec<u8>, vs: &[i32]) {
    for v in vs {
        out.extend_from_slice(&v.to_le_bytes());
    }
}

fn c3d_version(version: u32, positions: &[[i8; 3]], normals: &[[u8; 4]], polys: &[Poly]) -> Vec<u8> {
    let mut out = Vec::new();
    u32s(&mut out, &[version, positions.len() as u32, normals.len() as u32, polys.len() as u32, 0]);
    i32s(&mut out, &[10, 20, 30]);
    i32s(&mut out, &[-10, -20, -30]);
    i32s(&mut out, &[1, 2, 3]);
    u32s(&mut out, &[42]);
    i32s(&mut out, &[0, 0, 0]);
    for k in 0..13u64 {
        out.extend_from_slice(&(1.5f64 + k as f64).to_bits().to_le_bytes());
    }
    for p in positions {
        i32s(&mut out, &[7, 7, 7]);
        out.extend_from_slice(&[p[0] as u8, p[1] as u8, p[2] as u8]);
        u32s(&mut out, &[0]);
    }
    for n in normals {
        out.extend_from_slice(n);
        u32s(&mut out, &[0]);
    }
    for p in polys {
        u32s(&mut out, &[p.corners, 0, p.color[0], p.color[1]]);
        out.extend_from_slice(&[p.normal[0] as u8, p.normal[1] as u8, p.normal[2] as u8, 0]);
        out.extend_from_slice(&[p.middle[0] as u8, p.middle[1] as u8, p.middle[2] as u8]);
        for (pid, nid) in &p.ids {
            u32s(&mut out, &[*pid, *nid]);
        }
    }
    for _ in 0..3 * polys.len() {
        u32s(&mut out, &[0]);
    }
    out
}

fn c3d(positions: &[[i8; 3]], normals: &[[u8; 4]], polys: &[Poly]) -> Vec<u8> {
    c3d_version(8, positions, normals, polys)
}

fn tri(color: u32, ids: [(u32, u32); 3]) -> Poly {
    Poly { corners: 3, color: [color, 0], normal: [0, 0, 127], middle: [0, 0, 0], ids: ids.to_vec() }
}

fn empty_c3d() -> Vec<u8> {
    c3d(&[], &[], &[])
}

fn key(x: i8, c: u32) -> VertexKey {
    VertexKey { pos: [x, 0, 0, 1], normal: [0, 0, 0, 0], color: [c, 0] }
}

#[test]
fn tessellator_scenario() {
    let corners = [
        DebugVertex { pos: [10, 0, 0, 1] },
        DebugVertex { pos: [0, 10, 0, 1] },
        DebugVertex { pos: [-10, 0, 0, 1] },
        DebugVertex { pos: [0, -10, 0, 1] },
    ];
    let mut tess = Tessellator::new();
    let samples = tess.tessellate(&corners, [0, 0, 0]).to_vec();
    assert_eq!(samples, vec![[0, 0, 0], [5, 0, 0], [0, 5, 0], [-5, 0, 0], [0, -5, 0]]);
}

#[test]
fn tessellator_rounds_down() {
    let corners = [
        DebugVertex { pos: [1, -1, 127, 1] },
        DebugVertex { pos: [-128, -128, 0, 1] },
        DebugVertex { pos: [2, 3, -3, 1] },
    ];
    let mut tess = Tessellator::new();
    let samples = tess.tessellate(&corners, [1, 0, 127]).to_vec();
    assert_eq!(samples, vec![[1, 0, 127], [1, -1, 127], [-64, -64, 63], [1, 1, 62]]);
}

#[test]
fn sort_twice_keeps_order() {
    let mut v = vec![(0, key(3, 0)), (1, key(1, 0)), (2, key(3, 0)), (3, key(-2, 5)), (4, key(1, 0))];
    sort_corners(&mut v);
    let order: Vec<usize> = v.iter().map(|c| c.0).collect();
    assert_eq!(order, vec![3, 1, 4, 0, 2]);
    let once = v.clone();
    sort_corners(&mut v);
    assert_eq!(v, once);
}

#[test]
fn compaction_shares_equal_keys() {
    let keys = vec![key(3, 0), key(1, 0), key(3, 0), key(1, 1)];
    let (verts, idx) = compact(&keys);
    assert_eq!(verts, vec![key(1, 0), key(1, 1), key(3, 0)]);
    assert_eq!(idx, vec![2, 0, 2, 1]);
    assert_eq!(compact(&keys), (verts, idx));
    assert_eq!(compact(&vec![]), (vec![], vec![]));
}

#[test]
fn mesh_compacts_and_maps_colors() {
    let positions = [[1, 2, 3], [4, 5, 6], [7, 8, 9], [-1, -2, -3]];
    let normals = [[0, 0, 127, 0], [0x80, 0, 0, 1]];
    let polys = [
        tri(3, [(0, 0), (1, 0), (2, 0)]),
        tri(30, [(2, 1), (1, 0), (3, 0)]),
    ];
    let data = c3d(&positions, &normals, &polys);
    let mut pos = 0;
    let mesh = load_c3d(&data, &mut pos).ok().unwrap();
    assert_eq!(pos, data.len());
    assert_eq!(mesh.indices.len(), 6);
    assert_eq!(mesh.vertices.len(), 6);
    assert_eq!(mesh.vertices[0].pos, [-1, -2, -3, 1]);
    assert_eq!(mesh.vertices[0].color, COLOR_ID_BODY);
    for (c, i) in mesh.indices.iter().enumerate() {
        let expect_color = if c < 3 { 3 } else { COLOR_ID_BODY };
        assert_eq!(mesh.vertices[*i].color, expect_color);
    }
    assert_eq!(mesh.vertices[mesh.indices[3]].normal, [-128, 0, 0, 1]);
    assert_eq!(mesh.offset, [1, 2, 3]);
    assert_eq!(mesh.bbox, ([-10, -20, -30], [10, 20, 30], 42));
    assert_eq!(f64::from_bits(mesh.physics.volume), 1.5);
    assert_eq!(f64::from_bits(mesh.physics.jacobi[2][2]), 13.5);
}

#[test]
fn mesh_shares_repeated_corners() {
    let positions = [[1, 2, 3], [4, 5, 6], [7, 8, 9]];
    let normals = [[0, 0, 127, 0]];
    let polys = [tri(2, [(0, 0), (1, 0), (2, 0)]), tri(2, [(2, 0), (1, 0), (0, 0)])];
    let data = c3d(&positions, &normals, &polys);
    let mut pos = 0;
    let mesh = load_c3d(&data, &mut pos).ok().unwrap();
    assert_eq!(mesh.vertices.len(), 3);
    assert_eq!(mesh.indices, vec![0, 1, 2, 2, 1, 0]);
}

#[test]
fn mesh_of_wrong_version() {
    let data = c3d_version(7, &[], &[], &[]);
    let mut pos = 0;
    assert_eq!(load_c3d(&data, &mut pos).err(), Some(ModelError::UnsupportedVersion { got: 7 }));
}

#[test]
fn mesh_rejects_quads() {
    let quad = Poly { corners: 4, color: [0, 0], normal: [0; 3], middle: [0; 3], ids: vec![(0, 0); 4] };
    let data = c3d(&[[0, 0, 0]], &[[0; 4]], &[quad]);
    let mut pos = 0;
    assert_eq!(load_c3d(&data, &mut pos).err(), Some(ModelError::InvalidPolygon { corners: 4 }));
}

#[test]
fn mesh_rejects_missing_position() {
    let data = c3d(&[[0, 0, 0]], &[[0; 4]], &[tri(0, [(0, 0), (5, 0), (0, 0)])]);
    let mut pos = 0;
    assert_eq!(load_c3d(&data, &mut pos).err(), Some(ModelError::InvalidIndex { index: 5 }));
}

#[test]
fn mesh_truncated() {
    let data = c3d(&[[0, 0, 0]], &[[0; 4]], &[tri(0, [(0, 0), (0, 0), (0, 0)])]);
    let mut pos = 0;
    assert_eq!(
        load_c3d(&data[..data.len() - 1], &mut pos).err(),
        Some(ModelError::UnexpectedEndOfStream)
    );
    assert_eq!(load_c3d(&data[..2], &mut pos).err(), Some(ModelError::UnexpectedEndOfStream));
}

#[test]
fn shape_samples_per_polygon() {
    let positions = [[10, 0, 0], [0, 10, 0], [-10, 0, 0], [0, -10, 0]];
    let polys = [
        Poly { corners: 4, color: [0, 0], normal: [0, 0, 64], middle: [0, 0, 0], ids: vec![(0, 0), (1, 0), (2, 0), (3, 0)] },
        Poly { corners: 3, color: [0, 0], normal: [64, 0, 0], middle: [2, 2, 2], ids: vec![(0, 0), (1, 0), (2, 0)] },
    ];
    let data = c3d(&positions, &[[0; 4]], &polys);
    let mut pos = 0;
    let shape = load_c3d_shape(&data, &mut pos, true).ok().unwrap();
    assert_eq!(pos, data.len());
    assert_eq!(shape.polygons.len(), 2);
    assert_eq!(shape.polygons[0].sample_range, (0, 5));
    assert_eq!(shape.polygons[1].sample_range, (5, 9));
    assert_eq!(shape.polygons[0].normal, [0, 0, 64]);
    assert_eq!(shape.polygons[1].middle, [2, 2, 2]);
    assert_eq!(shape.samples[..5].to_vec(), vec![[0, 0, 0], [5, 0, 0], [0, 5, 0], [-5, 0, 0], [0, -5, 0]]);
    assert_eq!(shape.samples[6], [6, 1, 1]);
    assert_eq!(shape.samples[7], [1, 6, 1]);
    let debug = shape.debug.unwrap();
    assert_eq!(debug.bound_vb.len(), 4);
    assert_eq!(debug.bound_indices, vec![0, 1, 1, 2, 2, 3, 3, 0, 0, 1, 1, 2, 2, 0]);
    assert_eq!(debug.sample_vb.len(), 9);
    assert_eq!(debug.sample_vb[1].pos, [5, 0, 0, 1]);
}

#[test]
fn shape_without_debug_view() {
    let data = c3d(&[[1, 1, 1]], &[], &[Poly { corners: 3, color: [0, 0], normal: [0; 3], middle: [0; 3], ids: vec![(0, 9); 3] }]);
    let mut pos = 0;
    let shape = load_c3d_shape(&data, &mut pos, false).ok().unwrap();
    assert!(shape.debug.is_none());
    assert_eq!(shape.polygons[0].sample_range, (0, 4));
}

#[test]
fn shape_rejects_pentagon() {
    let poly = Poly { corners: 5, color: [0, 0], normal: [0; 3], middle: [0; 3], ids: vec![(0, 0); 5] };
    let data = c3d(&[[0, 0, 0]], &[], &[poly]);
    let mut pos = 0;
    assert_eq!(load_c3d_shape(&data, &mut pos, true).err(), Some(ModelError::InvalidPolygon { corners: 5 }));
}

#[test]
fn shape_rejects_missing_position() {
    let poly = Poly { corners: 3, color: [0, 0], normal: [0; 3], middle: [0; 3], ids: vec![(0, 0), (0, 0), (1, 0)] };
    let data = c3d(&[[0, 0, 0]], &[], &[poly]);
    let mut pos = 0;
    assert_eq!(load_c3d_shape(&data, &mut pos, true).err(), Some(ModelError::InvalidIndex { index: 1 }));
}

fn m3d_head(out: &mut Vec<u8>, wheels: u32, debris: u32) {
    out.extend_from_slice(&empty_c3d());
    i32s(out, &[1, 1, 1]);
    u32s(out, &[9, wheels, debris, 11, 12]);
}

fn m3d_tail(out: &mut Vec<u8>, mask: u32) {
    out.extend_from_slice(&empty_c3d());
    u32s(out, &[mask]);
    i32s(out, &[1, 2, 3, 10, 4, 5, 6, 20, 7, 8, 9, 30]);
}

fn wheel(out: &mut Vec<u8>, steer: u32) {
    u32s(out, &[steer]);
    for v in [1.0f64, 2.0, 3.0] {
        out.extend_from_slice(&v.to_bits().to_le_bytes());
    }
    u32s(out, &[5, 6, 0]);
}

#[test]
fn slot_mask_scenario() {
    let mut data = Vec::new();
    m3d_head(&mut data, 0, 0);
    m3d_tail(&mut data, 0b101);
    let mut pos = 0;
    let model = load_m3d(&data, &mut pos).ok().unwrap();
    assert_eq!(pos, data.len());
    assert_eq!(model.color, [11, 12]);
    assert_eq!(model.slots.len(), 2);
    assert_eq!(model.slots[0].pos, [1, 2, 3]);
    assert_eq!(model.slots[0].angle, 10);
    assert_eq!(model.slots[1].pos, [7, 8, 9]);
    assert_eq!(model.slots[1].angle, 30);
    assert!(model.slots[1].mesh.is_none());
}

#[test]
fn slot_filter_counts_bits() {
    let make = || {
        (0..3).map(|k| Slot { mesh: None, pos: [k, k, k], angle: k }).collect::<Vec<_>>()
    };
    assert_eq!(filter_slots(0, make()).len(), 0);
    assert_eq!(filter_slots(0b111, make()).len(), 3);
    assert_eq!(filter_slots(0b1010, make()).len(), 1);
    assert_eq!(filter_slots(0b1010, make())[0].angle, 1);
}

#[test]
fn wheel_without_steer_has_no_mesh() {
    let mut data = Vec::new();
    m3d_head(&mut data, 2, 0);
    wheel(&mut data, 0);
    wheel(&mut data, 1);
    data.extend_from_slice(&empty_c3d());
    m3d_tail(&mut data, 0b010);
    let mut pos = 0;
    let model = load_m3d(&data, &mut pos).ok().unwrap();
    assert_eq!(pos, data.len());
    assert_eq!(model.wheels.len(), 2);
    assert!(model.wheels[0].mesh.is_none());
    assert_eq!(model.wheels[0].steer, 0);
    assert_eq!(model.wheels[0].width, 5);
    assert_eq!(model.wheels[0].radius, 6);
    assert_eq!(f64::from_bits(model.wheels[0].pos[2]), 3.0);
    assert!(model.wheels[1].mesh.is_some());
    assert_eq!(model.slots.len(), 1);
    assert_eq!(model.slots[0].angle, 20);
}

#[test]
fn model_with_debris() {
    let mut data = Vec::new();
    m3d_head(&mut data, 0, 1);
    data.extend_from_slice(&empty_c3d());
    data.extend_from_slice(&empty_c3d());
    m3d_tail(&mut data, 0);
    let mut pos = 0;
    let model = load_m3d(&data, &mut pos).ok().unwrap();
    assert_eq!(model.debris.len(), 1);
    assert!(model.debris[0].shape.debug.is_none());
    assert!(model.shape.debug.is_some());
    assert_eq!(model.slots.len(), 0);
}

#[test]
fn model_missing_slots() {
    let mut data = Vec::new();
    m3d_head(&mut data, 0, 0);
    m3d_tail(&mut data, 1);
    let mut pos = 0;
    assert_eq!(
        load_m3d(&data[..data.len() - 4], &mut pos).err(),
        Some(ModelError::UnexpectedEndOfStream)
    );
}
