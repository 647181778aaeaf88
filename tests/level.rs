use vangers::level::{
    decode_flood, decode_vmc, flood_layout, load, read_palette, LevelConfig, LevelError, Power,
    TerrainConfig, NUM_TERRAINS,
};
use vangers::splay::{Splay, SplayError};

fn config(w: i32, h: i32, geo: i32, section: i32) -> LevelConfig {
    LevelConfig {
        name: String::from("test"),
        path_palette: String::from("test.pal"),
        path_vpr: String::from("test.vpr"),
        path_vmc: String::from("test.vmc"),
        is_compressed: true,
        size: (Power(w), Power(h)),
        geo: Power(geo),
        section: Power(section),
        min_square: Power(0),
        terrains: [TerrainConfig { shadow_offset: 1, height_shift: 2, color_range: (3, 4) };
            NUM_TERRAINS],
    }
}

fn push_i32(out: &mut Vec<u8>, v: i32) {
    out.extend_from_slice(&v.to_le_bytes());
}

/// Two trees whose root emits a symbol on either bit: a height of 5 or 7, a meta of 3 or 0.
fn tables() -> Vec<u8> {
    let mut out = Vec::new();
    let mut tree1 = vec![0i32; 512];
    tree1[0] = -5;
    tree1[1] = -7;
    let mut tree2 = vec![0i32; 512];
    tree2[0] = -3;
    tree2[1] = 0;
    for v in tree1.iter().chain(tree2.iter()) {
        push_i32(&mut out, *v);
    }
    out
}

/// A grid stream of a 2 x 2 level whose rows each start where `starts` says.
fn vmc(starts: [i32; 2], rows: &[u8]) -> Vec<u8> {
    let mut out = Vec::new();
    for s in starts.iter() {
        push_i32(&mut out, *s);
        out.extend_from_slice(&0i16.to_le_bytes());
    }
    out.extend_from_slice(&tables());
    out.extend_from_slice(rows);
    out
}

const ROWS_AT: i32 = 12 + 4096;

#[test]
fn flood_offset_scenario() {
    let c = config(10, 10, 2, 5);
    assert_eq!(flood_layout(&c), (131644, 131772));
}

#[test]
fn flood_offset_without_geo() {
    let c = config(1, 1, 0, 0);
    assert_eq!(flood_layout(&c), (52, 60));
}

#[test]
fn flood_map_read_at_offset() {
    let c = config(1, 1, 0, 0);
    let mut vpr = vec![0u8; 52];
    push_i32(&mut vpr, 0x0102_0304);
    push_i32(&mut vpr, 9);
    assert_eq!(decode_flood(&c, &vpr), Ok(vec![0x0102_0304, 9]));
}

#[test]
fn flood_file_of_wrong_size() {
    let c = config(10, 10, 2, 5);
    let vpr = vec![0u8; 100];
    assert_eq!(
        decode_flood(&c, &vpr),
        Err(LevelError::InvalidVprSize { expected: 131772, actual: 100 })
    );
}

#[test]
fn palette_decode_scenario() {
    let mut pal = vec![0u8; 768];
    pal[3] = 0xFF;
    pal[7] = 0xFF;
    let p = read_palette(&pal).ok().unwrap();
    assert_eq!(p[0], [0, 0, 0, 0]);
    assert_eq!(p[1], [255, 0, 0, 0]);
    assert_eq!(p[2], [0, 255, 0, 0]);
    assert_eq!(p[255], [0, 0, 0, 0]);
}

#[test]
fn short_palette() {
    assert_eq!(read_palette(&[0u8; 767]).err(), Some(LevelError::UnexpectedEndOfStream));
}

#[test]
fn splay_symbols_follow_bits() {
    let data = tables();
    let mut pos = 0;
    let splay = Splay::new(&data, &mut pos).ok().unwrap();
    assert_eq!(pos, 4096);
    let stream = [0x80u8, 0x00];
    let mut at = 0;
    let mut out = Vec::new();
    assert_eq!(splay.expand1(&stream, &mut at, &mut out), Ok(()));
    assert_eq!(splay.expand2(&stream, &mut at, &mut out), Ok(()));
    assert_eq!(out, vec![7, 3]);
    assert_eq!(at, 2);
    assert_eq!(splay.expand1(&stream, &mut at, &mut out), Err(SplayError::UnexpectedEndOfStream));
    assert_eq!(at, 2);
}

#[test]
fn splay_walks_inner_nodes() {
    let mut data = Vec::new();
    let mut tree = vec![0i32; 512];
    tree[0] = 1;
    tree[1] = -9;
    tree[2] = -4;
    tree[3] = -6;
    for _ in 0..2 {
        for v in tree.iter() {
            push_i32(&mut data, *v);
        }
    }
    let mut pos = 0;
    let splay = Splay::new(&data, &mut pos).ok().unwrap();
    let mut out = Vec::new();
    let mut at = 0;
    assert_eq!(splay.expand1(&[0b0100_0000], &mut at, &mut out), Ok(()));
    assert_eq!(out, vec![6]);
}

#[test]
fn splay_table_out_of_range() {
    let mut data = tables();
    data[8..12].copy_from_slice(&300i32.to_le_bytes());
    let mut pos = 0;
    assert_eq!(Splay::new(&data, &mut pos).err(), Some(SplayError::InvalidSplayTable));
    assert_eq!(Splay::new(&data[..100], &mut pos).err(), Some(SplayError::UnexpectedEndOfStream));
}

#[test]
fn grid_rows_decode() {
    let c = config(1, 1, 0, 0);
    let rows = [0x80u8, 0x00, 0x00, 0x80, 0x00, 0x00, 0x80, 0x80];
    let data = vmc([ROWS_AT, ROWS_AT + 4], &rows);
    let (h, m) = decode_vmc(&c, &data).ok().unwrap();
    assert_eq!(h, vec![7, 5, 5, 7]);
    assert_eq!(m, vec![3, 0, 3, 0]);
}

#[test]
fn rows_may_share_bytes() {
    let c = config(1, 1, 0, 0);
    let rows = [0x00u8, 0x00, 0x00, 0x00];
    let data = vmc([ROWS_AT, ROWS_AT], &rows);
    let (h, m) = decode_vmc(&c, &data).ok().unwrap();
    assert_eq!(h, vec![5, 5, 5, 5]);
    assert_eq!(m, vec![3, 3, 3, 3]);
}

#[test]
fn row_runs_out_of_bytes() {
    let c = config(1, 1, 0, 0);
    let rows = [0x00u8, 0x00, 0x00, 0x00, 0x00];
    let data = vmc([ROWS_AT, ROWS_AT + 4], &rows);
    assert_eq!(
        decode_vmc(&c, &data).err(),
        Some(LevelError::RowDecompressionError { row: 1, expected: 4, got: 3 })
    );
}

#[test]
fn row_start_outside_stream() {
    let c = config(1, 1, 0, 0);
    let data = vmc([ROWS_AT, -1], &[0u8; 8]);
    assert_eq!(decode_vmc(&c, &data).err(), Some(LevelError::UnexpectedEndOfStream));
}

#[test]
fn grid_stream_with_bad_table() {
    let c = config(1, 1, 0, 0);
    let mut data = vmc([ROWS_AT, ROWS_AT], &[0u8; 4]);
    data[12..16].copy_from_slice(&(-256i32).to_le_bytes());
    assert_eq!(decode_vmc(&c, &data).err(), Some(LevelError::InvalidSplayTable));
    assert_eq!(decode_vmc(&c, &data[..11]).err(), Some(LevelError::UnexpectedEndOfStream));
}

#[test]
fn level_load_dimensions() {
    let c = config(1, 1, 0, 0);
    let mut vpr = vec![0u8; 52];
    push_i32(&mut vpr, 1);
    push_i32(&mut vpr, 2);
    let rows = [0x80u8, 0x00, 0x00, 0x80, 0x00, 0x00, 0x80, 0x80];
    let data = vmc([ROWS_AT, ROWS_AT + 4], &rows);
    let pal = vec![1u8; 768];
    let level = load(&c, &vpr, &data, &pal).ok().unwrap();
    assert_eq!(level.size, (2, 2));
    assert_eq!(level.height.len(), 4);
    assert_eq!(level.meta.len(), 4);
    assert_eq!(level.flood_map, vec![1, 2]);
    assert_eq!(level.palette[9], [1, 1, 1, 0]);
    assert_eq!(level.terrains[7].color_range, (3, 4));
}

#[test]
fn level_load_reports_first_failure() {
    let c = config(1, 1, 0, 0);
    let data = vmc([ROWS_AT, ROWS_AT], &[]);
    let pal = vec![0u8; 10];
    assert_eq!(
        load(&c, &[0u8; 3], &data, &pal).err(),
        Some(LevelError::InvalidVprSize { expected: 60, actual: 3 })
    );
    assert_eq!(
        load(&c, &[0u8; 60], &data, &pal).err(),
        Some(LevelError::RowDecompressionError { row: 0, expected: 2, got: 0 })
    );
}

#[test]
fn power_values() {
    assert_eq!(Power(0).as_value(), 1);
    assert_eq!(Power(10).as_value(), 1024);
    assert_eq!(Power(30).as_value(), 1 << 30);
    assert_eq!(Power(5).as_power(), 5);
}
