//! Level description: grid sizes given as powers of two, terrain materials, and the decoded level.
use crate::bytes::{fits, le_i32, le_u32, read_i16, read_i32, read_u32};
use crate::splay::{Splay, SplayError, symbol, tree_at, tree_ok, TABLES_BYTES};
use vstd::arithmetic::power2::{
    lemma2_to64, lemma_pow2_adds, lemma_pow2_pos, lemma_pow2_strictly_increases, pow2,
};
use vstd::bits::{lemma_u32_shl_is_mul, lemma_u64_shl_is_mul, lemma_u64_shr_is_div};
use vstd::prelude::*;

verus! {

/// Number of terrain materials of a level.
pub const NUM_TERRAINS: usize = 8;

/// Number of palette entries.
pub const PALETTE_SIZE: usize = 256;

/// A small exponent `n`, standing for the value `1 << n`.
pub struct Power(pub i32);

impl Power {
    /// Whether the exponent gives a positive `i32` value.
    pub open spec fn valid(&self) -> bool {
        0 <= self.0 < 31
    }

    /// The value `2^n` that the exponent stands for.
    pub open spec fn value(&self) -> int {
        pow2(self.0 as nat) as int
    }

    /// The value `1 << n`.
    pub fn as_value(&self) -> (r: i32)
        requires
            self.valid(),
        ensures
            r == self.value(),
    {
        proof {
            lemma_shl_pow2(self.0 as u32);
        }
        (1u32 << (self.0 as u32)) as i32
    }

    /// The exponent `n` itself.
    pub fn as_power(&self) -> (r: i32)
        ensures
            r == self.0,
    {
        self.0
    }
}

/// `1 << n` for an exponent below 31 is `2^n`, and fits an `i32`.
pub proof fn lemma_shl_pow2(n: u32)
    requires
        n < 31,
    ensures
        (1u32 << n) == pow2(n as nat),
        pow2(n as nat) <= 0x4000_0000,
{
    lemma2_to64();
    if n < 30 {
        lemma_pow2_strictly_increases(n as nat, 30);
    }
    lemma_u32_shl_is_mul(1, n);
}

/// `2^n` as a `u64`.
fn pow2_u64(n: u32) -> (r: u64)
    requires
        n < 64,
    ensures
        r == pow2(n as nat),
{
    proof {
        lemma2_to64();
        lemma_pow2_strictly_increases(n as nat, 64);
        lemma_u64_shl_is_mul(1, n as u64);
    }
    1u64 << (n as u64)
}

/// One terrain material: how it shades and which palette entries it uses.
#[derive(Clone, Copy, Debug, PartialEq, Eq)]
pub struct TerrainConfig {
    pub shadow_offset: u8,
    pub height_shift: u8,
    /// Palette indices, start inclusive and end exclusive.
    pub color_range: (u8, u8),
}

/// Where a level's files are and how its grid is laid out.
pub struct LevelConfig {
    pub name: String,
    pub path_palette: String,
    pub path_vpr: String,
    pub path_vmc: String,
    pub is_compressed: bool,
    /// Width and height exponents of the grid.
    pub size: (Power, Power),
    pub geo: Power,
    /// Exponent of the height of one flood strip.
    pub section: Power,
    pub min_square: Power,
    pub terrains: [TerrainConfig; NUM_TERRAINS],
}

/// A decoded level.
pub struct Level {
    /// Width and height of the grid.
    pub size: (i32, i32),
    /// Water height of each horizontal strip.
    pub flood_map: Vec<u32>,
    /// Cell heights, row by row.
    pub height: Vec<u8>,
    /// Cell metadata, row by row: terrain id in the low nibble, flags in the high one.
    pub meta: Vec<u8>,
    pub palette: [[u8; 4]; PALETTE_SIZE],
    pub terrains: [TerrainConfig; NUM_TERRAINS],
}

/// Why a level could not be decoded.
#[derive(Debug, Clone, Copy, PartialEq, Eq)]
pub enum LevelError {
    /// A table, block or the palette ends early, or a row starts outside the grid stream.
    UnexpectedEndOfStream,
    /// The flood file does not have the length that the grid layout gives.
    InvalidVprSize { expected: u64, actual: u64 },
    /// A code tree of the grid stream is malformed.
    InvalidSplayTable,
    /// Row `row` ran out of bytes after `got` cells of the `expected` that end it.
    RowDecompressionError { row: u64, expected: u64, got: u64 },
}

/// The grid exponents are small enough for the sizes computed from them to fit an `i32`.
pub open spec fn dims_ok(c: &LevelConfig) -> bool {
    &&& 0 <= c.size.0.0
    &&& 0 <= c.size.1.0
    &&& c.size.0.0 + c.size.1.0 <= 30
    &&& 0 <= c.geo.0 <= 15
    &&& 0 <= c.section.0 < 31
}

/// Grid width `1 << size.0`.
pub open spec fn grid_w(c: &LevelConfig) -> int {
    pow2(c.size.0.0 as nat) as int
}

/// Grid height `1 << size.1`.
pub open spec fn grid_h(c: &LevelConfig) -> int {
    pow2(c.size.1.0 as nat) as int
}

/// Number of flood strips, `height >> section`.
pub open spec fn flood_len(c: &LevelConfig) -> int {
    grid_h(c) / (pow2(c.section.0 as nat) as int)
}

/// Byte offset of the flood block in the flood file: two header words, nine more, the
/// coarse net of `(w * h) >> (2 * geo)` 16-bit cells, and per-level and per-strip tables.
pub open spec fn flood_offset(c: &LevelConfig) -> int {
    let geo = c.geo.0 as int;
    2 * 4 + 9 * 4 + 2 * ((grid_w(c) * grid_h(c)) / (pow2((2 * geo) as nat) as int)) + 2 * geo * 4
        + 2 * flood_len(c) * geo * 4
}

/// Length that a flood file must have: the flood block is its end.
pub open spec fn vpr_len(c: &LevelConfig) -> int {
    flood_offset(c) + 4 * flood_len(c)
}

/// Offset of the flood block and the length the flood file must have.
pub fn flood_layout(config: &LevelConfig) -> (r: (u64, u64))
    requires
        dims_ok(config),
    ensures
        r.0 == flood_offset(config),
        r.1 == vpr_len(config),
        0 <= flood_len(config) <= grid_h(config),
        grid_w(config) * grid_h(config) <= 0x4000_0000,
        grid_w(config) >= 1,
        grid_h(config) >= 1,
{
    let s0 = config.size.0.0 as u32;
    let s1 = config.size.1.0 as u32;
    let geo = config.geo.0 as u64;
    let w = pow2_u64(s0);
    let h = pow2_u64(s1);
    proof {
        lemma_pow2_adds(s0 as nat, s1 as nat);
        lemma2_to64();
        if s0 + s1 < 30 {
            lemma_pow2_strictly_increases((s0 + s1) as nat, 30);
        }
        lemma_u64_shr_is_div(h, config.section.0 as u64);
        lemma_pow2_pos(config.section.0 as nat);
        lemma_pow2_pos((2 * geo) as nat);
    }
    let wh = w * h;
    let geo2 = 2 * geo;
    proof {
        lemma_u64_shr_is_div(wh, geo2);
    }
    let flood = h >> (config.section.0 as u64);
    let net = wh >> geo2;
    assert(flood * geo <= 0x4000_0000 * 15) by (nonlinear_arith)
        requires
            flood <= 0x4000_0000,
            geo <= 15,
    ;
    let offset = 2 * 4 + 9 * 4 + 2 * net + 2 * geo * 4 + 2 * (flood * geo) * 4;
    assert(2 * (flood * geo) * 4 == 2 * flood * geo * 4) by (nonlinear_arith);
    (offset, offset + 4 * flood)
}

/// The flood block: one little-endian `u32` per strip at the flood offset.
pub open spec fn flood_map(c: &LevelConfig, vpr: Seq<u8>) -> Seq<u32> {
    Seq::new(flood_len(c) as nat, |i: int| le_u32(vpr, flood_offset(c) + 4 * i) as u32)
}

/// The result of reading the flood file.
pub open spec fn flood_spec(c: &LevelConfig, vpr: Seq<u8>) -> Result<Seq<u32>, LevelError> {
    if vpr.len() != vpr_len(c) {
        Err(LevelError::InvalidVprSize { expected: vpr_len(c) as u64, actual: vpr.len() as u64 })
    } else {
        Ok(flood_map(c, vpr))
    }
}

/// Reads the flood map from the bytes of the flood file.
pub fn decode_flood(config: &LevelConfig, vpr: &[u8]) -> (r: Result<Vec<u32>, LevelError>)
    requires
        dims_ok(config),
    ensures
        match r {
            Ok(f) => flood_spec(config, vpr@) == Ok::<Seq<u32>, LevelError>(f@),
            Err(e) => flood_spec(config, vpr@) == Err::<Seq<u32>, LevelError>(e),
        },
{
    let (offset, expected) = flood_layout(config);
    if vpr.len() as u64 != expected {
        return Err(LevelError::InvalidVprSize { expected, actual: vpr.len() as u64 });
    }
    let n = (expected - offset) / 4;
    let mut pos = offset as usize;
    let mut flood: Vec<u32> = Vec::new();
    let mut i: u64 = 0;
    while i < n
        invariant
            n == flood_len(config),
            vpr.len() == vpr_len(config),
            offset == flood_offset(config),
            i <= n,
            pos == offset + 4 * i,
            flood@.len() == i,
            forall|j: int| 0 <= j < i ==> flood@[j] == flood_map(config, vpr@)[j],
        decreases n - i,
    {
        let v = read_u32(vpr, &mut pos).unwrap();
        flood.push(v);
        i = i + 1;
    }
    assert(flood@ == flood_map(config, vpr@));
    Ok(flood)
}

/// Decodes `n` cells from byte `p` on, each a height symbol of tree `t1` then a metadata
/// symbol of tree `t2`: the heights and metadata decoded, and whether all `n` were. When the
/// bytes end, what was decoded until then.
pub open spec fn cells(t1: Seq<i32>, t2: Seq<i32>, d: Seq<u8>, p: int, n: nat) -> (
    Seq<u8>,
    Seq<u8>,
    bool,
)
    decreases n,
{
    if n == 0 {
        (Seq::empty(), Seq::empty(), true)
    } else {
        match symbol(t1, d, p) {
            None => (Seq::empty(), Seq::empty(), false),
            Some((h, p1)) => match symbol(t2, d, p1) {
                None => (seq![h], Seq::empty(), false),
                Some((m, p2)) => {
                    let rest = cells(t1, t2, d, p2, (n - 1) as nat);
                    (seq![h] + rest.0, seq![m] + rest.1, rest.2)
                },
            },
        }
    }
}

/// Start offset of each row, from the row table at the head of the grid stream: one
/// little-endian `i32` start and one `i16` size per row.
pub open spec fn row_starts(d: Seq<u8>, rows: nat) -> Seq<i32> {
    Seq::new(rows, |y: int| le_i32(d, 6 * y) as i32)
}

/// Decodes the first `rows` rows of `w` cells, each from its start offset on.
pub open spec fn grid(
    t1: Seq<i32>,
    t2: Seq<i32>,
    d: Seq<u8>,
    starts: Seq<i32>,
    w: nat,
    rows: nat,
) -> Result<(Seq<u8>, Seq<u8>), LevelError>
    decreases rows,
{
    if rows == 0 {
        Ok((Seq::empty(), Seq::empty()))
    } else {
        match grid(t1, t2, d, starts, w, (rows - 1) as nat) {
            Err(e) => Err(e),
            Ok((hs, ms)) => {
                let y = rows - 1;
                let st = starts[y];
                if st < 0 || st > d.len() {
                    Err(LevelError::UnexpectedEndOfStream)
                } else {
                    let c = cells(t1, t2, d, st as int, w);
                    if c.2 {
                        Ok((hs + c.0, ms + c.1))
                    } else {
                        Err(
                            LevelError::RowDecompressionError {
                                row: y as u64,
                                expected: (rows * w) as u64,
                                got: (hs.len() + c.0.len()) as u64,
                            },
                        )
                    }
                }
            },
        }
    }
}

/// The result of decoding the grid stream: the row table, the two code trees after it, and
/// the rows.
pub open spec fn vmc_spec(c: &LevelConfig, d: Seq<u8>) -> Result<(Seq<u8>, Seq<u8>), LevelError> {
    let h = grid_h(c);
    let tables = 6 * h;
    if !fits(d, 0, tables) || !fits(d, tables, TABLES_BYTES as int) {
        Err(LevelError::UnexpectedEndOfStream)
    } else if !(tree_ok(tree_at(d, tables)) && tree_ok(tree_at(d, tables + 2048))) {
        Err(LevelError::InvalidSplayTable)
    } else {
        grid(
            tree_at(d, tables),
            tree_at(d, tables + 2048),
            d,
            row_starts(d, h as nat),
            grid_w(c) as nat,
            h as nat,
        )
    }
}

/// Decodes `w` cells of one row from `*pos` on, appending to `height` and `meta`.
fn decode_row(
    splay: &Splay,
    d: &[u8],
    pos: &mut usize,
    w: usize,
    height: &mut Vec<u8>,
    meta: &mut Vec<u8>,
) -> (complete: bool)
    requires
        splay.wf(),
        old(height)@.len() == old(meta)@.len(),
    ensures
        ({
            let c = cells(splay.tree1(), splay.tree2(), d@, *old(pos) as int, w as nat);
            &&& final(height)@ == old(height)@ + c.0
            &&& final(meta)@ == old(meta)@ + c.1
            &&& complete == c.2
        }),
{
    let ghost t1 = splay.tree1();
    let ghost t2 = splay.tree2();
    let ghost whole = cells(t1, t2, d@, *pos as int, w as nat);
    let ghost h0 = height@;
    let ghost m0 = meta@;
    let mut k: usize = 0;
    while k < w
        invariant
            splay.wf(),
            t1 == splay.tree1(),
            t2 == splay.tree2(),
            h0 == old(height)@,
            m0 == old(meta)@,
            whole == cells(t1, t2, d@, *old(pos) as int, w as nat),
            k <= w,
            height@.len() == h0.len() + k,
            meta@.len() == m0.len() + k,
            height@.subrange(0, h0.len() as int) == h0,
            meta@.subrange(0, m0.len() as int) == m0,
            ({
                let rest = cells(t1, t2, d@, *pos as int, (w - k) as nat);
                &&& whole.0 == height@.subrange(h0.len() as int, height@.len() as int) + rest.0
                &&& whole.1 == meta@.subrange(m0.len() as int, meta@.len() as int) + rest.1
                &&& whole.2 == rest.2
            }),
        decreases w - k,
    {
        let ghost hk = height@;
        let ghost mk = meta@;
        let ghost p = *pos as int;
        let ghost rest = cells(t1, t2, d@, p, (w - k) as nat);
        let ghost sub_h = hk.subrange(h0.len() as int, hk.len() as int);
        let ghost sub_m = mk.subrange(m0.len() as int, mk.len() as int);
        match splay.expand1(d, pos, height) {
            Err(_) => {
                assert(rest.0 =~= Seq::<u8>::empty());
                assert(rest.1 =~= Seq::<u8>::empty());
                assert(!rest.2);
                assert(height@ =~= h0 + whole.0);
                assert(meta@ =~= m0 + whole.1);
                return false;
            },
            Ok(()) => {},
        }
        let ghost p1 = *pos as int;
        match splay.expand2(d, pos, meta) {
            Err(_) => {
                assert(rest.0 =~= seq![height@.last()]);
                assert(rest.1 =~= Seq::<u8>::empty());
                assert(!rest.2);
                assert(height@ =~= h0 + whole.0);
                assert(meta@ =~= m0 + whole.1);
                return false;
            },
            Ok(()) => {},
        }
        let ghost next = cells(t1, t2, d@, *pos as int, (w - k - 1) as nat);
        assert(rest.0 == seq![height@.last()] + next.0);
        assert(rest.1 == seq![meta@.last()] + next.1);
        assert(height@.subrange(0, h0.len() as int) =~= h0);
        assert(meta@.subrange(0, m0.len() as int) =~= m0);
        assert(height@.subrange(h0.len() as int, height@.len() as int) =~= sub_h.push(
            height@.last(),
        ));
        assert(meta@.subrange(m0.len() as int, meta@.len() as int) =~= sub_m.push(meta@.last()));
        assert(sub_h + rest.0 =~= sub_h.push(height@.last()) + next.0);
        assert(sub_m + rest.1 =~= sub_m.push(meta@.last()) + next.1);
        k = k + 1;
    }
    assert(height@ =~= h0 + whole.0);
    assert(meta@ =~= m0 + whole.1);
    true
}

/// Decoding all `n` cells gives `n` heights and `n` metadata bytes; stopping early gives at
/// most `n` heights.
pub proof fn lemma_cells_len(t1: Seq<i32>, t2: Seq<i32>, d: Seq<u8>, p: int, n: nat)
    ensures
        ({
            let c = cells(t1, t2, d, p, n);
            &&& c.2 ==> c.0.len() == n && c.1.len() == n
            &&& c.0.len() <= n
        }),
    decreases n,
{
    if n > 0 {
        match symbol(t1, d, p) {
            None => {},
            Some((h, p1)) => match symbol(t2, d, p1) {
                None => {},
                Some((m, p2)) => {
                    lemma_cells_len(t1, t2, d, p2, (n - 1) as nat);
                },
            },
        }
    }
}

/// Decoded rows hold `w` cells each.
pub proof fn lemma_grid_len(
    t1: Seq<i32>,
    t2: Seq<i32>,
    d: Seq<u8>,
    starts: Seq<i32>,
    w: nat,
    rows: nat,
)
    ensures
        grid(t1, t2, d, starts, w, rows) matches Ok((hs, ms)) ==> hs.len() == rows * w
            && ms.len() == rows * w,
    decreases rows,
{
    if rows > 0 {
        lemma_grid_len(t1, t2, d, starts, w, (rows - 1) as nat);
        let st = starts[rows - 1];
        if 0 <= st <= d.len() {
            lemma_cells_len(t1, t2, d, st as int, w);
        }
        assert((rows - 1) * w + w == rows * w) by (nonlinear_arith);
        match grid(t1, t2, d, starts, w, (rows - 1) as nat) {
            Err(e) => {},
            Ok((hs, ms)) => {
                assert(hs.len() == (rows - 1) * w);
                if 0 <= st <= d.len() {
                    let c = cells(t1, t2, d, st as int, w);
                    if c.2 {
                        assert((hs + c.0).len() == rows * w);
                        assert((ms + c.1).len() == rows * w);
                    }
                }
            },
        }
    } else {
        assert(0 * w == 0);
    }
}

/// Once a row fails, decoding more rows fails with the same error.
pub proof fn lemma_grid_err(
    t1: Seq<i32>,
    t2: Seq<i32>,
    d: Seq<u8>,
    starts: Seq<i32>,
    w: nat,
    rows: nat,
    more: nat,
)
    requires
        rows <= more,
        grid(t1, t2, d, starts, w, rows) is Err,
    ensures
        grid(t1, t2, d, starts, w, more) == grid(t1, t2, d, starts, w, rows),
    decreases more,
{
    if more > rows {
        lemma_grid_err(t1, t2, d, starts, w, rows, (more - 1) as nat);
    }
}

/// Decodes the height and metadata grids from the bytes of the grid stream.
pub fn decode_vmc(config: &LevelConfig, vmc: &[u8]) -> (r: Result<(Vec<u8>, Vec<u8>), LevelError>)
    requires
        dims_ok(config),
    ensures
        match r {
            Ok((h, m)) => vmc_spec(config, vmc@) == Ok::<(Seq<u8>, Seq<u8>), LevelError>(
                (h@, m@),
            ),
            Err(e) => vmc_spec(config, vmc@) == Err::<(Seq<u8>, Seq<u8>), LevelError>(e),
        },
{
    let _ = flood_layout(config);
    let w = config.size.0.as_value() as usize;
    let h = config.size.1.as_value() as usize;
    if (vmc.len() as u64) < 6 * (h as u64) {
        return Err(LevelError::UnexpectedEndOfStream);
    }
    let mut pos: usize = 0;
    let mut starts: Vec<i32> = Vec::new();
    let mut y: usize = 0;
    while y < h
        invariant
            h == grid_h(config),
            6 * h <= vmc.len(),
            y <= h,
            pos == 6 * y,
            starts@.len() == y,
            forall|j: int| 0 <= j < y ==> starts@[j] == row_starts(vmc@, h as nat)[j],
        decreases h - y,
    {
        let st = read_i32(vmc, &mut pos).unwrap();
        let _size = read_i16(vmc, &mut pos).unwrap();
        starts.push(st);
        y = y + 1;
    }
    assert(starts@ == row_starts(vmc@, h as nat));
    let splay = match Splay::new(vmc, &mut pos) {
        Ok(s) => s,
        Err(SplayError::UnexpectedEndOfStream) => {
            return Err(LevelError::UnexpectedEndOfStream);
        },
        Err(SplayError::InvalidSplayTable) => {
            return Err(LevelError::InvalidSplayTable);
        },
    };
    let ghost t1 = splay.tree1();
    let ghost t2 = splay.tree2();
    let mut height: Vec<u8> = Vec::new();
    let mut meta: Vec<u8> = Vec::new();
    let mut y: usize = 0;
    while y < h
        invariant
            splay.wf(),
            t1 == splay.tree1(),
            t2 == splay.tree2(),
            h == grid_h(config),
            w == grid_w(config),
            w * h <= 0x4000_0000,
            y <= h,
            starts@ == row_starts(vmc@, h as nat),
            vmc_spec(config, vmc@) == grid(t1, t2, vmc@, starts@, w as nat, h as nat),
            grid(t1, t2, vmc@, starts@, w as nat, y as nat) == Ok::<
                (Seq<u8>, Seq<u8>),
                LevelError,
            >((height@, meta@)),
        decreases h - y,
    {
        proof {
            lemma_grid_len(t1, t2, vmc@, starts@, w as nat, y as nat);
        }
        let st = starts[y];
        if st < 0 || st as usize > vmc.len() {
            proof {
                lemma_grid_err(t1, t2, vmc@, starts@, w as nat, (y + 1) as nat, h as nat);
            }
            return Err(LevelError::UnexpectedEndOfStream);
        }
        let ghost hs = height@;
        let mut p = st as usize;
        let complete = decode_row(&splay, vmc, &mut p, w, &mut height, &mut meta);
        assert((y + 1) * w <= h * w) by (nonlinear_arith)
            requires
                y < h,
        ;
        if !complete {
            proof {
                lemma_cells_len(t1, t2, vmc@, st as int, w as nat);
                lemma_grid_err(t1, t2, vmc@, starts@, w as nat, (y + 1) as nat, h as nat);
            }
            return Err(
                LevelError::RowDecompressionError {
                    row: y as u64,
                    expected: ((y + 1) * w) as u64,
                    got: height.len() as u64,
                },
            );
        }
        y = y + 1;
    }
    Ok((height, meta))
}

/// Palette entry `i`: the RGB triple at `3 * i`, with alpha 0.
pub open spec fn palette_entry(d: Seq<u8>, i: int) -> [u8; 4] {
    [d[3 * i], d[3 * i + 1], d[3 * i + 2], 0u8]
}

/// The result of reading a palette file: 256 RGB triples.
pub open spec fn palette_spec(d: Seq<u8>) -> Result<Seq<[u8; 4]>, LevelError> {
    if d.len() < 3 * PALETTE_SIZE {
        Err(LevelError::UnexpectedEndOfStream)
    } else {
        Ok(Seq::new(PALETTE_SIZE as nat, |i: int| palette_entry(d, i)))
    }
}

/// Reads a palette from the bytes of a palette file, padding each colour to RGBA.
pub fn read_palette(d: &[u8]) -> (r: Result<[[u8; 4]; PALETTE_SIZE], LevelError>)
    ensures
        match r {
            Ok(p) => palette_spec(d@) == Ok::<Seq<[u8; 4]>, LevelError>(p@),
            Err(e) => palette_spec(d@) == Err::<Seq<[u8; 4]>, LevelError>(e),
        },
{
    if d.len() < 3 * PALETTE_SIZE {
        return Err(LevelError::UnexpectedEndOfStream);
    }
    let mut pal = [[0u8; 4]; PALETTE_SIZE];
    let mut i: usize = 0;
    while i < PALETTE_SIZE
        invariant
            d.len() >= 3 * PALETTE_SIZE,
            i <= PALETTE_SIZE,
            pal@.len() == PALETTE_SIZE,
            forall|j: int| 0 <= j < i ==> pal@[j] == palette_entry(d@, j),
        decreases PALETTE_SIZE - i,
    {
        pal[i] = [d[3 * i], d[3 * i + 1], d[3 * i + 2], 0];
        i = i + 1;
    }
    assert(pal@ =~= Seq::new(PALETTE_SIZE as nat, |i: int| palette_entry(d@, i)));
    Ok(pal)
}

/// Decodes a level from the bytes of its flood file, grid stream and palette file, in that
/// order; the first part that fails gives the error.
pub fn load(config: &LevelConfig, vpr: &[u8], vmc: &[u8], palette: &[u8]) -> (r: Result<
    Level,
    LevelError,
>)
    requires
        config.is_compressed,
        dims_ok(config),
    ensures
        match r {
            Ok(l) => {
                &&& flood_spec(config, vpr@) == Ok::<Seq<u32>, LevelError>(l.flood_map@)
                &&& vmc_spec(config, vmc@) == Ok::<(Seq<u8>, Seq<u8>), LevelError>(
                    (l.height@, l.meta@),
                )
                &&& palette_spec(palette@) == Ok::<Seq<[u8; 4]>, LevelError>(l.palette@)
                &&& l.size == (grid_w(config) as i32, grid_h(config) as i32)
                &&& l.terrains == config.terrains
                &&& l.height@.len() == grid_w(config) * grid_h(config)
                &&& l.meta@.len() == grid_w(config) * grid_h(config)
                &&& l.flood_map@.len() == flood_len(config)
            },
            Err(e) => {
                ||| flood_spec(config, vpr@) == Err::<Seq<u32>, LevelError>(e)
                ||| flood_spec(config, vpr@) is Ok && vmc_spec(config, vmc@) == Err::<
                    (Seq<u8>, Seq<u8>),
                    LevelError,
                >(e)
                ||| flood_spec(config, vpr@) is Ok && vmc_spec(config, vmc@) is Ok && palette_spec(
                    palette@,
                ) == Err::<Seq<[u8; 4]>, LevelError>(e)
            },
        },
{
    let _ = flood_layout(config);
    let size = (config.size.0.as_value(), config.size.1.as_value());
    let flood_map = decode_flood(config, vpr)?;
    let (height, meta) = decode_vmc(config, vmc)?;
    let pal = read_palette(palette)?;
    proof {
        let t = 6 * grid_h(config);
        lemma_grid_len(
            tree_at(vmc@, t),
            tree_at(vmc@, t + 2048),
            vmc@,
            row_starts(vmc@, grid_h(config) as nat),
            grid_w(config) as nat,
            grid_h(config) as nat,
        );
        assert(grid_h(config) * grid_w(config) == grid_w(config) * grid_h(config))
            by (nonlinear_arith);
    }
    Ok(
        Level {
            size,
            flood_map,
            height,
            meta,
            palette: pal,
            terrains: config.terrains,
        },
    )
}

} // verus!
