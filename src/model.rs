//! Vehicle and object models: meshes with their inertial data, collision shapes, wheels,
//! debris and slots, decoded from the `c3d` and `m3d` containers.
use crate::bytes::{
    byte_i8, fits, le_i32, le_u32, le_u64, read_i32, read_i8, read_u32, read_u64,
};
use crate::compact::{compact, compaction, VertexKey};
use vstd::prelude::*;

verus! {

/// Number of colour ids that a model vertex may carry.
pub const NUM_COLOR_IDS: u32 = 25;

/// The colour id of the vehicle body, used for out-of-range ids.
pub const COLOR_ID_BODY: u32 = 1;

/// Number of slot records of a model.
pub const MAX_SLOTS: u32 = 3;

/// The only container version understood.
pub const C3D_VERSION: u32 = 8;

/// Bytes of the container header: version, four counts, three vectors, the radius, the
/// parent rotation and thirteen 64-bit physics values.
pub const HEADER_BYTES: usize = 176;

/// A point of a collision shape.
pub type RawVertex = [i8; 3];

/// A vertex of a model mesh, as drawn.
#[derive(Clone, Copy, Debug, PartialEq, Eq)]
pub struct ObjectVertex {
    pub pos: [i8; 4],
    pub color: u32,
    pub normal: [i8; 4],
}

/// A vertex of the debug view of a shape.
#[derive(Clone, Copy, Debug, PartialEq, Eq)]
pub struct DebugVertex {
    pub pos: [i8; 4],
}

/// Inertial data, each value the bit pattern of a 64-bit IEEE-754 float as stored.
#[derive(Clone, Copy, Debug, PartialEq, Eq)]
pub struct Physics {
    pub volume: u64,
    /// Centre of mass.
    pub rcm: [u64; 3],
    /// Inertia tensor, row by row.
    pub jacobi: [[u64; 3]; 3],
}

/// Why a container could not be decoded.
#[derive(Debug, Clone, Copy, PartialEq, Eq)]
pub enum ModelError {
    /// The data ends inside a record.
    UnexpectedEndOfStream,
    /// The container is not of the supported version.
    UnsupportedVersion { got: u32 },
    /// A polygon has a number of corners that this kind of container does not allow.
    InvalidPolygon { corners: u32 },
    /// A polygon names a position or normal that the container does not have.
    InvalidIndex { index: u32 },
}

/// The fixed header of a container.
#[derive(Clone, Copy, Debug, PartialEq, Eq)]
pub struct Header {
    pub num_positions: u32,
    pub num_normals: u32,
    pub num_polygons: u32,
    pub coord_max: [i32; 3],
    pub coord_min: [i32; 3],
    pub parent_offset: [i32; 3],
    pub max_radius: u32,
    pub physics: Physics,
}

/// Three little-endian `i32`s at `p`.
pub open spec fn vec3_at(d: Seq<u8>, p: int) -> [i32; 3] {
    [le_i32(d, p) as i32, le_i32(d, p + 4) as i32, le_i32(d, p + 8) as i32]
}

/// Three little-endian `u64`s at `p`.
pub open spec fn u64x3_at(d: Seq<u8>, p: int) -> [u64; 3] {
    [le_u64(d, p) as u64, le_u64(d, p + 8) as u64, le_u64(d, p + 16) as u64]
}

/// The thirteen physics values at `p`: volume, centre of mass, inertia tensor.
pub open spec fn physics_at(d: Seq<u8>, p: int) -> Physics {
    Physics {
        volume: le_u64(d, p) as u64,
        rcm: u64x3_at(d, p + 8),
        jacobi: [u64x3_at(d, p + 32), u64x3_at(d, p + 56), u64x3_at(d, p + 80)],
    }
}

/// The header at `p`: version 8 and all of the header present.
pub open spec fn header_spec(d: Seq<u8>, p: int) -> Result<Header, ModelError> {
    if !fits(d, p, 4) {
        Err(ModelError::UnexpectedEndOfStream)
    } else if le_u32(d, p) != C3D_VERSION {
        Err(ModelError::UnsupportedVersion { got: le_u32(d, p) as u32 })
    } else if !fits(d, p, HEADER_BYTES as int) {
        Err(ModelError::UnexpectedEndOfStream)
    } else {
        Ok(
            Header {
                num_positions: le_u32(d, p + 4) as u32,
                num_normals: le_u32(d, p + 8) as u32,
                num_polygons: le_u32(d, p + 12) as u32,
                coord_max: vec3_at(d, p + 20),
                coord_min: vec3_at(d, p + 32),
                parent_offset: vec3_at(d, p + 44),
                max_radius: le_u32(d, p + 56) as u32,
                physics: physics_at(d, p + 72),
            },
        )
    }
}

fn read_vec3(d: &[u8], pos: &mut usize) -> (r: [i32; 3])
    requires
        fits(d@, *old(pos) as int, 12),
    ensures
        r == vec3_at(d@, *old(pos) as int),
        *final(pos) == *old(pos) + 12,
{
    let x = read_i32(d, pos).unwrap();
    let y = read_i32(d, pos).unwrap();
    let z = read_i32(d, pos).unwrap();
    [x, y, z]
}

fn read_u64x3(d: &[u8], pos: &mut usize) -> (r: [u64; 3])
    requires
        fits(d@, *old(pos) as int, 24),
    ensures
        r == u64x3_at(d@, *old(pos) as int),
        *final(pos) == *old(pos) + 24,
{
    let x = read_u64(d, pos).unwrap();
    let y = read_u64(d, pos).unwrap();
    let z = read_u64(d, pos).unwrap();
    [x, y, z]
}

/// Reads the header at `*pos` and moves the cursor past it.
pub fn read_header(d: &[u8], pos: &mut usize) -> (r: Result<Header, ModelError>)
    ensures
        match r {
            Ok(h) => header_spec(d@, *old(pos) as int) == Ok::<Header, ModelError>(h)
                && *final(pos) == *old(pos) + HEADER_BYTES,
            Err(e) => header_spec(d@, *old(pos) as int) == Err::<Header, ModelError>(e),
        },
{
    let p = *pos;
    let version = match read_u32(d, pos) {
        Some(v) => v,
        None => {
            return Err(ModelError::UnexpectedEndOfStream);
        },
    };
    if version != C3D_VERSION {
        return Err(ModelError::UnsupportedVersion { got: version });
    }
    if d.len() - p < HEADER_BYTES {
        return Err(ModelError::UnexpectedEndOfStream);
    }
    let num_positions = read_u32(d, pos).unwrap();
    let num_normals = read_u32(d, pos).unwrap();
    let num_polygons = read_u32(d, pos).unwrap();
    let _total_verts = read_u32(d, pos).unwrap();
    let coord_max = read_vec3(d, pos);
    let coord_min = read_vec3(d, pos);
    let parent_offset = read_vec3(d, pos);
    let max_radius = read_u32(d, pos).unwrap();
    let _parent_rot = read_vec3(d, pos);
    let volume = read_u64(d, pos).unwrap();
    let rcm = read_u64x3(d, pos);
    let j0 = read_u64x3(d, pos);
    let j1 = read_u64x3(d, pos);
    let j2 = read_u64x3(d, pos);
    Ok(
        Header {
            num_positions,
            num_normals,
            num_polygons,
            coord_max,
            coord_min,
            parent_offset,
            max_radius,
            physics: Physics { volume, rcm, jacobi: [j0, j1, j2] },
        },
    )
}

/// Half the sum of two coordinates, rounded down (an arithmetic right shift of the sum).
pub open spec fn mid_coord(c: i8, m: i8) -> i8 {
    ((c as int + m as int) / 2) as i8
}

/// The point halfway from the middle `m` to the corner `c`.
pub open spec fn halfway(c: [i8; 4], m: RawVertex) -> RawVertex {
    [mid_coord(c[0], m[0]), mid_coord(c[1], m[1]), mid_coord(c[2], m[2])]
}

/// The samples of a polygon: its middle, then the point halfway to each corner.
pub open spec fn tessellation(corners: Seq<DebugVertex>, middle: RawVertex) -> Seq<RawVertex> {
    seq![middle] + corners.map_values(|c: DebugVertex| halfway(c.pos, middle))
}

fn mid_coord_exec(c: i8, m: i8) -> (r: i8)
    ensures
        r == mid_coord(c, m),
{
    let s = (c as i16 + 128) as u16 + (m as i16 + 128) as u16;
    ((s / 2) as i16 - 128) as i8
}

/// Turns a polygon into surface samples.
pub struct Tessellator {
    samples: Vec<RawVertex>,
}

impl Tessellator {
    /// The samples of the last polygon.
    pub closed spec fn samples(&self) -> Seq<RawVertex> {
        self.samples@
    }

    /// A tessellator with no samples.
    pub fn new() -> (r: Tessellator)
        ensures
            r.samples() == Seq::<RawVertex>::empty(),
    {
        Tessellator { samples: Vec::new() }
    }

    /// The samples of the polygon with `corners` around `middle`: the middle, then the point
    /// halfway to each corner, rounded down.
    pub fn tessellate(&mut self, corners: &[DebugVertex], middle: RawVertex) -> (r: &[RawVertex])
        ensures
            r@ == tessellation(corners@, middle),
            final(self).samples() == r@,
    {
        self.samples.clear();
        self.samples.push(middle);
        let mut i: usize = 0;
        while i < corners.len()
            invariant
                i <= corners@.len(),
                self.samples@ == tessellation(corners@.subrange(0, i as int), middle),
            decreases corners@.len() - i,
        {
            let c = corners[i].pos;
            let s = [
                mid_coord_exec(c[0], middle[0]),
                mid_coord_exec(c[1], middle[1]),
                mid_coord_exec(c[2], middle[2]),
            ];
            self.samples.push(s);
            i = i + 1;
            assert(self.samples@ =~= tessellation(corners@.subrange(0, i as int), middle));
        }
        assert(corners@.subrange(0, i as int) =~= corners@);
        self.samples.as_slice()
    }
}

/// A decoded mesh: compacted vertices, one index per triangle corner, and where and how big
/// the mesh is.
pub struct Mesh {
    pub vertices: Vec<ObjectVertex>,
    pub indices: Vec<usize>,
    /// Attach point in the parent.
    pub offset: [i32; 3],
    /// Minimum corner, maximum corner and radius.
    pub bbox: ([i32; 3], [i32; 3], u32),
    pub physics: Physics,
}

/// What a mesh holds, as sequences.
pub ghost struct MeshView {
    pub vertices: Seq<ObjectVertex>,
    pub indices: Seq<usize>,
    pub offset: [i32; 3],
    pub bbox: ([i32; 3], [i32; 3], u32),
    pub physics: Physics,
}

impl View for Mesh {
    type V = MeshView;

    open spec fn view(&self) -> MeshView {
        MeshView {
            vertices: self.vertices@,
            indices: self.indices@,
            offset: self.offset,
            bbox: self.bbox,
            physics: self.physics,
        }
    }
}

/// Position record `k` of the table at `base`: three skipped `i32`s, three `i8` coordinates,
/// a skipped `u32`; the fourth coordinate is 1.
pub open spec fn position_at(d: Seq<u8>, base: int, k: int) -> [i8; 4] {
    let q = base + 19 * k;
    [byte_i8(d, q + 12) as i8, byte_i8(d, q + 13) as i8, byte_i8(d, q + 14) as i8, 1i8]
}

/// Normal record `k` of the table at `base`: four bytes, then a skipped `u32`.
pub open spec fn normal_at(d: Seq<u8>, base: int, k: int) -> [u8; 4] {
    let q = base + 8 * k;
    [d[q], d[q + 1], d[q + 2], d[q + 3]]
}

/// Where the tables of the container at `p` start: positions, normals, polygons.
pub open spec fn tables_at(h: Header, p: int) -> (int, int, int) {
    let pb = p + HEADER_BYTES;
    let nb = pb + 19 * h.num_positions;
    (pb, nb, nb + 8 * h.num_normals)
}

/// Bytes of a mesh polygon record: corner count, sort key, colour pair, flat normal, middle
/// point, and three position and normal ids.
pub const MESH_POLYGON_BYTES: usize = 47;

/// The key of corner `k` of the mesh polygon at `q`, or the first id out of range.
pub open spec fn corner_key(d: Seq<u8>, q: int, k: int, h: Header, pb: int, nb: int) -> Result<
    VertexKey,
    ModelError,
> {
    let pid = le_u32(d, q + 23 + 8 * k);
    let nid = le_u32(d, q + 27 + 8 * k);
    if pid >= h.num_positions {
        Err(ModelError::InvalidIndex { index: pid as u32 })
    } else if nid >= h.num_normals {
        Err(ModelError::InvalidIndex { index: nid as u32 })
    } else {
        Ok(
            VertexKey {
                pos: position_at(d, pb, pid),
                normal: normal_at(d, nb, nid),
                color: [le_u32(d, q + 8) as u32, le_u32(d, q + 12) as u32],
            },
        )
    }
}

/// The three corner keys of the mesh polygon at `q`.
pub open spec fn mesh_polygon(d: Seq<u8>, q: int, h: Header, pb: int, nb: int) -> Result<
    Seq<VertexKey>,
    ModelError,
> {
    if !fits(d, q, 4) {
        Err(ModelError::UnexpectedEndOfStream)
    } else if le_u32(d, q) != 3 {
        Err(ModelError::InvalidPolygon { corners: le_u32(d, q) as u32 })
    } else if !fits(d, q, MESH_POLYGON_BYTES as int) {
        Err(ModelError::UnexpectedEndOfStream)
    } else {
        match (corner_key(d, q, 0, h, pb, nb), corner_key(d, q, 1, h, pb, nb), corner_key(d, q, 2, h, pb, nb)) {
            (Err(e), _, _) => Err(e),
            (Ok(_), Err(e), _) => Err(e),
            (Ok(_), Ok(_), Err(e)) => Err(e),
            (Ok(k0), Ok(k1), Ok(k2)) => Ok(seq![k0, k1, k2]),
        }
    }
}

/// The corner keys of mesh polygons `i` to `n - 1`, the table starting at `g`; the first
/// failure stops decoding.
pub open spec fn mesh_polygons(
    d: Seq<u8>,
    g: int,
    h: Header,
    pb: int,
    nb: int,
    i: int,
    n: int,
) -> Result<Seq<VertexKey>, ModelError>
    decreases n - i,
{
    if i >= n {
        Ok(Seq::empty())
    } else {
        match mesh_polygon(d, g + MESH_POLYGON_BYTES * i, h, pb, nb) {
            Err(e) => Err(e),
            Ok(ks) => match mesh_polygons(d, g, h, pb, nb, i + 1, n) {
                Err(e) => Err(e),
                Ok(rest) => Ok(ks + rest),
            },
        }
    }
}

/// The vertex drawn for a key: the colour id kept when in range, else the body colour; the
/// normal bytes taken as signed.
pub open spec fn object_vertex(k: VertexKey) -> ObjectVertex {
    ObjectVertex {
        pos: k.pos,
        color: if k.color[0] < NUM_COLOR_IDS {
            k.color[0]
        } else {
            COLOR_ID_BODY
        },
        normal: [
            signed(k.normal[0]),
            signed(k.normal[1]),
            signed(k.normal[2]),
            signed(k.normal[3]),
        ],
    }
}

/// A byte taken as a two's complement `i8`.
pub open spec fn signed(b: u8) -> i8 {
    if b >= 128 {
        (b - 256) as i8
    } else {
        b as i8
    }
}

/// The mesh of the container at `p`, and where the container ends.
#[verifier::opaque]
pub open spec fn mesh_spec(d: Seq<u8>, p: int) -> Result<(MeshView, int), ModelError> {
    match header_spec(d, p) {
        Err(e) => Err(e),
        Ok(h) => {
            let (pb, nb, g) = tables_at(h, p);
            if !fits(d, p, g - p) {
                Err(ModelError::UnexpectedEndOfStream)
            } else {
                match mesh_polygons(d, g, h, pb, nb, 0, h.num_polygons as int) {
                    Err(e) => Err(e),
                    Ok(keys) => {
                        let t = g + MESH_POLYGON_BYTES * h.num_polygons;
                        if !fits(d, t, 12 * h.num_polygons) {
                            Err(ModelError::UnexpectedEndOfStream)
                        } else {
                            let (verts, idx) = compaction(keys);
                            Ok(
                                (
                                    MeshView {
                                        vertices: verts.map_values(|k: VertexKey| object_vertex(k)),
                                        indices: idx,
                                        offset: h.parent_offset,
                                        bbox: (h.coord_min, h.coord_max, h.max_radius),
                                        physics: h.physics,
                                    },
                                    t + 12 * h.num_polygons,
                                ),
                            )
                        }
                    },
                }
            }
        },
    }
}

fn signed_exec(b: u8) -> (r: i8)
    ensures
        r == signed(b),
{
    if b >= 128 {
        ((b - 128) as i8) - 64 - 64
    } else {
        b as i8
    }
}

fn object_vertex_exec(k: &VertexKey) -> (r: ObjectVertex)
    ensures
        r == object_vertex(*k),
{
    ObjectVertex {
        pos: k.pos,
        color: if k.color[0] < NUM_COLOR_IDS {
            k.color[0]
        } else {
            COLOR_ID_BODY
        },
        normal: [
            signed_exec(k.normal[0]),
            signed_exec(k.normal[1]),
            signed_exec(k.normal[2]),
            signed_exec(k.normal[3]),
        ],
    }
}

/// Reads the position table of `n` records at `pb`.
fn read_positions(d: &[u8], pb: usize, n: u32) -> (r: Vec<[i8; 4]>)
    requires
        fits(d@, pb as int, 19 * n),
    ensures
        r@.len() == n,
        forall|k: int| 0 <= k < n ==> r@[k] == position_at(d@, pb as int, k),
{
    let len = d.len();
    let mut out: Vec<[i8; 4]> = Vec::new();
    let mut k: u32 = 0;
    while k < n
        invariant
            len == d@.len(),
            fits(d@, pb as int, 19 * n),
            k <= n,
            out@.len() == k,
            forall|j: int| 0 <= j < k ==> out@[j] == position_at(d@, pb as int, j),
        decreases n - k,
    {
        let mut q: usize = pb + 19 * (k as usize) + 12;
        let x = read_i8(d, &mut q).unwrap();
        let y = read_i8(d, &mut q).unwrap();
        let z = read_i8(d, &mut q).unwrap();
        out.push([x, y, z, 1]);
        k = k + 1;
    }
    out
}

/// Reads the normal table of `n` records at `nb`.
fn read_normals(d: &[u8], nb: usize, n: u32) -> (r: Vec<[u8; 4]>)
    requires
        fits(d@, nb as int, 8 * n),
    ensures
        r@.len() == n,
        forall|k: int| 0 <= k < n ==> r@[k] == normal_at(d@, nb as int, k),
{
    let len = d.len();
    let mut out: Vec<[u8; 4]> = Vec::new();
    let mut k: u32 = 0;
    while k < n
        invariant
            len == d@.len(),
            fits(d@, nb as int, 8 * n),
            k <= n,
            out@.len() == k,
            forall|j: int| 0 <= j < k ==> out@[j] == normal_at(d@, nb as int, j),
        decreases n - k,
    {
        let q: usize = nb + 8 * (k as usize);
        out.push([d[q], d[q + 1], d[q + 2], d[q + 3]]);
        k = k + 1;
    }
    out
}

/// Reads the key of corner `k` of the mesh polygon at `q`.
fn read_corner(
    d: &[u8],
    q: usize,
    k: usize,
    h: &Header,
    pb: Ghost<int>,
    nb: Ghost<int>,
    positions: &Vec<[i8; 4]>,
    normals: &Vec<[u8; 4]>,
) -> (r: Result<VertexKey, ModelError>)
    requires
        fits(d@, q as int, MESH_POLYGON_BYTES as int),
        k < 3,
        positions@.len() == h.num_positions,
        normals@.len() == h.num_normals,
        forall|j: int| 0 <= j < h.num_positions ==> positions@[j] == position_at(d@, pb@, j),
        forall|j: int| 0 <= j < h.num_normals ==> normals@[j] == normal_at(d@, nb@, j),
    ensures
        r == corner_key(d@, q as int, k as int, *h, pb@, nb@),
{
    let len = d.len();
    let mut c: usize = q + 8;
    let c0 = read_u32(d, &mut c).unwrap();
    let c1 = read_u32(d, &mut c).unwrap();
    let mut at: usize = q + 23 + 8 * k;
    let pid = read_u32(d, &mut at).unwrap();
    let nid = read_u32(d, &mut at).unwrap();
    if pid >= h.num_positions {
        return Err(ModelError::InvalidIndex { index: pid });
    }
    if nid >= h.num_normals {
        return Err(ModelError::InvalidIndex { index: nid });
    }
    Ok(
        VertexKey {
            pos: positions[pid as usize],
            normal: normals[nid as usize],
            color: [c0, c1],
        },
    )
}

/// Reads the mesh polygon at `q`.
fn read_mesh_polygon(
    d: &[u8],
    q: usize,
    h: &Header,
    pb: Ghost<int>,
    nb: Ghost<int>,
    positions: &Vec<[i8; 4]>,
    normals: &Vec<[u8; 4]>,
) -> (r: Result<(VertexKey, VertexKey, VertexKey), ModelError>)
    requires
        q <= d@.len(),
        positions@.len() == h.num_positions,
        normals@.len() == h.num_normals,
        forall|j: int| 0 <= j < h.num_positions ==> positions@[j] == position_at(d@, pb@, j),
        forall|j: int| 0 <= j < h.num_normals ==> normals@[j] == normal_at(d@, nb@, j),
    ensures
        match r {
            Ok(ks) => mesh_polygon(d@, q as int, *h, pb@, nb@) == Ok::<
                Seq<VertexKey>,
                ModelError,
            >(seq![ks.0, ks.1, ks.2]) && fits(d@, q as int, MESH_POLYGON_BYTES as int),
            Err(e) => mesh_polygon(d@, q as int, *h, pb@, nb@) == Err::<Seq<VertexKey>, ModelError>(
                e,
            ),
        },
{
    if d.len() - q < 4 {
        return Err(ModelError::UnexpectedEndOfStream);
    }
    let mut c: usize = q;
    let corners = read_u32(d, &mut c).unwrap();
    if corners != 3 {
        return Err(ModelError::InvalidPolygon { corners });
    }
    if d.len() - q < MESH_POLYGON_BYTES {
        return Err(ModelError::UnexpectedEndOfStream);
    }
    let k0 = match read_corner(d, q, 0, h, pb, nb, positions, normals) {
        Ok(k) => k,
        Err(e) => {
            return Err(e);
        },
    };
    let k1 = match read_corner(d, q, 1, h, pb, nb, positions, normals) {
        Ok(k) => k,
        Err(e) => {
            return Err(e);
        },
    };
    let k2 = match read_corner(d, q, 2, h, pb, nb, positions, normals) {
        Ok(k) => k,
        Err(e) => {
            return Err(e);
        },
    };
    Ok((k0, k1, k2))
}

/// Reads the `h.num_polygons` mesh polygons of the table at `g`.
fn read_mesh_polygons(
    d: &[u8],
    g: usize,
    h: &Header,
    pb: Ghost<int>,
    nb: Ghost<int>,
    positions: &Vec<[i8; 4]>,
    normals: &Vec<[u8; 4]>,
) -> (r: Result<Vec<VertexKey>, ModelError>)
    requires
        g <= d@.len(),
        positions@.len() == h.num_positions,
        normals@.len() == h.num_normals,
        forall|j: int| 0 <= j < h.num_positions ==> positions@[j] == position_at(d@, pb@, j),
        forall|j: int| 0 <= j < h.num_normals ==> normals@[j] == normal_at(d@, nb@, j),
    ensures
        match r {
            Ok(keys) => mesh_polygons(d@, g as int, *h, pb@, nb@, 0, h.num_polygons as int) == Ok::<
                Seq<VertexKey>,
                ModelError,
            >(keys@) && fits(d@, g as int, MESH_POLYGON_BYTES * h.num_polygons),
            Err(e) => mesh_polygons(d@, g as int, *h, pb@, nb@, 0, h.num_polygons as int) == Err::<
                Seq<VertexKey>,
                ModelError,
            >(e),
        },
{
    let n = h.num_polygons;
    let ghost whole = mesh_polygons(d@, g as int, *h, pb@, nb@, 0, n as int);
    let mut keys: Vec<VertexKey> = Vec::new();
    let mut i: u32 = 0;
    let mut q: usize = g;
    let len = d.len();
    while i < n
        invariant
            len == d@.len(),
            g <= d@.len(),
            positions@.len() == h.num_positions,
            normals@.len() == h.num_normals,
            forall|j: int| 0 <= j < h.num_positions ==> positions@[j] == position_at(
                d@,
                pb@,
                j,
            ),
            forall|j: int| 0 <= j < h.num_normals ==> normals@[j] == normal_at(d@, nb@, j),
            n == h.num_polygons,
            i <= n,
            q == g + MESH_POLYGON_BYTES * i,
            q <= d@.len(),
            whole == mesh_polygons(d@, g as int, *h, pb@, nb@, 0, n as int),
            whole == match mesh_polygons(d@, g as int, *h, pb@, nb@, i as int, n as int) {
                Ok(rest) => Ok::<Seq<VertexKey>, ModelError>(keys@ + rest),
                Err(e) => Err(e),
            },
        decreases n - i,
    {
        let ks = match read_mesh_polygon(d, q, h, pb, nb, positions, normals) {
            Ok(ks) => ks,
            Err(e) => {
                assert(mesh_polygons(d@, g as int, *h, pb@, nb@, i as int, n as int)
                    == Err::<Seq<VertexKey>, ModelError>(e));
                return Err(e);
            },
        };
        let ghost before = keys@;
        keys.push(ks.0);
        keys.push(ks.1);
        keys.push(ks.2);
        proof {
            let rest = mesh_polygons(d@, g as int, *h, pb@, nb@, i + 1, n as int);
            assert(keys@ =~= before + seq![ks.0, ks.1, ks.2]);
            match rest {
                Ok(r) => {
                    assert(before + (seq![ks.0, ks.1, ks.2] + r) =~= keys@ + r);
                },
                Err(e) => {},
            }
        }
        q = q + MESH_POLYGON_BYTES;
        i = i + 1;
    }
    assert(keys@ + Seq::<VertexKey>::empty() =~= keys@);
    Ok(keys)
}

/// Decodes the mesh of the container at `*pos` and moves the cursor to its end.
pub fn load_c3d(d: &[u8], pos: &mut usize) -> (r: Result<Mesh, ModelError>)
    ensures
        match r {
            Ok(m) => mesh_spec(d@, *old(pos) as int) == Ok::<(MeshView, int), ModelError>(
                (m@, *final(pos) as int),
            ),
            Err(e) => mesh_spec(d@, *old(pos) as int) == Err::<(MeshView, int), ModelError>(e),
        },
{
    let p = *pos;
    let h = match read_header(d, pos) {
        Ok(h) => h,
        Err(e) => {
            proof {
                reveal(mesh_spec);
            }
            return Err(e);
        },
    };
    let ghost tables = tables_at(h, p as int);
    let need: u64 = HEADER_BYTES as u64 + 19 * (h.num_positions as u64) + 8 * (
    h.num_normals as u64);
    if ((d.len() - p) as u64) < need {
        proof {
            reveal(mesh_spec);
        }
        return Err(ModelError::UnexpectedEndOfStream);
    }
    let pb: usize = p + HEADER_BYTES;
    let nb: usize = pb + 19 * (h.num_positions as usize);
    let g: usize = nb + 8 * (h.num_normals as usize);
    let positions = read_positions(d, pb, h.num_positions);
    let normals = read_normals(d, nb, h.num_normals);
    let n = h.num_polygons;
    let keys = match read_mesh_polygons(d, g, &h, Ghost(pb as int), Ghost(nb as int), &positions, &normals) {
        Ok(k) => k,
        Err(e) => {
            proof {
                reveal(mesh_spec);
            }
            return Err(e);
        },
    };
    let q: usize = g + MESH_POLYGON_BYTES * (n as usize);
    let tail: u64 = 12 * (n as u64);
    if ((d.len() - q) as u64) < tail {
        proof {
            reveal(mesh_spec);
        }
        return Err(ModelError::UnexpectedEndOfStream);
    }
    *pos = q + 12 * (n as usize);
    let (verts, indices) = compact(&keys);
    let mut vertices: Vec<ObjectVertex> = Vec::new();
    let mut j: usize = 0;
    while j < verts.len()
        invariant
            j <= verts@.len(),
            vertices@ == verts@.subrange(0, j as int).map_values(|k: VertexKey| object_vertex(k)),
        decreases verts@.len() - j,
    {
        vertices.push(object_vertex_exec(&verts[j]));
        j = j + 1;
        assert(vertices@ =~= verts@.subrange(0, j as int).map_values(
            |k: VertexKey| object_vertex(k),
        ));
    }
    assert(verts@.subrange(0, j as int) =~= verts@);
    proof {
        reveal(mesh_spec);
    }
    Ok(
        Mesh {
            vertices,
            indices,
            offset: h.parent_offset,
            bbox: (h.coord_min, h.coord_max, h.max_radius),
            physics: h.physics,
        },
    )
}

/// A polygon of a collision shape.
#[derive(Clone, Copy, Debug, PartialEq, Eq)]
pub struct Polygon {
    pub middle: [i8; 3],
    /// The normal, each component in units of 1/128.
    pub normal: [i8; 3],
    /// The samples of the polygon in the shape's sample list, start inclusive, end exclusive.
    pub sample_range: (usize, usize),
}

/// What a debug view of a shape draws: the positions with their edges, and the samples.
pub struct DebugShape {
    pub bound_vb: Vec<DebugVertex>,
    /// Pairs of position indices, one pair per polygon edge.
    pub bound_indices: Vec<u32>,
    pub sample_vb: Vec<DebugVertex>,
}

/// A collision shape.
pub struct Shape {
    pub polygons: Vec<Polygon>,
    pub samples: Vec<RawVertex>,
    pub debug: Option<DebugShape>,
}

/// What a debug view holds, as sequences.
pub ghost struct DebugShapeView {
    pub bound_vb: Seq<DebugVertex>,
    pub bound_indices: Seq<u32>,
    pub sample_vb: Seq<DebugVertex>,
}

/// What a shape holds, as sequences.
pub ghost struct ShapeView {
    pub polygons: Seq<Polygon>,
    pub samples: Seq<RawVertex>,
    pub debug: Option<DebugShapeView>,
}

impl View for DebugShape {
    type V = DebugShapeView;

    open spec fn view(&self) -> DebugShapeView {
        DebugShapeView {
            bound_vb: self.bound_vb@,
            bound_indices: self.bound_indices@,
            sample_vb: self.sample_vb@,
        }
    }
}

impl View for Shape {
    type V = ShapeView;

    open spec fn view(&self) -> ShapeView {
        ShapeView {
            polygons: self.polygons@,
            samples: self.samples@,
            debug: match self.debug {
                Some(dbg) => Some(dbg@),
                None => None,
            },
        }
    }
}

/// Position id of corner `k` of the shape polygon at `q`.
pub open spec fn pid_at(d: Seq<u8>, q: int, k: int) -> int {
    le_u32(d, q + 23 + 8 * k)
}

/// The first position id from corner `k` on that is out of range.
pub open spec fn first_bad_pid(d: Seq<u8>, q: int, k: int, nc: int, np: int) -> Option<u32>
    decreases nc - k,
{
    if k >= nc {
        None
    } else if pid_at(d, q, k) >= np {
        Some(pid_at(d, q, k) as u32)
    } else {
        first_bad_pid(d, q, k + 1, nc, np)
    }
}

/// The corners of the shape polygon at `q`, positions from the table at `pb`.
pub open spec fn shape_corners(d: Seq<u8>, q: int, nc: int, pb: int) -> Seq<DebugVertex> {
    Seq::new(nc as nat, |k: int| DebugVertex { pos: position_at(d, pb, pid_at(d, q, k)) })
}

/// The edges of the shape polygon at `q`: for each corner, it and the next one around.
pub open spec fn polygon_edges(d: Seq<u8>, q: int, nc: int) -> Seq<u32> {
    Seq::new(
        (2 * nc) as nat,
        |e: int|
            if e % 2 == 0 {
                pid_at(d, q, e / 2) as u32
            } else {
                pid_at(d, q, (e / 2 + 1) % nc) as u32
            },
    )
}

/// Bytes of a shape polygon record with `nc` corners.
pub open spec fn shape_polygon_bytes(nc: int) -> int {
    23 + 8 * nc
}

/// The shape polygon at `q`, its samples numbered from `s0`: the polygon, its samples, its
/// edges and where the next polygon starts.
pub open spec fn shape_polygon(d: Seq<u8>, q: int, h: Header, pb: int, s0: int) -> Result<
    (Polygon, Seq<RawVertex>, Seq<u32>, int),
    ModelError,
> {
    if !fits(d, q, 4) {
        Err(ModelError::UnexpectedEndOfStream)
    } else {
        let nc = le_u32(d, q);
        if nc < 3 || nc > 4 {
            Err(ModelError::InvalidPolygon { corners: nc as u32 })
        } else if !fits(d, q, shape_polygon_bytes(nc)) {
            Err(ModelError::UnexpectedEndOfStream)
        } else {
            match first_bad_pid(d, q, 0, nc, h.num_positions as int) {
                Some(pid) => Err(ModelError::InvalidIndex { index: pid }),
                None => {
                    let middle = [
                        byte_i8(d, q + 20) as i8,
                        byte_i8(d, q + 21) as i8,
                        byte_i8(d, q + 22) as i8,
                    ];
                    let samples = tessellation(shape_corners(d, q, nc, pb), middle);
                    Ok(
                        (
                            Polygon {
                                middle,
                                normal: [
                                    byte_i8(d, q + 16) as i8,
                                    byte_i8(d, q + 17) as i8,
                                    byte_i8(d, q + 18) as i8,
                                ],
                                sample_range: (s0 as usize, (s0 + samples.len()) as usize),
                            },
                            samples,
                            polygon_edges(d, q, nc),
                            q + shape_polygon_bytes(nc),
                        ),
                    )
                },
            }
        }
    }
}

/// The `n` shape polygons from `q` on, their samples numbered from `s0`: the polygons, all
/// their samples and edges, and where the polygon table ends.
pub open spec fn shape_polygons(d: Seq<u8>, q: int, h: Header, pb: int, s0: int, n: nat) -> Result<
    (Seq<Polygon>, Seq<RawVertex>, Seq<u32>, int),
    ModelError,
>
    decreases n,
{
    if n == 0 {
        Ok((Seq::empty(), Seq::empty(), Seq::empty(), q))
    } else {
        match shape_polygon(d, q, h, pb, s0) {
            Err(e) => Err(e),
            Ok((poly, ss, es, next)) => match shape_polygons(
                d,
                next,
                h,
                pb,
                s0 + ss.len(),
                (n - 1) as nat,
            ) {
                Err(e) => Err(e),
                Ok((ps, ss2, es2, end)) => Ok((seq![poly] + ps, ss + ss2, es + es2, end)),
            },
        }
    }
}

/// The debug vertex of a sample.
pub open spec fn sample_vertex(s: RawVertex) -> DebugVertex {
    DebugVertex { pos: [s[0], s[1], s[2], 1i8] }
}

/// The shape of the container at `p`, with its debug view when `with_debug` holds, and where
/// the container ends.
#[verifier::opaque]
pub open spec fn shape_spec(d: Seq<u8>, p: int, with_debug: bool) -> Result<(ShapeView, int), ModelError> {
    match header_spec(d, p) {
        Err(e) => Err(e),
        Ok(h) => {
            let (pb, nb, g) = tables_at(h, p);
            if !fits(d, p, g - p) {
                Err(ModelError::UnexpectedEndOfStream)
            } else {
                match shape_polygons(d, g, h, pb, 0, h.num_polygons as nat) {
                    Err(e) => Err(e),
                    Ok((ps, ss, es, end)) => {
                        if !fits(d, end, 12 * h.num_polygons) {
                            Err(ModelError::UnexpectedEndOfStream)
                        } else {
                            Ok(
                                (
                                    ShapeView {
                                        polygons: ps,
                                        samples: ss,
                                        debug: if with_debug {
                                            Some(
                                                DebugShapeView {
                                                    bound_vb: Seq::new(
                                                        h.num_positions as nat,
                                                        |k: int| DebugVertex { pos: position_at(d, pb, k) },
                                                    ),
                                                    bound_indices: es,
                                                    sample_vb: ss.map_values(|s: RawVertex| sample_vertex(s)),
                                                },
                                            )
                                        } else {
                                            None
                                        },
                                    },
                                    end + 12 * h.num_polygons,
                                ),
                            )
                        }
                    },
                }
            }
        },
    }
}

/// Reads the shape polygon at `q` and appends it, its samples and its edges.
fn read_shape_polygon(
    d: &[u8],
    q: usize,
    h: &Header,
    pb: Ghost<int>,
    positions: &Vec<[i8; 4]>,
    tess: &mut Tessellator,
    polys: &mut Vec<Polygon>,
    samples: &mut Vec<RawVertex>,
    edges: &mut Vec<u32>,
) -> (r: Result<usize, ModelError>)
    requires
        q <= d@.len(),
        positions@.len() == h.num_positions,
        forall|j: int| 0 <= j < h.num_positions ==> positions@[j] == position_at(d@, pb@, j),
    ensures
        match r {
            Ok(next) => match shape_polygon(d@, q as int, *h, pb@, old(samples)@.len() as int) {
                Ok((poly, ss, es, nx)) => {
                    &&& final(polys)@ == old(polys)@.push(poly)
                    &&& final(samples)@ == old(samples)@ + ss
                    &&& final(edges)@ == old(edges)@ + es
                    &&& next == nx
                    &&& next <= d@.len()
                },
                Err(_) => false,
            },
            Err(e) => shape_polygon(d@, q as int, *h, pb@, old(samples)@.len() as int) == Err::<
                (Polygon, Seq<RawVertex>, Seq<u32>, int),
                ModelError,
            >(e),
        },
{
    let len = d.len();
    if len - q < 4 {
        return Err(ModelError::UnexpectedEndOfStream);
    }
    let mut c: usize = q;
    let nc = read_u32(d, &mut c).unwrap();
    if nc < 3 || nc > 4 {
        return Err(ModelError::InvalidPolygon { corners: nc });
    }
    let size: usize = 23 + 8 * (nc as usize);
    if len - q < size {
        return Err(ModelError::UnexpectedEndOfStream);
    }
    let ghost np = h.num_positions as int;
    let mut corners: Vec<DebugVertex> = Vec::new();
    let mut pids: Vec<u32> = Vec::new();
    let mut k: usize = 0;
    while k < nc as usize
        invariant
            len == d@.len(),
            3 <= nc <= 4,
            nc == le_u32(d@, q as int),
            fits(d@, q as int, shape_polygon_bytes(nc as int)),
            np == h.num_positions,
            positions@.len() == h.num_positions,
            forall|j: int| 0 <= j < h.num_positions ==> positions@[j] == position_at(d@, pb@, j),
            k <= nc,
            first_bad_pid(d@, q as int, 0, nc as int, np) == first_bad_pid(
                d@,
                q as int,
                k as int,
                nc as int,
                np,
            ),
            pids@.len() == k,
            corners@.len() == k,
            forall|j: int| 0 <= j < k ==> pids@[j] == pid_at(d@, q as int, j),
            forall|j: int| 0 <= j < k ==> corners@[j] == shape_corners(d@, q as int, nc as int, pb@)[j],
        decreases nc - k,
    {
        let mut at: usize = q + 23 + 8 * k;
        let pid = read_u32(d, &mut at).unwrap();
        if pid >= h.num_positions {
            return Err(ModelError::InvalidIndex { index: pid });
        }
        pids.push(pid);
        corners.push(DebugVertex { pos: positions[pid as usize] });
        k = k + 1;
    }
    assert(corners@ =~= shape_corners(d@, q as int, nc as int, pb@));
    let mut at: usize = q + 16;
    let n0 = read_i8(d, &mut at).unwrap();
    let n1 = read_i8(d, &mut at).unwrap();
    let n2 = read_i8(d, &mut at).unwrap();
    let _ = read_i8(d, &mut at).unwrap();
    let m0 = read_i8(d, &mut at).unwrap();
    let m1 = read_i8(d, &mut at).unwrap();
    let m2 = read_i8(d, &mut at).unwrap();
    let middle = [m0, m1, m2];
    let ghost e0 = edges@;
    let mut k: usize = 0;
    while k < nc as usize
        invariant
            3 <= nc <= 4,
            pids@.len() == nc,
            forall|j: int| 0 <= j < nc ==> pids@[j] == pid_at(d@, q as int, j),
            k <= nc,
            edges@ == e0 + polygon_edges(d@, q as int, nc as int).subrange(0, 2 * k),
        decreases nc - k,
    {
        edges.push(pids[k]);
        edges.push(pids[(k + 1) % (nc as usize)]);
        proof {
            let es = polygon_edges(d@, q as int, nc as int);
            assert((2 * k) / 2 == k && (2 * k) % 2 == 0);
            assert((2 * k + 1) / 2 == k && (2 * k + 1) % 2 == 1);
            assert(es.subrange(0, 2 * k + 2) =~= es.subrange(0, 2 * k).push(es[2 * k]).push(
                es[2 * k + 1],
            ));
        }
        k = k + 1;
    }
    assert(polygon_edges(d@, q as int, nc as int).subrange(0, 2 * nc) =~= polygon_edges(
        d@,
        q as int,
        nc as int,
    ));
    let s0 = samples.len();
    let ghost old_samples = samples@;
    let ts = tess.tessellate(corners.as_slice(), middle);
    let mut j: usize = 0;
    while j < ts.len()
        invariant
            j <= ts@.len(),
            samples@ == old_samples + ts@.subrange(0, j as int),
        decreases ts@.len() - j,
    {
        samples.push(ts[j]);
        j = j + 1;
        assert(samples@ =~= old_samples + ts@.subrange(0, j as int));
    }
    assert(ts@.subrange(0, j as int) =~= ts@);
    polys.push(Polygon { middle, normal: [n0, n1, n2], sample_range: (s0, samples.len()) });
    Ok(q + size)
}

/// Each polygon of a shape owns its middle and one sample per corner, so four or five samples.
pub open spec fn sample_ranges_ok(ps: Seq<Polygon>) -> bool {
    forall|i: int|
        0 <= i < ps.len() ==> #[trigger] ps[i].sample_range.1 - ps[i].sample_range.0 == 4
            || ps[i].sample_range.1 - ps[i].sample_range.0 == 5
}

/// Decoded shape polygons own four or five samples each.
pub proof fn lemma_sample_ranges(d: Seq<u8>, q: int, h: Header, pb: int, s0: int, n: nat)
    requires
        0 <= s0,
        s0 + 5 * n <= usize::MAX,
    ensures
        shape_polygons(d, q, h, pb, s0, n) matches Ok((ps, ss, es, end)) ==> sample_ranges_ok(ps)
            && ss.len() <= 5 * n,
    decreases n,
{
    if n > 0 {
        match shape_polygon(d, q, h, pb, s0) {
            Err(e) => {},
            Ok((poly, ss, es, next)) => {
                let nc = le_u32(d, q);
                assert(ss.len() == nc + 1);
                lemma_sample_ranges(d, next, h, pb, s0 + ss.len(), (n - 1) as nat);
                match shape_polygons(d, next, h, pb, s0 + ss.len(), (n - 1) as nat) {
                    Err(e) => {},
                    Ok((ps, ss2, es2, end)) => {
                        let all = seq![poly] + ps;
                        assert forall|i: int| 0 <= i < all.len() implies #[trigger] all[i].sample_range.1
                            - all[i].sample_range.0 == 4 || all[i].sample_range.1
                            - all[i].sample_range.0 == 5 by {
                            if i > 0 {
                                assert(all[i] == ps[i - 1]);
                            }
                        }
                    },
                }
            },
        }
    }
}

/// Decodes the collision shape of the container at `*pos`, with its debug view when
/// `with_debug` holds, and moves the cursor to its end.
pub fn load_c3d_shape(d: &[u8], pos: &mut usize, with_debug: bool) -> (r: Result<Shape, ModelError>)
    ensures
        match r {
            Ok(sh) => {
                &&& shape_spec(d@, *old(pos) as int, with_debug) == Ok::<(ShapeView, int), ModelError>(
                    (sh@, *final(pos) as int),
                )
                &&& sample_ranges_ok(sh.polygons@)
            },
            Err(e) => shape_spec(d@, *old(pos) as int, with_debug) == Err::<
                (ShapeView, int),
                ModelError,
            >(e),
        },
{
    let p = *pos;
    let h = match read_header(d, pos) {
        Ok(h) => h,
        Err(e) => {
            proof {
                reveal(shape_spec);
            }
            return Err(e);
        },
    };
    let ghost tables = tables_at(h, p as int);
    let need: u64 = HEADER_BYTES as u64 + 19 * (h.num_positions as u64) + 8 * (
    h.num_normals as u64);
    if ((d.len() - p) as u64) < need {
        proof {
            reveal(shape_spec);
        }
        return Err(ModelError::UnexpectedEndOfStream);
    }
    let pb: usize = p + HEADER_BYTES;
    let nb: usize = pb + 19 * (h.num_positions as usize);
    let g: usize = nb + 8 * (h.num_normals as usize);
    let positions = read_positions(d, pb, h.num_positions);
    let n = h.num_polygons;
    let ghost whole = shape_polygons(d@, g as int, h, pb as int, 0, n as nat);
    let mut tess = Tessellator::new();
    let mut polys: Vec<Polygon> = Vec::new();
    let mut samples: Vec<RawVertex> = Vec::new();
    let mut edges: Vec<u32> = Vec::new();
    let mut i: u32 = 0;
    let mut q: usize = g;
    let len = d.len();
    while i < n
        invariant
            len == d@.len(),
            p == *old(pos),
            header_spec(d@, p as int) == Ok::<Header, ModelError>(h),
            fits(d@, p as int, g - p),
            tables == tables_at(h, p as int),
            tables == (pb as int, nb as int, g as int),
            positions@.len() == h.num_positions,
            forall|j: int| 0 <= j < h.num_positions ==> positions@[j] == position_at(
                d@,
                pb as int,
                j,
            ),
            n == h.num_polygons,
            i <= n,
            q <= d@.len(),
            whole == shape_polygons(d@, g as int, h, pb as int, 0, n as nat),
            whole == match shape_polygons(
                d@,
                q as int,
                h,
                pb as int,
                samples@.len() as int,
                (n - i) as nat,
            ) {
                Ok((ps, ss, es, end)) => Ok::<
                    (Seq<Polygon>, Seq<RawVertex>, Seq<u32>, int),
                    ModelError,
                >((polys@ + ps, samples@ + ss, edges@ + es, end)),
                Err(e) => Err(e),
            },
        decreases n - i,
    {
        let ghost s0 = samples@.len() as int;
        let ghost ps0 = polys@;
        let ghost ss0 = samples@;
        let ghost es0 = edges@;
        let next = match read_shape_polygon(
            d,
            q,
            &h,
            Ghost(pb as int),
            &positions,
            &mut tess,
            &mut polys,
            &mut samples,
            &mut edges,
        ) {
            Ok(next) => next,
            Err(e) => {
                proof {
                    reveal(shape_spec);
                }
                return Err(e);
            },
        };
        proof {
            let (poly, ss, es, nx) = shape_polygon(d@, q as int, h, pb as int, s0).unwrap();
            let rest = shape_polygons(d@, next as int, h, pb as int, samples@.len() as int, (n - i - 1) as nat);
            assert(samples@.len() == s0 + ss.len());
            match rest {
                Ok((ps, ss2, es2, end)) => {
                    assert(ps0 + (seq![poly] + ps) =~= polys@ + ps);
                    assert(ss0 + (ss + ss2) =~= samples@ + ss2);
                    assert(es0 + (es + es2) =~= edges@ + es2);
                },
                Err(e) => {},
            }
        }
        q = next;
        i = i + 1;
    }
    let tail: u64 = 12 * (n as u64);
    if ((d.len() - q) as u64) < tail {
        proof {
            reveal(shape_spec);
        }
        return Err(ModelError::UnexpectedEndOfStream);
    }
    *pos = q + 12 * (n as usize);
    proof {
        assert(polys@ + Seq::<Polygon>::empty() =~= polys@);
        assert(samples@ + Seq::<RawVertex>::empty() =~= samples@);
        assert(edges@ + Seq::<u32>::empty() =~= edges@);
        lemma_sample_ranges(d@, g as int, h, pb as int, 0, n as nat);
    }
    let debug = if with_debug {
        let mut bound_vb: Vec<DebugVertex> = Vec::new();
        let mut k: usize = 0;
        while k < positions.len()
            invariant
                k <= positions@.len(),
                bound_vb@ == positions@.subrange(0, k as int).map_values(
                    |v: [i8; 4]| DebugVertex { pos: v },
                ),
            decreases positions@.len() - k,
        {
            bound_vb.push(DebugVertex { pos: positions[k] });
            k = k + 1;
            assert(bound_vb@ =~= positions@.subrange(0, k as int).map_values(
                |v: [i8; 4]| DebugVertex { pos: v },
            ));
        }
        let mut sample_vb: Vec<DebugVertex> = Vec::new();
        let mut k: usize = 0;
        while k < samples.len()
            invariant
                k <= samples@.len(),
                sample_vb@ == samples@.subrange(0, k as int).map_values(
                    |s: RawVertex| sample_vertex(s),
                ),
            decreases samples@.len() - k,
        {
            let sm = samples[k];
            sample_vb.push(DebugVertex { pos: [sm[0], sm[1], sm[2], 1] });
            k = k + 1;
            assert(sample_vb@ =~= samples@.subrange(0, k as int).map_values(
                |s: RawVertex| sample_vertex(s),
            ));
        }
        proof {
            assert(positions@.subrange(0, positions@.len() as int) =~= positions@);
            assert(samples@.subrange(0, samples@.len() as int) =~= samples@);
            assert(bound_vb@ =~= Seq::new(
                h.num_positions as nat,
                |k: int| DebugVertex { pos: position_at(d@, pb as int, k) },
            ));
        }
        Some(DebugShape { bound_vb, bound_indices: edges, sample_vb })
    } else {
        None
    };
    proof {
        reveal(shape_spec);
    }
    Ok(Shape { polygons: polys, samples, debug })
}

/// A wheel of a vehicle; steering wheels carry a mesh of their own.
pub struct Wheel {
    pub mesh: Option<Mesh>,
    pub steer: u32,
    /// Position, each coordinate the bit pattern of a 64-bit IEEE-754 float as stored.
    pub pos: [u64; 3],
    pub width: u32,
    pub radius: u32,
}

/// A piece that breaks off a vehicle.
pub struct Debrie {
    pub mesh: Mesh,
    pub shape: Shape,
}

/// An attach point for equipment; the mesh is attached by whoever equips it.
pub struct Slot {
    pub mesh: Option<Mesh>,
    pub pos: [i32; 3],
    pub angle: i32,
}

/// A decoded model.
pub struct Model {
    pub body: Mesh,
    pub shape: Shape,
    pub color: [u32; 2],
    pub wheels: Vec<Wheel>,
    pub debris: Vec<Debrie>,
    pub slots: Vec<Slot>,
}

/// What a wheel holds.
pub ghost struct WheelView {
    pub mesh: Option<MeshView>,
    pub steer: u32,
    pub pos: [u64; 3],
    pub width: u32,
    pub radius: u32,
}

/// What a piece of debris holds.
pub ghost struct DebrieView {
    pub mesh: MeshView,
    pub shape: ShapeView,
}

/// What a slot holds.
pub ghost struct SlotView {
    pub mesh: Option<MeshView>,
    pub pos: [i32; 3],
    pub angle: i32,
}

/// What a model holds.
pub ghost struct ModelView {
    pub body: MeshView,
    pub shape: ShapeView,
    pub color: [u32; 2],
    pub wheels: Seq<WheelView>,
    pub debris: Seq<DebrieView>,
    pub slots: Seq<SlotView>,
}

impl View for Wheel {
    type V = WheelView;

    open spec fn view(&self) -> WheelView {
        WheelView {
            mesh: match self.mesh {
                Some(m) => Some(m@),
                None => None,
            },
            steer: self.steer,
            pos: self.pos,
            width: self.width,
            radius: self.radius,
        }
    }
}

impl View for Debrie {
    type V = DebrieView;

    open spec fn view(&self) -> DebrieView {
        DebrieView { mesh: self.mesh@, shape: self.shape@ }
    }
}

impl View for Slot {
    type V = SlotView;

    open spec fn view(&self) -> SlotView {
        SlotView {
            mesh: match self.mesh {
                Some(m) => Some(m@),
                None => None,
            },
            pos: self.pos,
            angle: self.angle,
        }
    }
}

impl View for Model {
    type V = ModelView;

    open spec fn view(&self) -> ModelView {
        ModelView {
            body: self.body@,
            shape: self.shape@,
            color: self.color,
            wheels: self.wheels@.map_values(|w: Wheel| w@),
            debris: self.debris@.map_values(|x: Debrie| x@),
            slots: self.slots@.map_values(|x: Slot| x@),
        }
    }
}

/// Bytes of a wheel record before its mesh: steering flag, position, width, radius and bound
/// index.
pub const WHEEL_BYTES: usize = 40;

/// Bytes of one slot record: position and angle.
pub const SLOT_BYTES: usize = 16;

/// The `n` wheels from `q` on, and where they end.
pub open spec fn wheels_spec(d: Seq<u8>, q: int, n: nat) -> Result<(Seq<WheelView>, int), ModelError>
    decreases n,
{
    if n == 0 {
        Ok((Seq::empty(), q))
    } else if !fits(d, q, WHEEL_BYTES as int) {
        Err(ModelError::UnexpectedEndOfStream)
    } else {
        let steer = le_u32(d, q) as u32;
        let bare = WheelView {
            mesh: None,
            steer,
            pos: u64x3_at(d, q + 4),
            width: le_u32(d, q + 28) as u32,
            radius: le_u32(d, q + 32) as u32,
        };
        let first: Result<(WheelView, int), ModelError> = if steer != 0 {
            match mesh_spec(d, q + WHEEL_BYTES) {
                Err(e) => Err(e),
                Ok((m, q2)) => Ok((WheelView { mesh: Some(m), ..bare }, q2)),
            }
        } else {
            Ok((bare, q + WHEEL_BYTES))
        };
        match first {
            Err(e) => Err(e),
            Ok((w, q2)) => match wheels_spec(d, q2, (n - 1) as nat) {
                Err(e) => Err(e),
                Ok((ws, end)) => Ok((seq![w] + ws, end)),
            },
        }
    }
}

/// The `n` pieces of debris from `q` on, each a mesh and a shape, and where they end.
pub open spec fn debris_spec(d: Seq<u8>, q: int, n: nat) -> Result<(Seq<DebrieView>, int), ModelError>
    decreases n,
{
    if n == 0 {
        Ok((Seq::empty(), q))
    } else {
        match mesh_spec(d, q) {
            Err(e) => Err(e),
            Ok((m, q1)) => match shape_spec(d, q1, false) {
                Err(e) => Err(e),
                Ok((sh, q2)) => match debris_spec(d, q2, (n - 1) as nat) {
                    Err(e) => Err(e),
                    Ok((ds, end)) => Ok((seq![DebrieView { mesh: m, shape: sh }] + ds, end)),
                },
            },
        }
    }
}

/// Whether bit `k` of the slot mask is set.
pub open spec fn slot_bit(mask: u32, k: int) -> bool {
    if k == 0 {
        mask & 1u32 != 0
    } else if k == 1 {
        mask & 2u32 != 0
    } else {
        mask & 4u32 != 0
    }
}

/// Number of the three slot bits that are set.
pub open spec fn slot_count(mask: u32) -> int {
    (if slot_bit(mask, 0) { 1int } else { 0int }) + (if slot_bit(mask, 1) { 1int } else { 0int }) + (
    if slot_bit(mask, 2) { 1int } else { 0int })
}

/// The slots whose bit is set, in record order.
pub open spec fn selected_slots(mask: u32, all: Seq<SlotView>) -> Seq<SlotView> {
    (if slot_bit(mask, 0) { seq![all[0]] } else { Seq::empty() }) + (if slot_bit(mask, 1) {
        seq![all[1]]
    } else {
        Seq::empty()
    }) + (if slot_bit(mask, 2) { seq![all[2]] } else { Seq::empty() })
}

/// Slot record `k` of the table at `q`, without a mesh.
pub open spec fn slot_at(d: Seq<u8>, q: int, k: int) -> SlotView {
    SlotView { mesh: None, pos: vec3_at(d, q + SLOT_BYTES * k), angle: le_i32(d, q + SLOT_BYTES * k + 12) as i32 }
}

/// The model of the `m3d` container at `p`, and where it ends.
pub open spec fn m3d_spec(d: Seq<u8>, p: int) -> Result<(ModelView, int), ModelError> {
    match mesh_spec(d, p) {
        Err(e) => Err(e),
        Ok((body, p1)) => if !fits(d, p1, 32) {
            Err(ModelError::UnexpectedEndOfStream)
        } else {
            match wheels_spec(d, p1 + 32, le_u32(d, p1 + 16) as nat) {
                Err(e) => Err(e),
                Ok((ws, p2)) => match debris_spec(d, p2, le_u32(d, p1 + 20) as nat) {
                    Err(e) => Err(e),
                    Ok((ds, p3)) => match shape_spec(d, p3, true) {
                        Err(e) => Err(e),
                        Ok((sh, p4)) => if !fits(d, p4, 4 + SLOT_BYTES * MAX_SLOTS) {
                            Err(ModelError::UnexpectedEndOfStream)
                        } else {
                            let all = Seq::new(MAX_SLOTS as nat, |k: int| slot_at(d, p4 + 4, k));
                            Ok(
                                (
                                    ModelView {
                                        body,
                                        shape: sh,
                                        color: [le_u32(d, p1 + 24) as u32, le_u32(d, p1 + 28) as u32],
                                        wheels: ws,
                                        debris: ds,
                                        slots: selected_slots(le_u32(d, p4) as u32, all),
                                    },
                                    p4 + 4 + SLOT_BYTES * MAX_SLOTS,
                                ),
                            )
                        },
                    },
                },
            }
        },
    }
}

/// Keeps the slots whose bit is set in `slot_mask`, in order; there are as many as bits set
/// among the three low ones.
pub fn filter_slots(slot_mask: u32, slots: Vec<Slot>) -> (r: Vec<Slot>)
    requires
        slots@.len() == MAX_SLOTS,
    ensures
        r@.map_values(|x: Slot| x@) == selected_slots(slot_mask, slots@.map_values(|x: Slot| x@)),
        r@.len() == slot_count(slot_mask),
{
    let ghost all = slots@.map_values(|x: Slot| x@);
    let mut out: Vec<Slot> = Vec::new();
    let mut k: u32 = 0;
    let mut rest = slots;
    while k < MAX_SLOTS
        invariant
            k <= MAX_SLOTS,
            rest@.len() == MAX_SLOTS - k,
            forall|j: int| 0 <= j < rest@.len() ==> (#[trigger] rest@[j])@ == all[k + j],
            all.len() == MAX_SLOTS,
            out@.map_values(|x: Slot| x@) == selected_slots(slot_mask, all).subrange(
                0,
                slot_count_below(slot_mask, k as int),
            ),
            out@.len() == slot_count_below(slot_mask, k as int),
        decreases MAX_SLOTS - k,
    {
        let ghost r0 = rest@;
        let slot = rest.remove(0);
        assert(slot@ == all[k as int]);
        assert(forall|j: int| 0 <= j < rest@.len() ==> rest@[j] == r0[j + 1]);
        let bit: u32 = 1u32 << k;
        proof {
            lemma_slot_bit(slot_mask, k);
        }
        if slot_mask & bit != 0 {
            let ghost before = out@;
            out.push(slot);
            assert(out@.map_values(|x: Slot| x@) =~= before.map_values(|x: Slot| x@).push(slot@));
        }
        k = k + 1;
        assert(out@.map_values(|x: Slot| x@) =~= selected_slots(slot_mask, all).subrange(
            0,
            slot_count_below(slot_mask, k as int),
        ));
    }
    assert(selected_slots(slot_mask, all).subrange(0, slot_count(slot_mask)) =~= selected_slots(
        slot_mask,
        all,
    ));
    out
}

/// Number of the slot bits below `k` that are set.
pub open spec fn slot_count_below(mask: u32, k: int) -> int {
    (if k > 0 && slot_bit(mask, 0) { 1int } else { 0int }) + (if k > 1 && slot_bit(mask, 1) {
        1int
    } else {
        0int
    }) + (if k > 2 && slot_bit(mask, 2) { 1int } else { 0int })
}

proof fn lemma_slot_bit(mask: u32, k: u32)
    requires
        k < 3,
    ensures
        ((mask & (1u32 << k)) != 0) == slot_bit(mask, k as int),
{
    if k == 0 {
        assert(1u32 << 0u32 == 1u32) by (bit_vector);
    } else if k == 1 {
        assert(1u32 << 1u32 == 2u32) by (bit_vector);
    } else {
        assert(1u32 << 2u32 == 4u32) by (bit_vector);
    }
}

/// Reads `n` wheels at `*pos` and moves the cursor past them.
fn read_wheels(d: &[u8], pos: &mut usize, n: u32) -> (r: Result<Vec<Wheel>, ModelError>)
    ensures
        match r {
            Ok(ws) => wheels_spec(d@, *old(pos) as int, n as nat) == Ok::<(Seq<WheelView>, int), ModelError>(
                (ws@.map_values(|w: Wheel| w@), *final(pos) as int),
            ),
            Err(e) => wheels_spec(d@, *old(pos) as int, n as nat) == Err::<
                (Seq<WheelView>, int),
                ModelError,
            >(e),
        },
{
    let ghost whole = wheels_spec(d@, *pos as int, n as nat);
    let len = d.len();
    let mut wheels: Vec<Wheel> = Vec::new();
    let mut i: u32 = 0;
    while i < n
        invariant
            len == d@.len(),
            i <= n,
            whole == wheels_spec(d@, *old(pos) as int, n as nat),
            whole == match wheels_spec(d@, *pos as int, (n - i) as nat) {
                Ok((ws, end)) => Ok::<(Seq<WheelView>, int), ModelError>(
                    (wheels@.map_values(|w: Wheel| w@) + ws, end),
                ),
                Err(e) => Err(e),
            },
        decreases n - i,
    {
        let q = *pos;
        if q > len || len - q < WHEEL_BYTES {
            return Err(ModelError::UnexpectedEndOfStream);
        }
        let mut c: usize = q;
        let steer = read_u32(d, &mut c).unwrap();
        let p0 = read_u64(d, &mut c).unwrap();
        let p1 = read_u64(d, &mut c).unwrap();
        let p2 = read_u64(d, &mut c).unwrap();
        let width = read_u32(d, &mut c).unwrap();
        let radius = read_u32(d, &mut c).unwrap();
        let _bound_index = read_u32(d, &mut c).unwrap();
        let mesh = if steer != 0 {
            match load_c3d(d, &mut c) {
                Ok(m) => Some(m),
                Err(e) => {
                    return Err(e);
                },
            }
        } else {
            None
        };
        let wheel = Wheel { mesh, steer, pos: [p0, p1, p2], width, radius };
        let ghost before = wheels@;
        wheels.push(wheel);
        *pos = c;
        proof {
            assert(wheels@.map_values(|w: Wheel| w@) =~= before.map_values(|w: Wheel| w@).push(
                wheel@,
            ));
            match wheels_spec(d@, c as int, (n - i - 1) as nat) {
                Ok((ws, end)) => {
                    assert(before.map_values(|w: Wheel| w@) + (seq![wheel@] + ws) =~= wheels@.map_values(
                        |w: Wheel| w@,
                    ) + ws);
                },
                Err(e) => {},
            }
        }
        i = i + 1;
    }
    assert(wheels@.map_values(|w: Wheel| w@) + Seq::<WheelView>::empty() =~= wheels@.map_values(
        |w: Wheel| w@,
    ));
    Ok(wheels)
}

/// Reads `n` pieces of debris at `*pos` and moves the cursor past them.
fn read_debris(d: &[u8], pos: &mut usize, n: u32) -> (r: Result<Vec<Debrie>, ModelError>)
    ensures
        match r {
            Ok(ds) => debris_spec(d@, *old(pos) as int, n as nat) == Ok::<(Seq<DebrieView>, int), ModelError>(
                (ds@.map_values(|x: Debrie| x@), *final(pos) as int),
            ),
            Err(e) => debris_spec(d@, *old(pos) as int, n as nat) == Err::<
                (Seq<DebrieView>, int),
                ModelError,
            >(e),
        },
{
    let ghost whole = debris_spec(d@, *pos as int, n as nat);
    let mut debris: Vec<Debrie> = Vec::new();
    let mut i: u32 = 0;
    while i < n
        invariant
            i <= n,
            whole == debris_spec(d@, *old(pos) as int, n as nat),
            whole == match debris_spec(d@, *pos as int, (n - i) as nat) {
                Ok((ds, end)) => Ok::<(Seq<DebrieView>, int), ModelError>(
                    (debris@.map_values(|x: Debrie| x@) + ds, end),
                ),
                Err(e) => Err(e),
            },
        decreases n - i,
    {
        let mesh = match load_c3d(d, pos) {
            Ok(m) => m,
            Err(e) => {
                return Err(e);
            },
        };
        let shape = match load_c3d_shape(d, pos, false) {
            Ok(s) => s,
            Err(e) => {
                return Err(e);
            },
        };
        let piece = Debrie { mesh, shape };
        let ghost before = debris@;
        debris.push(piece);
        proof {
            assert(debris@.map_values(|x: Debrie| x@) =~= before.map_values(|x: Debrie| x@).push(
                piece@,
            ));
            match debris_spec(d@, *pos as int, (n - i - 1) as nat) {
                Ok((ds, end)) => {
                    assert(before.map_values(|x: Debrie| x@) + (seq![piece@] + ds) =~= debris@.map_values(
                        |x: Debrie| x@,
                    ) + ds);
                },
                Err(e) => {},
            }
        }
        i = i + 1;
    }
    assert(debris@.map_values(|x: Debrie| x@) + Seq::<DebrieView>::empty() =~= debris@.map_values(
        |x: Debrie| x@,
    ));
    Ok(debris)
}

/// Decodes the `m3d` model at `*pos`: the body, the wheels, the debris, the collision shape
/// with its debug view, and the slots selected by the slot mask; moves the cursor to its end.
pub fn load_m3d(d: &[u8], pos: &mut usize) -> (r: Result<Model, ModelError>)
    ensures
        match r {
            Ok(m) => m3d_spec(d@, *old(pos) as int) == Ok::<(ModelView, int), ModelError>(
                (m@, *final(pos) as int),
            ),
            Err(e) => m3d_spec(d@, *old(pos) as int) == Err::<(ModelView, int), ModelError>(e),
        },
{
    let len = d.len();
    let body = match load_c3d(d, pos) {
        Ok(m) => m,
        Err(e) => {
            return Err(e);
        },
    };
    let p1 = *pos;
    if p1 > len || len - p1 < 32 {
        return Err(ModelError::UnexpectedEndOfStream);
    }
    let mut c: usize = p1 + 16;
    let num_wheels = read_u32(d, &mut c).unwrap();
    let num_debris = read_u32(d, &mut c).unwrap();
    let c0 = read_u32(d, &mut c).unwrap();
    let c1 = read_u32(d, &mut c).unwrap();
    let wheels = match read_wheels(d, &mut c, num_wheels) {
        Ok(w) => w,
        Err(e) => {
            return Err(e);
        },
    };
    let debris = match read_debris(d, &mut c, num_debris) {
        Ok(x) => x,
        Err(e) => {
            return Err(e);
        },
    };
    let shape = match load_c3d_shape(d, &mut c, true) {
        Ok(s) => s,
        Err(e) => {
            return Err(e);
        },
    };
    let p4 = c;
    if p4 > len || len - p4 < 4 + SLOT_BYTES * 3 {
        return Err(ModelError::UnexpectedEndOfStream);
    }
    let slot_mask = read_u32(d, &mut c).unwrap();
    let ghost base = c as int;
    let mut all: Vec<Slot> = Vec::new();
    let mut k: usize = 0;
    while k < 3
        invariant
            k <= 3,
            base == p4 + 4,
            fits(d@, p4 as int, 4 + SLOT_BYTES * MAX_SLOTS),
            c == base + SLOT_BYTES * k,
            all@.len() == k,
            forall|j: int| 0 <= j < k ==> (#[trigger] all@[j])@ == slot_at(d@, base, j),
        decreases 3 - k,
    {
        let spos = read_vec3(d, &mut c);
        let angle = read_i32(d, &mut c).unwrap();
        all.push(Slot { mesh: None, pos: spos, angle });
        k = k + 1;
    }
    proof {
        assert(all@.map_values(|x: Slot| x@) =~= Seq::new(
            MAX_SLOTS as nat,
            |k: int| slot_at(d@, base, k),
        ));
    }
    let slots = filter_slots(slot_mask, all);
    *pos = c;
    Ok(Model { body, shape, color: [c0, c1], wheels, debris, slots })
}

/// Decoded shape polygons take at least 47 bytes each, all within the data.
proof fn lemma_shape_polygons_size(d: Seq<u8>, q: int, h: Header, pb: int, s0: int, n: nat)
    ensures
        shape_polygons(d, q, h, pb, s0, n) matches Ok((ps, ss, es, end)) ==> q + 47 * n <= end
            && (n > 0 ==> end <= d.len()),
    decreases n,
{
    if n > 0 {
        match shape_polygon(d, q, h, pb, s0) {
            Err(e) => {},
            Ok((poly, ss, es, next)) => {
                lemma_shape_polygons_size(d, next, h, pb, s0 + ss.len(), (n - 1) as nat);
            },
        }
    }
}

/// Every polygon of a decoded shape owns four or five samples: its middle and one per corner.
pub proof fn shape_sample_ranges(d: Seq<u8>, p: int, with_debug: bool)
    requires
        d.len() <= usize::MAX,
        shape_spec(d, p, with_debug) is Ok,
    ensures
        sample_ranges_ok(shape_spec(d, p, with_debug).unwrap().0.polygons),
{
    reveal(shape_spec);
    let h = header_spec(d, p).unwrap();
    let (pb, nb, g) = tables_at(h, p);
    let n = h.num_polygons as nat;
    lemma_shape_polygons_size(d, g, h, pb, 0, n);
    lemma_sample_ranges(d, g, h, pb, 0, n);
}

/// The colour id of a drawn vertex is the stored one when that is a valid id, the body colour
/// otherwise; either way it is a valid id.
pub proof fn color_id_in_range(k: VertexKey)
    ensures
        object_vertex(k).color < NUM_COLOR_IDS,
        k.color[0] < NUM_COLOR_IDS ==> object_vertex(k).color == k.color[0],
        k.color[0] >= NUM_COLOR_IDS ==> object_vertex(k).color == COLOR_ID_BODY,
{
}

/// Every vertex of a decoded mesh carries a valid colour id.
pub proof fn mesh_color_ids_in_range(d: Seq<u8>, p: int)
    requires
        mesh_spec(d, p) is Ok,
    ensures
        forall|i: int|
            0 <= i < mesh_spec(d, p).unwrap().0.vertices.len() ==> (#[trigger] mesh_spec(
                d,
                p,
            ).unwrap().0.vertices[i]).color < NUM_COLOR_IDS,
{
    reveal(mesh_spec);
}

/// A model keeps as many slots as its slot mask has bits set among the three low ones.
pub proof fn selected_slot_count(mask: u32, all: Seq<SlotView>)
    ensures
        selected_slots(mask, all).len() == slot_count(mask),
{
}

} // verus!
