//! The entropy decoder of compressed level grids: two static binary code trees, read once from
//! the stream, that turn bits into byte symbols.
use crate::bytes::{fits, le_i32, read_i32};
use vstd::prelude::*;

verus! {

/// Number of `i32` entries of one code tree: two children for each of 256 nodes.
pub const TREE_ENTRIES: usize = 512;

/// Number of bytes that the two trees take in the stream.
pub const TABLES_BYTES: usize = 4096;

/// Why decoding failed.
#[derive(Debug, Clone, Copy, PartialEq, Eq)]
pub enum SplayError {
    /// The stream ended before a table or a symbol was complete.
    UnexpectedEndOfStream,
    /// A table entry names neither a node nor a symbol.
    InvalidSplayTable,
}

/// A code tree: entry `2 * k + b` is the child of node `k` on bit `b`. A positive entry is the
/// index of the next node, any other entry `v` is a leaf that emits the symbol `-v`.
pub open spec fn tree_ok(t: Seq<i32>) -> bool {
    &&& t.len() == TREE_ENTRIES
    &&& forall|i: int| 0 <= i < t.len() ==> -255 <= #[trigger] t[i] <= 255
}

/// The tree stored at byte `p` as 512 little-endian `i32`s.
pub open spec fn tree_at(d: Seq<u8>, p: int) -> Seq<i32> {
    Seq::new(TREE_ENTRIES as nat, |i: int| le_i32(d, p + 4 * i) as i32)
}

/// Bit `k` of byte `i`, counting from the most significant bit.
pub open spec fn bit_at(d: Seq<u8>, i: int, k: int) -> u8 {
    (d[i] >> ((7 - k) as u8)) & 1u8
}

/// Walks tree `t` from `node`, reading bit `k` of byte `i` and the bits after it, until a leaf;
/// the symbol of the leaf and the byte that follows the one holding its last bit. `None` when
/// the bytes end first.
pub open spec fn walk(t: Seq<i32>, d: Seq<u8>, i: int, k: int, node: int) -> Option<(u8, int)>
    decreases d.len() - i, 8 - k,
{
    if i < 0 || i >= d.len() || k < 0 || k >= 8 || node < 0 || node >= 256 || t.len()
        != TREE_ENTRIES {
        None
    } else {
        let v = t[2 * node + bit_at(d, i, k)];
        if v <= 0 {
            Some(((-v) as u8, i + 1))
        } else if k == 7 {
            walk(t, d, i + 1, 0, v as int)
        } else {
            walk(t, d, i, k + 1, v as int)
        }
    }
}

/// The symbol that tree `t` decodes from the bytes at `p` on, and where the next symbol starts.
pub open spec fn symbol(t: Seq<i32>, d: Seq<u8>, p: int) -> Option<(u8, int)> {
    walk(t, d, p, 0, 0)
}

/// The pair of code trees.
pub struct Splay {
    tree1: Vec<i32>,
    tree2: Vec<i32>,
}

impl Splay {
    /// Both trees are well formed.
    pub open spec fn wf(&self) -> bool {
        tree_ok(self.tree1()) && tree_ok(self.tree2())
    }

    /// The first tree, which decodes heights.
    pub closed spec fn tree1(&self) -> Seq<i32> {
        self.tree1@
    }

    /// The second tree, which decodes cell metadata.
    pub closed spec fn tree2(&self) -> Seq<i32> {
        self.tree2@
    }

    /// Reads the two trees at `*pos`, the first then the second, and moves the cursor past them.
    pub fn new(d: &[u8], pos: &mut usize) -> (r: Result<Splay, SplayError>)
        ensures
            match r {
                Ok(s) => {
                    &&& fits(d@, *old(pos) as int, TABLES_BYTES as int)
                    &&& s.wf()
                    &&& s.tree1() == tree_at(d@, *old(pos) as int)
                    &&& s.tree2() == tree_at(d@, *old(pos) + 2048)
                    &&& *final(pos) == *old(pos) + TABLES_BYTES
                },
                Err(SplayError::UnexpectedEndOfStream) => !fits(
                    d@,
                    *old(pos) as int,
                    TABLES_BYTES as int,
                ),
                Err(SplayError::InvalidSplayTable) => {
                    &&& fits(d@, *old(pos) as int, TABLES_BYTES as int)
                    &&& !(tree_ok(tree_at(d@, *old(pos) as int)) && tree_ok(
                        tree_at(d@, *old(pos) + 2048),
                    ))
                },
            },
    {
        let p = *pos;
        if p > d.len() || d.len() - p < TABLES_BYTES {
            return Err(SplayError::UnexpectedEndOfStream);
        }
        let mut q = p;
        let tree1 = read_tree(d, &mut q);
        let tree2 = read_tree(d, &mut q);
        match (tree1, tree2) {
            (Some(t1), Some(t2)) => {
                *pos = q;
                Ok(Splay { tree1: t1, tree2: t2 })
            },
            _ => Err(SplayError::InvalidSplayTable),
        }
    }

    /// Decodes one height symbol with the first tree and appends it to `out`.
    pub fn expand1(&self, d: &[u8], pos: &mut usize, out: &mut Vec<u8>) -> (r: Result<
        (),
        SplayError,
    >)
        requires
            self.wf(),
        ensures
            expanded(self.tree1(), d@, *old(pos) as int, *final(pos) as int, old(out)@, final(out)@, r),
    {
        expand(&self.tree1, d, pos, out)
    }

    /// Decodes one metadata symbol with the second tree and appends it to `out`.
    pub fn expand2(&self, d: &[u8], pos: &mut usize, out: &mut Vec<u8>) -> (r: Result<
        (),
        SplayError,
    >)
        requires
            self.wf(),
        ensures
            expanded(self.tree2(), d@, *old(pos) as int, *final(pos) as int, old(out)@, final(out)@, r),
    {
        expand(&self.tree2, d, pos, out)
    }
}

/// What decoding one symbol with tree `t` at byte `p` does: on success the symbol is appended
/// and the cursor moves to the next symbol; when the bytes end first nothing changes.
pub open spec fn expanded(
    t: Seq<i32>,
    d: Seq<u8>,
    p: int,
    p2: int,
    out: Seq<u8>,
    out2: Seq<u8>,
    r: Result<(), SplayError>,
) -> bool {
    match symbol(t, d, p) {
        Some((s, next)) => r is Ok && out2 == out.push(s) && p2 == next,
        None => r == Err::<(), SplayError>(SplayError::UnexpectedEndOfStream) && out2 == out
            && p2 == p,
    }
}

/// Reads one tree at `*pos`; `None` when an entry is out of range.
fn read_tree(d: &[u8], pos: &mut usize) -> (r: Option<Vec<i32>>)
    requires
        fits(d@, *old(pos) as int, 2048),
    ensures
        *final(pos) == *old(pos) + 2048,
        match r {
            Some(t) => tree_ok(t@) && t@ == tree_at(d@, *old(pos) as int),
            None => !tree_ok(tree_at(d@, *old(pos) as int)),
        },
{
    let ghost p0 = *pos as int;
    let mut t: Vec<i32> = Vec::new();
    let mut ok = true;
    let mut i: usize = 0;
    while i < TREE_ENTRIES
        invariant
            0 <= i <= TREE_ENTRIES,
            *pos == p0 + 4 * i,
            fits(d@, p0, 2048),
            t@.len() == i,
            forall|j: int| 0 <= j < i ==> t@[j] == tree_at(d@, p0)[j],
            ok <==> forall|j: int| 0 <= j < i ==> -255 <= #[trigger] t@[j] <= 255,
        decreases TREE_ENTRIES - i,
    {
        let v = read_i32(d, pos).unwrap();
        let ghost old_t = t@;
        if v < -255 || v > 255 {
            ok = false;
        }
        t.push(v);
        proof {
            assert(t@[i as int] == v);
            assert(forall|j: int| 0 <= j < i ==> t@[j] == old_t[j]);
            if !(-255 <= v <= 255) {
                assert(!(-255 <= t@[i as int] <= 255));
            }
        }
        i = i + 1;
    }
    assert(t@ == tree_at(d@, p0));
    if ok {
        Some(t)
    } else {
        None
    }
}

/// Decodes one symbol with tree `t` at `*pos` and appends it to `out`.
fn expand(t: &Vec<i32>, d: &[u8], pos: &mut usize, out: &mut Vec<u8>) -> (r: Result<
    (),
    SplayError,
>)
    requires
        tree_ok(t@),
    ensures
        expanded(t@, d@, *old(pos) as int, *final(pos) as int, old(out)@, final(out)@, r),
{
    let mut i: usize = *pos;
    let mut k: usize = 0;
    let mut node: usize = 0;
    while i < d.len()
        invariant
            tree_ok(t@),
            k < 8,
            node < 256,
            *pos == *old(pos),
            *out == *old(out),
            symbol(t@, d@, *pos as int) == walk(t@, d@, i as int, k as int, node as int),
        decreases d.len() - i, 8 - k,
    {
        let byte = d[i];
        let shift = (7 - k) as u8;
        let bit = (byte >> shift) & 1u8;
        assert(bit <= 1) by (bit_vector)
            requires
                bit == (byte >> shift) & 1u8,
        ;
        let v = t[2 * node + bit as usize];
        if v <= 0 {
            out.push((0 - v) as u8);
            *pos = i + 1;
            return Ok(());
        }
        node = v as usize;
        if k == 7 {
            i = i + 1;
            k = 0;
        } else {
            k = k + 1;
        }
    }
    Err(SplayError::UnexpectedEndOfStream)
}

} // verus!
