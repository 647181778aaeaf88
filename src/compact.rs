//! Vertex compaction of meshes: corners are sorted by their vertex key, equal keys share one
//! vertex, and each corner gets the index of its vertex.
use vstd::prelude::*;

verus! {

/// What makes two mesh corners the same vertex: position, normal and colour pair.
#[derive(Clone, Copy, Debug, PartialEq, Eq)]
pub struct VertexKey {
    pub pos: [i8; 4],
    pub normal: [u8; 4],
    pub color: [u32; 2],
}

/// A corner: its index in the mesh and its vertex key.
pub type Corner = (usize, VertexKey);

/// Lexicographic order on keys: position components first, then normal, then colour.
pub open spec fn key_lt(a: VertexKey, b: VertexKey) -> bool {
    if a.pos[0] != b.pos[0] {
        a.pos[0] < b.pos[0]
    } else if a.pos[1] != b.pos[1] {
        a.pos[1] < b.pos[1]
    } else if a.pos[2] != b.pos[2] {
        a.pos[2] < b.pos[2]
    } else if a.pos[3] != b.pos[3] {
        a.pos[3] < b.pos[3]
    } else if a.normal[0] != b.normal[0] {
        a.normal[0] < b.normal[0]
    } else if a.normal[1] != b.normal[1] {
        a.normal[1] < b.normal[1]
    } else if a.normal[2] != b.normal[2] {
        a.normal[2] < b.normal[2]
    } else if a.normal[3] != b.normal[3] {
        a.normal[3] < b.normal[3]
    } else if a.color[0] != b.color[0] {
        a.color[0] < b.color[0]
    } else if a.color[1] != b.color[1] {
        a.color[1] < b.color[1]
    } else {
        false
    }
}

/// The order on keys is a strict total order.
pub proof fn lemma_key_order(a: VertexKey, b: VertexKey, c: VertexKey)
    ensures
        !key_lt(a, a),
        key_lt(a, b) ==> !key_lt(b, a),
        key_lt(a, b) && key_lt(b, c) ==> key_lt(a, c),
        key_lt(a, b) || key_lt(b, a) || a == b,
{
    if !key_lt(a, b) && !key_lt(b, a) {
        assert(a.pos =~= b.pos);
        assert(a.normal =~= b.normal);
        assert(a.color =~= b.color);
    }
}

/// Compares two keys in the lexicographic order.
pub fn key_less(a: &VertexKey, b: &VertexKey) -> (r: bool)
    ensures
        r == key_lt(*a, *b),
{
    if a.pos[0] != b.pos[0] {
        a.pos[0] < b.pos[0]
    } else if a.pos[1] != b.pos[1] {
        a.pos[1] < b.pos[1]
    } else if a.pos[2] != b.pos[2] {
        a.pos[2] < b.pos[2]
    } else if a.pos[3] != b.pos[3] {
        a.pos[3] < b.pos[3]
    } else if a.normal[0] != b.normal[0] {
        a.normal[0] < b.normal[0]
    } else if a.normal[1] != b.normal[1] {
        a.normal[1] < b.normal[1]
    } else if a.normal[2] != b.normal[2] {
        a.normal[2] < b.normal[2]
    } else if a.normal[3] != b.normal[3] {
        a.normal[3] < b.normal[3]
    } else if a.color[0] != b.color[0] {
        a.color[0] < b.color[0]
    } else if a.color[1] != b.color[1] {
        a.color[1] < b.color[1]
    } else {
        false
    }
}

/// Inserts `x` into `s` after every element whose key is not above its own.
pub open spec fn insert_by_key(s: Seq<Corner>, x: Corner) -> Seq<Corner>
    decreases s.len(),
{
    if s.len() == 0 {
        seq![x]
    } else if key_lt(x.1, s.last().1) {
        insert_by_key(s.drop_last(), x).push(s.last())
    } else {
        s.push(x)
    }
}

/// `s` sorted by key, corners of equal keys kept in their order.
pub open spec fn sort_by_key(s: Seq<Corner>) -> Seq<Corner>
    decreases s.len(),
{
    if s.len() == 0 {
        s
    } else {
        insert_by_key(sort_by_key(s.drop_last()), s.last())
    }
}

/// No corner has a smaller key than one before it.
pub open spec fn sorted_by_key(s: Seq<Corner>) -> bool {
    forall|i: int, j: int| 0 <= i < j < s.len() ==> !key_lt(#[trigger] s[j].1, #[trigger] s[i].1)
}

proof fn lemma_insert(s: Seq<Corner>, x: Corner)
    ensures
        insert_by_key(s, x).len() == s.len() + 1,
        forall|y: Corner| #[trigger]
            insert_by_key(s, x).contains(y) <==> (s.contains(y) || y == x),
        sorted_by_key(s) ==> sorted_by_key(insert_by_key(s, x)),
    decreases s.len(),
{
    let r = insert_by_key(s, x);
    if s.len() == 0 {
        assert(r =~= seq![x]);
        assert forall|y: Corner| #[trigger] r.contains(y) <==> (s.contains(y) || y == x) by {
            if r.contains(y) {
                let k = choose|k: int| 0 <= k < r.len() && r[k] == y;
                assert(k == 0);
            }
            if y == x {
                assert(r[0] == y);
            }
        }
    } else if key_lt(x.1, s.last().1) {
        let t = s.drop_last();
        lemma_insert(t, x);
        let u = insert_by_key(t, x);
        assert forall|y: Corner| #[trigger] r.contains(y) <==> (s.contains(y) || y == x) by {
            if r.contains(y) {
                let k = choose|k: int| 0 <= k < r.len() && r[k] == y;
                if k < u.len() {
                    assert(u.contains(y));
                    if t.contains(y) {
                        let m = choose|m: int| 0 <= m < t.len() && t[m] == y;
                        assert(s[m] == y);
                    }
                } else {
                    assert(s[s.len() - 1] == y);
                }
            }
            if s.contains(y) {
                let m = choose|m: int| 0 <= m < s.len() && s[m] == y;
                if m < t.len() {
                    assert(t[m] == y);
                    assert(u.contains(y));
                    let k = choose|k: int| 0 <= k < u.len() && u[k] == y;
                    assert(r[k] == y);
                } else {
                    assert(r[r.len() - 1] == y);
                }
            }
            if y == x {
                assert(u.contains(y));
                let k = choose|k: int| 0 <= k < u.len() && u[k] == y;
                assert(r[k] == y);
            }
        }
        if sorted_by_key(s) {
            assert(sorted_by_key(t));
            assert forall|i: int, j: int| 0 <= i < j < r.len() implies !key_lt(
                #[trigger] r[j].1,
                #[trigger] r[i].1,
            ) by {
                if j == r.len() - 1 {
                    assert(u.contains(r[i]));
                    if t.contains(r[i]) {
                        let m = choose|m: int| 0 <= m < t.len() && t[m] == r[i];
                        assert(s[m] == r[i]);
                    } else {
                        assert(r[i] == x);
                        lemma_key_order(x.1, s.last().1, x.1);
                    }
                } else {
                    assert(r[j] == u[j] && r[i] == u[i]);
                }
            }
        }
    } else {
        assert forall|y: Corner| #[trigger] r.contains(y) <==> (s.contains(y) || y == x) by {
            if r.contains(y) {
                let k = choose|k: int| 0 <= k < r.len() && r[k] == y;
                if k < s.len() {
                    assert(s[k] == y);
                }
            }
            if s.contains(y) {
                let m = choose|m: int| 0 <= m < s.len() && s[m] == y;
                assert(r[m] == y);
            }
            if y == x {
                assert(r[r.len() - 1] == y);
            }
        }
        if sorted_by_key(s) {
            assert forall|i: int, j: int| 0 <= i < j < r.len() implies !key_lt(
                #[trigger] r[j].1,
                #[trigger] r[i].1,
            ) by {
                if j == r.len() - 1 {
                    if i < s.len() - 1 {
                        assert(!key_lt(s[s.len() - 1].1, s[i].1));
                        lemma_key_order(x.1, s[i].1, s.last().1);
                        lemma_key_order(s.last().1, s[i].1, x.1);
                        lemma_key_order(s[i].1, s.last().1, x.1);
                        lemma_key_order(x.1, s.last().1, s[i].1);
                    }
                } else {
                    assert(r[j] == s[j] && r[i] == s[i]);
                }
            }
        }
    }
}

/// Sorting keeps the corners and puts them in key order.
pub proof fn lemma_sort(s: Seq<Corner>)
    ensures
        sort_by_key(s).len() == s.len(),
        forall|y: Corner| #[trigger] sort_by_key(s).contains(y) <==> s.contains(y),
        sorted_by_key(sort_by_key(s)),
    decreases s.len(),
{
    if s.len() > 0 {
        let t = s.drop_last();
        lemma_sort(t);
        lemma_insert(sort_by_key(t), s.last());
        assert forall|y: Corner| #[trigger] sort_by_key(s).contains(y) <==> s.contains(y) by {
            if s.contains(y) {
                let m = choose|m: int| 0 <= m < s.len() && s[m] == y;
                if m < t.len() {
                    assert(t[m] == y);
                }
            }
            if t.contains(y) {
                let m = choose|m: int| 0 <= m < t.len() && t[m] == y;
                assert(s[m] == y);
            }
        }
    }
}

/// Sorting corners that are already in key order leaves them as they are.
pub proof fn lemma_sort_sorted(s: Seq<Corner>)
    requires
        sorted_by_key(s),
    ensures
        sort_by_key(s) == s,
    decreases s.len(),
{
    if s.len() > 0 {
        let t = s.drop_last();
        assert(sorted_by_key(t));
        lemma_sort_sorted(t);
        assert(!key_lt(s.last().1, t.last().1) || t.len() == 0);
        if t.len() > 0 {
            assert(!key_lt(s[s.len() - 1].1, s[t.len() - 1].1));
        }
        assert(t.push(s.last()) =~= s);
    }
}

/// Sorting corners by key twice gives the order that sorting once gives.
pub proof fn sort_is_idempotent(s: Seq<Corner>)
    ensures
        sort_by_key(sort_by_key(s)) == sort_by_key(s),
{
    lemma_sort(s);
    lemma_sort_sorted(sort_by_key(s));
}

/// Inserts `x` into corners that are in key order, after those whose key is not above its own.
fn insert_sorted(out: &mut Vec<Corner>, x: Corner)
    ensures
        final(out)@ == insert_by_key(old(out)@, x),
{
    let ghost a = out@;
    out.push(x);
    let mut j: usize = out.len() - 1;
    assert(a.subrange(0, j as int) =~= a);
    assert(insert_by_key(a, x) =~= insert_by_key(a.subrange(0, j as int), x) + a.subrange(
        j as int,
        a.len() as int,
    ));
    assert(out@ =~= a.subrange(0, j as int).push(x) + a.subrange(j as int, a.len() as int));
    while j > 0 && key_less(&out[j].1, &out[j - 1].1)
        invariant
            j < out@.len(),
            out@.len() == a.len() + 1,
            out@ == a.subrange(0, j as int).push(x) + a.subrange(j as int, a.len() as int),
            insert_by_key(a, x) == insert_by_key(a.subrange(0, j as int), x) + a.subrange(
                j as int,
                a.len() as int,
            ),
        decreases j,
    {
        let prev = out[j - 1];
        let cur = out[j];
        let ghost aj = a.subrange(0, j as int);
        assert(aj.drop_last() =~= a.subrange(0, j - 1));
        assert(aj.last() == a[j - 1]);
        assert(cur == x);
        assert(prev == a[j - 1]);
        assert(a.subrange(j - 1, a.len() as int) =~= seq![a[j - 1]] + a.subrange(
            j as int,
            a.len() as int,
        ));
        out.set(j - 1, cur);
        out.set(j, prev);
        j = j - 1;
        assert(out@ =~= a.subrange(0, j as int).push(x) + a.subrange(j as int, a.len() as int));
        assert(insert_by_key(aj, x) == insert_by_key(a.subrange(0, j as int), x).push(a[j as int]));
        assert(insert_by_key(a, x) =~= insert_by_key(a.subrange(0, j as int), x) + a.subrange(
            j as int,
            a.len() as int,
        ));
    }
    proof {
        let aj = a.subrange(0, j as int);
        if j > 0 {
            assert(out@[j as int] == x);
            assert(out@[j - 1] == a[j - 1]);
            assert(aj.last() == a[j - 1]);
        }
        assert(a.subrange(0, 0) =~= Seq::<Corner>::empty());
        assert(out@ =~= insert_by_key(aj, x) + a.subrange(j as int, a.len() as int));
    }
}

/// Sorts corners by key; corners with equal keys keep their order.
pub fn sort_corners(v: &mut Vec<Corner>)
    ensures
        final(v)@ == sort_by_key(old(v)@),
{
    let mut out: Vec<Corner> = Vec::new();
    let mut i: usize = 0;
    while i < v.len()
        invariant
            i <= v@.len(),
            out@ == sort_by_key(v@.subrange(0, i as int)),
        decreases v@.len() - i,
    {
        let x = v[i];
        insert_sorted(&mut out, x);
        assert(v@.subrange(0, i + 1).drop_last() =~= v@.subrange(0, i as int));
        i = i + 1;
    }
    assert(v@.subrange(0, v@.len() as int) =~= v@);
    *v = out;
}

/// Keys in strictly increasing order: distinct and sorted.
pub open spec fn strictly_sorted(v: Seq<VertexKey>) -> bool {
    forall|i: int, j: int| 0 <= i < j < v.len() ==> key_lt(#[trigger] v[i], #[trigger] v[j])
}

/// `verts` and `idx` are the compaction of the corner keys `keys`: the distinct keys in
/// increasing order, and for each corner the index of its key among them.
pub open spec fn compacted(keys: Seq<VertexKey>, verts: Seq<VertexKey>, idx: Seq<usize>) -> bool {
    &&& strictly_sorted(verts)
    &&& idx.len() == keys.len()
    &&& forall|c: int| 0 <= c < keys.len() ==> #[trigger] idx[c] < verts.len() && verts[idx[c] as int] == keys[c]
    &&& forall|i: int| 0 <= i < verts.len() ==> keys.contains(#[trigger] verts[i])
}

/// The compaction of `keys`.
pub open spec fn compaction(keys: Seq<VertexKey>) -> (Seq<VertexKey>, Seq<usize>) {
    choose|r: (Seq<VertexKey>, Seq<usize>)| compacted(keys, r.0, r.1)
}

proof fn lemma_strictly_sorted_unique(a: Seq<VertexKey>, b: Seq<VertexKey>)
    requires
        strictly_sorted(a),
        strictly_sorted(b),
        forall|x: VertexKey| a.contains(x) <==> b.contains(x),
    ensures
        a == b,
    decreases a.len(),
{
    if a.len() == 0 {
        if b.len() > 0 {
            assert(b.contains(b[0]));
        }
        assert(a =~= b);
    } else {
        assert(a.contains(a[0]));
        assert(b.len() > 0);
        assert(b.contains(b[0]));
        let k = choose|k: int| 0 <= k < b.len() && b[k] == a[0];
        let m = choose|m: int| 0 <= m < a.len() && a[m] == b[0];
        if k > 0 {
            assert(key_lt(b[0], b[k]));
            if m > 0 {
                assert(key_lt(a[0], a[m]));
                lemma_key_order(a[0], b[0], a[0]);
            } else {
                lemma_key_order(a[0], a[0], a[0]);
            }
        }
        assert(a[0] == b[0]);
        let a2 = a.drop_first();
        let b2 = b.drop_first();
        assert forall|x: VertexKey| a2.contains(x) <==> b2.contains(x) by {
            if a2.contains(x) {
                let i = choose|i: int| 0 <= i < a2.len() && a2[i] == x;
                assert(a.contains(x));
                assert(key_lt(a[0], a[i + 1]));
                lemma_key_order(a[0], x, x);
                let j = choose|j: int| 0 <= j < b.len() && b[j] == x;
                assert(j != 0);
                assert(b2[j - 1] == x);
            }
            if b2.contains(x) {
                let i = choose|i: int| 0 <= i < b2.len() && b2[i] == x;
                assert(b.contains(x));
                assert(key_lt(b[0], b[i + 1]));
                lemma_key_order(b[0], x, x);
                let j = choose|j: int| 0 <= j < a.len() && a[j] == x;
                assert(j != 0);
                assert(a2[j - 1] == x);
            }
        }
        lemma_strictly_sorted_unique(a2, b2);
        assert(a =~= seq![a[0]] + a2);
        assert(b =~= seq![b[0]] + b2);
    }
}

/// Compaction is a function of the corner keys: two compactions of the same keys are the same
/// vertices and the same indices.
pub proof fn compaction_is_unique(
    keys: Seq<VertexKey>,
    v1: Seq<VertexKey>,
    i1: Seq<usize>,
    v2: Seq<VertexKey>,
    i2: Seq<usize>,
)
    requires
        compacted(keys, v1, i1),
        compacted(keys, v2, i2),
    ensures
        v1 == v2,
        i1 == i2,
{
    assert forall|x: VertexKey| v1.contains(x) <==> v2.contains(x) by {
        if v1.contains(x) {
            let i = choose|i: int| 0 <= i < v1.len() && v1[i] == x;
            assert(keys.contains(v1[i]));
            let c = choose|c: int| 0 <= c < keys.len() && keys[c] == x;
            assert(i2[c] < v2.len() && v2[i2[c] as int] == keys[c]);
        }
        if v2.contains(x) {
            let i = choose|i: int| 0 <= i < v2.len() && v2[i] == x;
            assert(keys.contains(v2[i]));
            let c = choose|c: int| 0 <= c < keys.len() && keys[c] == x;
            assert(i1[c] < v1.len() && v1[i1[c] as int] == keys[c]);
        }
    }
    lemma_strictly_sorted_unique(v1, v2);
    assert forall|c: int| 0 <= c < keys.len() implies i1[c] == i2[c] by {
        let a = i1[c] as int;
        let b = i2[c] as int;
        assert(v1[a] == keys[c] && v1[b] == keys[c]);
        if a < b {
            assert(key_lt(v1[a], v1[b]));
            lemma_key_order(v1[a], v1[a], v1[a]);
        } else if b < a {
            assert(key_lt(v1[b], v1[a]));
            lemma_key_order(v1[a], v1[a], v1[a]);
        }
    }
    assert(i1 =~= i2);
}

/// The corners of `keys`, each with its index.
pub open spec fn corners_of(keys: Seq<VertexKey>) -> Seq<Corner> {
    Seq::new(keys.len(), |c: int| (c as usize, keys[c]))
}

/// Compacts the corner keys of a mesh: sorts the corners by key, gives each distinct key one
/// vertex, and maps each corner to its vertex.
pub fn compact(keys: &Vec<VertexKey>) -> (r: (Vec<VertexKey>, Vec<usize>))
    ensures
        compacted(keys@, r.0@, r.1@),
        (r.0@, r.1@) == compaction(keys@),
{
    let n = keys.len();
    let mut corners: Vec<Corner> = Vec::new();
    let mut indices: Vec<usize> = Vec::new();
    let mut c: usize = 0;
    while c < n
        invariant
            n == keys@.len(),
            c <= n,
            corners@ == corners_of(keys@).subrange(0, c as int),
            indices@.len() == c,
        decreases n - c,
    {
        corners.push((c, keys[c]));
        indices.push(0);
        c = c + 1;
        assert(corners@ =~= corners_of(keys@).subrange(0, c as int));
    }
    let ghost all = corners_of(keys@);
    assert(corners@ =~= all);
    sort_corners(&mut corners);
    proof {
        lemma_sort(all);
    }
    let ghost s = corners@;
    assert forall|j: int| 0 <= j < s.len() implies (#[trigger] s[j]).0 < n && s[j].1 == keys@[s[
        j].0 as int] by {
        assert(s.contains(s[j]));
        assert(all.contains(s[j]));
    }
    let mut verts: Vec<VertexKey> = Vec::new();
    let mut j: usize = 0;
    while j < n
        invariant
            n == keys@.len(),
            s == corners@,
            s.len() == n,
            all == corners_of(keys@),
            forall|y: Corner| #[trigger] s.contains(y) <==> all.contains(y),
            sorted_by_key(s),
            forall|t: int| 0 <= t < s.len() ==> (#[trigger] s[t]).0 < n && s[t].1 == keys@[s[t].0 as int],
            j <= n,
            indices@.len() == n,
            strictly_sorted(verts@),
            j == 0 <==> verts@.len() == 0,
            j > 0 ==> verts@.last() == s[j - 1].1,
            forall|t: int| 0 <= t < j ==> indices@[(#[trigger] s[t]).0 as int] < verts@.len()
                && verts@[indices@[s[t].0 as int] as int] == keys@[s[t].0 as int],
            forall|i: int| 0 <= i < verts@.len() ==> keys@.contains(#[trigger] verts@[i]),
        decreases n - j,
    {
        let (ci, k) = corners[j];
        let ghost before = verts@;
        if verts.len() == 0 || key_less(&verts[verts.len() - 1], &k) {
            proof {
                if before.len() > 0 {
                    assert forall|a: int, b: int| 0 <= a < b < before.len() + 1 implies key_lt(
                        #[trigger] before.push(k)[a],
                        #[trigger] before.push(k)[b],
                    ) by {
                        if b == before.len() && a < before.len() - 1 {
                            lemma_key_order(before[a], before.last(), k);
                        }
                    }
                }
                assert(keys@.contains(keys@[ci as int]));
            }
            verts.push(k);
            assert(verts@ =~= before.push(k));
        } else {
            proof {
                assert(!key_lt(s[j as int].1, s[j - 1].1));
                lemma_key_order(before.last(), k, k);
            }
        }
        let id = verts.len() - 1;
        assert(verts@[id as int] == k);
        indices.set(ci, id);
        j = j + 1;
    }
    proof {
        assert forall|cc: int| 0 <= cc < keys@.len() implies #[trigger] indices@[cc] < verts@.len()
            && verts@[indices@[cc] as int] == keys@[cc] by {
            assert(all[cc] == (cc as usize, keys@[cc]));
            assert(all.contains(all[cc]));
            assert(s.contains(all[cc]));
            let t = choose|t: int| 0 <= t < s.len() && s[t] == all[cc];
            assert(s[t].0 == cc);
        }
        let r = (verts@, indices@);
        assert(compacted(keys@, r.0, r.1));
        let q = compaction(keys@);
        compaction_is_unique(keys@, r.0, r.1, q.0, q.1);
    }
    (verts, indices)
}

} // verus!
