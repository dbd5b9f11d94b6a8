use vstd::prelude::*;

use crate::dispatch::DispatchError;

verus! {

/// Groups a flat sequence of coordinates into `n` rows of `(x, y, z)`.
pub open spec fn xyz_rows<T>(flat: Seq<T>, n: nat) -> Seq<(T, T, T)> {
    Seq::new(n, |i: int| (flat[3 * i], flat[3 * i + 1], flat[3 * i + 2]))
}

/// Lays rows of `(x, y, z)` out as one flat, row-major sequence.
pub open spec fn xyz_flat<T>(rows: Seq<(T, T, T)>) -> Seq<T> {
    Seq::new(
        3 * rows.len(),
        |k: int|
            if k % 3 == 0 {
                rows[k / 3].0
            } else if k % 3 == 1 {
                rows[k / 3].1
            } else {
                rows[k / 3].2
            },
    )
}

/// Checks that a device buffer of `buffer_len` values holds the three
/// coordinates of each of `pts_num` points, and returns how many values to read.
pub fn check_readback(buffer_len: usize, pts_num: usize) -> (r: Result<usize, DispatchError>)
    requires
        pts_num * 3 <= usize::MAX,
    ensures
        (buffer_len >= 3 * pts_num) <==> r is Ok,
        r matches Ok(len) ==> len == 3 * pts_num,
        r matches Err(e) ==> e == (DispatchError::BufferTooSmall {
            buffer_len,
            needed: (3 * pts_num) as usize,
            pts_num,
        }),
{
    let expected_len = pts_num * 3;
    if buffer_len < expected_len {
        Err(DispatchError::BufferTooSmall { buffer_len, needed: expected_len, pts_num })
    } else {
        Ok(expected_len)
    }
}

/// Splits the first `3 * n` values of a flat read-back into `n` points.
pub fn deinterleave_xyz<T: Copy>(flat: &Vec<T>, n: usize) -> (rows: Vec<(T, T, T)>)
    requires
        3 * n <= flat.len(),
    ensures
        rows@ == xyz_rows(flat@, n as nat),
{
    let mut rows: Vec<(T, T, T)> = Vec::with_capacity(n);
    let mut i: usize = 0;
    while i < n
        invariant
            i <= n,
            3 * n <= flat.len(),
            rows@ == xyz_rows(flat@, i as nat),
        decreases n - i,
    {
        let base = 3 * i;
        rows.push((flat[base], flat[base + 1], flat[base + 2]));
        i = i + 1;
        assert(rows@ =~= xyz_rows(flat@, i as nat));
    }
    rows
}

/// Writes points out as one flat, row-major sequence of coordinates.
pub fn flatten_xyz<T: Copy>(rows: &Vec<(T, T, T)>) -> (flat: Vec<T>)
    requires
        3 * rows.len() <= usize::MAX,
    ensures
        flat@ == xyz_flat(rows@),
{
    let mut flat: Vec<T> = Vec::with_capacity(rows.len() * 3);
    let mut i: usize = 0;
    while i < rows.len()
        invariant
            i <= rows.len(),
            3 * rows.len() <= usize::MAX,
            flat@ == xyz_flat(rows@.take(i as int)),
        decreases rows.len() - i,
    {
        let (x, y, z) = rows[i];
        flat.push(x);
        flat.push(y);
        flat.push(z);
        i = i + 1;
        assert(flat@ =~= xyz_flat(rows@.take(i as int)));
    }
    assert(rows@.take(rows.len() as int) =~= rows@);
    flat
}

/// Grouping a flat layout of `3 * n` coordinates into rows and laying the rows
/// out again gives back the flat layout.
pub proof fn lemma_rows_then_flat<T>(flat: Seq<T>, n: nat)
    requires
        flat.len() == 3 * n,
    ensures
        xyz_flat(xyz_rows(flat, n)) == flat,
{
    let rows = xyz_rows(flat, n);
    assert forall|k: int| 0 <= k < flat.len() implies #[trigger] xyz_flat(rows)[k] == flat[k] by {
        let i = k / 3;
        assert(0 <= i < n);
        assert(k == 3 * i + k % 3);
    }
    assert(xyz_flat(rows) =~= flat);
}

/// Laying rows out flat and grouping them again gives back the rows.
pub proof fn lemma_flat_then_rows<T>(rows: Seq<(T, T, T)>)
    ensures
        xyz_rows(xyz_flat(rows), rows.len()) == rows,
{
    let flat = xyz_flat(rows);
    assert forall|i: int| 0 <= i < rows.len() implies #[trigger] xyz_rows(flat, rows.len())[i] == rows[i] by {
        assert((3 * i) / 3 == i && (3 * i) % 3 == 0);
        assert((3 * i + 1) / 3 == i && (3 * i + 1) % 3 == 1);
        assert((3 * i + 2) / 3 == i && (3 * i + 2) % 3 == 2);
    }
    assert(xyz_rows(flat, rows.len()) =~= rows);
}

} // verus!
