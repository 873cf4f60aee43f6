use vstd::prelude::*;

verus! {

/// Tests whether a tensor's rows are packed: true iff
/// `stride[1] == dim[0] * stride[0]`.
pub fn no_padding(ne: &[i64; 4], nb: &[usize; 4]) -> (r: bool)
    ensures
        r == (nb[1] as int == ne[0] as int * nb[0] as int),
{
    let d: i128 = ne[0] as i128;
    let s: i128 = nb[0] as i128;
    assert(-0x8000_0000_0000_0000i128 * 0xffff_ffff_ffff_ffffi128 <= d * s
        <= 0x7fff_ffff_ffff_ffffi128 * 0xffff_ffff_ffff_ffffi128) by (nonlinear_arith)
        requires
            -0x8000_0000_0000_0000i128 <= d <= 0x7fff_ffff_ffff_ffffi128,
            0 <= s <= 0xffff_ffff_ffff_ffffi128,
    ;
    nb[1] as i128 == d * s
}

/// The number of positions along an axis of extent `d`; a negative extent
/// has none.
pub open spec fn extent(d: i64) -> nat {
    if d < 0 {
        0
    } else {
        d as nat
    }
}

/// Byte offset of the element at position `(n3, n2, n1, n0)`.
pub open spec fn byte_offset(stride: Seq<u64>, n3: int, n2: int, n1: int, n0: int) -> int {
    n3 * stride[3] + n2 * stride[2] + n1 * stride[1] + n0 * 4
}

/// Index, among four-byte elements, of the element at `(n3, n2, n1, n0)`.
pub open spec fn element_index(stride: Seq<u64>, n3: int, n2: int, n1: int, n0: int) -> int {
    byte_offset(stride, n3, n2, n1, n0) / 4
}

/// Every position that the shape describes lies inside storage of `len`
/// elements. Offsets grow with every position, so the last position decides.
pub open spec fn layout_fits(len: int, dim: Seq<i64>, stride: Seq<u64>) -> bool {
    ||| dim[0] <= 0
    ||| dim[1] <= 0
    ||| dim[2] <= 0
    ||| dim[3] <= 0
    ||| element_index(stride, dim[3] - 1, dim[2] - 1, dim[1] - 1, dim[0] - 1) < len
}

/// One row: the elements along axis 0 at fixed `(n3, n2, n1)`.
pub open spec fn row_of(
    data: Seq<u32>,
    dim: Seq<i64>,
    stride: Seq<u64>,
    n3: int,
    n2: int,
    n1: int,
) -> Seq<u32> {
    Seq::new(extent(dim[0]), |n0: int| data[element_index(stride, n3, n2, n1, n0)])
}

/// The group of rows at fixed `(n3, n2)`, in increasing `n1`.
pub open spec fn group_of(data: Seq<u32>, dim: Seq<i64>, stride: Seq<u64>, n3: int, n2: int) -> Seq<
    Seq<u32>,
> {
    Seq::new(extent(dim[1]), |n1: int| row_of(data, dim, stride, n3, n2, n1))
}

/// The groups at fixed `n3`, in increasing `n2`.
pub open spec fn block_of(data: Seq<u32>, dim: Seq<i64>, stride: Seq<u64>, n3: int) -> Seq<
    Seq<Seq<u32>>,
> {
    Seq::new(extent(dim[2]), |n2: int| group_of(data, dim, stride, n3, n2))
}

/// The strided traversal: axis 3 slowest, axis 0 fastest.
pub open spec fn traversal(data: Seq<u32>, dim: Seq<i64>, stride: Seq<u64>) -> Seq<
    Seq<Seq<Seq<u32>>>,
> {
    Seq::new(extent(dim[3]), |n3: int| block_of(data, dim, stride, n3))
}

/// A position inside the shape.
pub open spec fn in_shape(dim: Seq<i64>, n3: int, n2: int, n1: int, n0: int) -> bool {
    &&& 0 <= n3 < dim[3]
    &&& 0 <= n2 < dim[2]
    &&& 0 <= n1 < dim[1]
    &&& 0 <= n0 < dim[0]
}

/// The offset of any position inside the shape is at most that of the last.
pub proof fn lemma_offset_bounded(dim: Seq<i64>, stride: Seq<u64>, n3: int, n2: int, n1: int, n0: int)
    requires
        dim.len() == 4,
        stride.len() == 4,
        in_shape(dim, n3, n2, n1, n0),
    ensures
        0 <= n3 * stride[3] <= (dim[3] - 1) * stride[3],
        0 <= n2 * stride[2] <= (dim[2] - 1) * stride[2],
        0 <= n1 * stride[1] <= (dim[1] - 1) * stride[1],
        0 <= byte_offset(stride, n3, n2, n1, n0) <= byte_offset(
            stride,
            dim[3] - 1,
            dim[2] - 1,
            dim[1] - 1,
            dim[0] - 1,
        ),
{
    assert(0 <= n3 * stride[3] <= (dim[3] - 1) * stride[3]) by (nonlinear_arith)
        requires
            0 <= n3 <= dim[3] - 1,
            0 <= stride[3],
    ;
    assert(0 <= n2 * stride[2] <= (dim[2] - 1) * stride[2]) by (nonlinear_arith)
        requires
            0 <= n2 <= dim[2] - 1,
            0 <= stride[2],
    ;
    assert(0 <= n1 * stride[1] <= (dim[1] - 1) * stride[1]) by (nonlinear_arith)
        requires
            0 <= n1 <= dim[1] - 1,
            0 <= stride[1],
    ;
}

/// The strides of a layout with no padding on any axis.
pub open spec fn packed_strides(dim: Seq<i64>, stride: Seq<u64>) -> bool {
    &&& stride[0] == 4
    &&& stride[1] == 4 * dim[0]
    &&& stride[2] == 4 * dim[0] * dim[1]
    &&& stride[3] == 4 * dim[0] * dim[1] * dim[2]
}

/// The rank of position `(n3, n2, n1, n0)` in traversal order.
pub open spec fn traversal_rank(dim: Seq<i64>, n3: int, n2: int, n1: int, n0: int) -> int {
    ((n3 * dim[2] + n2) * dim[1] + n1) * dim[0] + n0
}

/// Without padding the traversal reads storage in order: the element it
/// visits at each position is the one stored at that position's rank.
pub proof fn lemma_packed_traversal_reads_in_order(
    data: Seq<u32>,
    dim: Seq<i64>,
    stride: Seq<u64>,
    n3: int,
    n2: int,
    n1: int,
    n0: int,
)
    requires
        dim.len() == 4,
        stride.len() == 4,
        packed_strides(dim, stride),
        in_shape(dim, n3, n2, n1, n0),
    ensures
        element_index(stride, n3, n2, n1, n0) == traversal_rank(dim, n3, n2, n1, n0),
        traversal(data, dim, stride)[n3][n2][n1][n0] == data[traversal_rank(dim, n3, n2, n1, n0)],
{
    let d0 = dim[0] as int;
    let d1 = dim[1] as int;
    let d2 = dim[2] as int;
    let a = n3 * d2 + n2;
    let b = a * d1 + n1;
    assert(b * d0 == a * d1 * d0 + n1 * d0) by (nonlinear_arith)
        requires
            b == a * d1 + n1,
    ;
    assert(a * d1 * d0 == n3 * d2 * d1 * d0 + n2 * d1 * d0) by (nonlinear_arith)
        requires
            a == n3 * d2 + n2,
    ;
    assert(n3 * (4 * d0 * d1 * d2) == 4 * (n3 * d2 * d1 * d0)) by (nonlinear_arith);
    assert(n2 * (4 * d0 * d1) == 4 * (n2 * d1 * d0)) by (nonlinear_arith);
    assert(n1 * (4 * d0) == 4 * (n1 * d0)) by (nonlinear_arith);
    assert(byte_offset(stride, n3, n2, n1, n0) == 4 * traversal_rank(dim, n3, n2, n1, n0));
}

/// Index of the element at `(n3, n2, n1, n0)`, for a position inside the
/// shape of a layout that fits storage of `len` elements.
fn index_at(
    len: usize,
    dim: &[i64; 4],
    stride: &[u64; 4],
    n3: i64,
    n2: i64,
    n1: i64,
    n0: i64,
) -> (r: usize)
    requires
        layout_fits(len as int, dim@, stride@),
        in_shape(dim@, n3 as int, n2 as int, n1 as int, n0 as int),
    ensures
        r == element_index(stride@, n3 as int, n2 as int, n1 as int, n0 as int),
        r < len,
{
    proof {
        lemma_offset_bounded(dim@, stride@, n3 as int, n2 as int, n1 as int, n0 as int);
    }
    let offset: u128 = n3 as u128 * stride[3] as u128 + n2 as u128 * stride[2] as u128
        + n1 as u128 * stride[1] as u128 + n0 as u128 * 4;
    (offset / 4) as usize
}

/// The values of one row, read through the strides.
fn row_values(data: &[u32], dim: &[i64; 4], stride: &[u64; 4], n3: i64, n2: i64, n1: i64) -> (r:
    Vec<u32>)
    requires
        layout_fits(data@.len() as int, dim@, stride@),
        0 <= n3 < dim[3],
        0 <= n2 < dim[2],
        0 <= n1 < dim[1],
    ensures
        r@ == row_of(data@, dim@, stride@, n3 as int, n2 as int, n1 as int),
        r.deep_view() == r@,
{
    let ghost target = row_of(data@, dim@, stride@, n3 as int, n2 as int, n1 as int);
    let mut r: Vec<u32> = Vec::new();
    let mut n0: i64 = 0;
    while n0 < dim[0]
        invariant
            layout_fits(data@.len() as int, dim@, stride@),
            0 <= n3 < dim[3],
            0 <= n2 < dim[2],
            0 <= n1 < dim[1],
            0 <= n0,
            n0 <= dim[0] || n0 == 0,
            target == row_of(data@, dim@, stride@, n3 as int, n2 as int, n1 as int),
            r@ == target.subrange(0, n0 as int),
        decreases dim[0] - n0,
    {
        let k = index_at(data.len(), dim, stride, n3, n2, n1, n0);
        r.push(data[k]);
        n0 = n0 + 1;
        assert(r@ =~= target.subrange(0, n0 as int));
    }
    assert(r@ =~= target);
    assert(r.deep_view() =~= r@);
    r
}

/// Reads a tensor's values through its strides, in the order of a dump:
/// axis 3 slowest, axis 0 fastest. The result is nested by axis:
/// `r[n3][n2][n1][n0]` is the element at byte offset
/// `n3*stride[3] + n2*stride[2] + n1*stride[1] + n0*4`, and padding between
/// rows is skipped. `None` iff some position of the shape lies outside `data`.
pub fn strided_values(data: &[u32], dim: &[i64; 4], stride: &[u64; 4]) -> (r: Option<
    Vec<Vec<Vec<Vec<u32>>>>,
>)
    ensures
        r is Some <==> layout_fits(data@.len() as int, dim@, stride@),
        r is Some ==> r->Some_0.deep_view() == traversal(data@, dim@, stride@),
{
    if !fits(data.len(), dim, stride) {
        return None;
    }
    let ghost all = traversal(data@, dim@, stride@);
    let mut out: Vec<Vec<Vec<Vec<u32>>>> = Vec::new();
    let mut n3: i64 = 0;
    while n3 < dim[3]
        invariant
            layout_fits(data@.len() as int, dim@, stride@),
            all == traversal(data@, dim@, stride@),
            0 <= n3,
            n3 <= dim[3] || n3 == 0,
            out.deep_view() == all.subrange(0, n3 as int),
        decreases dim[3] - n3,
    {
        let mut block: Vec<Vec<Vec<u32>>> = Vec::new();
        let mut n2: i64 = 0;
        while n2 < dim[2]
            invariant
                layout_fits(data@.len() as int, dim@, stride@),
                0 <= n3 < dim[3],
                0 <= n2,
                n2 <= dim[2] || n2 == 0,
                block.deep_view() == block_of(data@, dim@, stride@, n3 as int).subrange(
                    0,
                    n2 as int,
                ),
            decreases dim[2] - n2,
        {
            let mut group: Vec<Vec<u32>> = Vec::new();
            let mut n1: i64 = 0;
            while n1 < dim[1]
                invariant
                    layout_fits(data@.len() as int, dim@, stride@),
                    0 <= n3 < dim[3],
                    0 <= n2 < dim[2],
                    0 <= n1,
                    n1 <= dim[1] || n1 == 0,
                    group.deep_view() == group_of(
                        data@,
                        dim@,
                        stride@,
                        n3 as int,
                        n2 as int,
                    ).subrange(0, n1 as int),
                decreases dim[1] - n1,
            {
                let row = row_values(data, dim, stride, n3, n2, n1);
                let ghost before = group.deep_view();
                group.push(row);
                assert(group.deep_view() =~= before.push(row@));
                n1 = n1 + 1;
                assert(group.deep_view() =~= group_of(
                    data@,
                    dim@,
                    stride@,
                    n3 as int,
                    n2 as int,
                ).subrange(0, n1 as int));
            }
            assert(group.deep_view() =~= group_of(data@, dim@, stride@, n3 as int, n2 as int));
            let ghost before = block.deep_view();
            let ghost g = group.deep_view();
            block.push(group);
            assert(block.deep_view() =~= before.push(g));
            n2 = n2 + 1;
            assert(block.deep_view() =~= block_of(data@, dim@, stride@, n3 as int).subrange(
                0,
                n2 as int,
            ));
        }
        assert(block.deep_view() =~= block_of(data@, dim@, stride@, n3 as int));
        let ghost before = out.deep_view();
        let ghost bl = block.deep_view();
        out.push(block);
        assert(out.deep_view() =~= before.push(bl));
        n3 = n3 + 1;
        assert(out.deep_view() =~= all.subrange(0, n3 as int));
    }
    assert(out.deep_view() =~= all);
    Some(out)
}

/// Decides `layout_fits` for storage of `len` elements.
pub fn fits(len: usize, dim: &[i64; 4], stride: &[u64; 4]) -> (r: bool)
    ensures
        r == layout_fits(len as int, dim@, stride@),
{
    if dim[0] <= 0 || dim[1] <= 0 || dim[2] <= 0 || dim[3] <= 0 {
        return true;
    }
    let a: u128 = (dim[3] - 1) as u128;
    let b: u128 = (dim[2] - 1) as u128;
    let c: u128 = (dim[1] - 1) as u128;
    let e: u128 = (dim[0] - 1) as u128;
    let m: u128 = 0xffff_ffff_ffff_ffff;
    let h: u128 = 0x8000_0000_0000_0000;
    assert(a * (stride[3] as u128) <= h * m) by (nonlinear_arith)
        requires a < h, stride[3] <= m;
    assert(b * (stride[2] as u128) <= h * m) by (nonlinear_arith)
        requires b < h, stride[2] <= m;
    assert(c * (stride[1] as u128) <= h * m) by (nonlinear_arith)
        requires c < h, stride[1] <= m;
    let x: u128 = a * stride[3] as u128;
    let y: u128 = b * stride[2] as u128;
    let z: u128 = c * stride[1] as u128;
    // each product is below 2^127: two of them fit, and once their sum is
    // known to be small the remaining terms fit as well
    let xy: u128 = x + y;
    if xy / 4 >= len as u128 {
        return false;
    }
    let offset: u128 = xy + z + e * 4;
    offset / 4 < len as u128
}

} // verus!
