use vstd::prelude::*;

verus! {

/// What a tensor holds: its elements as IEEE-754 single-precision bit
/// patterns, its four axis extents, and its four byte strides.
pub type TensorModel = (Seq<u32>, Seq<i64>, Seq<u64>);

/// A captured tensor. The elements are kept as the bit patterns of 32-bit
/// floats, so that they are copied, stored and compared exactly.
pub struct Tensor {
    /// the flattened backing storage
    pub inner: Vec<u32>,
    /// the extent of each axis, axis 0 innermost
    pub dim: [i64; 4],
    /// the byte offset between consecutive elements of each axis
    pub stride: [u64; 4],
}

impl View for Tensor {
    type V = TensorModel;

    open spec fn view(&self) -> TensorModel {
        (self.inner@, self.dim@, self.stride@)
    }
}

/// Number of elements that a capture copies: `dim[3] * stride[3]` bytes,
/// counted in four-byte elements.
pub open spec fn capture_count(dim: Seq<i64>, stride: Seq<u64>) -> int {
    (dim[3] * stride[3]) / 4
}

/// An element-for-element copy of the first `n` bit patterns of `src`.
pub fn copy_prefix(src: &[u32], n: usize) -> (r: Vec<u32>)
    requires
        n <= src@.len(),
    ensures
        r@ == src@.subrange(0, n as int),
{
    let mut r: Vec<u32> = Vec::with_capacity(n);
    let mut i: usize = 0;
    while i < n
        invariant
            i <= n <= src@.len(),
            r@ == src@.subrange(0, i as int),
        decreases n - i,
    {
        r.push(src[i]);
        i = i + 1;
        assert(r@ =~= src@.subrange(0, i as int));
    }
    r
}

/// The number of elements to copy for a tensor of shape `dim` and strides
/// `stride`, or `None` where `dim[3] * stride[3]` is negative or the count
/// does not fit in a `usize`.
pub fn capture_len(dim: &[i64; 4], stride: &[u64; 4]) -> (r: Option<usize>)
    ensures
        r is Some <==> 0 <= dim[3] * stride[3] && capture_count(dim@, stride@) <= usize::MAX,
        r is Some ==> r->Some_0 == capture_count(dim@, stride@),
{
    if dim[3] < 0 {
        if stride[3] == 0 {
            assert(dim[3] * stride[3] == 0);
            return Some(0);
        }
        assert(dim[3] * stride[3] < 0) by (nonlinear_arith)
            requires
                dim[3] < 0,
                stride[3] > 0,
        ;
        return None;
    }
    let d: u128 = dim[3] as u128;
    let s: u128 = stride[3] as u128;
    assert(d * s <= 0x7fff_ffff_ffff_ffffu128 * 0xffff_ffff_ffff_ffffu128) by (nonlinear_arith)
        requires
            d <= 0x7fff_ffff_ffff_ffffu128,
            s <= 0xffff_ffff_ffff_ffffu128,
    ;
    let count: u128 = (d * s) / 4;
    if count > usize::MAX as u128 {
        None
    } else {
        Some(count as usize)
    }
}

impl Tensor {
    /// A tensor over the given storage, shape and strides.
    pub fn new(inner: Vec<u32>, dim: [i64; 4], stride: [u64; 4]) -> (r: Tensor)
        ensures
            r@ == (inner@, dim@, stride@),
    {
        Tensor { inner, dim, stride }
    }

    /// Captures a tensor from `source`: the tensor owns a copy of the first
    /// `dim[3] * stride[3] / 4` elements. `None` where `dim[3] * stride[3]`
    /// is negative or the count exceeds the source.
    pub fn capture(source: &[u32], dim: &[i64; 4], stride: &[u64; 4]) -> (r: Option<Tensor>)
        ensures
            r is Some <==> 0 <= dim[3] * stride[3] && capture_count(dim@, stride@) <= source@.len(),
            r is Some ==> r->Some_0@ == (
                source@.subrange(0, capture_count(dim@, stride@)),
                dim@,
                stride@,
            ),
    {
        let available: usize = source.len();
        match capture_len(dim, stride) {
            None => None,
            Some(n) => {
                if n > available {
                    None
                } else {
                    let inner = copy_prefix(source, n);
                    Some(Tensor { inner, dim: *dim, stride: *stride })
                }
            },
        }
    }

    /// A deep copy of this tensor.
    pub fn duplicate(&self) -> (r: Tensor)
        ensures
            r@ == self@,
    {
        let inner = copy_prefix(self.inner.as_slice(), self.inner.len());
        assert(inner@ =~= self.inner@);
        Tensor { inner, dim: self.dim, stride: self.stride }
    }
}

} // verus!
