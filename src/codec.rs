use vstd::prelude::*;
use crate::capture::{AllSavedTensors, BufferModel, InputRecord, RecordModel};
use crate::tensor::{copy_prefix, Tensor};

verus! {

/// A buffer entry in the shape that is written to bytes: the name, then the
/// tensor's elements, extents and strides, in that order.
pub type WireEntry = (String, (Vec<u32>, [i64; 4], [u64; 4]));

/// A record entry in the shape that is written to bytes.
pub type WireStep = (String, Vec<WireEntry>);

/// The bytes that encode a capture buffer.
pub uninterp spec fn buffer_bytes(b: Seq<(Seq<char>, (Seq<u32>, Seq<i64>, Seq<u64>))>) -> Seq<u8>;

/// The bytes that encode a step record.
pub uninterp spec fn record_bytes(
    r: Seq<(Seq<char>, Seq<(Seq<char>, (Seq<u32>, Seq<i64>, Seq<u64>))>)>,
) -> Seq<u8>;

/// What an encodable buffer entry holds.
pub open spec fn entry_model(e: WireEntry) -> (Seq<char>, (Seq<u32>, Seq<i64>, Seq<u64>)) {
    (e.0@, (e.1.0@, e.1.1@, e.1.2@))
}

/// What an encodable buffer holds.
pub open spec fn wire_buffer_model(w: Seq<WireEntry>) -> BufferModel {
    w.map_values(|e: WireEntry| entry_model(e))
}

/// What an encodable record holds.
pub open spec fn wire_record_model(w: Seq<WireStep>) -> RecordModel {
    w.map_values(|e: WireStep| (e.0@, wire_buffer_model(e.1@)))
}

/// Every tensor of the buffer has four extents and four strides.
pub open spec fn buffer_shaped(b: BufferModel) -> bool {
    forall|i: int| 0 <= i < b.len() ==> (#[trigger] b[i]).1.1.len() == 4 && b[i].1.2.len() == 4
}

/// Every buffer of the record is `buffer_shaped`.
pub open spec fn record_shaped(r: RecordModel) -> bool {
    forall|i: int| 0 <= i < r.len() ==> buffer_shaped(#[trigger] r[i].1)
}

/// Why bytes could not be read back.
#[derive(Debug, Clone, Copy, PartialEq, Eq, Structural)]
pub enum CodecError {
    /// the bytes are truncated, corrupt, or of another shape
    Decode,
}

#[verifier::external_type_specification]
#[verifier::external_body]
pub struct ExBincodeErrorKind(bincode::ErrorKind);

/// Relies on bincode::serialize: the bytes are a function of the buffer's
/// contents alone. The default options set no size limit, every sequence
/// passes its length, and writing into a `Vec` does not fail, so it succeeds.
#[verifier::external_body]
fn serialize_buffer(w: &Vec<WireEntry>) -> (r: Result<Vec<u8>, Box<bincode::ErrorKind>>)
    ensures
        r is Ok,
        r is Ok ==> r->Ok_0@ == buffer_bytes(wire_buffer_model(w@)),
{
    bincode::serialize(w)
}

/// Relies on bincode::serialize: the bytes are a function of the record's
/// contents alone. The default options set no size limit, every sequence
/// passes its length, and writing into a `Vec` does not fail, so it succeeds.
#[verifier::external_body]
fn serialize_record(w: &Vec<WireStep>) -> (r: Result<Vec<u8>, Box<bincode::ErrorKind>>)
    ensures
        r is Ok,
        r is Ok ==> r->Ok_0@ == record_bytes(wire_record_model(w@)),
{
    bincode::serialize(w)
}

/// Relies on bincode::deserialize, with the same configuration as
/// bincode::serialize (trailing bytes allowed): it reads back exactly the
/// value that was encoded, and a value it returns was encoded at the start
/// of the bytes.
#[verifier::external_body]
fn deserialize_buffer(bytes: &[u8]) -> (r: Result<Vec<WireEntry>, Box<bincode::ErrorKind>>)
    ensures
        r is Ok ==> buffer_bytes(wire_buffer_model(r->Ok_0@)).is_prefix_of(bytes@),
        forall|b: BufferModel|
            buffer_shaped(b) && bytes@ == #[trigger] buffer_bytes(b) ==> r is Ok
                && wire_buffer_model(r->Ok_0@) == b,
{
    bincode::deserialize(bytes)
}

/// Relies on bincode::deserialize, with the same configuration as
/// bincode::serialize (trailing bytes allowed): it reads back exactly the
/// value that was encoded, and a value it returns was encoded at the start
/// of the bytes.
#[verifier::external_body]
fn deserialize_record(bytes: &[u8]) -> (r: Result<Vec<WireStep>, Box<bincode::ErrorKind>>)
    ensures
        r is Ok ==> record_bytes(wire_record_model(r->Ok_0@)).is_prefix_of(bytes@),
        forall|b: RecordModel|
            record_shaped(b) && bytes@ == #[trigger] record_bytes(b) ==> r is Ok
                && wire_record_model(r->Ok_0@) == b,
{
    bincode::deserialize(bytes)
}

/// The entries of a buffer in encodable form.
fn buffer_to_wire(b: &AllSavedTensors) -> (r: Vec<WireEntry>)
    ensures
        wire_buffer_model(r@) == b@,
{
    let mut out: Vec<WireEntry> = Vec::with_capacity(b.tensors.len());
    let mut i: usize = 0;
    while i < b.tensors.len()
        invariant
            i <= b.tensors@.len(),
            wire_buffer_model(out@) == b@.subrange(0, i as int),
        decreases b.tensors@.len() - i,
    {
        let entry = &b.tensors[i];
        let t = &entry.1;
        let e: WireEntry = (
            entry.0.clone(),
            (copy_prefix(t.inner.as_slice(), t.inner.len()), t.dim, t.stride),
        );
        assert(e.1.0@ =~= t.inner@);
        let ghost before = out@;
        out.push(e);
        assert(wire_buffer_model(out@) =~= wire_buffer_model(before).push(entry_model(e)));
        i = i + 1;
        assert(wire_buffer_model(out@) =~= b@.subrange(0, i as int));
    }
    assert(b@ =~= b@.subrange(0, i as int));
    out
}

/// A buffer holding the given encodable entries.
fn buffer_from_wire(w: &Vec<WireEntry>) -> (r: AllSavedTensors)
    ensures
        r@ == wire_buffer_model(w@),
{
    let mut out = AllSavedTensors::new();
    let mut i: usize = 0;
    while i < w.len()
        invariant
            i <= w@.len(),
            out@ == wire_buffer_model(w@).subrange(0, i as int),
        decreases w@.len() - i,
    {
        let e = &w[i];
        let inner = copy_prefix(e.1.0.as_slice(), e.1.0.len());
        assert(inner@ =~= e.1.0@);
        out.add_tensor(e.0.clone(), Tensor::new(inner, e.1.1, e.1.2));
        i = i + 1;
        assert(out@ =~= wire_buffer_model(w@).subrange(0, i as int));
    }
    assert(wire_buffer_model(w@) =~= wire_buffer_model(w@).subrange(0, i as int));
    out
}

/// A buffer's entries always have four extents and four strides.
pub proof fn lemma_buffer_shaped(b: &AllSavedTensors)
    ensures
        buffer_shaped(b@),
{
    assert forall|i: int| 0 <= i < b@.len() implies (#[trigger] b@[i]).1.1.len() == 4
        && b@[i].1.2.len() == 4 by {
        let t = b.tensors@[i].1;
        assert(t.dim@.len() == 4);
        assert(t.stride@.len() == 4);
    }
}

impl AllSavedTensors {
    /// Encodes the buffer: the bytes are `buffer_bytes(self@)`.
    pub fn to_bytes(&self) -> (r: Vec<u8>)
        ensures
            r@ == buffer_bytes(self@),
    {
        let w = buffer_to_wire(self);
        match serialize_buffer(&w) {
            Ok(bytes) => bytes,
            Err(_) => {
                assert(false);
                Vec::new()
            },
        }
    }

    /// Decodes a buffer. Bytes that `to_bytes` produced for a buffer give
    /// back that buffer, entry for entry; bytes that do not start with the
    /// encoding of a buffer give `CodecError::Decode`.
    pub fn from_bytes(bytes: &[u8]) -> (r: Result<AllSavedTensors, CodecError>)
        ensures
            r is Ok ==> buffer_bytes(r->Ok_0@).is_prefix_of(bytes@),
            r is Err ==> r->Err_0 == CodecError::Decode,
            forall|b: BufferModel|
                buffer_shaped(b) && bytes@ == #[trigger] buffer_bytes(b) ==> r is Ok && r->Ok_0@
                    == b,
    {
        match deserialize_buffer(bytes) {
            Ok(w) => Ok(buffer_from_wire(&w)),
            Err(_) => Err(CodecError::Decode),
        }
    }
}

/// A record's steps in encodable form.
fn record_to_wire(rec: &InputRecord) -> (r: Vec<WireStep>)
    ensures
        wire_record_model(r@) == rec@,
{
    let mut out: Vec<WireStep> = Vec::with_capacity(rec.records.len());
    let mut i: usize = 0;
    while i < rec.records.len()
        invariant
            i <= rec.records@.len(),
            wire_record_model(out@) == rec@.subrange(0, i as int),
        decreases rec.records@.len() - i,
    {
        let entry = &rec.records[i];
        let e: WireStep = (entry.0.clone(), buffer_to_wire(&entry.1));
        let ghost before = out@;
        out.push(e);
        assert(wire_record_model(out@) =~= wire_record_model(before).push(
            (e.0@, wire_buffer_model(e.1@)),
        ));
        i = i + 1;
        assert(wire_record_model(out@) =~= rec@.subrange(0, i as int));
    }
    assert(rec@ =~= rec@.subrange(0, i as int));
    out
}

/// A record holding the given encodable steps.
fn record_from_wire(w: &Vec<WireStep>) -> (r: InputRecord)
    ensures
        r@ == wire_record_model(w@),
{
    let mut out = InputRecord::new();
    let mut i: usize = 0;
    while i < w.len()
        invariant
            i <= w@.len(),
            out@ == wire_record_model(w@).subrange(0, i as int),
        decreases w@.len() - i,
    {
        let e = &w[i];
        let ghost before = out@;
        let b = buffer_from_wire(&e.1);
        let ghost bm = b@;
        out.records.push((e.0.clone(), b));
        assert(out@ =~= before.push((e.0@, bm)));
        i = i + 1;
        assert(out@ =~= wire_record_model(w@).subrange(0, i as int));
    }
    assert(wire_record_model(w@) =~= wire_record_model(w@).subrange(0, i as int));
    out
}

/// A record's buffers always have four extents and four strides.
pub proof fn lemma_record_shaped(rec: &InputRecord)
    ensures
        record_shaped(rec@),
{
    assert forall|i: int| 0 <= i < rec@.len() implies buffer_shaped(#[trigger] rec@[i].1) by {
        lemma_buffer_shaped(&rec.records@[i].1);
    }
}

impl InputRecord {
    /// Encodes the record: the bytes are `record_bytes(self@)`.
    pub fn to_bytes(&self) -> (r: Vec<u8>)
        ensures
            r@ == record_bytes(self@),
    {
        let w = record_to_wire(self);
        match serialize_record(&w) {
            Ok(bytes) => bytes,
            Err(_) => {
                assert(false);
                Vec::new()
            },
        }
    }

    /// Decodes a record. Bytes that `to_bytes` produced for a record give
    /// back that record, step for step.
    pub fn from_bytes(bytes: &[u8]) -> (r: Result<InputRecord, CodecError>)
        ensures
            r is Ok ==> record_bytes(r->Ok_0@).is_prefix_of(bytes@),
            r is Err ==> r->Err_0 == CodecError::Decode,
            forall|b: RecordModel|
                record_shaped(b) && bytes@ == #[trigger] record_bytes(b) ==> r is Ok && r->Ok_0@
                    == b,
    {
        match deserialize_record(bytes) {
            Ok(w) => Ok(record_from_wire(&w)),
            Err(_) => Err(CodecError::Decode),
        }
    }
}

} // verus!
