use vstd::prelude::*;
use crate::capture::{
    save_input, with_step, with_tensor, AllSavedTensors, BufferModel, InputRecord, RecordModel,
};
use crate::codec::{buffer_bytes, record_bytes, CodecError};
use crate::tensor::Tensor;

verus! {

/// What a session holds: the buffer of the current step, the finished
/// steps, and the token of the current step.
pub struct SessionModel {
    pub tensors: BufferModel,
    pub record: RecordModel,
    pub token: Seq<char>,
}

/// The whole capture state: the tensors of the current step, the record of
/// finished steps, and the token that the current step belongs to.
pub struct CaptureSession {
    pub tensors: AllSavedTensors,
    pub record: InputRecord,
    pub current_token: String,
}

impl View for CaptureSession {
    type V = SessionModel;

    open spec fn view(&self) -> SessionModel {
        SessionModel { tensors: self.tensors@, record: self.record@, token: self.current_token@ }
    }
}

/// The session after a tensor is added to the current step.
pub open spec fn session_added(s: SessionModel, name: Seq<char>, t: (Seq<u32>, Seq<i64>, Seq<u64>)) -> SessionModel {
    SessionModel { tensors: with_tensor(s.tensors, name, t), ..s }
}

/// The session after each of `items` is added in turn.
pub open spec fn session_added_all(s: SessionModel, items: BufferModel) -> SessionModel
    decreases items.len(),
{
    if items.len() == 0 {
        s
    } else {
        let last = items.last();
        session_added(session_added_all(s, items.drop_last()), last.0, last.1)
    }
}

/// The session after the current step is finished.
pub open spec fn session_finalized(s: SessionModel) -> SessionModel {
    SessionModel {
        tensors: BufferModel::empty(),
        record: with_step(s.record, s.token, s.tensors),
        token: Seq::<char>::empty(),
    }
}

impl CaptureSession {
    /// A session with no tensors, no finished steps and an empty token.
    pub fn new() -> (r: CaptureSession)
        ensures
            r@ == (SessionModel {
                tensors: BufferModel::empty(),
                record: RecordModel::empty(),
                token: Seq::<char>::empty(),
            }),
    {
        CaptureSession {
            tensors: AllSavedTensors::new(),
            record: InputRecord::new(),
            current_token: String::new(),
        }
    }

    /// Sets the token that the current step belongs to.
    pub fn set_token(&mut self, token: String)
        ensures
            final(self)@ == (SessionModel { token: token@, ..old(self)@ }),
    {
        self.current_token = token;
    }

    /// Adds a tensor to the current step.
    pub fn add_tensor(&mut self, name: String, tensor: Tensor)
        ensures
            final(self)@ == session_added(old(self)@, name@, tensor@),
    {
        self.tensors.add_tensor(name, tensor);
    }

    /// Empties the current step's buffer; the record and token stay.
    pub fn clear_tensors(&mut self)
        ensures
            final(self)@.tensors == BufferModel::empty(),
            final(self)@.record == old(self)@.record,
            final(self)@.token == old(self)@.token,
    {
        self.tensors.clear();
    }

    /// Finishes the current step: its token and tensors become the record's
    /// next entry, and the buffer and token are emptied.
    pub fn finalize_step(&mut self)
        ensures
            final(self)@ == session_finalized(old(self)@),
    {
        save_input(&mut self.tensors, &mut self.current_token, &mut self.record);
    }

    /// Encodes the record of finished steps; nothing in the session changes.
    pub fn save_elements(&self) -> (r: Vec<u8>)
        ensures
            r@ == record_bytes(self@.record),
    {
        self.record.to_bytes()
    }

    /// Replaces the current step's buffer with one decoded from `bytes`. On
    /// an error nothing changes; the record and token never do.
    pub fn load_elements(&mut self, bytes: &[u8]) -> (r: Result<(), CodecError>)
        ensures
            final(self)@.record == old(self)@.record,
            final(self)@.token == old(self)@.token,
            r is Err ==> final(self)@ == old(self)@ && r->Err_0 == CodecError::Decode,
            r is Ok ==> buffer_bytes(final(self)@.tensors).is_prefix_of(bytes@),
            forall|b: BufferModel|
                crate::codec::buffer_shaped(b) && bytes@ == #[trigger] buffer_bytes(b) ==> r is Ok
                    && final(self)@.tensors == b,
    {
        match AllSavedTensors::from_bytes(bytes) {
            Ok(b) => {
                self.tensors = b;
                Ok(())
            },
            Err(e) => Err(e),
        }
    }

    /// A deep copy of the current step's buffer; nothing in the session
    /// changes.
    pub fn snapshot(&self) -> (r: AllSavedTensors)
        ensures
            r@ == self@.tensors,
    {
        self.tensors.duplicate()
    }
}

/// Adding tensors changes only the buffer, which gains them at its end.
pub proof fn lemma_session_added_all(s: SessionModel, items: BufferModel)
    ensures
        session_added_all(s, items) == (SessionModel { tensors: s.tensors + items, ..s }),
    decreases items.len(),
{
    if items.len() > 0 {
        lemma_session_added_all(s, items.drop_last());
        assert(s.tensors + items =~= (s.tensors + items.drop_last()).push(items.last()));
    } else {
        assert(s.tensors + items =~= s.tensors);
    }
}

/// Step ordering: starting from any session, add `before`, finish the step,
/// then add `after`. The finished step's entry holds the tensors that were
/// in the buffer followed by all of `before`, in order, under the step's
/// token; the buffer is empty right after the step is finished, and then
/// holds exactly `after`; earlier entries of the record stay as they were.
pub proof fn lemma_step_ordering(s: SessionModel, before: BufferModel, after: BufferModel)
    ensures
        ({
            let finished = session_finalized(session_added_all(s, before));
            let next = session_added_all(finished, after);
            &&& finished.tensors.len() == 0
            &&& next.record.len() == s.record.len() + 1
            &&& next.record.subrange(0, s.record.len() as int) == s.record
            &&& next.record[s.record.len() as int] == (s.token, s.tensors + before)
            &&& next.tensors == after
        }),
{
    lemma_session_added_all(s, before);
    let finished = session_finalized(session_added_all(s, before));
    lemma_session_added_all(finished, after);
    assert(finished.tensors + after =~= after);
    assert(finished.record.subrange(0, s.record.len() as int) =~= s.record);
}

} // verus!
