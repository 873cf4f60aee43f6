use vstd::prelude::*;
use crate::tensor::{Tensor, TensorModel};

verus! {

/// What a capture buffer holds: its named tensors in insertion order.
pub type BufferModel = Seq<(Seq<char>, TensorModel)>;

/// What a step record holds: one entry per finished step, in order, each the
/// step's token and the tensors captured during it.
pub type RecordModel = Seq<(Seq<char>, BufferModel)>;

/// The tensors captured during the current step. Names need not be unique:
/// a later entry never replaces an earlier one.
pub struct AllSavedTensors {
    pub tensors: Vec<(String, Tensor)>,
}

/// The finished steps, in the order they were finished.
pub struct InputRecord {
    /// the input token, and the saved tensors
    pub records: Vec<(String, AllSavedTensors)>,
}

impl View for AllSavedTensors {
    type V = BufferModel;

    open spec fn view(&self) -> BufferModel {
        self.tensors@.map_values(|e: (String, Tensor)| (e.0@, e.1@))
    }
}

impl View for InputRecord {
    type V = RecordModel;

    open spec fn view(&self) -> RecordModel {
        self.records@.map_values(|e: (String, AllSavedTensors)| (e.0@, e.1@))
    }
}

/// The buffer after `name` and `t` are appended.
pub open spec fn with_tensor(b: BufferModel, name: Seq<char>, t: TensorModel) -> BufferModel {
    b.push((name, t))
}

/// The record after a step with `token` and `b` is finished.
pub open spec fn with_step(rec: RecordModel, token: Seq<char>, b: BufferModel) -> RecordModel {
    rec.push((token, b))
}

impl Default for AllSavedTensors {
    fn default() -> (r: AllSavedTensors)
        ensures
            r@ == BufferModel::empty(),
    {
        AllSavedTensors::new()
    }
}

impl Default for InputRecord {
    fn default() -> (r: InputRecord)
        ensures
            r@ == RecordModel::empty(),
    {
        InputRecord::new()
    }
}

impl AllSavedTensors {
    /// An empty buffer.
    pub fn new() -> (r: AllSavedTensors)
        ensures
            r@ == BufferModel::empty(),
    {
        let r = AllSavedTensors { tensors: Vec::new() };
        assert(r@ =~= BufferModel::empty());
        r
    }

    /// Appends a named tensor; earlier entries are kept as they are.
    pub fn add_tensor(&mut self, name: String, tensor: Tensor)
        ensures
            final(self)@ == with_tensor(old(self)@, name@, tensor@),
    {
        self.tensors.push((name, tensor));
        assert(self@ =~= old(self)@.push((name@, tensor@)));
    }

    /// Removes every entry.
    pub fn clear(&mut self)
        ensures
            final(self)@ == BufferModel::empty(),
    {
        self.tensors.clear();
        assert(self@ =~= BufferModel::empty());
    }

    /// Number of entries.
    pub fn len(&self) -> (r: usize)
        ensures
            r == self@.len(),
    {
        self.tensors.len()
    }

    /// A deep copy of the buffer: same names, elements, shapes and strides.
    pub fn duplicate(&self) -> (r: AllSavedTensors)
        ensures
            r@ == self@,
    {
        let mut out: Vec<(String, Tensor)> = Vec::with_capacity(self.tensors.len());
        let mut i: usize = 0;
        while i < self.tensors.len()
            invariant
                i <= self@.len(),
                self@.len() == self.tensors@.len(),
                (AllSavedTensors { tensors: out })@ == self@.subrange(0, i as int),
            decreases self@.len() - i,
        {
            let entry = &self.tensors[i];
            let name = entry.0.clone();
            let tensor = entry.1.duplicate();
            let ghost before = out;
            out.push((name, tensor));
            assert((AllSavedTensors { tensors: out })@ =~= (AllSavedTensors { tensors: before })@.push(
                (name@, tensor@),
            ));
            i = i + 1;
            assert((AllSavedTensors { tensors: out })@ =~= self@.subrange(0, i as int));
        }
        let r = AllSavedTensors { tensors: out };
        assert(r@ =~= self@);
        r
    }
}

impl InputRecord {
    /// A record with no steps.
    pub fn new() -> (r: InputRecord)
        ensures
            r@ == RecordModel::empty(),
    {
        let r = InputRecord { records: Vec::new() };
        assert(r@ =~= RecordModel::empty());
        r
    }

    /// Number of finished steps.
    pub fn len(&self) -> (r: usize)
        ensures
            r == self@.len(),
    {
        self.records.len()
    }
}

/// Finishes the current step: the current token and the tensors captured so
/// far become the record's next entry, and both are left empty.
pub fn save_input(tensors: &mut AllSavedTensors, token: &mut String, record: &mut InputRecord)
    ensures
        final(record)@ == with_step(old(record)@, old(token)@, old(tensors)@),
        final(tensors)@ == BufferModel::empty(),
        final(token)@ == Seq::<char>::empty(),
{
    let mut saved_tensors = AllSavedTensors::new();
    core::mem::swap(tensors, &mut saved_tensors);
    let mut current_token = String::new();
    core::mem::swap(token, &mut current_token);
    let ghost t = current_token@;
    let ghost b = saved_tensors@;
    record.records.push((current_token, saved_tensors));
    assert(record@ =~= old(record)@.push((t, b)));
}

} // verus!
