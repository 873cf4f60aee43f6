use rust_utils::capture::{AllSavedTensors, InputRecord};
use rust_utils::codec::CodecError;
use rust_utils::session::CaptureSession;
use rust_utils::tensor::Tensor;

fn bits(v: &[f32]) -> Vec<u32> {
    v.iter().map(|x| x.to_bits()).collect()
}

#[test]
fn buffer_round_trip() {
    let mut b = AllSavedTensors::new();
    b.add_tensor(
        "w".to_string(),
        Tensor::new(bits(&[1.5, -2.0, f32::MIN_POSITIVE]), [3, 1, 1, 1], [4, 12, 12, 12]),
    );
    b.add_tensor("w".to_string(), Tensor::new(vec![], [0, 1, 1, 1], [4, 0, 0, 0]));
    let bytes = b.to_bytes();
    let back = AllSavedTensors::from_bytes(&bytes).unwrap();
    assert_eq!(back.len(), 2);
    for i in 0..2 {
        assert_eq!(back.tensors[i].0, b.tensors[i].0);
        assert_eq!(back.tensors[i].1.inner, b.tensors[i].1.inner);
        assert_eq!(back.tensors[i].1.dim, b.tensors[i].1.dim);
        assert_eq!(back.tensors[i].1.stride, b.tensors[i].1.stride);
    }
}

#[test]
fn encoding_matches_float_layout() {
    let data = [0.1f32, 0.2, 0.3, 0.4];
    let mut b = AllSavedTensors::new();
    b.add_tensor("logits".to_string(), Tensor::new(bits(&data), [4, 1, 1, 1], [4, 16, 16, 16]));
    let ours = b.to_bytes();
    let plain: Vec<(String, (Vec<f32>, [i64; 4], [u64; 4]))> =
        vec![("logits".to_string(), (data.to_vec(), [4, 1, 1, 1], [4, 16, 16, 16]))];
    assert_eq!(ours, bincode::serialize(&plain).unwrap());
    // count, name length, name, element count, elements, extents, strides
    assert_eq!(ours.len(), 8 + 8 + 6 + 8 + 16 + 32 + 32);
}

#[test]
fn decoding_garbage_fails() {
    assert_eq!(AllSavedTensors::from_bytes(&[5, 0, 0]).err(), Some(CodecError::Decode));
    assert_eq!(InputRecord::from_bytes(&[1]).err(), Some(CodecError::Decode));
}

#[test]
fn empty_buffer_encodes_as_zero_count() {
    let bytes = AllSavedTensors::new().to_bytes();
    assert_eq!(bytes, vec![0u8; 8]);
    assert_eq!(AllSavedTensors::from_bytes(&bytes).unwrap().len(), 0);
}

#[test]
fn logits_scenario() {
    let data = [0.1f32, 0.2, 0.3, 0.4];
    let mut s = CaptureSession::new();
    s.add_tensor("logits".to_string(), Tensor::new(bits(&data), [4, 1, 1, 1], [4, 16, 16, 16]));
    s.set_token("hello".to_string());
    s.finalize_step();
    let saved = s.save_elements();
    let rec = InputRecord::from_bytes(&saved).unwrap();
    assert_eq!(rec.len(), 1);
    assert_eq!(rec.records[0].0, "hello");
    let buffer = &rec.records[0].1;
    let bytes = buffer.to_bytes();
    let mut fresh = CaptureSession::new();
    fresh.load_elements(&bytes).unwrap();
    assert_eq!(fresh.tensors.len(), 1);
    assert_eq!(fresh.tensors.tensors[0].0, "logits");
    let values: Vec<f32> =
        fresh.tensors.tensors[0].1.inner.iter().map(|b| f32::from_bits(*b)).collect();
    assert_eq!(values, data.to_vec());
}

#[test]
fn record_round_trip() {
    let mut s = CaptureSession::new();
    s.set_token("a".to_string());
    s.add_tensor("x".to_string(), Tensor::new(vec![1, 2], [2, 1, 1, 1], [4, 8, 8, 8]));
    s.finalize_step();
    s.set_token("b".to_string());
    s.finalize_step();
    let bytes = s.save_elements();
    let rec = InputRecord::from_bytes(&bytes).unwrap();
    assert_eq!(rec.len(), 2);
    assert_eq!(rec.records[0].0, "a");
    assert_eq!(rec.records[0].1.tensors[0].1.inner, vec![1, 2]);
    assert_eq!(rec.records[1].0, "b");
    assert_eq!(rec.records[1].1.len(), 0);
}
