use rust_utils::capture::{save_input, AllSavedTensors, InputRecord};
use rust_utils::session::CaptureSession;
use rust_utils::tensor::{capture_len, Tensor};

fn tensor(vals: &[u32]) -> Tensor {
    Tensor::new(vals.to_vec(), [vals.len() as i64, 1, 1, 1], [4, 16, 16, 16])
}

#[test]
fn capture_copies_the_described_prefix() {
    let source: Vec<u32> = (0..10).collect();
    let t = Tensor::capture(&source, &[2, 2, 1, 2], &[4, 8, 16, 16]).unwrap();
    // dim[3] * stride[3] = 32 bytes, eight elements
    assert_eq!(t.inner, (0..8).collect::<Vec<u32>>());
    assert_eq!(t.dim, [2, 2, 1, 2]);
    assert_eq!(t.stride, [4, 8, 16, 16]);
}

#[test]
fn capture_refuses_short_source_and_negative_extent() {
    let source: Vec<u32> = vec![0; 3];
    assert!(Tensor::capture(&source, &[2, 2, 1, 1], &[4, 8, 16, 16]).is_none());
    assert!(Tensor::capture(&source, &[2, 2, 1, -1], &[4, 8, 16, 16]).is_none());
    assert_eq!(capture_len(&[2, 2, 1, 3], &[4, 8, 16, 16]), Some(12));
    assert_eq!(capture_len(&[1, 1, 1, i64::MAX], &[4, 4, 4, u64::MAX]), None);
}

#[test]
fn capture_negative_extent_with_zero_stride_is_empty() {
    let t = Tensor::capture(&[], &[1, 1, 1, -1], &[4, 4, 4, 0]).unwrap();
    assert!(t.inner.is_empty());
    assert_eq!(t.dim, [1, 1, 1, -1]);
    assert_eq!(capture_len(&[1, 1, 1, -1], &[4, 4, 4, 0]), Some(0));
    assert_eq!(capture_len(&[1, 1, 1, -1], &[4, 4, 4, 4]), None);
}

#[test]
fn add_keeps_order_and_duplicates() {
    let mut b = AllSavedTensors::new();
    b.add_tensor("a".to_string(), tensor(&[1]));
    b.add_tensor("a".to_string(), tensor(&[2]));
    b.add_tensor("b".to_string(), tensor(&[3]));
    assert_eq!(b.len(), 3);
    assert_eq!(b.tensors[0].0, "a");
    assert_eq!(b.tensors[1].1.inner, vec![2]);
    assert_eq!(b.tensors[2].0, "b");
    b.clear();
    assert_eq!(b.len(), 0);
}

#[test]
fn save_input_moves_step_into_record() {
    let mut b = AllSavedTensors::new();
    let mut token = "tok".to_string();
    let mut rec = InputRecord::new();
    b.add_tensor("x".to_string(), tensor(&[7, 8]));
    save_input(&mut b, &mut token, &mut rec);
    assert_eq!(b.len(), 0);
    assert_eq!(token, "");
    assert_eq!(rec.len(), 1);
    assert_eq!(rec.records[0].0, "tok");
    assert_eq!(rec.records[0].1.tensors[0].1.inner, vec![7, 8]);
}

#[test]
fn steps_are_kept_apart() {
    let mut s = CaptureSession::new();
    s.set_token("one".to_string());
    s.add_tensor("a".to_string(), tensor(&[1]));
    s.add_tensor("b".to_string(), tensor(&[2]));
    s.finalize_step();
    assert_eq!(s.tensors.len(), 0);
    s.set_token("two".to_string());
    s.add_tensor("c".to_string(), tensor(&[3]));
    s.finalize_step();
    assert_eq!(s.record.len(), 2);
    let first = &s.record.records[0];
    assert_eq!(first.0, "one");
    assert_eq!(first.1.len(), 2);
    assert_eq!(first.1.tensors[1].0, "b");
    let second = &s.record.records[1];
    assert_eq!(second.0, "two");
    assert_eq!(second.1.len(), 1);
    assert_eq!(second.1.tensors[0].0, "c");
}

#[test]
fn clear_and_load_leave_record_alone() {
    let mut s = CaptureSession::new();
    s.set_token("t".to_string());
    s.add_tensor("a".to_string(), tensor(&[1]));
    s.finalize_step();
    s.add_tensor("b".to_string(), tensor(&[2]));
    s.clear_tensors();
    assert_eq!(s.tensors.len(), 0);
    assert_eq!(s.record.len(), 1);
    assert!(s.load_elements(&[1, 2, 3]).is_err());
    assert_eq!(s.record.len(), 1);
    let mut other = AllSavedTensors::new();
    other.add_tensor("z".to_string(), tensor(&[9]));
    let bytes = other.to_bytes();
    s.load_elements(&bytes).unwrap();
    assert_eq!(s.tensors.len(), 1);
    assert_eq!(s.tensors.tensors[0].0, "z");
    assert_eq!(s.record.len(), 1);
    assert_eq!(s.record.records[0].1.tensors[0].0, "a");
}

#[test]
fn snapshot_is_a_deep_copy() {
    let mut s = CaptureSession::new();
    s.add_tensor("a".to_string(), tensor(&[1, 2]));
    let snap = s.snapshot();
    s.clear_tensors();
    assert_eq!(snap.len(), 1);
    assert_eq!(snap.tensors[0].1.inner, vec![1, 2]);
    let d = snap.tensors[0].1.duplicate();
    assert_eq!(d.inner, vec![1, 2]);
}
