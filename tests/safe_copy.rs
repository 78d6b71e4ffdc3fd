use serde_bindgen_core::SafeCopy;

#[test]
fn greater_than() {
    let var: &[u8] = &[0, 1, 2, 3, 4];
    let owned: [u8; 10] = var.safe_copy();
    assert_eq!(owned, [0, 1, 2, 3, 4, 0, 0, 0, 0, 0]);
}

#[test]
fn less_than() {
    let var: &[u8] = &[0, 1, 2, 3, 4];
    let owned: [u8; 3] = var.safe_copy();
    assert_eq!(owned, [0, 1, 2]);
}

#[test]
fn str_short() {
    let var: &str = "hi";
    let owned: [u8; 2] = var.safe_copy();
    assert_eq!(owned, [b'h', 0]);
}

#[test]
fn str_long() {
    let var: &str = "hi";
    let owned: [u8; 4] = var.safe_copy();
    assert_eq!(owned, [b'h', b'i', 0, 0]);
}

#[test]
fn str_eq() {
    let var: &str = "hi";
    let owned: [u8; 3] = var.safe_copy();
    assert_eq!(owned, [b'h', b'i', 0]);
}

#[test]
fn signed_slice_copy_pads_with_zero() {
    let var: &[i8] = &[-1, -2];
    let owned: [i8; 4] = var.safe_copy();
    assert_eq!(owned, [-1, -2, 0, 0]);
}

#[test]
fn empty_text_fills_buffer_with_zeros() {
    let var: &str = "";
    let owned: [u8; 5] = var.safe_copy();
    assert_eq!(owned, [0, 0, 0, 0, 0]);
}
