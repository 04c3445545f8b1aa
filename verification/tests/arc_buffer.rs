use pen::arc_buffer::ArcBuffer;

#[test]
fn create_buffer() {
    ArcBuffer::new(42);
}

#[test]
fn create_empty() {
    ArcBuffer::new(0);
}

#[test]
fn create_zero_sized_buffer() {
    ArcBuffer::new(0);
}

#[test]
fn clone() {
    let arc = ArcBuffer::new(42);
    drop(arc.clone());
    drop(arc);
}

#[test]
fn convert_from_vec() {
    let _ = ArcBuffer::from(vec![0u8; 42].as_slice());
}

#[test]
fn convert_from_string() {
    let _ = ArcBuffer::from("hello".as_bytes());
}

#[test]
fn new_buffer_has_length_zero_bytes() {
    let buffer = ArcBuffer::new(42);
    assert_eq!(buffer.as_slice().len(), 42);
    assert!(buffer.as_slice().iter().all(|byte| *byte == 0));
    assert_eq!(ArcBuffer::new(0).as_slice(), &[] as &[u8]);
}

#[test]
fn default_buffer_is_empty() {
    assert_eq!(ArcBuffer::default().as_slice(), &[] as &[u8]);
}

#[test]
fn buffer_from_bytes_reads_them_back() {
    assert_eq!(ArcBuffer::from("hello".as_bytes()).as_slice(), b"hello");
    assert_eq!(ArcBuffer::from(&[] as &[u8]).as_slice(), &[] as &[u8]);
}

#[test]
fn clone_reads_the_same_bytes() {
    let buffer = ArcBuffer::from(&[1u8, 2, 3][..]);
    let copy = buffer.clone();
    assert_eq!(copy.as_slice(), &[1, 2, 3]);
    assert_eq!(buffer.as_slice(), &[1, 2, 3]);
}

#[test]
fn write_through_mutable_slice_is_read_back() {
    let mut buffer = ArcBuffer::new(3);
    buffer.as_slice_mut()[1] = 7;
    assert_eq!(buffer.as_slice(), &[0, 7, 0]);
    buffer.as_slice_mut().copy_from_slice(b"abc");
    assert_eq!(buffer.as_slice(), b"abc");
}
