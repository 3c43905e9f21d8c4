use hexo::byte_buffer::ByteBuffer;
use hexo::id::{next, HexoIdGenerator};

#[test]
fn byte_buffer_byte_push() {
    let mut buffer = ByteBuffer::new();
    buffer.push_byte(0x01);
    buffer.push_byte(0x02);

    assert_eq!(buffer.len(), 2);

    assert_eq!(buffer.to_vec(), vec![0x01, 0x02]);
}

#[test]
fn byte_buffer_string_push() {
    let mut buffer = ByteBuffer::new();
    buffer.push_string("hello world".to_string());

    assert_eq!(buffer.len(), 11);

    assert_eq!(
        buffer.to_vec(),
        vec![104, 101, 108, 108, 111, 32, 119, 111, 114, 108, 100]
    );
}

#[test]
fn byte_buffer_u32_push() {
    let mut buffer = ByteBuffer::new();
    buffer.push_u32_shrunk(13);

    assert_eq!(buffer.len(), 1);

    assert_eq!(buffer.to_vec(), vec![13]);
}

#[test]
fn shrunk_encoding_lengths() {
    let mut buffer = ByteBuffer::new();
    buffer.push_u32_shrunk(0);
    assert_eq!(buffer.to_vec(), Vec::<u8>::new());
    buffer.push_u32_shrunk(255);
    assert_eq!(buffer.to_vec(), vec![255]);

    let mut two = ByteBuffer::new();
    two.push_u32_shrunk(256);
    assert_eq!(two.to_vec(), vec![0x00, 0x01]);

    let mut other = ByteBuffer::new();
    other.push_u32_shrunk(0x1234);
    assert_eq!(other.to_vec(), vec![0x34, 0x12]);

    let mut four = ByteBuffer::new();
    four.push_u32_shrunk(0x0102_0304);
    assert_eq!(four.to_vec(), vec![0x04, 0x03, 0x02, 0x01]);
}

#[test]
fn pad_left_is_idempotent() {
    let mut buffer = ByteBuffer::from_vec(vec![0x01]);
    buffer.pad_left(4);
    assert_eq!(buffer.to_vec(), vec![0, 0, 0, 1]);
    buffer.pad_left(4);
    assert_eq!(buffer.to_vec(), vec![0, 0, 0, 1]);
    buffer.pad_left(2);
    assert_eq!(buffer.to_vec(), vec![0, 0, 0, 1]);
}

#[test]
fn pad_right_is_idempotent() {
    let mut buffer = ByteBuffer::from_vec(vec![0x07, 0x08]);
    buffer.pad_right(3);
    assert_eq!(buffer.to_vec(), vec![7, 8, 0]);
    buffer.pad_right(3);
    buffer.pad_right(1);
    assert_eq!(buffer.to_vec(), vec![7, 8, 0]);
}

#[test]
fn pad_never_truncates() {
    let mut buffer = ByteBuffer::from_vec(vec![1, 2, 3]);
    buffer.pad_left(0);
    buffer.pad_right(2);
    assert_eq!(buffer.to_vec(), vec![1, 2, 3]);
}

#[test]
fn as_usize_reads_big_endian() {
    assert_eq!(ByteBuffer::from_vec(vec![]).as_usize_unsafe(), 0);
    assert_eq!(ByteBuffer::from_vec(vec![4]).as_usize_unsafe(), 4);
    assert_eq!(ByteBuffer::from_vec(vec![1, 0]).as_usize_unsafe(), 256);
    assert_eq!(
        ByteBuffer::from_vec(vec![1, 2, 3, 4, 5]).as_usize_unsafe(),
        0x0102_0304
    );
}

#[test]
fn push_byte_buffer_concatenates() {
    let mut a = ByteBuffer::from_vec(vec![1, 2]);
    let b = ByteBuffer::from_vec(vec![3]);
    a.push_byte_buffer(&b);
    assert_eq!(a.to_vec(), vec![1, 2, 3]);
    let c = a.clone();
    assert_eq!(c.to_vec(), vec![1, 2, 3]);
}

#[test]
fn to_string_decodes_utf8() {
    let text = ByteBuffer::from_vec(vec![0x68, 0xc3, 0xa9]);
    assert_eq!(text.to_string().unwrap(), "h\u{e9}".to_string());
    let broken = ByteBuffer::from_vec(vec![0xff, 0x00]);
    assert!(broken.to_string().is_err());
}

#[test]
fn ids_increase() {
    let mut generator = HexoIdGenerator::new(0);
    let a = next(&mut generator);
    let b = next(&mut generator);
    assert_eq!(a.sequence_id, 1);
    assert_eq!(b.sequence_id, 2);
    assert_ne!(a, b);
}
