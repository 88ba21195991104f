use gpgme_sq::api::data::{
    gpgme_data_get_encoding, gpgme_data_new, gpgme_data_new_from_file, gpgme_data_new_from_mem,
    gpgme_data_new_from_stream, gpgme_data_read, gpgme_data_release_and_get_mem, gpgme_data_rewind,
    gpgme_data_seek, gpgme_data_write,
};
use gpgme_sq::data::{SeekError, SqData, SEEK_CUR, SEEK_END, SEEK_SET};

#[test]
fn new_data_is_empty() {
    let d = gpgme_data_new();
    assert!(d.buf.is_empty());
    assert_eq!(d.pos, 0);
    assert_eq!(gpgme_data_get_encoding(&d), 0);
}

#[test]
fn from_mem_copies() {
    let src = b"hello".to_vec();
    let d = gpgme_data_new_from_mem(&src);
    assert_eq!(d.buf, b"hello".to_vec());
    assert_eq!(d.pos, 0);
}

#[test]
fn from_stream_and_file() {
    let d = gpgme_data_new_from_stream(vec![1, 2, 3]);
    assert_eq!(d.buf, vec![1, 2, 3]);
    let f = gpgme_data_new_from_file(Some(vec![9]));
    assert_eq!(f.buf, vec![9]);
    let g = gpgme_data_new_from_file(None);
    assert!(g.buf.is_empty());
    assert_eq!(g.pos, 0);
}

#[test]
fn read_after_write_gives_back_the_bytes() {
    let mut d = gpgme_data_new();
    assert_eq!(gpgme_data_write(&mut d, b"abcdef"), 6);
    assert_eq!(d.pos, 6);
    assert_eq!(gpgme_data_rewind(&mut d), 0);
    let (bytes, n) = gpgme_data_read(&mut d, 6);
    assert_eq!(bytes, b"abcdef".to_vec());
    assert_eq!(n, 6);
    assert_eq!(d.pos, 6);
}

#[test]
fn read_is_limited_by_available_bytes() {
    let mut d = gpgme_data_new_from_mem(b"xyz");
    let (a, n) = gpgme_data_read(&mut d, 2);
    assert_eq!(a, b"xy".to_vec());
    assert_eq!(n, 2);
    let (b, m) = gpgme_data_read(&mut d, 10);
    assert_eq!(b, b"z".to_vec());
    assert_eq!(m, 1);
    let (c, k) = gpgme_data_read(&mut d, 10);
    assert!(c.is_empty());
    assert_eq!(k, 0);
}

#[test]
fn write_past_end_zero_fills() {
    let mut d = gpgme_data_new_from_mem(b"ab");
    assert!(matches!(gpgme_data_seek(&mut d, 4, SEEK_SET), Ok(4)));
    assert_eq!(gpgme_data_write(&mut d, b"cd"), 2);
    assert_eq!(d.buf, vec![b'a', b'b', 0, 0, b'c', b'd']);
    assert_eq!(d.pos, 6);
}

#[test]
fn write_overwrites_in_the_middle() {
    let mut d = gpgme_data_new_from_mem(b"abcdef");
    assert!(matches!(gpgme_data_seek(&mut d, 2, SEEK_SET), Ok(2)));
    gpgme_data_write(&mut d, b"XY");
    assert_eq!(d.buf, b"abXYef".to_vec());
    assert_eq!(d.pos, 4);
}

#[test]
fn seek_whences() {
    let mut d = gpgme_data_new_from_mem(b"0123456789");
    assert!(matches!(gpgme_data_seek(&mut d, 3, SEEK_SET), Ok(3)));
    assert!(matches!(gpgme_data_seek(&mut d, 2, SEEK_CUR), Ok(5)));
    assert!(matches!(gpgme_data_seek(&mut d, -1, SEEK_END), Ok(9)));
    assert_eq!(d.pos, 9);
    assert!(matches!(gpgme_data_seek(&mut d, 5, SEEK_END), Ok(15)));
    assert_eq!(d.pos, 15);
}

#[test]
fn seek_errors_leave_position() {
    let mut d = gpgme_data_new_from_mem(b"abc");
    d.pos = 1;
    assert!(matches!(gpgme_data_seek(&mut d, 0, 7), Err(SeekError::InvalidWhence)));
    assert_eq!(d.pos, 1);
    assert!(matches!(gpgme_data_seek(&mut d, -2, SEEK_CUR), Err(SeekError::NegativePosition)));
    assert_eq!(d.pos, 1);
    assert!(matches!(gpgme_data_seek(&mut d, -1, SEEK_SET), Err(SeekError::NegativePosition)));
    assert!(matches!(gpgme_data_seek(&mut d, i64::MAX, SEEK_END), Ok(i64::MAX)));
}

#[test]
fn release_and_get_mem_appends_nul() {
    let d = gpgme_data_new_from_mem(b"pgp");
    let (bytes, len) = gpgme_data_release_and_get_mem(d);
    assert_eq!(bytes, b"pgp\0".to_vec());
    assert_eq!(len, 3);
    let (empty, zero) = gpgme_data_release_and_get_mem(SqData::new());
    assert_eq!(empty, vec![0u8]);
    assert_eq!(zero, 0);
}
