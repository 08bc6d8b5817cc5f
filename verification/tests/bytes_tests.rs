use reexec::first_zero;
use reexec::has_separator;
use reexec::path_is_absolute;
use reexec::query_path_len;
use reexec::readlink_trim;
use reexec::stream_read_ok;

#[test]
fn absolute_paths() {
    assert!(path_is_absolute(&b"/bin/app".to_vec()));
    assert!(!path_is_absolute(&b"./app".to_vec()));
    assert!(!path_is_absolute(&b"app".to_vec()));
    assert!(!path_is_absolute(&Vec::new()));
}

#[test]
fn separator_search() {
    assert!(has_separator(&b"./app".to_vec()));
    assert!(has_separator(&b"/app".to_vec()));
    assert!(!has_separator(&b"app".to_vec()));
    assert!(!has_separator(&Vec::new()));
}

#[test]
fn zero_terminator_scan() {
    assert_eq!(first_zero(&b"abc\0def".to_vec()), Some(3));
    assert_eq!(first_zero(&b"\0".to_vec()), Some(0));
    assert_eq!(first_zero(&b"abc".to_vec()), None);
    assert_eq!(first_zero(&Vec::new()), None);
}

#[test]
fn readlink_trimming() {
    let mut buf = vec![0u8; 16];
    buf[0] = b'/';
    buf[1] = b'a';
    // A read of 2 bytes without a trailing zero keeps its length.
    assert_eq!(readlink_trim(&buf, 2), Some(2));
    // A read whose last byte is zero is trimmed by one.
    buf[2] = b'b';
    buf[3] = 0;
    assert_eq!(readlink_trim(&buf, 4), Some(3));
    // An empty read means the link was missing.
    assert_eq!(readlink_trim(&buf, 0), None);
    // A read that (nearly) filled the buffer may be truncated.
    assert_eq!(readlink_trim(&buf, 15), None);
    assert_eq!(readlink_trim(&buf, 16), None);
}

#[test]
fn query_lengths() {
    // The kernel's count includes the zero terminator.
    assert_eq!(query_path_len(15), Some(14));
    assert_eq!(query_path_len(2), Some(1));
    assert_eq!(query_path_len(1), None);
    assert_eq!(query_path_len(0), None);
}

#[test]
fn stream_read_bounds() {
    assert!(stream_read_ok(1, 16));
    assert!(stream_read_ok(14, 16));
    assert!(!stream_read_ok(0, 16));
    assert!(!stream_read_ok(15, 16));
    assert!(!stream_read_ok(16, 16));
}
