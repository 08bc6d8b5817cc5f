use reexec::DEVICE_OFFSET;
use reexec::FD_OFFSET;
use reexec::FileId;
use reexec::RECORD_SIZE;
use reexec::SERIAL_OFFSET;
use reexec::TEXT_FD;
use reexec::decode_kernel_file_record;
use reexec::extract_first_argument;
use reexec::last_resort_candidate;
use reexec::record_identity;
use reexec::record_is_text;

fn text_record_bytes(serial: u64, device: u32) -> Vec<u8> {
    let mut buf = vec![0u8; RECORD_SIZE];
    // The text-image marker is the two's-complement encoding of -1.
    for b in &mut buf[FD_OFFSET..FD_OFFSET + 4] {
        *b = 0xff;
    }
    buf[SERIAL_OFFSET..SERIAL_OFFSET + 8].copy_from_slice(&serial.to_le_bytes());
    buf[DEVICE_OFFSET..DEVICE_OFFSET + 4].copy_from_slice(&device.to_le_bytes());
    buf
}

#[test]
fn record_decoding() {
    let buf = text_record_bytes(42, 7);
    let rec = decode_kernel_file_record(&buf).unwrap();
    assert_eq!(rec.fd, TEXT_FD);
    assert_eq!(rec.file_serial, 42);
    assert_eq!(rec.fs_device, 7);
    assert!(record_is_text(&rec));
    let id = record_identity(&rec);
    assert_eq!(id, FileId { dev: 7, ino: 42 });
}

#[test]
fn record_too_short() {
    let buf = vec![0u8; RECORD_SIZE - 1];
    assert!(decode_kernel_file_record(&buf).is_none());
    assert!(decode_kernel_file_record(&Vec::new()).is_none());
}

#[test]
fn record_of_other_descriptor() {
    // A record whose descriptor field is a small nonnegative number does not
    // describe the executing image.
    let mut buf = text_record_bytes(42, 7);
    buf[FD_OFFSET] = 3;
    buf[FD_OFFSET + 1] = 0;
    buf[FD_OFFSET + 2] = 0;
    buf[FD_OFFSET + 3] = 0;
    let rec = decode_kernel_file_record(&buf).unwrap();
    assert_eq!(rec.fd, 3);
    assert!(!record_is_text(&rec));
}

fn cmdline_buffer(arg0: &[u8]) -> Vec<u8> {
    // One nonzero pointer-sized word, the zero terminator word, then the
    // argument bytes with their zero terminator.
    let word = std::mem::size_of::<usize>();
    let mut buf = vec![0u8; word];
    buf[0] = 0x10;
    buf.extend(std::iter::repeat(0).take(word));
    buf.extend_from_slice(arg0);
    buf.push(0);
    buf
}

#[test]
fn first_argument_recovery() {
    let buf = cmdline_buffer(b"./app");
    let word = std::mem::size_of::<usize>();
    assert_eq!(extract_first_argument(&buf, word), Some(b"./app".to_vec()));
}

#[test]
fn first_argument_needs_structure() {
    let word = std::mem::size_of::<usize>();
    // No all-zero word at all.
    let mut buf = vec![1u8; 3 * word];
    assert_eq!(extract_first_argument(&buf, word), None);
    // A zero word but no terminated argument after it.
    buf = vec![1u8; word];
    buf.extend(std::iter::repeat(0).take(word));
    buf.extend_from_slice(b"unterminated");
    assert_eq!(extract_first_argument(&buf, word), None);
    // Too short to hold even one word.
    assert_eq!(extract_first_argument(&vec![0u8; 2], word), None);
}

#[test]
fn candidate_acceptance() {
    let image = FileId { dev: 7, ino: 42 };
    // A path-shaped argument whose stat matches the image identity passes.
    assert_eq!(
        last_resort_candidate(&b"./app".to_vec(), image, Some(image)),
        Some(b"./app".to_vec())
    );
    // An identity mismatch is rejected.
    assert_eq!(
        last_resort_candidate(&b"./app".to_vec(), image, Some(FileId { dev: 7, ino: 43 })),
        None
    );
    // A stat failure is rejected.
    assert_eq!(last_resort_candidate(&b"./app".to_vec(), image, None), None);
    // A bare program name was found via a search path and is not trusted.
    assert_eq!(last_resort_candidate(&b"app".to_vec(), image, Some(image)), None);
}
