//! The last-resort path source: the recovered first command-line argument,
//! verified against the kernel-held identity of the executing image.
//!
//! One platform family offers no direct path query, but the kernel keeps a
//! copy of the command line and a per-file record for the process's
//! executing text image. This module holds the pure half of that source: a
//! size-checked decoder for the fixed-layout kernel file record, recovery of
//! the first argument from the raw command-line buffer, and the acceptance
//! rule that only admits an argument which names a path whose stat identity
//! matches the kernel's record.

use vstd::prelude::*;

use vstd::seq_lib::lemma_seq_skip_of_skip;

use crate::path_bytes::SEPARATOR;
use crate::path_bytes::contains_byte;
use crate::path_bytes::has_separator;
use crate::path_bytes::lemma_first_zero_step;
use crate::path_bytes::spec_first_zero;

verus! {

/// A file identity: a (device id, file serial number) pair that names a file
/// object, stable across renames of the same underlying file.
#[derive(Clone, Copy, Debug, PartialEq, Eq, Structural)]
pub struct FileId {
    /// The id of the device the file lives on.
    pub dev: u64,
    /// The file's serial number on that device.
    pub ino: u64,
}

/// The byte size of the kernel's fixed-layout per-file record.
pub const RECORD_SIZE: usize = 632;

/// Byte offset of the descriptor field inside the record.
pub const FD_OFFSET: usize = 380;

/// Byte offset of the file serial number inside the record.
pub const SERIAL_OFFSET: usize = 152;

/// Byte offset of the filesystem device id inside the record.
pub const DEVICE_OFFSET: usize = 172;

/// The descriptor value marking the record of the executing text image.
pub const TEXT_FD: i32 = -1;

/// The little-endian 32-bit value at offset `k` of `s`.
pub open spec fn le_u32_at(s: Seq<u8>, k: int) -> int {
    s[k] + s[k + 1] * 0x100 + s[k + 2] * 0x1_0000 + s[k + 3] * 0x100_0000
}

/// The little-endian 64-bit value at offset `k` of `s`.
pub open spec fn le_u64_at(s: Seq<u8>, k: int) -> int {
    s[k] + s[k + 1] * 0x100 + s[k + 2] * 0x1_0000 + s[k + 3] * 0x100_0000 + s[k + 4]
        * 0x1_0000_0000 + s[k + 5] * 0x100_0000_0000 + s[k + 6] * 0x1_0000_0000_0000 + s[k + 7]
        * 0x100_0000_0000_0000
}

/// The little-endian 32-bit value at offset `k` of `s`, read as a signed
/// two's-complement number.
pub open spec fn le_i32_at(s: Seq<u8>, k: int) -> int {
    if le_u32_at(s, k) < 0x8000_0000 {
        le_u32_at(s, k)
    } else {
        le_u32_at(s, k) - 0x1_0000_0000
    }
}

/// Read the little-endian 32-bit value at offset `k` of `buf`.
fn read_le_u32(buf: &Vec<u8>, k: usize) -> (r: u32)
    requires
        k + 4 <= buf@.len(),
    ensures
        r as int == le_u32_at(buf@, k as int),
{
    // Binding the length lets the verifier see the offsets fit in usize.
    let _len: usize = buf.len();
    let b0 = buf[k];
    let b1 = buf[k + 1];
    let b2 = buf[k + 2];
    let b3 = buf[k + 3];
    (b0 as u32) + (b1 as u32) * 0x100 + (b2 as u32) * 0x1_0000 + (b3 as u32) * 0x100_0000
}

/// Read the little-endian 64-bit value at offset `k` of `buf`.
fn read_le_u64(buf: &Vec<u8>, k: usize) -> (r: u64)
    requires
        k + 8 <= buf@.len(),
    ensures
        r as int == le_u64_at(buf@, k as int),
{
    // Binding the length lets the verifier see the offsets fit in usize.
    let _len: usize = buf.len();
    let b0 = buf[k];
    let b1 = buf[k + 1];
    let b2 = buf[k + 2];
    let b3 = buf[k + 3];
    let b4 = buf[k + 4];
    let b5 = buf[k + 5];
    let b6 = buf[k + 6];
    let b7 = buf[k + 7];
    (b0 as u64) + (b1 as u64) * 0x100 + (b2 as u64) * 0x1_0000 + (b3 as u64) * 0x100_0000 + (b4
        as u64) * 0x1_0000_0000 + (b5 as u64) * 0x100_0000_0000 + (b6 as u64)
        * 0x1_0000_0000_0000 + (b7 as u64) * 0x100_0000_0000_0000
}

/// The fields of the kernel's per-file record that this source reads.
#[derive(Clone, Copy, Debug, PartialEq, Eq, Structural)]
pub struct KernelFileRecord {
    /// The descriptor the record describes; the executing text image is
    /// marked by `TEXT_FD`.
    pub fd: i32,
    /// The file's serial number.
    pub file_serial: u64,
    /// The id of the filesystem device holding the file.
    pub fs_device: u32,
}

/// Decode the kernel's fixed-layout per-file record from a raw buffer.
/// The buffer must hold the whole record; a shorter one is rejected rather
/// than read out of bounds.
pub fn decode_kernel_file_record(buf: &Vec<u8>) -> (r: Option<KernelFileRecord>)
    ensures
        r is Some <==> buf@.len() >= RECORD_SIZE,
        r matches Some(rec) ==> {
            &&& rec.fd as int == le_i32_at(buf@, FD_OFFSET as int)
            &&& rec.file_serial as int == le_u64_at(buf@, SERIAL_OFFSET as int)
            &&& rec.fs_device as int == le_u32_at(buf@, DEVICE_OFFSET as int)
        },
{
    if buf.len() < RECORD_SIZE {
        return None;
    }
    let fd_bits = read_le_u32(buf, FD_OFFSET);
    let fd: i32 = if fd_bits >= 0x8000_0000 {
        ((fd_bits - 0x8000_0000) as i32) + i32::MIN
    } else {
        fd_bits as i32
    };
    let file_serial = read_le_u64(buf, SERIAL_OFFSET);
    let fs_device = read_le_u32(buf, DEVICE_OFFSET);
    Some(KernelFileRecord { fd, file_serial, fs_device })
}

/// Whether a decoded record describes the executing text image.
pub fn record_is_text(rec: &KernelFileRecord) -> (r: bool)
    ensures
        r == (rec.fd == TEXT_FD),
{
    rec.fd == TEXT_FD
}

/// The file identity a decoded record reports.
pub fn record_identity(rec: &KernelFileRecord) -> (r: FileId)
    ensures
        r.dev == rec.fs_device as u64,
        r.ino == rec.file_serial,
{
    FileId { dev: rec.fs_device as u64, ino: rec.file_serial }
}

/// Whether every byte of `s` is zero.
pub open spec fn all_zero(s: Seq<u8>) -> bool {
    forall|i: int| 0 <= i < s.len() ==> s[i] == 0
}

/// The first argument held in a raw command-line buffer of word size `w`:
/// the buffer opens with an array of pointer-sized words ended by an
/// all-zero word, and the argument's bytes follow up to a zero terminator.
/// Nothing is recovered from a buffer without that shape.
pub open spec fn spec_first_argument(s: Seq<u8>, w: int) -> Option<Seq<u8>>
    decreases s.len(),
{
    if w <= 0 || s.len() < w {
        None
    } else if all_zero(s.take(w)) {
        match spec_first_zero(s.skip(w)) {
            Some(n) => Some(s.skip(w).take(n)),
            None => None,
        }
    } else {
        spec_first_argument(s.skip(w), w)
    }
}

/// Recover the process's first command-line argument from the raw buffer the
/// kernel filled, given the platform's pointer word size.
#[verifier::loop_isolation(false)]
#[verifier::rlimit(30)]
pub fn extract_first_argument(cmdline: &Vec<u8>, word: usize) -> (r: Option<Vec<u8>>)
    requires
        word >= 1,
    ensures
        r is Some <==> spec_first_argument(cmdline@, word as int) is Some,
        r matches Some(v) ==> spec_first_argument(cmdline@, word as int) == Some(v@),
{
    let len: usize = cmdline.len();
    let mut k: usize = 0;
    proof {
        assert(cmdline@.skip(0) =~= cmdline@);
    }
    // Skip the pointer array: word-sized strides until an all-zero word.
    while len - k >= word
        invariant
            0 <= k <= len,
            word >= 1,
            len == cmdline@.len(),
            spec_first_argument(cmdline@, word as int) == spec_first_argument(
                cmdline@.skip(k as int), word as int),
        decreases len - k,
    {
        let mut j: usize = 0;
        let mut zero = true;
        while j < word
            invariant
                0 <= j <= word,
                k + word <= len,
                len == cmdline@.len(),
                zero == (forall|t: int| k <= t < k + j ==> cmdline@[t] == 0),
            decreases word - j,
        {
            if cmdline[k + j] != 0 {
                zero = false;
                proof {
                    assert(!(forall|t: int| k <= t < k + j + 1 ==> cmdline@[t] == 0));
                }
            }
            j = j + 1;
        }
        proof {
            let w0 = cmdline@.skip(k as int).take(word as int);
            assert(forall|i: int| 0 <= i < word ==> w0[i] == cmdline@[k + i]);
            if zero {
                assert(all_zero(w0));
            } else {
                let t = choose|t: int| k <= t < k + word && cmdline@[t] != 0;
                assert(w0[t - k] != 0);
                assert(!all_zero(w0));
            }
        }
        if zero {
            // The argument's bytes start right after the zero word; take
            // them up to their zero terminator.
            let start = k + word;
            let mut m: usize = start;
            while m < len
                invariant
                    start <= m <= len,
                    start <= len,
                    len == cmdline@.len(),
                    forall|t: int| start <= t < m ==> cmdline@[t] != 0,
                decreases len - m,
            {
                if cmdline[m] == 0 {
                    let mut out: Vec<u8> = Vec::new();
                    let mut t: usize = start;
                    while t < m
                        invariant
                            start <= t <= m <= len,
                            len == cmdline@.len(),
                            out@ =~= cmdline@.subrange(start as int, t as int),
                        decreases m - t,
                    {
                        out.push(cmdline[t]);
                        t = t + 1;
                    }
                    proof {
                        let rest = cmdline@.skip(start as int);
                        assert(forall|t: int| 0 <= t < m - start ==> rest[t] != 0);
                        lemma_first_zero_step(rest, m as int - start as int);
                        assert(rest[m - start as int] == 0);
                        assert(spec_first_zero(rest) == Some(m as int - start as int));
                        assert(rest.take(m as int - start as int) =~= cmdline@.subrange(
                            start as int, m as int));
                        lemma_seq_skip_of_skip(cmdline@, k as int, word as int);
                        assert(cmdline@.skip(k as int).skip(word as int) =~= rest);
                    }
                    return Some(out);
                }
                m = m + 1;
            }
            proof {
                let rest = cmdline@.skip(start as int);
                assert(forall|t: int| 0 <= t < rest.len() ==> rest[t] != 0);
                lemma_first_zero_step(rest, len as int - start as int);
                lemma_seq_skip_of_skip(cmdline@, k as int, word as int);
                assert(cmdline@.skip(k as int).skip(word as int) =~= rest);
            }
            return None;
        }
        proof {
            lemma_seq_skip_of_skip(cmdline@, k as int, word as int);
            assert(cmdline@.skip(k as int).skip(word as int) =~= cmdline@.skip(k as int
                + word as int));
        }
        k = k + word;
    }
    None
}

/// The acceptance rule of the last-resort strategy. A recovered first
/// argument counts as a candidate only when it names a path — it contains a
/// separator, rather than being a bare program name the shell looked up
/// elsewhere — and the file it stats to has exactly the identity the kernel
/// holds for the executing image.
pub open spec fn spec_last_resort_accepts(arg0: Seq<u8>, image_id: FileId, arg0_id: Option<
    FileId>) -> bool {
    contains_byte(arg0, SEPARATOR) && arg0_id == Some(image_id)
}

/// Copy candidate path bytes into an owned buffer.
pub fn copy_bytes(src: &Vec<u8>) -> (r: Vec<u8>)
    ensures
        r@ == src@,
{
    let mut out: Vec<u8> = Vec::new();
    let mut i: usize = 0;
    while i < src.len()
        invariant
            0 <= i <= src.len(),
            out@ =~= src@.take(i as int),
        decreases src.len() - i,
    {
        out.push(src[i]);
        i = i + 1;
    }
    proof {
        assert(src@.take(src@.len() as int) =~= src@);
    }
    out
}

/// Decide whether the recovered first argument is a usable candidate, given
/// the identity the kernel holds for the executing image and the identity
/// the argument stats to (or `None` when it stats to nothing).
pub fn last_resort_candidate(arg0: &Vec<u8>, image_id: FileId, arg0_id: Option<FileId>) -> (r:
    Option<Vec<u8>>)
    ensures
        r is Some <==> spec_last_resort_accepts(arg0@, image_id, arg0_id),
        r matches Some(v) ==> v@ == arg0@,
{
    if !has_separator(arg0) {
        return None;
    }
    match arg0_id {
        Some(id) => {
            if id == image_id {
                Some(copy_bytes(arg0))
            } else {
                None
            }
        },
        None => None,
    }
}

} // verus!
