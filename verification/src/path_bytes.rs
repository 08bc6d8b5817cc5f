//! Small decisions on candidate path bytes.
//!
//! Candidate paths are byte sequences. The chain accepts a loader-recorded
//! invocation path only when it is absolute, scans kernel-filled buffers for
//! their zero terminator, and trims the trailing terminator some kernels
//! append to a link target.

use vstd::prelude::*;

verus! {

/// The path separator byte, `/`.
pub const SEPARATOR: u8 = 47;

/// A path is absolute when it begins with the separator. Only an absolute
/// recorded invocation path can be trusted independent of the current
/// working directory.
pub open spec fn is_absolute(s: Seq<u8>) -> bool {
    s.len() > 0 && s[0] == SEPARATOR
}

/// Whether the byte `b` occurs in `s`.
pub open spec fn contains_byte(s: Seq<u8>, b: u8) -> bool {
    exists|i: int| 0 <= i < s.len() && s[i] == b
}

/// The index of the first zero byte of `s`, if there is one.
pub open spec fn spec_first_zero(s: Seq<u8>) -> Option<int>
    decreases s.len(),
{
    if s.len() == 0 {
        None
    } else if s[0] == 0 {
        Some(0)
    } else {
        match spec_first_zero(s.skip(1)) {
            Some(i) => Some(i + 1),
            None => None,
        }
    }
}

/// A first-zero index is never negative.
proof fn lemma_first_zero_nonneg(s: Seq<u8>)
    ensures
        spec_first_zero(s) matches Some(k) ==> 0 <= k,
    decreases s.len(),
{
    if s.len() > 0 && s[0] != 0 {
        lemma_first_zero_nonneg(s.skip(1));
    }
}

/// The first zero of a sequence lies where the scan of its tail says,
/// shifted by the prefix that was already seen.
pub(crate) proof fn lemma_first_zero_step(s: Seq<u8>, i: int)
    requires
        0 <= i <= s.len(),
        forall|j: int| 0 <= j < i ==> s[j] != 0,
    ensures
        spec_first_zero(s) matches Some(k) ==> i <= k,
        i < s.len() && s[i] == 0 ==> spec_first_zero(s) == Some(i),
        i == s.len() ==> spec_first_zero(s) is None,
    decreases i,
{
    lemma_first_zero_nonneg(s);
    if i > 0 {
        assert(s[0] != 0);
        lemma_first_zero_step(s.skip(1), i - 1);
        assert(i - 1 < s.skip(1).len() && s.skip(1)[i - 1] == 0 ==> spec_first_zero(s.skip(1))
            == Some(i - 1));
        assert(forall|j: int| 0 <= j < i - 1 ==> s.skip(1)[j] == s[j + 1] && s[j + 1] != 0);
        if i < s.len() && s[i] == 0 {
            assert(s.skip(1)[i - 1] == 0);
        }
        if i == s.len() {
            assert(i - 1 == s.skip(1).len());
        }
    }
}

/// Find the zero terminator of a kernel-filled buffer: the length of the
/// string it holds, or `None` if no terminator is present.
pub fn first_zero(buf: &Vec<u8>) -> (r: Option<usize>)
    ensures
        match r {
            Some(n) => spec_first_zero(buf@) == Some(n as int),
            None => spec_first_zero(buf@) is None,
        },
{
    let mut i: usize = 0;
    while i < buf.len()
        invariant
            0 <= i <= buf.len(),
            forall|j: int| 0 <= j < i ==> buf@[j] != 0,
        decreases buf.len() - i,
    {
        if buf[i] == 0 {
            proof {
                lemma_first_zero_step(buf@, i as int);
            }
            return Some(i);
        }
        i = i + 1;
    }
    proof {
        lemma_first_zero_step(buf@, buf@.len() as int);
    }
    None
}

/// Whether a candidate path begins with the separator.
pub fn path_is_absolute(p: &Vec<u8>) -> (r: bool)
    ensures
        r == is_absolute(p@),
{
    p.len() > 0 && p[0] == SEPARATOR
}

/// Whether a candidate path contains the separator anywhere. The last-resort
/// source only trusts a recorded first argument that names a path, not a
/// bare program name that would have been found via a search path.
pub fn has_separator(p: &Vec<u8>) -> (r: bool)
    ensures
        r == contains_byte(p@, SEPARATOR),
{
    let mut i: usize = 0;
    while i < p.len()
        invariant
            0 <= i <= p.len(),
            forall|j: int| 0 <= j < i ==> p@[j] != SEPARATOR,
        decreases p.len() - i,
    {
        if p[i] == SEPARATOR {
            return true;
        }
        i = i + 1;
    }
    false
}

/// What a link read of `n` bytes into a buffer of capacity `cap` yields:
/// nothing when the read was empty or might have been truncated, otherwise
/// the length of the target, with the trailing zero byte some kernels append
/// trimmed away. `terminated` says whether the last byte read was zero.
pub open spec fn spec_readlink_trim(n: int, cap: int, terminated: bool) -> Option<int> {
    if n != 0 && n < cap - 1 {
        if terminated {
            Some(n - 1)
        } else {
            Some(n)
        }
    } else {
        None
    }
}

/// Accept the result of reading a symbolic link into `buf`: `n` is the byte
/// count the read reported. A count of zero means the link was missing; a
/// count at or beyond `buf.len() - 1` may have been truncated and is
/// rejected; otherwise the target's length is returned, trimming one
/// trailing zero byte if the kernel appended one.
pub fn readlink_trim(buf: &Vec<u8>, n: usize) -> (r: Option<usize>)
    ensures
        match r {
            Some(m) => spec_readlink_trim(n as int, buf@.len() as int, n >= 1 && n <= buf@.len()
                && buf@[n - 1] == 0) == Some(m as int),
            None => spec_readlink_trim(n as int, buf@.len() as int, n >= 1 && n <= buf@.len()
                && buf@[n - 1] == 0) is None,
        },
{
    if n != 0 && n < buf.len() && n != buf.len() - 1 {
        if buf[n - 1] == 0 {
            Some(n - 1)
        } else {
            Some(n)
        }
    } else {
        None
    }
}

/// What a kernel path query that reports a byte count including the
/// terminator yields: the path length, or nothing when the count shows no
/// path was stored.
pub open spec fn spec_query_len(len: int) -> Option<int> {
    if len > 1 {
        Some(len - 1)
    } else {
        None
    }
}

/// Accept the byte count a kernel path query reported; the count includes
/// the zero terminator, so the path's own length is one less.
pub fn query_path_len(len: usize) -> (r: Option<usize>)
    ensures
        match r {
            Some(m) => spec_query_len(len as int) == Some(m as int),
            None => spec_query_len(len as int) is None,
        },
{
    if len > 1 {
        Some(len - 1)
    } else {
        None
    }
}

/// Whether `n` bytes read from a virtual file of capacity `cap` are a
/// usable path: an empty read means the entry was absent, and a read that
/// filled the buffer to its guard byte may have been truncated.
pub open spec fn spec_stream_read_ok(n: int, cap: int) -> bool {
    1 <= n && n < cap - 1
}

/// Accept the byte count read from a path-bearing virtual file.
pub fn stream_read_ok(n: usize, cap: usize) -> (r: bool)
    ensures
        r == spec_stream_read_ok(n as int, cap as int),
{
    n >= 1 && n < cap && n != cap - 1
}

} // verus!
