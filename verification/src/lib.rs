//! Locating a path that re-invokes the currently running program.
//!
//! The library holds the policy core of a self-re-exec facility: the fixed
//! fallback chain of per-platform path sources, the error-aggregation rule
//! that merges best-effort failures, the last-resort identity check against
//! the kernel's record of the executing image, and the decoders for the raw
//! buffers the kernel hands back. The operating-system calls themselves
//! (readlink, sysctl, access, execve) live outside the library; callers feed
//! their raw results in as plain values and the library decides.

mod chain;
mod errno;
mod last_resort;
mod path_bytes;
mod platform;
mod resolve;

pub use chain::ExecAttempt;
pub use chain::PathSource;
pub use chain::attempt_is_soft;
pub use chain::lemma_all_unavailable_defaults;
pub use chain::lemma_hard_code_stops_chain;
pub use chain::lemma_reexec_sources_restrict_resolve;
pub use chain::reexec_outcome;
pub use chain::reexec_sources;
pub use chain::resolve_sources;
pub use chain::spec_reexec_outcome;
pub use chain::spec_reexec_sources;
pub use chain::spec_resolve_sources;

pub use errno::EACCES;
pub use errno::ENOENT;
pub use errno::Fold;
pub use errno::fold_error;
pub use errno::is_soft;
pub use errno::spec_fold;

pub use last_resort::DEVICE_OFFSET;
pub use last_resort::FD_OFFSET;
pub use last_resort::FileId;
pub use last_resort::KernelFileRecord;
pub use last_resort::RECORD_SIZE;
pub use last_resort::SERIAL_OFFSET;
pub use last_resort::TEXT_FD;
pub use last_resort::all_zero;
pub use last_resort::copy_bytes;
pub use last_resort::decode_kernel_file_record;
pub use last_resort::extract_first_argument;
pub use last_resort::last_resort_candidate;
pub use last_resort::le_i32_at;
pub use last_resort::le_u32_at;
pub use last_resort::le_u64_at;
pub use last_resort::record_identity;
pub use last_resort::record_is_text;
pub use last_resort::spec_first_argument;
pub use last_resort::spec_last_resort_accepts;

pub use path_bytes::SEPARATOR;
pub use path_bytes::contains_byte;
pub use path_bytes::first_zero;
pub use path_bytes::has_separator;
pub use path_bytes::is_absolute;
pub use path_bytes::path_is_absolute;
pub use path_bytes::query_path_len;
pub use path_bytes::readlink_trim;
pub use path_bytes::spec_first_zero;
pub use path_bytes::spec_query_len;
pub use path_bytes::spec_readlink_trim;
pub use path_bytes::spec_stream_read_ok;
pub use path_bytes::stream_read_ok;

pub use platform::Platform;
pub use platform::get_procfs;
pub use platform::get_procfs_reexec;
pub use platform::get_procfs_readlink_target;
pub use platform::procfs_curproc_exe;
pub use platform::procfs_curproc_file;
pub use platform::procfs_self_exe;
pub use platform::procfs_self_object_aout;
pub use platform::procfs_self_path_aout;
pub use platform::spec_procfs;
pub use platform::spec_procfs_reexec;
pub use platform::spec_procfs_readlink_target;

pub use resolve::Access;
pub use resolve::CanonicalProbe;
pub use resolve::CanonicalView;
pub use resolve::EnvView;
pub use resolve::FsModel;
pub use resolve::env_reflects;
pub use resolve::lemma_resolve_all_unavailable;
pub use resolve::lemma_resolve_hard_stop;
pub use resolve::lemma_resolve_idempotent;
pub use resolve::lemma_resolved_identity;
pub use resolve::probe_is_soft_failure;
pub use resolve::LastResortProbe;
pub use resolve::LastResortView;
pub use resolve::Probe;
pub use resolve::ProbeView;
pub use resolve::ResolveEnv;
pub use resolve::Resolved;
pub use resolve::ResolvedView;
pub use resolve::get_reexec_path;
pub use resolve::resolved_path;
pub use resolve::spec_resolve;
pub use resolve::spec_resolve_last;
pub use resolve::spec_resolve_probes;
