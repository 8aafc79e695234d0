//! Shared-memory region manager: opens or creates a named, file-backed
//! region under the shared-memory mount point, as an alternative substrate
//! for the same encoded payloads.  The manager hands back a file-like
//! descriptor and the resolved path; framing of payloads inside the region
//! is left to the caller.

use vstd::prelude::*;
use vstd::string::{StringExecFns, StringSliceAdditionalSpecFns};
use nix::sys::mman::{shm_open, shm_unlink};
use nix::fcntl::OFlag;
use nix::sys::stat::Mode;

verus! {

/// Why a region call failed.  Variants carrying a `String` hold the OS's
/// own error text.
#[derive(Debug, Clone)]
pub enum ShmError {
    /// The region name cannot be handed to the OS: it is empty, does not
    /// begin with a separator, or holds a NUL byte.
    InvalidName,
    /// The open, create or resize system call failed.
    OpenFailed(String),
    /// The close system call failed.
    CloseFailed(String),
    /// The unlink system call failed.
    UnlinkFailed(String),
}

/// An OS failure as a plain value: whether the OS reported the name as
/// absent, and the OS's error text.
struct OsFailure {
    not_found: bool,
    text: String,
}

/// Region names the OS accepts portably: nonempty, beginning with `/`, and
/// free of NUL bytes.
pub open spec fn valid_shm_name(name: &str) -> bool {
    &&& name.spec_bytes().len() > 0
    &&& name.spec_bytes()[0] == 47u8
    &&& !name.spec_bytes().contains(0)
}

/// Checks that `name` can be handed to the OS.
pub fn shm_name_is_valid(name: &str) -> (r: bool)
    ensures
        r == valid_shm_name(name),
{
    let bs = name.as_bytes();
    if bs.len() == 0 || bs[0] != 47 {
        return false;
    }
    let mut i: usize = 0;
    while i < bs.len()
        invariant
            i <= bs@.len(),
            bs@ == name.spec_bytes(),
            bs@.len() > 0,
            bs@[0] == 47u8,
            forall|j: int| 0 <= j < i ==> bs@[j] != 0,
        decreases bs@.len() - i,
    {
        if bs[i] == 0 {
            assert(name.spec_bytes().contains(0));
            return false;
        }
        i += 1;
    }
    assert(!name.spec_bytes().contains(0));
    true
}

/// Relies on `nix::sys::mman::shm_open`: opens the named region under the
/// shared-memory mount point, or with `create_excl` creates it and fails if
/// it already exists.  `not_found` in the error reports the OS's
/// no-such-name case, the cue to fall back to creating.
#[verifier::external_body]
fn sys_shm_open(name: &str, create_excl: bool) -> (r: Result<i32, OsFailure>) {
    let flag = if create_excl {
        OFlag::O_RDWR | OFlag::O_CREAT | OFlag::O_EXCL
    } else {
        OFlag::O_RDWR
    };
    let mode = Mode::from_bits_truncate(0o644);
    match shm_open(name, flag, mode) {
        Ok(fd) => Ok(fd),
        Err(e) => Err(
            OsFailure { not_found: e == nix::errno::Errno::ENOENT, text: e.desc().to_string() },
        ),
    }
}

/// Relies on `nix::unistd::ftruncate`: sets the backing region's length to
/// exactly `len` bytes, growing or truncating it.
#[verifier::external_body]
fn sys_ftruncate(fd: i32, len: i64) -> (r: Result<(), String>)
    requires
        0 <= len,
{
    nix::unistd::ftruncate(fd, len).map_err(|e| e.desc().to_string())
}

/// Relies on `nix::unistd::close`: releases this process's descriptor for
/// the region.
#[verifier::external_body]
fn sys_close(fd: i32) -> (r: Result<(), String>) {
    nix::unistd::close(fd).map_err(|e| e.desc().to_string())
}

/// Relies on `nix::sys::mman::shm_unlink`: removes the region's name from
/// the shared-memory namespace.
#[verifier::external_body]
fn sys_shm_unlink(name: &str) -> (r: Result<(), String>)
    requires
        valid_shm_name(name),
{
    shm_unlink(name).map_err(|e| e.desc().to_string())
}

/// One open shared-memory region: the descriptor and the filesystem path
/// the name resolved to.  Concurrent use of one region from several
/// processes relies on ordinary file semantics; each read or write through
/// the descriptor is plain file I/O.
pub struct ShmRegion {
    fd: Option<i32>,
    path: String,
}

impl ShmRegion {
    /// Whether the region still owns its descriptor.  Every constructor
    /// yields an open region, and only `close` gives the descriptor up,
    /// consuming the region with it.
    pub closed spec fn is_open(self) -> bool {
        self.fd is Some
    }

    /// The filesystem path the region's name resolved to.
    pub closed spec fn spec_path(self) -> Seq<char> {
        self.path@
    }

    /// The filesystem path the region's name resolved to, for diagnostics
    /// and cleanup.
    pub fn path(&self) -> (r: &String)
        ensures
            r@ == self.spec_path(),
    {
        &self.path
    }

    /// The raw descriptor of the open region, for the caller's own reads
    /// and writes.
    pub fn raw_fd(&self) -> (r: i32)
        requires
            self.is_open(),
    {
        match &self.fd {
            Some(fd) => *fd,
            None => vstd::pervasive::unreached(),
        }
    }

    /// Releases the region's descriptor and reports any failure, unlike the
    /// silent best-effort close when a region is merely dropped.  The name
    /// and contents stay until `unlink_shm`.
    pub fn close(self) -> (r: Result<(), ShmError>)
        requires
            self.is_open(),
        ensures
            (match r {
                Ok(u) => true,
                Err(e) => e matches ShmError::CloseFailed(_),
            }),
    {
        let mut this = self;
        match this.fd.take() {
            Some(fd) => match sys_close(fd) {
                Ok(u) => Ok(()),
                Err(text) => Err(ShmError::CloseFailed(text)),
            },
            None => vstd::pervasive::unreached(),
        }
    }
}

impl Drop for ShmRegion {
    /// Closing on implicit destruction is best effort, as cleanup in a
    /// destructor must never abort the process: a failure here is ignored.
    /// `close` is the fallible, reporting path.
    #[verifier::external_body]
    fn drop(&mut self)
        opens_invariants none
        no_unwind
    {
        if let Some(fd) = self.fd.take() {
            let _ = sys_close(fd);
        }
    }
}

/// Opens the named region, creating it when the name does not exist yet; a
/// creation racing another process's is caught by the exclusive create flag
/// and answered with one more attach attempt.  With `size` given, the
/// region, new or existing, is resized to exactly that many bytes; callers
/// attaching to an already-sized region omit `size` to leave its contents
/// alone.  `InvalidName` comes exactly when the name is empty, lacks its
/// leading `/`, or holds a NUL byte; any OS refusal, resize included, is
/// `OpenFailed` with the OS's error text.  The returned region's path is
/// the shared-memory mount point followed by the name.
pub fn open_or_create_shm(name: &str, size: Option<u64>) -> (r: Result<ShmRegion, ShmError>)
    ensures
        (r matches Err(ShmError::InvalidName)) <==> !valid_shm_name(name),
        (match r {
            Ok(reg) => reg.is_open() && reg.spec_path() == "/dev/shm"@ + name@,
            Err(e) => e matches ShmError::InvalidName || e matches ShmError::OpenFailed(_),
        }),
{
    if !shm_name_is_valid(name) {
        return Err(ShmError::InvalidName);
    }
    let fd = match sys_shm_open(name, false) {
        Ok(fd) => fd,
        Err(fail) => {
            if !fail.not_found {
                return Err(ShmError::OpenFailed(fail.text));
            }
            match sys_shm_open(name, true) {
                Ok(fd) => fd,
                Err(fail2) => {
                    // lost the creation race: the name exists now, so attach
                    match sys_shm_open(name, false) {
                        Ok(fd) => fd,
                        Err(fail3) => {
                            return Err(ShmError::OpenFailed(fail3.text));
                        },
                    }
                },
            }
        },
    };
    match size {
        Some(len) => {
            if len > 0x7fff_ffff_ffff_ffff {
                let _ = sys_close(fd);
                return Err(ShmError::OpenFailed(String::from_str("region size exceeds the OS limit")));
            }
            match sys_ftruncate(fd, len as i64) {
                Ok(u) => (),
                Err(text) => {
                    let _ = sys_close(fd);
                    return Err(ShmError::OpenFailed(text));
                },
            }
        },
        None => (),
    }
    let mut path = String::from_str("/dev/shm");
    path.append(name);
    Ok(ShmRegion { fd: Some(fd), path })
}

/// Removes the named region from the shared-memory namespace; later opens
/// under the name fail until it is recreated.  `InvalidName` comes exactly
/// when the name is invalid for the OS.
pub fn unlink_shm(name: &str) -> (r: Result<(), ShmError>)
    ensures
        (r matches Err(ShmError::InvalidName)) <==> !valid_shm_name(name),
        (match r {
            Ok(u) => true,
            Err(e) => e matches ShmError::InvalidName || e matches ShmError::UnlinkFailed(_),
        }),
{
    if !shm_name_is_valid(name) {
        return Err(ShmError::InvalidName);
    }
    match sys_shm_unlink(name) {
        Ok(u) => Ok(()),
        Err(text) => Err(ShmError::UnlinkFailed(text)),
    }
}

} // verus!
