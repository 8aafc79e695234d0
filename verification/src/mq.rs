//! Message-queue transport: opens or creates a named, bounded kernel message
//! channel and exchanges whole encoded records over it, blocking while the
//! channel is full or empty.  Cross-process ordering and per-message
//! atomicity come from the kernel; this module owns the channel's lifetime.

use vstd::prelude::*;
use vstd::string::StringSliceAdditionalSpecFns;
use nix::mqueue::{mq_close, mq_open, mq_receive, mq_send, mq_unlink, MQ_OFlag, MqAttr, MqdT};

verus! {

/// Largest message the default channel configuration carries, in bytes.
pub const MAX_QITEM_SIZE: usize = 65536;

/// Most messages the default channel configuration holds at once.
pub const MAX_QITEMS: usize = 1024;

/// Why a transport call failed.  Variants carrying a `String` hold the OS's
/// own error text.
#[derive(Debug, Clone)]
pub enum MqError {
    /// The channel name cannot be handed to the OS: it holds a NUL byte.
    InvalidName,
    /// The open or create system call failed.
    OpenFailed(String),
    /// The message is larger than the channel's configured maximum.
    CapacityExceeded,
    /// The send system call failed after a valid open.
    SendFailed(String),
    /// The receive system call failed after a valid open.
    ReceiveFailed(String),
    /// The close system call failed.
    CloseFailed(String),
    /// The unlink system call failed.
    UnlinkFailed(String),
}

/// How a channel is opened: the access direction, and whether the name is
/// created when it does not exist yet.
#[derive(Clone, Copy, Debug, PartialEq, Eq, Structural)]
pub enum AccessMode {
    ReadOnly,
    WriteOnly,
    ReadWrite,
}

/// Channel names the OS accepts: every byte nonzero, so the name survives
/// the conversion to a C string.
pub open spec fn valid_mq_name(name: &str) -> bool {
    !name.spec_bytes().contains(0)
}

/// Checks that `name` can be handed to the OS.
pub fn name_is_valid(name: &str) -> (r: bool)
    ensures
        r == valid_mq_name(name),
{
    let bs = name.as_bytes();
    let mut i: usize = 0;
    while i < bs.len()
        invariant
            i <= bs@.len(),
            bs@ == name.spec_bytes(),
            forall|j: int| 0 <= j < i ==> bs@[j] != 0,
        decreases bs@.len() - i,
    {
        if bs[i] == 0 {
            assert(name.spec_bytes().contains(0));
            return false;
        }
        i += 1;
    }
    assert(!name.spec_bytes().contains(0));
    true
}

/// POSIX message-queue descriptor of the `nix` crate, held opaquely.
#[verifier::external_type_specification]
#[verifier::external_body]
pub struct ExMqdT(MqdT);

/// Relies on `nix::mqueue::mq_open`: opens the named channel, creating it
/// with the given capacities when asked and absent; the OS attaches to an
/// existing channel instead.  `Err` holds the OS's error text.
#[verifier::external_body]
fn sys_mq_open(
    name: &str,
    access: AccessMode,
    create: bool,
    max_item_size: usize,
    max_queue_size: usize,
) -> (r: Result<MqdT, String>)
    requires
        valid_mq_name(name),
        max_item_size as u64 <= 0x7fff_ffff_ffff_ffff,
        max_queue_size as u64 <= 0x7fff_ffff_ffff_ffff,
{
    let dir = match access {
        AccessMode::ReadOnly => MQ_OFlag::O_RDONLY,
        AccessMode::WriteOnly => MQ_OFlag::O_WRONLY,
        AccessMode::ReadWrite => MQ_OFlag::O_RDWR,
    };
    let oflag = if create { dir | MQ_OFlag::O_CREAT } else { dir };
    let mut bytes = name.as_bytes().to_vec();
    bytes.push(0);
    let cname = core::ffi::CStr::from_bytes_with_nul(&bytes).expect("name has no NUL byte");
    let attr = MqAttr::new(0, max_queue_size as i64, max_item_size as i64, 0);
    let mode = nix::sys::stat::Mode::from_bits_truncate(0o644);
    mq_open(cname, oflag, mode, Some(&attr)).map_err(|e| e.desc().to_string())
}

/// Relies on `nix::mqueue::mq_send`: hands one whole message to the channel,
/// blocking while it is full.
#[verifier::external_body]
fn sys_mq_send(fd: &MqdT, message: &[u8]) -> (r: Result<(), String>) {
    mq_send(fd, message, 0).map_err(|e| e.desc().to_string())
}

/// Relies on `nix::mqueue::mq_receive`: blocks until a message arrives,
/// copies it to the front of `buffer` and returns its byte count, which is
/// at most the buffer's length; the buffer's length does not change.
#[verifier::external_body]
fn sys_mq_receive(fd: &MqdT, buffer: &mut Vec<u8>) -> (r: Result<usize, String>)
    ensures
        final(buffer)@.len() == old(buffer)@.len(),
        (r matches Ok(n) ==> n <= old(buffer)@.len()),
{
    let mut prio = 0u32;
    mq_receive(fd, buffer.as_mut_slice(), &mut prio).map_err(|e| e.desc().to_string())
}

/// Relies on `nix::mqueue::mq_close`: releases this process's reference to
/// the channel.
#[verifier::external_body]
fn sys_mq_close(fd: MqdT) -> (r: Result<(), String>) {
    mq_close(fd).map_err(|e| e.desc().to_string())
}

/// Relies on `nix::mqueue::mq_unlink`: removes the name from the kernel
/// namespace; opens under it fail until it is recreated.
#[verifier::external_body]
fn sys_mq_unlink(name: &str) -> (r: Result<(), String>)
    requires
        valid_mq_name(name),
{
    let mut bytes = name.as_bytes().to_vec();
    bytes.push(0);
    let cname = core::ffi::CStr::from_bytes_with_nul(&bytes).expect("name has no NUL byte");
    mq_unlink(cname).map_err(|e| e.desc().to_string())
}

/// Relies on `nix::poll::poll` with no descriptors: a best-effort pause of
/// about one millisecond, used as the grace period between close and unlink.
#[verifier::external_body]
fn sys_grace_pause() {
    let _ = nix::poll::poll(&mut [], 1);
}

/// One open message channel and the capacities it was configured with.
pub struct MqHandle {
    fd: MqdT,
    max_item_size: usize,
    max_queue_depth: usize,
}

impl MqHandle {
    /// Largest message the channel was configured to carry, in bytes.
    pub closed spec fn spec_max_item_size(self) -> usize {
        self.max_item_size
    }

    /// Most messages the channel was configured to hold at once.
    pub closed spec fn spec_max_queue_depth(self) -> usize {
        self.max_queue_depth
    }

    /// Largest message the channel was configured to carry, in bytes.
    pub fn max_item_size(&self) -> (r: usize)
        ensures
            r == self.spec_max_item_size(),
    {
        self.max_item_size
    }
}

/// Opens or creates the named kernel message channel.  `InvalidName` comes
/// exactly when the name holds a NUL byte; any OS refusal is `OpenFailed`
/// with the OS's error text.  A successful handle records the capacities it
/// was configured with.
pub fn init_or_open_mq(
    name: &str,
    access: AccessMode,
    create: bool,
    max_item_size: usize,
    max_queue_size: usize,
) -> (r: Result<MqHandle, MqError>)
    requires
        max_item_size as u64 <= 0x7fff_ffff_ffff_ffff,
        max_queue_size as u64 <= 0x7fff_ffff_ffff_ffff,
    ensures
        (r matches Err(MqError::InvalidName)) <==> !valid_mq_name(name),
        (match r {
            Ok(h) => h.spec_max_item_size() == max_item_size && h.spec_max_queue_depth()
                == max_queue_size,
            Err(e) => e matches MqError::InvalidName || e matches MqError::OpenFailed(_),
        }),
{
    if !name_is_valid(name) {
        return Err(MqError::InvalidName);
    }
    match sys_mq_open(name, access, create, max_item_size, max_queue_size) {
        Ok(fd) => Ok(MqHandle { fd, max_item_size, max_queue_depth: max_queue_size }),
        Err(text) => Err(MqError::OpenFailed(text)),
    }
}

/// Submits one whole message, blocking while the channel is full.
/// `CapacityExceeded` comes exactly when the message is larger than the
/// handle's configured maximum, and is decided without touching the OS; any
/// OS refusal is `SendFailed` with the OS's error text.
pub fn send_message(handle: &MqHandle, message: &[u8]) -> (r: Result<(), MqError>)
    ensures
        (r matches Err(MqError::CapacityExceeded)) <==> message@.len()
            > handle.spec_max_item_size(),
        (match r {
            Ok(u) => message@.len() <= handle.spec_max_item_size(),
            Err(e) => e matches MqError::CapacityExceeded || e matches MqError::SendFailed(_),
        }),
{
    if message.len() > handle.max_item_size {
        return Err(MqError::CapacityExceeded);
    }
    match sys_mq_send(&handle.fd, message) {
        Ok(u) => Ok(()),
        Err(text) => Err(MqError::SendFailed(text)),
    }
}

/// Blocks until a message is available, copies it to the front of `buffer`
/// and returns its byte count, at most `buffer.len()`.  The buffer keeps its
/// length; the returned count alone bounds the message.
pub fn receive_message(handle: &MqHandle, buffer: &mut Vec<u8>) -> (r: Result<usize, MqError>)
    ensures
        final(buffer)@.len() == old(buffer)@.len(),
        (match r {
            Ok(n) => n <= old(buffer)@.len(),
            Err(e) => e matches MqError::ReceiveFailed(_),
        }),
{
    match sys_mq_receive(&handle.fd, buffer) {
        Ok(n) => Ok(n),
        Err(text) => Err(MqError::ReceiveFailed(text)),
    }
}

/// Releases the process's reference to the channel; the name stays in the
/// kernel namespace until `unlink_mq`.  Consuming the handle makes a send or
/// receive after close impossible to write, not merely an error at run time.
pub fn close_mq(handle: MqHandle) -> (r: Result<(), MqError>)
    ensures
        (match r {
            Ok(u) => true,
            Err(e) => e matches MqError::CloseFailed(_),
        }),
{
    match sys_mq_close(handle.fd) {
        Ok(u) => Ok(()),
        Err(text) => Err(MqError::CloseFailed(text)),
    }
}

/// Removes the named channel from the kernel namespace; later opens under
/// the name fail until it is recreated.  `InvalidName` comes exactly when
/// the name holds a NUL byte.
pub fn unlink_mq(name: &str) -> (r: Result<(), MqError>)
    ensures
        (r matches Err(MqError::InvalidName)) <==> !valid_mq_name(name),
        (match r {
            Ok(u) => true,
            Err(e) => e matches MqError::InvalidName || e matches MqError::UnlinkFailed(_),
        }),
{
    if !name_is_valid(name) {
        return Err(MqError::InvalidName);
    }
    match sys_mq_unlink(name) {
        Ok(u) => Ok(()),
        Err(text) => Err(MqError::UnlinkFailed(text)),
    }
}

/// One open message channel shared by the process's logical readers and
/// writers.  The kernel makes each send and receive atomic, so the `&self`
/// operations may be issued by several logical callers of one interface;
/// cross-process safety is the kernel's own per-message guarantee.
pub struct TableInterface {
    handle: Option<MqHandle>,
}

impl TableInterface {
    /// Whether the interface still owns its channel handle.  Every
    /// constructor yields an open interface, and only `close` gives the
    /// handle up, consuming the interface with it.
    pub closed spec fn is_open(self) -> bool {
        self.handle is Some
    }

    /// Largest message the underlying channel was configured to carry.
    pub closed spec fn spec_max_item_size(self) -> usize {
        self.handle->Some_0.spec_max_item_size()
    }

    /// Most messages the underlying channel was configured to hold at once.
    pub closed spec fn spec_max_queue_depth(self) -> usize {
        self.handle->Some_0.spec_max_queue_depth()
    }

    /// Wraps an already-opened channel handle.
    pub fn from_handle(handle: MqHandle) -> (r: TableInterface)
        ensures
            r.is_open(),
            r.spec_max_item_size() == handle.spec_max_item_size(),
            r.spec_max_queue_depth() == handle.spec_max_queue_depth(),
    {
        TableInterface { handle: Some(handle) }
    }

    /// Opens or creates the named channel for sending, with the default
    /// capacities.  `InvalidName` comes exactly when the name holds a NUL
    /// byte; any OS refusal is `OpenFailed` with the OS's error text.
    pub fn get_writer(name: &str) -> (r: Result<TableInterface, MqError>)
        ensures
            (r matches Err(MqError::InvalidName)) <==> !valid_mq_name(name),
            (match r {
                Ok(t) => t.is_open() && t.spec_max_item_size() == MAX_QITEM_SIZE
                    && t.spec_max_queue_depth() == MAX_QITEMS,
                Err(e) => e matches MqError::InvalidName || e matches MqError::OpenFailed(_),
            }),
    {
        let h = init_or_open_mq(name, AccessMode::WriteOnly, true, MAX_QITEM_SIZE, MAX_QITEMS)?;
        Ok(TableInterface::from_handle(h))
    }

    /// Opens or creates the named channel for receiving, with the default
    /// capacities.  `InvalidName` comes exactly when the name holds a NUL
    /// byte; any OS refusal is `OpenFailed` with the OS's error text.
    pub fn get_table_reader(name: &str) -> (r: Result<TableInterface, MqError>)
        ensures
            (r matches Err(MqError::InvalidName)) <==> !valid_mq_name(name),
            (match r {
                Ok(t) => t.is_open() && t.spec_max_item_size() == MAX_QITEM_SIZE
                    && t.spec_max_queue_depth() == MAX_QITEMS,
                Err(e) => e matches MqError::InvalidName || e matches MqError::OpenFailed(_),
            }),
    {
        let h = init_or_open_mq(name, AccessMode::ReadOnly, true, MAX_QITEM_SIZE, MAX_QITEMS)?;
        Ok(TableInterface::from_handle(h))
    }

    /// Submits one encoded record, blocking while the channel is full.
    /// `CapacityExceeded` comes exactly when the record is larger than the
    /// channel's configured maximum.
    pub fn write(&self, buffer: &Vec<u8>) -> (r: Result<(), MqError>)
        requires
            self.is_open(),
        ensures
            (r matches Err(MqError::CapacityExceeded)) <==> buffer@.len()
                > self.spec_max_item_size(),
            (match r {
                Ok(u) => buffer@.len() <= self.spec_max_item_size(),
                Err(e) => e matches MqError::CapacityExceeded || e matches MqError::SendFailed(_),
            }),
    {
        match &self.handle {
            Some(h) => send_message(h, buffer.as_slice()),
            None => vstd::pervasive::unreached(),
        }
    }

    /// Blocks until a record is available and returns exactly its bytes:
    /// the received byte count, never the full receive buffer, bounds the
    /// result.
    pub fn read(&self) -> (r: Result<Vec<u8>, MqError>)
        requires
            self.is_open(),
        ensures
            (match r {
                Ok(v) => v@.len() <= self.spec_max_item_size(),
                Err(e) => e matches MqError::ReceiveFailed(_),
            }),
    {
        let h = match &self.handle {
            Some(h) => h,
            None => vstd::pervasive::unreached(),
        };
        let mut buffer: Vec<u8> = Vec::new();
        buffer.resize(h.max_item_size(), 0u8);
        let n = receive_message(h, &mut buffer)?;
        buffer.truncate(n);
        Ok(buffer)
    }

    /// Releases the channel reference and reports any failure, unlike the
    /// silent best-effort close when an interface is merely dropped.  The
    /// interface is consumed: nothing can be written to or read from it
    /// afterwards.
    pub fn close(self) -> (r: Result<(), MqError>)
        requires
            self.is_open(),
        ensures
            (match r {
                Ok(u) => true,
                Err(e) => e matches MqError::CloseFailed(_),
            }),
    {
        let mut this = self;
        match this.handle.take() {
            Some(h) => close_mq(h),
            None => vstd::pervasive::unreached(),
        }
    }
}

impl Drop for TableInterface {
    /// Closing on implicit destruction is best effort, as cleanup in a
    /// destructor must never abort the process: a failure here is ignored.
    /// `close` is the fallible, reporting path.
    #[verifier::external_body]
    fn drop(&mut self)
        opens_invariants none
        no_unwind
    {
        if let Some(h) = self.handle.take() {
            let _ = sys_mq_close(h.fd);
        }
    }
}

/// Closes the handle, waits a brief grace period so another process mid-call
/// can observe the close, then unlinks the name.  A close failure is
/// returned at once and the name is left alone; the grace period is best
/// effort, not a correctness guarantee.
pub fn close_and_unlink_mq(handle: MqHandle, name: &str) -> (r: Result<(), MqError>)
    ensures
        (r matches Err(MqError::InvalidName)) ==> !valid_mq_name(name),
        (match r {
            Ok(u) => valid_mq_name(name),
            Err(e) => e matches MqError::CloseFailed(_) || e matches MqError::InvalidName
                || e matches MqError::UnlinkFailed(_),
        }),
{
    match close_mq(handle) {
        Ok(u) => (),
        Err(e) => {
            return Err(e);
        },
    }
    sys_grace_pause();
    unlink_mq(name)
}

} // verus!
