//! The guard on the file through which processes enter the interactive group.

use crate::policy::{cgroup_kind, kind_of, process_id, process_of, CGROUP_INTERACTIVE_PROCS};
use vstd::prelude::*;

verus! {

/// The bit of an access mask that asks for writing.
pub const MAY_WRITE: i32 = 2;

/// An access to an open file, with what the kernel looked up for it.
#[derive(Debug, Clone, Copy)]
pub struct FileRequest {
    /// What the access asks for.
    pub mask: i32,
    /// The control group entry for the inode of the file.
    pub entry: Option<u32>,
    /// The combined identifier of the current process.
    pub pid_tgid: u64,
    /// The process that is registered as the daemon.
    pub daemon: Option<u32>,
}

/// Whether an access mask asks for writing.
pub open spec fn wants_write(mask: i32) -> bool {
    mask & MAY_WRITE != 0
}

/// Whether an access mask asks for writing.
pub fn asks_to_write(mask: i32) -> (yes: bool)
    ensures
        yes == (mask & MAY_WRITE != 0),
        yes == wants_write(mask),
{
    mask & MAY_WRITE != 0
}

/// Whether the access writes to the file through which processes enter the
/// interactive group.
pub open spec fn enters_interactive(request: FileRequest) -> bool {
    request.mask & MAY_WRITE != 0 && kind_of(request.entry) == CGROUP_INTERACTIVE_PROCS
}

/// What the hook returns for an access: only the daemon may write to the file
/// through which processes enter the interactive group.
pub open spec fn file_code(request: FileRequest) -> int {
    if enters_interactive(request) && request.daemon != Some(process_of(request.pid_tgid)) {
        -1
    } else {
        0
    }
}

/// Decides an access to a file: 0 allows it, -1 denies it.
///
/// Only the daemon may write to the file through which processes enter the
/// interactive group, so while none is registered nobody may. Every other
/// access is allowed.
pub fn file_permission(request: &FileRequest) -> (code: i32)
    ensures
        code == file_code(*request),
{
    if !asks_to_write(request.mask) {
        return 0;
    }
    if cgroup_kind(request.entry) != CGROUP_INTERACTIVE_PROCS {
        return 0;
    }
    let current = process_id(request.pid_tgid);
    match request.daemon {
        Some(daemon) => if current == daemon {
            0
        } else {
            -1
        },
        None => -1,
    }
}

/// An access that does not ask for writing is allowed, whatever its file is
/// registered as: the file need not be looked at.
pub proof fn law_reading_needs_no_lookup(request: FileRequest)
    requires
        request.mask & MAY_WRITE == 0,
    ensures
        file_code(request) == 0,
{
}

/// An access is denied exactly when it asks for writing, the file is registered as
/// the way into the interactive group, and the process, by the upper half of the
/// identifier, is not the one that is registered as the daemon; every other access
/// is allowed.
pub proof fn law_file_verdict(request: FileRequest)
    ensures
        wants_write(request.mask) <==> request.mask & 2 != 0,
        file_code(request) == -1 || file_code(request) == 0,
        file_code(request) == -1 <==> {
            &&& request.mask & 2 != 0
            &&& request.entry == Some(3u32)
            &&& !(request.daemon matches Some(daemon) && daemon == request.pid_tgid / 0x1_0000_0000)
        },
{
}

} // verus!
