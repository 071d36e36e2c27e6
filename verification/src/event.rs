//! The record that the exec hook sends to the daemon.

use crate::octets::{
    lemma_u32_round_trip, lemma_until_nul, nul_position, read_u32, u32_bytes, u32_value, until_nul,
    write_u32, zero_padded, ByteOrder,
};
use vstd::prelude::*;
use vstd::slice::slice_subrange;

verus! {

/// Width of the file name field.
pub const FILENAME_LEN: usize = 32;

/// Length of a record: the name, three integers, a flag and three bytes that
/// align the record to its integers.
pub const RECORD_LEN: usize = 48;

/// Length of the header that precedes a record in a perf buffer.
pub const PERF_HEADER_SIZE: usize = 8;

/// Room for one record as a perf buffer delivers it.
pub const EVENT_SIZE: usize = RECORD_LEN + PERF_HEADER_SIZE;

/// One `exec` as the kernel saw it.
#[derive(Debug, Clone, Copy, PartialEq, Eq)]
pub struct SecurityEvent {
    /// Start of the path that is executed, filled up with zeros.
    pub _filename: [u8; 32],
    pub _uid: u32,
    /// The thread half of the kernel's combined identifier, which for the first
    /// thread of a process is the number of the process.
    pub _pid: u32,
    /// What the control group of the process is registered as, 0 for none.
    pub _cgroup_type: u32,
    /// Whether the path is that of a known shell.
    pub _is_shell: bool,
}

/// What a [`SecurityEvent`] says.
#[verifier::ext_equal]
pub struct EventView {
    pub filename: Seq<u8>,
    pub uid: u32,
    pub pid: u32,
    pub cgroup_type: u32,
    pub is_shell: bool,
}

impl View for SecurityEvent {
    type V = EventView;

    open spec fn view(&self) -> EventView {
        EventView {
            filename: self._filename@,
            uid: self._uid,
            pid: self._pid,
            cgroup_type: self._cgroup_type,
            is_shell: self._is_shell,
        }
    }
}

/// The record for `event`.
pub open spec fn record(event: EventView, order: ByteOrder) -> Seq<u8> {
    event.filename + u32_bytes(event.uid, order) + u32_bytes(event.pid, order) + u32_bytes(
        event.cgroup_type,
        order,
    ) + seq![if event.is_shell { 1u8 } else { 0u8 }, 0u8, 0u8, 0u8]
}

/// Whether `bytes` start with a record: there are enough of them, and the flag
/// is one of its two values.
pub open spec fn holds_record(bytes: Seq<u8>) -> bool {
    bytes.len() >= RECORD_LEN && bytes[44] <= 1
}

/// What the record at the start of `bytes` says.
pub open spec fn record_content(bytes: Seq<u8>, order: ByteOrder) -> EventView {
    EventView {
        filename: bytes.take(32),
        uid: u32_value(bytes.subrange(32, 36), order) as u32,
        pid: u32_value(bytes.subrange(36, 40), order) as u32,
        cgroup_type: u32_value(bytes.subrange(40, 44), order) as u32,
        is_shell: bytes[44] == 1,
    }
}

/// Copies `bytes` to the start of a field of zeros, as far as they fit.
pub fn filename_field(bytes: &[u8]) -> (field: [u8; 32])
    ensures
        field@ == zero_padded(bytes@, 32),
{
    let mut field = [0u8;32];
    let mut i: usize = 0;
    while i < 32 && i < bytes.len()
        invariant
            i <= 32,
            i <= bytes@.len(),
            field@.len() == 32,
            forall|j: int| 0 <= j < i ==> field@[j] == bytes@[j],
            forall|j: int| i <= j < 32 ==> field@[j] == 0,
        decreases 32 - i,
    {
        field[i] = bytes[i];
        i = i + 1;
    }
    assert(field@ =~= zero_padded(bytes@, 32));
    field
}

impl SecurityEvent {
    /// Lays the event out as a record.
    pub fn to_record(&self, order: ByteOrder) -> (bytes: [u8; 48])
        ensures
            bytes@ == record(self@, order),
    {
        let uid = write_u32(self._uid, order);
        let pid = write_u32(self._pid, order);
        let kind = write_u32(self._cgroup_type, order);
        let mut bytes = [0u8;48];
        let mut i: usize = 0;
        while i < 32
            invariant
                i <= 32,
                bytes@.len() == 48,
                forall|j: int| 0 <= j < i ==> bytes@[j] == self._filename@[j],
                forall|j: int| i <= j < 48 ==> bytes@[j] == 0,
            decreases 32 - i,
        {
            bytes[i] = self._filename[i];
            i = i + 1;
        }
        let ghost named = bytes@;
        i = 0;
        while i < 4
            invariant
                i <= 4,
                bytes@.len() == 48,
                named.len() == 48,
                forall|j: int| 0 <= j < 32 ==> bytes@[j] == named[j],
                forall|j: int| 32 <= j < 32 + i ==> bytes@[j] == uid@[j - 32],
                forall|j: int| 36 <= j < 36 + i ==> bytes@[j] == pid@[j - 36],
                forall|j: int| 40 <= j < 40 + i ==> bytes@[j] == kind@[j - 40],
                forall|j: int| 44 <= j < 48 ==> bytes@[j] == 0,
            decreases 4 - i,
        {
            bytes[32 + i] = uid[i];
            bytes[36 + i] = pid[i];
            bytes[40 + i] = kind[i];
            i = i + 1;
        }
        if self._is_shell {
            bytes[44] = 1;
        }
        proof {
            lemma_u32_round_trip(self._uid, order);
            lemma_u32_round_trip(self._pid, order);
            lemma_u32_round_trip(self._cgroup_type, order);
            let whole = record(self@, order);
            assert(self._filename@.len() == 32);
            assert forall|j: int| 0 <= j < 32 implies bytes@[j] == whole[j] by {
                assert(bytes@[j] == named[j]);
            }
            assert(bytes@ =~= whole);
        }
        bytes
    }

    /// Reads the record that `bytes` start with.
    ///
    /// There is none when the bytes are too few or the flag has neither of its
    /// two values. What follows the record is not looked at: a perf buffer pads
    /// what it delivers.
    pub fn from_record(bytes: &[u8], order: ByteOrder) -> (event: Option<SecurityEvent>)
        ensures
            event is Some <==> holds_record(bytes@),
            event matches Some(e) ==> e@ == record_content(bytes@, order),
    {
        if bytes.len() < RECORD_LEN || bytes[44] > 1 {
            return None;
        }
        let field = filename_field(bytes);
        assert(field@ =~= bytes@.take(32));
        Some(
            SecurityEvent {
                _filename: field,
                _uid: read_u32(bytes, 32, order),
                _pid: read_u32(bytes, 36, order),
                _cgroup_type: read_u32(bytes, 40, order),
                _is_shell: bytes[44] == 1,
            },
        )
    }

    /// The path without the zeros that fill up its field.
    pub fn filename(&self) -> (name: &[u8])
        ensures
            name@ == until_nul(self@.filename),
    {
        let field: &[u8] = self._filename.as_slice();
        let end = nul_position(field);
        let name = slice_subrange(field, 0, end);
        assert(name@ =~= field@.take(end as int));
        name
    }
}

/// The daemon reads what the kernel wrote: the record of an event, with
/// anything behind it, gives the event back.
pub proof fn law_record_round_trip(event: EventView, order: ByteOrder, rest: Seq<u8>)
    requires
        event.filename.len() == FILENAME_LEN,
    ensures
        record(event, order).len() == RECORD_LEN,
        holds_record(record(event, order) + rest),
        record_content(record(event, order) + rest, order) == event,
{
    lemma_u32_round_trip(event.uid, order);
    lemma_u32_round_trip(event.pid, order);
    lemma_u32_round_trip(event.cgroup_type, order);
    let bytes = record(event, order) + rest;
    assert(bytes.take(32) =~= event.filename);
    assert(bytes.subrange(32, 36) =~= u32_bytes(event.uid, order));
    assert(bytes.subrange(36, 40) =~= u32_bytes(event.pid, order));
    assert(bytes.subrange(40, 44) =~= u32_bytes(event.cgroup_type, order));
}

/// A path that holds no zero and fits its field is read back whole.
pub proof fn law_filename_kept(path: Seq<u8>)
    requires
        path.len() <= FILENAME_LEN,
        !path.contains(0u8),
    ensures
        until_nul(zero_padded(path, 32)) == path,
{
    let field = zero_padded(path, 32);
    assert forall|j: int| 0 <= j < path.len() implies field[j] != 0 by {
        assert(path.contains(path[j]));
    }
    lemma_until_nul(field, path.len() as int);
    assert(field.take(path.len() as int) =~= path);
}

/// An event says what its fields hold.
pub proof fn law_event_says_its_fields(event: SecurityEvent)
    ensures
        event@.filename == event._filename@,
        event@.uid == event._uid,
        event@.pid == event._pid,
        event@.cgroup_type == event._cgroup_type,
        event@.is_shell == event._is_shell,
{
}

/// Every field stands at its own place in a record: the name first, then user,
/// process and group with four bytes each, then the flag and three zeros.
pub proof fn law_record_layout(event: EventView, order: ByteOrder)
    requires
        event.filename.len() == 32,
    ensures
        ({
            let bytes = record(event, order);
            &&& bytes.len() == 48 == RECORD_LEN
            &&& bytes.subrange(0, FILENAME_LEN as int) == event.filename
            &&& EVENT_SIZE == bytes.len() + 8
            &&& bytes.subrange(0, 32) == event.filename
            &&& u32_value(bytes.subrange(32, 36), order) == event.uid
            &&& u32_value(bytes.subrange(36, 40), order) == event.pid
            &&& u32_value(bytes.subrange(40, 44), order) == event.cgroup_type
            &&& bytes[44] == if event.is_shell {
                1u8
            } else {
                0u8
            }
            &&& bytes[45] == 0 && bytes[46] == 0 && bytes[47] == 0
        }),
{
    lemma_u32_round_trip(event.uid, order);
    lemma_u32_round_trip(event.pid, order);
    lemma_u32_round_trip(event.cgroup_type, order);
    let bytes = record(event, order);
    assert(bytes.subrange(0, 32) =~= event.filename);
    assert(bytes.subrange(32, 36) =~= u32_bytes(event.uid, order));
    assert(bytes.subrange(36, 40) =~= u32_bytes(event.pid, order));
    assert(bytes.subrange(40, 44) =~= u32_bytes(event.cgroup_type, order));
}

/// Any 48 bytes with a flag of 0 or 1 are read as a record, nothing else is, and
/// each field comes from its own place.
pub proof fn law_any_record_is_read(bytes: Seq<u8>, order: ByteOrder)
    ensures
        holds_record(bytes) <==> bytes.len() >= 48 && (bytes[44] == 0 || bytes[44] == 1),
        bytes.len() >= 48 ==> {
            let event = record_content(bytes, order);
            &&& event.filename == bytes.subrange(0, 32)
            &&& event.uid == u32_value(bytes.subrange(32, 36), order)
            &&& event.pid == u32_value(bytes.subrange(36, 40), order)
            &&& event.cgroup_type == u32_value(bytes.subrange(40, 44), order)
            &&& event.is_shell <==> bytes[44] == 1
        },
{
    if bytes.len() >= 48 {
        assert(bytes.take(32) =~= bytes.subrange(0, 32));
    }
}

} // verus!
