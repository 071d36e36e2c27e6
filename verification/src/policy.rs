//! What daemon and kernel agree on: the kinds of control group entries, the
//! keys of the deny lists, and the parts of a process identifier.

use crate::octets::{nul_position, starts_with, until_nul, zero_padded};
use vstd::prelude::*;
use vstd::slice::slice_subrange;

verus! {

/// Kind of the control group of interactive sessions.
pub const CGROUP_INTERACTIVE: u32 = 1;

/// Kind of the control group of sessions that have not passed the challenge.
pub const CGROUP_NON_INTERACTIVE: u32 = 2;

/// Kind of the file through which processes enter the interactive group.
pub const CGROUP_INTERACTIVE_PROCS: u32 = 3;

/// Width of a deny list key.
pub const KEY_LEN: usize = 64;

/// What a control group entry that may be missing counts as.
pub open spec fn kind_of(entry: Option<u32>) -> u32 {
    match entry {
        Some(kind) => kind,
        None => 0,
    }
}

/// What a control group entry that may be missing counts as.
pub fn cgroup_kind(entry: Option<u32>) -> (kind: u32)
    ensures
        kind == kind_of(entry),
{
    match entry {
        Some(kind) => kind,
        None => 0,
    }
}

/// The control group entries after `entries` were put in, one after another.
pub open spec fn registered(entries: Seq<(u64, u32)>) -> Map<u64, u32>
    decreases entries.len(),
{
    if entries.len() == 0 {
        Map::empty()
    } else {
        registered(entries.drop_last()).insert(entries.last().0, entries.last().1)
    }
}

/// What looking up `id` among the control group entries gives.
pub open spec fn lookup(map: Map<u64, u32>, id: u64) -> Option<u32> {
    if map.dom().contains(id) {
        Some(map[id])
    } else {
        None
    }
}

/// The control group entries that the daemon starts with, by inode: the two
/// groups and the file through which the interactive one is entered.
pub open spec fn startup_list(interactive: u64, non_interactive: u64, procs: u64) -> Seq<
    (u64, u32),
> {
    seq![
        (interactive, CGROUP_INTERACTIVE),
        (non_interactive, CGROUP_NON_INTERACTIVE),
        (procs, CGROUP_INTERACTIVE_PROCS),
    ]
}

/// What the control group entries are after start-up.
pub open spec fn startup_map(interactive: u64, non_interactive: u64, procs: u64) -> Map<u64, u32> {
    registered(startup_list(interactive, non_interactive, procs))
}

/// Lists the control group entries that the daemon puts in when it starts.
pub fn startup_entries(interactive: u64, non_interactive: u64, procs: u64) -> (entries: Vec<
    (u64, u32),
>)
    ensures
        entries@ == startup_list(interactive, non_interactive, procs),
{
    let mut entries: Vec<(u64, u32)> = Vec::new();
    entries.push((interactive, CGROUP_INTERACTIVE));
    entries.push((non_interactive, CGROUP_NON_INTERACTIVE));
    entries.push((procs, CGROUP_INTERACTIVE_PROCS));
    entries
}

/// The key for `name` in a deny list. A key ends in a zero, as a string that
/// the kernel hands out does, so that a longer name is cut.
pub open spec fn key_of(name: Seq<u8>) -> Seq<u8> {
    zero_padded(
        if name.len() < KEY_LEN {
            name
        } else {
            name.take(63)
        },
        64,
    )
}

/// Makes the key for `name` in a deny list.
pub fn blacklist_key(name: &[u8]) -> (key: [u8; 64])
    ensures
        key@ == key_of(name@),
{
    let mut key = [0u8;64];
    let mut i: usize = 0;
    while i < 63 && i < name.len()
        invariant
            i <= 63,
            i <= name@.len(),
            key@.len() == 64,
            forall|j: int| 0 <= j < i ==> key@[j] == name@[j],
            forall|j: int| i <= j < 64 ==> key@[j] == 0,
        decreases 63 - i,
    {
        key[i] = name[i];
        i = i + 1;
    }
    assert(key@ =~= key_of(name@));
    key
}

/// Whether the deny list entry `entry` covers `path`: the entry, without the
/// zeros that fill it up, is not empty and is where the path starts.
pub open spec fn covers(entry: Seq<u8>, path: Seq<u8>) -> bool {
    until_nul(entry).len() > 0 && until_nul(entry).is_prefix_of(path)
}

/// Whether one of `entries` covers `path`.
pub open spec fn covered(entries: Seq<[u8; 64]>, path: Seq<u8>) -> bool {
    exists|i: int| 0 <= i < entries.len() && covers(#[trigger] entries[i]@, path)
}

/// Whether one of the denied path prefixes `entries` covers `path`.
pub fn path_blacklisted(entries: &[[u8; 64]], path: &[u8]) -> (listed: bool)
    ensures
        listed == covered(entries@, path@),
{
    let mut i: usize = 0;
    while i < entries.len()
        invariant
            i <= entries@.len(),
            forall|j: int| 0 <= j < i ==> !covers(#[trigger] entries@[j]@, path@),
        decreases entries@.len() - i,
    {
        let entry: &[u8] = entries[i].as_slice();
        let end = nul_position(entry);
        let trimmed = slice_subrange(entry, 0, end);
        assert(trimmed@ =~= entry@.take(end as int));
        assert(entry@ == entries@[i as int]@);
        if end > 0 && starts_with(path, trimmed) {
            assert(covers(entries@[i as int]@, path@));
            return true;
        }
        i = i + 1;
    }
    false
}

/// The process half of the kernel's combined identifier.
pub open spec fn process_of(pid_tgid: u64) -> u32 {
    (pid_tgid / 0x1_0000_0000) as u32
}

/// The thread half of the kernel's combined identifier.
pub open spec fn thread_of(pid_tgid: u64) -> u32 {
    (pid_tgid % 0x1_0000_0000) as u32
}

/// Takes the process half of the kernel's combined identifier.
pub fn process_id(pid_tgid: u64) -> (id: u32)
    ensures
        id == process_of(pid_tgid),
{
    assert((pid_tgid >> 32) == pid_tgid / 0x1_0000_0000) by (bit_vector);
    (pid_tgid >> 32) as u32
}

/// Takes the thread half of the kernel's combined identifier.
pub fn thread_id(pid_tgid: u64) -> (id: u32)
    ensures
        id == thread_of(pid_tgid),
{
    (pid_tgid % 0x1_0000_0000) as u32
}

/// After start-up the two groups and the entry file have their kinds and
/// nothing else has one, provided that the three are distinct.
pub proof fn law_startup_kinds(interactive: u64, non_interactive: u64, procs: u64, id: u64)
    requires
        interactive != non_interactive,
        interactive != procs,
        non_interactive != procs,
    ensures
        kind_of(lookup(startup_map(interactive, non_interactive, procs), id)) == if id
            == interactive {
            CGROUP_INTERACTIVE
        } else if id == non_interactive {
            CGROUP_NON_INTERACTIVE
        } else if id == procs {
            CGROUP_INTERACTIVE_PROCS
        } else {
            0
        },
{
    let entries = startup_list(interactive, non_interactive, procs);
    let two = entries.drop_last();
    let one = two.drop_last();
    assert(one.drop_last() =~= Seq::<(u64, u32)>::empty());
    assert(registered(one.drop_last()) == Map::<u64, u32>::empty());
    assert(registered(one) == Map::<u64, u32>::empty().insert(interactive, CGROUP_INTERACTIVE));
    assert(registered(two) == registered(one).insert(non_interactive, CGROUP_NON_INTERACTIVE));
    assert(registered(entries) == registered(two).insert(procs, CGROUP_INTERACTIVE_PROCS));
}

/// A key identifies its name: two names without zeros that fit have the same
/// key exactly when they are the same.
pub proof fn law_key_identifies(a: Seq<u8>, b: Seq<u8>)
    requires
        a.len() < KEY_LEN,
        b.len() < KEY_LEN,
        !a.contains(0u8),
        !b.contains(0u8),
    ensures
        key_of(a) == key_of(b) <==> a == b,
{
    if key_of(a) == key_of(b) {
        lemma_key_content(a);
        lemma_key_content(b);
    }
}

/// A prefix that holds no zero and fits, entered by its key, covers exactly the
/// paths that start with it; the empty one covers none.
pub proof fn law_key_covers(prefix: Seq<u8>, path: Seq<u8>)
    requires
        prefix.len() < KEY_LEN,
        !prefix.contains(0u8),
    ensures
        covers(key_of(prefix), path) <==> prefix.len() > 0 && prefix.is_prefix_of(path),
{
    lemma_key_content(prefix);
}

proof fn lemma_key_content(name: Seq<u8>)
    requires
        name.len() < KEY_LEN,
        !name.contains(0u8),
    ensures
        until_nul(key_of(name)) == name,
{
    let key = key_of(name);
    assert forall|j: int| 0 <= j < name.len() implies key[j] != 0 by {
        assert(name.contains(name[j]));
    }
    crate::octets::lemma_until_nul(key, name.len() as int);
    assert(key.take(name.len() as int) =~= name);
}

/// A missing control group entry counts as 0, another as what it is.
pub proof fn law_missing_entry_is_zero(kind: u32)
    ensures
        kind_of(None) == 0,
        kind_of(Some(kind)) == kind,
{
}

/// Start-up registers the interactive group as 1, the non-interactive one as 2
/// and the entry file as 3, each under its inode, and nothing more.
pub proof fn law_startup_registers_three(interactive: u64, non_interactive: u64, procs: u64)
    ensures
        startup_list(interactive, non_interactive, procs).len() == 3,
        startup_list(interactive, non_interactive, procs)[0] == (interactive, 1u32),
        startup_list(interactive, non_interactive, procs)[1] == (non_interactive, 2u32),
        startup_list(interactive, non_interactive, procs)[2] == (procs, 3u32),
{
}

/// A key is 64 bytes wide: the name as far as 63 of its bytes, then zeros.
pub proof fn law_key_holds_name(name: Seq<u8>)
    ensures
        key_of(name).len() == 64 == KEY_LEN,
        forall|i: int|
            0 <= i < 63 && i < name.len() ==> #[trigger] key_of(name)[i] == name[i],
        forall|i: int|
            0 <= i < 64 && (i >= name.len() || i == 63) ==> #[trigger] key_of(name)[i] == 0u8,
{
}

/// A path is covered exactly when, for some entry, it starts with what stands
/// before the first zero of that entry, and something stands there.
pub proof fn law_covered_by_a_prefix(entries: Seq<[u8; 64]>, path: Seq<u8>)
    ensures
        covered(entries, path) <==> exists|i: int, n: int|
            {
                &&& 0 <= i < entries.len()
                &&& 0 < n <= 64
                &&& n <= path.len()
                &&& path.subrange(0, n) == #[trigger] entries[i]@.subrange(0, n)
                &&& !path.subrange(0, n).contains(0u8)
                &&& n < 64 ==> entries[i]@[n] == 0u8
            },
{
    if covered(entries, path) {
        let i = choose|i: int| 0 <= i < entries.len() && covers(#[trigger] entries[i]@, path);
        let name = until_nul(entries[i]@);
        let n = name.len() as int;
        lemma_entry_prefix(entries[i]@, path);
        assert(path.subrange(0, n) == entries[i]@.subrange(0, n));
    }
    if exists|i: int, n: int|
        {
            &&& 0 <= i < entries.len()
            &&& 0 < n <= 64
            &&& n <= path.len()
            &&& path.subrange(0, n) == #[trigger] entries[i]@.subrange(0, n)
            &&& !path.subrange(0, n).contains(0u8)
            &&& n < 64 ==> entries[i]@[n] == 0u8
        } {
        let (i, n) = choose|i: int, n: int|
            {
                &&& 0 <= i < entries.len()
                &&& 0 < n <= 64
                &&& n <= path.len()
                &&& path.subrange(0, n) == #[trigger] entries[i]@.subrange(0, n)
                &&& !path.subrange(0, n).contains(0u8)
                &&& n < 64 ==> entries[i]@[n] == 0u8
            };
        let entry = entries[i]@;
        assert forall|j: int| 0 <= j < n implies entry[j] != 0 by {
            assert(entry.subrange(0, n)[j] == path.subrange(0, n)[j]);
            assert(path.subrange(0, n).contains(path.subrange(0, n)[j]));
        }
        crate::octets::lemma_until_nul(entry, n);
        assert(entry.take(n) =~= path.subrange(0, n));
        assert(covers(entries[i]@, path));
    }
}

proof fn lemma_entry_prefix(entry: Seq<u8>, path: Seq<u8>)
    requires
        entry.len() == 64,
        covers(entry, path),
    ensures
        ({
            let n = until_nul(entry).len() as int;
            &&& 0 < n <= 64
            &&& n <= path.len()
            &&& path.subrange(0, n) == entry.subrange(0, n)
            &&& !path.subrange(0, n).contains(0u8)
            &&& n < 64 ==> entry[n] == 0u8
        }),
{
    crate::octets::law_ends_at_first_zero(entry);
    let n = until_nul(entry).len() as int;
    assert(until_nul(entry) =~= entry.subrange(0, n));
    assert forall|b: u8| path.subrange(0, n).contains(b) implies b != 0 by {
        let k = choose|k: int| 0 <= k < n && path.subrange(0, n)[k] == b;
        assert(until_nul(entry)[k] == b);
    }
}

/// The two halves make up the combined identifier, the process half on top.
pub proof fn law_halves_make_the_whole(pid_tgid: u64)
    ensures
        pid_tgid == process_of(pid_tgid) * 0x1_0000_0000 + thread_of(pid_tgid),
{
}

} // verus!
