//! The terminal that a process reads from.

use crate::text::{decimal, decimal_string, has_prefix, law_decimal_round_trip};
use vstd::prelude::*;
use vstd::string::*;

verus! {

/// Why no terminal was found for a process.
#[derive(Debug, PartialEq, Eq)]
pub enum TtyError {
    /// There is no process 0.
    InvalidPid,
    /// The link could not be read, with the reason.
    Unreadable(String),
    /// The link leads to something that is not a device.
    NotATty(String),
}

impl TtyError {
    /// What the error says.
    pub open spec fn text(&self) -> Seq<char> {
        match *self {
            TtyError::InvalidPid => "PID cannot be 0"@,
            TtyError::Unreadable(reason) => reason@,
            TtyError::NotATty(path) => "Invalid TTY path: "@ + path@,
        }
    }

    /// Puts the error in words.
    pub fn message(&self) -> (message: String)
        ensures
            message@ == self.text(),
    {
        match self {
            TtyError::InvalidPid => String::from_str("PID cannot be 0"),
            TtyError::Unreadable(reason) => reason.clone(),
            TtyError::NotATty(path) => {
                String::from_str("Invalid TTY path: ").concat(path.as_str())
            },
        }
    }
}

/// The link to what process `pid` reads from.
pub open spec fn stdin_link_path(pid: u32) -> Seq<char> {
    "/proc/"@ + decimal(pid as nat) + "/fd/0"@
}

/// Whether `link` is how the link to what process `pid` reads from is named.
pub open spec fn names_link(pid: u32, link: Result<String, TtyError>) -> bool {
    match link {
        Ok(path) => pid != 0 && path@ == stdin_link_path(pid),
        Err(error) => pid == 0 && error == TtyError::InvalidPid,
    }
}

/// Names the link to what process `pid` reads from.
pub fn stdin_link(pid: u32) -> (link: Result<String, TtyError>)
    ensures
        pid == 0 ==> link == Err::<String, TtyError>(TtyError::InvalidPid),
        pid != 0 ==> link is Ok && link->Ok_0@ == stdin_link_path(pid),
        names_link(pid, link),
{
    if pid == 0 {
        return Err(TtyError::InvalidPid);
    }
    let mut link = String::from_str("/proc/");
    link.append(decimal_string(pid).as_str());
    link.append("/fd/0");
    Ok(link)
}

/// Whether `path` names a device.
pub open spec fn is_device(path: Seq<char>) -> bool {
    "/dev/"@.is_prefix_of(path)
}

/// Whether `path` names a pseudo-terminal.
pub open spec fn is_pty(path: Seq<char>) -> bool {
    "/dev/pts/"@.is_prefix_of(path)
}

/// The terminal of process `pid`, when reading the link to its input led to
/// `target`.
pub open spec fn tty_of(pid: u32, target: Result<String, String>) -> Result<String, TtyError> {
    if pid == 0 {
        Err(TtyError::InvalidPid)
    } else {
        match target {
            Err(reason) => Err(TtyError::Unreadable(reason)),
            Ok(path) => if is_device(path@) {
                Ok(path)
            } else {
                Err(TtyError::NotATty(path))
            },
        }
    }
}

/// Finds the terminal of process `pid`, given what reading the link to its
/// input led to, or the reason why that failed.
pub fn get_tty_of_pid(pid: u32, target: Result<String, String>) -> (tty: Result<String, TtyError>)
    ensures
        tty == tty_of(pid, target),
{
    if pid == 0 {
        return Err(TtyError::InvalidPid);
    }
    match target {
        Err(reason) => Err(TtyError::Unreadable(reason)),
        Ok(path) => {
            if has_prefix(path.as_str(), "/dev/") {
                Ok(path)
            } else {
                Err(TtyError::NotATty(path))
            }
        },
    }
}

/// Whether the terminal of a process is a pseudo-terminal.
pub open spec fn on_pty(tty: Result<String, TtyError>) -> bool {
    tty matches Ok(path) && is_pty(path@)
}

/// Whether process `pid` has a pseudo-terminal, given what reading the link to
/// its input led to, or the reason why that failed.
pub fn has_pty(pid: u32, target: Result<String, String>) -> (yes: bool)
    ensures
        yes == on_pty(tty_of(pid, target)),
{
    match get_tty_of_pid(pid, target) {
        Ok(path) => has_prefix(path.as_str(), "/dev/pts/"),
        Err(_) => false,
    }
}

/// Every pseudo-terminal is a device, so a process has one exactly when it is
/// not process 0 and its input leads to one.
pub proof fn law_pty_is_found(pid: u32, target: Result<String, String>)
    ensures
        on_pty(tty_of(pid, target)) <==> pid != 0 && (target matches Ok(path) && is_pty(path@)),
{
    reveal_strlit("/dev/");
    reveal_strlit("/dev/pts/");
    assert("/dev/"@ =~= "/dev/pts/"@.subrange(0, 5));
    if let Ok(path) = target {
        if is_pty(path@) {
            assert(path@.subrange(0, 9).subrange(0, 5) =~= path@.subrange(0, 5));
        }
    }
}

/// No two processes share the link to their input.
pub proof fn law_links_are_distinct(a: u32, b: u32)
    ensures
        stdin_link_path(a) == stdin_link_path(b) <==> a == b,
{
    if stdin_link_path(a) == stdin_link_path(b) {
        reveal_strlit("/proc/");
        reveal_strlit("/fd/0");
        let link = stdin_link_path(a);
        let end = link.len() - 5;
        assert(link.subrange(6, end) =~= decimal(a as nat));
        assert(link.subrange(6, end) =~= decimal(b as nat));
        law_decimal_round_trip(a as nat);
        law_decimal_round_trip(b as nat);
    }
}

/// The terminal of a process is what its link leads to, unchanged, if that is
/// under `/dev/`; otherwise the error says what went wrong, and process 0 never
/// has one.
pub proof fn law_terminal_is_the_link_target(pid: u32, path: String, reason: String)
    ensures
        tty_of(0, Ok(path)) == Err::<String, TtyError>(TtyError::InvalidPid),
        tty_of(0, Err(reason)) == Err::<String, TtyError>(TtyError::InvalidPid),
        pid != 0 ==> tty_of(pid, Err(reason)) == Err::<String, TtyError>(
            TtyError::Unreadable(reason),
        ),
        pid != 0 && "/dev/"@.is_prefix_of(path@) ==> tty_of(pid, Ok(path)) == Ok::<
            String,
            TtyError,
        >(path),
        pid != 0 && !"/dev/"@.is_prefix_of(path@) ==> tty_of(pid, Ok(path)) == Err::<
            String,
            TtyError,
        >(TtyError::NotATty(path)),
{
}

/// A process is on a pseudo-terminal exactly when it is not process 0 and its link
/// leads to something under `/dev/pts/`.
pub proof fn law_pty_is_under_dev_pts(pid: u32, target: Result<String, String>)
    ensures
        on_pty(tty_of(pid, target)) <==> pid != 0 && (target matches Ok(path)
            && "/dev/pts/"@.is_prefix_of(path@)),
{
    law_pty_is_found(pid, target);
}

/// The link to the input of a process stands in the directory of that process;
/// process 0 alone has none.
pub proof fn law_link_is_of_the_process(pid: u32, link: Result<String, TtyError>)
    requires
        names_link(pid, link),
    ensures
        link is Ok <==> pid != 0,
        link matches Ok(path) ==> path@ == "/proc/"@ + decimal(pid as nat) + "/fd/0"@,
        link matches Err(error) ==> error is InvalidPid,
{
}

/// Errors say what they are about.
pub proof fn law_tty_errors_say_why(text: String)
    ensures
        TtyError::InvalidPid.text() == "PID cannot be 0"@,
        TtyError::Unreadable(text).text() == text@,
        TtyError::NotATty(text).text() == "Invalid TTY path: "@ + text@,
{
}

} // verus!
