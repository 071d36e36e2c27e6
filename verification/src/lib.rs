//! Second-factor enforcement for SSH sessions, as verified decisions.
//!
//! A host that admits users by SSH key asks for a second, TPM-backed factor
//! before a session may act as an interactive one. Two kernel hooks and a
//! daemon share that work. This library holds what they decide: the verdict on
//! an `exec`, the guard on the interactive control group, the record that
//! travels from the kernel to the daemon, the choice of the processes to
//! challenge, the course of a challenge, and the answers to the authenticator.
//! System calls and kernel lookups stay with the caller, which hands their
//! outcomes in as plain values.

pub mod event;
pub mod exec_hook;
pub mod file_hook;
pub mod laws;
pub mod monitor;
pub mod octets;
pub mod policy;
pub mod poll;
pub mod reauth;
pub mod ssh_context;
pub mod text;
pub mod tty;

