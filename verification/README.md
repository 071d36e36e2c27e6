# lsm_tpm

Second-factor enforcement for SSH sessions on Linux. Sessions that were admitted
by key alone live in a non-interactive control group. Two kernel hooks and a
daemon see to it that they leave it only through a TPM-backed challenge.

The decisions are a library that Verus verifies; the calls around them are
ordinary Rust.

| Where | What |
| --- | --- |
| `src/exec_hook.rs` | the verdict on an `exec`, and the report of it |
| `src/file_hook.rs` | the guard on the file through which the interactive group is entered |
| `src/policy.rs` | control group entries, deny list keys, process identifiers |
| `src/event.rs` | the record that the exec hook sends to the daemon |
| `src/monitor.rs` | the daemon's watch over those records and the choice of whom to challenge |
| `src/poll.rs` | setting up and reading a wait on perf buffers |
| `src/tty.rs` | the terminal of a process |
| `src/reauth.rs` | the course of a challenge |
| `src/ssh_context.rs` | messages of the authenticator and their answers |
| `src/laws.rs` | what holds of hooks and daemon together |
| `src/octets.rs`, `src/text.rs` | bytes and decimal text |
| `app/` | the daemon's system calls, its gRPC service and the hooks' kernel calls |

Proof functions whose names start with `law_` state what the parts promise as a
whole: only the daemon admits processes to the interactive group, a denied
program stays denied but for a one-time allowance, every shell to challenge is
noticed, and no challenge leaves a process frozen.

Trusted is one thing: that the bytes borrowed from a `bytes::BytesMut` are its
contents (`src/monitor.rs`).
