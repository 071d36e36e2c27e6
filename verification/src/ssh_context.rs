//! What the authenticator tells the daemon, and what the daemon answers.

use crate::text::{decimal, decimal_string};
use vstd::prelude::*;
use vstd::string::*;

verus! {

/// The file through which processes enter the interactive group.
pub const INTERACTIVE_CGROUP_PATH: &'static str = "/sys/fs/cgroup/ssh_interactive/cgroup.procs";

/// What the authenticator found out about a session.
#[derive(Debug, Clone, Copy, PartialEq, Eq, Structural)]
pub enum AuthenticationType {
    /// The second factor was not asked for, or not given.
    NotTpmAuthenticated,
    /// The second factor was given at login.
    OwnerAuthenticated,
    /// The second factor was given in a challenge.
    OwnerReauthenticated,
    /// The session belongs to an editor that runs its own tools.
    VscodeSession,
}

/// A message of the authenticator.
#[derive(Debug, Clone, Copy, PartialEq, Eq)]
pub struct SshContext {
    /// What was found out; none for a value that has no meaning.
    pub auth: Option<AuthenticationType>,
    /// The process that the session runs in.
    pub pid: u32,
}

/// How a request went, in the answer to it.
#[derive(Debug, Clone, Copy, PartialEq, Eq, Structural)]
pub enum ErrorCode {
    EOk,
}

/// The answer to a message.
#[derive(Debug, Clone, Copy, PartialEq, Eq)]
pub struct SshResponse {
    pub successful: bool,
    pub error_code: Option<ErrorCode>,
}

/// An internal error that a message is answered with.
#[derive(Debug, PartialEq, Eq)]
pub struct ContextError {
    pub message: String,
}

/// What a message has the daemon do before it is answered.
#[derive(Debug, PartialEq, Eq)]
pub enum ContextAction {
    /// Nothing.
    Nothing,
    /// Move the process to the interactive group, by writing `contents` to the
    /// file at `path`.
    JoinInteractive { path: String, contents: String },
    /// Let the next `exec` pass the deny lists whose thread has this number, which
    /// for the first thread of a process is the number of the process.
    AllowExec(u32),
}

/// The service that the authenticator talks to.
#[derive(Debug, Default)]
pub struct SshContextService {}

/// Whether a message says that the second factor was given.
pub open spec fn owner_confirmed(ctx: SshContext) -> bool {
    ||| ctx.auth == Some(AuthenticationType::OwnerAuthenticated)
    ||| ctx.auth == Some(AuthenticationType::OwnerReauthenticated)
}

/// What an action that failed for `reason` is answered with.
pub open spec fn failure_text(action: ContextAction, reason: Seq<char>) -> Seq<char> {
    match action {
        ContextAction::AllowExec(_) => "Exec allowance failed: "@ + reason,
        _ => "Cgroup migration failed: "@ + reason,
    }
}

/// Whether `action` is what the message `ctx` has the daemon do.
pub open spec fn plans(ctx: SshContext, action: ContextAction) -> bool {
    match action {
        ContextAction::JoinInteractive { path, contents } => {
            &&& owner_confirmed(ctx)
            &&& path@ == INTERACTIVE_CGROUP_PATH@
            &&& contents@ == decimal(ctx.pid as nat) + "\n"@
        },
        ContextAction::AllowExec(pid) => {
            &&& ctx.auth == Some(AuthenticationType::VscodeSession)
            &&& pid == ctx.pid
        },
        ContextAction::Nothing => {
            &&& !owner_confirmed(ctx)
            &&& ctx.auth != Some(AuthenticationType::VscodeSession)
        },
    }
}

/// Whether `reply` answers a message whose action went as `done` says.
pub open spec fn answers(
    action: ContextAction,
    done: Result<(), String>,
    reply: Result<SshResponse, ContextError>,
) -> bool {
    match (done, reply) {
        (Ok(_), Ok(response)) => response == (SshResponse {
            successful: true,
            error_code: Some(ErrorCode::EOk),
        }),
        (Err(reason), Err(error)) => error.message@ == failure_text(action, reason@),
        _ => false,
    }
}

impl SshContextService {
    /// Says what a message has the daemon do.
    ///
    /// A process whose owner gave the second factor joins the interactive
    /// group, an editor session gets an allowance for one `exec`, and nothing
    /// comes of any other message.
    pub fn context_send(&self, ctx: &SshContext) -> (action: ContextAction)
        ensures
            action is JoinInteractive <==> owner_confirmed(*ctx),
            action matches ContextAction::JoinInteractive { path, contents } ==> {
                &&& path@ == INTERACTIVE_CGROUP_PATH@
                &&& contents@ == decimal(ctx.pid as nat) + "\n"@
            },
            action is AllowExec <==> ctx.auth == Some(AuthenticationType::VscodeSession),
            action matches ContextAction::AllowExec(pid) ==> pid == ctx.pid,
            plans(*ctx, action),
    {
        match ctx.auth {
            Some(AuthenticationType::OwnerAuthenticated) | Some(
                AuthenticationType::OwnerReauthenticated,
            ) => ContextAction::JoinInteractive {
                path: String::from_str(INTERACTIVE_CGROUP_PATH),
                contents: decimal_string(ctx.pid).concat("\n"),
            },
            Some(AuthenticationType::VscodeSession) => ContextAction::AllowExec(ctx.pid),
            Some(AuthenticationType::NotTpmAuthenticated) | None => ContextAction::Nothing,
        }
    }

    /// Answers a message after its action was done, or failed for a reason.
    pub fn context_reply(&self, action: &ContextAction, done: Result<(), String>) -> (reply: Result<
        SshResponse,
        ContextError,
    >)
        ensures
            match done {
                Ok(_) => reply == Ok::<SshResponse, ContextError>(
                    (SshResponse { successful: true, error_code: Some(ErrorCode::EOk) }),
                ),
                Err(reason) => reply is Err && reply->Err_0.message@ == failure_text(
                    *action,
                    reason@,
                ),
            },
            answers(*action, done, reply),
    {
        match done {
            Ok(_) => Ok(SshResponse { successful: true, error_code: Some(ErrorCode::EOk) }),
            Err(reason) => {
                let lead = match action {
                    ContextAction::AllowExec(_) => "Exec allowance failed: ",
                    _ => "Cgroup migration failed: ",
                };
                Err(ContextError { message: String::from_str(lead).concat(reason.as_str()) })
            },
        }
    }
}

/// A message that the second factor was given has the process, and no other, join
/// the interactive group; one of an editor session has that process allowed one
/// `exec`; and nothing comes of any other message.
pub proof fn law_messages_are_acted_upon(ctx: SshContext, action: ContextAction)
    requires
        plans(ctx, action),
    ensures
        action is JoinInteractive <==> (ctx.auth matches Some(auth) && (auth
            is OwnerAuthenticated || auth is OwnerReauthenticated)),
        action matches ContextAction::JoinInteractive { path, contents } ==> {
            &&& path@ == "/sys/fs/cgroup/ssh_interactive/cgroup.procs"@
            &&& contents@ == decimal(ctx.pid as nat) + "\n"@
        },
        action is AllowExec <==> (ctx.auth matches Some(auth) && auth is VscodeSession),
        action matches ContextAction::AllowExec(pid) ==> pid == ctx.pid,
        action is Nothing <==> ctx.auth is None || ctx.auth->0 is NotTpmAuthenticated,
{
}

/// An action that was done is answered with success, one that failed with an error
/// that says which it was and gives the reason in full.
pub proof fn law_answers_tell_how_it_went(
    action: ContextAction,
    done: Result<(), String>,
    reply: Result<SshResponse, ContextError>,
)
    requires
        answers(action, done, reply),
    ensures
        reply is Ok <==> done is Ok,
        reply matches Ok(response) ==> response.successful && response.error_code == Some(
            ErrorCode::EOk,
        ),
        reply matches Err(error) ==> {
            &&& action is AllowExec ==> error.message@ == "Exec allowance failed: "@
                + done->Err_0@
            &&& !(action is AllowExec) ==> error.message@ == "Cgroup migration failed: "@
                + done->Err_0@
        },
{
}

} // verus!
