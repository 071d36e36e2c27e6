use lsm_tpm::ssh_context::{
    AuthenticationType, ContextAction, ErrorCode, SshContext, SshContextService, SshResponse,
};

fn send(auth: Option<AuthenticationType>) -> ContextAction {
    SshContextService::default().context_send(&SshContext { auth, pid: 815 })
}

fn join() -> ContextAction {
    ContextAction::JoinInteractive {
        path: "/sys/fs/cgroup/ssh_interactive/cgroup.procs".to_string(),
        contents: "815\n".to_string(),
    }
}

#[test]
fn confirmed_owners_join_the_interactive_group() {
    assert_eq!(send(Some(AuthenticationType::OwnerAuthenticated)), join());
    assert_eq!(send(Some(AuthenticationType::OwnerReauthenticated)), join());
}

#[test]
fn editor_sessions_get_an_allowance() {
    assert_eq!(send(Some(AuthenticationType::VscodeSession)), ContextAction::AllowExec(815));
}

#[test]
fn nothing_comes_of_other_messages() {
    assert_eq!(send(Some(AuthenticationType::NotTpmAuthenticated)), ContextAction::Nothing);
    assert_eq!(send(None), ContextAction::Nothing);
}

#[test]
fn what_was_done_is_acknowledged() {
    let service = SshContextService::default();
    let ok = SshResponse { successful: true, error_code: Some(ErrorCode::EOk) };
    for action in [join(), ContextAction::AllowExec(815), ContextAction::Nothing] {
        assert_eq!(service.context_reply(&action, Ok(())), Ok(ok));
    }
}

#[test]
fn what_failed_is_answered_with_the_reason() {
    let service = SshContextService::default();
    let error = service.context_reply(&join(), Err("denied".to_string())).unwrap_err();
    assert_eq!(error.message, "Cgroup migration failed: denied");
    let allow = ContextAction::AllowExec(815);
    let error = service.context_reply(&allow, Err("full".to_string())).unwrap_err();
    assert_eq!(error.message, "Exec allowance failed: full");
}
