use cultiva::auth::{bearer_credential, AuthAction, AuthPhase, AuthSession, AUTH_ATTEMPTS};

#[test]
fn missing_credential_disconnects() {
    let (s, a) = AuthSession::start(false);
    assert_eq!(a, AuthAction::Disconnect);
    assert_eq!(s.phase(), AuthPhase::Disconnected);
}

#[test]
fn ten_attempts_ten_seconds_apart() {
    let (mut s, a) = AuthSession::start(true);
    assert_eq!(a, AuthAction::Emit);
    let mut attempts = 1;
    loop {
        match s.on_attempt(false) {
            AuthAction::WaitThenEmit { secs } => {
                assert_eq!(secs, 10);
                attempts += 1;
            }
            AuthAction::Disconnect => break,
            other => panic!("unexpected {:?}", other),
        }
    }
    assert_eq!(attempts, 10);
    assert_eq!(AUTH_ATTEMPTS, 10);
    assert_eq!(s.phase(), AuthPhase::Disconnected);
    assert_eq!(s.on_attempt(true), AuthAction::Idle);
    assert_eq!(s.phase(), AuthPhase::Disconnected);
}

#[test]
fn success_after_retries_is_ready() {
    let (mut s, _) = AuthSession::start(true);
    assert_eq!(s.on_attempt(false), AuthAction::WaitThenEmit { secs: 10 });
    assert_eq!(s.phase(), AuthPhase::Authenticating { failures: 1 });
    assert_eq!(s.on_attempt(true), AuthAction::Idle);
    assert_eq!(s.phase(), AuthPhase::Ready);
}

#[test]
fn bearer_credential_trims_trailing_whitespace() {
    assert_eq!(bearer_credential("abc.def\n"), "Bearer abc.def");
    assert_eq!(bearer_credential(" tok \t\r\n"), "Bearer  tok");
    assert_eq!(bearer_credential(""), "Bearer");
}
