//! The authentication handshake on the event channel and its retry policy.

use vstd::prelude::*;

verus! {

/// Authentication attempts made before the channel is given up.
pub const AUTH_ATTEMPTS: u32 = 10;

/// Wait between two authentication attempts, in seconds.
pub const AUTH_RETRY_DELAY_SECS: u64 = 10;

/// Where the authentication handshake stands.
#[derive(Clone, Copy, Debug, PartialEq, Eq, Structural)]
pub enum AuthPhase {
    /// An attempt is under way; `failures` attempts failed before it.
    Authenticating { failures: u32 },
    /// The credential was sent.
    Ready,
    /// The channel was closed: the credential was missing or every
    /// attempt failed.
    Disconnected,
}

/// What the channel does next.
#[derive(Clone, Copy, Debug, PartialEq, Eq, Structural)]
pub enum AuthAction {
    /// Send the credential now.
    Emit,
    /// Wait this many seconds, then send the credential again.
    WaitThenEmit { secs: u64 },
    /// Close the channel.
    Disconnect,
    /// Nothing more to do.
    Idle,
}

/// The phase and action that follow the result of an attempt.
pub open spec fn auth_step(p: AuthPhase, sent: bool) -> (AuthPhase, AuthAction) {
    match p {
        AuthPhase::Authenticating { failures } => if sent {
            (AuthPhase::Ready, AuthAction::Idle)
        } else if failures + 1 >= AUTH_ATTEMPTS {
            (AuthPhase::Disconnected, AuthAction::Disconnect)
        } else {
            (
                AuthPhase::Authenticating { failures: (failures + 1) as u32 },
                AuthAction::WaitThenEmit { secs: AUTH_RETRY_DELAY_SECS },
            )
        },
        _ => (p, AuthAction::Idle),
    }
}

/// The phase after `n` failed attempts in a row from `p`.
pub open spec fn after_failures(p: AuthPhase, n: nat) -> AuthPhase
    decreases n,
{
    if n == 0 {
        p
    } else {
        auth_step(after_failures(p, (n - 1) as nat), false).0
    }
}

/// The text `s` without its trailing whitespace.
pub uninterp spec fn trimmed_end(s: Seq<char>) -> Seq<char>;

/// Relies on `str::trim_end`: the text with trailing whitespace removed,
/// which is a prefix of it.
#[verifier::external_body]
fn trim_end(s: &str) -> (r: String)
    ensures
        r@ == trimmed_end(s@),
        r@.len() <= s@.len(),
        r@ == s@.take(r@.len() as int),
{
    s.trim_end().to_string()
}

/// The credential sent to authenticate: the stored token after `Bearer `,
/// without trailing whitespace.
pub fn bearer_credential(token: &str) -> (r: String)
    ensures
        r@ == trimmed_end("Bearer "@ + token@),
{
    let auth = String::from_str("Bearer ").concat(token);
    trim_end(auth.as_str())
}

/// The handshake of one connection.
pub struct AuthSession {
    phase: AuthPhase,
}

impl AuthSession {
    pub closed spec fn phase_spec(&self) -> AuthPhase {
        self.phase
    }

    /// Starts the handshake once the stored credential was looked up: send
    /// it if there is one, else close the channel.
    pub fn start(credential_found: bool) -> (r: (AuthSession, AuthAction))
        ensures
            credential_found ==> r.0.phase_spec() == (AuthPhase::Authenticating { failures: 0 })
                && r.1 == AuthAction::Emit,
            !credential_found ==> r.0.phase_spec() == AuthPhase::Disconnected && r.1
                == AuthAction::Disconnect,
    {
        if credential_found {
            (AuthSession { phase: AuthPhase::Authenticating { failures: 0 } }, AuthAction::Emit)
        } else {
            (AuthSession { phase: AuthPhase::Disconnected }, AuthAction::Disconnect)
        }
    }

    pub fn phase(&self) -> (r: AuthPhase)
        ensures
            r == self.phase_spec(),
    {
        self.phase
    }

    /// Takes in whether the last attempt went through.
    pub fn on_attempt(&mut self, sent: bool) -> (r: AuthAction)
        ensures
            (final(self).phase_spec(), r) == auth_step(old(self).phase_spec(), sent),
    {
        match self.phase {
            AuthPhase::Authenticating { failures } => {
                if sent {
                    self.phase = AuthPhase::Ready;
                    AuthAction::Idle
                } else if failures >= AUTH_ATTEMPTS - 1 {
                    self.phase = AuthPhase::Disconnected;
                    AuthAction::Disconnect
                } else {
                    self.phase = AuthPhase::Authenticating { failures: failures + 1 };
                    AuthAction::WaitThenEmit { secs: AUTH_RETRY_DELAY_SECS }
                }
            },
            _ => AuthAction::Idle,
        }
    }
}

proof fn lemma_failures_run(n: nat)
    requires
        n < AUTH_ATTEMPTS,
    ensures
        after_failures(AuthPhase::Authenticating { failures: 0 }, n) == (AuthPhase::Authenticating {
            failures: n as u32,
        }),
    decreases n,
{
    if n > 0 {
        lemma_failures_run((n - 1) as nat);
    }
}

/// From the first attempt, each of the first nine failures is followed by
/// a wait of ten seconds and a new attempt; the tenth failure closes the
/// channel. So exactly ten attempts are made, ten seconds apart.
pub proof fn lemma_auth_retry_budget(n: nat)
    requires
        n < AUTH_ATTEMPTS,
    ensures
        after_failures(AuthPhase::Authenticating { failures: 0 }, n) == (AuthPhase::Authenticating {
            failures: n as u32,
        }),
        n + 1 < AUTH_ATTEMPTS ==> auth_step(
            after_failures(AuthPhase::Authenticating { failures: 0 }, n),
            false,
        ).1 == (AuthAction::WaitThenEmit { secs: AUTH_RETRY_DELAY_SECS }),
        n + 1 == AUTH_ATTEMPTS ==> auth_step(
            after_failures(AuthPhase::Authenticating { failures: 0 }, n),
            false,
        ).1 == AuthAction::Disconnect,
        after_failures(AuthPhase::Authenticating { failures: 0 }, AUTH_ATTEMPTS as nat)
            == AuthPhase::Disconnected,
{
    lemma_failures_run(n);
    lemma_failures_run((AUTH_ATTEMPTS - 1) as nat);
}

} // verus!
