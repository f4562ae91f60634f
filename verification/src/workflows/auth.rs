//! Registration and login.
use vstd::prelude::*;

use crate::errors::{LoginError, RegisterError, RepoError};
use crate::hasher::{spec_hash_text, ScryptHasher};
use crate::catalog::spec_validated;
use crate::text::{push_str, spec_text_error_message, string_of, CaseMap, TextError};
use crate::user::{Email, PasswordHash, SessionToken, User, UserId, UtcTimestamp};

verus! {

/// What a successful authentication yields.
#[derive(Debug, PartialEq, Eq)]
pub struct AuthSession {
    pub token: SessionToken,
    pub user_id: UserId,
    pub email: Email,
}

impl Clone for AuthSession {
    fn clone(&self) -> (r: Self)
        ensures
            r == *self,
    {
        AuthSession { token: self.token.clone(), user_id: self.user_id.clone(), email: self.email.clone() }
    }
}

/// What the last effect of a registration or a login returned.
pub enum AuthEvent {
    /// The effect failed in the store (or the hasher was misconfigured).
    Failed(RepoError),
    /// The user with the email, if there is one.
    UserFound(Option<User>),
    IdDrawn(String),
    Hashed(PasswordHash),
    /// Whether the password matched the stored hash.
    Verified(bool),
    ClockRead(UtcTimestamp),
    /// The write (user or session) went through.
    Written,
}

/// The effect a registration or a login asks for next; `E` is its error.
pub enum AuthAction<E> {
    FindUser { email: Email },
    DrawId,
    /// Hash the password being registered.
    HashPassword,
    /// Check the password being presented against this stored hash.
    VerifyPassword { stored: PasswordHash },
    ReadClock,
    InsertUser { user: User },
    CreateSession { token: SessionToken, user_id: UserId },
    Finish { result: Result<AuthSession, E> },
}

/// The message of a user id that the generator produced and `UserId` refused.
pub open spec fn garbage_user_id_message(e: TextError) -> Seq<char> {
    "id generator produced garbage: "@ + spec_text_error_message("UserId"@, 64, e)
}

/// The message of a token that the generator produced and `SessionToken` refused.
pub open spec fn invalid_token_message(e: TextError) -> Seq<char> {
    "id generator produced an invalid token: "@ + spec_text_error_message("SessionToken"@, 128, e)
}

/// The session that starting one for `user` with `token` yields.
pub open spec fn session_for(user: User, token: SessionToken) -> AuthSession {
    AuthSession { token, user_id: user.id, email: user.email }
}

// ---------------------------------------------------------------------------
// Registration
// ---------------------------------------------------------------------------

/// Where a registration stands.
pub enum RegisterPhase {
    /// Waiting to learn whether the email is taken.
    LookingUp,
    /// Waiting for a user id.
    DrawingUserId,
    /// Waiting for the password's hash.
    Hashing { id: UserId },
    /// Waiting for the time of registration.
    ReadingClock { id: UserId, hash: PasswordHash },
    /// Waiting for the user to be written.
    Inserting { user: User },
    /// Waiting for a session token.
    DrawingToken { user: User },
    /// Waiting for the session to be written.
    CreatingSession { user: User, token: SessionToken },
    Finished,
}

/// A registration in progress: refuse a taken email, create the user with a hashed
/// password, then open a session for it.
pub struct Registration {
    email: Email,
    phase: RegisterPhase,
}

pub open spec fn register_awaits(phase: RegisterPhase, event: AuthEvent) -> bool {
    match event {
        AuthEvent::Failed(_) => !(phase is Finished),
        AuthEvent::UserFound(_) => phase is LookingUp,
        AuthEvent::IdDrawn(_) => phase is DrawingUserId || phase is DrawingToken,
        AuthEvent::Hashed(_) => phase is Hashing,
        AuthEvent::Verified(_) => false,
        AuthEvent::ClockRead(_) => phase is ReadingClock,
        AuthEvent::Written => phase is Inserting || phase is CreatingSession,
    }
}

/// One step of a registration for `email`: from phase `s` and event `e` to phase
/// `t` and action `a`.
pub open spec fn register_step(s: RegisterPhase, email: Email, e: AuthEvent, t: RegisterPhase, a: AuthAction<RegisterError>) -> bool {
    match e {
        AuthEvent::Failed(err) => t is Finished && a == (AuthAction::<RegisterError>::Finish {
            result: Err(RegisterError::Repo(err)),
        }),
        AuthEvent::UserFound(found) => match found {
            Some(_) => t is Finished && a == (AuthAction::Finish {
                result: Err(RegisterError::EmailTaken { email }),
            }),
            None => t is DrawingUserId && a is DrawId,
        },
        AuthEvent::IdDrawn(raw) => match s {
            RegisterPhase::DrawingUserId => match spec_validated(raw@, CaseMap::Keep, 64) {
                Err(err) => {
                    &&& t is Finished
                    &&& a matches AuthAction::Finish {
                        result: Err(RegisterError::Repo(RepoError::Corrupt(m))),
                    }
                    &&& m@ == garbage_user_id_message(err)
                },
                Ok(v) => t matches RegisterPhase::Hashing { id } && id@ == v && a is HashPassword,
            },
            RegisterPhase::DrawingToken { user } => match spec_validated(raw@, CaseMap::Keep, 128) {
                Err(err) => {
                    &&& t is Finished
                    &&& a matches AuthAction::Finish {
                        result: Err(RegisterError::Repo(RepoError::Corrupt(m))),
                    }
                    &&& m@ == invalid_token_message(err)
                },
                Ok(v) => {
                    &&& t matches RegisterPhase::CreatingSession { user: u, token }
                    &&& u == user
                    &&& token@ == v
                    &&& a == (AuthAction::<RegisterError>::CreateSession { token, user_id: user.id })
                },
            },
            _ => false,
        },
        AuthEvent::Hashed(hash) => match s {
            RegisterPhase::Hashing { id } => t == (RegisterPhase::ReadingClock { id, hash })
                && a is ReadClock,
            _ => false,
        },
        AuthEvent::ClockRead(time) => match s {
            RegisterPhase::ReadingClock { id, hash } => {
                let user = User { id, email, password_hash: hash, created_at: time };
                t == (RegisterPhase::Inserting { user }) && a == (AuthAction::<RegisterError>::InsertUser { user })
            },
            _ => false,
        },
        AuthEvent::Written => match s {
            RegisterPhase::Inserting { user } => t == (RegisterPhase::DrawingToken { user }) && a is DrawId,
            RegisterPhase::CreatingSession { user, token } => t is Finished && a == (
            AuthAction::<RegisterError>::Finish { result: Ok(session_for(user, token)) }),
            _ => false,
        },
        AuthEvent::Verified(_) => false,
    }
}

impl Registration {
    pub closed spec fn email(self) -> Email {
        self.email
    }

    pub closed spec fn phase(self) -> RegisterPhase {
        self.phase
    }

    /// Starts a registration: the first effect is looking the email up.
    pub fn start(email: Email) -> (r: (Registration, AuthAction<RegisterError>))
        ensures
            r.0.email() == email,
            r.0.phase() is LookingUp,
            r.1 == (AuthAction::<RegisterError>::FindUser { email }),
    {
        let find = AuthAction::FindUser { email: email.clone() };
        (Registration { email, phase: RegisterPhase::LookingUp }, find)
    }

    /// Whether `event` is one this registration waits for.
    pub fn awaits(&self, event: &AuthEvent) -> (b: bool)
        ensures
            b == register_awaits(self.phase(), *event),
    {
        match event {
            AuthEvent::Failed(_) => !matches!(self.phase, RegisterPhase::Finished),
            AuthEvent::UserFound(_) => matches!(self.phase, RegisterPhase::LookingUp),
            AuthEvent::IdDrawn(_) => matches!(
                self.phase,
                RegisterPhase::DrawingUserId | RegisterPhase::DrawingToken { .. }
            ),
            AuthEvent::Hashed(_) => matches!(self.phase, RegisterPhase::Hashing { .. }),
            AuthEvent::Verified(_) => false,
            AuthEvent::ClockRead(_) => matches!(self.phase, RegisterPhase::ReadingClock { .. }),
            AuthEvent::Written => matches!(
                self.phase,
                RegisterPhase::Inserting { .. } | RegisterPhase::CreatingSession { .. }
            ),
        }
    }

    /// Advances the registration by the result of the effect it asked for.
    pub fn step(self, event: AuthEvent) -> (r: (Registration, AuthAction<RegisterError>))
        requires
            register_awaits(self.phase(), event),
        ensures
            r.0.email() == self.email(),
            register_step(self.phase(), self.email(), event, r.0.phase(), r.1),
    {
        let Registration { email, phase } = self;
        match event {
            AuthEvent::Failed(err) => (
                Registration { email, phase: RegisterPhase::Finished },
                AuthAction::Finish { result: Err(RegisterError::Repo(err)) },
            ),
            AuthEvent::UserFound(found) => match found {
                Some(_) => {
                    let taken = RegisterError::EmailTaken { email: email.clone() };
                    (Registration { email, phase: RegisterPhase::Finished }, AuthAction::Finish { result: Err(taken) })
                },
                None => (Registration { email, phase: RegisterPhase::DrawingUserId }, AuthAction::DrawId),
            },
            AuthEvent::IdDrawn(raw) => match phase {
                RegisterPhase::DrawingUserId => match UserId::try_new(raw.as_str()) {
                    Err(e) => {
                        let mut m = string_of("id generator produced garbage: ");
                        push_str(&mut m, &UserId::error_message(e));
                        (
                            Registration { email, phase: RegisterPhase::Finished },
                            AuthAction::Finish { result: Err(RegisterError::Repo(RepoError::Corrupt(m))) },
                        )
                    },
                    Ok(id) => (Registration { email, phase: RegisterPhase::Hashing { id } }, AuthAction::HashPassword),
                },
                RegisterPhase::DrawingToken { user } => match SessionToken::try_new(raw.as_str()) {
                    Err(e) => {
                        let mut m = string_of("id generator produced an invalid token: ");
                        push_str(&mut m, &SessionToken::error_message(e));
                        (
                            Registration { email, phase: RegisterPhase::Finished },
                            AuthAction::Finish { result: Err(RegisterError::Repo(RepoError::Corrupt(m))) },
                        )
                    },
                    Ok(token) => {
                        let create = AuthAction::CreateSession { token: token.clone(), user_id: user.id.clone() };
                        (Registration { email, phase: RegisterPhase::CreatingSession { user, token } }, create)
                    },
                },
                _ => {
                    proof {
                        assert(false);
                    }
                    (Registration { email, phase: RegisterPhase::Finished }, AuthAction::DrawId)
                },
            },
            AuthEvent::Hashed(hash) => match phase {
                RegisterPhase::Hashing { id } => (
                    Registration { email, phase: RegisterPhase::ReadingClock { id, hash } },
                    AuthAction::ReadClock,
                ),
                _ => {
                    proof {
                        assert(false);
                    }
                    (Registration { email, phase: RegisterPhase::Finished }, AuthAction::DrawId)
                },
            },
            AuthEvent::ClockRead(time) => match phase {
                RegisterPhase::ReadingClock { id, hash } => {
                    let user = User { id, email: email.clone(), password_hash: hash, created_at: time };
                    let insert = AuthAction::InsertUser { user: user.clone() };
                    (Registration { email, phase: RegisterPhase::Inserting { user } }, insert)
                },
                _ => {
                    proof {
                        assert(false);
                    }
                    (Registration { email, phase: RegisterPhase::Finished }, AuthAction::DrawId)
                },
            },
            AuthEvent::Written => match phase {
                RegisterPhase::Inserting { user } => (
                    Registration { email, phase: RegisterPhase::DrawingToken { user } },
                    AuthAction::DrawId,
                ),
                RegisterPhase::CreatingSession { user, token } => {
                    let session = AuthSession { token, user_id: user.id, email: user.email };
                    (Registration { email, phase: RegisterPhase::Finished }, AuthAction::Finish { result: Ok(session) })
                },
                _ => {
                    proof {
                        assert(false);
                    }
                    (Registration { email, phase: RegisterPhase::Finished }, AuthAction::DrawId)
                },
            },
            AuthEvent::Verified(_) => {
                proof {
                    assert(false);
                }
                (Registration { email, phase: RegisterPhase::Finished }, AuthAction::DrawId)
            },
        }
    }
}

// ---------------------------------------------------------------------------
// Login
// ---------------------------------------------------------------------------

/// Where a login stands.
pub enum LoginPhase {
    /// Waiting for the user with the email, if any.
    LookingUp,
    /// Waiting to learn whether the password matches the user's stored hash.
    Verifying { user: User },
    /// Waiting for a session token.
    DrawingToken { user: User },
    /// Waiting for the session to be written.
    CreatingSession { user: User, token: SessionToken },
    Finished,
}

/// A login in progress: find the user, check the password, open a session.
pub struct Login {
    email: Email,
    phase: LoginPhase,
}

pub open spec fn login_awaits(phase: LoginPhase, event: AuthEvent) -> bool {
    match event {
        AuthEvent::Failed(_) => !(phase is Finished),
        AuthEvent::UserFound(_) => phase is LookingUp,
        AuthEvent::Verified(_) => phase is Verifying,
        AuthEvent::IdDrawn(_) => phase is DrawingToken,
        AuthEvent::Written => phase is CreatingSession,
        _ => false,
    }
}

/// One step of a login: from phase `s` and event `e` to phase `t` and action `a`.
pub open spec fn login_step(s: LoginPhase, e: AuthEvent, t: LoginPhase, a: AuthAction<LoginError>) -> bool {
    match e {
        AuthEvent::Failed(err) => t is Finished && a == (AuthAction::<LoginError>::Finish {
            result: Err(LoginError::Repo(err)),
        }),
        AuthEvent::UserFound(found) => match found {
            None => t is Finished && a == (AuthAction::<LoginError>::Finish {
                result: Err(LoginError::InvalidCredentials),
            }),
            Some(user) => t == (LoginPhase::Verifying { user }) && a == (
            AuthAction::<LoginError>::VerifyPassword { stored: user.password_hash }),
        },
        AuthEvent::Verified(ok) => match s {
            LoginPhase::Verifying { user } => if ok {
                t == (LoginPhase::DrawingToken { user }) && a is DrawId
            } else {
                t is Finished && a == (AuthAction::<LoginError>::Finish {
                    result: Err(LoginError::InvalidCredentials),
                })
            },
            _ => false,
        },
        AuthEvent::IdDrawn(raw) => match s {
            LoginPhase::DrawingToken { user } => match spec_validated(raw@, CaseMap::Keep, 128) {
                Err(err) => {
                    &&& t is Finished
                    &&& a matches AuthAction::Finish {
                        result: Err(LoginError::Repo(RepoError::Corrupt(m))),
                    }
                    &&& m@ == invalid_token_message(err)
                },
                Ok(v) => {
                    &&& t matches LoginPhase::CreatingSession { user: u, token }
                    &&& u == user
                    &&& token@ == v
                    &&& a == (AuthAction::<LoginError>::CreateSession { token, user_id: user.id })
                },
            },
            _ => false,
        },
        AuthEvent::Written => match s {
            LoginPhase::CreatingSession { user, token } => t is Finished && a == (
            AuthAction::<LoginError>::Finish { result: Ok(session_for(user, token)) }),
            _ => false,
        },
        _ => false,
    }
}

impl Login {
    pub closed spec fn email(self) -> Email {
        self.email
    }

    pub closed spec fn phase(self) -> LoginPhase {
        self.phase
    }

    /// Starts a login: the first effect is looking the email up.
    pub fn start(email: Email) -> (r: (Login, AuthAction<LoginError>))
        ensures
            r.0.email() == email,
            r.0.phase() is LookingUp,
            r.1 == (AuthAction::<LoginError>::FindUser { email }),
    {
        let find = AuthAction::FindUser { email: email.clone() };
        (Login { email, phase: LoginPhase::LookingUp }, find)
    }

    /// Whether `event` is one this login waits for.
    pub fn awaits(&self, event: &AuthEvent) -> (b: bool)
        ensures
            b == login_awaits(self.phase(), *event),
    {
        match event {
            AuthEvent::Failed(_) => !matches!(self.phase, LoginPhase::Finished),
            AuthEvent::UserFound(_) => matches!(self.phase, LoginPhase::LookingUp),
            AuthEvent::Verified(_) => matches!(self.phase, LoginPhase::Verifying { .. }),
            AuthEvent::IdDrawn(_) => matches!(self.phase, LoginPhase::DrawingToken { .. }),
            AuthEvent::Written => matches!(self.phase, LoginPhase::CreatingSession { .. }),
            _ => false,
        }
    }

    /// Advances the login by the result of the effect it asked for.
    pub fn step(self, event: AuthEvent) -> (r: (Login, AuthAction<LoginError>))
        requires
            login_awaits(self.phase(), event),
        ensures
            r.0.email() == self.email(),
            login_step(self.phase(), event, r.0.phase(), r.1),
    {
        let Login { email, phase } = self;
        match event {
            AuthEvent::Failed(err) => (
                Login { email, phase: LoginPhase::Finished },
                AuthAction::Finish { result: Err(LoginError::Repo(err)) },
            ),
            AuthEvent::UserFound(found) => match found {
                None => (
                    Login { email, phase: LoginPhase::Finished },
                    AuthAction::Finish { result: Err(LoginError::InvalidCredentials) },
                ),
                Some(user) => {
                    let verify = AuthAction::VerifyPassword { stored: user.password_hash.clone() };
                    (Login { email, phase: LoginPhase::Verifying { user } }, verify)
                },
            },
            AuthEvent::Verified(ok) => match phase {
                LoginPhase::Verifying { user } => {
                    if ok {
                        (Login { email, phase: LoginPhase::DrawingToken { user } }, AuthAction::DrawId)
                    } else {
                        (
                            Login { email, phase: LoginPhase::Finished },
                            AuthAction::Finish { result: Err(LoginError::InvalidCredentials) },
                        )
                    }
                },
                _ => {
                    proof {
                        assert(false);
                    }
                    (Login { email, phase: LoginPhase::Finished }, AuthAction::DrawId)
                },
            },
            AuthEvent::IdDrawn(raw) => match phase {
                LoginPhase::DrawingToken { user } => match SessionToken::try_new(raw.as_str()) {
                    Err(e) => {
                        let mut m = string_of("id generator produced an invalid token: ");
                        push_str(&mut m, &SessionToken::error_message(e));
                        (
                            Login { email, phase: LoginPhase::Finished },
                            AuthAction::Finish { result: Err(LoginError::Repo(RepoError::Corrupt(m))) },
                        )
                    },
                    Ok(token) => {
                        let create = AuthAction::CreateSession { token: token.clone(), user_id: user.id.clone() };
                        (Login { email, phase: LoginPhase::CreatingSession { user, token } }, create)
                    },
                },
                _ => {
                    proof {
                        assert(false);
                    }
                    (Login { email, phase: LoginPhase::Finished }, AuthAction::DrawId)
                },
            },
            AuthEvent::Written => match phase {
                LoginPhase::CreatingSession { user, token } => {
                    let session = AuthSession { token, user_id: user.id, email: user.email };
                    (Login { email, phase: LoginPhase::Finished }, AuthAction::Finish { result: Ok(session) })
                },
                _ => {
                    proof {
                        assert(false);
                    }
                    (Login { email, phase: LoginPhase::Finished }, AuthAction::DrawId)
                },
            },
            _ => {
                proof {
                    assert(false);
                }
                (Login { email, phase: LoginPhase::Finished }, AuthAction::DrawId)
            },
        }
    }
}

/// Law: an unknown email and a wrong password end a login the same way, with the
/// same error, so the answer does not tell which of the two it was.
pub proof fn law_unknown_email_and_wrong_password_look_alike(
    user: User,
    t1: LoginPhase,
    a1: AuthAction<LoginError>,
    t2: LoginPhase,
    a2: AuthAction<LoginError>,
)
    requires
        login_step(LoginPhase::LookingUp, AuthEvent::UserFound(None), t1, a1),
        login_step(LoginPhase::Verifying { user }, AuthEvent::Verified(false), t2, a2),
    ensures
        a1 == a2,
        t1 is Finished && t2 is Finished,
        a1 == (AuthAction::<LoginError>::Finish { result: Err(LoginError::InvalidCredentials) }),
{
}

/// Law: a user whose stored hash was made from a password by the hasher logs in
/// with that password: the login checks the password against exactly that stored
/// hash, the hasher accepts it, and the login goes on to open a session.
pub proof fn law_registered_password_logs_in(
    hasher: ScryptHasher,
    password: Seq<u8>,
    user: User,
    t1: LoginPhase,
    a1: AuthAction<LoginError>,
    t2: LoginPhase,
    a2: AuthAction<LoginError>,
)
    requires
        exists|salt: Seq<u8>| #[trigger] spec_hash_text(salt, hasher.derive(password, salt)) == user.password_hash@,
        login_step(LoginPhase::LookingUp, AuthEvent::UserFound(Some(user)), t1, a1),
        login_step(t1, AuthEvent::Verified(true), t2, a2),
    ensures
        a1 == (AuthAction::<LoginError>::VerifyPassword { stored: user.password_hash }),
        hasher.check(password, user.password_hash@) == Ok::<bool, Seq<char>>(true),
        t2 == (LoginPhase::DrawingToken { user }),
        a2 is DrawId,
{
    crate::hasher::law_a_stored_hash_accepts_its_password(hasher, password, user.password_hash@);
}

/// Law: a registration whose email is already taken ends right away with
/// `EmailTaken` for that email, before any id is drawn or anything is written.
pub proof fn law_taken_email_is_refused(email: Email, user: User, t: RegisterPhase, a: AuthAction<RegisterError>)
    requires
        register_step(RegisterPhase::LookingUp, email, AuthEvent::UserFound(Some(user)), t, a),
    ensures
        t is Finished,
        a == (AuthAction::<RegisterError>::Finish { result: Err(RegisterError::EmailTaken { email }) }),
{
}


// ---------------------------------------------------------------------------
// Runs
// ---------------------------------------------------------------------------

/// How far a registration has come; every step moves it strictly further.
pub open spec fn register_rank(p: RegisterPhase) -> int {
    match p {
        RegisterPhase::LookingUp => 0,
        RegisterPhase::DrawingUserId => 1,
        RegisterPhase::Hashing { .. } => 2,
        RegisterPhase::ReadingClock { .. } => 3,
        RegisterPhase::Inserting { .. } => 4,
        RegisterPhase::DrawingToken { .. } => 5,
        RegisterPhase::CreatingSession { .. } => 6,
        RegisterPhase::Finished => 7,
    }
}

/// A run of a registration for `email`: it starts by looking the email up, and
/// every event is one the phase waits for and moves `phases[i]` to `phases[i + 1]`,
/// asking for `actions[i + 1]`.
pub open spec fn register_run(
    email: Email,
    phases: Seq<RegisterPhase>,
    events: Seq<AuthEvent>,
    actions: Seq<AuthAction<RegisterError>>,
) -> bool {
    &&& phases.len() == events.len() + 1
    &&& actions.len() == events.len() + 1
    &&& phases[0] is LookingUp
    &&& actions[0] == (AuthAction::<RegisterError>::FindUser { email })
    &&& forall|i: int|
        0 <= i < events.len() ==> {
            &&& register_awaits(phases[i], #[trigger] events[i])
            &&& register_step(phases[i], email, events[i], phases[i + 1], actions[i + 1])
        }
}

/// A run of a login for `email`, in the same sense.
pub open spec fn login_run(
    email: Email,
    phases: Seq<LoginPhase>,
    events: Seq<AuthEvent>,
    actions: Seq<AuthAction<LoginError>>,
) -> bool {
    &&& phases.len() == events.len() + 1
    &&& actions.len() == events.len() + 1
    &&& phases[0] is LookingUp
    &&& actions[0] == (AuthAction::<LoginError>::FindUser { email })
    &&& forall|i: int|
        0 <= i < events.len() ==> {
            &&& login_awaits(phases[i], #[trigger] events[i])
            &&& login_step(phases[i], events[i], phases[i + 1], actions[i + 1])
        }
}

proof fn lemma_register_rank_grows(
    email: Email,
    phases: Seq<RegisterPhase>,
    events: Seq<AuthEvent>,
    actions: Seq<AuthAction<RegisterError>>,
    a: int,
    b: int,
)
    requires
        register_run(email, phases, events, actions),
        0 <= a < b <= events.len(),
    ensures
        register_rank(phases[a]) < register_rank(phases[b]),
    decreases b - a,
{
    let k = b - 1;
    assert(register_awaits(phases[k], events[k]));
    assert(register_step(phases[k], email, events[k], phases[k + 1], actions[k + 1]));
    if a < k {
        lemma_register_rank_grows(email, phases, events, actions, a, k);
    }
}

/// What holds at each point of a registration run: the user it holds carries the
/// email it started with and a hash that a `Hashed` event delivered, and was held
/// by the phase that wrote it.
pub open spec fn register_invariant(
    email: Email,
    phases: Seq<RegisterPhase>,
    events: Seq<AuthEvent>,
    actions: Seq<AuthAction<RegisterError>>,
    m: int,
) -> bool {
    match phases[m] {
        RegisterPhase::ReadingClock { id, hash } => exists|j: int|
            0 <= j < m && #[trigger] events[j] == AuthEvent::Hashed(hash),
        RegisterPhase::Inserting { user } => {
            &&& user.email == email
            &&& exists|j: int| 0 <= j < m && #[trigger] events[j] == AuthEvent::Hashed(user.password_hash)
            &&& actions[m] == (AuthAction::<RegisterError>::InsertUser { user })
        },
        RegisterPhase::DrawingToken { user } => exists|k: int|
            0 <= k < m && #[trigger] phases[k] == (RegisterPhase::Inserting { user }),
        RegisterPhase::CreatingSession { user, token } => exists|k: int|
            0 <= k < m && #[trigger] phases[k] == (RegisterPhase::Inserting { user }),
        _ => true,
    }
}

proof fn lemma_register_invariant(
    email: Email,
    phases: Seq<RegisterPhase>,
    events: Seq<AuthEvent>,
    actions: Seq<AuthAction<RegisterError>>,
    m: int,
)
    requires
        register_run(email, phases, events, actions),
        0 <= m <= events.len(),
    ensures
        register_invariant(email, phases, events, actions, m),
    decreases m,
{
    if m > 0 {
        let k = m - 1;
        lemma_register_invariant(email, phases, events, actions, k);
        assert(register_awaits(phases[k], events[k]));
        assert(register_step(phases[k], email, events[k], phases[k + 1], actions[k + 1]));
        match phases[k] {
            RegisterPhase::ReadingClock { id, hash } => {
                let j = choose|j: int| 0 <= j < k && #[trigger] events[j] == AuthEvent::Hashed(hash);
                assert(events[j] == AuthEvent::Hashed(hash));
            },
            RegisterPhase::Inserting { user } => {
                assert(phases[k] == (RegisterPhase::Inserting { user }));
            },
            RegisterPhase::DrawingToken { user } => {
                let j = choose|j: int| 0 <= j < k && #[trigger] phases[j] == (RegisterPhase::Inserting { user });
                assert(phases[j] == (RegisterPhase::Inserting { user }));
            },
            RegisterPhase::Hashing { id } => {
                if events[k] is Hashed {
                    assert(events[k] == AuthEvent::Hashed(events[k]->Hashed_0));
                }
            },
            _ => {},
        }
    }
}

/// Law: register, then log in. A registration that finished with a session wrote
/// one user, with the email it started with and a hash the hasher made from the
/// password. A login for that email, whose look-up gives back that written user,
/// whose password check gets the hasher's answer, and whose token and session
/// write go through, ends with a session for the same user and email.
pub proof fn law_register_then_login_round_trips(
    hasher: ScryptHasher,
    password: Seq<u8>,
    email: Email,
    rp: Seq<RegisterPhase>,
    re: Seq<AuthEvent>,
    ra: Seq<AuthAction<RegisterError>>,
    i: int,
    k: int,
    u: User,
    s0: AuthSession,
    lp: Seq<LoginPhase>,
    le: Seq<AuthEvent>,
    la: Seq<AuthAction<LoginError>>,
)
    requires
        register_run(email, rp, re, ra),
        0 <= i <= re.len(),
        ra[i] == (AuthAction::<RegisterError>::Finish { result: Ok(s0) }),
        0 <= k <= re.len(),
        ra[k] == (AuthAction::<RegisterError>::InsertUser { user: u }),
        forall|j: int|
            0 <= j < re.len() && (#[trigger] re[j]) is Hashed ==> exists|salt: Seq<u8>|
                #[trigger] spec_hash_text(salt, hasher.derive(password, salt)) == re[j]->Hashed_0@,
        login_run(email, lp, le, la),
        le.len() == 4,
        le[0] == AuthEvent::UserFound(Some(u)),
        hasher.check(password, u.password_hash@) matches Ok(b) ==> le[1] == AuthEvent::Verified(b),
        le[2] matches AuthEvent::IdDrawn(raw) && spec_validated(raw@, CaseMap::Keep, 128) is Ok,
        le[3] == AuthEvent::Written,
    ensures
        u.email == email,
        s0.user_id == u.id,
        s0.email == email,
        la[4] matches AuthAction::Finish { result: Ok(s) } && s.user_id == s0.user_id && s.email
            == s0.email,
{
    // The registration side.
    assert(ra[0] is FindUser);
    let kk = k - 1;
    assert(register_step(rp[kk], email, re[kk], rp[kk + 1], ra[kk + 1]));
    lemma_register_invariant(email, rp, re, ra, k);
    assert(rp[k] == (RegisterPhase::Inserting { user: u }));
    let ii = i - 1;
    assert(register_step(rp[ii], email, re[ii], rp[ii + 1], ra[ii + 1]));
    lemma_register_invariant(email, rp, re, ra, ii);
    if let RegisterPhase::CreatingSession { user, token } = rp[ii] {
        let k2 = choose|k2: int| 0 <= k2 < ii && #[trigger] rp[k2] == (RegisterPhase::Inserting { user });
        assert(rp[k2] == (RegisterPhase::Inserting { user }));
        if k2 < k {
            lemma_register_rank_grows(email, rp, re, ra, k2, k);
        } else if k < k2 {
            lemma_register_rank_grows(email, rp, re, ra, k, k2);
        }
        assert(user == u);
    }
    // The hash the user carries came from a `Hashed` event, so the hasher made it.
    let j = choose|j: int| 0 <= j < k && #[trigger] re[j] == AuthEvent::Hashed(u.password_hash);
    assert(re[j] == AuthEvent::Hashed(u.password_hash));
    crate::hasher::law_a_stored_hash_accepts_its_password(hasher, password, u.password_hash@);
    // The login side.
    assert(login_awaits(lp[0], le[0]) && login_step(lp[0], le[0], lp[1], la[1]));
    assert(login_awaits(lp[1], le[1]) && login_step(lp[1], le[1], lp[2], la[2]));
    assert(login_awaits(lp[2], le[2]) && login_step(lp[2], le[2], lp[3], la[3]));
    assert(login_awaits(lp[3], le[3]) && login_step(lp[3], le[3], lp[4], la[4]));
}

} // verus!
