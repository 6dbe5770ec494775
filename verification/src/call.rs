//! One call of the upstream, from the first credential to the result: what to do next, given
//! what has happened.
//!
//! A call never does anything itself. It hands out an [`Action`], is told by an [`Event`] what
//! came of it, and hands out the next one, until the call has succeeded or failed.
use crate::body;
use crate::error::CallKind;
use crate::error::ProviderError;
use crate::request;
use crate::text;
use crate::timing::TimeSpan;
use std::collections::HashSet;
use vstd::pervasive::unreached;
use vstd::prelude::*;

verus! {

/// How often a credential may be tried again. A call has this many attempts for each credential
/// there is, up to [`MAX_TOTAL_RETRIES`]. Nothing counts the attempts of a single credential: that
/// none is tried again more often rests on the total, which is one more than this.
pub const MAX_RETRIES_PER_CREDENTIAL: usize = 2;

/// How many attempts a call makes at most, whatever the number of credentials.
pub const MAX_TOTAL_RETRIES: usize = 3;

// ---------------------------------------------------------------------------------------------
// Responses
// ---------------------------------------------------------------------------------------------

/// What a response means for the call.
#[derive(Clone, Copy, Debug, PartialEq, Eq, Structural)]
pub enum Disposition {
    /// The request was served.
    Success,
    /// The credential has used up its monthly quota.
    QuotaExhausted,
    /// The request is at fault; another credential would not help.
    BadRequest,
    /// The credential is not accepted.
    CredentialRefused,
    /// The credential has sent too much for the moment.
    RateLimited,
    /// The upstream is in trouble for the moment.
    Transient,
    /// Some other fault of the request or of the configuration.
    ClientError,
    /// Anything else.
    Unknown,
}

/// The meaning of a status code; `monthly_limit` says whether the body speaks of the monthly
/// quota.
pub open spec fn disposition(status: u16, monthly_limit: bool) -> Disposition {
    if 200 <= status < 300 {
        Disposition::Success
    } else if status == 402 && monthly_limit {
        Disposition::QuotaExhausted
    } else if status == 400 {
        Disposition::BadRequest
    } else if status == 401 || status == 403 {
        Disposition::CredentialRefused
    } else if status == 429 {
        Disposition::RateLimited
    } else if status == 408 || 500 <= status < 600 {
        Disposition::Transient
    } else if 400 <= status < 500 {
        Disposition::ClientError
    } else {
        Disposition::Unknown
    }
}

/// Tells what a status code means.
pub fn classify(status: u16, monthly_limit: bool) -> (r: Disposition)
    ensures
        r == disposition(status, monthly_limit),
{
    if 200 <= status && status < 300 {
        Disposition::Success
    } else if status == 402 && monthly_limit {
        Disposition::QuotaExhausted
    } else if status == 400 {
        Disposition::BadRequest
    } else if status == 401 || status == 403 {
        Disposition::CredentialRefused
    } else if status == 429 {
        Disposition::RateLimited
    } else if status == 408 || (500 <= status && status < 600) {
        Disposition::Transient
    } else if 400 <= status && status < 500 {
        Disposition::ClientError
    } else {
        Disposition::Unknown
    }
}

// ---------------------------------------------------------------------------------------------
// Events, actions, stages
// ---------------------------------------------------------------------------------------------

/// The result of a request: the response, still unread, and the credential that it was sent with.
pub struct ApiCallResult<R> {
    pub response: R,
    pub credential_id: u64,
}

/// The result of a call of a tool: the response, still unread, and the credential that it was
/// sent with.
pub struct McpCallResult<R> {
    pub response: R,
    pub credential_id: u64,
}

/// Why a call failed: by an error from elsewhere, handed on as it came, or by the provider's own
/// judgement.
pub enum Failure<E> {
    Outside(E),
    Provider(ProviderError),
}

/// What to do next.
pub enum Action<R, E> {
    /// Take a credential.
    Acquire,
    /// Take a credential, if possible one that this user had before.
    AcquireForUser { user_id: Option<String> },
    /// Make the machine id for the credential.
    MakeMachineId { credential_id: u64 },
    /// Look up the endpoint for the credential.
    SelectEndpoint { credential_id: u64 },
    /// Bring the request body into the endpoint's form.
    TransformBody { credential_id: u64, body: String },
    /// Send the request.
    Send { credential_id: u64, body: String },
    /// Read the body of the response; with `ask_quota`, also ask the endpoint whether it speaks of
    /// the monthly quota, and with `ask_token`, whether it says that the access token is invalid.
    ReadBody { response: R, ask_quota: bool, ask_token: bool },
    /// Report that the credential has used up its quota; with `clear_balance`, also note that
    /// nothing is left of its balance.
    ReportQuotaExhausted { credential_id: u64, clear_balance: bool },
    /// Report a failure of the credential.
    ReportFailure { credential_id: u64 },
    /// Have the access token of the credential renewed before it is used again.
    InvalidateAccessToken { credential_id: u64 },
    /// Report to the circuit breaker that the model is unavailable.
    ReportModelUnavailable,
    /// Let the credential cool down: for this long, or for as long as is usual.
    SetCooldown { credential_id: u64, retry_after: Option<TimeSpan> },
    /// Wait, as long as is due after this attempt.
    Backoff { attempt: usize },
    /// Report the success of the credential, have its balance looked at, and return.
    FinishApi { api_result: ApiCallResult<R> },
    /// Report the success of the credential, and return.
    FinishMcp { mcp_result: McpCallResult<R> },
    /// Give up.
    Fail { failure: Failure<E> },
}

/// What came of an action.
pub enum Event<R, E> {
    /// This credential was taken.
    Acquired { credential_id: u64 },
    /// No credential could be taken.
    AcquireFailed { error: E },
    /// There is a machine id, or there is none.
    MachineId { found: bool },
    /// The endpoint was found.
    EndpointSelected,
    /// There is no endpoint with this name.
    EndpointUnknown { name: String },
    /// The request body in the endpoint's form.
    BodyTransformed { body: String },
    /// The request body could not be brought into the endpoint's form.
    TransformFailed { error: E },
    /// The response has begun.
    Responded { status: u16, retry_after: Option<TimeSpan>, response: R },
    /// The request could not be sent.
    SendFailed { error: E },
    /// The body of the response; whether it speaks of the monthly quota, and whether it says that
    /// the access token is invalid. What was not asked makes no difference.
    BodyRead { body: String, monthly_limit: bool, token_invalid: bool },
    /// The report was taken; some credential is left, or none is.
    Reported { any_available: bool },
    /// The circuit breaker was told; it has tripped, or it has not.
    BreakerTold { tripped: bool },
    /// It was done.
    Done,
}

/// What a call is waiting for.
pub enum Stage {
    Acquiring,
    Identifying { credential_id: u64 },
    Routing { credential_id: u64 },
    Transforming { credential_id: u64 },
    Sending { credential_id: u64, sent: String },
    Reading { credential_id: u64, sent: String, status: u16, retry_after: Option<TimeSpan> },
    Reporting { status: u16, body: String },
    Breaking { credential_id: u64, status: u16, body: String, retry_after: Option<TimeSpan> },
    Pausing,
    Finished,
}

/// The events that a call can be told of in a stage.
pub open spec fn fits<R, E>(stage: Stage, event: Event<R, E>) -> bool {
    match stage {
        Stage::Acquiring => event is Acquired || event is AcquireFailed,
        Stage::Identifying { .. } => event is MachineId,
        Stage::Routing { .. } => event is EndpointSelected || event is EndpointUnknown,
        Stage::Transforming { .. } => event is BodyTransformed || event is TransformFailed,
        Stage::Sending { .. } => event is SendFailed || (event matches Event::Responded {
            status,
            ..
        } && crate::error::is_status(status)),
        Stage::Reading { .. } => event is BodyRead,
        Stage::Reporting { .. } => event is Reported,
        Stage::Breaking { .. } => event is BreakerTold,
        Stage::Pausing => event is Done,
        Stage::Finished => false,
    }
}

// ---------------------------------------------------------------------------------------------
// The course of a call
// ---------------------------------------------------------------------------------------------

/// A call as it stands.
#[verifier::ext_equal]
pub ghost struct CallView<E> {
    /// What is being called.
    pub kind: CallKind,
    /// Whether messages may carry whole bodies.
    pub sensitive_logs: bool,
    /// The body to send.
    pub request_body: String,
    /// The user that it is sent for.
    pub user_id: Option<String>,
    /// How many attempts there are.
    pub max_attempts: usize,
    /// The attempt under way, counted from zero.
    pub attempt: usize,
    /// What went wrong last.
    pub last_error: Option<Failure<E>>,
    /// The credentials whose access token was renewed on account of this call.
    pub refreshed: Set<u64>,
    /// What the call is waiting for.
    pub stage: Stage,
}

/// The number of attempts for so many credentials.
pub open spec fn attempts_for(total_credentials: nat) -> nat {
    if total_credentials * MAX_RETRIES_PER_CREDENTIAL < MAX_TOTAL_RETRIES {
        total_credentials * MAX_RETRIES_PER_CREDENTIAL as nat
    } else {
        MAX_TOTAL_RETRIES as nat
    }
}

/// The view of an optional text.
pub open spec fn opt_text(s: Option<String>) -> Option<Seq<char>> {
    match s {
        Some(s) => Some(s@),
        None => None,
    }
}

/// A call before its first attempt.
pub open spec fn opening<E>(
    kind: CallKind,
    sensitive_logs: bool,
    request_body: String,
    user_id: Option<String>,
    total_credentials: usize,
) -> CallView<E> {
    CallView {
        kind,
        sensitive_logs,
        request_body,
        user_id,
        max_attempts: attempts_for(total_credentials as nat) as usize,
        attempt: 0,
        last_error: None,
        refreshed: Set::empty(),
        stage: Stage::Acquiring,
    }
}

impl<E> CallView<E> {
    /// There are at most as many attempts as there may be, one of them is under way until the
    /// call is finished, and status codes are such.
    pub open spec fn wf(self) -> bool {
        &&& self.max_attempts <= MAX_TOTAL_RETRIES
        &&& self.attempt <= self.max_attempts
        &&& !(self.stage is Finished) ==> self.attempt < self.max_attempts
        &&& match self.stage {
            Stage::Reading { status, .. } => crate::error::is_status(status) && !(disposition(
                status,
                false,
            ) is Success),
            Stage::Reporting { status, .. } => crate::error::is_status(status),
            Stage::Breaking { status, .. } => crate::error::is_status(status) && (disposition(
                status,
                false,
            ) is RateLimited || disposition(status, false) is Transient),
            _ => true,
        }
        &&& self.last_error matches Some(Failure::Provider(e)) ==> e.wf()
    }

    /// The call waits for something else.
    pub open spec fn at(self, stage: Stage) -> CallView<E> {
        CallView { stage, ..self }
    }

    /// The call with a new last error.
    pub open spec fn failing(self, failure: Failure<E>) -> CallView<E> {
        CallView { last_error: Some(failure), ..self }
    }

    /// The call after a refusal by the upstream.
    pub open spec fn refused(self, status: u16, body: String) -> CallView<E> {
        self.failing(Failure::Provider(ProviderError::Refused { kind: self.kind, status, body }))
    }

    /// The call ends with this error.
    pub open spec fn ends<R>(self, error: ProviderError) -> (CallView<E>, Action<R, E>) {
        (self.at(Stage::Finished), Action::Fail { failure: Failure::Provider(error) })
    }

    /// An attempt begins if one is left; otherwise the call fails with what went wrong last.
    pub open spec fn turn<R>(self) -> (CallView<E>, Action<R, E>) {
        if self.attempt < self.max_attempts {
            (
                self.at(Stage::Acquiring),
                if self.kind is Mcp {
                    Action::Acquire
                } else {
                    Action::AcquireForUser { user_id: self.user_id }
                },
            )
        } else {
            (
                CallView { last_error: None, stage: Stage::Finished, ..self },
                Action::Fail {
                    failure: match self.last_error {
                        Some(failure) => failure,
                        None => Failure::Provider(
                            ProviderError::AttemptsExhausted {
                                kind: self.kind,
                                max_attempts: self.max_attempts,
                            },
                        ),
                    },
                },
            )
        }
    }

    /// The attempt is over without a result; the next one is due at once.
    pub open spec fn next_attempt<R>(self) -> (CallView<E>, Action<R, E>) {
        CallView { attempt: (self.attempt + 1) as usize, ..self }.turn()
    }

    /// The attempt is over without a result; the next one is due after a wait. After the last
    /// attempt there is no wait.
    pub open spec fn next_attempt_later<R>(self) -> (CallView<E>, Action<R, E>) {
        if self.attempt + 1 < self.max_attempts {
            (self.at(Stage::Pausing), Action::Backoff { attempt: self.attempt })
        } else {
            self.next_attempt()
        }
    }

    /// The request goes out.
    pub open spec fn sending<R>(self, credential_id: u64, body: String) -> (
        CallView<E>,
        Action<R, E>,
    ) {
        (
            self.at(Stage::Sending { credential_id, sent: body }),
            Action::Send { credential_id, body },
        )
    }

    /// The credential cools down, and the next attempt is due.
    pub open spec fn cooling<R>(
        self,
        credential_id: u64,
        status: u16,
        body: String,
        retry_after: Option<TimeSpan>,
    ) -> (CallView<E>, Action<R, E>) {
        (
            self.refused(status, body).at(Stage::Pausing),
            Action::SetCooldown { credential_id, retry_after },
        )
    }

    /// What a malformed request ends with. A request that is too long is measured: a call of a
    /// tool by the body it was given, any other request by the body that was sent.
    pub open spec fn bad_request(self, sent: String, status: u16, body: String) -> ProviderError {
        let measured = if self.kind is Mcp {
            self.request_body
        } else {
            sent
        };
        if self.sensitive_logs {
            ProviderError::Refused { kind: self.kind, status, body }
        } else if body::input_too_long_body(body@) {
            ProviderError::InputTooLong {
                kind: self.kind,
                status,
                request_bytes: text::byte_len(measured@) as usize,
                estimated_tokens: request::estimated_tokens(measured@) as usize,
            }
        } else {
            ProviderError::BadRequest { kind: self.kind, status, body }
        }
    }

    /// The upstream refused the request and said why.
    pub open spec fn after_body<R>(
        self,
        credential_id: u64,
        sent: String,
        status: u16,
        retry_after: Option<TimeSpan>,
        body: String,
        monthly_limit: bool,
        token_invalid: bool,
    ) -> (CallView<E>, Action<R, E>) {
        let unavailable = body::marked(body@, "MODEL_TEMPORARILY_UNAVAILABLE"@);
        match disposition(status, monthly_limit) {
            Disposition::QuotaExhausted => (
                self.at(Stage::Reporting { status, body }),
                Action::ReportQuotaExhausted { credential_id, clear_balance: !(self.kind is Mcp) },
            ),
            Disposition::BadRequest => self.ends(self.bad_request(sent, status, body)),
            Disposition::CredentialRefused => if token_invalid && !self.refreshed.contains(
                credential_id,
            ) {
                (
                    CallView {
                        refreshed: self.refreshed.insert(credential_id),
                        ..self.refused(status, body).at(Stage::Pausing)
                    },
                    Action::InvalidateAccessToken { credential_id },
                )
            } else {
                (
                    self.at(Stage::Reporting { status, body }),
                    Action::ReportFailure { credential_id },
                )
            },
            Disposition::RateLimited => if unavailable {
                (
                    self.at(Stage::Breaking { credential_id, status, body, retry_after }),
                    Action::ReportModelUnavailable,
                )
            } else {
                self.cooling(credential_id, status, body, retry_after)
            },
            Disposition::Transient => if unavailable {
                (
                    self.at(Stage::Breaking { credential_id, status, body, retry_after }),
                    Action::ReportModelUnavailable,
                )
            } else {
                self.refused(status, body).next_attempt_later()
            },
            Disposition::ClientError => self.ends(
                ProviderError::Refused { kind: self.kind, status, body },
            ),
            _ => self.refused(status, body).next_attempt_later(),
        }
    }

    /// What follows from an event that fits the stage.
    pub open spec fn next<R>(self, event: Event<R, E>) -> (CallView<E>, Action<R, E>) {
        match (self.stage, event) {
            (Stage::Acquiring, Event::Acquired { credential_id }) => (
                self.at(Stage::Identifying { credential_id }),
                Action::MakeMachineId { credential_id },
            ),
            (Stage::Acquiring, Event::AcquireFailed { error }) => self.failing(
                Failure::Outside(error),
            ).next_attempt(),
            (Stage::Identifying { credential_id }, Event::MachineId { found }) => if found {
                (
                    self.at(Stage::Routing { credential_id }),
                    Action::SelectEndpoint { credential_id },
                )
            } else {
                self.ends(ProviderError::NoMachineId)
            },
            (Stage::Routing { credential_id }, Event::EndpointSelected) => (
                self.at(Stage::Transforming { credential_id }),
                Action::TransformBody { credential_id, body: self.request_body },
            ),
            (Stage::Routing { credential_id }, Event::EndpointUnknown { name }) => self.failing(
                Failure::Provider(ProviderError::UnknownEndpoint { name }),
            ).next_attempt(),
            (Stage::Transforming { credential_id }, Event::BodyTransformed { body }) =>
            self.sending(credential_id, body),
            (Stage::Transforming { credential_id }, Event::TransformFailed { error }) => if self.kind
                is Mcp {
                self.failing(Failure::Outside(error)).next_attempt()
            } else {
                self.sending(credential_id, self.request_body)
            },
            (
                Stage::Sending { credential_id, sent },
                Event::Responded { status, retry_after, response },
            ) => if disposition(status, false) is Success {
                (
                    self.at(Stage::Finished),
                    if self.kind is Mcp {
                        Action::FinishMcp { mcp_result: McpCallResult { response, credential_id } }
                    } else {
                        Action::FinishApi { api_result: ApiCallResult { response, credential_id } }
                    },
                )
            } else {
                (
                    self.at(Stage::Reading { credential_id, sent, status, retry_after }),
                    Action::ReadBody {
                        response,
                        ask_quota: disposition(status, true) is QuotaExhausted,
                        ask_token: disposition(status, false) is CredentialRefused,
                    },
                )
            },
            (Stage::Sending { .. }, Event::SendFailed { error }) => self.failing(
                Failure::Outside(error),
            ).next_attempt_later(),
            (
                Stage::Reading { credential_id, sent, status, retry_after },
                Event::BodyRead { body, monthly_limit, token_invalid },
            ) => self.after_body(
                credential_id,
                sent,
                status,
                retry_after,
                body,
                monthly_limit,
                token_invalid,
            ),
            (Stage::Reporting { status, body }, Event::Reported { any_available }) =>
            if any_available {
                self.refused(status, body).next_attempt()
            } else {
                self.ends(
                    ProviderError::CredentialsExhausted { kind: self.kind, status, body },
                )
            },
            (
                Stage::Breaking { credential_id, status, body, retry_after },
                Event::BreakerTold { tripped },
            ) => if tripped {
                self.ends(ProviderError::ModelUnavailable { kind: self.kind, status, body })
            } else if disposition(status, false) is RateLimited {
                self.cooling(credential_id, status, body, retry_after)
            } else {
                self.refused(status, body).next_attempt_later()
            },
            (Stage::Pausing, Event::Done) => self.next_attempt(),
            _ => arbitrary(),
        }
    }
}

/// What comes of the start of a call: no call without an available credential, and otherwise a
/// call that takes up its first attempt.
pub open spec fn begun<R, E>(
    kind: CallKind,
    sensitive_logs: bool,
    request_body: Seq<char>,
    user_id: Option<Seq<char>>,
    total_credentials: usize,
    available_credentials: usize,
    r: Result<(Call<E>, Action<R, E>), ProviderError>,
) -> bool {
    match r {
        Ok((call, action)) => {
            &&& available_credentials > 0
            &&& call@.request_body@ == request_body
            &&& opt_text(call@.user_id) == user_id
            &&& (call@, action) == opening::<E>(
                kind,
                sensitive_logs,
                call@.request_body,
                call@.user_id,
                total_credentials,
            ).turn::<R>()
            &&& call@.wf()
            &&& action matches Action::Fail { failure: Failure::Provider(e) } ==> e.wf()
        },
        Err(error) => available_credentials == 0 && error is NoCredentials,
    }
}

// ---------------------------------------------------------------------------------------------
// Calls
// ---------------------------------------------------------------------------------------------

/// A call under way.
pub struct Call<E> {
    kind: CallKind,
    sensitive_logs: bool,
    request_body: String,
    user_id: Option<String>,
    max_attempts: usize,
    attempt: usize,
    last_error: Option<Failure<E>>,
    forced_token_refresh: HashSet<u64>,
    stage: Stage,
}

impl<E> View for Call<E> {
    type V = CallView<E>;

    closed spec fn view(&self) -> CallView<E> {
        CallView {
            kind: self.kind,
            sensitive_logs: self.sensitive_logs,
            request_body: self.request_body,
            user_id: self.user_id,
            max_attempts: self.max_attempts,
            attempt: self.attempt,
            last_error: self.last_error,
            refreshed: self.forced_token_refresh@,
            stage: self.stage,
        }
    }
}

pub(crate) fn copied(s: &Option<String>) -> (r: Option<String>)
    ensures
        r == *s,
{
    match s {
        Some(s) => Some(s.clone()),
        None => None,
    }
}

/// The number of attempts for so many credentials.
pub fn max_attempts(total_credentials: usize) -> (r: usize)
    ensures
        r == attempts_for(total_credentials as nat),
{
    if total_credentials >= MAX_TOTAL_RETRIES {
        return MAX_TOTAL_RETRIES;
    }
    let n: usize = total_credentials * MAX_RETRIES_PER_CREDENTIAL;
    if n < MAX_TOTAL_RETRIES {
        n
    } else {
        MAX_TOTAL_RETRIES
    }
}

impl<E> Call<E> {
    /// Begins a call, with so many credentials in all and so many of them available. Without an
    /// available credential there is no call.
    pub fn start<R>(
        kind: CallKind,
        sensitive_logs: bool,
        request_body: &str,
        user_id: Option<&str>,
        total_credentials: usize,
        available_credentials: usize,
    ) -> (r: Result<(Call<E>, Action<R, E>), ProviderError>)
        ensures
            begun(
                kind,
                sensitive_logs,
                request_body@,
                body::opt_view(user_id),
                total_credentials,
                available_credentials,
                r,
            ),
    {
        if available_credentials == 0 {
            return Err(ProviderError::NoCredentials);
        }
        let user: Option<String> = match user_id {
            Some(user) => Some(user.to_string()),
            None => None,
        };
        let call: Call<E> = Call {
            kind,
            sensitive_logs,
            request_body: request_body.to_string(),
            user_id: user,
            max_attempts: max_attempts(total_credentials),
            attempt: 0,
            last_error: None,
            forced_token_refresh: HashSet::new(),
            stage: Stage::Acquiring,
        };
        proof {
            assert(call@ =~= opening::<E>(
                kind,
                sensitive_logs,
                call.request_body,
                call.user_id,
                total_credentials,
            ));
        }
        Ok(call.turn())
    }

    fn turn<R>(self) -> (r: (Call<E>, Action<R, E>))
        requires
            self@.max_attempts <= MAX_TOTAL_RETRIES,
            self@.attempt <= self@.max_attempts,
            self@.last_error matches Some(Failure::Provider(e)) ==> e.wf(),
        ensures
            (r.0@, r.1) == self@.turn::<R>(),
            r.0@.wf(),
            r.1 matches Action::Fail { failure: Failure::Provider(e) } ==> e.wf(),
    {
        if self.attempt < self.max_attempts {
            let action = match self.kind {
                CallKind::Mcp => Action::Acquire,
                _ => Action::AcquireForUser { user_id: copied(&self.user_id) },
            };
            (Call { stage: Stage::Acquiring, ..self }, action)
        } else {
            let kind = self.kind;
            let max_attempts = self.max_attempts;
            let failure = match self.last_error {
                Some(failure) => failure,
                None => Failure::Provider(ProviderError::AttemptsExhausted { kind, max_attempts }),
            };
            (Call { last_error: None, stage: Stage::Finished, ..self }, Action::Fail { failure })
        }
    }

    fn next_attempt<R>(self) -> (r: (Call<E>, Action<R, E>))
        requires
            self@.max_attempts <= MAX_TOTAL_RETRIES,
            self@.attempt < self@.max_attempts,
            self@.last_error matches Some(Failure::Provider(e)) ==> e.wf(),
        ensures
            (r.0@, r.1) == self@.next_attempt::<R>(),
            r.0@.wf(),
            r.1 matches Action::Fail { failure: Failure::Provider(e) } ==> e.wf(),
    {
        Call { attempt: self.attempt + 1, ..self }.turn()
    }

    fn next_attempt_later<R>(self) -> (r: (Call<E>, Action<R, E>))
        requires
            self@.max_attempts <= MAX_TOTAL_RETRIES,
            self@.attempt < self@.max_attempts,
            self@.last_error matches Some(Failure::Provider(e)) ==> e.wf(),
        ensures
            (r.0@, r.1) == self@.next_attempt_later::<R>(),
            r.0@.wf(),
            r.1 matches Action::Fail { failure: Failure::Provider(e) } ==> e.wf(),
    {
        if self.attempt + 1 < self.max_attempts {
            let attempt = self.attempt;
            (Call { stage: Stage::Pausing, ..self }, Action::Backoff { attempt })
        } else {
            self.next_attempt()
        }
    }

    fn at(self, stage: Stage) -> (r: Call<E>)
        ensures
            r@ == self@.at(stage),
    {
        Call { stage, ..self }
    }

    fn failing(self, failure: Failure<E>) -> (r: Call<E>)
        ensures
            r@ == self@.failing(failure),
    {
        Call { last_error: Some(failure), ..self }
    }

    fn refused(self, status: u16, body: String) -> (r: Call<E>)
        ensures
            r@ == self@.refused(status, body),
    {
        let kind = self.kind;
        self.failing(Failure::Provider(ProviderError::Refused { kind, status, body }))
    }

    fn ends<R>(self, error: ProviderError) -> (r: (Call<E>, Action<R, E>))
        ensures
            (r.0@, r.1) == self@.ends::<R>(error),
    {
        (self.at(Stage::Finished), Action::Fail { failure: Failure::Provider(error) })
    }

    fn sending<R>(self, credential_id: u64, body: String) -> (r: (Call<E>, Action<R, E>))
        ensures
            (r.0@, r.1) == self@.sending::<R>(credential_id, body),
    {
        let sent = body.clone();
        (self.at(Stage::Sending { credential_id, sent }), Action::Send { credential_id, body })
    }

    fn cooling<R>(
        self,
        credential_id: u64,
        status: u16,
        body: String,
        retry_after: Option<TimeSpan>,
    ) -> (r: (Call<E>, Action<R, E>))
        ensures
            (r.0@, r.1) == self@.cooling::<R>(credential_id, status, body, retry_after),
    {
        (
            self.refused(status, body).at(Stage::Pausing),
            Action::SetCooldown { credential_id, retry_after },
        )
    }

    fn bad_request(&self, sent: String, status: u16, body: String) -> (r: ProviderError)
        ensures
            r == self@.bad_request(sent, status, body),
    {
        let kind = self.kind;
        if self.sensitive_logs {
            ProviderError::Refused { kind, status, body }
        } else if body::is_input_too_long(body.as_str()) {
            let measured = match kind {
                CallKind::Mcp => self.request_body.as_str(),
                _ => sent.as_str(),
            };
            ProviderError::InputTooLong {
                kind,
                status,
                request_bytes: text::bytes_of(measured),
                estimated_tokens: request::estimate_tokens(measured),
            }
        } else {
            ProviderError::BadRequest { kind, status, body }
        }
    }

    fn after_body<R>(
        self,
        credential_id: u64,
        sent: String,
        status: u16,
        retry_after: Option<TimeSpan>,
        body: String,
        monthly_limit: bool,
        token_invalid: bool,
    ) -> (r: (Call<E>, Action<R, E>))
        requires
            self@.wf(),
            self@.attempt < self@.max_attempts,
            crate::error::is_status(status),
        ensures
            (r.0@, r.1) == self@.after_body::<R>(
                credential_id,
                sent,
                status,
                retry_after,
                body,
                monthly_limit,
                token_invalid,
            ),
            r.0@.wf(),
            r.1 matches Action::Fail { failure: Failure::Provider(e) } ==> e.wf(),
    {
        broadcast use vstd::std_specs::hash::group_hash_axioms;

        match classify(status, monthly_limit) {
            Disposition::QuotaExhausted => {
                let clear_balance = match self.kind {
                    CallKind::Mcp => false,
                    _ => true,
                };
                (
                    self.at(Stage::Reporting { status, body }),
                    Action::ReportQuotaExhausted { credential_id, clear_balance },
                )
            },
            Disposition::BadRequest => {
                let error = self.bad_request(sent, status, body);
                self.ends(error)
            },
            Disposition::CredentialRefused => {
                if token_invalid && !self.forced_token_refresh.contains(&credential_id) {
                    let mut call = self.refused(status, body).at(Stage::Pausing);
                    call.forced_token_refresh.insert(credential_id);
                    (call, Action::InvalidateAccessToken { credential_id })
                } else {
                    (
                        self.at(Stage::Reporting { status, body }),
                        Action::ReportFailure { credential_id },
                    )
                }
            },
            Disposition::RateLimited => {
                if body::is_model_temporarily_unavailable(body.as_str()) {
                    (
                        self.at(Stage::Breaking { credential_id, status, body, retry_after }),
                        Action::ReportModelUnavailable,
                    )
                } else {
                    self.cooling(credential_id, status, body, retry_after)
                }
            },
            Disposition::Transient => {
                if body::is_model_temporarily_unavailable(body.as_str()) {
                    (
                        self.at(Stage::Breaking { credential_id, status, body, retry_after }),
                        Action::ReportModelUnavailable,
                    )
                } else {
                    self.refused(status, body).next_attempt_later()
                }
            },
            Disposition::ClientError => {
                let kind = self.kind;
                self.ends(ProviderError::Refused { kind, status, body })
            },
            _ => self.refused(status, body).next_attempt_later(),
        }
    }

    /// Whether the call can be told of this event now.
    pub fn expects<R>(&self, event: &Event<R, E>) -> (r: bool)
        ensures
            r == fits(self@.stage, *event),
    {
        match (&self.stage, event) {
            (Stage::Acquiring, Event::Acquired { .. }) => true,
            (Stage::Acquiring, Event::AcquireFailed { .. }) => true,
            (Stage::Identifying { .. }, Event::MachineId { .. }) => true,
            (Stage::Routing { .. }, Event::EndpointSelected) => true,
            (Stage::Routing { .. }, Event::EndpointUnknown { .. }) => true,
            (Stage::Transforming { .. }, Event::BodyTransformed { .. }) => true,
            (Stage::Transforming { .. }, Event::TransformFailed { .. }) => true,
            (Stage::Sending { .. }, Event::SendFailed { .. }) => true,
            (Stage::Sending { .. }, Event::Responded { status, .. }) => 100 <= *status && *status
                <= 999,
            (Stage::Reading { .. }, Event::BodyRead { .. }) => true,
            (Stage::Reporting { .. }, Event::Reported { .. }) => true,
            (Stage::Breaking { .. }, Event::BreakerTold { .. }) => true,
            (Stage::Pausing, Event::Done) => true,
            _ => false,
        }
    }

    /// Takes the call one step further: it is told what came of the last action, and hands out
    /// the next one.
    pub fn step<R>(self, event: Event<R, E>) -> (r: (Call<E>, Action<R, E>))
        requires
            self@.wf(),
            fits(self@.stage, event),
        ensures
            (r.0@, r.1) == self@.next(event),
            r.0@.wf(),
            r.1 matches Action::Fail { failure: Failure::Provider(e) } ==> e.wf(),
    {
        let kind = self.kind;
        let mut call = self;
        let mut stage = Stage::Finished;
        std::mem::swap(&mut stage, &mut call.stage);
        assert(call@.at(stage) =~= self@);
        match (stage, event) {
            (Stage::Acquiring, Event::Acquired { credential_id }) => (
                call.at(Stage::Identifying { credential_id }),
                Action::MakeMachineId { credential_id },
            ),
            (Stage::Acquiring, Event::AcquireFailed { error }) => call.failing(
                Failure::Outside(error),
            ).next_attempt(),
            (Stage::Identifying { credential_id }, Event::MachineId { found }) => if found {
                (
                    call.at(Stage::Routing { credential_id }),
                    Action::SelectEndpoint { credential_id },
                )
            } else {
                call.ends(ProviderError::NoMachineId)
            },
            (Stage::Routing { credential_id }, Event::EndpointSelected) => {
                let body = call.request_body.clone();
                (
                    call.at(Stage::Transforming { credential_id }),
                    Action::TransformBody { credential_id, body },
                )
            },
            (Stage::Routing { credential_id }, Event::EndpointUnknown { name }) => call.failing(
                Failure::Provider(ProviderError::UnknownEndpoint { name }),
            ).next_attempt(),
            (Stage::Transforming { credential_id }, Event::BodyTransformed { body }) =>
            call.sending(credential_id, body),
            (Stage::Transforming { credential_id }, Event::TransformFailed { error }) => match kind {
                CallKind::Mcp => call.failing(Failure::Outside(error)).next_attempt(),
                _ => {
                    let body = call.request_body.clone();
                    call.sending(credential_id, body)
                },
            },
            (
                Stage::Sending { credential_id, sent },
                Event::Responded { status, retry_after, response },
            ) => match classify(status, false) {
                Disposition::Success => (
                    call.at(Stage::Finished),
                    match kind {
                        CallKind::Mcp => Action::FinishMcp {
                            mcp_result: McpCallResult { response, credential_id },
                        },
                        _ => Action::FinishApi {
                            api_result: ApiCallResult { response, credential_id },
                        },
                    },
                ),
                _ => (
                    call.at(Stage::Reading { credential_id, sent, status, retry_after }),
                    Action::ReadBody {
                        response,
                        ask_quota: status == 402,
                        ask_token: status == 401 || status == 403,
                    },
                ),
            },
            (Stage::Sending { credential_id, sent }, Event::SendFailed { error }) => call.failing(
                Failure::Outside(error),
            ).next_attempt_later(),
            (
                Stage::Reading { credential_id, sent, status, retry_after },
                Event::BodyRead { body, monthly_limit, token_invalid },
            ) => call.after_body(
                credential_id,
                sent,
                status,
                retry_after,
                body,
                monthly_limit,
                token_invalid,
            ),
            (Stage::Reporting { status, body }, Event::Reported { any_available }) =>
            if any_available {
                call.refused(status, body).next_attempt()
            } else {
                call.ends(ProviderError::CredentialsExhausted { kind, status, body })
            },
            (
                Stage::Breaking { credential_id, status, body, retry_after },
                Event::BreakerTold { tripped },
            ) => if tripped {
                call.ends(ProviderError::ModelUnavailable { kind, status, body })
            } else {
                match classify(status, false) {
                    Disposition::RateLimited => call.cooling(
                        credential_id,
                        status,
                        body,
                        retry_after,
                    ),
                    _ => call.refused(status, body).next_attempt_later(),
                }
            },
            (Stage::Pausing, Event::Done) => call.next_attempt(),
            _ => unreached(),
        }
    }
}

// ---------------------------------------------------------------------------------------------
// What statuses and optional texts are for
// ---------------------------------------------------------------------------------------------

/// What each status code means, one by one.
pub proof fn law_statuses(status: u16, monthly_limit: bool)
    ensures
        disposition(status, monthly_limit) is Success <==> 200 <= status <= 299,
        disposition(status, monthly_limit) is BadRequest <==> status == 400,
        disposition(status, monthly_limit) is CredentialRefused <==> status == 401 || status == 403,
        disposition(status, monthly_limit) is QuotaExhausted <==> status == 402 && monthly_limit,
        disposition(status, monthly_limit) is RateLimited <==> status == 429,
        disposition(status, monthly_limit) is Transient <==> status == 408 || 500 <= status <= 599,
        disposition(status, monthly_limit) is ClientError <==> 402 <= status <= 499 && status != 403
            && status != 408 && status != 429 && !(status == 402 && monthly_limit),
        disposition(status, monthly_limit) is Unknown <==> status <= 199 || 300 <= status <= 399
            || status >= 600,
{
}

/// An optional text is there with all its characters, an empty one too, or is not there.
pub proof fn law_optional_texts(owned: String, borrowed: &str)
    ensures
        opt_text(Some(owned)) == Some(owned@),
        opt_text(None) is None,
        body::opt_view(Some(borrowed)) == Some(borrowed@),
        body::opt_view(None) is None,
{
}

/// One credential has two attempts, and two or more have three together.
pub proof fn law_attempts(total_credentials: nat)
    ensures
        attempts_for(0) == 0,
        attempts_for(1) == 2,
        total_credentials >= 2 ==> attempts_for(total_credentials) == 3,
{
}

} // verus!
