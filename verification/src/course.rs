//! What a call does, as seen from outside: laws that say which action follows from what has
//! happened so far, in terms of the events and the actions alone.
use crate::call::Action;
use crate::call::ApiCallResult;
use crate::call::CallView;
use crate::call::Event;
use crate::call::Failure;
use crate::call::McpCallResult;
use crate::call::Stage;
use crate::error::CallKind;
use crate::error::ProviderError;
use crate::timing::TimeSpan;
use vstd::prelude::*;

verus! {

// ---------------------------------------------------------------------------------------------
// What has happened so far
// ---------------------------------------------------------------------------------------------

/// The response that came last: its status code, and how long it asks to wait.
pub open spec fn answered<R, E>(events: Seq<Event<R, E>>) -> Option<(u16, Option<TimeSpan>)>
    decreases events.len(),
{
    if events.len() == 0 {
        None
    } else {
        match events.last() {
            Event::Responded { status, retry_after, .. } => Some((status, retry_after)),
            _ => answered(events.drop_last()),
        }
    }
}

/// The body that was read last.
pub open spec fn told<R, E>(events: Seq<Event<R, E>>) -> Option<String>
    decreases events.len(),
{
    if events.len() == 0 {
        None
    } else {
        match events.last() {
            Event::BodyRead { body, .. } => Some(body),
            _ => told(events.drop_last()),
        }
    }
}

/// The body that was sent last.
pub open spec fn sent<R, E>(actions: Seq<Action<R, E>>) -> Option<String>
    decreases actions.len(),
{
    if actions.len() == 0 {
        None
    } else {
        match actions.last() {
            Action::Send { body, .. } => Some(body),
            _ => sent(actions.drop_last()),
        }
    }
}

/// Some credential is taken.
pub open spec fn takes<R, E>() -> spec_fn(Action<R, E>) -> bool {
    |a: Action<R, E>| a is Acquire || a is AcquireForUser
}

/// How many attempts have begun. The first one begins with the call.
pub open spec fn attempts_begun<R, E>(call: CallView<E>, events: Seq<Event<R, E>>) -> nat {
    1 + crate::trace::count(crate::trace::actions(call, events), takes())
}

/// The action takes a credential for this call: a tool takes any credential, and every other
/// request takes one for the user that the call was started for.
pub open spec fn takes_for<R, E>(call: CallView<E>, action: Action<R, E>) -> bool {
    if call.kind is Mcp {
        action is Acquire
    } else {
        action matches Action::AcquireForUser { user_id } && user_id == call.user_id
    }
}

/// The action that came last; the first one takes a credential.
pub open spec fn last_action<R, E>(call: CallView<E>, events: Seq<Event<R, E>>) -> Action<R, E> {
    if events.len() > 0 {
        crate::trace::actions(call, events).last()
    } else if call.kind is Mcp {
        Action::Acquire
    } else {
        Action::AcquireForUser { user_id: call.user_id }
    }
}

/// The action that follows when this event comes next.
pub open spec fn reply<R, E>(
    call: CallView<E>,
    events: Seq<Event<R, E>>,
    event: Event<R, E>,
) -> Action<R, E> {
    crate::trace::actions(call, events.push(event)).last()
}

/// This event can come next.
pub open spec fn can_follow<R, E>(
    call: CallView<E>,
    events: Seq<Event<R, E>>,
    event: Event<R, E>,
) -> bool {
    crate::trace::accepts(call, events.push(event))
}

/// After `begun` attempts the next one begins at once; after the last one the call fails.
pub open spec fn tries_again<R, E>(
    call: CallView<E>,
    begun: nat,
    action: Action<R, E>,
    failure: Failure<E>,
) -> bool {
    if begun < call.max_attempts {
        takes_for(call, action)
    } else {
        action == Action::<R, E>::Fail { failure }
    }
}

/// After `begun` attempts there is a wait before the next one; after the last one the call fails.
pub open spec fn tries_again_later<R, E>(
    call: CallView<E>,
    begun: nat,
    action: Action<R, E>,
    failure: Failure<E>,
) -> bool {
    if begun < call.max_attempts {
        action matches Action::Backoff { attempt } && attempt == begun - 1
    } else {
        action == Action::<R, E>::Fail { failure }
    }
}

/// The upstream's refusal, in these words.
pub open spec fn refusal<E>(call: CallView<E>, status: u16, body: String) -> Failure<E> {
    Failure::Provider(ProviderError::Refused { kind: call.kind, status, body })
}

// ---------------------------------------------------------------------------------------------
// How the state of a call follows from what has happened
// ---------------------------------------------------------------------------------------------

/// The state agrees with the events and the actions so far.
spec fn agrees<R, E>(
    call: CallView<E>,
    state: CallView<E>,
    taken: Option<u64>,
    answer: Option<(u16, Option<TimeSpan>)>,
    body_told: Option<String>,
    body_sent: Option<String>,
    begun: nat,
    last: Action<R, E>,
) -> bool {
    &&& state.kind == call.kind
    &&& state.sensitive_logs == call.sensitive_logs
    &&& state.request_body == call.request_body
    &&& state.user_id == call.user_id
    &&& state.max_attempts == call.max_attempts
    &&& begun <= call.max_attempts <= 3
    &&& !(state.stage is Finished) ==> state.attempt + 1 == begun
    &&& match state.stage {
        Stage::Acquiring => takes_for(call, last),
        Stage::Identifying { credential_id } => last is MakeMachineId && taken == Some(
            credential_id,
        ),
        Stage::Routing { credential_id } => last is SelectEndpoint && taken == Some(credential_id),
        Stage::Transforming { credential_id } => last is TransformBody && taken == Some(
            credential_id,
        ),
        Stage::Sending { credential_id, sent } => last is Send && taken == Some(credential_id)
            && body_sent == Some(sent),
        Stage::Reading { credential_id, sent, status, retry_after } => {
            &&& last is ReadBody
            &&& taken == Some(credential_id)
            &&& body_sent == Some(sent)
            &&& answer == Some((status, retry_after))
            &&& 100 <= status <= 999
            &&& !(200 <= status < 300)
        },
        Stage::Reporting { status, body } => {
            &&& last is ReportQuotaExhausted || last is ReportFailure
            &&& answer matches Some((said, _)) && said == status
            &&& body_told == Some(body)
        },
        Stage::Breaking { credential_id, status, body, retry_after } => {
            &&& last is ReportModelUnavailable
            &&& taken == Some(credential_id)
            &&& answer == Some((status, retry_after))
            &&& body_told == Some(body)
            &&& status == 429 || status == 408 || 500 <= status < 600
        },
        Stage::Pausing => {
            ||| last is Backoff && begun < call.max_attempts
            ||| {
                &&& last is SetCooldown || last is InvalidateAccessToken
                &&& answer matches Some((status, _))
                &&& body_told matches Some(body)
                &&& state.last_error == Some(refusal(call, status, body))
            }
        },
        Stage::Finished => last is FinishApi || last is FinishMcp || last is Fail,
    }
}

/// `then` if it is there, and otherwise `before`.
spec fn or_else<T>(then: Option<T>, before: Option<T>) -> Option<T> {
    if then is Some {
        then
    } else {
        before
    }
}

spec fn event_takes<R, E>(event: Event<R, E>) -> Option<u64> {
    match event {
        Event::Acquired { credential_id } => Some(credential_id),
        _ => None,
    }
}

spec fn event_answers<R, E>(event: Event<R, E>) -> Option<(u16, Option<TimeSpan>)> {
    match event {
        Event::Responded { status, retry_after, .. } => Some((status, retry_after)),
        _ => None,
    }
}

spec fn event_tells<R, E>(event: Event<R, E>) -> Option<String> {
    match event {
        Event::BodyRead { body, .. } => Some(body),
        _ => None,
    }
}

spec fn action_sends<R, E>(action: Action<R, E>) -> Option<String> {
    match action {
        Action::Send { body, .. } => Some(body),
        _ => None,
    }
}

proof fn lemma_step_agrees<R, E>(
    call: CallView<E>,
    state: CallView<E>,
    taken: Option<u64>,
    answer: Option<(u16, Option<TimeSpan>)>,
    body_told: Option<String>,
    body_sent: Option<String>,
    begun: nat,
    last: Action<R, E>,
    event: Event<R, E>,
)
    requires
        agrees(call, state, taken, answer, body_told, body_sent, begun, last),
        crate::call::fits(state.stage, event),
    ensures
        ({
            let (after, action) = state.next(event);
            agrees(
                call,
                after,
                or_else(event_takes(event), taken),
                or_else(event_answers(event), answer),
                or_else(event_tells(event), body_told),
                or_else(action_sends(action), body_sent),
                begun + if takes()(action) {
                    1nat
                } else {
                    0
                },
                action,
            )
        }),
{
}

proof fn lemma_agrees<R, E>(call: CallView<E>, events: Seq<Event<R, E>>)
    requires
        crate::trace::fresh(call),
        crate::trace::accepts(call, events),
    ensures
        agrees(
            call,
            crate::trace::run(call, events),
            crate::trace::taken(events),
            answered(events),
            told(events),
            sent(crate::trace::actions(call, events)),
            attempts_begun(call, events),
            last_action(call, events),
        ),
    decreases events.len(),
{
    if events.len() > 0 {
        let earlier = events.drop_last();
        let done = crate::trace::actions(call, earlier);
        let state = crate::trace::run(call, earlier);
        lemma_agrees(call, earlier);
        lemma_step_agrees(
            call,
            state,
            crate::trace::taken(earlier),
            answered(earlier),
            told(earlier),
            sent(done),
            attempts_begun(call, earlier),
            last_action(call, earlier),
            events.last(),
        );
        assert(crate::trace::actions(call, events).drop_last() =~= done);
    }
}

proof fn lemma_reply<R, E>(call: CallView<E>, events: Seq<Event<R, E>>, event: Event<R, E>)
    requires
        crate::trace::fresh(call),
        can_follow(call, events, event),
    ensures
        crate::trace::accepts(call, events),
        crate::call::fits(crate::trace::run(call, events).stage, event),
        reply(call, events, event) == crate::trace::run(call, events).next(event).1,
{
    assert(events.push(event).drop_last() =~= events);
}

// ---------------------------------------------------------------------------------------------
// Attempts
// ---------------------------------------------------------------------------------------------

/// A call begins only if a credential is available, and is then the one that was asked for: of
/// this kind, with this body and for this user. It has two attempts for each credential there is,
/// three at most, and begins the first one by taking a credential.
pub proof fn law_calls_begin_as_asked<R, E>(
    kind: CallKind,
    sensitive_logs: bool,
    request_body: Seq<char>,
    user_id: Option<Seq<char>>,
    total_credentials: usize,
    available_credentials: usize,
    r: Result<(crate::call::Call<E>, Action<R, E>), ProviderError>,
)
    requires
        crate::call::begun(
            kind,
            sensitive_logs,
            request_body,
            user_id,
            total_credentials,
            available_credentials,
            r,
        ),
    ensures
        r is Ok <==> available_credentials > 0,
        r matches Err(error) ==> error is NoCredentials,
        r matches Ok((call, action)) ==> {
            &&& call@.kind == kind
            &&& call@.sensitive_logs == sensitive_logs
            &&& call@.request_body@ == request_body
            &&& match (call@.user_id, user_id) {
                (Some(user), Some(given)) => user@ == given,
                (None, None) => true,
                _ => false,
            }
            &&& call@.max_attempts == if total_credentials == 0 {
                0int
            } else if total_credentials == 1 {
                2
            } else {
                3
            }
            &&& total_credentials > 0 ==> crate::trace::fresh(call@) && takes_for(call@, action)
            &&& total_credentials == 0 ==> action == (Action::<R, E>::Fail {
                failure: Failure::Provider(
                    ProviderError::AttemptsExhausted { kind, max_attempts: 0 },
                ),
            })
        },
{
}

/// Every attempt of a call takes its credential in the same way as the first: any credential for
/// a tool, and otherwise one for the user that the call was started for.
pub proof fn law_every_attempt_is_for_the_user<R, E>(
    call: CallView<E>,
    events: Seq<Event<R, E>>,
    i: int,
)
    requires
        crate::trace::fresh(call),
        crate::trace::accepts(call, events),
        0 <= i < crate::trace::actions(call, events).len(),
        takes::<R, E>()(crate::trace::actions(call, events)[i]),
    ensures
        takes_for(call, crate::trace::actions(call, events)[i]),
    decreases events.len(),
{
    let earlier = events.drop_last();
    let done = crate::trace::actions(call, earlier);
    assert(crate::trace::actions(call, events).drop_last() =~= done);
    if i < done.len() {
        assert(crate::trace::actions(call, events)[i] == done[i]);
        law_every_attempt_is_for_the_user(call, earlier, i);
    } else {
        lemma_agrees(call, earlier);
        lemma_agrees(call, events);
        assert(last_action(call, events) == crate::trace::actions(call, events)[i]);
    }
}

/// Attempts are used up one at a time: as long as a call is not finished, the number of the attempt
/// under way is the number of credentials that were asked for after the first, and there are never
/// more attempts than the call has.
pub proof fn law_attempts_are_used_one_by_one<R, E>(call: CallView<E>, events: Seq<Event<R, E>>)
    requires
        crate::trace::fresh(call),
        crate::trace::accepts(call, events),
    ensures
        !(crate::trace::run(call, events).stage is Finished) ==> crate::trace::run(
            call,
            events,
        ).attempt + 1 == attempts_begun(call, events),
        1 <= attempts_begun(call, events) <= call.max_attempts <= 3,
{
    lemma_agrees(call, events);
}

/// A call gives up early only for a reason that another attempt could not mend: there is no
/// machine id, the request is at fault, no credential is left, or the circuit breaker has tripped.
/// Otherwise it fails only once all its attempts have begun.
pub proof fn law_no_attempt_is_lost<R, E>(
    call: CallView<E>,
    events: Seq<Event<R, E>>,
    event: Event<R, E>,
)
    requires
        crate::trace::fresh(call),
        can_follow(call, events, event),
        reply(call, events, event) is Fail,
        attempts_begun(call, events) < call.max_attempts,
    ensures
        match event {
            Event::MachineId { found } => !found,
            Event::BodyRead { monthly_limit, .. } => answered(events) matches Some((status, _))
                && 400 <= status < 500 && status != 401 && status != 403 && status != 408 && status
                != 429 && !(status == 402 && monthly_limit),
            Event::Reported { any_available } => !any_available,
            Event::BreakerTold { tripped } => tripped,
            _ => false,
        },
{
    lemma_reply(call, events, event);
    lemma_agrees(call, events);
}

/// Which events can come after an action: those that say what came of it, and no others. A response
/// may have any status code of three digits. After the end of the call nothing can come.
pub proof fn law_what_can_follow<R, E>(
    call: CallView<E>,
    events: Seq<Event<R, E>>,
    event: Event<R, E>,
)
    requires
        crate::trace::fresh(call),
        crate::trace::accepts(call, events),
    ensures
        can_follow(call, events, event) <==> match last_action(call, events) {
            Action::Acquire => event is Acquired || event is AcquireFailed,
            Action::AcquireForUser { .. } => event is Acquired || event is AcquireFailed,
            Action::MakeMachineId { .. } => event is MachineId,
            Action::SelectEndpoint { .. } => event is EndpointSelected || event is EndpointUnknown,
            Action::TransformBody { .. } => event is BodyTransformed || event is TransformFailed,
            Action::Send { .. } => event is SendFailed || (event matches Event::Responded {
                status,
                ..
            } && 100 <= status <= 999),
            Action::ReadBody { .. } => event is BodyRead,
            Action::ReportQuotaExhausted { .. } => event is Reported,
            Action::ReportFailure { .. } => event is Reported,
            Action::InvalidateAccessToken { .. } => event is Done,
            Action::ReportModelUnavailable => event is BreakerTold,
            Action::SetCooldown { .. } => event is Done,
            Action::Backoff { .. } => event is Done,
            Action::FinishApi { .. } => false,
            Action::FinishMcp { .. } => false,
            Action::Fail { .. } => false,
        },
{
    lemma_agrees(call, events);
    assert(events.push(event).drop_last() =~= events);
}

// ---------------------------------------------------------------------------------------------
// Up to the request
// ---------------------------------------------------------------------------------------------

/// A credential that was taken gets its machine id, its endpoint and its body, and the request is
/// sent with it. Without a machine id the call is over. A body that cannot be brought into the
/// endpoint's form is sent as it was given, but for a tool.
pub proof fn law_requests_are_prepared<R, E>(
    call: CallView<E>,
    events: Seq<Event<R, E>>,
    event: Event<R, E>,
)
    requires
        crate::trace::fresh(call),
        can_follow(call, events, event),
    ensures
        ({
            let action = reply(call, events, event);
            let taken = crate::trace::taken(events);
            match event {
                Event::Acquired { credential_id } => action == (Action::<R, E>::MakeMachineId {
                    credential_id,
                }),
                Event::MachineId { found } => if found {
                    action matches Action::SelectEndpoint { credential_id } && taken == Some(
                        credential_id,
                    )
                } else {
                    action == (Action::<R, E>::Fail {
                        failure: Failure::Provider(ProviderError::NoMachineId),
                    })
                },
                Event::EndpointSelected => action matches Action::TransformBody {
                    credential_id,
                    body,
                } && taken == Some(credential_id) && body == call.request_body,
                Event::BodyTransformed { body: transformed } => action matches Action::Send {
                    credential_id,
                    body,
                } && taken == Some(credential_id) && body == transformed,
                Event::TransformFailed { .. } => call.kind is Mcp || (action matches Action::Send {
                    credential_id,
                    body,
                } && taken == Some(credential_id) && body == call.request_body),
                _ => true,
            }
        }),
{
    lemma_reply(call, events, event);
    lemma_agrees(call, events);
}

/// What goes wrong before there is a response costs one attempt. If no credential could be taken,
/// the endpoint is unknown or the body of a tool's request does not take the endpoint's form, the
/// next attempt begins at once; if the request could not be sent, it begins after a wait. After the
/// last attempt the call fails with that very error.
pub proof fn law_setbacks_cost_one_attempt<R, E>(
    call: CallView<E>,
    events: Seq<Event<R, E>>,
    event: Event<R, E>,
)
    requires
        crate::trace::fresh(call),
        can_follow(call, events, event),
    ensures
        ({
            let action = reply(call, events, event);
            let begun = attempts_begun(call, events);
            match event {
                Event::AcquireFailed { error } => tries_again(
                    call,
                    begun,
                    action,
                    Failure::Outside(error),
                ),
                Event::EndpointUnknown { name } => tries_again(
                    call,
                    begun,
                    action,
                    Failure::Provider(ProviderError::UnknownEndpoint { name }),
                ),
                Event::TransformFailed { error } => call.kind is Mcp ==> tries_again(
                    call,
                    begun,
                    action,
                    Failure::Outside(error),
                ),
                Event::SendFailed { error } => tries_again_later(
                    call,
                    begun,
                    action,
                    Failure::Outside(error),
                ),
                _ => true,
            }
        }),
{
    lemma_reply(call, events, event);
    lemma_agrees(call, events);
}

// ---------------------------------------------------------------------------------------------
// Responses
// ---------------------------------------------------------------------------------------------

/// A response with a status of success (200 to 299) is returned as it is, with the credential that
/// was taken. The body of any other response is read first; the endpoint is asked about the quota
/// after 402 and about the token after 401 and 403.
pub proof fn law_responses<R, E>(
    call: CallView<E>,
    events: Seq<Event<R, E>>,
    status: u16,
    retry_after: Option<TimeSpan>,
    response: R,
)
    requires
        crate::trace::fresh(call),
        can_follow(call, events, Event::<R, E>::Responded { status, retry_after, response }),
    ensures
        ({
            let action = reply(
                call,
                events,
                Event::<R, E>::Responded { status, retry_after, response },
            );
            if 200 <= status <= 299 {
                &&& crate::trace::taken(events) matches Some(credential_id)
                &&& action == if call.kind is Mcp {
                    Action::<R, E>::FinishMcp {
                        mcp_result: McpCallResult { response, credential_id },
                    }
                } else {
                    Action::<R, E>::FinishApi {
                        api_result: ApiCallResult { response, credential_id },
                    }
                }
            } else {
                action == (Action::<R, E>::ReadBody {
                    response,
                    ask_quota: status == 402,
                    ask_token: status == 401 || status == 403,
                })
            }
        }),
{
    lemma_reply(call, events, Event::<R, E>::Responded { status, retry_after, response });
    lemma_agrees(call, events);
}

/// What follows from the body of a response, by the status of the response that came last:
///
/// - 400 ends the call. The failure measures a request that is too long (a tool's request as it was
///   given, any other as it was sent), sums up any other body, and carries the whole body where
///   logs may be sensitive.
/// - 401 and 403 are reported as a failure of the credential that was taken, unless its token is
///   said to be invalid and was not renewed in this call before: then it is renewed.
/// - 402 with word of the monthly limit is reported as a used-up quota; the balance is cleared too,
///   but for a tool.
/// - 429 lets the credential cool down for as long as that response asked.
/// - 408 and 500 to 599 are tried again after a wait, as long as an attempt is left.
/// - 429, 408 and 500 to 599 whose body blames the model go to the circuit breaker first.
/// - Any other status from 400 to 499 ends the call with what the upstream said.
/// - Any status that is left is tried again after a wait.
pub proof fn law_refusals_by_status<R, E>(
    call: CallView<E>,
    events: Seq<Event<R, E>>,
    body: String,
    monthly_limit: bool,
    token_invalid: bool,
)
    requires
        crate::trace::fresh(call),
        can_follow(call, events, Event::<R, E>::BodyRead { body, monthly_limit, token_invalid }),
    ensures
        ({
            let action = reply(
                call,
                events,
                Event::<R, E>::BodyRead { body, monthly_limit, token_invalid },
            );
            let begun = attempts_begun(call, events);
            let blames_model = crate::body::marked(body@, "MODEL_TEMPORARILY_UNAVAILABLE"@);
            &&& answered(events) matches Some((status, retry_after))
            &&& crate::trace::taken(events) matches Some(credential_id)
            &&& sent(crate::trace::actions(call, events)) matches Some(body_sent)
            &&& if status == 400 {
                if call.sensitive_logs {
                    action == (Action::<R, E>::Fail { failure: refusal(call, status, body) })
                } else if crate::body::input_too_long_body(body@) {
                    let measured = if call.kind is Mcp {
                        call.request_body
                    } else {
                        body_sent
                    };
                    action == (Action::<R, E>::Fail {
                        failure: Failure::Provider(
                            ProviderError::InputTooLong {
                                kind: call.kind,
                                status,
                                request_bytes: crate::text::byte_len(measured@) as usize,
                                estimated_tokens: crate::request::estimated_tokens(
                                    measured@,
                                ) as usize,
                            },
                        ),
                    })
                } else {
                    action == (Action::<R, E>::Fail {
                        failure: Failure::Provider(
                            ProviderError::BadRequest { kind: call.kind, status, body },
                        ),
                    })
                }
            } else if status == 401 || status == 403 {
                let renewed_before = crate::trace::count(
                    crate::trace::actions(call, events),
                    crate::trace::renews(credential_id),
                ) > 0;
                if token_invalid && !renewed_before {
                    action == (Action::<R, E>::InvalidateAccessToken { credential_id })
                } else {
                    action == (Action::<R, E>::ReportFailure { credential_id })
                }
            } else if status == 402 && monthly_limit {
                action == (Action::<R, E>::ReportQuotaExhausted {
                    credential_id,
                    clear_balance: !(call.kind is Mcp),
                })
            } else if (status == 429 || status == 408 || 500 <= status <= 599) && blames_model {
                action is ReportModelUnavailable
            } else if status == 429 {
                action == (Action::<R, E>::SetCooldown { credential_id, retry_after })
            } else if 400 <= status <= 499 && status != 408 {
                action == (Action::<R, E>::Fail { failure: refusal(call, status, body) })
            } else {
                tries_again_later(call, begun, action, refusal(call, status, body))
            }
        }),
{
    let event = Event::<R, E>::BodyRead { body, monthly_limit, token_invalid };
    lemma_reply(call, events, event);
    lemma_agrees(call, events);
    if let Some(credential_id) = crate::trace::taken(events) {
        crate::trace::law_one_renewal_per_credential(call, events, credential_id);
    }
}

/// A credential cools down for exactly as long as the response that came last asked, and it is the
/// credential that was taken last; that response had the status 429.
pub proof fn law_cooldowns_are_those_asked_for<R, E>(
    call: CallView<E>,
    events: Seq<Event<R, E>>,
    credential_id: u64,
    retry_after: Option<TimeSpan>,
)
    requires
        crate::trace::fresh(call),
        crate::trace::accepts(call, events),
        last_action(call, events) == (Action::<R, E>::SetCooldown { credential_id, retry_after }),
    ensures
        answered(events) == Some((429u16, retry_after)),
        crate::trace::taken(events) == Some(credential_id),
{
    let earlier = events.drop_last();
    lemma_agrees(call, earlier);
}

/// Once a credential was reported, the next attempt begins at once if some credential is left. If
/// none is left, or no attempt, the call fails with the status and the body of that response.
pub proof fn law_after_a_report<R, E>(
    call: CallView<E>,
    events: Seq<Event<R, E>>,
    any_available: bool,
)
    requires
        crate::trace::fresh(call),
        can_follow(call, events, Event::<R, E>::Reported { any_available }),
    ensures
        ({
            let action = reply(call, events, Event::<R, E>::Reported { any_available });
            &&& answered(events) matches Some((status, _))
            &&& told(events) matches Some(body)
            &&& if any_available {
                tries_again(call, attempts_begun(call, events), action, refusal(call, status, body))
            } else {
                action == (Action::<R, E>::Fail {
                    failure: Failure::Provider(
                        ProviderError::CredentialsExhausted { kind: call.kind, status, body },
                    ),
                })
            }
        }),
{
    lemma_reply(call, events, Event::<R, E>::Reported { any_available });
    lemma_agrees(call, events);
}

/// Once the circuit breaker was told, the call is over if it has tripped. If it has not, the call
/// goes on as after the status alone: 429 lets the credential cool down for as long as the response
/// asked, and any other status is tried again after a wait.
pub proof fn law_after_the_circuit_breaker<R, E>(
    call: CallView<E>,
    events: Seq<Event<R, E>>,
    tripped: bool,
)
    requires
        crate::trace::fresh(call),
        can_follow(call, events, Event::<R, E>::BreakerTold { tripped }),
    ensures
        ({
            let action = reply(call, events, Event::<R, E>::BreakerTold { tripped });
            &&& answered(events) matches Some((status, retry_after))
            &&& told(events) matches Some(body)
            &&& crate::trace::taken(events) matches Some(credential_id)
            &&& if tripped {
                action == (Action::<R, E>::Fail {
                    failure: Failure::Provider(
                        ProviderError::ModelUnavailable { kind: call.kind, status, body },
                    ),
                })
            } else if status == 429 {
                action == (Action::<R, E>::SetCooldown { credential_id, retry_after })
            } else {
                tries_again_later(
                    call,
                    attempts_begun(call, events),
                    action,
                    refusal(call, status, body),
                )
            }
        }),
{
    lemma_reply(call, events, Event::<R, E>::BreakerTold { tripped });
    lemma_agrees(call, events);
}

/// After a wait the next attempt begins. After a cooldown or the renewal of a token it begins too,
/// unless it was the last one: then the call fails with the status and the body of the response.
pub proof fn law_after_a_pause<R, E>(call: CallView<E>, events: Seq<Event<R, E>>)
    requires
        crate::trace::fresh(call),
        can_follow(call, events, Event::<R, E>::Done),
    ensures
        ({
            let action = reply(call, events, Event::<R, E>::Done);
            if last_action(call, events) is Backoff {
                takes_for(call, action)
            } else {
                &&& answered(events) matches Some((status, _))
                &&& told(events) matches Some(body)
                &&& tries_again(
                    call,
                    attempts_begun(call, events),
                    action,
                    refusal(call, status, body),
                )
            }
        }),
{
    lemma_reply(call, events, Event::<R, E>::Done);
    lemma_agrees(call, events);
}

} // verus!
