//! What holds of every call, whatever happens to it: laws over all sequences of events.
use crate::call::Action;
use crate::call::CallView;
use crate::call::Event;
use crate::call::Failure;
use crate::call::Stage;
use crate::error::CallKind;
use crate::error::ProviderError;
use vstd::prelude::*;

verus! {

/// The call after these events, one after the other.
pub open spec fn run<R, E>(call: CallView<E>, events: Seq<Event<R, E>>) -> CallView<E>
    decreases events.len(),
{
    if events.len() == 0 {
        call
    } else {
        run(call, events.drop_last()).next(events.last()).0
    }
}

/// Each of these events fits the stage in which it happens.
pub open spec fn accepts<R, E>(call: CallView<E>, events: Seq<Event<R, E>>) -> bool
    decreases events.len(),
{
    events.len() > 0 ==> accepts(call, events.drop_last()) && crate::call::fits(
        run(call, events.drop_last()).stage,
        events.last(),
    )
}

/// The actions that the call hands out for these events.
pub open spec fn actions<R, E>(call: CallView<E>, events: Seq<Event<R, E>>) -> Seq<Action<R, E>>
    decreases events.len(),
{
    if events.len() == 0 {
        seq![]
    } else {
        actions(call, events.drop_last()).push(
            run(call, events.drop_last()).next(events.last()).1,
        )
    }
}

/// A call that is about to begin its first attempt.
pub open spec fn fresh<E>(call: CallView<E>) -> bool {
    &&& call.wf()
    &&& call.attempt == 0
    &&& call.last_error is None
    &&& call.refreshed == Set::<u64>::empty()
    &&& call.stage is Acquiring
}

/// Every call that is started is fresh and takes a credential first. Without a credential there is
/// no attempt, and the call fails at once for want of attempts.
pub proof fn law_started_calls_are_fresh<R, E>(
    kind: CallKind,
    sensitive_logs: bool,
    request_body: String,
    user_id: Option<String>,
    total_credentials: usize,
)
    ensures
        ({
            let (call, action) = crate::call::opening::<E>(
                kind,
                sensitive_logs,
                request_body,
                user_id,
                total_credentials,
            ).turn::<R>();
            if total_credentials > 0 {
                fresh(call) && begins(action)
            } else {
                &&& call.stage is Finished
                &&& action matches Action::Fail {
                    failure: Failure::Provider(
                        ProviderError::AttemptsExhausted { kind: k, max_attempts },
                    ),
                } && k == kind && max_attempts == 0
            }
        }),
{
}

/// A step keeps a call well-formed.
pub proof fn law_step_keeps_wf<R, E>(call: CallView<E>, event: Event<R, E>)
    requires
        call.wf(),
        crate::call::fits(call.stage, event),
    ensures
        call.next(event).0.wf(),
        call.next(event).0.max_attempts == call.max_attempts,
{
}

/// How many more events a call can take.
pub open spec fn patience<E>(call: CallView<E>) -> int {
    let later = 8 * (call.max_attempts - call.attempt - 1);
    match call.stage {
        Stage::Acquiring => later + 8,
        Stage::Identifying { .. } => later + 7,
        Stage::Routing { .. } => later + 6,
        Stage::Transforming { .. } => later + 5,
        Stage::Sending { .. } => later + 4,
        Stage::Reading { .. } => later + 3,
        Stage::Breaking { .. } => later + 2,
        Stage::Reporting { .. } => later + 1,
        Stage::Pausing => later + 1,
        Stage::Finished => 0,
    }
}

/// Every step brings a call nearer to its end.
pub proof fn law_step_progresses<R, E>(call: CallView<E>, event: Event<R, E>)
    requires
        call.wf(),
        crate::call::fits(call.stage, event),
    ensures
        0 <= patience(call.next(event).0) < patience(call),
{
}

proof fn lemma_run_wf<R, E>(call: CallView<E>, events: Seq<Event<R, E>>)
    requires
        call.wf(),
        accepts(call, events),
    ensures
        run(call, events).wf(),
        run(call, events).max_attempts == call.max_attempts,
    decreases events.len(),
{
    if events.len() > 0 {
        lemma_run_wf(call, events.drop_last());
        law_step_keeps_wf(run(call, events.drop_last()), events.last());
    }
}

/// Every call comes to an end: no call takes more than eight events for each of its attempts,
/// and there are at most three of these.
pub proof fn law_calls_end<R, E>(call: CallView<E>, events: Seq<Event<R, E>>)
    requires
        fresh(call),
        accepts(call, events),
    ensures
        events.len() + patience(run(call, events)) <= 8 * call.max_attempts,
        events.len() <= 24,
    decreases events.len(),
{
    if events.len() > 0 {
        law_calls_end(call, events.drop_last());
        lemma_run_wf(call, events.drop_last());
        law_step_progresses(run(call, events.drop_last()), events.last());
    }
}

/// How many of the actions satisfy `test`.
pub open spec fn count<R, E>(
    actions: Seq<Action<R, E>>,
    test: spec_fn(Action<R, E>) -> bool,
) -> nat
    decreases actions.len(),
{
    if actions.len() == 0 {
        0
    } else {
        count(actions.drop_last(), test) + if test(actions.last()) {
            1nat
        } else {
            0
        }
    }
}

/// The attempt under way has sent its request.
pub open spec fn has_sent<E>(call: CallView<E>) -> bool {
    match call.stage {
        Stage::Acquiring => false,
        Stage::Identifying { .. } => false,
        Stage::Routing { .. } => false,
        Stage::Transforming { .. } => false,
        Stage::Finished => call.attempt < call.max_attempts,
        _ => true,
    }
}

/// A call never sends more requests than it has attempts, of which there are at most three.
pub proof fn law_sends_are_bounded<R, E>(call: CallView<E>, events: Seq<Event<R, E>>)
    requires
        fresh(call),
        accepts(call, events),
    ensures
        count(actions(call, events), |a: Action<R, E>| a is Send) <= run(call, events).attempt
            + if has_sent(run(call, events)) {
            1int
        } else {
            0
        },
        count(actions(call, events), |a: Action<R, E>| a is Send) <= call.max_attempts,
        count(actions(call, events), |a: Action<R, E>| a is Send)
            <= crate::call::MAX_TOTAL_RETRIES,
    decreases events.len(),
{
    lemma_run_wf(call, events);
    if events.len() > 0 {
        let before = run(call, events.drop_last());
        law_sends_are_bounded(call, events.drop_last());
        lemma_run_wf(call, events.drop_last());
        assert(actions(call, events).drop_last() =~= actions(call, events.drop_last()));
        assert(actions(call, events).last() == before.next(events.last()).1);
    }
}

/// The action sends the request with this credential.
pub open spec fn sends_with<R, E>(credential_id: u64) -> spec_fn(Action<R, E>) -> bool {
    |a: Action<R, E>| a matches Action::Send { credential_id: id, .. } && id == credential_id
}

/// Within one call a credential is tried again at most twice: it sends the request three times at
/// most. A call does not count the attempts of each credential; the bound rests on that of the
/// whole call, which no single credential can exceed.
pub proof fn law_retries_per_credential<R, E>(
    call: CallView<E>,
    events: Seq<Event<R, E>>,
    credential_id: u64,
)
    requires
        fresh(call),
        accepts(call, events),
    ensures
        count(actions(call, events), sends_with(credential_id)) <= 1
            + crate::call::MAX_RETRIES_PER_CREDENTIAL,
{
    law_sends_are_bounded(call, events);
    lemma_count_narrower(
        actions(call, events),
        sends_with(credential_id),
        |a: Action<R, E>| a is Send,
    );
}

proof fn lemma_count_narrower<R, E>(
    actions: Seq<Action<R, E>>,
    narrow: spec_fn(Action<R, E>) -> bool,
    wide: spec_fn(Action<R, E>) -> bool,
)
    requires
        forall|a: Action<R, E>| #[trigger] narrow(a) ==> wide(a),
    ensures
        count(actions, narrow) <= count(actions, wide),
    decreases actions.len(),
{
    if actions.len() > 0 {
        lemma_count_narrower(actions.drop_last(), narrow, wide);
    }
}

/// The number of attempts follows from the number of credentials: two for each, up to three.
pub proof fn law_attempts_for(total_credentials: nat)
    ensures
        crate::call::attempts_for(total_credentials) <= 2 * total_credentials,
        crate::call::attempts_for(total_credentials) <= 3,
        total_credentials >= 2 ==> crate::call::attempts_for(total_credentials) == 3,
{
}

/// The action renews the access token of this credential.
pub open spec fn renews<R, E>(credential_id: u64) -> spec_fn(Action<R, E>) -> bool {
    |a: Action<R, E>| a == Action::<R, E>::InvalidateAccessToken { credential_id }
}

/// Within one call the access token of a credential is renewed at most once, so that a credential
/// that stays refused is reported as failing in the end.
pub proof fn law_one_renewal_per_credential<R, E>(
    call: CallView<E>,
    events: Seq<Event<R, E>>,
    credential_id: u64,
)
    requires
        fresh(call),
        accepts(call, events),
    ensures
        count(actions(call, events), renews(credential_id)) == if run(
            call,
            events,
        ).refreshed.contains(credential_id) {
            1nat
        } else {
            0
        },
        count(actions(call, events), renews(credential_id)) <= 1,
    decreases events.len(),
{
    if events.len() > 0 {
        let before = run(call, events.drop_last());
        law_one_renewal_per_credential(call, events.drop_last(), credential_id);
        assert(actions(call, events).drop_last() =~= actions(call, events.drop_last()));
        assert(actions(call, events).last() == before.next(events.last()).1);
    }
}

/// The credential that was taken last, if one was.
pub open spec fn taken<R, E>(events: Seq<Event<R, E>>) -> Option<u64>
    decreases events.len(),
{
    if events.len() == 0 {
        None
    } else {
        match events.last() {
            Event::Acquired { credential_id } => Some(credential_id),
            _ => taken(events.drop_last()),
        }
    }
}

/// The credential that an action names, if it names one.
pub open spec fn named<R, E>(action: Action<R, E>) -> Option<u64> {
    match action {
        Action::MakeMachineId { credential_id } => Some(credential_id),
        Action::SelectEndpoint { credential_id } => Some(credential_id),
        Action::TransformBody { credential_id, .. } => Some(credential_id),
        Action::Send { credential_id, .. } => Some(credential_id),
        Action::ReportQuotaExhausted { credential_id, .. } => Some(credential_id),
        Action::ReportFailure { credential_id } => Some(credential_id),
        Action::InvalidateAccessToken { credential_id } => Some(credential_id),
        Action::SetCooldown { credential_id, .. } => Some(credential_id),
        Action::FinishApi { api_result } => Some(api_result.credential_id),
        Action::FinishMcp { mcp_result } => Some(mcp_result.credential_id),
        _ => None,
    }
}

/// The credential that a stage is about, if it is about one.
pub open spec fn concerned(stage: Stage) -> Option<u64> {
    match stage {
        Stage::Identifying { credential_id } => Some(credential_id),
        Stage::Routing { credential_id } => Some(credential_id),
        Stage::Transforming { credential_id } => Some(credential_id),
        Stage::Sending { credential_id, .. } => Some(credential_id),
        Stage::Reading { credential_id, .. } => Some(credential_id),
        Stage::Breaking { credential_id, .. } => Some(credential_id),
        _ => None,
    }
}

/// Whatever a call has done with a credential, whether it reports on it, lets it cool down or
/// returns it with the result, it does with the one that was taken last.
pub proof fn law_actions_name_the_credential_taken<R, E>(
    call: CallView<E>,
    events: Seq<Event<R, E>>,
)
    requires
        fresh(call),
        accepts(call, events),
    ensures
        concerned(run(call, events).stage) is Some ==> concerned(run(call, events).stage) == taken(
            events,
        ),
        events.len() > 0 && named(actions(call, events).last()) is Some ==> named(
            actions(call, events).last(),
        ) == taken(events),
    decreases events.len(),
{
    if events.len() > 0 {
        law_actions_name_the_credential_taken(call, events.drop_last());
        let before = run(call, events.drop_last());
        assert(actions(call, events).last() == before.next(events.last()).1);
    }
}

/// A call reports on a credential only on account of what the upstream said: a failure after
/// 401 or 403, a used-up quota after 402 with word of the monthly limit. It has a token renewed
/// only after 401 or 403 with word of an invalid token, and lets a credential cool down only after
/// 429, for as long as the response asked. Network errors, 408 and 5xx cost no credential
/// anything.
pub proof fn law_reports_follow_the_status<R, E>(call: CallView<E>, event: Event<R, E>)
    requires
        call.wf(),
        crate::call::fits(call.stage, event),
    ensures
        call.next(event).1 is ReportFailure ==> (call.stage matches Stage::Reading { status, .. } && (
        status == 401 || status == 403)),
        call.next(event).1 is ReportQuotaExhausted ==> (call.stage matches Stage::Reading {
            status,
            ..
        } && status == 402) && (event matches Event::BodyRead { monthly_limit, .. }
            && monthly_limit),
        call.next(event).1 is InvalidateAccessToken ==> (call.stage matches Stage::Reading {
            status,
            ..
        } && (status == 401 || status == 403)) && (event matches Event::BodyRead {
            token_invalid,
            ..
        } && token_invalid),
        call.next(event).1 matches Action::SetCooldown { retry_after: wait, .. } ==> {
            ||| call.stage matches Stage::Reading { status, retry_after, .. } && status == 429
                && retry_after == wait
            ||| call.stage matches Stage::Breaking { status, retry_after, .. } && status == 429
                && retry_after == wait
        },
        call.next(event).1 is ReportModelUnavailable ==> (call.stage matches Stage::Reading {
            status,
            ..
        } && (status == 429 || status == 408 || 500 <= status < 600)),
{
}

/// An attempt begins.
pub open spec fn begins<R, E>(action: Action<R, E>) -> bool {
    action is Acquire || action is AcquireForUser
}

/// A malformed request ends the call at once, and costs no credential anything.
pub proof fn law_bad_requests_end_the_call<R, E>(call: CallView<E>, event: Event<R, E>)
    requires
        call.wf(),
        crate::call::fits(call.stage, event),
        call.stage matches Stage::Reading { status, .. } && status == 400,
    ensures
        call.next(event).1 is Fail,
        call.next(event).0.stage is Finished,
        call.next(event).0.attempt == call.attempt,
{
}

/// A request that could not be sent is tried again after a wait, as long as attempts are left;
/// after the last one, the call fails with that very error.
pub proof fn law_network_errors_are_retried<R, E>(call: CallView<E>, error: E)
    requires
        call.wf(),
        call.stage is Sending,
    ensures
        ({
            let (after, action) = call.next(Event::<R, E>::SendFailed { error });
            if call.attempt + 1 < call.max_attempts {
                &&& action == Action::<R, E>::Backoff { attempt: call.attempt }
                &&& begins(after.next(Event::<R, E>::Done).1)
                &&& after.next(Event::<R, E>::Done).0.attempt == call.attempt + 1
                &&& after.next(Event::<R, E>::Done).0.refreshed == call.refreshed
            } else {
                action == Action::<R, E>::Fail { failure: Failure::Outside(error) }
            }
        }),
{
}

/// Trouble upstream (408, 5xx) that is not the model's, and any status that is no error of the
/// request, is met as a network error is: by another attempt after a wait, or by the failure itself
/// after the last attempt.
pub proof fn law_upstream_trouble_is_retried<R, E>(
    call: CallView<E>,
    body: String,
    monthly_limit: bool,
    token_invalid: bool,
)
    requires
        call.wf(),
        call.stage matches Stage::Reading { status, .. } && (status < 400 || status == 408 || 500
            <= status) && (status == 408 || 500 <= status < 600 ==> !crate::body::marked(
            body@,
            "MODEL_TEMPORARILY_UNAVAILABLE"@,
        )),
    ensures
        ({
            let (after, action) = call.next(
                Event::<R, E>::BodyRead { body, monthly_limit, token_invalid },
            );
            if call.attempt + 1 < call.max_attempts {
                &&& action == Action::<R, E>::Backoff { attempt: call.attempt }
                &&& begins(after.next(Event::<R, E>::Done).1)
                &&& after.next(Event::<R, E>::Done).0.attempt == call.attempt + 1
            } else {
                action matches Action::Fail {
                    failure: Failure::Provider(
                        ProviderError::Refused { kind, status, body: said },
                    ),
                } && kind == call.kind && said == body && call.stage->Reading_status == status
            }
        }),
{
}

/// Trouble upstream (408, 5xx) that the body blames on the model is told to the circuit breaker. If
/// it trips, the call is over; otherwise another attempt is due after a wait, as long as one is
/// left.
pub proof fn law_unavailable_models<R, E>(
    call: CallView<E>,
    body: String,
    monthly_limit: bool,
    token_invalid: bool,
)
    requires
        call.wf(),
        call.stage matches Stage::Reading { status, .. } && (status == 408 || 500 <= status < 600),
        crate::body::marked(body@, "MODEL_TEMPORARILY_UNAVAILABLE"@),
    ensures
        ({
            let (after, action) = call.next(
                Event::<R, E>::BodyRead { body, monthly_limit, token_invalid },
            );
            &&& action is ReportModelUnavailable
            &&& after.next(Event::<R, E>::BreakerTold { tripped: true }).1 matches Action::Fail {
                failure: Failure::Provider(
                    ProviderError::ModelUnavailable { kind, status, body: said },
                ),
            } && kind == call.kind && said == body && call.stage->Reading_status == status
            &&& call.attempt + 1 < call.max_attempts ==> after.next(
                Event::<R, E>::BreakerTold { tripped: false },
            ).1 == Action::<R, E>::Backoff { attempt: call.attempt }
        }),
{
}

/// Any other refusal of the request (4xx) ends the call at once, with what the upstream said, and
/// costs no credential anything.
pub proof fn law_other_refusals_end_the_call<R, E>(
    call: CallView<E>,
    body: String,
    token_invalid: bool,
)
    requires
        call.wf(),
        call.stage matches Stage::Reading { status, .. } && 402 <= status < 500 && status != 403
            && status != 408 && status != 429,
    ensures
        call.next(
            Event::<R, E>::BodyRead { body, monthly_limit: false, token_invalid },
        ).1 matches Action::Fail {
            failure: Failure::Provider(
                ProviderError::Refused { kind, status, body: said },
            ),
        } && kind == call.kind && said == body && call.stage->Reading_status == status,
        call.stage->Reading_status != 402 ==> call.next(
            Event::<R, E>::BodyRead { body, monthly_limit: true, token_invalid },
        ) == call.next(Event::<R, E>::BodyRead { body, monthly_limit: false, token_invalid }),
{
}

/// A credential that is not accepted (401, 403) is reported as failing, unless the upstream says
/// that its token is invalid and the token was not yet renewed in this call: in that case it is
/// renewed, and the next attempt is made at once, as long as one is left.
pub proof fn law_refused_credentials<R, E>(
    call: CallView<E>,
    body: String,
    monthly_limit: bool,
    token_invalid: bool,
)
    requires
        call.wf(),
        call.stage matches Stage::Reading { status, .. } && (status == 401 || status == 403),
    ensures
        ({
            let credential_id = call.stage->Reading_credential_id;
            let (after, action) = call.next(
                Event::<R, E>::BodyRead { body, monthly_limit, token_invalid },
            );
            if token_invalid && !call.refreshed.contains(credential_id) {
                &&& action == Action::<R, E>::InvalidateAccessToken { credential_id }
                &&& after.refreshed == call.refreshed.insert(credential_id)
                &&& call.attempt + 1 < call.max_attempts ==> begins(
                    after.next(Event::<R, E>::Done).1,
                )
            } else {
                action == Action::<R, E>::ReportFailure { credential_id }
            }
        }),
{
}

/// A credential whose monthly quota is used up (402) is reported as such; a request, other than a
/// call of a tool, also has its balance cleared.
pub proof fn law_used_up_quotas<R, E>(call: CallView<E>, body: String, token_invalid: bool)
    requires
        call.wf(),
        call.stage matches Stage::Reading { status, .. } && status == 402,
    ensures
        ({
            let credential_id = call.stage->Reading_credential_id;
            let clear_balance = !(call.kind is Mcp);
            let limit = Event::<R, E>::BodyRead { body, monthly_limit: true, token_invalid };
            let other = Event::<R, E>::BodyRead { body, monthly_limit: false, token_invalid };
            &&& call.next(limit).1 == Action::<R, E>::ReportQuotaExhausted {
                credential_id,
                clear_balance,
            }
            &&& call.next(other).1 is Fail
        }),
{
}

/// A credential that hits a rate limit (429) cools down for as long as the response asked, and
/// the next attempt is made at once, as long as one is left. Only if the body blames the model is
/// the circuit breaker told first; if it trips, the call is over.
pub proof fn law_rate_limits<R, E>(
    call: CallView<E>,
    body: String,
    monthly_limit: bool,
    token_invalid: bool,
)
    requires
        call.wf(),
        call.stage matches Stage::Reading { status, .. } && status == 429,
    ensures
        ({
            let credential_id = call.stage->Reading_credential_id;
            let retry_after = call.stage->Reading_retry_after;
            let cooldown = Action::<R, E>::SetCooldown { credential_id, retry_after };
            let (after, action) = call.next(
                Event::<R, E>::BodyRead { body, monthly_limit, token_invalid },
            );
            if crate::body::marked(body@, "MODEL_TEMPORARILY_UNAVAILABLE"@) {
                &&& action is ReportModelUnavailable
                &&& after.next(Event::<R, E>::BreakerTold { tripped: true }).1 is Fail
                &&& after.next(Event::<R, E>::BreakerTold { tripped: false }).1 == cooldown
            } else {
                &&& action == cooldown
                &&& call.attempt + 1 < call.max_attempts ==> begins(
                    after.next(Event::<R, E>::Done).1,
                )
            }
        }),
{
}

/// Once a credential was reported, the call goes on with another attempt if some credential is
/// available and an attempt is left, and otherwise fails with what the upstream said.
pub proof fn law_failover_after_a_report<R, E>(call: CallView<E>, any_available: bool)
    requires
        call.wf(),
        call.stage is Reporting,
    ensures
        ({
            let (after, action) = call.next(Event::<R, E>::Reported { any_available });
            if !any_available {
                action matches Action::Fail {
                    failure: Failure::Provider(
                        ProviderError::CredentialsExhausted { kind, status, body },
                    ),
                } && kind == call.kind && call.stage == (Stage::Reporting { status, body })
            } else if call.attempt + 1 < call.max_attempts {
                begins(action) && after.attempt == call.attempt + 1
            } else {
                action matches Action::Fail {
                    failure: Failure::Provider(
                        ProviderError::Refused { kind, status, body },
                    ),
                } && kind == call.kind && call.stage == (Stage::Reporting { status, body })
            }
        }),
{
}

/// A call that has made an attempt never fails for mere want of attempts: it fails with what
/// went wrong last.
pub proof fn law_failures_are_told<R, E>(call: CallView<E>, events: Seq<Event<R, E>>)
    requires
        fresh(call),
        accepts(call, events),
    ensures
        !(run(call, events).stage is Finished) && (run(call, events).attempt > 0 || run(
            call,
            events,
        ).stage is Pausing) ==> run(call, events).last_error is Some,
        run(call, events).last_error matches Some(Failure::Provider(e)) ==> !(
        e is AttemptsExhausted),
        forall|i: int|
            0 <= i < events.len() ==> !(#[trigger] actions(call, events)[i] matches Action::Fail {
                failure: Failure::Provider(e),
            } && e is AttemptsExhausted),
    decreases events.len(),
{
    if events.len() > 0 {
        law_failures_are_told(call, events.drop_last());
        lemma_run_wf(call, events.drop_last());
        let before = run(call, events.drop_last());
        let earlier = actions(call, events.drop_last());
        lemma_one_action_per_event(call, events.drop_last());
        assert forall|i: int| 0 <= i < events.len() implies !(#[trigger] actions(
            call,
            events,
        )[i] matches Action::Fail { failure: Failure::Provider(e) } && e is AttemptsExhausted) by {
            if i < events.len() - 1 {
                assert(actions(call, events)[i] == earlier[i]);
            } else {
                assert(actions(call, events)[i] == before.next(events.last()).1);
            }
        }
    }
}

proof fn lemma_one_action_per_event<R, E>(call: CallView<E>, events: Seq<Event<R, E>>)
    ensures
        actions(call, events).len() == events.len(),
    decreases events.len(),
{
    if events.len() > 0 {
        lemma_one_action_per_event(call, events.drop_last());
    }
}

/// What is sent is the body in the endpoint's form; if it could not be brought into that form, a
/// request is sent with the body as it was given, and a call of a tool is not sent.
pub proof fn law_what_is_sent<R, E>(call: CallView<E>, event: Event<R, E>)
    requires
        call.wf(),
        crate::call::fits(call.stage, event),
    ensures
        call.next(event).1 matches Action::TransformBody { body, .. } ==> body == call.request_body,
        call.next(event).1 matches Action::Send { body, .. } ==> match event {
            Event::BodyTransformed { body: transformed } => body == transformed,
            _ => event is TransformFailed && !(call.kind is Mcp) && body == call.request_body,
        },
        call.next(event).0.request_body == call.request_body,
        call.next(event).0.kind == call.kind,
{
}

/// The endpoint is asked about the monthly quota only after 402, and about the access token only
/// after 401 or 403.
pub proof fn law_what_is_asked<R, E>(call: CallView<E>, event: Event<R, E>)
    requires
        call.wf(),
        crate::call::fits(call.stage, event),
    ensures
        call.next(event).1 matches Action::ReadBody { response, ask_quota, ask_token } ==> (
        event matches Event::Responded { status, response: unread, .. } && response == unread
            && ask_quota == (status == 402) && ask_token == (status == 401 || status == 403)),
{
}

/// What the endpoint was not asked makes no difference to the call.
pub proof fn law_unasked_answers_do_not_matter<R, E>(
    call: CallView<E>,
    body: String,
    monthly_limit: bool,
    token_invalid: bool,
)
    requires
        call.wf(),
        call.stage is Reading,
    ensures
        ({
            let status = call.stage->Reading_status;
            call.next(Event::<R, E>::BodyRead { body, monthly_limit, token_invalid }) == call.next(
                Event::<R, E>::BodyRead {
                    body,
                    monthly_limit: monthly_limit && status == 402,
                    token_invalid: token_invalid && (status == 401 || status == 403),
                },
            )
        }),
{
}

/// The error with another kind of call, where it names one.
pub open spec fn relabelled_error(error: ProviderError, kind: CallKind) -> ProviderError {
    match error {
        ProviderError::Refused { status, body, .. } => ProviderError::Refused {
            kind,
            status,
            body,
        },
        ProviderError::BadRequest { status, body, .. } => ProviderError::BadRequest {
            kind,
            status,
            body,
        },
        ProviderError::InputTooLong { status, request_bytes, estimated_tokens, .. } =>
        ProviderError::InputTooLong { kind, status, request_bytes, estimated_tokens },
        ProviderError::CredentialsExhausted { status, body, .. } =>
        ProviderError::CredentialsExhausted { kind, status, body },
        ProviderError::ModelUnavailable { status, body, .. } => ProviderError::ModelUnavailable {
            kind,
            status,
            body,
        },
        ProviderError::AttemptsExhausted { max_attempts, .. } =>
        ProviderError::AttemptsExhausted { kind, max_attempts },
        _ => error,
    }
}

/// The failure with another kind of call, where it names one.
pub open spec fn relabelled_failure<E>(
    failure: Failure<E>,
    kind: CallKind,
) -> Failure<E> {
    match failure {
        Failure::Provider(error) => Failure::Provider(relabelled_error(error, kind)),
        Failure::Outside(_) => failure,
    }
}

/// The action with another kind of call, where it names one.
pub open spec fn relabelled_action<R, E>(
    action: Action<R, E>,
    kind: CallKind,
) -> Action<R, E> {
    match action {
        Action::Fail { failure } => Action::Fail { failure: relabelled_failure(failure, kind) },
        _ => action,
    }
}

/// The call as one of another kind.
pub open spec fn relabelled<E>(call: CallView<E>, kind: CallKind) -> CallView<E> {
    CallView {
        kind,
        last_error: match call.last_error {
            Some(failure) => Some(relabelled_failure(failure, kind)),
            None => None,
        },
        ..call
    }
}

/// The two outcomes of a step, as those of a call of another kind.
spec fn relabelled_step<R, E>(step: (CallView<E>, Action<R, E>), kind: CallKind) -> (
    CallView<E>,
    Action<R, E>,
) {
    (relabelled(step.0, kind), relabelled_action(step.1, kind))
}

proof fn lemma_attempts_of_either_kind<R, E>(call: CallView<E>, kind: CallKind)
    requires
        !(call.kind is Mcp),
        !(kind is Mcp),
    ensures
        relabelled(call, kind).next_attempt::<R>() == relabelled_step(
            call.next_attempt::<R>(),
            kind,
        ),
        relabelled(call, kind).next_attempt_later::<R>() == relabelled_step(
            call.next_attempt_later::<R>(),
            kind,
        ),
{
}

proof fn lemma_body_of_either_kind<R, E>(call: CallView<E>, event: Event<R, E>, kind: CallKind)
    requires
        call.stage is Reading,
        event is BodyRead,
        !(call.kind is Mcp),
        !(kind is Mcp),
    ensures
        relabelled(call, kind).next(event) == relabelled_step(call.next(event), kind),
{
    let status = call.stage->Reading_status;
    let body = event->BodyRead_body;
    lemma_attempts_of_either_kind::<R, E>(call.refused(status, body), kind);
    assert(relabelled(call, kind).refused(status, body) == relabelled(
        call.refused(status, body),
        kind,
    ));
}

proof fn lemma_step_of_either_kind<R, E>(call: CallView<E>, event: Event<R, E>, kind: CallKind)
    requires
        crate::call::fits(call.stage, event),
        !(call.kind is Mcp),
        !(kind is Mcp),
    ensures
        relabelled(call, kind).next(event) == relabelled_step(call.next(event), kind),
        call.next(event).0.kind == call.kind,
{
    match (call.stage, event) {
        (Stage::Reading { .. }, _) => {
            lemma_body_of_either_kind(call, event, kind);
        },
        (Stage::Acquiring, Event::AcquireFailed { error }) => {
            lemma_attempts_of_either_kind::<R, E>(call.failing(Failure::Outside(error)), kind);
        },
        (Stage::Routing { .. }, Event::EndpointUnknown { name }) => {
            let error = ProviderError::UnknownEndpoint { name };
            lemma_attempts_of_either_kind::<R, E>(call.failing(Failure::Provider(error)), kind);
        },
        (Stage::Sending { .. }, Event::SendFailed { error }) => {
            lemma_attempts_of_either_kind::<R, E>(call.failing(Failure::Outside(error)), kind);
        },
        (Stage::Reporting { status, body }, _) => {
            lemma_attempts_of_either_kind::<R, E>(call.refused(status, body), kind);
        },
        (Stage::Breaking { status, body, .. }, _) => {
            lemma_attempts_of_either_kind::<R, E>(call.refused(status, body), kind);
        },
        (Stage::Pausing, _) => {
            lemma_attempts_of_either_kind::<R, E>(call, kind);
        },
        _ => {},
    }
}

/// A request is treated in the same way whether its answer comes in one piece or as a stream: for
/// the same events it takes the same course and the same actions, and only the words of its errors
/// name the one or the other.
pub proof fn law_both_kinds_of_answer_agree<R, E>(
    call: CallView<E>,
    events: Seq<Event<R, E>>,
    kind: CallKind,
)
    requires
        accepts(call, events),
        !(call.kind is Mcp),
        !(kind is Mcp),
    ensures
        accepts(relabelled(call, kind), events),
        run(relabelled(call, kind), events) == relabelled(run(call, events), kind),
        run(call, events).kind == call.kind,
        actions(relabelled(call, kind), events) == actions(call, events).map_values(
            |a: Action<R, E>| relabelled_action(a, kind),
        ),
    decreases events.len(),
{
    let relabel = |a: Action<R, E>| relabelled_action(a, kind);
    if events.len() > 0 {
        let earlier = events.drop_last();
        let before = run(call, earlier);
        let step = before.next(events.last());
        law_both_kinds_of_answer_agree(call, earlier, kind);
        lemma_step_of_either_kind(before, events.last(), kind);
        lemma_map_push(actions(call, earlier), step.1, relabel);
    } else {
        assert(actions(call, events).map_values(relabel) =~= seq![]);
    }
}

proof fn lemma_map_push<A, B>(s: Seq<A>, a: A, f: spec_fn(A) -> B)
    ensures
        s.push(a).map_values(f) == s.map_values(f).push(f(a)),
{
    assert(s.push(a).map_values(f) =~= s.map_values(f).push(f(a)));
}

/// A call returns a response only after a status of success, and returns that response.
pub proof fn law_success<R, E>(call: CallView<E>, event: Event<R, E>)
    requires
        call.wf(),
        crate::call::fits(call.stage, event),
    ensures
        call.next(event).1 matches Action::FinishApi { api_result } ==> !(call.kind is Mcp) && (
        event matches Event::Responded { status, response, .. } && 200 <= status < 300 && response
            == api_result.response),
        call.next(event).1 matches Action::FinishMcp { mcp_result } ==> call.kind is Mcp && (
        event matches Event::Responded { status, response, .. } && 200 <= status < 300 && response
            == mcp_result.response),
        (event matches Event::Responded { status, .. } && 200 <= status < 300) ==> call.next(
            event,
        ).1 is FinishApi || call.next(event).1 is FinishMcp,
{
}

} // verus!
