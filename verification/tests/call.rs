use kiro_provider::call::classify;
use kiro_provider::call::max_attempts;
use kiro_provider::call::Action;
use kiro_provider::call::Call;
use kiro_provider::call::Disposition;
use kiro_provider::call::Event;
use kiro_provider::call::Failure;
use kiro_provider::error::CallKind;
use kiro_provider::error::ProviderError;
use kiro_provider::provider::KiroProvider;
use kiro_provider::provider::ProxyConfig;
use kiro_provider::timing::TimeSpan;

type Ev = Event<&'static str, &'static str>;
type Act = Action<&'static str, &'static str>;
type Kall = Call<&'static str>;

fn start(kind: CallKind, total: usize) -> (Kall, Act) {
    match Call::start(kind, false, "request", Some("u1"), total, 1) {
        Ok(begun) => begun,
        Err(_) => panic!("no call"),
    }
}

fn tell(call: Kall, event: Ev) -> (Kall, Act) {
    assert!(call.expects(&event));
    call.step(event)
}

/// Takes a call that waits for a credential to where its request has gone out.
fn send(call: Kall, id: u64) -> Kall {
    let (call, action) = tell(call, Event::Acquired { credential_id: id });
    assert!(matches!(action, Action::MakeMachineId { credential_id } if credential_id == id));
    let (call, action) = tell(call, Event::MachineId { found: true });
    assert!(matches!(action, Action::SelectEndpoint { credential_id } if credential_id == id));
    let (call, action) = tell(call, Event::EndpointSelected);
    assert!(matches!(action, Action::TransformBody { credential_id, body }
        if credential_id == id && body == "request"));
    let (call, action) = tell(call, Event::BodyTransformed { body: "sent!".to_string() });
    assert!(matches!(action, Action::Send { credential_id, body }
        if credential_id == id && body == "sent!"));
    call
}

/// The answer of the upstream, as far as its body.
fn answer(call: Kall, status: u16, body: &str) -> (Kall, Act) {
    answer_with(call, status, None, body, false, false)
}

fn answer_with(
    call: Kall,
    status: u16,
    retry_after: Option<TimeSpan>,
    body: &str,
    monthly_limit: bool,
    token_invalid: bool,
) -> (Kall, Act) {
    let (call, action) = tell(call, Event::Responded { status, retry_after, response: "resp" });
    assert!(matches!(action, Action::ReadBody { response: "resp", .. }));
    tell(call, Event::BodyRead { body: body.to_string(), monthly_limit, token_invalid })
}

fn said(action: Act) -> String {
    match action {
        Action::Fail { failure: Failure::Provider(error) } => error.message(),
        Action::Fail { failure: Failure::Outside(error) } => format!("outside: {}", error),
        _ => panic!("the call goes on"),
    }
}

fn begins(action: &Act) -> bool {
    matches!(action, Action::Acquire | Action::AcquireForUser { .. })
}

#[test]
fn statuses_have_their_meaning() {
    let cases = [
        (200, false, Disposition::Success),
        (299, false, Disposition::Success),
        (402, true, Disposition::QuotaExhausted),
        (402, false, Disposition::ClientError),
        (400, true, Disposition::BadRequest),
        (401, false, Disposition::CredentialRefused),
        (403, true, Disposition::CredentialRefused),
        (429, false, Disposition::RateLimited),
        (408, false, Disposition::Transient),
        (500, false, Disposition::Transient),
        (599, false, Disposition::Transient),
        (404, false, Disposition::ClientError),
        (499, false, Disposition::ClientError),
        (302, false, Disposition::Unknown),
        (600, false, Disposition::Unknown),
        (100, false, Disposition::Unknown),
    ];
    for (status, monthly, expected) in cases {
        assert_eq!(classify(status, monthly), expected);
    }
}

#[test]
fn attempts_follow_the_credentials() {
    for (total, expected) in [(0, 0), (1, 2), (2, 3), (3, 3), (10, 3), (usize::MAX, 3)] {
        assert_eq!(max_attempts(total), expected);
    }
}

#[test]
fn no_call_without_an_available_credential() {
    let r: Result<(Kall, Act), ProviderError> =
        Call::start(CallKind::Mcp, false, "request", None, 5, 0);
    match r {
        Err(error) => assert_eq!(error.message(), "没有可用的凭据"),
        Ok(_) => panic!("a call"),
    }
}

#[test]
fn no_attempt_without_a_credential_at_all() {
    let (call, action) = start(CallKind::ApiStream, 0);
    assert_eq!(said(action), "流式 API 请求失败：已达到最大重试次数（0次）");
    assert!(!call.expects::<&'static str>(&Event::Done));
}

#[test]
fn calls_take_a_credential_for_their_user_but_tools_have_none() {
    let (_, action) = start(CallKind::Api, 1);
    assert!(matches!(action, Action::AcquireForUser { user_id: Some(u) } if u == "u1"));
    let (_, action) = start(CallKind::Mcp, 1);
    assert!(matches!(action, Action::Acquire));
}

#[test]
fn provider_starts_calls_of_each_kind() {
    let build = |_: &Option<ProxyConfig>, _: u64| -> Result<u8, u8> { Ok(0) };
    let provider = KiroProvider::new((), 1u8, 2u8, build).unwrap();
    let begun: Result<(Kall, Act), ProviderError> = provider.call_api("b", None, false, 1, 1);
    let (_, action) = begun.ok().unwrap();
    assert!(matches!(action, Action::AcquireForUser { user_id: None }));
    let begun: Result<(Kall, Act), ProviderError> =
        provider.call_api_stream("b", Some("x"), false, 0, 1);
    let (_, action) = begun.ok().unwrap();
    assert_eq!(said(action), "流式 API 请求失败：已达到最大重试次数（0次）");
    let begun: Result<(Kall, Act), ProviderError> = provider.call_mcp("b", false, 1, 1);
    let (_, action) = begun.ok().unwrap();
    assert!(matches!(action, Action::Acquire));
    let begun: Result<(Kall, Act), ProviderError> = provider.call_mcp("b", false, 1, 0);
    assert!(matches!(begun, Err(ProviderError::NoCredentials)));
}

#[test]
fn success_returns_the_response_and_its_credential() {
    let (call, _) = start(CallKind::Api, 1);
    let call = send(call, 7);
    let (call, action) =
        tell(call, Event::Responded { status: 200, retry_after: None, response: "resp" });
    assert!(matches!(action, Action::FinishApi { api_result }
        if api_result.response == "resp" && api_result.credential_id == 7));
    assert!(!call.expects::<&'static str>(&Event::Done));

    let (call, _) = start(CallKind::Mcp, 1);
    let call = send(call, 8);
    let (_, action) =
        tell(call, Event::Responded { status: 204, retry_after: None, response: "resp" });
    assert!(matches!(action, Action::FinishMcp { mcp_result }
        if mcp_result.response == "resp" && mcp_result.credential_id == 8));
}

#[test]
fn failing_to_take_a_credential_uses_up_attempts() {
    let (call, _) = start(CallKind::Api, 1);
    let (call, action) = tell(call, Event::AcquireFailed { error: "first" });
    assert!(begins(&action));
    let (_, action) = tell(call, Event::AcquireFailed { error: "second" });
    assert_eq!(said(action), "outside: second");
}

#[test]
fn a_missing_machine_id_ends_the_call() {
    let (call, _) = start(CallKind::Api, 2);
    let (call, _) = tell(call, Event::Acquired { credential_id: 1 });
    let (_, action) = tell(call, Event::MachineId { found: false });
    assert_eq!(said(action), "无法生成 machine_id，请检查凭证配置");
}

#[test]
fn an_unknown_endpoint_uses_up_an_attempt() {
    let (call, _) = start(CallKind::Api, 1);
    let (call, _) = tell(call, Event::Acquired { credential_id: 1 });
    let (call, _) = tell(call, Event::MachineId { found: true });
    let (call, action) = tell(call, Event::EndpointUnknown { name: "web".to_string() });
    assert!(begins(&action));
    let (call, _) = tell(call, Event::Acquired { credential_id: 1 });
    let (call, _) = tell(call, Event::MachineId { found: true });
    let (_, action) = tell(call, Event::EndpointUnknown { name: "web2".to_string() });
    assert_eq!(said(action), "未知端点: web2");
}

#[test]
fn a_body_that_cannot_be_transformed() {
    for kind in [CallKind::Api, CallKind::ApiStream, CallKind::Mcp] {
        let (call, _) = start(kind, 1);
        let (call, _) = tell(call, Event::Acquired { credential_id: 1 });
        let (call, _) = tell(call, Event::MachineId { found: true });
        let (call, _) = tell(call, Event::EndpointSelected);
        let (_, action) = tell(call, Event::TransformFailed { error: "form" });
        if kind == CallKind::Mcp {
            assert!(begins(&action));
        } else {
            assert!(matches!(action, Action::Send { credential_id: 1, body } if body == "request"));
        }
    }
}

#[test]
fn network_errors_are_retried_after_a_wait() {
    let (call, _) = start(CallKind::Api, 5);
    let mut call = call;
    for attempt in 0..2 {
        let (next, action) = tell(send(call, 1), Event::SendFailed { error: "net" });
        assert!(matches!(action, Action::Backoff { attempt: a } if a == attempt));
        let (next, action) = tell(next, Event::Done);
        assert!(begins(&action));
        call = next;
    }
    let (_, action) = tell(send(call, 1), Event::SendFailed { error: "last" });
    assert_eq!(said(action), "outside: last");
}

#[test]
fn a_used_up_quota_is_reported_and_another_credential_tried() {
    for (kind, clears) in [(CallKind::Api, true), (CallKind::Mcp, false)] {
        let (call, _) = start(kind, 2);
        let (call, action) = answer_with(send(call, 3), 402, None, "monthly", true, false);
        assert!(matches!(action, Action::ReportQuotaExhausted { credential_id: 3, clear_balance }
            if clear_balance == clears));
        let (call, action) = tell(call, Event::Reported { any_available: true });
        assert!(begins(&action));
        let (call, _) = answer_with(send(call, 4), 402, None, "monthly", true, false);
        let (_, action) = tell(call, Event::Reported { any_available: false });
        assert!(said(action).ends_with("请求失败（所有凭据已用尽）: 402 Payment Required monthly"));
    }
}

#[test]
fn payment_required_without_the_monthly_limit_ends_the_call() {
    let (call, _) = start(CallKind::Mcp, 2);
    let (_, action) = answer(send(call, 3), 402, "pay");
    assert_eq!(said(action), "MCP 请求失败: 402 Payment Required pay");
}

#[test]
fn a_malformed_request_ends_the_call_with_a_summary() {
    let (call, _) = start(CallKind::Api, 2);
    let (call, action) =
        answer(send(call, 3), 400, r#"{"message":"Improperly formed","reason":"BAD"}"#);
    assert_eq!(said(action), "非流式 API 请求失败: 400 Bad Request Improperly formed (reason=BAD)");
    assert!(!call.expects::<&'static str>(&Event::Done));
}

#[test]
fn a_request_that_is_too_long_is_measured() {
    let (call, _) = start(CallKind::ApiStream, 2);
    let (_, action) = answer(send(call, 3), 400, "Input is too long.");
    assert_eq!(
        said(action),
        "流式 API 请求失败: 400 Bad Request Input is too long. \
         (request_body_bytes=5, estimated_input_tokens=1)"
    );
    let (call, _) = start(CallKind::Mcp, 2);
    let (_, action) = answer(send(call, 3), 400, "CONTENT_LENGTH_EXCEEDS_THRESHOLD");
    assert_eq!(
        said(action),
        "MCP 请求失败: 400 Bad Request Input is too long. \
         (request_body_bytes=7, estimated_input_tokens=2)"
    );
}

#[test]
fn sensitive_logs_hand_on_the_whole_body() {
    let begun: Result<(Kall, Act), ProviderError> =
        Call::start(CallKind::Mcp, true, "request", None, 1, 1);
    let (call, _) = begun.ok().unwrap();
    let (_, action) = answer(send(call, 3), 400, " Input is too long.\n ");
    assert_eq!(said(action), "MCP 请求失败: 400 Bad Request  Input is too long.\n ");
}

#[test]
fn a_token_is_renewed_once_for_each_credential() {
    for status in [401, 403] {
        let (call, _) = start(CallKind::Api, 5);
        let (call, action) = answer_with(send(call, 9), status, None, "token", false, true);
        assert!(matches!(action, Action::InvalidateAccessToken { credential_id: 9 }));
        let (call, action) = tell(call, Event::Done);
        assert!(begins(&action));
        let (call, action) = answer_with(send(call, 9), status, None, "token", false, true);
        assert!(matches!(action, Action::ReportFailure { credential_id: 9 }));
        let (call, action) = tell(call, Event::Reported { any_available: true });
        assert!(begins(&action));
        let (call, action) = answer_with(send(call, 10), status, None, "token", false, true);
        assert!(matches!(action, Action::InvalidateAccessToken { credential_id: 10 }));
        let (_, action) = tell(call, Event::Done);
        assert!(said(action).ends_with(" token"));
    }
}

#[test]
fn a_refused_credential_is_reported() {
    let (call, _) = start(CallKind::Api, 1);
    let (call, action) = answer(send(call, 9), 403, "no");
    assert!(matches!(action, Action::ReportFailure { credential_id: 9 }));
    let (_, action) = tell(call, Event::Reported { any_available: false });
    assert_eq!(said(action), "非流式 API 请求失败（所有凭据已用尽）: 403 Forbidden no");
}

#[test]
fn a_rate_limit_cools_the_credential_down() {
    let wait = Some(TimeSpan::from_secs(120));
    let (call, _) = start(CallKind::Api, 1);
    let (call, action) = answer_with(send(call, 1), 429, wait, "Too many requests", false, false);
    assert!(matches!(action, Action::SetCooldown { credential_id: 1, retry_after }
        if retry_after == wait));
    let (call, action) = tell(call, Event::Done);
    assert!(begins(&action));
    let (call, action) = answer(send(call, 2), 429, "Too many requests");
    assert!(matches!(action, Action::SetCooldown { credential_id: 2, retry_after: None }));
    let (_, action) = tell(call, Event::Done);
    assert_eq!(said(action), "非流式 API 请求失败: 429 Too Many Requests Too many requests");
}

#[test]
fn an_unavailable_model_goes_to_the_circuit_breaker() {
    let body = r#"{"reason":"MODEL_TEMPORARILY_UNAVAILABLE"}"#;
    for status in [408, 429, 500, 503] {
        let (call, _) = start(CallKind::Mcp, 2);
        let (call, action) = answer(send(call, 1), status, body);
        assert!(matches!(action, Action::ReportModelUnavailable));
        let (_, action) = tell(call, Event::BreakerTold { tripped: true });
        let text = said(action);
        assert!(text.starts_with("MCP 请求失败（模型暂时不可用，已触发熔断）: "));
        assert!(text.ends_with(body));

        let (call, _) = start(CallKind::Mcp, 2);
        let (call, _) = answer_with(send(call, 1), status, Some(TimeSpan::from_secs(60)), body,
            false, false);
        let (_, action) = tell(call, Event::BreakerTold { tripped: false });
        if status == 429 {
            assert!(matches!(action, Action::SetCooldown { credential_id: 1, retry_after }
                if retry_after == Some(TimeSpan::from_secs(60))));
        } else {
            assert!(matches!(action, Action::Backoff { attempt: 0 }));
        }
    }
    for status in [400, 401, 404] {
        let (call, _) = start(CallKind::Mcp, 2);
        let (_, action) = answer(send(call, 1), status, body);
        assert!(!matches!(action, Action::ReportModelUnavailable));
    }
}

#[test]
fn trouble_upstream_is_retried_after_a_wait() {
    for status in [408, 500, 502, 302, 700] {
        let (call, _) = start(CallKind::ApiStream, 1);
        let (call, action) = answer(send(call, 1), status, "high load");
        assert!(matches!(action, Action::Backoff { attempt: 0 }));
        let (call, _) = tell(call, Event::Done);
        let (_, action) = answer(send(call, 1), status, "still");
        let text = said(action);
        assert!(text.starts_with(&format!("流式 API 请求失败: {} ", status)));
        assert!(text.ends_with(" still"));
    }
}

#[test]
fn status_lines_carry_the_reason() {
    let error = ProviderError::Refused {
        kind: CallKind::Mcp,
        status: 418,
        body: String::from("b"),
    };
    assert_eq!(error.message(), "MCP 请求失败: 418 I'm a teapot b");
    let error = ProviderError::Refused {
        kind: CallKind::Mcp,
        status: 799,
        body: String::new(),
    };
    assert_eq!(error.message(), "MCP 请求失败: 799 <unknown status code> ");
}

#[test]
fn other_client_errors_end_the_call() {
    let (call, _) = start(CallKind::Mcp, 2);
    let (_, action) = answer(send(call, 1), 404, "gone");
    assert_eq!(said(action), "MCP 请求失败: 404 Not Found gone");
}

#[test]
fn calls_expect_only_what_they_wait_for() {
    let (call, _) = start(CallKind::Api, 1);
    assert!(!call.expects::<&'static str>(&Event::Done));
    assert!(!call.expects::<&'static str>(&Event::MachineId { found: true }));
    let call = send(call, 1);
    assert!(!call.expects(&Event::Responded { status: 99, retry_after: None, response: "r" }));
    assert!(!call.expects(&Event::Responded { status: 1000, retry_after: None, response: "r" }));
    assert!(call.expects(&Event::Responded { status: 999, retry_after: None, response: "r" }));
}

#[test]
fn no_call_takes_more_than_eight_events_per_attempt() {
    let (mut call, _) = start(CallKind::Api, 9);
    let body = "MODEL_TEMPORARILY_UNAVAILABLE";
    for attempt in 0..3 {
        let (next, action) = answer(send(call, attempt), 429, body);
        assert!(matches!(action, Action::ReportModelUnavailable));
        let (next, _) = tell(next, Event::BreakerTold { tripped: false });
        let (next, action) = tell(next, Event::Done);
        assert_eq!(begins(&action), attempt < 2);
        call = next;
    }
    assert!(!call.expects::<&'static str>(&Event::Done));
}

#[test]
fn one_credential_sends_at_most_three_times() {
    let (mut call, mut action) = start(CallKind::Api, 9);
    let mut sends = 0;
    while begins(&action) {
        call = send(call, 1);
        sends += 1;
        let (next, answered) = answer(call, 429, "slow down");
        assert!(matches!(answered, Action::SetCooldown { credential_id: 1, .. }));
        (call, action) = tell(next, Event::Done);
    }
    assert_eq!(sends, 3);
    assert_eq!(said(action), "非流式 API 请求失败: 429 Too Many Requests slow down");
}

#[test]
fn the_endpoint_is_asked_only_where_it_matters() {
    for status in [302, 400, 401, 402, 403, 404, 408, 429, 500] {
        let (call, _) = start(CallKind::Api, 2);
        let event = Event::Responded { status, retry_after: None, response: "resp" };
        let (_, action) = tell(send(call, 1), event);
        let Action::ReadBody { ask_quota, ask_token, .. } = action else {
            panic!("the body is not read");
        };
        assert_eq!(ask_quota, status == 402);
        assert_eq!(ask_token, status == 401 || status == 403);
    }
    let (call, _) = start(CallKind::Api, 2);
    let (_, action) = answer_with(send(call, 1), 404, None, "gone", true, true);
    assert_eq!(said(action), "非流式 API 请求失败: 404 Not Found gone");
}

#[test]
fn streams_differ_only_in_their_words() {
    for status in [400, 402, 404, 429, 503] {
        let (plain, _) = start(CallKind::Api, 1);
        let (stream, _) = start(CallKind::ApiStream, 1);
        let (plain, action) = answer(send(plain, 1), status, "b");
        let (stream, other) = answer(send(stream, 1), status, "b");
        if matches!(action, Action::Fail { .. }) {
            assert_eq!(said(action), format!("非{}", said(other)));
        } else {
            let (plain, _) = tell(plain, Event::Done);
            let (stream, _) = tell(stream, Event::Done);
            let (_, action) = tell(plain, Event::AcquireFailed { error: "none" });
            let (_, other) = tell(stream, Event::AcquireFailed { error: "none" });
            assert!(matches!(action, Action::Fail { failure: Failure::Outside("none") }));
            assert!(matches!(other, Action::Fail { failure: Failure::Outside("none") }));
        }
    }
}
