//! What a call can fail with, and how it is said.
use crate::body;
use crate::text;
use vstd::prelude::*;

verus! {

/// The kinds of calls.
#[derive(Clone, Copy, Debug, PartialEq, Eq, Structural)]
pub enum CallKind {
    /// A call of a tool.
    Mcp,
    /// A request whose answer comes in one piece.
    Api,
    /// A request whose answer comes as a stream.
    ApiStream,
}

impl CallKind {
    /// How messages name the failure of such a call.
    pub open spec fn failure_text(self) -> Seq<char> {
        match self {
            CallKind::Mcp => "MCP 请求失败"@,
            CallKind::Api => "非流式 API 请求失败"@,
            CallKind::ApiStream => "流式 API 请求失败"@,
        }
    }

    /// How messages name the failure of such a call.
    pub fn failure_label(self) -> (r: &'static str)
        ensures
            r@ == self.failure_text(),
    {
        match self {
            CallKind::Mcp => "MCP 请求失败",
            CallKind::Api => "非流式 API 请求失败",
            CallKind::ApiStream => "流式 API 请求失败",
        }
    }
}

/// A status code that a response can have: three digits.
pub open spec fn is_status(code: u16) -> bool {
    100 <= code <= 999
}

/// How a status code is written out: its digits, a space, and its canonical reason.
pub uninterp spec fn status_line(code: u16) -> Seq<char>;

/// `Display` of `StatusCode`: the digits of the code, a space, and the reason that goes with the
/// code. Which reason that is is the name `status_line`.
#[verifier::external_body]
fn status_text(code: u16) -> (r: String)
    requires
        is_status(code),
    ensures
        r@ == status_line(code),
        text::decimal(code as nat).push(' ').is_prefix_of(r@),
{
    reqwest::StatusCode::from_u16(code).unwrap().to_string()
}

/// What a call can fail with by the provider's own judgement.
#[derive(Debug)]
pub enum ProviderError {
    /// No credential is available.
    NoCredentials,
    /// No machine id could be made for the credential.
    NoMachineId,
    /// The endpoint with this name is not registered.
    UnknownEndpoint { name: String },
    /// The upstream refused the request.
    Refused { kind: CallKind, status: u16, body: String },
    /// The upstream found the request malformed.
    BadRequest { kind: CallKind, status: u16, body: String },
    /// The upstream found the request too long.
    InputTooLong { kind: CallKind, status: u16, request_bytes: usize, estimated_tokens: usize },
    /// The upstream refused the request, and no credential is left to try.
    CredentialsExhausted { kind: CallKind, status: u16, body: String },
    /// The model is unavailable for the moment, and the circuit breaker has tripped.
    ModelUnavailable { kind: CallKind, status: u16, body: String },
    /// Every attempt was used up.
    AttemptsExhausted { kind: CallKind, max_attempts: usize },
}

/// A failure with its status code and what follows it.
pub open spec fn status_message(head: Seq<char>, status: u16, tail: Seq<char>) -> Seq<char> {
    head + ": "@ + status_line(status) + " "@ + tail
}

impl ProviderError {
    /// A status code in it is one that a response can have.
    pub open spec fn wf(self) -> bool {
        match self {
            ProviderError::Refused { status, .. } => is_status(status),
            ProviderError::BadRequest { status, .. } => is_status(status),
            ProviderError::InputTooLong { status, .. } => is_status(status),
            ProviderError::CredentialsExhausted { status, .. } => is_status(status),
            ProviderError::ModelUnavailable { status, .. } => is_status(status),
            _ => true,
        }
    }

    /// The error in words.
    pub open spec fn text(self) -> Seq<char> {
        match self {
            ProviderError::NoCredentials => "没有可用的凭据"@,
            ProviderError::NoMachineId => "无法生成 machine_id，请检查凭证配置"@,
            ProviderError::UnknownEndpoint { name } => "未知端点: "@ + name@,
            ProviderError::Refused { kind, status, body } => status_message(
                kind.failure_text(),
                status,
                body@,
            ),
            ProviderError::BadRequest { kind, status, body } => status_message(
                kind.failure_text(),
                status,
                body::body_summary(body@),
            ),
            ProviderError::InputTooLong { kind, status, request_bytes, estimated_tokens } =>
            status_message(
                kind.failure_text(),
                status,
                "Input is too long. (request_body_bytes="@ + text::decimal(request_bytes as nat)
                    + ", estimated_input_tokens="@ + text::decimal(estimated_tokens as nat) + ")"@,
            ),
            ProviderError::CredentialsExhausted { kind, status, body } => status_message(
                kind.failure_text() + "（所有凭据已用尽）"@,
                status,
                body@,
            ),
            ProviderError::ModelUnavailable { kind, status, body } => status_message(
                kind.failure_text() + "（模型暂时不可用，已触发熔断）"@,
                status,
                body@,
            ),
            ProviderError::AttemptsExhausted { kind, max_attempts } => kind.failure_text()
                + "：已达到最大重试次数（"@ + text::decimal(max_attempts as nat) + "次）"@,
        }
    }

    /// The error in words.
    pub fn message(&self) -> (r: String)
        requires
            self.wf(),
        ensures
            r@ == self.text(),
    {
        proof {
            reveal_strlit("");
        }
        match self {
            ProviderError::NoCredentials => "没有可用的凭据".to_string(),
            ProviderError::NoMachineId => "无法生成 machine_id，请检查凭证配置".to_string(),
            ProviderError::UnknownEndpoint { name } => {
                let mut out = "未知端点: ".to_string();
                out.append(name.as_str());
                out
            },
            ProviderError::Refused { kind, status, body } => status_failure(
                *kind,
                "",
                *status,
                body.as_str(),
            ),
            ProviderError::BadRequest { kind, status, body } => status_failure(
                *kind,
                "",
                *status,
                body::summarize_error_body(body.as_str()).as_str(),
            ),
            ProviderError::InputTooLong { kind, status, request_bytes, estimated_tokens } => {
                let mut tail = "Input is too long. (request_body_bytes=".to_string();
                text::push_decimal(&mut tail, *request_bytes);
                tail.append(", estimated_input_tokens=");
                text::push_decimal(&mut tail, *estimated_tokens);
                tail.append(")");
                status_failure(*kind, "", *status, tail.as_str())
            },
            ProviderError::CredentialsExhausted { kind, status, body } => status_failure(
                *kind,
                "（所有凭据已用尽）",
                *status,
                body.as_str(),
            ),
            ProviderError::ModelUnavailable { kind, status, body } => status_failure(
                *kind,
                "（模型暂时不可用，已触发熔断）",
                *status,
                body.as_str(),
            ),
            ProviderError::AttemptsExhausted { kind, max_attempts } => {
                let mut out = kind.failure_label().to_string();
                out.append("：已达到最大重试次数（");
                text::push_decimal(&mut out, *max_attempts);
                out.append("次）");
                out
            },
        }
    }
}

fn status_failure(kind: CallKind, remark: &str, status: u16, tail: &str) -> (r: String)
    requires
        is_status(status),
    ensures
        r@ == status_message(kind.failure_text() + remark@, status, tail@),
        remark@.len() == 0 ==> r@ == status_message(kind.failure_text(), status, tail@),
{
    let mut out = kind.failure_label().to_string();
    out.append(remark);
    out.append(": ");
    out.append(status_text(status).as_str());
    out.append(" ");
    out.append(tail);
    assert(remark@.len() == 0 ==> kind.failure_text() + remark@ =~= kind.failure_text());
    out
}

/// How each failure is told: what was called, the status as it is written out, and what the upstream
/// said. A malformed request is told with the summary of the body, and every other refusal with the
/// body itself, whole.
pub proof fn law_refusals_are_told(kind: CallKind, status: u16, body: String)
    ensures
        ({
            let label = match kind {
                CallKind::Mcp => "MCP 请求失败"@,
                CallKind::Api => "非流式 API 请求失败"@,
                CallKind::ApiStream => "流式 API 请求失败"@,
            };
            let said = ": "@ + status_line(status) + " "@ + body@;
            let summed_up = ": "@ + status_line(status) + " "@ + body::body_summary(body@);
            &&& (ProviderError::Refused { kind, status, body }).text() == label + said
            &&& (ProviderError::BadRequest { kind, status, body }).text() == label + summed_up
            &&& (ProviderError::CredentialsExhausted { kind, status, body }).text() == label
                + "（所有凭据已用尽）"@ + said
            &&& (ProviderError::ModelUnavailable { kind, status, body }).text() == label
                + "（模型暂时不可用，已触发熔断）"@ + said
        }),
{
    let label = kind.failure_text();
    let said = ": "@ + status_line(status) + " "@ + body@;
    let summed_up = ": "@ + status_line(status) + " "@ + body::body_summary(body@);
    let none_left = label + "（所有凭据已用尽）"@;
    let tripped = label + "（模型暂时不可用，已触发熔断）"@;
    assert(status_message(label, status, body@) =~= label + said);
    assert(status_message(label, status, body::body_summary(body@)) =~= label + summed_up);
    assert(status_message(none_left, status, body@) =~= none_left + said);
    assert(status_message(tripped, status, body@) =~= tripped + said);
}

/// A request that is too long is told with its size in bytes and in tokens, and a call that has run
/// out of attempts with their number, all in digits; an unknown endpoint is told by its name.
pub proof fn law_numbers_are_told(
    kind: CallKind,
    status: u16,
    request_bytes: usize,
    estimated_tokens: usize,
    name: String,
)
    ensures
        ({
            let label = match kind {
                CallKind::Mcp => "MCP 请求失败"@,
                CallKind::Api => "非流式 API 请求失败"@,
                CallKind::ApiStream => "流式 API 请求失败"@,
            };
            let too_long = ProviderError::InputTooLong {
                kind,
                status,
                request_bytes,
                estimated_tokens,
            };
            let used_up = ProviderError::AttemptsExhausted { kind, max_attempts: request_bytes };
            &&& too_long.text() == label + ": "@ + status_line(status)
                + " Input is too long. (request_body_bytes="@ + text::decimal(request_bytes as nat)
                + ", estimated_input_tokens="@ + text::decimal(estimated_tokens as nat) + ")"@
            &&& used_up.text() == label + "：已达到最大重试次数（"@ + text::decimal(
                request_bytes as nat,
            ) + "次）"@
            &&& (ProviderError::UnknownEndpoint { name }).text() == "未知端点: "@ + name@
            &&& ProviderError::NoCredentials.text() == "没有可用的凭据"@
            &&& ProviderError::NoMachineId.text() == "无法生成 machine_id，请检查凭证配置"@
        }),
{
    let label = kind.failure_text();
    let too_long = ProviderError::InputTooLong { kind, status, request_bytes, estimated_tokens };
    reveal_strlit(" ");
    reveal_strlit("Input is too long. (request_body_bytes=");
    reveal_strlit(" Input is too long. (request_body_bytes=");
    assert(" "@ + "Input is too long. (request_body_bytes="@
        =~= " Input is too long. (request_body_bytes="@);
    assert(too_long.text() =~= label + ": "@ + status_line(status) + (" "@
        + "Input is too long. (request_body_bytes="@) + text::decimal(request_bytes as nat)
        + ", estimated_input_tokens="@ + text::decimal(estimated_tokens as nat) + ")"@);
}

} // verus!
