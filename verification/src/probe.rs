use vstd::prelude::*;
use vstd::utf8::{decode_utf8, valid_utf8};
use crate::desync::append_texts;
use crate::number::{dec, decimal, number_fits, number_of, parse_number};
use crate::text::{
    begins, cat2, cat3, cat5, lines, lines_of, opt_text, starts_with, strings, texts, texts_push,
    words, words_of,
};
use crate::types::{
    blank_result, empty_result, FailureKind, HttpMethod, ProbeContext, ProbeErrorClass,
    ProbeOutcome, ProbeProtocol, ProbeResult, ProbeTask, ReadMode, TransferLevel,
};

verus! {

/// Why a socket could not be made ready.
#[derive(Debug)]
pub enum ProbeError {
    SocketCreate(String),
    Bind(String),
    LocalAddr(String),
}

impl ProbeError {
    /// The failure in words.
    pub open spec fn words(self) -> Seq<char> {
        match self {
            ProbeError::SocketCreate(e) => "socket create failed: "@ + e@,
            ProbeError::Bind(e) => "bind failed: "@ + e@,
            ProbeError::LocalAddr(e) => "local_addr failed: "@ + e@,
        }
    }

    /// The failure in words.
    pub fn message(&self) -> (r: String)
        ensures
            r@ == self.words(),
    {
        match self {
            ProbeError::SocketCreate(e) => cat2("socket create failed: ", e.as_str()),
            ProbeError::Bind(e) => cat2("bind failed: ", e.as_str()),
            ProbeError::LocalAddr(e) => cat2("local_addr failed: ", e.as_str()),
        }
    }
}

#[derive(Debug, Clone, Copy, PartialEq, Eq, Structural)]
pub enum TlsProbeVersion {
    Tls12,
    Tls13,
}

// ---------------------------------------------------------------------------
// Reading an answer

/// Calls `std::str::from_utf8`: bytes that are valid UTF-8 give the text that they encode,
/// all others an error.
#[verifier::external_body]
fn utf8_text(bytes: &[u8]) -> (r: Option<String>)
    ensures
        opt_text(r) == if valid_utf8(bytes@) {
            Some(decode_utf8(bytes@))
        } else {
            None
        },
{
    std::str::from_utf8(bytes).ok().map(str::to_string)
}

/// What is left of bytes as text when everything that is no UTF-8 is replaced.
pub uninterp spec fn lossy_text(bytes: Seq<u8>) -> Seq<char>;

/// Calls `String::from_utf8_lossy`. Valid UTF-8 comes out as the text that it encodes; what
/// is put in place of invalid bytes is left unsaid.
#[verifier::external_body]
pub(crate) fn lossy(bytes: &[u8]) -> (r: String)
    ensures
        r@ == lossy_text(bytes@),
        valid_utf8(bytes@) ==> r@ == decode_utf8(bytes@),
{
    String::from_utf8_lossy(bytes).to_string()
}

/// The status in the first line of an answer.
pub open spec fn status_in(text: Seq<char>) -> Result<u16, ProbeErrorClass> {
    if lines_of(text).len() == 0 {
        Err(ProbeErrorClass::InvalidHttpResponse)
    } else {
        let parts = words_of(lines_of(text)[0]);
        if parts.len() < 2 || !begins(parts[0], "HTTP/"@) {
            Err(ProbeErrorClass::InvalidHttpResponse)
        } else {
            match number_of(parts[1], 10, 65535) {
                Ok(n) => Ok(n as u16),
                Err(_) => Err(ProbeErrorClass::InvalidHttpResponse),
            }
        }
    }
}

/// The status that an answer begins with.
pub open spec fn http_status_of(bytes: Seq<u8>) -> Result<u16, ProbeErrorClass> {
    if valid_utf8(bytes) {
        status_in(decode_utf8(bytes))
    } else {
        Err(ProbeErrorClass::InvalidHttpResponse)
    }
}

/// Reads the status in the first line of an answer.
pub fn status_of_text(text: &str) -> (r: Result<u16, ProbeErrorClass>)
    ensures
        r == status_in(text@),
{
    let all = lines(text);
    assert(texts(all@).len() == all@.len());
    if all.len() == 0 {
        return Err(ProbeErrorClass::InvalidHttpResponse);
    }
    assert(texts(all@)[0] == all@[0]@);
    let parts = words(all[0].as_str());
    assert(texts(parts@).len() == parts@.len());
    if parts.len() < 2 {
        return Err(ProbeErrorClass::InvalidHttpResponse);
    }
    assert(texts(parts@)[0] == parts@[0]@ && texts(parts@)[1] == parts@[1]@);
    if !starts_with(parts[0].as_str(), "HTTP/") {
        return Err(ProbeErrorClass::InvalidHttpResponse);
    }
    match parse_number(parts[1].as_str(), 10, 65535) {
        Ok(n) => {
            proof {
                number_fits(parts@[1]@, 10, 65535);
            }
            Ok(n as u16)
        },
        Err(_) => Err(ProbeErrorClass::InvalidHttpResponse),
    }
}

/// Reads the status that an answer begins with.
pub fn parse_http_status(bytes: &[u8]) -> (r: Result<u16, ProbeErrorClass>)
    ensures
        r == http_status_of(bytes@),
{
    match utf8_text(bytes) {
        Some(text) => status_of_text(text.as_str()),
        None => Err(ProbeErrorClass::InvalidHttpResponse),
    }
}

/// An answer as far as it was read.
#[derive(Debug, Clone, Copy, PartialEq, Eq, Structural)]
pub struct HttpResponseRead {
    pub status: Option<u16>,
    pub headers_complete: bool,
    pub header_bytes: usize,
    pub body_bytes: usize,
    pub total_bytes: usize,
    pub first_byte_ms: Option<u64>,
}

/// An empty line ends at position `i`.
pub open spec fn blank_line_ends(bytes: Seq<u8>, i: int) -> bool {
    4 <= i <= bytes.len() && bytes[i - 4] == 13 && bytes[i - 3] == 10 && bytes[i - 2] == 13
        && bytes[i - 1] == 10
}

/// Where the headers of an answer end: behind the first empty line, if there is one.
pub open spec fn headers_end(bytes: Seq<u8>, from: int) -> Option<int>
    decreases bytes.len() - from + 1,
{
    if from > bytes.len() {
        None
    } else if blank_line_ends(bytes, from) {
        Some(from)
    } else {
        headers_end(bytes, from + 1)
    }
}

/// An answer as far as it was read: its status, and how much of it are headers and body.
pub open spec fn response_read(bytes: Seq<u8>, first_byte_ms: Option<u64>) -> HttpResponseRead {
    let end = headers_end(bytes, 0);
    HttpResponseRead {
        status: match http_status_of(bytes) {
            Ok(s) => Some(s),
            Err(_) => None,
        },
        headers_complete: end is Some,
        header_bytes: match end {
            Some(n) => n as usize,
            None => bytes.len() as usize,
        },
        body_bytes: match end {
            Some(n) => (bytes.len() - n) as usize,
            None => 0,
        },
        total_bytes: bytes.len() as usize,
        first_byte_ms,
    }
}

fn find_headers_end(bytes: &[u8]) -> (r: Option<usize>)
    ensures
        match r {
            Some(n) => headers_end(bytes@, 0) == Some(n as int) && n <= bytes@.len(),
            None => headers_end(bytes@, 0) is None,
        },
{
    let len: usize = bytes.len();
    let mut i: usize = 0;
    while i < len
        invariant
            i <= len,
            len == bytes@.len(),
            headers_end(bytes@, i as int) == headers_end(bytes@, 0),
        decreases len - i,
    {
        if i >= 4 && bytes[i - 4] == 13 && bytes[i - 3] == 10 && bytes[i - 2] == 13 && bytes[i - 1]
            == 10 {
            return Some(i);
        }
        i = i + 1;
    }
    if i >= 4 && bytes[i - 4] == 13 && bytes[i - 3] == 10 && bytes[i - 2] == 13 && bytes[i - 1]
        == 10 {
        return Some(i);
    }
    assert(headers_end(bytes@, i + 1) is None);
    None
}

/// Takes an answer apart as far as it was read.
pub fn parse_http_response_read(bytes: &[u8], first_byte_ms: Option<u64>) -> (r: HttpResponseRead)
    ensures
        r == response_read(bytes@, first_byte_ms),
{
    let total: usize = bytes.len();
    let status = match parse_http_status(bytes) {
        Ok(s) => Some(s),
        Err(_) => None,
    };
    match find_headers_end(bytes) {
        Some(n) => HttpResponseRead {
            status,
            headers_complete: true,
            header_bytes: n,
            body_bytes: total - n,
            total_bytes: total,
            first_byte_ms,
        },
        None => HttpResponseRead {
            status,
            headers_complete: false,
            header_bytes: total,
            body_bytes: 0,
            total_bytes: total,
            first_byte_ms,
        },
    }
}

proof fn headers_end_bounds(bytes: Seq<u8>, from: int)
    requires
        0 <= from,
    ensures
        headers_end(bytes, from) matches Some(n) ==> from <= n <= bytes.len()
            && blank_line_ends(bytes, n),
    decreases bytes.len() - from + 1,
{
    if from <= bytes.len() && !blank_line_ends(bytes, from) {
        headers_end_bounds(bytes, from + 1);
    }
}

/// Headers and body make up all that was read.
pub proof fn response_parts_add_up(bytes: Seq<u8>, first_byte_ms: Option<u64>)
    requires
        bytes.len() <= usize::MAX,
    ensures
        response_read(bytes, first_byte_ms).header_bytes + response_read(
            bytes,
            first_byte_ms,
        ).body_bytes == response_read(bytes, first_byte_ms).total_bytes,
        response_read(bytes, first_byte_ms).total_bytes == bytes.len(),
{
    headers_end_bounds(bytes, 0);
}

// ---------------------------------------------------------------------------
// Judging an answer

/// What a status says of a probe: from 200 to 399 it succeeded, any other status is a block
/// page, and no status no answer.
pub open spec fn outcome_of_status(status: Option<u16>) -> ProbeOutcome {
    match status {
        Some(s) => if 200 <= s <= 399 {
            ProbeOutcome::Success
        } else {
            ProbeOutcome::HttpBlockPage
        },
        None => ProbeOutcome::EmptyResponse,
    }
}

/// What a status says of a probe.
pub fn probe_outcome_for_http_status(status: Option<u16>) -> (r: ProbeOutcome)
    ensures
        r == outcome_of_status(status),
{
    match status {
        Some(s) => if 200 <= s && s <= 399 {
            ProbeOutcome::Success
        } else {
            ProbeOutcome::HttpBlockPage
        },
        None => ProbeOutcome::EmptyResponse,
    }
}

/// An answer is a success if and only if its status is one of the two hundreds or of the
/// three hundreds, a redirect as good as a page. Every other status, from the lowest to the
/// highest, is a block page, and only a missing status an empty answer.
pub proof fn success_is_two_or_three_hundred(s: u16)
    ensures
        outcome_of_status(Some(s)) == ProbeOutcome::Success <==> 200 <= s && s <= 399,
        outcome_of_status(Some(s)) == ProbeOutcome::HttpBlockPage <==> s < 200 || 400 <= s,
        outcome_of_status(None) == ProbeOutcome::EmptyResponse,
        forall|status: Option<u16>| #[trigger]
            outcome_of_status(status) == ProbeOutcome::EmptyResponse ==> status is None,
{
}

/// Who is to blame for a failed probe: the target where no strategy was at work.
pub open spec fn blame(baseline: bool) -> FailureKind {
    if baseline {
        FailureKind::TargetFailure
    } else {
        FailureKind::StrategyFailure
    }
}

/// Who is to blame for a failed probe.
pub fn probe_failure_kind(baseline: bool) -> (r: FailureKind)
    ensures
        r == blame(baseline),
{
    if baseline {
        FailureKind::TargetFailure
    } else {
        FailureKind::StrategyFailure
    }
}

/// The kind of failure that an outcome is.
pub open spec fn outcome_kind(outcome: ProbeOutcome, baseline: bool) -> Option<FailureKind> {
    match outcome {
        ProbeOutcome::Success => None,
        ProbeOutcome::Cancelled => Some(FailureKind::Cancelled),
        ProbeOutcome::InternalError => Some(FailureKind::InfrastructureFailure),
        _ => Some(blame(baseline)),
    }
}

/// The error that an outcome is.
pub open spec fn outcome_class(outcome: ProbeOutcome) -> Option<ProbeErrorClass> {
    match outcome {
        ProbeOutcome::Success => None,
        ProbeOutcome::Cancelled => Some(ProbeErrorClass::Cancelled),
        ProbeOutcome::HttpBlockPage => Some(ProbeErrorClass::InvalidHttpResponse),
        ProbeOutcome::EmptyResponse => Some(ProbeErrorClass::ReadFailed),
        ProbeOutcome::Timeout => Some(ProbeErrorClass::ReadTimeout),
        ProbeOutcome::TcpReset => Some(ProbeErrorClass::ReadFailed),
        ProbeOutcome::TlsAlert => Some(ProbeErrorClass::TlsFailed),
        ProbeOutcome::Refused => Some(ProbeErrorClass::ConnectFailed),
        ProbeOutcome::NetworkUnreachable => Some(ProbeErrorClass::ConnectFailed),
        ProbeOutcome::DnsFailure => Some(ProbeErrorClass::ConnectFailed),
        ProbeOutcome::InternalError => Some(ProbeErrorClass::InternalError),
        ProbeOutcome::BodyTooSmall => Some(ProbeErrorClass::BodyTooSmall),
    }
}

/// The error that an outcome is, in words.
pub open spec fn outcome_message(outcome: ProbeOutcome) -> Option<Seq<char>> {
    match outcome {
        ProbeOutcome::Success => None,
        ProbeOutcome::Cancelled => Some("cancelled"@),
        ProbeOutcome::HttpBlockPage => Some("HTTP block page/status"@),
        ProbeOutcome::EmptyResponse => Some("empty response"@),
        ProbeOutcome::Timeout => Some("timeout"@),
        ProbeOutcome::TcpReset => Some("TCP reset"@),
        ProbeOutcome::TlsAlert => Some("TLS alert"@),
        ProbeOutcome::Refused => Some("connection refused"@),
        ProbeOutcome::NetworkUnreachable => Some("network unreachable"@),
        ProbeOutcome::DnsFailure => Some("DNS failure"@),
        ProbeOutcome::InternalError => Some("internal error"@),
        ProbeOutcome::BodyTooSmall => Some("response body too small"@),
    }
}

fn message_of_outcome(outcome: ProbeOutcome) -> (r: Option<String>)
    ensures
        opt_text(r) == outcome_message(outcome),
{
    let text = match outcome {
        ProbeOutcome::Success => {
            return None;
        },
        ProbeOutcome::Cancelled => "cancelled",
        ProbeOutcome::HttpBlockPage => "HTTP block page/status",
        ProbeOutcome::EmptyResponse => "empty response",
        ProbeOutcome::Timeout => "timeout",
        ProbeOutcome::TcpReset => "TCP reset",
        ProbeOutcome::TlsAlert => "TLS alert",
        ProbeOutcome::Refused => "connection refused",
        ProbeOutcome::NetworkUnreachable => "network unreachable",
        ProbeOutcome::DnsFailure => "DNS failure",
        ProbeOutcome::InternalError => "internal error",
        ProbeOutcome::BodyTooSmall => "response body too small",
    };
    Some(text.to_owned())
}

/// The kind of failure, the error and its words for an outcome.
pub fn classify_probe_outcome(outcome: ProbeOutcome, baseline: bool) -> (r: (
    Option<FailureKind>,
    Option<ProbeErrorClass>,
    Option<String>,
))
    ensures
        r.0 == outcome_kind(outcome, baseline),
        r.1 == outcome_class(outcome),
        opt_text(r.2) == outcome_message(outcome),
{
    let message = message_of_outcome(outcome);
    let kind = probe_failure_kind(baseline);
    match outcome {
        ProbeOutcome::Success => (None, None, message),
        ProbeOutcome::Cancelled => (
            Some(FailureKind::Cancelled),
            Some(ProbeErrorClass::Cancelled),
            message,
        ),
        ProbeOutcome::HttpBlockPage => (
            Some(kind),
            Some(ProbeErrorClass::InvalidHttpResponse),
            message,
        ),
        ProbeOutcome::EmptyResponse => (Some(kind), Some(ProbeErrorClass::ReadFailed), message),
        ProbeOutcome::Timeout => (Some(kind), Some(ProbeErrorClass::ReadTimeout), message),
        ProbeOutcome::TcpReset => (Some(kind), Some(ProbeErrorClass::ReadFailed), message),
        ProbeOutcome::TlsAlert => (Some(kind), Some(ProbeErrorClass::TlsFailed), message),
        ProbeOutcome::Refused => (Some(kind), Some(ProbeErrorClass::ConnectFailed), message),
        ProbeOutcome::NetworkUnreachable => (
            Some(kind),
            Some(ProbeErrorClass::ConnectFailed),
            message,
        ),
        ProbeOutcome::DnsFailure => (Some(kind), Some(ProbeErrorClass::ConnectFailed), message),
        ProbeOutcome::InternalError => (
            Some(FailureKind::InfrastructureFailure),
            Some(ProbeErrorClass::InternalError),
            message,
        ),
        ProbeOutcome::BodyTooSmall => (Some(kind), Some(ProbeErrorClass::BodyTooSmall), message),
    }
}

/// An outcome is a failure of some kind, with an error and words for it, exactly where it is
/// no success. The target is never blamed for a strategy, nor a strategy for the target.
pub proof fn outcome_is_classified(outcome: ProbeOutcome, baseline: bool)
    ensures
        outcome_kind(outcome, baseline) is None <==> outcome == ProbeOutcome::Success,
        outcome_class(outcome) is None <==> outcome == ProbeOutcome::Success,
        outcome_message(outcome) is None <==> outcome == ProbeOutcome::Success,
        baseline ==> outcome_kind(outcome, baseline) != Some(FailureKind::StrategyFailure),
        !baseline ==> outcome_kind(outcome, baseline) != Some(FailureKind::TargetFailure),
{
}

/// An answer has to bring a body: one to a `GET` whose body is read.
pub open spec fn body_wanted(method: HttpMethod, read_mode: ReadMode) -> bool {
    method == HttpMethod::Get && read_mode != ReadMode::Headers
}

/// What an answer says of a probe: its status decides, but where a body is wanted it must
/// not fall short of the least size. What was read before the headers ended is no body.
pub open spec fn judged(
    status: Option<u16>,
    headers_complete: bool,
    body_bytes: usize,
    method: HttpMethod,
    read_mode: ReadMode,
    min_body_bytes: usize,
) -> ProbeOutcome {
    let body = if headers_complete {
        body_bytes
    } else {
        0
    };
    if outcome_of_status(status) == ProbeOutcome::Success && body_wanted(method, read_mode) && body
        < min_body_bytes {
        ProbeOutcome::BodyTooSmall
    } else {
        outcome_of_status(status)
    }
}

/// What an answer says of a probe, with the error and its words where it failed.
pub fn classify_http_response(
    status: Option<u16>,
    headers_complete: bool,
    body_bytes: usize,
    method: HttpMethod,
    read_mode: ReadMode,
    min_body_bytes: usize,
) -> (r: (ProbeOutcome, Option<ProbeErrorClass>, Option<String>))
    ensures
        r.0 == judged(
            status,
            headers_complete,
            body_bytes,
            method,
            read_mode,
            min_body_bytes,
        ),
        r.1 == outcome_class(r.0),
        opt_text(r.2) == outcome_message(r.0),
{
    let body: usize = if headers_complete {
        body_bytes
    } else {
        0
    };
    let by_status = probe_outcome_for_http_status(status);
    let outcome = if by_status == ProbeOutcome::Success && method == HttpMethod::Get && read_mode
        != ReadMode::Headers && body < min_body_bytes {
        ProbeOutcome::BodyTooSmall
    } else {
        by_status
    };
    let (_, class, message) = classify_probe_outcome(outcome, false);
    (outcome, class, message)
}

// ---------------------------------------------------------------------------
// The request

/// How a request names the host: with the port, unless it is the usual one.
pub open spec fn host_header(host: Seq<char>, port: u16, usual: u16) -> Seq<char> {
    if port == usual {
        host
    } else {
        host + ":"@ + dec(port as nat)
    }
}

/// A path, or the root where it is empty.
pub open spec fn path_or_root(path: Seq<char>) -> Seq<char> {
    if path.len() == 0 {
        "/"@
    } else {
        path
    }
}

/// The request that a probe sends. It asks for the body whatever method the answer is judged
/// by.
pub open spec fn request_text(task: ProbeTask) -> Seq<char> {
    "GET "@ + path_or_root(task.path@) + " HTTP/1.1\r\nHost: "@
        + host_header(task.target_host@, task.target_port, task.protocol.port())
        + "\r\nUser-Agent: "@ + task.request.user_agent@ + "\r\nConnection: close\r\n\r\n"@
}

fn path_text(path: &str) -> (r: String)
    ensures
        r@ == path_or_root(path@),
{
    if path.is_empty() {
        "/".to_owned()
    } else {
        path.to_owned()
    }
}

/// The request that a probe sends.
pub fn build_http_request(task: &ProbeTask) -> (r: String)
    ensures
        r@ == request_text(*task),
{
    let mut out = "GET ".to_owned();
    out.append(path_text(task.path.as_str()).as_str());
    out.append(" HTTP/1.1\r\nHost: ");
    let host = if task.target_port == task.protocol.default_port() {
        task.target_host.clone()
    } else {
        cat3(task.target_host.as_str(), ":", decimal(task.target_port as u64).as_str())
    };
    out.append(host.as_str());
    out.append("\r\nUser-Agent: ");
    out.append(task.request.user_agent.as_str());
    out.append("\r\nConnection: close\r\n\r\n");
    out
}

// ---------------------------------------------------------------------------
// The steps of a probe

/// What a probe does next.
#[derive(Debug)]
pub enum ProbeStep {
    /// Connect to the target.
    Connect,
    /// Shake hands by TLS.
    Handshake(TlsProbeVersion),
    /// Send the request.
    Send(String),
    /// Read the answer, at most this many bytes.
    Read(usize),
    /// Read on behind the part of the answer that is there, at most this many bytes.
    ReadOn(AnswerPart, usize),
    /// Nothing more: this came of it.
    Finish(ProbeResult),
}

/// What came of a step.
#[derive(Debug)]
pub enum StepEnd {
    Done,
    Failed(String),
    TimedOut,
    Cancelled,
}

/// What came of reading.
#[derive(Debug)]
pub enum ReadEnd {
    Bytes(Vec<u8>),
    Failed(String),
    TimedOut,
    Cancelled,
}

/// A part of an answer: its bytes, and the status that was read from what came first.
#[derive(Debug)]
pub struct AnswerPart {
    pub status: Option<u16>,
    pub bytes: Vec<u8>,
}

/// Why there is no handshake.
#[derive(Debug)]
pub enum TlsObstacle {
    /// No root certificates could be loaded.
    NoConfig(String),
    /// The host is no name that a certificate could be for.
    BadServerName(String),
}

/// How long the steps took that were done.
#[derive(Debug, Clone, Copy, PartialEq, Eq, Structural)]
pub struct StepTimes {
    pub connect_ms: Option<u64>,
    pub tls_ms: Option<u64>,
    pub total_ms: u64,
}

/// The result of a probe that failed in a step.
pub open spec fn failed_result(
    task: ProbeTask,
    qnum: u16,
    source_port: u16,
    outcome: ProbeOutcome,
    kind: FailureKind,
    class: ProbeErrorClass,
    message: Option<String>,
    times: StepTimes,
) -> ProbeResult {
    ProbeResult {
        connect_ms: times.connect_ms,
        tls_ms: times.tls_ms,
        ..blank_result(
            task,
            Some(qnum),
            Some(source_port),
            times.total_ms,
            outcome,
            Some(kind),
            Some(class),
            message,
        )
    }
}

/// `r` is the result of a probe that failed in a step, with the given words.
pub open spec fn is_failure(
    r: ProbeResult,
    task: ProbeTask,
    qnum: u16,
    source_port: u16,
    outcome: ProbeOutcome,
    kind: FailureKind,
    class: ProbeErrorClass,
    message: Seq<char>,
    times: StepTimes,
) -> bool {
    &&& opt_text(r.error_message) == Some(message)
    &&& r == failed_result(
        task,
        qnum,
        source_port,
        outcome,
        kind,
        class,
        r.error_message,
        times,
    )
}

/// `r` is the result of a probe that was cancelled.
pub open spec fn is_cancelled(
    r: ProbeResult,
    task: ProbeTask,
    qnum: u16,
    source_port: u16,
    total_ms: u64,
) -> bool {
    is_failure(
        r,
        task,
        qnum,
        source_port,
        ProbeOutcome::Cancelled,
        FailureKind::Cancelled,
        ProbeErrorClass::Cancelled,
        "cancelled"@,
        StepTimes { connect_ms: None, tls_ms: None, total_ms },
    )
}

fn failure(
    task: &ProbeTask,
    qnum: u16,
    source_port: u16,
    outcome: ProbeOutcome,
    kind: FailureKind,
    class: ProbeErrorClass,
    message: String,
    times: StepTimes,
) -> (r: ProbeResult)
    ensures
        is_failure(r, *task, qnum, source_port, outcome, kind, class, message@, times),
{
    let mut r = empty_result(
        task,
        Some(qnum),
        Some(source_port),
        times.total_ms,
        outcome,
        Some(kind),
        Some(class),
        Some(message),
    );
    r.connect_ms = times.connect_ms;
    r.tls_ms = times.tls_ms;
    r
}

fn cancelled_result(task: &ProbeTask, qnum: u16, source_port: u16, total_ms: u64) -> (r:
    ProbeResult)
    ensures
        is_cancelled(r, *task, qnum, source_port, total_ms),
{
    failure(
        task,
        qnum,
        source_port,
        ProbeOutcome::Cancelled,
        FailureKind::Cancelled,
        ProbeErrorClass::Cancelled,
        "cancelled".to_owned(),
        StepTimes { connect_ms: None, tls_ms: None, total_ms },
    )
}

/// `r` is the first step of a probe.
pub open spec fn is_first_step(
    task: ProbeTask,
    ctx: ProbeContext,
    source_port: u16,
    cancelled: bool,
    total_ms: u64,
    r: ProbeStep,
) -> bool {
    match r {
        ProbeStep::Connect => !cancelled,
        ProbeStep::Finish(res) => cancelled && is_cancelled(
            res,
            task,
            ctx.qnum,
            source_port,
            total_ms,
        ),
        _ => false,
    }
}

/// The first step: to connect, unless the probe was cancelled before.
pub fn begin_probe(
    task: &ProbeTask,
    ctx: ProbeContext,
    source_port: u16,
    cancelled: bool,
    total_ms: u64,
) -> (r: ProbeStep)
    ensures
        is_first_step(*task, ctx, source_port, cancelled, total_ms, r),
{
    if cancelled {
        ProbeStep::Finish(cancelled_result(task, ctx.qnum, source_port, total_ms))
    } else {
        ProbeStep::Connect
    }
}

/// `r` is the step that follows on connecting.
pub open spec fn follows_connect(
    task: ProbeTask,
    ctx: ProbeContext,
    source_port: u16,
    end: StepEnd,
    connect_ms: u64,
    total_ms: u64,
    r: ProbeStep,
) -> bool {
    match end {
        StepEnd::Done => match task.protocol {
            ProbeProtocol::HttpPlain => r matches ProbeStep::Send(text) && text@
                == request_text(task),
            ProbeProtocol::Tls12Http11 => r == ProbeStep::Handshake(TlsProbeVersion::Tls12),
            ProbeProtocol::Tls13Http11 => r == ProbeStep::Handshake(TlsProbeVersion::Tls13),
            ProbeProtocol::QuicHttp3Future => r matches ProbeStep::Finish(res) && is_failure(
                res,
                task,
                ctx.qnum,
                source_port,
                ProbeOutcome::InternalError,
                FailureKind::InfrastructureFailure,
                ProbeErrorClass::InternalError,
                "QUIC backend not implemented"@,
                StepTimes { connect_ms: Some(connect_ms), tls_ms: None, total_ms },
            ),
        },
        StepEnd::Failed(e) => r matches ProbeStep::Finish(res) && is_failure(
            res,
            task,
            ctx.qnum,
            source_port,
            ProbeOutcome::Refused,
            blame(ctx.baseline),
            ProbeErrorClass::ConnectFailed,
            e@,
            StepTimes { connect_ms: None, tls_ms: None, total_ms },
        ),
        StepEnd::TimedOut => r matches ProbeStep::Finish(res) && is_failure(
            res,
            task,
            ctx.qnum,
            source_port,
            ProbeOutcome::Timeout,
            blame(ctx.baseline),
            ProbeErrorClass::ConnectTimeout,
            "connect timeout"@,
            StepTimes { connect_ms: None, tls_ms: None, total_ms },
        ),
        StepEnd::Cancelled => r matches ProbeStep::Finish(res) && is_cancelled(
            res,
            task,
            ctx.qnum,
            source_port,
            total_ms,
        ),
    }
}

/// The step after connecting. `connect_ms` tells how long it took.
pub fn after_connect(
    task: &ProbeTask,
    ctx: ProbeContext,
    source_port: u16,
    end: StepEnd,
    connect_ms: u64,
    total_ms: u64,
) -> (r: ProbeStep)
    ensures
        follows_connect(*task, ctx, source_port, end, connect_ms, total_ms, r),
{
    let none = StepTimes { connect_ms: None, tls_ms: None, total_ms };
    match end {
        StepEnd::Done => match task.protocol {
            ProbeProtocol::HttpPlain => ProbeStep::Send(build_http_request(task)),
            ProbeProtocol::Tls12Http11 => ProbeStep::Handshake(TlsProbeVersion::Tls12),
            ProbeProtocol::Tls13Http11 => ProbeStep::Handshake(TlsProbeVersion::Tls13),
            ProbeProtocol::QuicHttp3Future => ProbeStep::Finish(
                failure(
                    task,
                    ctx.qnum,
                    source_port,
                    ProbeOutcome::InternalError,
                    FailureKind::InfrastructureFailure,
                    ProbeErrorClass::InternalError,
                    "QUIC backend not implemented".to_owned(),
                    StepTimes { connect_ms: Some(connect_ms), tls_ms: None, total_ms },
                ),
            ),
        },
        StepEnd::Failed(e) => ProbeStep::Finish(
            failure(
                task,
                ctx.qnum,
                source_port,
                ProbeOutcome::Refused,
                probe_failure_kind(ctx.baseline),
                ProbeErrorClass::ConnectFailed,
                e,
                none,
            ),
        ),
        StepEnd::TimedOut => ProbeStep::Finish(
            failure(
                task,
                ctx.qnum,
                source_port,
                ProbeOutcome::Timeout,
                probe_failure_kind(ctx.baseline),
                ProbeErrorClass::ConnectTimeout,
                "connect timeout".to_owned(),
                none,
            ),
        ),
        StepEnd::Cancelled => ProbeStep::Finish(
            cancelled_result(task, ctx.qnum, source_port, total_ms),
        ),
    }
}

/// `r` is the result where there is no handshake.
pub open spec fn is_tls_failure(
    task: ProbeTask,
    ctx: ProbeContext,
    source_port: u16,
    obstacle: TlsObstacle,
    times: StepTimes,
    r: ProbeResult,
) -> bool {
    match obstacle {
        TlsObstacle::NoConfig(e) => is_failure(
            r,
            task,
            ctx.qnum,
            source_port,
            ProbeOutcome::InternalError,
            FailureKind::InfrastructureFailure,
            ProbeErrorClass::TlsFailed,
            e@,
            times,
        ),
        TlsObstacle::BadServerName(e) => is_failure(
            r,
            task,
            ctx.qnum,
            source_port,
            ProbeOutcome::TlsAlert,
            FailureKind::InfrastructureFailure,
            ProbeErrorClass::TlsFailed,
            e@,
            times,
        ),
    }
}

/// The result where there is no handshake. The strategy is not to blame.
pub fn tls_impossible(
    task: &ProbeTask,
    ctx: ProbeContext,
    source_port: u16,
    obstacle: TlsObstacle,
    times: StepTimes,
) -> (r: ProbeResult)
    ensures
        is_tls_failure(*task, ctx, source_port, obstacle, times, r),
{
    match obstacle {
        TlsObstacle::NoConfig(e) => failure(
            task,
            ctx.qnum,
            source_port,
            ProbeOutcome::InternalError,
            FailureKind::InfrastructureFailure,
            ProbeErrorClass::TlsFailed,
            e,
            times,
        ),
        TlsObstacle::BadServerName(e) => failure(
            task,
            ctx.qnum,
            source_port,
            ProbeOutcome::TlsAlert,
            FailureKind::InfrastructureFailure,
            ProbeErrorClass::TlsFailed,
            e,
            times,
        ),
    }
}

/// `r` is the step that follows on the handshake.
pub open spec fn follows_handshake(
    task: ProbeTask,
    ctx: ProbeContext,
    source_port: u16,
    end: StepEnd,
    times: StepTimes,
    r: ProbeStep,
) -> bool {
    match end {
        StepEnd::Done => r matches ProbeStep::Send(text) && text@ == request_text(task),
        StepEnd::Failed(e) => r matches ProbeStep::Finish(res) && is_failure(
            res,
            task,
            ctx.qnum,
            source_port,
            ProbeOutcome::TlsAlert,
            blame(ctx.baseline),
            ProbeErrorClass::TlsFailed,
            e@,
            times,
        ),
        StepEnd::TimedOut => r matches ProbeStep::Finish(res) && is_failure(
            res,
            task,
            ctx.qnum,
            source_port,
            ProbeOutcome::Timeout,
            blame(ctx.baseline),
            ProbeErrorClass::TlsTimeout,
            "TLS timeout"@,
            times,
        ),
        StepEnd::Cancelled => r matches ProbeStep::Finish(res) && is_cancelled(
            res,
            task,
            ctx.qnum,
            source_port,
            times.total_ms,
        ),
    }
}

/// The step after the handshake. `times` tells how long it took to connect.
pub fn after_handshake(
    task: &ProbeTask,
    ctx: ProbeContext,
    source_port: u16,
    end: StepEnd,
    times: StepTimes,
) -> (r: ProbeStep)
    ensures
        follows_handshake(*task, ctx, source_port, end, times, r),
{
    match end {
        StepEnd::Done => ProbeStep::Send(build_http_request(task)),
        StepEnd::Failed(e) => ProbeStep::Finish(
            failure(
                task,
                ctx.qnum,
                source_port,
                ProbeOutcome::TlsAlert,
                probe_failure_kind(ctx.baseline),
                ProbeErrorClass::TlsFailed,
                e,
                times,
            ),
        ),
        StepEnd::TimedOut => ProbeStep::Finish(
            failure(
                task,
                ctx.qnum,
                source_port,
                ProbeOutcome::Timeout,
                probe_failure_kind(ctx.baseline),
                ProbeErrorClass::TlsTimeout,
                "TLS timeout".to_owned(),
                times,
            ),
        ),
        StepEnd::Cancelled => ProbeStep::Finish(
            cancelled_result(task, ctx.qnum, source_port, times.total_ms),
        ),
    }
}

/// How much is read of an answer: as much as is allowed, but one byte at least.
pub open spec fn read_limit(max_read_bytes: usize) -> usize {
    if max_read_bytes == 0 {
        1
    } else {
        max_read_bytes
    }
}

fn most_to_read(max_read_bytes: usize) -> (r: usize)
    ensures
        r == read_limit(max_read_bytes),
{
    if max_read_bytes == 0 {
        1
    } else {
        max_read_bytes
    }
}

/// `r` is the step that follows on sending the request.
pub open spec fn follows_send(
    task: ProbeTask,
    ctx: ProbeContext,
    source_port: u16,
    max_read_bytes: usize,
    error: Option<String>,
    times: StepTimes,
    r: ProbeStep,
) -> bool {
    match error {
        None => r == ProbeStep::Read(read_limit(max_read_bytes)),
        Some(e) => r matches ProbeStep::Finish(res) && is_failure(
            res,
            task,
            ctx.qnum,
            source_port,
            ProbeOutcome::EmptyResponse,
            blame(ctx.baseline),
            ProbeErrorClass::ReadFailed,
            e@,
            times,
        ),
    }
}

/// The step after sending the request: to read at most as much as the probe allows, but one
/// byte at least. `error` tells why it could not be sent.
pub fn after_send(
    task: &ProbeTask,
    ctx: ProbeContext,
    source_port: u16,
    max_read_bytes: usize,
    error: Option<String>,
    times: StepTimes,
) -> (r: ProbeStep)
    ensures
        follows_send(*task, ctx, source_port, max_read_bytes, error, times, r),
{
    match error {
        None => ProbeStep::Read(most_to_read(max_read_bytes)),
        Some(e) => ProbeStep::Finish(
            failure(
                task,
                ctx.qnum,
                source_port,
                ProbeOutcome::EmptyResponse,
                probe_failure_kind(ctx.baseline),
                ProbeErrorClass::ReadFailed,
                e,
                times,
            ),
        ),
    }
}

/// The bytes of the part of an answer that is there.
pub open spec fn bytes_there(part: Option<AnswerPart>) -> Seq<u8> {
    match part {
        Some(p) => p.bytes@,
        None => Seq::empty(),
    }
}

/// An answer as far as it was read. Its status is that of what came first.
pub open spec fn answer_read(
    part: Option<AnswerPart>,
    bytes: Seq<u8>,
    first_byte_ms: u64,
) -> HttpResponseRead {
    let read = response_read(bytes, Some(first_byte_ms));
    match part {
        Some(p) => HttpResponseRead { status: p.status, ..read },
        None => read,
    }
}

/// An answer falls short of the least body, and more of it may be read.
pub open spec fn reads_on(task: ProbeTask, read: HttpResponseRead, max_read_bytes: usize) -> bool {
    &&& read.total_bytes < read_limit(max_read_bytes)
    &&& judged(
        read.status,
        read.headers_complete,
        read.body_bytes,
        task.request.method,
        task.request.read_mode,
        task.request.min_body_bytes,
    ) == ProbeOutcome::BodyTooSmall
}

/// The result of a probe that was answered.
pub open spec fn answered_result(
    task: ProbeTask,
    ctx: ProbeContext,
    source_port: u16,
    read: HttpResponseRead,
    message: Option<String>,
    times: StepTimes,
) -> ProbeResult {
    let outcome = judged(
        read.status,
        read.headers_complete,
        read.body_bytes,
        task.request.method,
        task.request.read_mode,
        task.request.min_body_bytes,
    );
    ProbeResult {
        strategy_id: task.strategy_id,
        worker_id: task.worker_id,
        qnum: if ctx.baseline {
            None
        } else {
            Some(ctx.qnum)
        },
        assigned_source_port: Some(source_port),
        target_host: task.target_host,
        target_ip: task.target_ip,
        target_port: task.target_port,
        protocol: task.protocol,
        path: task.request.path_and_query,
        method: task.request.method,
        read_mode: task.request.read_mode,
        setup_ms: None,
        connect_ms: times.connect_ms,
        tls_ms: times.tls_ms,
        first_byte_ms: read.first_byte_ms,
        total_ms: times.total_ms,
        outcome,
        http_status: read.status,
        bytes_read: read.total_bytes,
        header_bytes: read.header_bytes,
        body_bytes: read.body_bytes,
        total_bytes: read.total_bytes,
        transfer_level: TransferLevel::Nothing,
        dpi_suspicious: false,
        failure_kind: outcome_kind(outcome, ctx.baseline),
        error_class: outcome_class(outcome),
        error_message: message,
    }
}

fn answered(
    task: &ProbeTask,
    ctx: ProbeContext,
    source_port: u16,
    read: HttpResponseRead,
    times: StepTimes,
) -> (r: ProbeResult)
    ensures
        opt_text(r.error_message) == outcome_message(r.outcome),
        r == answered_result(*task, ctx, source_port, read, r.error_message, times),
{
    let (outcome, _, _) = classify_http_response(
        read.status,
        read.headers_complete,
        read.body_bytes,
        task.request.method,
        task.request.read_mode,
        task.request.min_body_bytes,
    );
    let (kind, class, message) = classify_probe_outcome(outcome, ctx.baseline);
    ProbeResult {
        strategy_id: task.strategy_id.clone(),
        worker_id: task.worker_id,
        qnum: if ctx.baseline {
            None
        } else {
            Some(ctx.qnum)
        },
        assigned_source_port: Some(source_port),
        target_host: task.target_host.clone(),
        target_ip: task.target_ip.clone(),
        target_port: task.target_port,
        protocol: task.protocol,
        path: task.request.path_and_query.clone(),
        method: task.request.method,
        read_mode: task.request.read_mode,
        setup_ms: None,
        connect_ms: times.connect_ms,
        tls_ms: times.tls_ms,
        first_byte_ms: read.first_byte_ms,
        total_ms: times.total_ms,
        outcome,
        http_status: read.status,
        bytes_read: read.total_bytes,
        header_bytes: read.header_bytes,
        body_bytes: read.body_bytes,
        total_bytes: read.total_bytes,
        transfer_level: TransferLevel::Nothing,
        dpi_suspicious: false,
        failure_kind: kind,
        error_class: class,
        error_message: message,
    }
}

/// `r` is the result of a probe that was answered.
pub open spec fn is_answer(
    r: ProbeResult,
    task: ProbeTask,
    ctx: ProbeContext,
    source_port: u16,
    read: HttpResponseRead,
    times: StepTimes,
) -> bool {
    &&& opt_text(r.error_message) == outcome_message(r.outcome)
    &&& r == answered_result(task, ctx, source_port, read, r.error_message, times)
}

/// `r` is the step that follows on reading.
pub open spec fn follows_read(
    task: ProbeTask,
    ctx: ProbeContext,
    source_port: u16,
    max_read_bytes: usize,
    part: Option<AnswerPart>,
    end: ReadEnd,
    first_byte_ms: u64,
    times: StepTimes,
    r: ProbeStep,
) -> bool {
    match end {
        ReadEnd::Bytes(bytes) => {
            let all = bytes_there(part) + bytes@;
            let read = answer_read(part, all, first_byte_ms);
            if all.len() == 0 {
                r matches ProbeStep::Finish(res) && is_failure(
                    res,
                    task,
                    ctx.qnum,
                    source_port,
                    ProbeOutcome::EmptyResponse,
                    blame(ctx.baseline),
                    ProbeErrorClass::ReadFailed,
                    "empty response"@,
                    times,
                )
            } else if bytes@.len() > 0 && reads_on(task, read, max_read_bytes) {
                r matches ProbeStep::ReadOn(p, most) && p.status == read.status && p.bytes@
                    == all && most == read_limit(max_read_bytes) - all.len()
            } else {
                r matches ProbeStep::Finish(res) && is_answer(
                    res,
                    task,
                    ctx,
                    source_port,
                    read,
                    times,
                )
            }
        },
        ReadEnd::Failed(e) => r matches ProbeStep::Finish(res) && if bytes_there(part).len()
            == 0 {
            is_failure(
                res,
                task,
                ctx.qnum,
                source_port,
                ProbeOutcome::TcpReset,
                blame(ctx.baseline),
                ProbeErrorClass::ReadFailed,
                e@,
                times,
            )
        } else {
            is_answer(
                res,
                task,
                ctx,
                source_port,
                answer_read(part, bytes_there(part), first_byte_ms),
                times,
            )
        },
        ReadEnd::TimedOut => r matches ProbeStep::Finish(res) && if bytes_there(part).len()
            == 0 {
            is_failure(
                res,
                task,
                ctx.qnum,
                source_port,
                ProbeOutcome::Timeout,
                blame(ctx.baseline),
                ProbeErrorClass::FirstByteTimeout,
                "first byte timeout"@,
                times,
            )
        } else {
            is_answer(
                res,
                task,
                ctx,
                source_port,
                answer_read(part, bytes_there(part), first_byte_ms),
                times,
            )
        },
        ReadEnd::Cancelled => r matches ProbeStep::Finish(res) && is_cancelled(
            res,
            task,
            ctx.qnum,
            source_port,
            times.total_ms,
        ),
    }
}

/// The step after reading. `part` is what was read before, and `first_byte_ms` tells how long it
/// took until something came. An answer that succeeds by its status but still falls short of the
/// least body is read on until the body suffices, the answer ends or the limit is reached;
/// everything else is judged at once.
pub fn after_read(
    task: &ProbeTask,
    ctx: ProbeContext,
    source_port: u16,
    max_read_bytes: usize,
    part: Option<AnswerPart>,
    end: ReadEnd,
    first_byte_ms: u64,
    times: StepTimes,
) -> (r: ProbeStep)
    ensures
        follows_read(*task, ctx, source_port, max_read_bytes, part, end, first_byte_ms, times, r),
{
    let ghost there = bytes_there(part);
    let (known, all) = match part {
        Some(p) => (Some(p.status), p.bytes),
        None => {
            let none: Vec<u8> = Vec::new();
            (None, none)
        },
    };
    assert(all@ =~= there);
    let mut all = all;
    let mut more: bool = false;
    match end {
        ReadEnd::Cancelled => {
            return ProbeStep::Finish(
                cancelled_result(task, ctx.qnum, source_port, times.total_ms),
            );
        },
        ReadEnd::Failed(e) => {
            if all.len() == 0 {
                return ProbeStep::Finish(
                    failure(
                        task,
                        ctx.qnum,
                        source_port,
                        ProbeOutcome::TcpReset,
                        probe_failure_kind(ctx.baseline),
                        ProbeErrorClass::ReadFailed,
                        e,
                        times,
                    ),
                );
            }
        },
        ReadEnd::TimedOut => {
            if all.len() == 0 {
                return ProbeStep::Finish(
                    failure(
                        task,
                        ctx.qnum,
                        source_port,
                        ProbeOutcome::Timeout,
                        probe_failure_kind(ctx.baseline),
                        ProbeErrorClass::FirstByteTimeout,
                        "first byte timeout".to_owned(),
                        times,
                    ),
                );
            }
        },
        ReadEnd::Bytes(bytes) => {
            more = bytes.len() > 0;
            let mut bytes = bytes;
            all.append(&mut bytes);
            if all.len() == 0 {
                return ProbeStep::Finish(
                    failure(
                        task,
                        ctx.qnum,
                        source_port,
                        ProbeOutcome::EmptyResponse,
                        probe_failure_kind(ctx.baseline),
                        ProbeErrorClass::ReadFailed,
                        "empty response".to_owned(),
                        times,
                    ),
                );
            }
        },
    }
    let mut read = parse_http_response_read(all.as_slice(), Some(first_byte_ms));
    if let Some(status) = known {
        read.status = status;
    }
    assert(read == answer_read(part, all@, first_byte_ms));
    let limit: usize = most_to_read(max_read_bytes);
    let (outcome, _, _) = classify_http_response(
        read.status,
        read.headers_complete,
        read.body_bytes,
        task.request.method,
        task.request.read_mode,
        task.request.min_body_bytes,
    );
    if more && read.total_bytes < limit && outcome == ProbeOutcome::BodyTooSmall {
        let most: usize = limit - all.len();
        return ProbeStep::ReadOn(AnswerPart { status: read.status, bytes: all }, most);
    }
    ProbeStep::Finish(answered(task, ctx, source_port, read, times))
}

/// An answer that falls short of the least body is read on unless the limit is reached.
pub proof fn short_answers_are_read_on(
    task: ProbeTask,
    part: Option<AnswerPart>,
    bytes: Seq<u8>,
    first_byte_ms: u64,
    max_read_bytes: usize,
)
    requires
        bytes.len() <= usize::MAX,
    ensures
        ({
            let read = answer_read(part, bytes, first_byte_ms);
            let outcome = judged(
                read.status,
                read.headers_complete,
                read.body_bytes,
                task.request.method,
                task.request.read_mode,
                task.request.min_body_bytes,
            );
            !reads_on(task, read, max_read_bytes) && outcome == ProbeOutcome::BodyTooSmall
                ==> bytes.len() >= read_limit(max_read_bytes)
        }),
{
}

// ---------------------------------------------------------------------------
// A probe as a whole

/// What came of a probe with its own socket.
#[derive(Debug)]
pub enum ProbeEnd {
    /// It ended by itself.
    Finished(ProbeResult),
    /// It took longer than it may.
    TimedOut,
    /// It was cancelled.
    Cancelled,
    /// Its socket could not be made ready.
    NotReady(ProbeError),
}

/// The queue that a result tells: none where no strategy was at work.
pub open spec fn told_queue(ctx: ProbeContext) -> Option<u16> {
    if ctx.baseline {
        None
    } else {
        Some(ctx.qnum)
    }
}

/// `r` is the result of a probe with its own socket.
pub open spec fn is_native_end(
    task: ProbeTask,
    ctx: ProbeContext,
    end: ProbeEnd,
    total_ms: u64,
    r: ProbeResult,
) -> bool {
    match end {
        ProbeEnd::Finished(res) => r == (ProbeResult {
            qnum: if ctx.baseline {
                None
            } else {
                res.qnum
            },
            ..res
        }),
        ProbeEnd::TimedOut => opt_text(r.error_message) == Some("total timeout"@) && r
            == blank_result(
            task,
            told_queue(ctx),
            None,
            total_ms,
            ProbeOutcome::Timeout,
            Some(blame(ctx.baseline)),
            Some(ProbeErrorClass::ReadTimeout),
            r.error_message,
        ),
        ProbeEnd::Cancelled => opt_text(r.error_message) == Some("cancelled"@) && r
            == blank_result(
            task,
            told_queue(ctx),
            None,
            total_ms,
            ProbeOutcome::Cancelled,
            Some(FailureKind::Cancelled),
            Some(ProbeErrorClass::Cancelled),
            r.error_message,
        ),
        ProbeEnd::NotReady(e) => opt_text(r.error_message) == Some(e.words()) && r
            == blank_result(
            task,
            told_queue(ctx),
            None,
            total_ms,
            ProbeOutcome::InternalError,
            Some(FailureKind::InfrastructureFailure),
            Some(ProbeErrorClass::BindFailed),
            r.error_message,
        ),
    }
}

/// The result of a probe with its own socket.
pub fn finish_native_probe(task: &ProbeTask, ctx: ProbeContext, end: ProbeEnd, total_ms: u64) -> (r:
    ProbeResult)
    ensures
        is_native_end(*task, ctx, end, total_ms, r),
{
    let qnum = if ctx.baseline {
        None
    } else {
        Some(ctx.qnum)
    };
    match end {
        ProbeEnd::Finished(res) => {
            let mut r = res;
            if ctx.baseline {
                r.qnum = None;
            }
            r
        },
        ProbeEnd::TimedOut => empty_result(
            task,
            qnum,
            None,
            total_ms,
            ProbeOutcome::Timeout,
            Some(probe_failure_kind(ctx.baseline)),
            Some(ProbeErrorClass::ReadTimeout),
            Some("total timeout".to_owned()),
        ),
        ProbeEnd::Cancelled => empty_result(
            task,
            qnum,
            None,
            total_ms,
            ProbeOutcome::Cancelled,
            Some(FailureKind::Cancelled),
            Some(ProbeErrorClass::Cancelled),
            Some("cancelled".to_owned()),
        ),
        ProbeEnd::NotReady(e) => ProbeResult::infrastructure_failure(
            task,
            qnum,
            None,
            ProbeErrorClass::BindFailed,
            e.message(),
            total_ms,
        ),
    }
}

// ---------------------------------------------------------------------------
// A probe by curl

/// A probe that another program makes.
#[derive(Debug)]
pub struct CurlProbeFallback;

/// The scheme of the URL that is asked for.
pub open spec fn url_scheme(protocol: ProbeProtocol) -> Seq<char> {
    if protocol == ProbeProtocol::HttpPlain {
        "http"@
    } else {
        "https"@
    }
}

/// The options that pin the version of TLS.
pub open spec fn tls_options(protocol: ProbeProtocol) -> Seq<Seq<char>> {
    match protocol {
        ProbeProtocol::Tls12Http11 => seq!["--tlsv1.2"@, "--tls-max"@, "1.2"@],
        ProbeProtocol::Tls13Http11 => seq!["--tlsv1.3"@, "--tls-max"@, "1.3"@],
        _ => Seq::empty(),
    }
}

/// The arguments of curl. `connect_secs` and `total_secs` are the timeouts in seconds.
pub open spec fn curl_args(task: ProbeTask, connect_secs: Seq<char>, total_secs: Seq<char>) -> Seq<
    Seq<char>,
> {
    let port = dec(task.target_port as nat);
    seq![
        "--silent"@,
        "--show-error"@,
        "--http1.1"@,
        "--resolve"@,
        task.target_host@ + ":"@ + port + ":"@ + task.target_ip.text@,
        "--connect-timeout"@,
        connect_secs,
        "--max-time"@,
        total_secs,
        "--user-agent"@,
        "zapret-checker"@,
        "--output"@,
        "-"@,
        "--write-out"@,
        "\n%{http_code}"@,
    ] + tls_options(task.protocol) + seq![
        url_scheme(task.protocol) + "://"@ + task.target_host@ + ":"@ + port + path_or_root(
            task.path@,
        ),
    ]
}

/// What came of running curl.
#[derive(Debug)]
pub enum CurlEnd {
    /// It ended, well or not, with what it wrote.
    Exited { success: bool, stdout: Vec<u8>, stderr: Vec<u8> },
    /// It could not be run.
    NotRun(String),
    /// It took longer than it may.
    TimedOut,
}

/// The status that curl wrote in its last line; a zero is none.
pub open spec fn curl_status(stdout: Seq<char>) -> Option<u16> {
    let all = lines_of(stdout);
    if all.len() == 0 {
        None
    } else {
        match number_of(all.last(), 10, 65535) {
            Ok(n) => if n == 0 {
                None
            } else {
                Some(n as u16)
            },
            Err(_) => None,
        }
    }
}

/// `r` is the result of a probe by curl.
pub open spec fn is_curl_end(
    task: ProbeTask,
    ctx: ProbeContext,
    end: CurlEnd,
    total_ms: u64,
    r: ProbeResult,
) -> bool {
    match end {
        CurlEnd::Exited { success, stdout, stderr } => {
            let status = curl_status(lossy_text(stdout@));
            &&& opt_text(r.error_message) == if success {
                None
            } else {
                Some(lossy_text(stderr@))
            }
            &&& r == (ProbeResult {
                http_status: status,
                bytes_read: stdout@.len() as usize,
                ..blank_result(
                    task,
                    told_queue(ctx),
                    None,
                    total_ms,
                    if success {
                        outcome_of_status(status)
                    } else {
                        ProbeOutcome::InternalError
                    },
                    if success {
                        None
                    } else {
                        Some(blame(ctx.baseline))
                    },
                    if success {
                        None
                    } else {
                        Some(ProbeErrorClass::CurlFailed)
                    },
                    r.error_message,
                )
            })
        },
        CurlEnd::NotRun(e) => r == blank_result(
            task,
            told_queue(ctx),
            None,
            total_ms,
            ProbeOutcome::InternalError,
            Some(FailureKind::InfrastructureFailure),
            Some(ProbeErrorClass::CurlFailed),
            Some(e),
        ),
        CurlEnd::TimedOut => is_failure(
            r,
            task,
            ctx.qnum,
            0,
            ProbeOutcome::Timeout,
            blame(ctx.baseline),
            ProbeErrorClass::ReadTimeout,
            "curl total timeout"@,
            StepTimes { connect_ms: None, tls_ms: None, total_ms },
        ),
    }
}

impl CurlProbeFallback {
    /// The arguments of curl.
    pub fn render_args(&self, task: &ProbeTask, connect_secs: &str, total_secs: &str) -> (r: Vec<
        String,
    >)
        ensures
            texts(r@) == curl_args(*task, connect_secs@, total_secs@),
    {
        let port = decimal(task.target_port as u64);
        let resolve = cat5(
            task.target_host.as_str(),
            ":",
            port.as_str(),
            ":",
            task.target_ip.text.as_str(),
        );
        let scheme = match task.protocol {
            ProbeProtocol::HttpPlain => "http",
            _ => "https",
        };
        let mut url = cat5(scheme, "://", task.target_host.as_str(), ":", port.as_str());
        url.append(path_text(task.path.as_str()).as_str());
        let mut out = strings(
            &[
                "--silent",
                "--show-error",
                "--http1.1",
                "--resolve",
                resolve.as_str(),
                "--connect-timeout",
                connect_secs,
                "--max-time",
                total_secs,
                "--user-agent",
                "zapret-checker",
                "--output",
                "-",
                "--write-out",
                "\n%{http_code}",
            ],
        );
        let ghost head = texts(out@);
        let pins = match task.protocol {
            ProbeProtocol::Tls12Http11 => strings(&["--tlsv1.2", "--tls-max", "1.2"]),
            ProbeProtocol::Tls13Http11 => strings(&["--tlsv1.3", "--tls-max", "1.3"]),
            _ => strings(&[]),
        };
        assert(texts(pins@) =~= tls_options(task.protocol));
        append_texts(&mut out, &pins);
        proof {
            texts_push(out@, url);
        }
        out.push(url);
        assert(texts(out@) =~= curl_args(*task, connect_secs@, total_secs@));
        out
    }

    /// The status that curl wrote in its last line.
    pub fn read_status(&self, stdout: &str) -> (r: Option<u16>)
        ensures
            r == curl_status(stdout@),
    {
        let all = lines(stdout);
        assert(texts(all@).len() == all@.len());
        if all.len() == 0 {
            return None;
        }
        let last = all.len() - 1;
        assert(texts(all@).last() == all@[last as int]@);
        match parse_number(all[last].as_str(), 10, 65535) {
            Ok(n) => {
                proof {
                    number_fits(all@[last as int]@, 10, 65535);
                }
                if n == 0 {
                    None
                } else {
                    Some(n as u16)
                }
            },
            Err(_) => None,
        }
    }

    /// The result of a probe by curl.
    pub fn finish(&self, task: &ProbeTask, ctx: ProbeContext, end: CurlEnd, total_ms: u64) -> (r:
        ProbeResult)
        ensures
            is_curl_end(*task, ctx, end, total_ms, r),
    {
        let qnum = if ctx.baseline {
            None
        } else {
            Some(ctx.qnum)
        };
        match end {
            CurlEnd::Exited { success, stdout, stderr } => {
                let status = self.read_status(lossy(stdout.as_slice()).as_str());
                let mut r = if success {
                    empty_result(
                        task,
                        qnum,
                        None,
                        total_ms,
                        probe_outcome_for_http_status(status),
                        None,
                        None,
                        None,
                    )
                } else {
                    empty_result(
                        task,
                        qnum,
                        None,
                        total_ms,
                        ProbeOutcome::InternalError,
                        Some(probe_failure_kind(ctx.baseline)),
                        Some(ProbeErrorClass::CurlFailed),
                        Some(lossy(stderr.as_slice())),
                    )
                };
                r.http_status = status;
                r.bytes_read = stdout.len();
                r
            },
            CurlEnd::NotRun(e) => ProbeResult::infrastructure_failure(
                task,
                qnum,
                None,
                ProbeErrorClass::CurlFailed,
                e,
                total_ms,
            ),
            CurlEnd::TimedOut => failure(
                task,
                ctx.qnum,
                0,
                ProbeOutcome::Timeout,
                probe_failure_kind(ctx.baseline),
                ProbeErrorClass::ReadTimeout,
                "curl total timeout".to_owned(),
                StepTimes { connect_ms: None, tls_ms: None, total_ms },
            ),
        }
    }
}

} // verus!
