use vstd::prelude::*;
use crate::number::{dec, decimals_are_digits, number_read_back};
use crate::probe::{
    answered_result, blank_line_ends, bytes_there, curl_args, curl_status, follows_connect,
    follows_handshake, follows_read, follows_send, headers_end, host_header, is_curl_end,
    is_first_step, is_native_end, is_tls_failure, judged, lossy_text, outcome_class, outcome_kind,
    outcome_message, read_limit, request_text, response_read, status_in, AnswerPart, CurlEnd,
    HttpResponseRead, ProbeEnd, ProbeStep, ReadEnd, StepEnd, StepTimes, TlsObstacle,
    TlsProbeVersion,
};
use crate::text::{begins, joined, lines_of, words_of};
use crate::text_laws::{
    first_line, is_word, last_line, lines_of_joined_crlf, one_behind, two_in_a_row, word_of_itself,
    words_around,
};
use crate::types::{
    FailureKind, HttpMethod, ProbeContext, ProbeErrorClass, ProbeOutcome, ProbeProtocol,
    ProbeResult, ProbeTask, ReadMode,
};

verus! {

// ---------------------------------------------------------------------------
// Reading an answer

/// The status of an answer is the number behind the version in its first line, whatever the
/// version, the words behind the number and the rest of the answer are.
pub proof fn status_line_is_read(
    version: Seq<char>,
    status: u16,
    reason: Seq<char>,
    rest: Seq<char>,
)
    requires
        is_word("HTTP/"@ + version),
        !reason.contains('\n'),
    ensures
        status_in(
            "HTTP/"@ + version + seq![' '] + dec(status as nat) + seq![' '] + reason + seq!['\r']
                + seq!['\n'] + rest,
        ) == Ok::<u16, ProbeErrorClass>(status),
{
    let name = "HTTP/"@ + version;
    let number = dec(status as nat);
    let seen = name + seq![' '] + number + seq![' '] + reason;
    let line = seen + seq!['\r'];
    decimals_are_digits(status as nat);
    assert(is_word(number));
    assert forall|i: int| 0 <= i < line.len() implies line[i] != '\n' by {
        if i < name.len() {
            assert(line[i] == name[i]);
        } else if name.len() < i < name.len() + 1 + number.len() {
            assert(line[i] == number[i - name.len() - 1]);
        } else if name.len() + 1 + number.len() < i < seen.len() {
            assert(line[i] == reason[i - name.len() - number.len() - 2]);
            assert(reason.contains(line[i]));
        }
    }
    first_line(line, rest);
    assert(line.drop_last() =~= seen);
    let head = name + seq![' '] + number;
    words_around(head, reason, ' ');
    words_around(name, number, ' ');
    word_of_itself(name);
    word_of_itself(number);
    let parts = words_of(seen);
    assert(parts =~= seq![name] + seq![number] + words_of(reason));
    assert(parts[0] == name && parts[1] == number);
    assert(name.subrange(0, "HTTP/"@.len() as int) =~= "HTTP/"@);
    assert(begins(name, "HTTP/"@));
    number_read_back(status as nat, 10, 65535);
}

/// What does not begin with a version of HTTP has no status.
pub proof fn other_first_lines_have_no_status(text: Seq<char>)
    requires
        lines_of(text).len() == 0 || words_of(lines_of(text)[0]).len() < 2 || !begins(
            words_of(lines_of(text)[0])[0],
            "HTTP/"@,
        ),
    ensures
        status_in(text) == Err::<u16, ProbeErrorClass>(ProbeErrorClass::InvalidHttpResponse),
{
}

/// Behind position `i` of an answer the two line ends of an empty line have just been read.
pub open spec fn ends_empty_line(bytes: Seq<u8>, i: int) -> bool {
    4 <= i <= bytes.len() && bytes.subrange(i - 4, i) == seq![13u8, 10u8, 13u8, 10u8]
}

proof fn empty_line_bytes(bytes: Seq<u8>, i: int)
    ensures
        blank_line_ends(bytes, i) == ends_empty_line(bytes, i),
{
    if 4 <= i <= bytes.len() {
        let four = bytes.subrange(i - 4, i);
        if four == seq![13u8, 10u8, 13u8, 10u8] {
            assert(four[0] == 13 && four[1] == 10 && four[2] == 13 && four[3] == 10);
        }
        if blank_line_ends(bytes, i) {
            assert(four =~= seq![13u8, 10u8, 13u8, 10u8]);
        }
    }
}

proof fn headers_end_first(bytes: Seq<u8>, from: int)
    requires
        0 <= from,
    ensures
        match headers_end(bytes, from) {
            Some(n) => from <= n && ends_empty_line(bytes, n) && forall|m: int|
                from <= m < n ==> !#[trigger] ends_empty_line(bytes, m),
            None => forall|m: int| from <= m ==> !#[trigger] ends_empty_line(bytes, m),
        },
    decreases bytes.len() - from + 1,
{
    if from <= bytes.len() {
        empty_line_bytes(bytes, from);
        headers_end_first(bytes, from + 1);
    }
}

/// The headers of an answer end behind its first empty line, and what follows is its body;
/// without an empty line all that was read are headers, and they are not complete.
pub proof fn first_empty_line_ends_headers(bytes: Seq<u8>, first_byte_ms: Option<u64>, n: int)
    requires
        bytes.len() <= usize::MAX,
    ensures
        ({
            let read = response_read(bytes, first_byte_ms);
            &&& ends_empty_line(bytes, n) && (forall|m: int|
                m < n ==> !#[trigger] ends_empty_line(bytes, m)) ==> read.headers_complete
                && read.header_bytes == n && read.body_bytes == bytes.len() - n
            &&& (forall|m: int| !#[trigger] ends_empty_line(bytes, m)) ==> !read.headers_complete
                && read.header_bytes == bytes.len() && read.body_bytes == 0
            &&& read.total_bytes == bytes.len()
            &&& read.first_byte_ms == first_byte_ms
        }),
{
    headers_end_first(bytes, 0);
    if let Some(k) = headers_end(bytes, 0) {
        assert(ends_empty_line(bytes, k));
    }
}

/// An answer falls short if and only if its status is a success, the body was asked for and is
/// read, and less of it came than is wanted; before the headers ended none of it came. In every
/// other case the status alone decides.
pub proof fn short_bodies_are_told(
    status: Option<u16>,
    headers_complete: bool,
    body_bytes: usize,
    method: HttpMethod,
    read_mode: ReadMode,
    min_body_bytes: usize,
)
    ensures
        ({
            let outcome = judged(
                status,
                headers_complete,
                body_bytes,
                method,
                read_mode,
                min_body_bytes,
            );
            let fine = match status {
                Some(s) => 200 <= s && s <= 399,
                None => false,
            };
            let short = method == HttpMethod::Get && read_mode != ReadMode::Headers && (
            body_bytes < min_body_bytes || !headers_complete && 0 < min_body_bytes);
            &&& outcome == ProbeOutcome::BodyTooSmall <==> fine && short
            &&& outcome == ProbeOutcome::Success <==> fine && !short
            &&& outcome == ProbeOutcome::HttpBlockPage <==> status is Some && !fine
            &&& outcome == ProbeOutcome::EmptyResponse <==> status is None
        }),
{
}

/// Who is held to account: nobody for a success, the check itself for an error of its own, and
/// for everything that went wrong on the way to the target the strategy, or the target where
/// no strategy was at work.
pub proof fn blame_is_shared_out(outcome: ProbeOutcome, baseline: bool)
    ensures
        ({
            let kind = outcome_kind(outcome, baseline);
            let on_the_way = outcome != ProbeOutcome::Success && outcome != ProbeOutcome::Cancelled
                && outcome != ProbeOutcome::InternalError;
            &&& kind is None <==> outcome == ProbeOutcome::Success
            &&& kind == Some(FailureKind::Cancelled) <==> outcome == ProbeOutcome::Cancelled
            &&& kind == Some(FailureKind::InfrastructureFailure) <==> outcome
                == ProbeOutcome::InternalError
            &&& kind == Some(FailureKind::TargetFailure) <==> on_the_way && baseline
            &&& kind == Some(FailureKind::StrategyFailure) <==> on_the_way && !baseline
        }),
{
}

/// Each error class of an answer tells its outcomes: no other outcome has it.
pub proof fn error_classes_tell_outcomes(outcome: ProbeOutcome)
    ensures
        ({
            let class = outcome_class(outcome);
            &&& class is None <==> outcome == ProbeOutcome::Success
            &&& class == Some(ProbeErrorClass::Cancelled) <==> outcome == ProbeOutcome::Cancelled
            &&& class == Some(ProbeErrorClass::InvalidHttpResponse) <==> outcome
                == ProbeOutcome::HttpBlockPage
            &&& class == Some(ProbeErrorClass::ReadTimeout) <==> outcome == ProbeOutcome::Timeout
            &&& class == Some(ProbeErrorClass::ReadFailed) <==> outcome
                == ProbeOutcome::EmptyResponse || outcome == ProbeOutcome::TcpReset
            &&& class == Some(ProbeErrorClass::TlsFailed) <==> outcome == ProbeOutcome::TlsAlert
            &&& class == Some(ProbeErrorClass::ConnectFailed) <==> outcome == ProbeOutcome::Refused
                || outcome == ProbeOutcome::NetworkUnreachable || outcome
                == ProbeOutcome::DnsFailure
            &&& class == Some(ProbeErrorClass::InternalError) <==> outcome
                == ProbeOutcome::InternalError
            &&& class == Some(ProbeErrorClass::BodyTooSmall) <==> outcome
                == ProbeOutcome::BodyTooSmall
        }),
{
}

/// The words for an outcome tell it: each text stands for one outcome and for no other.
pub proof fn words_tell_outcomes(outcome: ProbeOutcome)
    ensures
        outcome_message(outcome) == Some("cancelled"@) <==> outcome == ProbeOutcome::Cancelled,
        outcome_message(outcome) == Some("HTTP block page/status"@)
            <==> outcome == ProbeOutcome::HttpBlockPage,
        outcome_message(outcome) == Some("empty response"@)
            <==> outcome == ProbeOutcome::EmptyResponse,
        outcome_message(outcome) == Some("timeout"@) <==> outcome == ProbeOutcome::Timeout,
        outcome_message(outcome) == Some("TCP reset"@) <==> outcome == ProbeOutcome::TcpReset,
        outcome_message(outcome) == Some("TLS alert"@) <==> outcome == ProbeOutcome::TlsAlert,
        outcome_message(outcome) == Some("connection refused"@)
            <==> outcome == ProbeOutcome::Refused,
        outcome_message(outcome) == Some("network unreachable"@)
            <==> outcome == ProbeOutcome::NetworkUnreachable,
        outcome_message(outcome) == Some("DNS failure"@) <==> outcome == ProbeOutcome::DnsFailure,
        outcome_message(outcome) == Some("internal error"@)
            <==> outcome == ProbeOutcome::InternalError,
        outcome_message(outcome) == Some("response body too small"@)
            <==> outcome == ProbeOutcome::BodyTooSmall,
{
    reveal_strlit("cancelled");
    reveal_strlit("HTTP block page/status");
    reveal_strlit("empty response");
    reveal_strlit("timeout");
    reveal_strlit("TCP reset");
    reveal_strlit("TLS alert");
    reveal_strlit("connection refused");
    reveal_strlit("network unreachable");
    reveal_strlit("DNS failure");
    reveal_strlit("internal error");
    reveal_strlit("response body too small");
    assert("cancelled"@.len() != "HTTP block page/status"@.len());
    assert("cancelled"@.len() != "empty response"@.len());
    assert("cancelled"@.len() != "timeout"@.len());
    assert("cancelled"@[0] != "TCP reset"@[0]);
    assert("cancelled"@[0] != "TLS alert"@[0]);
    assert("cancelled"@.len() != "connection refused"@.len());
    assert("cancelled"@.len() != "network unreachable"@.len());
    assert("cancelled"@.len() != "DNS failure"@.len());
    assert("cancelled"@.len() != "internal error"@.len());
    assert("cancelled"@.len() != "response body too small"@.len());
    assert("HTTP block page/status"@.len() != "empty response"@.len());
    assert("HTTP block page/status"@.len() != "timeout"@.len());
    assert("HTTP block page/status"@.len() != "TCP reset"@.len());
    assert("HTTP block page/status"@.len() != "TLS alert"@.len());
    assert("HTTP block page/status"@.len() != "connection refused"@.len());
    assert("HTTP block page/status"@.len() != "network unreachable"@.len());
    assert("HTTP block page/status"@.len() != "DNS failure"@.len());
    assert("HTTP block page/status"@.len() != "internal error"@.len());
    assert("HTTP block page/status"@.len() != "response body too small"@.len());
    assert("empty response"@.len() != "timeout"@.len());
    assert("empty response"@.len() != "TCP reset"@.len());
    assert("empty response"@.len() != "TLS alert"@.len());
    assert("empty response"@.len() != "connection refused"@.len());
    assert("empty response"@.len() != "network unreachable"@.len());
    assert("empty response"@.len() != "DNS failure"@.len());
    assert("empty response"@[0] != "internal error"@[0]);
    assert("empty response"@.len() != "response body too small"@.len());
    assert("timeout"@.len() != "TCP reset"@.len());
    assert("timeout"@.len() != "TLS alert"@.len());
    assert("timeout"@.len() != "connection refused"@.len());
    assert("timeout"@.len() != "network unreachable"@.len());
    assert("timeout"@.len() != "DNS failure"@.len());
    assert("timeout"@.len() != "internal error"@.len());
    assert("timeout"@.len() != "response body too small"@.len());
    assert("TCP reset"@[1] != "TLS alert"@[1]);
    assert("TCP reset"@.len() != "connection refused"@.len());
    assert("TCP reset"@.len() != "network unreachable"@.len());
    assert("TCP reset"@.len() != "DNS failure"@.len());
    assert("TCP reset"@.len() != "internal error"@.len());
    assert("TCP reset"@.len() != "response body too small"@.len());
    assert("TLS alert"@.len() != "connection refused"@.len());
    assert("TLS alert"@.len() != "network unreachable"@.len());
    assert("TLS alert"@.len() != "DNS failure"@.len());
    assert("TLS alert"@.len() != "internal error"@.len());
    assert("TLS alert"@.len() != "response body too small"@.len());
    assert("connection refused"@.len() != "network unreachable"@.len());
    assert("connection refused"@.len() != "DNS failure"@.len());
    assert("connection refused"@.len() != "internal error"@.len());
    assert("connection refused"@.len() != "response body too small"@.len());
    assert("network unreachable"@.len() != "DNS failure"@.len());
    assert("network unreachable"@.len() != "internal error"@.len());
    assert("network unreachable"@.len() != "response body too small"@.len());
    assert("DNS failure"@.len() != "internal error"@.len());
    assert("DNS failure"@.len() != "response body too small"@.len());
    assert("internal error"@.len() != "response body too small"@.len());
}

/// A result tells the task that it is of: its strategy, its worker, the target and the port
/// that was bound. It tells the queue if and only if a strategy was at work, and of the answer
/// its status and its bytes.
pub proof fn results_tell_their_task(
    task: ProbeTask,
    ctx: ProbeContext,
    source_port: u16,
    read: HttpResponseRead,
    message: Option<String>,
    times: StepTimes,
)
    ensures
        ({
            let r = answered_result(task, ctx, source_port, read, message, times);
            &&& r.strategy_id == task.strategy_id && r.worker_id == task.worker_id
            &&& r.target_host == task.target_host && r.target_ip == task.target_ip
            &&& r.target_port == task.target_port && r.protocol == task.protocol
            &&& r.assigned_source_port == Some(source_port)
            &&& r.qnum is None <==> ctx.baseline
            &&& !ctx.baseline ==> r.qnum == Some(ctx.qnum)
            &&& r.http_status == read.status && r.first_byte_ms == read.first_byte_ms
            &&& r.header_bytes == read.header_bytes && r.body_bytes == read.body_bytes
            &&& r.total_bytes == read.total_bytes && r.bytes_read == read.total_bytes
            &&& r.connect_ms == times.connect_ms && r.tls_ms == times.tls_ms
            &&& r.total_ms == times.total_ms
            &&& r.failure_kind is None <==> r.outcome == ProbeOutcome::Success
            &&& r.error_class is None <==> r.outcome == ProbeOutcome::Success
        }),
{
}

/// At least one byte of an answer is read, and otherwise as much as is allowed.
pub proof fn something_is_read(max_read_bytes: usize)
    ensures
        read_limit(max_read_bytes) >= 1,
        max_read_bytes >= 1 ==> read_limit(max_read_bytes) == max_read_bytes,
        max_read_bytes == 0 ==> read_limit(max_read_bytes) == 1,
{
}

// ---------------------------------------------------------------------------
// Asking

/// The port that a protocol uses unless another one is named.
pub open spec fn usual_port(protocol: ProbeProtocol, port: u16) -> bool {
    if protocol == ProbeProtocol::HttpPlain {
        port == 80
    } else {
        port == 443
    }
}

/// No line ends in the text.
pub open spec fn is_one_line(s: Seq<char>) -> bool {
    !s.contains('\n') && !s.contains('\r')
}

/// A request is made of five lines: what is asked for, the host with its port unless that is
/// the usual one, who asks, that the connection is to be closed, and an empty line.
pub proof fn request_lines_are_told(task: ProbeTask)
    requires
        is_one_line(task.path@),
        is_one_line(task.target_host@),
        is_one_line(task.request.user_agent@),
    ensures
        lines_of(request_text(task)) == seq![
            "GET "@ + if task.path@.len() == 0 {
                "/"@
            } else {
                task.path@
            } + " HTTP/1.1"@,
            "Host: "@ + task.target_host@ + if usual_port(task.protocol, task.target_port) {
                ""@
            } else {
                ":"@ + dec(task.target_port as nat)
            },
            "User-Agent: "@ + task.request.user_agent@,
            "Connection: close"@,
            ""@,
        ],
{
    let lines = request_lines(task);
    request_lines_are_lines(task);
    lines_of_joined_crlf(lines);
    request_is_joined(task);
}

/// The lines of a request.
spec fn request_lines(task: ProbeTask) -> Seq<Seq<char>> {
    seq![
        "GET "@ + if task.path@.len() == 0 {
            "/"@
        } else {
            task.path@
        } + " HTTP/1.1"@,
        "Host: "@ + task.target_host@ + if usual_port(task.protocol, task.target_port) {
            ""@
        } else {
            ":"@ + dec(task.target_port as nat)
        },
        "User-Agent: "@ + task.request.user_agent@,
        "Connection: close"@,
        ""@,
    ]
}

proof fn one_line_of_two(a: Seq<char>, b: Seq<char>)
    requires
        is_one_line(a),
        is_one_line(b),
    ensures
        is_one_line(a + b),
{
    let s = a + b;
    assert forall|k: int| 0 <= k < s.len() implies s[k] != '\n' && s[k] != '\r' by {
        if k < a.len() {
            assert(a.contains(a[k]));
        } else {
            assert(b.contains(b[k - a.len()]));
        }
    }
}

proof fn words_are_one_line()
    ensures
        is_one_line(""@),
        is_one_line(":"@),
        is_one_line("/"@),
        is_one_line("GET "@),
        is_one_line(" HTTP/1.1"@),
        is_one_line("Host: "@),
        is_one_line("User-Agent: "@),
        is_one_line("Connection: close"@),
{
    reveal_strlit("");
    reveal_strlit(":");
    reveal_strlit("/");
    reveal_strlit("GET ");
    reveal_strlit(" HTTP/1.1");
    reveal_strlit("Host: ");
    reveal_strlit("User-Agent: ");
    reveal_strlit("Connection: close");
}

proof fn request_lines_are_lines(task: ProbeTask)
    requires
        is_one_line(task.path@),
        is_one_line(task.target_host@),
        is_one_line(task.request.user_agent@),
    ensures
        forall|i: int|
            0 <= i < request_lines(task).len() ==> is_one_line(#[trigger] request_lines(task)[i]),
{
    let path = if task.path@.len() == 0 {
        "/"@
    } else {
        task.path@
    };
    let digits = dec(task.target_port as nat);
    words_are_one_line();
    decimals_are_digits(task.target_port as nat);
    assert(is_one_line(digits));
    one_line_of_two("GET "@, path);
    one_line_of_two("GET "@ + path, " HTTP/1.1"@);
    one_line_of_two(":"@, digits);
    one_line_of_two("Host: "@, task.target_host@);
    one_line_of_two("Host: "@ + task.target_host@, ":"@ + digits);
    one_line_of_two("Host: "@ + task.target_host@, ""@);
    one_line_of_two("User-Agent: "@, task.request.user_agent@);
}

proof fn five_joined(l0: Seq<char>, l1: Seq<char>, l2: Seq<char>, l3: Seq<char>, l4: Seq<char>)
    ensures
        joined(seq![l0, l1, l2, l3, l4], seq!['\r', '\n']) == l0 + seq!['\r', '\n'] + l1 + seq![
            '\r',
            '\n',
        ] + l2 + seq!['\r', '\n'] + l3 + seq!['\r', '\n'] + l4,
{
    let end = seq!['\r', '\n'];
    let j5 = seq![l0, l1, l2, l3, l4];
    let j4 = seq![l0, l1, l2, l3];
    let j3 = seq![l0, l1, l2];
    let j2 = seq![l0, l1];
    let j1 = seq![l0];
    assert(j5.drop_last() =~= j4);
    assert(j4.drop_last() =~= j3);
    assert(j3.drop_last() =~= j2);
    assert(j2.drop_last() =~= j1);
    assert(joined(j1, end) == l0);
    assert(joined(j2, end) == l0 + end + l1);
    assert(joined(j3, end) == l0 + end + l1 + end + l2);
    assert(joined(j4, end) == l0 + end + l1 + end + l2 + end + l3);
}

proof fn literal_line_ends()
    ensures
        " HTTP/1.1\r\nHost: "@ == " HTTP/1.1"@ + seq!['\r', '\n'] + "Host: "@,
        "\r\nUser-Agent: "@ == seq!['\r', '\n'] + "User-Agent: "@,
        "\r\nConnection: close\r\n\r\n"@ == seq!['\r', '\n'] + "Connection: close"@ + seq![
            '\r',
            '\n',
        ] + seq!['\r', '\n'],
        ""@.len() == 0,
{
    reveal_strlit("");
    reveal_strlit(" HTTP/1.1");
    reveal_strlit("Host: ");
    reveal_strlit(" HTTP/1.1\r\nHost: ");
    reveal_strlit("User-Agent: ");
    reveal_strlit("\r\nUser-Agent: ");
    reveal_strlit("Connection: close");
    reveal_strlit("\r\nConnection: close\r\n\r\n");
    assert(" HTTP/1.1\r\nHost: "@ =~= " HTTP/1.1"@ + seq!['\r', '\n'] + "Host: "@);
    assert("\r\nUser-Agent: "@ =~= seq!['\r', '\n'] + "User-Agent: "@);
    assert("\r\nConnection: close\r\n\r\n"@ =~= seq!['\r', '\n'] + "Connection: close"@ + seq![
        '\r',
        '\n',
    ] + seq!['\r', '\n']);
}

proof fn request_is_joined(task: ProbeTask)
    ensures
        request_text(task) == joined(request_lines(task), seq!['\r', '\n']) + seq!['\r', '\n'],
{
    let end = seq!['\r', '\n'];
    let l = request_lines(task);
    let path = if task.path@.len() == 0 {
        "/"@
    } else {
        task.path@
    };
    let port = if usual_port(task.protocol, task.target_port) {
        ""@
    } else {
        ":"@ + dec(task.target_port as nat)
    };
    let host = task.target_host@ + port;
    let agent = task.request.user_agent@;
    literal_line_ends();
    five_joined(l[0], l[1], l[2], l[3], l[4]);
    assert(seq![l[0], l[1], l[2], l[3], l[4]] =~= l);
    assert(host_header(task.target_host@, task.target_port, task.protocol.port()) =~= host);
    assert("Host: "@ + task.target_host@ + port =~= "Host: "@ + host);
    let get = "GET "@;
    let version = " HTTP/1.1"@;
    let names = "Host: "@;
    let who = "User-Agent: "@;
    let close = "Connection: close"@;
    let empty = ""@;
    pieces_agree(get, path, version, names, host, who, agent, close, empty, end);
}

proof fn pieces_agree(
    get: Seq<char>,
    path: Seq<char>,
    version: Seq<char>,
    names: Seq<char>,
    host: Seq<char>,
    who: Seq<char>,
    agent: Seq<char>,
    close: Seq<char>,
    empty: Seq<char>,
    end: Seq<char>,
)
    requires
        empty.len() == 0,
    ensures
        get + path + (version + end + names) + host + (end + who) + agent + (end + close + end
            + end) == (get + path + version) + end + (names + host) + end + (who + agent) + end
            + close + end + empty + end,
{
    assert(get + path + (version + end + names) + host + (end + who) + agent + (end + close + end
        + end) =~= (get + path + version) + end + (names + host) + end + (who + agent) + end
        + close + end + empty + end);
}

/// What curl is told: to ask the target's address in place of the name, the two timeouts, the
/// version of TLS and no later one where the protocol names one, and as the last argument the
/// URL of the host, its port and the path, by the scheme of the protocol.
pub proof fn curl_is_told_the_target(
    task: ProbeTask,
    connect_secs: Seq<char>,
    total_secs: Seq<char>,
)
    ensures
        ({
            let args = curl_args(task, connect_secs, total_secs);
            let port = dec(task.target_port as nat);
            let plain = task.protocol == ProbeProtocol::HttpPlain;
            &&& one_behind(
                args,
                "--resolve"@,
                task.target_host@ + ":"@ + port + ":"@ + task.target_ip.text@,
            )
            &&& one_behind(args, "--connect-timeout"@, connect_secs)
            &&& one_behind(args, "--max-time"@, total_secs)
            &&& one_behind(args, "--write-out"@, "\n%{http_code}"@)
            &&& one_behind(args, "--output"@, "-"@)
            &&& args.last() == (if plain {
                "http"@
            } else {
                "https"@
            }) + "://"@ + task.target_host@ + ":"@ + port + (if task.path@.len() == 0 {
                "/"@
            } else {
                task.path@
            })
            &&& task.protocol == ProbeProtocol::Tls12Http11 ==> args.contains("--tlsv1.2"@)
                && one_behind(args, "--tls-max"@, "1.2"@)
            &&& task.protocol == ProbeProtocol::Tls13Http11 ==> args.contains("--tlsv1.3"@)
                && one_behind(args, "--tls-max"@, "1.3"@)
            &&& args.contains("--http1.1"@)
        }),
{
    let args = curl_args(task, connect_secs, total_secs);
    two_in_a_row(args, 3);
    two_in_a_row(args, 5);
    two_in_a_row(args, 7);
    two_in_a_row(args, 11);
    two_in_a_row(args, 13);
    assert(args[2] == "--http1.1"@);
    if task.protocol == ProbeProtocol::Tls12Http11 {
        assert(args[15] == "--tlsv1.2"@);
        two_in_a_row(args, 16);
    }
    if task.protocol == ProbeProtocol::Tls13Http11 {
        assert(args[15] == "--tlsv1.3"@);
        two_in_a_row(args, 16);
    }
}

/// The status that curl writes behind a body is read, whatever the body is; a zero is none.
pub proof fn curl_status_is_read(body: Seq<char>, status: u16)
    ensures
        status != 0 ==> curl_status(body + seq!['\n'] + dec(status as nat)) == Some(status),
        status == 0 ==> curl_status(body + seq!['\n'] + dec(status as nat)) is None,
{
    decimals_are_digits(status as nat);
    assert forall|k: int| 0 <= k < dec(status as nat).len() implies dec(status as nat)[k]
        != '\n' by {}
    last_line(body, dec(status as nat));
    number_read_back(status as nat, 10, 65535);
}

// ---------------------------------------------------------------------------
// Step by step

/// Whose failure it is where a step on the way to the target fails.
pub open spec fn is_blamed(kind: Option<FailureKind>, baseline: bool) -> bool {
    kind == if baseline {
        Some(FailureKind::TargetFailure)
    } else {
        Some(FailureKind::StrategyFailure)
    }
}

/// The result is of the task, by the port that was bound, and tells how long it took.
pub open spec fn is_of_task(r: ProbeResult, task: ProbeTask, source_port: u16, ms: u64) -> bool {
    &&& r.strategy_id == task.strategy_id && r.worker_id == task.worker_id
    &&& r.target_host == task.target_host && r.target_ip == task.target_ip
    &&& r.target_port == task.target_port && r.protocol == task.protocol
    &&& r.assigned_source_port == Some(source_port)
    &&& r.total_ms == ms
}

/// A probe begins by connecting if and only if it was not cancelled before.
pub proof fn probes_begin_by_connecting(
    task: ProbeTask,
    ctx: ProbeContext,
    source_port: u16,
    cancelled: bool,
    total_ms: u64,
    r: ProbeStep,
)
    requires
        is_first_step(task, ctx, source_port, cancelled, total_ms, r),
    ensures
        !cancelled <==> r is Connect,
        cancelled <==> r is Finish,
        r matches ProbeStep::Finish(res) ==> res.outcome == ProbeOutcome::Cancelled
            && res.failure_kind == Some(FailureKind::Cancelled) && is_of_task(
            res,
            task,
            source_port,
            total_ms,
        ),
{
}

/// On a connection plain HTTP is asked for at once, and TLS begins with the handshake of the
/// version that the protocol names. A refused connection, one that took too long and a
/// cancelled one are each told as what they are.
pub proof fn connections_lead_on(
    task: ProbeTask,
    ctx: ProbeContext,
    source_port: u16,
    end: StepEnd,
    connect_ms: u64,
    total_ms: u64,
    r: ProbeStep,
)
    requires
        follows_connect(task, ctx, source_port, end, connect_ms, total_ms, r),
    ensures
        r is Send <==> end is Done && task.protocol == ProbeProtocol::HttpPlain,
        r matches ProbeStep::Send(text) ==> text@ == request_text(task),
        r == ProbeStep::Handshake(TlsProbeVersion::Tls12) <==> end is Done && task.protocol
            == ProbeProtocol::Tls12Http11,
        r == ProbeStep::Handshake(TlsProbeVersion::Tls13) <==> end is Done && task.protocol
            == ProbeProtocol::Tls13Http11,
        r is Finish <==> !(end is Done) || task.protocol == ProbeProtocol::QuicHttp3Future,
        r matches ProbeStep::Finish(res) ==> {
            &&& is_of_task(res, task, source_port, total_ms)
            &&& end is Failed ==> res.outcome == ProbeOutcome::Refused && res.error_class == Some(
                ProbeErrorClass::ConnectFailed,
            ) && is_blamed(res.failure_kind, ctx.baseline)
            &&& end is TimedOut ==> res.outcome == ProbeOutcome::Timeout && res.error_class == Some(
                ProbeErrorClass::ConnectTimeout,
            ) && is_blamed(res.failure_kind, ctx.baseline)
            &&& end is Cancelled ==> res.outcome == ProbeOutcome::Cancelled && res.failure_kind
                == Some(FailureKind::Cancelled)
            &&& end is Done ==> res.outcome == ProbeOutcome::InternalError && res.failure_kind
                == Some(FailureKind::InfrastructureFailure)
        },
{
}

/// A handshake leads to the request. One that failed, one that took too long and a cancelled
/// one are each told as what they are; where there can be none at all nobody on the way is to
/// blame.
pub proof fn handshakes_lead_on(
    task: ProbeTask,
    ctx: ProbeContext,
    source_port: u16,
    end: StepEnd,
    times: StepTimes,
    r: ProbeStep,
)
    requires
        follows_handshake(task, ctx, source_port, end, times, r),
    ensures
        r is Send <==> end is Done,
        r matches ProbeStep::Send(text) ==> text@ == request_text(task),
        r is Finish <==> !(end is Done),
        r matches ProbeStep::Finish(res) ==> {
            &&& is_of_task(res, task, source_port, times.total_ms)
            &&& end is Failed ==> res.outcome == ProbeOutcome::TlsAlert && res.error_class == Some(
                ProbeErrorClass::TlsFailed,
            ) && is_blamed(res.failure_kind, ctx.baseline)
            &&& end is TimedOut ==> res.outcome == ProbeOutcome::Timeout && res.error_class == Some(
                ProbeErrorClass::TlsTimeout,
            ) && is_blamed(res.failure_kind, ctx.baseline)
            &&& end is Cancelled ==> res.outcome == ProbeOutcome::Cancelled && res.failure_kind
                == Some(FailureKind::Cancelled)
        },
{
}

/// Where there is no handshake the infrastructure failed, whether there are no certificates or
/// no name to check them by.
pub proof fn missing_handshakes_blame_nobody(
    task: ProbeTask,
    ctx: ProbeContext,
    source_port: u16,
    obstacle: TlsObstacle,
    times: StepTimes,
    r: ProbeResult,
)
    requires
        is_tls_failure(task, ctx, source_port, obstacle, times, r),
    ensures
        r.failure_kind == Some(FailureKind::InfrastructureFailure),
        r.error_class == Some(ProbeErrorClass::TlsFailed),
        obstacle is NoConfig ==> r.outcome == ProbeOutcome::InternalError,
        obstacle is BadServerName ==> r.outcome == ProbeOutcome::TlsAlert,
        is_of_task(r, task, source_port, times.total_ms),
{
}

/// After a request as much is read as is allowed, but one byte at least; a request that could
/// not be sent has an empty answer.
pub proof fn requests_lead_on(
    task: ProbeTask,
    ctx: ProbeContext,
    source_port: u16,
    max_read_bytes: usize,
    error: Option<String>,
    times: StepTimes,
    r: ProbeStep,
)
    requires
        follows_send(task, ctx, source_port, max_read_bytes, error, times, r),
    ensures
        error is None ==> r == ProbeStep::Read(
            if max_read_bytes == 0 {
                1
            } else {
                max_read_bytes
            },
        ),
        error is Some <==> r is Finish,
        r matches ProbeStep::Finish(res) ==> res.outcome == ProbeOutcome::EmptyResponse
            && res.error_class == Some(ProbeErrorClass::ReadFailed) && is_blamed(
            res.failure_kind,
            ctx.baseline,
        ) && is_of_task(res, task, source_port, times.total_ms),
{
}

/// What is read decides. Nothing at all is an empty answer, a reset or a timeout, as reading
/// ended. Once something came it is judged by its status, whatever ended the reading, unless
/// the probe was cancelled. Reading goes on only where bytes came that succeed by their status
/// but fall short of the least body, and then with all that came before and with no more than
/// the limit in all.
pub proof fn answers_lead_on(
    task: ProbeTask,
    ctx: ProbeContext,
    source_port: u16,
    max_read_bytes: usize,
    part: Option<AnswerPart>,
    end: ReadEnd,
    first_byte_ms: u64,
    times: StepTimes,
    r: ProbeStep,
)
    requires
        follows_read(task, ctx, source_port, max_read_bytes, part, end, first_byte_ms, times, r),
    ensures
        ({
            let before = match part {
                Some(p) => p.bytes@,
                None => Seq::empty(),
            };
            let now = match end {
                ReadEnd::Bytes(bytes) => bytes@,
                _ => Seq::empty(),
            };
            let all = before + now;
            &&& r is ReadOn || r is Finish
            &&& r matches ProbeStep::ReadOn(p, most) ==> {
                &&& now.len() > 0
                &&& p.bytes@ == all
                &&& most + all.len() == if max_read_bytes == 0 {
                    1
                } else {
                    max_read_bytes as int
                }
                &&& most > 0
                &&& p.status matches Some(s) && 200 <= s && s <= 399
            }
            &&& r matches ProbeStep::Finish(res) ==> {
                &&& is_of_task(res, task, source_port, times.total_ms)
                &&& end is Cancelled <==> res.outcome == ProbeOutcome::Cancelled
                &&& end is Bytes && all.len() == 0 ==> res.outcome == ProbeOutcome::EmptyResponse
                    && is_blamed(res.failure_kind, ctx.baseline)
                &&& end is Failed && before.len() == 0 ==> res.outcome == ProbeOutcome::TcpReset
                    && res.error_class == Some(ProbeErrorClass::ReadFailed) && is_blamed(
                    res.failure_kind,
                    ctx.baseline,
                )
                &&& end is TimedOut && before.len() == 0 ==> res.outcome == ProbeOutcome::Timeout
                    && res.error_class == Some(ProbeErrorClass::FirstByteTimeout) && is_blamed(
                    res.failure_kind,
                    ctx.baseline,
                )
                &&& !(end is Cancelled) && all.len() > 0 ==> {
                    &&& res.total_bytes == all.len() as usize
                    &&& res.outcome == ProbeOutcome::Success ==> res.http_status is Some && 200
                        <= res.http_status->0 && res.http_status->0 <= 399
                    &&& res.outcome == ProbeOutcome::Success || res.outcome
                        == ProbeOutcome::HttpBlockPage || res.outcome == ProbeOutcome::EmptyResponse
                        || res.outcome == ProbeOutcome::BodyTooSmall
                }
            }
        }),
{
    let before = bytes_there(part);
    assert(before + Seq::<u8>::empty() =~= before);
}

/// The result of a probe is told with its queue if and only if a strategy was at work. One that
/// took too long as a whole is a timeout, a cancelled one was cancelled, and one without a
/// socket failed by the infrastructure.
pub proof fn native_probes_end(
    task: ProbeTask,
    ctx: ProbeContext,
    end: ProbeEnd,
    total_ms: u64,
    r: ProbeResult,
)
    requires
        is_native_end(task, ctx, end, total_ms, r),
    ensures
        ctx.baseline ==> r.qnum is None,
        !ctx.baseline && !(end is Finished) ==> r.qnum == Some(ctx.qnum),
        end matches ProbeEnd::Finished(res) ==> r == (ProbeResult { qnum: r.qnum, ..res }) && (
        !ctx.baseline ==> r.qnum == res.qnum),
        end is TimedOut ==> r.outcome == ProbeOutcome::Timeout && r.error_class == Some(
            ProbeErrorClass::ReadTimeout,
        ) && is_blamed(r.failure_kind, ctx.baseline) && r.total_ms == total_ms,
        end is Cancelled ==> r.outcome == ProbeOutcome::Cancelled && r.failure_kind == Some(
            FailureKind::Cancelled,
        ),
        end is NotReady ==> r.outcome == ProbeOutcome::InternalError && r.failure_kind == Some(
            FailureKind::InfrastructureFailure,
        ) && r.error_class == Some(ProbeErrorClass::BindFailed),
{
}

/// A probe by curl is judged by the status that curl wrote where it ended well. Where it did
/// not, the way to the target failed; where it could not be run, the infrastructure did; and
/// where it took too long it timed out.
pub proof fn curl_probes_end(
    task: ProbeTask,
    ctx: ProbeContext,
    end: CurlEnd,
    total_ms: u64,
    r: ProbeResult,
)
    requires
        is_curl_end(task, ctx, end, total_ms, r),
    ensures
        r.total_ms == total_ms,
        r.target_host == task.target_host && r.strategy_id == task.strategy_id,
        end matches CurlEnd::Exited { success, stdout, .. } ==> {
            let status = curl_status(lossy_text(stdout@));
            &&& r.http_status == status
            &&& r.bytes_read == stdout@.len() as usize
            &&& ctx.baseline <==> r.qnum is None
            &&& success ==> r.failure_kind is None && r.error_class is None
                && r.error_message is None
            &&& success ==> (r.outcome == ProbeOutcome::Success <==> status is Some && 200
                <= status->0 && status->0 <= 399)
            &&& success && status is None ==> r.outcome == ProbeOutcome::EmptyResponse
            &&& !success ==> r.outcome == ProbeOutcome::InternalError && r.error_class == Some(
                ProbeErrorClass::CurlFailed,
            ) && is_blamed(r.failure_kind, ctx.baseline)
        },
        end is NotRun ==> r.outcome == ProbeOutcome::InternalError && r.failure_kind == Some(
            FailureKind::InfrastructureFailure,
        ) && r.error_class == Some(ProbeErrorClass::CurlFailed),
        end is TimedOut ==> r.outcome == ProbeOutcome::Timeout && r.error_class == Some(
            ProbeErrorClass::ReadTimeout,
        ) && is_blamed(r.failure_kind, ctx.baseline),
{
}

} // verus!
