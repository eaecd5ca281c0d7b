use vstd::prelude::*;
use crate::number::{dec, decimals_are_digits, number_read_back};
use crate::text::{last_at_unique, lower_char, lowered, upper_char, uppered};
use crate::text_laws::cut_at_first;
use crate::types::{
    authority_parts, host_parts, host_target, path_start, scheme_choice, target_named, url_target,
    FailureKind, HttpMethod, ProbeErrorClass, ProbeOutcome, ProbeProtocol, ReadMode, TargetScheme,
    UrlModel,
};

verus! {

// ---------------------------------------------------------------------------
// Names

/// Each protocol has its own key.
pub proof fn protocols_have_their_keys(protocol: ProbeProtocol)
    ensures
        protocol.key() == "http"@ <==> protocol == ProbeProtocol::HttpPlain,
        protocol.key() == "tls12"@ <==> protocol == ProbeProtocol::Tls12Http11,
        protocol.key() == "tls13"@ <==> protocol == ProbeProtocol::Tls13Http11,
        protocol.key() == "quic"@ <==> protocol == ProbeProtocol::QuicHttp3Future,
{
    reveal_strlit("http");
    reveal_strlit("tls12");
    reveal_strlit("tls13");
    reveal_strlit("quic");
    assert("http"@.len() != "tls12"@.len());
    assert("http"@.len() != "tls13"@.len());
    assert("http"@[0] != "quic"@[0]);
    assert("tls12"@[4] != "tls13"@[4]);
    assert("tls12"@.len() != "quic"@.len());
    assert("tls13"@.len() != "quic"@.len());
}

/// Plain HTTP has its own usual port, and all the others have the other one.
pub proof fn protocols_have_their_ports(protocol: ProbeProtocol)
    ensures
        protocol.port() == 80 <==> protocol == ProbeProtocol::HttpPlain,
        protocol.port() == 443 <==> protocol != ProbeProtocol::HttpPlain,
{
}

/// A report calls each protocol by its name.
pub proof fn protocols_have_their_labels(protocol: ProbeProtocol)
    ensures
        protocol == ProbeProtocol::HttpPlain ==> protocol.label() == "HttpPlain"@,
        protocol == ProbeProtocol::Tls12Http11 ==> protocol.label() == "Tls12Http11"@,
        protocol == ProbeProtocol::Tls13Http11 ==> protocol.label() == "Tls13Http11"@,
        protocol == ProbeProtocol::QuicHttp3Future ==> protocol.label() == "QuicHttp3Future"@,
{
}

/// A report calls each kind of failure by its name.
pub proof fn failures_have_their_labels(kind: FailureKind)
    ensures
        kind == FailureKind::StrategyFailure ==> kind.label() == "StrategyFailure"@,
        kind == FailureKind::InfrastructureFailure ==> kind.label() == "InfrastructureFailure"@,
        kind == FailureKind::TargetFailure ==> kind.label() == "TargetFailure"@,
        kind == FailureKind::Cancelled ==> kind.label() == "Cancelled"@,
{
}

/// A report calls each outcome by its name.
pub proof fn outcomes_have_their_labels(outcome: ProbeOutcome)
    ensures
        outcome == ProbeOutcome::Success ==> outcome.label() == "Success"@,
        outcome == ProbeOutcome::Timeout ==> outcome.label() == "Timeout"@,
        outcome == ProbeOutcome::TcpReset ==> outcome.label() == "TcpReset"@,
        outcome == ProbeOutcome::TlsAlert ==> outcome.label() == "TlsAlert"@,
        outcome == ProbeOutcome::HttpBlockPage ==> outcome.label() == "HttpBlockPage"@,
        outcome == ProbeOutcome::EmptyResponse ==> outcome.label() == "EmptyResponse"@,
        outcome == ProbeOutcome::DnsFailure ==> outcome.label() == "DnsFailure"@,
        outcome == ProbeOutcome::NetworkUnreachable ==> outcome.label() == "NetworkUnreachable"@,
        outcome == ProbeOutcome::Refused ==> outcome.label() == "Refused"@,
        outcome == ProbeOutcome::Cancelled ==> outcome.label() == "Cancelled"@,
        outcome == ProbeOutcome::InternalError ==> outcome.label() == "InternalError"@,
        outcome == ProbeOutcome::BodyTooSmall ==> outcome.label() == "BodyTooSmall"@,
{
}

/// A report calls each error by its name.
pub proof fn errors_have_their_labels(class: ProbeErrorClass)
    ensures
        class == ProbeErrorClass::SocketCreateFailed ==> class.label() == "SocketCreateFailed"@,
        class == ProbeErrorClass::BindFailed ==> class.label() == "BindFailed"@,
        class == ProbeErrorClass::LocalAddrFailed ==> class.label() == "LocalAddrFailed"@,
        class == ProbeErrorClass::QueueUnavailable ==> class.label() == "QueueUnavailable"@,
        class == ProbeErrorClass::FirewallInstallFailed
            ==> class.label() == "FirewallInstallFailed"@,
        class == ProbeErrorClass::FirewallRemoveFailed ==> class.label() == "FirewallRemoveFailed"@,
        class == ProbeErrorClass::NfqwsStartFailed ==> class.label() == "NfqwsStartFailed"@,
        class == ProbeErrorClass::NfqwsExitedEarly ==> class.label() == "NfqwsExitedEarly"@,
        class == ProbeErrorClass::NfqwsStopFailed ==> class.label() == "NfqwsStopFailed"@,
        class == ProbeErrorClass::ConnectTimeout ==> class.label() == "ConnectTimeout"@,
        class == ProbeErrorClass::ConnectFailed ==> class.label() == "ConnectFailed"@,
        class == ProbeErrorClass::TlsTimeout ==> class.label() == "TlsTimeout"@,
        class == ProbeErrorClass::TlsFailed ==> class.label() == "TlsFailed"@,
        class == ProbeErrorClass::FirstByteTimeout ==> class.label() == "FirstByteTimeout"@,
        class == ProbeErrorClass::ReadTimeout ==> class.label() == "ReadTimeout"@,
        class == ProbeErrorClass::ReadFailed ==> class.label() == "ReadFailed"@,
        class == ProbeErrorClass::InvalidHttpResponse ==> class.label() == "InvalidHttpResponse"@,
        class == ProbeErrorClass::CurlFailed ==> class.label() == "CurlFailed"@,
        class == ProbeErrorClass::ProcessFailed ==> class.label() == "ProcessFailed"@,
        class == ProbeErrorClass::Cancelled ==> class.label() == "Cancelled"@,
        class == ProbeErrorClass::InternalError ==> class.label() == "InternalError"@,
        class == ProbeErrorClass::BodyTooSmall ==> class.label() == "BodyTooSmall"@,
{
}

proof fn case_of_char(c: char)
    ensures
        upper_char(lower_char(c)) == upper_char(c),
        lower_char(upper_char(c)) == lower_char(c),
        lower_char(lower_char(c)) == lower_char(c),
        upper_char(upper_char(c)) == upper_char(c),
{
}

/// A configuration names a method, and how much is read, in letters of either case, and by no
/// other word.
pub proof fn configured_words_have_no_case(s: Seq<char>)
    ensures
        HttpMethod::configured(s) == Ok::<HttpMethod, Seq<char>>(HttpMethod::Get) <==> lowered(s)
            == "get"@,
        HttpMethod::configured(s) == Ok::<HttpMethod, Seq<char>>(HttpMethod::Head) <==> lowered(s)
            == "head"@,
        HttpMethod::configured(s) is Err <==> lowered(s) != "get"@ && lowered(s) != "head"@,
        ReadMode::configured(s) == Ok::<ReadMode, Seq<char>>(ReadMode::Headers) <==> uppered(s)
            == "HEADERS"@,
        ReadMode::configured(s) == Ok::<ReadMode, Seq<char>>(ReadMode::Body) <==> uppered(s)
            == "BODY"@,
        ReadMode::configured(s) == Ok::<ReadMode, Seq<char>>(ReadMode::Full) <==> uppered(s)
            == "FULL"@,
        ReadMode::configured(s) is Err <==> uppered(s) != "HEADERS"@ && uppered(s) != "BODY"@
            && uppered(s) != "FULL"@,
{
    reveal_strlit("GET");
    reveal_strlit("get");
    reveal_strlit("HEAD");
    reveal_strlit("head");
    reveal_strlit("headers");
    reveal_strlit("HEADERS");
    reveal_strlit("body");
    reveal_strlit("BODY");
    reveal_strlit("full");
    reveal_strlit("FULL");
    assert(lowered("GET"@) =~= "get"@);
    assert(uppered("get"@) =~= "GET"@);
    assert(lowered("HEAD"@) =~= "head"@);
    assert(uppered("head"@) =~= "HEAD"@);
    assert(uppered("headers"@) =~= "HEADERS"@);
    assert(lowered("HEADERS"@) =~= "headers"@);
    assert(uppered("body"@) =~= "BODY"@);
    assert(lowered("BODY"@) =~= "body"@);
    assert(uppered("full"@) =~= "FULL"@);
    assert(lowered("FULL"@) =~= "full"@);
    assert(uppered(lowered(s)) =~= uppered(s)) by {
        assert forall|i: int| 0 <= i < s.len() implies upper_char(lower_char(s[i]))
            == upper_char(s[i]) by {
            case_of_char(s[i]);
        }
    }
    assert(lowered(uppered(s)) =~= lowered(s)) by {
        assert forall|i: int| 0 <= i < s.len() implies lower_char(upper_char(s[i]))
            == lower_char(s[i]) by {
            case_of_char(s[i]);
        }
    }
    assert("GET"@.len() != "HEAD"@.len());
    assert("headers"@.len() != "body"@.len());
    assert("headers"@.len() != "full"@.len());
    assert("body"@[0] != "full"@[0]);
}

// ---------------------------------------------------------------------------
// Host texts

/// A part of a host text in which neither a path nor a query begins.
pub open spec fn is_authority(s: Seq<char>) -> bool {
    !s.contains('/') && !s.contains('?')
}

/// What may stand behind the authority: nothing, a path or a query.
pub open spec fn is_tail(s: Seq<char>) -> bool {
    s.len() > 0 ==> s[0] == '/' || s[0] == '?'
}

/// The path that is asked for: the tail itself, behind a slash where it does not begin with
/// one.
pub open spec fn asked_path(tail: Seq<char>) -> Seq<char> {
    if tail.len() > 0 && tail[0] == '/' {
        tail
    } else {
        seq!['/'] + tail
    }
}

proof fn authority_ends(a: Seq<char>, tail: Seq<char>)
    requires
        is_authority(a),
        is_tail(tail),
    ensures
        path_start(a + tail) == a.len(),
    decreases a.len(),
{
    let s = a + tail;
    if a.len() > 0 {
        assert(a.contains(a[0]));
        let rest = a.drop_first();
        assert forall|k: int| 0 <= k < rest.len() implies rest[k] != '/' && rest[k] != '?' by {
            assert(a.contains(a[k + 1]));
        }
        authority_ends(rest, tail);
        assert(s.drop_first() =~= rest + tail);
        assert(s[0] == a[0]);
    } else {
        assert(s =~= tail);
    }
}

proof fn parts_of(a: Seq<char>, tail: Seq<char>)
    requires
        is_authority(a),
        is_tail(tail),
    ensures
        host_parts(a + tail) == match authority_parts(a) {
            Err(e) => Err::<(Seq<char>, Option<u16>, Seq<char>), Seq<char>>(e),
            Ok((host, port)) => if host.len() == 0 {
                Err("--host must include host"@)
            } else {
                Ok((host, port, asked_path(tail)))
            },
        },
{
    authority_ends(a, tail);
    assert((a + tail).take(a.len() as int) =~= a);
    assert((a + tail).skip(a.len() as int) =~= tail);
    reveal_strlit("/");
    assert("/"@ =~= seq!['/']);
    if tail.len() == 0 {
        assert(seq!['/'] + tail =~= seq!['/']);
    }
}

proof fn digits_hold(n: nat, c: char)
    requires
        c < '0' || '9' < c,
    ensures
        !dec(n).contains(c),
{
    decimals_are_digits(n);
    if dec(n).contains(c) {
        let k = choose|k: int| 0 <= k < dec(n).len() && dec(n)[k] == c;
        assert('0' <= dec(n)[k] <= '9');
    }
}

/// A host is named alone, with a port, with a path or a query, or with all of them. The host,
/// the port and the path that come out are those that went in, for every port.
pub proof fn hosts_are_taken_apart(host: Seq<char>, port: u16, tail: Seq<char>)
    requires
        host.len() > 0,
        host[0] != '[',
        is_authority(host),
        !host.contains(':'),
        is_tail(tail),
    ensures
        host_parts(host + tail) == Ok::<(Seq<char>, Option<u16>, Seq<char>), Seq<char>>(
            (host, None, asked_path(tail)),
        ),
        host_parts(host + seq![':'] + dec(port as nat) + tail) == Ok::<
            (Seq<char>, Option<u16>, Seq<char>),
            Seq<char>,
        >((host, Some(port), asked_path(tail))),
{
    let digits = dec(port as nat);
    let a = host + seq![':'] + digits;
    parts_of(host, tail);
    digits_hold(port as nat, ':');
    digits_hold(port as nat, '/');
    digits_hold(port as nat, '?');
    decimals_are_digits(port as nat);
    let at = host.len() as int;
    assert forall|k: int| 0 <= k < a.len() implies a[k] != '/' && a[k] != '?' by {
        if k < at {
            assert(host.contains(host[k]));
        } else if k > at {
            assert(a[k] == digits[k - at - 1]);
            assert(digits.contains(digits[k - at - 1]));
        }
    }
    parts_of(a, tail);
    assert forall|j: int| at < j < a.len() implies a[j] != ':' by {
        assert(a[j] == digits[j - at - 1]);
        assert(digits.contains(digits[j - at - 1]));
    }
    last_at_unique(a, ':', at);
    assert(a.take(at) =~= host);
    assert(a.skip(at + 1) =~= digits);
    number_read_back(port as nat, 10, 65535);
}

/// In brackets any host is named, one with colons in it too, with a port or without.
pub proof fn bracketed_hosts_are_taken_apart(host: Seq<char>, port: u16, tail: Seq<char>)
    requires
        host.len() > 0,
        is_authority(host),
        !host.contains(']'),
        is_tail(tail),
    ensures
        host_parts(seq!['['] + host + seq![']'] + tail) == Ok::<
            (Seq<char>, Option<u16>, Seq<char>),
            Seq<char>,
        >((host, None, asked_path(tail))),
        host_parts(seq!['['] + host + seq![']'] + seq![':'] + dec(port as nat) + tail) == Ok::<
            (Seq<char>, Option<u16>, Seq<char>),
            Seq<char>,
        >((host, Some(port), asked_path(tail))),
{
    let digits = dec(port as nat);
    let empty = Seq::<char>::empty();
    let bare = seq!['['] + host + seq![']'];
    let a = seq!['['] + host + seq![']'] + seq![':'] + digits;
    let n = host.len() as int;
    digits_hold(port as nat, '/');
    digits_hold(port as nat, '?');
    assert forall|k: int| 0 <= k < a.len() implies a[k] != '/' && a[k] != '?' by {
        if 1 <= k <= n {
            assert(a[k] == host[k - 1]);
            assert(host.contains(host[k - 1]));
        } else if k > n + 2 {
            assert(a[k] == digits[k - n - 3]);
            assert(digits.contains(digits[k - n - 3]));
        }
    }
    assert forall|k: int| 0 <= k < bare.len() implies bare[k] != '/' && bare[k] != '?' by {
        assert(bare[k] == a[k]);
    }
    parts_of(bare, tail);
    parts_of(a, tail);
    cut_at_first(host, ']', empty);
    assert(bare.skip(1) =~= host + seq![']'] + empty);
    cut_at_first(host, ']', seq![':'] + digits);
    assert(a.skip(1) =~= host + seq![']'] + (seq![':'] + digits));
    assert((seq![':'] + digits).skip(1) =~= digits);
    number_read_back(port as nat, 10, 65535);
}

/// A bare address with more than one colon is a host as a whole: its last part is no port.
pub proof fn bare_addresses_stay_whole(host: Seq<char>, tail: Seq<char>, i: int, j: int)
    requires
        0 <= i < j < host.len(),
        host[i] == ':',
        host[j] == ':',
        host[0] != '[',
        is_authority(host),
        is_tail(tail),
    ensures
        host_parts(host + tail) == Ok::<(Seq<char>, Option<u16>, Seq<char>), Seq<char>>(
            (host, None, asked_path(tail)),
        ),
    decreases host.len() - j,
{
    parts_of(host, tail);
    if exists|k: int| j < k < host.len() && #[trigger] host[k] == ':' {
        let k = choose|k: int| j < k < host.len() && #[trigger] host[k] == ':';
        bare_addresses_stay_whole(host, tail, i, k);
    } else {
        last_at_unique(host, ':', j);
        assert(host.take(j)[i] == ':');
        assert(host.take(j).contains(':'));
    }
}

/// Without a host there is no target, whatever path or query is named.
pub proof fn hosts_are_needed(tail: Seq<char>)
    requires
        is_tail(tail),
    ensures
        host_parts(tail) == Err::<(Seq<char>, Option<u16>, Seq<char>), Seq<char>>(
            "--host must include host"@,
        ),
{
    let empty = Seq::<char>::empty();
    parts_of(empty, tail);
    assert(empty + tail =~= tail);
}

// ---------------------------------------------------------------------------
// Targets

/// A target by its host is asked by the protocol that was selected, at the port that was named
/// or else at the protocol's usual one; QUIC is refused.
pub proof fn host_targets_keep_what_is_named(
    input: Seq<char>,
    selected: ProbeProtocol,
    host: Seq<char>,
    port: Option<u16>,
    path: Seq<char>,
)
    requires
        host_parts(input) == Ok::<(Seq<char>, Option<u16>, Seq<char>), Seq<char>>(
            (host, port, path),
        ),
    ensures
        selected == ProbeProtocol::QuicHttp3Future <==> host_target(input, selected) is Err,
        host_target(input, selected) matches Ok(t) ==> {
            &&& t.original == input
            &&& t.host == host && t.path_and_query == path && t.protocol == selected
            &&& t.scheme == TargetScheme::Http <==> selected == ProbeProtocol::HttpPlain
            &&& port is Some ==> t.port == port->0
            &&& port is None && selected == ProbeProtocol::HttpPlain ==> t.port == 80
            &&& port is None && selected != ProbeProtocol::HttpPlain ==> t.port == 443
        },
{
}

/// The scheme of a URL decides over the protocol. Plain HTTP is asked for by its own scheme
/// alone, and a protocol that was named must agree with the scheme.
pub proof fn schemes_decide(scheme: Seq<char>, selected: ProbeProtocol, explicit: bool)
    ensures
        ({
            let choice = scheme_choice(scheme, selected, explicit);
            let tls = selected == ProbeProtocol::Tls12Http11 || selected
                == ProbeProtocol::Tls13Http11;
            &&& scheme != "http"@ && scheme != "https"@ ==> choice is Err
            &&& scheme == "http"@ ==> (choice is Err <==> explicit && selected
                != ProbeProtocol::HttpPlain)
            &&& scheme == "https"@ ==> (choice is Err <==> selected
                == ProbeProtocol::QuicHttp3Future || explicit && selected
                == ProbeProtocol::HttpPlain)
            &&& choice matches Ok((s, port, protocol)) ==> {
                &&& s == TargetScheme::Http <==> scheme == "http"@
                &&& port == 80 <==> scheme == "http"@
                &&& port == 443 <==> scheme == "https"@
                &&& protocol == ProbeProtocol::HttpPlain <==> scheme == "http"@
                &&& scheme == "https"@ && tls ==> protocol == selected
                &&& scheme == "https"@ && !tls ==> protocol == ProbeProtocol::Tls12Http11
            }
        }),
{
    reveal_strlit("http");
    reveal_strlit("https");
    assert("http"@.len() != "https"@.len());
}

/// A target by its URL keeps the host, the port and the query of the URL; a missing port is
/// the usual one of the scheme, and a missing path the root.
pub proof fn url_targets_keep_what_is_named(
    url: Seq<char>,
    parts: UrlModel,
    selected: ProbeProtocol,
    explicit: bool,
)
    ensures
        url_target(url, parts, selected, explicit) is Ok <==> parts.host is Some && scheme_choice(
            parts.scheme,
            selected,
            explicit,
        ) is Ok,
        url_target(url, parts, selected, explicit) matches Ok(t) ==> {
            &&& t.original == url
            &&& parts.host == Some(t.host)
            &&& parts.port is Some ==> t.port == parts.port->0
            &&& parts.port is None && parts.scheme == "http"@ ==> t.port == 80
            &&& parts.port is None && parts.scheme == "https"@ ==> t.port == 443
            &&& parts.query is None && parts.path.len() > 0 ==> t.path_and_query == parts.path
            &&& parts.query is None && parts.path.len() == 0 ==> t.path_and_query == "/"@
            &&& parts.query is Some && parts.path.len() > 0 ==> t.path_and_query == parts.path
                + "?"@ + parts.query->0
            &&& parts.query is Some && parts.path.len() == 0 ==> t.path_and_query == "/"@ + "?"@
                + parts.query->0
        },
{
    schemes_decide(parts.scheme, selected, explicit);
    reveal_strlit("http");
    reveal_strlit("https");
    assert("http"@.len() != "https"@.len());
}

/// Exactly one of the host and the URL is to be named.
pub proof fn one_target_is_named(
    host: Option<Seq<char>>,
    url: Option<Seq<char>>,
    selected: ProbeProtocol,
    explicit: bool,
)
    ensures
        host is Some == url is Some ==> target_named(host, url, selected, explicit) is Err,
        host is Some && url is None ==> target_named(host, url, selected, explicit)
            == host_target(host->0, selected),
{
}

} // verus!
