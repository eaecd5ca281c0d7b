use vstd::prelude::*;
use crate::fault::{plain, seen, Fault};
use crate::number::{number_fits, number_of, parse_number};
use crate::order::views;
use crate::text::{
    ascii_lower, ascii_upper, cat2, chars_of, contains_char, cut_first, cut_last, lowered, opt_text,
    rsplit_once, split_once, str_eq, string_of, take_all, take_next, uppered,
};

verus! {

/// The way a probe talks to its target.
#[derive(Debug, Clone, Copy, PartialEq, Eq, Structural)]
pub enum ProbeProtocol {
    HttpPlain,
    Tls12Http11,
    Tls13Http11,
    QuicHttp3Future,
}

impl ProbeProtocol {
    /// The key under which a catalog lists the protocol.
    pub open spec fn key(self) -> Seq<char> {
        match self {
            ProbeProtocol::HttpPlain => "http"@,
            ProbeProtocol::Tls12Http11 => "tls12"@,
            ProbeProtocol::Tls13Http11 => "tls13"@,
            ProbeProtocol::QuicHttp3Future => "quic"@,
        }
    }

    /// The port that a target has unless it names one.
    pub open spec fn port(self) -> u16 {
        match self {
            ProbeProtocol::HttpPlain => 80,
            _ => 443,
        }
    }

    /// The key under which a catalog lists the protocol.
    pub fn catalog_key(self) -> (r: &'static str)
        ensures
            r@ == self.key(),
    {
        match self {
            ProbeProtocol::HttpPlain => "http",
            ProbeProtocol::Tls12Http11 => "tls12",
            ProbeProtocol::Tls13Http11 => "tls13",
            ProbeProtocol::QuicHttp3Future => "quic",
        }
    }

    /// The port that a target has unless it names one.
    pub fn default_port(self) -> (r: u16)
        ensures
            r == self.port(),
    {
        match self {
            ProbeProtocol::HttpPlain => 80,
            ProbeProtocol::Tls12Http11 => 443,
            ProbeProtocol::Tls13Http11 => 443,
            ProbeProtocol::QuicHttp3Future => 443,
        }
    }
}

/// The request method of a probe.
#[derive(Debug, Clone, Copy, PartialEq, Eq, Structural)]
pub enum HttpMethod {
    Get,
    Head,
}

impl HttpMethod {
    /// The method as it stands in a request line.
    pub open spec fn name(self) -> Seq<char> {
        match self {
            HttpMethod::Get => "GET"@,
            HttpMethod::Head => "HEAD"@,
        }
    }

    /// The method that a configured text names, in any letter case.
    pub open spec fn configured(s: Seq<char>) -> Result<HttpMethod, Seq<char>> {
        if uppered(s) == "GET"@ {
            Ok(HttpMethod::Get)
        } else if uppered(s) == "HEAD"@ {
            Ok(HttpMethod::Head)
        } else {
            Err("unsupported probe.method: "@ + s)
        }
    }

    /// Reads a configured method.
    pub fn parse_config(s: &str) -> (r: Result<HttpMethod, Fault>)
        ensures
            plain(r) == HttpMethod::configured(s@),
    {
        let upper = ascii_upper(s);
        if str_eq(upper.as_str(), "GET") {
            Ok(HttpMethod::Get)
        } else if str_eq(upper.as_str(), "HEAD") {
            Ok(HttpMethod::Head)
        } else {
            Err(Fault { text: cat2("unsupported probe.method: ", s) })
        }
    }

    /// The method as it stands in a request line.
    pub fn as_str(self) -> (r: &'static str)
        ensures
            r@ == self.name(),
    {
        match self {
            HttpMethod::Get => "GET",
            HttpMethod::Head => "HEAD",
        }
    }
}

/// How much of a response a probe reads.
#[derive(Debug, Clone, Copy, PartialEq, Eq, Structural)]
pub enum ReadMode {
    Headers,
    Body,
    Full,
}

impl ReadMode {
    /// The mode that a configured text names, in any letter case.
    pub open spec fn configured(s: Seq<char>) -> Result<ReadMode, Seq<char>> {
        if lowered(s) == "headers"@ {
            Ok(ReadMode::Headers)
        } else if lowered(s) == "body"@ {
            Ok(ReadMode::Body)
        } else if lowered(s) == "full"@ {
            Ok(ReadMode::Full)
        } else {
            Err("unsupported probe.read_mode: "@ + s)
        }
    }

    /// Reads a configured mode.
    pub fn parse_config(s: &str) -> (r: Result<ReadMode, Fault>)
        ensures
            plain(r) == ReadMode::configured(s@),
    {
        let lower = ascii_lower(s);
        if str_eq(lower.as_str(), "headers") {
            Ok(ReadMode::Headers)
        } else if str_eq(lower.as_str(), "body") {
            Ok(ReadMode::Body)
        } else if str_eq(lower.as_str(), "full") {
            Ok(ReadMode::Full)
        } else {
            Err(Fault { text: cat2("unsupported probe.read_mode: ", s) })
        }
    }
}

#[derive(Debug, Clone, Copy, PartialEq, Eq, Structural)]
pub enum TargetScheme {
    Http,
    Https,
}

/// An IP address: its version and its text.
#[derive(Debug)]
pub struct HostIp {
    pub is_ipv4: bool,
    pub text: String,
}

impl Clone for HostIp {
    fn clone(&self) -> (r: HostIp)
        ensures
            r == *self,
    {
        HostIp { is_ipv4: self.is_ipv4, text: self.text.clone() }
    }
}

/// What is asked of whom.
#[derive(Debug)]
pub struct TargetRequest {
    pub original: String,
    pub scheme: TargetScheme,
    pub host: String,
    pub port: u16,
    pub path_and_query: String,
    pub protocol: ProbeProtocol,
}

/// A target request by its contents.
pub struct TargetModel {
    pub original: Seq<char>,
    pub scheme: TargetScheme,
    pub host: Seq<char>,
    pub port: u16,
    pub path_and_query: Seq<char>,
    pub protocol: ProbeProtocol,
}

impl View for TargetRequest {
    type V = TargetModel;

    open spec fn view(&self) -> TargetModel {
        TargetModel {
            original: self.original@,
            scheme: self.scheme,
            host: self.host@,
            port: self.port,
            path_and_query: self.path_and_query@,
            protocol: self.protocol,
        }
    }
}

/// The parts of an absolute URL that a target request is made of.
#[derive(Debug)]
pub struct UrlParts {
    pub scheme: String,
    pub host: Option<String>,
    pub port: Option<u16>,
    pub path: String,
    pub query: Option<String>,
}

/// The parts of a URL by their contents.
pub struct UrlModel {
    pub scheme: Seq<char>,
    pub host: Option<Seq<char>>,
    pub port: Option<u16>,
    pub path: Seq<char>,
    pub query: Option<Seq<char>>,
}

impl View for UrlParts {
    type V = UrlModel;

    open spec fn view(&self) -> UrlModel {
        UrlModel {
            scheme: self.scheme@,
            host: opt_text(self.host),
            port: self.port,
            path: self.path@,
            query: opt_text(self.query),
        }
    }
}

/// What `url::Url::parse` makes of a text: the parts of the URL, or its error in words.
pub uninterp spec fn url_parsed(text: Seq<char>) -> Result<UrlModel, Seq<char>>;

/// Calls `url::Url::parse` and takes the parts out of what it gives back: the scheme, the
/// host, the port unless it is the scheme's own, the path and the query. The result is a
/// function of the text alone.
#[verifier::external_body]
pub(crate) fn parse_url(text: &str) -> (r: Result<UrlParts, Fault>)
    ensures
        seen(r) == url_parsed(text@),
{
    match url::Url::parse(text) {
        Ok(url) => Ok(UrlParts {
            scheme: url.scheme().to_string(),
            host: url.host_str().map(str::to_string),
            port: url.port(),
            path: url.path().to_string(),
            query: url.query().map(str::to_string),
        }),
        Err(error) => Err(Fault { text: error.to_string() }),
    }
}

// ---------------------------------------------------------------------------
// Targets

/// Where the path or the query of a host text begins.
pub open spec fn path_start(s: Seq<char>) -> int
    decreases s.len(),
{
    if s.len() == 0 || s[0] == '/' || s[0] == '?' {
        0
    } else {
        1 + path_start(s.drop_first())
    }
}

/// The port that a text writes in decimal digits.
pub open spec fn host_port(s: Seq<char>) -> Result<u16, Seq<char>> {
    match number_of(s, 10, 65535) {
        Ok(n) => Ok(n as u16),
        Err(_) => Err("invalid host port: "@ + s),
    }
}

/// `s` holds decimal digits only.
pub open spec fn all_digits(s: Seq<char>) -> bool {
    forall|i: int| 0 <= i < s.len() ==> '0' <= #[trigger] s[i] <= '9'
}

/// The host and the port of an authority. A bracketed host may be followed by a port. A
/// bare one is followed by a port only where it holds no colon itself, so that an IPv6
/// address stays whole.
pub open spec fn authority_parts(s: Seq<char>) -> Result<(Seq<char>, Option<u16>), Seq<char>> {
    if s.len() == 0 {
        Err("--host must include host"@)
    } else if s[0] == '[' {
        match cut_first(s.skip(1), ']') {
            None => Err("invalid bracketed IPv6 host"@),
            Some((host, tail)) => if tail.len() == 0 {
                Ok((host, None))
            } else if tail[0] == ':' {
                match host_port(tail.skip(1)) {
                    Ok(port) => Ok((host, Some(port))),
                    Err(e) => Err(e),
                }
            } else {
                Err("invalid bracketed IPv6 host"@)
            },
        }
    } else {
        match cut_last(s, ':') {
            Some((host, port)) => if !host.contains(':') && port.len() > 0 && all_digits(port) {
                match host_port(port) {
                    Ok(p) => Ok((host, Some(p))),
                    Err(e) => Err(e),
                }
            } else {
                Ok((s, None))
            },
            None => Ok((s, None)),
        }
    }
}

/// What stands behind the authority as the path and the query of a request.
pub open spec fn path_of(rest: Seq<char>) -> Seq<char> {
    if rest.len() == 0 {
        "/"@
    } else if rest[0] == '/' {
        rest
    } else {
        "/"@ + rest
    }
}

/// The host, the port and the path of a host text.
pub open spec fn host_parts(s: Seq<char>) -> Result<
    (Seq<char>, Option<u16>, Seq<char>),
    Seq<char>,
> {
    let n = path_start(s);
    match authority_parts(s.take(n)) {
        Err(e) => Err(e),
        Ok((host, port)) => if host.len() == 0 {
            Err("--host must include host"@)
        } else {
            Ok((host, port, path_of(s.skip(n))))
        },
    }
}

/// The target that a host text names.
pub open spec fn host_target(input: Seq<char>, selected: ProbeProtocol) -> Result<
    TargetModel,
    Seq<char>,
> {
    match host_parts(input) {
        Err(e) => Err(e),
        Ok((host, port, path)) => if selected == ProbeProtocol::QuicHttp3Future {
            Err("QUIC HTTP/3 probe is not implemented"@)
        } else {
            let scheme = if selected == ProbeProtocol::HttpPlain {
                TargetScheme::Http
            } else {
                TargetScheme::Https
            };
            Ok(
                TargetModel {
                    original: input,
                    scheme,
                    host,
                    port: match port {
                        Some(p) => p,
                        None => selected.port(),
                    },
                    path_and_query: path,
                    protocol: selected,
                },
            )
        },
    }
}

/// The scheme, the port and the protocol for a URL's scheme. A protocol that was asked for
/// by name must fit it.
pub open spec fn scheme_choice(scheme: Seq<char>, selected: ProbeProtocol, explicit: bool) -> Result<
    (TargetScheme, u16, ProbeProtocol),
    Seq<char>,
> {
    if scheme == "http"@ {
        if explicit && selected != ProbeProtocol::HttpPlain {
            Err("--probe-protocol conflicts with http:// URL"@)
        } else {
            Ok((TargetScheme::Http, 80, ProbeProtocol::HttpPlain))
        }
    } else if scheme == "https"@ {
        match selected {
            ProbeProtocol::Tls12Http11 => Ok((TargetScheme::Https, 443, selected)),
            ProbeProtocol::Tls13Http11 => Ok((TargetScheme::Https, 443, selected)),
            ProbeProtocol::HttpPlain => if explicit {
                Err("--probe-protocol conflicts with https:// URL"@)
            } else {
                Ok((TargetScheme::Https, 443, ProbeProtocol::Tls12Http11))
            },
            ProbeProtocol::QuicHttp3Future => Err("QUIC HTTP/3 probe is not implemented"@),
        }
    } else {
        Err("unsupported URL scheme: "@ + scheme)
    }
}

/// The target that the parts of a URL name.
pub open spec fn url_target(
    url: Seq<char>,
    parts: UrlModel,
    selected: ProbeProtocol,
    explicit: bool,
) -> Result<TargetModel, Seq<char>> {
    match parts.host {
        None => Err("target URL must include host"@),
        Some(host) => match scheme_choice(parts.scheme, selected, explicit) {
            Err(e) => Err(e),
            Ok((scheme, port, protocol)) => {
                let path = if parts.path.len() == 0 {
                    "/"@
                } else {
                    parts.path
                };
                Ok(
                    TargetModel {
                        original: url,
                        scheme,
                        host,
                        port: match parts.port {
                            Some(p) => p,
                            None => port,
                        },
                        path_and_query: match parts.query {
                            Some(q) => path + "?"@ + q,
                            None => path,
                        },
                        protocol,
                    },
                )
            },
        },
    }
}

/// The target that a host text or a URL names: exactly one of them is given.
pub open spec fn target_named(
    host: Option<Seq<char>>,
    url: Option<Seq<char>>,
    selected: ProbeProtocol,
    explicit: bool,
) -> Result<TargetModel, Seq<char>> {
    match (host, url) {
        (Some(input), None) => host_target(input, selected),
        (None, Some(text)) => match url_parsed(text) {
            Err(e) => Err(e),
            Ok(parts) => url_target(text, parts, selected, explicit),
        },
        _ => Err("specify exactly one of --host or --url"@),
    }
}

/// Reads the target of a check from the host text or the URL that was given.
pub fn parse_target_request(
    host: Option<String>,
    url: Option<String>,
    selected_protocol: ProbeProtocol,
    explicit_protocol_from_cli: bool,
) -> (r: Result<TargetRequest, Fault>)
    ensures
        seen(r) == target_named(
            opt_text(host),
            opt_text(url),
            selected_protocol,
            explicit_protocol_from_cli,
        ),
{
    match (host, url) {
        (Some(input), None) => target_from_host(input, selected_protocol),
        (None, Some(text)) => match parse_url(text.as_str()) {
            Ok(parts) => target_from_url_parts(
                text,
                parts,
                selected_protocol,
                explicit_protocol_from_cli,
            ),
            Err(e) => Err(e),
        },
        _ => Err(Fault::new("specify exactly one of --host or --url")),
    }
}

/// The target that a host text names.
pub fn target_from_host(input: String, selected: ProbeProtocol) -> (r: Result<TargetRequest, Fault>)
    ensures
        seen(r) == host_target(input@, selected),
{
    match split_host_path(input.as_str()) {
        Err(e) => Err(e),
        Ok((host, port, path_and_query)) => {
            let scheme = match selected {
                ProbeProtocol::HttpPlain => TargetScheme::Http,
                ProbeProtocol::Tls12Http11 => TargetScheme::Https,
                ProbeProtocol::Tls13Http11 => TargetScheme::Https,
                ProbeProtocol::QuicHttp3Future => {
                    return Err(Fault::new("QUIC HTTP/3 probe is not implemented"));
                },
            };
            Ok(
                TargetRequest {
                    original: input,
                    scheme,
                    host,
                    port: match port {
                        Some(p) => p,
                        None => selected.default_port(),
                    },
                    path_and_query,
                    protocol: selected,
                },
            )
        },
    }
}

fn choose_scheme(scheme: &str, selected: ProbeProtocol, explicit: bool) -> (r: Result<
    (TargetScheme, u16, ProbeProtocol),
    Fault,
>)
    ensures
        plain(r) == scheme_choice(scheme@, selected, explicit),
{
    if str_eq(scheme, "http") {
        if explicit && selected != ProbeProtocol::HttpPlain {
            Err(Fault::new("--probe-protocol conflicts with http:// URL"))
        } else {
            Ok((TargetScheme::Http, 80, ProbeProtocol::HttpPlain))
        }
    } else if str_eq(scheme, "https") {
        match selected {
            ProbeProtocol::Tls12Http11 => Ok((TargetScheme::Https, 443, selected)),
            ProbeProtocol::Tls13Http11 => Ok((TargetScheme::Https, 443, selected)),
            ProbeProtocol::HttpPlain => if explicit {
                Err(Fault::new("--probe-protocol conflicts with https:// URL"))
            } else {
                Ok((TargetScheme::Https, 443, ProbeProtocol::Tls12Http11))
            },
            ProbeProtocol::QuicHttp3Future => Err(
                Fault::new("QUIC HTTP/3 probe is not implemented"),
            ),
        }
    } else {
        Err(Fault { text: cat2("unsupported URL scheme: ", scheme) })
    }
}

/// The target that the parts of the URL `url` name.
pub fn target_from_url_parts(
    url: String,
    parts: UrlParts,
    selected: ProbeProtocol,
    explicit: bool,
) -> (r: Result<TargetRequest, Fault>)
    ensures
        seen(r) == url_target(url@, parts@, selected, explicit),
{
    let host = match parts.host {
        Some(host) => host,
        None => {
            return Err(Fault::new("target URL must include host"));
        },
    };
    match choose_scheme(parts.scheme.as_str(), selected, explicit) {
        Err(e) => Err(e),
        Ok((scheme, port, protocol)) => {
            let mut path_and_query = normalize_path(parts.path.as_str());
            if let Some(query) = parts.query {
                path_and_query.append("?");
                path_and_query.append(query.as_str());
            }
            Ok(
                TargetRequest {
                    original: url,
                    scheme,
                    host,
                    port: match parts.port {
                        Some(p) => p,
                        None => port,
                    },
                    path_and_query,
                    protocol,
                },
            )
        },
    }
}

fn normalize_path(path: &str) -> (r: String)
    ensures
        r@ == if path@.len() == 0 {
            "/"@
        } else {
            path@
        },
{
    if path.is_empty() {
        "/".to_owned()
    } else {
        path.to_owned()
    }
}

proof fn path_start_at(s: Seq<char>, n: int)
    requires
        0 <= n <= s.len(),
        forall|i: int| 0 <= i < n ==> #[trigger] s[i] != '/' && s[i] != '?',
        n < s.len() ==> s[n] == '/' || s[n] == '?',
    ensures
        path_start(s) == n,
    decreases n,
{
    if n > 0 {
        assert(s[0] != '/' && s[0] != '?');
        let t = s.drop_first();
        assert forall|i: int| 0 <= i < n - 1 implies #[trigger] t[i] != '/' && t[i] != '?' by {
            assert(t[i] == s[i + 1]);
        }
        path_start_at(t, n - 1);
    }
}

/// The host, the port and the path of a split host text by their contents.
pub open spec fn split_text(r: Result<(String, Option<u16>, String), Fault>) -> Result<
    (Seq<char>, Option<u16>, Seq<char>),
    Seq<char>,
> {
    match r {
        Ok((host, port, path)) => Ok((host@, port, path@)),
        Err(e) => Err(e@),
    }
}

/// Splits a host text into its host, its port and its path.
pub fn split_host_path(input: &str) -> (r: Result<(String, Option<u16>, String), Fault>)
    ensures
        split_text(r) == host_parts(input@),
{
    let cs = chars_of(input);
    let mut n: usize = 0;
    while n < cs.len() && cs[n] != '/' && cs[n] != '?'
        invariant
            n <= cs@.len(),
            forall|i: int| 0 <= i < n ==> #[trigger] cs@[i] != '/' && cs@[i] != '?',
        decreases cs@.len() - n,
    {
        n = n + 1;
    }
    let authority = string_of(&cs, 0, n);
    let rest = string_of(&cs, n, cs.len());
    proof {
        path_start_at(input@, n as int);
        assert(authority@ =~= input@.take(n as int));
        assert(rest@ =~= input@.skip(n as int));
    }
    match split_authority_host_port(authority.as_str()) {
        Err(e) => Err(e),
        Ok((host, port)) => {
            if host.as_str().is_empty() {
                return Err(Fault::new("--host must include host"));
            }
            let path_and_query = if n == cs.len() {
                "/".to_owned()
            } else if cs[n] == '/' {
                rest
            } else {
                cat2("/", rest.as_str())
            };
            Ok((host, port, path_and_query))
        },
    }
}

/// The host and the port of a split authority by their contents.
pub open spec fn authority_text(r: Result<(String, Option<u16>), Fault>) -> Result<
    (Seq<char>, Option<u16>),
    Seq<char>,
> {
    match r {
        Ok((host, port)) => Ok((host@, port)),
        Err(e) => Err(e@),
    }
}

/// Splits an authority into its host and its port.
pub fn split_authority_host_port(authority: &str) -> (r: Result<(String, Option<u16>), Fault>)
    ensures
        authority_text(r) == authority_parts(authority@),
{
    let cs = chars_of(authority);
    if cs.len() == 0 {
        return Err(Fault::new("--host must include host"));
    }
    if cs[0] == '[' {
        let inner = string_of(&cs, 1, cs.len());
        assert(inner@ =~= authority@.skip(1));
        return match split_once(inner.as_str(), ']') {
            None => Err(Fault::new("invalid bracketed IPv6 host")),
            Some((host, tail)) => {
                let ts = chars_of(tail.as_str());
                if ts.len() == 0 {
                    Ok((host, None))
                } else if ts[0] == ':' {
                    let port = string_of(&ts, 1, ts.len());
                    assert(port@ =~= tail@.skip(1));
                    match parse_host_port(port.as_str()) {
                        Ok(p) => Ok((host, Some(p))),
                        Err(e) => Err(e),
                    }
                } else {
                    Err(Fault::new("invalid bracketed IPv6 host"))
                }
            },
        };
    }
    if let Some((host, port)) = rsplit_once(authority, ':') {
        if !contains_char(host.as_str(), ':') && !port.as_str().is_empty() && digits_only(
            port.as_str(),
        ) {
            return match parse_host_port(port.as_str()) {
                Ok(p) => Ok((host, Some(p))),
                Err(e) => Err(e),
            };
        }
    }
    Ok((authority.to_owned(), None))
}

pub(crate) fn digits_only(s: &str) -> (r: bool)
    ensures
        r == all_digits(s@),
{
    let cs = chars_of(s);
    let mut i: usize = 0;
    while i < cs.len()
        invariant
            cs@ == s@,
            i <= cs@.len(),
            forall|j: int| 0 <= j < i ==> '0' <= #[trigger] s@[j] <= '9',
        decreases cs@.len() - i,
    {
        if cs[i] < '0' || cs[i] > '9' {
            assert(!('0' <= s@[i as int] <= '9'));
            return false;
        }
        i = i + 1;
    }
    true
}

fn parse_host_port(port: &str) -> (r: Result<u16, Fault>)
    ensures
        plain(r) == host_port(port@),
{
    match parse_number(port, 10, 65535) {
        Ok(n) => {
            proof {
                number_fits(port@, 10, 65535);
            }
            Ok(n as u16)
        },
        Err(_) => Err(Fault { text: cat2("invalid host port: ", port) }),
    }
}

// ---------------------------------------------------------------------------
// Probes

/// How long each step of a probe may take.
#[derive(Debug, Clone, Copy, PartialEq, Eq, Structural)]
pub struct ProbeTimeouts {
    pub connect_ms: u64,
    pub tls_ms: u64,
    pub first_byte_ms: u64,
    pub total_ms: u64,
}

/// What is asked for, and how much of the answer is read.
#[derive(Debug)]
pub struct HttpRequestSpec {
    pub method: HttpMethod,
    pub path_and_query: String,
    pub user_agent: String,
    pub read_mode: ReadMode,
    pub min_body_bytes: usize,
    pub dpi_detection_bytes: usize,
    pub verify_transfer_bytes: usize,
    pub max_read_bytes: usize,
}

impl Clone for HttpRequestSpec {
    fn clone(&self) -> (r: HttpRequestSpec)
        ensures
            r == *self,
    {
        HttpRequestSpec {
            method: self.method,
            path_and_query: self.path_and_query.clone(),
            user_agent: self.user_agent.clone(),
            read_mode: self.read_mode,
            min_body_bytes: self.min_body_bytes,
            dpi_detection_bytes: self.dpi_detection_bytes,
            verify_transfer_bytes: self.verify_transfer_bytes,
            max_read_bytes: self.max_read_bytes,
        }
    }
}

/// A target that strategies are tried on.
#[derive(Debug)]
pub struct StrategyProbeTarget {
    pub original: String,
    pub host: String,
    pub ip: HostIp,
    pub port: u16,
    pub protocol: ProbeProtocol,
    pub request: HttpRequestSpec,
}

impl Clone for StrategyProbeTarget {
    fn clone(&self) -> (r: StrategyProbeTarget)
        ensures
            r == *self,
    {
        StrategyProbeTarget {
            original: self.original.clone(),
            host: self.host.clone(),
            ip: self.ip.clone(),
            port: self.port,
            protocol: self.protocol,
            request: self.request.clone(),
        }
    }
}

/// A strategy to try on a target.
#[derive(Debug)]
pub struct StrategyTask {
    pub strategy_id: String,
    pub strategy_args: Vec<String>,
    pub target_host: String,
    pub target_ip: HostIp,
    pub target_port: u16,
    pub protocol: ProbeProtocol,
    pub path: String,
    pub request: HttpRequestSpec,
    pub timeouts: ProbeTimeouts,
}

/// How far a transfer got.
#[derive(Debug, Clone, Copy, PartialEq, Eq, Structural)]
pub enum TransferLevel {
    Nothing,
    Connected,
    TlsHandshake,
    Headers,
    Body,
    Verified,
}

impl Default for TransferLevel {
    fn default() -> (r: TransferLevel)
        ensures
            r == TransferLevel::Nothing,
    {
        TransferLevel::Nothing
    }
}

/// A strategy that a worker tries on a target.
#[derive(Debug)]
pub struct ProbeTask {
    pub strategy_id: String,
    pub worker_id: usize,
    pub strategy_args: Vec<String>,
    pub target_host: String,
    pub target_ip: HostIp,
    pub target_port: u16,
    pub protocol: ProbeProtocol,
    pub path: String,
    pub request: HttpRequestSpec,
    pub timeouts: ProbeTimeouts,
}

impl ProbeTask {
    /// The task of a worker.
    pub fn from_strategy_task(task: StrategyTask, worker_id: usize) -> (r: ProbeTask)
        ensures
            r == (ProbeTask {
                strategy_id: task.strategy_id,
                worker_id,
                strategy_args: task.strategy_args,
                target_host: task.target_host,
                target_ip: task.target_ip,
                target_port: task.target_port,
                protocol: task.protocol,
                path: task.path,
                request: task.request,
                timeouts: task.timeouts,
            }),
    {
        ProbeTask {
            strategy_id: task.strategy_id,
            worker_id,
            strategy_args: task.strategy_args,
            target_host: task.target_host,
            target_ip: task.target_ip,
            target_port: task.target_port,
            protocol: task.protocol,
            path: task.path,
            request: task.request,
            timeouts: task.timeouts,
        }
    }
}

/// What a probe runs under.
#[derive(Debug, Clone, Copy, PartialEq, Eq, Structural)]
pub struct ProbeContext {
    pub qnum: u16,
    pub baseline: bool,
}

#[derive(Debug, Clone, Copy, PartialEq, Eq, Structural)]
pub enum FailureKind {
    StrategyFailure,
    InfrastructureFailure,
    TargetFailure,
    Cancelled,
}

#[derive(Debug, Clone, Copy, PartialEq, Eq, Structural)]
pub enum ProbeOutcome {
    Success,
    Timeout,
    TcpReset,
    TlsAlert,
    HttpBlockPage,
    EmptyResponse,
    DnsFailure,
    NetworkUnreachable,
    Refused,
    Cancelled,
    InternalError,
    BodyTooSmall,
}

#[derive(Debug, Clone, Copy, PartialEq, Eq, Structural)]
pub enum ProbeErrorClass {
    SocketCreateFailed,
    BindFailed,
    LocalAddrFailed,
    QueueUnavailable,
    FirewallInstallFailed,
    FirewallRemoveFailed,
    NfqwsStartFailed,
    NfqwsExitedEarly,
    NfqwsStopFailed,
    ConnectTimeout,
    ConnectFailed,
    TlsTimeout,
    TlsFailed,
    FirstByteTimeout,
    ReadTimeout,
    ReadFailed,
    InvalidHttpResponse,
    CurlFailed,
    ProcessFailed,
    Cancelled,
    InternalError,
    BodyTooSmall,
}

/// What came of a probe.
#[derive(Debug)]
pub struct ProbeResult {
    pub strategy_id: String,
    pub worker_id: usize,
    pub qnum: Option<u16>,
    pub assigned_source_port: Option<u16>,
    pub target_host: String,
    pub target_ip: HostIp,
    pub target_port: u16,
    pub protocol: ProbeProtocol,
    pub path: String,
    pub method: HttpMethod,
    pub read_mode: ReadMode,
    pub setup_ms: Option<u64>,
    pub connect_ms: Option<u64>,
    pub tls_ms: Option<u64>,
    pub first_byte_ms: Option<u64>,
    pub total_ms: u64,
    pub outcome: ProbeOutcome,
    pub http_status: Option<u16>,
    pub bytes_read: usize,
    pub header_bytes: usize,
    pub body_bytes: usize,
    pub total_bytes: usize,
    pub transfer_level: TransferLevel,
    pub dpi_suspicious: bool,
    pub failure_kind: Option<FailureKind>,
    pub error_class: Option<ProbeErrorClass>,
    pub error_message: Option<String>,
}

impl Clone for ProbeResult {
    fn clone(&self) -> (r: ProbeResult)
        ensures
            r == *self,
    {
        ProbeResult {
            strategy_id: self.strategy_id.clone(),
            worker_id: self.worker_id,
            qnum: self.qnum,
            assigned_source_port: self.assigned_source_port,
            target_host: self.target_host.clone(),
            target_ip: self.target_ip.clone(),
            target_port: self.target_port,
            protocol: self.protocol,
            path: self.path.clone(),
            method: self.method,
            read_mode: self.read_mode,
            setup_ms: self.setup_ms,
            connect_ms: self.connect_ms,
            tls_ms: self.tls_ms,
            first_byte_ms: self.first_byte_ms,
            total_ms: self.total_ms,
            outcome: self.outcome,
            http_status: self.http_status,
            bytes_read: self.bytes_read,
            header_bytes: self.header_bytes,
            body_bytes: self.body_bytes,
            total_bytes: self.total_bytes,
            transfer_level: self.transfer_level,
            dpi_suspicious: self.dpi_suspicious,
            failure_kind: self.failure_kind,
            error_class: self.error_class,
            error_message: match &self.error_message {
                Some(m) => Some(m.clone()),
                None => None,
            },
        }
    }
}

impl ProbeProtocol {
    /// The name of the protocol.
    pub open spec fn label(self) -> Seq<char> {
        match self {
            ProbeProtocol::HttpPlain => "HttpPlain"@,
            ProbeProtocol::Tls12Http11 => "Tls12Http11"@,
            ProbeProtocol::Tls13Http11 => "Tls13Http11"@,
            ProbeProtocol::QuicHttp3Future => "QuicHttp3Future"@,
        }
    }

    /// The name of the protocol.
    pub fn name(self) -> (r: &'static str)
        ensures
            r@ == self.label(),
    {
        match self {
            ProbeProtocol::HttpPlain => "HttpPlain",
            ProbeProtocol::Tls12Http11 => "Tls12Http11",
            ProbeProtocol::Tls13Http11 => "Tls13Http11",
            ProbeProtocol::QuicHttp3Future => "QuicHttp3Future",
        }
    }
}

impl HttpMethod {
    /// The name of the method.
    pub open spec fn label(self) -> Seq<char> {
        match self {
            HttpMethod::Get => "Get"@,
            HttpMethod::Head => "Head"@,
        }
    }

    /// The name of the method.
    pub fn variant_name(self) -> (r: &'static str)
        ensures
            r@ == self.label(),
    {
        match self {
            HttpMethod::Get => "Get",
            HttpMethod::Head => "Head",
        }
    }
}

impl ReadMode {
    /// The name of the mode.
    pub open spec fn label(self) -> Seq<char> {
        match self {
            ReadMode::Headers => "Headers"@,
            ReadMode::Body => "Body"@,
            ReadMode::Full => "Full"@,
        }
    }

    /// The name of the mode.
    pub fn name(self) -> (r: &'static str)
        ensures
            r@ == self.label(),
    {
        match self {
            ReadMode::Headers => "Headers",
            ReadMode::Body => "Body",
            ReadMode::Full => "Full",
        }
    }
}

impl TransferLevel {
    /// The name of the level.
    pub open spec fn label(self) -> Seq<char> {
        match self {
            TransferLevel::Nothing => "None"@,
            TransferLevel::Connected => "Connected"@,
            TransferLevel::TlsHandshake => "TlsHandshake"@,
            TransferLevel::Headers => "Headers"@,
            TransferLevel::Body => "Body"@,
            TransferLevel::Verified => "Verified"@,
        }
    }

    /// The name of the level.
    pub fn name(self) -> (r: &'static str)
        ensures
            r@ == self.label(),
    {
        match self {
            TransferLevel::Nothing => "None",
            TransferLevel::Connected => "Connected",
            TransferLevel::TlsHandshake => "TlsHandshake",
            TransferLevel::Headers => "Headers",
            TransferLevel::Body => "Body",
            TransferLevel::Verified => "Verified",
        }
    }
}

impl FailureKind {
    /// The name of the kind.
    pub open spec fn label(self) -> Seq<char> {
        match self {
            FailureKind::StrategyFailure => "StrategyFailure"@,
            FailureKind::InfrastructureFailure => "InfrastructureFailure"@,
            FailureKind::TargetFailure => "TargetFailure"@,
            FailureKind::Cancelled => "Cancelled"@,
        }
    }

    /// The name of the kind.
    pub fn name(self) -> (r: &'static str)
        ensures
            r@ == self.label(),
    {
        match self {
            FailureKind::StrategyFailure => "StrategyFailure",
            FailureKind::InfrastructureFailure => "InfrastructureFailure",
            FailureKind::TargetFailure => "TargetFailure",
            FailureKind::Cancelled => "Cancelled",
        }
    }
}

impl ProbeOutcome {
    /// The name of the outcome.
    pub open spec fn label(self) -> Seq<char> {
        match self {
            ProbeOutcome::Success => "Success"@,
            ProbeOutcome::Timeout => "Timeout"@,
            ProbeOutcome::TcpReset => "TcpReset"@,
            ProbeOutcome::TlsAlert => "TlsAlert"@,
            ProbeOutcome::HttpBlockPage => "HttpBlockPage"@,
            ProbeOutcome::EmptyResponse => "EmptyResponse"@,
            ProbeOutcome::DnsFailure => "DnsFailure"@,
            ProbeOutcome::NetworkUnreachable => "NetworkUnreachable"@,
            ProbeOutcome::Refused => "Refused"@,
            ProbeOutcome::Cancelled => "Cancelled"@,
            ProbeOutcome::InternalError => "InternalError"@,
            ProbeOutcome::BodyTooSmall => "BodyTooSmall"@,
        }
    }

    /// The name of the outcome.
    pub fn name(self) -> (r: &'static str)
        ensures
            r@ == self.label(),
    {
        match self {
            ProbeOutcome::Success => "Success",
            ProbeOutcome::Timeout => "Timeout",
            ProbeOutcome::TcpReset => "TcpReset",
            ProbeOutcome::TlsAlert => "TlsAlert",
            ProbeOutcome::HttpBlockPage => "HttpBlockPage",
            ProbeOutcome::EmptyResponse => "EmptyResponse",
            ProbeOutcome::DnsFailure => "DnsFailure",
            ProbeOutcome::NetworkUnreachable => "NetworkUnreachable",
            ProbeOutcome::Refused => "Refused",
            ProbeOutcome::Cancelled => "Cancelled",
            ProbeOutcome::InternalError => "InternalError",
            ProbeOutcome::BodyTooSmall => "BodyTooSmall",
        }
    }
}

impl ProbeErrorClass {
    /// The name of the class.
    pub open spec fn label(self) -> Seq<char> {
        match self {
            ProbeErrorClass::SocketCreateFailed => "SocketCreateFailed"@,
            ProbeErrorClass::BindFailed => "BindFailed"@,
            ProbeErrorClass::LocalAddrFailed => "LocalAddrFailed"@,
            ProbeErrorClass::QueueUnavailable => "QueueUnavailable"@,
            ProbeErrorClass::FirewallInstallFailed => "FirewallInstallFailed"@,
            ProbeErrorClass::FirewallRemoveFailed => "FirewallRemoveFailed"@,
            ProbeErrorClass::NfqwsStartFailed => "NfqwsStartFailed"@,
            ProbeErrorClass::NfqwsExitedEarly => "NfqwsExitedEarly"@,
            ProbeErrorClass::NfqwsStopFailed => "NfqwsStopFailed"@,
            ProbeErrorClass::ConnectTimeout => "ConnectTimeout"@,
            ProbeErrorClass::ConnectFailed => "ConnectFailed"@,
            ProbeErrorClass::TlsTimeout => "TlsTimeout"@,
            ProbeErrorClass::TlsFailed => "TlsFailed"@,
            ProbeErrorClass::FirstByteTimeout => "FirstByteTimeout"@,
            ProbeErrorClass::ReadTimeout => "ReadTimeout"@,
            ProbeErrorClass::ReadFailed => "ReadFailed"@,
            ProbeErrorClass::InvalidHttpResponse => "InvalidHttpResponse"@,
            ProbeErrorClass::CurlFailed => "CurlFailed"@,
            ProbeErrorClass::ProcessFailed => "ProcessFailed"@,
            ProbeErrorClass::Cancelled => "Cancelled"@,
            ProbeErrorClass::InternalError => "InternalError"@,
            ProbeErrorClass::BodyTooSmall => "BodyTooSmall"@,
        }
    }

    /// The name of the class.
    pub fn name(self) -> (r: &'static str)
        ensures
            r@ == self.label(),
    {
        match self {
            ProbeErrorClass::SocketCreateFailed => "SocketCreateFailed",
            ProbeErrorClass::BindFailed => "BindFailed",
            ProbeErrorClass::LocalAddrFailed => "LocalAddrFailed",
            ProbeErrorClass::QueueUnavailable => "QueueUnavailable",
            ProbeErrorClass::FirewallInstallFailed => "FirewallInstallFailed",
            ProbeErrorClass::FirewallRemoveFailed => "FirewallRemoveFailed",
            ProbeErrorClass::NfqwsStartFailed => "NfqwsStartFailed",
            ProbeErrorClass::NfqwsExitedEarly => "NfqwsExitedEarly",
            ProbeErrorClass::NfqwsStopFailed => "NfqwsStopFailed",
            ProbeErrorClass::ConnectTimeout => "ConnectTimeout",
            ProbeErrorClass::ConnectFailed => "ConnectFailed",
            ProbeErrorClass::TlsTimeout => "TlsTimeout",
            ProbeErrorClass::TlsFailed => "TlsFailed",
            ProbeErrorClass::FirstByteTimeout => "FirstByteTimeout",
            ProbeErrorClass::ReadTimeout => "ReadTimeout",
            ProbeErrorClass::ReadFailed => "ReadFailed",
            ProbeErrorClass::InvalidHttpResponse => "InvalidHttpResponse",
            ProbeErrorClass::CurlFailed => "CurlFailed",
            ProbeErrorClass::ProcessFailed => "ProcessFailed",
            ProbeErrorClass::Cancelled => "Cancelled",
            ProbeErrorClass::InternalError => "InternalError",
            ProbeErrorClass::BodyTooSmall => "BodyTooSmall",
        }
    }
}

/// The result of a task that nothing came of: every measure is empty.
pub open spec fn blank_result(
    task: ProbeTask,
    qnum: Option<u16>,
    source_port: Option<u16>,
    total_ms: u64,
    outcome: ProbeOutcome,
    kind: Option<FailureKind>,
    class: Option<ProbeErrorClass>,
    message: Option<String>,
) -> ProbeResult {
    ProbeResult {
        strategy_id: task.strategy_id,
        worker_id: task.worker_id,
        qnum,
        assigned_source_port: source_port,
        target_host: task.target_host,
        target_ip: task.target_ip,
        target_port: task.target_port,
        protocol: task.protocol,
        path: task.request.path_and_query,
        method: task.request.method,
        read_mode: task.request.read_mode,
        setup_ms: None,
        connect_ms: None,
        tls_ms: None,
        first_byte_ms: None,
        total_ms,
        outcome,
        http_status: None,
        bytes_read: 0,
        header_bytes: 0,
        body_bytes: 0,
        total_bytes: 0,
        transfer_level: TransferLevel::Nothing,
        dpi_suspicious: false,
        failure_kind: kind,
        error_class: class,
        error_message: message,
    }
}

/// The result of a task that nothing came of.
pub fn empty_result(
    task: &ProbeTask,
    qnum: Option<u16>,
    source_port: Option<u16>,
    total_ms: u64,
    outcome: ProbeOutcome,
    kind: Option<FailureKind>,
    class: Option<ProbeErrorClass>,
    message: Option<String>,
) -> (r: ProbeResult)
    ensures
        r == blank_result(*task, qnum, source_port, total_ms, outcome, kind, class, message),
{
    ProbeResult {
        strategy_id: task.strategy_id.clone(),
        worker_id: task.worker_id,
        qnum,
        assigned_source_port: source_port,
        target_host: task.target_host.clone(),
        target_ip: task.target_ip.clone(),
        target_port: task.target_port,
        protocol: task.protocol,
        path: task.request.path_and_query.clone(),
        method: task.request.method,
        read_mode: task.request.read_mode,
        setup_ms: None,
        connect_ms: None,
        tls_ms: None,
        first_byte_ms: None,
        total_ms,
        outcome,
        http_status: None,
        bytes_read: 0,
        header_bytes: 0,
        body_bytes: 0,
        total_bytes: 0,
        transfer_level: TransferLevel::Nothing,
        dpi_suspicious: false,
        failure_kind: kind,
        error_class: class,
        error_message: message,
    }
}

impl ProbeResult {
    /// The result of a task that failed before the strategy was put to the test.
    pub fn infrastructure_failure(
        task: &ProbeTask,
        qnum: Option<u16>,
        source_port: Option<u16>,
        cls: ProbeErrorClass,
        msg: String,
        total_ms: u64,
    ) -> (r: ProbeResult)
        ensures
            r == blank_result(
                *task,
                qnum,
                source_port,
                total_ms,
                ProbeOutcome::InternalError,
                Some(FailureKind::InfrastructureFailure),
                Some(cls),
                Some(msg),
            ),
    {
        empty_result(
            task,
            qnum,
            source_port,
            total_ms,
            ProbeOutcome::InternalError,
            Some(FailureKind::InfrastructureFailure),
            Some(cls),
            Some(msg),
        )
    }
}

impl TargetScheme {
    /// The name of the scheme.
    pub open spec fn label(self) -> Seq<char> {
        match self {
            TargetScheme::Http => "Http"@,
            TargetScheme::Https => "Https"@,
        }
    }

    /// The name of the scheme.
    pub fn name(self) -> (r: &'static str)
        ensures
            r@ == self.label(),
    {
        match self {
            TargetScheme::Http => "Http",
            TargetScheme::Https => "Https",
        }
    }
}

// ---------------------------------------------------------------------------
// Places

/// What probes are made on: a host, a port and a path.
#[derive(Debug)]
pub struct Place {
    pub host: String,
    pub port: u16,
    pub path: String,
}

/// A place by its contents.
pub struct PlaceModel {
    pub host: Seq<char>,
    pub port: u16,
    pub path: Seq<char>,
}

impl View for Place {
    type V = PlaceModel;

    open spec fn view(&self) -> PlaceModel {
        PlaceModel { host: self.host@, port: self.port, path: self.path@ }
    }
}

/// How many different places there are in a list.
pub open spec fn differing(places: Seq<PlaceModel>) -> nat {
    places.to_set().len()
}

/// A place is counted once: one more place in a list makes one more if and only if it is new.
pub proof fn differing_next(s: Seq<PlaceModel>, x: PlaceModel)
    ensures
        differing(s.push(x)) == differing(s) + if s.contains(x) {
            0nat
        } else {
            1
        },
{
    vstd::seq_lib::seq_to_set_is_finite(s);
    assert(s.push(x).to_set() =~= s.to_set().insert(x)) by {
        assert forall|y: PlaceModel| #[trigger]
            s.push(x).to_set().contains(y) == s.to_set().insert(x).contains(y) by {
            if s.contains(y) {
                let i = s.index_of(y);
                assert(s.push(x)[i] == y);
            }
            if y == x {
                assert(s.push(x)[s.len() as int] == y);
            }
            if s.push(x).contains(y) && y != x {
                let i = s.push(x).index_of(y);
                assert(s[i] == y);
            }
        }
    }
}

fn place_among(places: &Vec<Place>, n: usize, place: &Place) -> (r: bool)
    requires
        n <= places@.len(),
    ensures
        r == views(places@).take(n as int).contains(place@),
{
    let mut i: usize = 0;
    while i < n
        invariant
            i <= n <= places@.len(),
            forall|j: int| 0 <= j < i ==> (#[trigger] places@[j])@ != place@,
        decreases n - i,
    {
        let other = &places[i];
        if str_eq(other.host.as_str(), place.host.as_str()) && other.port == place.port && str_eq(
            other.path.as_str(),
            place.path.as_str(),
        ) {
            assert(views(places@).take(n as int)[i as int] == place@);
            return true;
        }
        i = i + 1;
    }
    assert(!views(places@).take(n as int).contains(place@)) by {
        if views(places@).take(n as int).contains(place@) {
            let k = views(places@).take(n as int).index_of(place@);
            assert(places@[k]@ == place@);
        }
    }
    false
}

/// How many different places there are in a list.
pub fn count_places(places: &Vec<Place>) -> (r: usize)
    ensures
        r == differing(views(places@)),
{
    let ghost all = views(places@);
    let mut count: usize = 0;
    let mut i: usize = 0;
    proof {
        assert(all.take(0).to_set() =~= Set::empty());
    }
    while i < places.len()
        invariant
            i <= places@.len(),
            count <= i,
            all == views(places@),
            count == differing(all.take(i as int)),
        decreases places@.len() - i,
    {
        proof {
            take_next(all, i as int);
            differing_next(all.take(i as int), all[i as int]);
            assert(all.take(i + 1) =~= all.take(i as int).push(all[i as int]));
        }
        if !place_among(places, i, &places[i]) {
            count = count + 1;
        }
        i = i + 1;
    }
    proof {
        take_all(all);
    }
    count
}

} // verus!
