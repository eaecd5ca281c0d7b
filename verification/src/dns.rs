use vstd::prelude::*;
use crate::config::DnsConfig;
use crate::fault::{done, plain, seen, unless, Fault};
use crate::number::{dec, decimal};
use crate::text::{
    cat2, cat3, cat4, cat5, chars_of, contains_char, cut_first, cut_last, join, joined, opt_text,
    rsplit_once, split_once, str_eq, string_of, strings, strip_end, stripped_end, texts, texts_push,
    trim, trimmed,
};
use crate::types::{all_digits, digits_only, HostIp};

verus! {

/// The host name in a text that may hold a port: without white space around it, without
/// dots at its end, without brackets and without the port.
pub open spec fn dns_host(input: Seq<char>) -> Result<Seq<char>, Seq<char>> {
    let host = stripped_end(trimmed(input), '.');
    if host.len() == 0 {
        Err("host must not be empty"@)
    } else if host[0] == '[' {
        match cut_first(host.skip(1), ']') {
            None => Err("invalid bracketed IPv6 host"@),
            Some((name, tail)) => if tail.len() > 0 && tail[0] != ':' {
                Err("invalid bracketed IPv6 host"@)
            } else {
                Ok(name)
            },
        }
    } else {
        match cut_last(host, ':') {
            Some((name, port)) => if !name.contains(':') && port.len() > 0 && all_digits(port) {
                Ok(name)
            } else {
                Ok(host)
            },
            None => Ok(host),
        }
    }
}

/// The host name in a text that may hold a port.
pub fn normalize_dns_host(host: &str) -> (r: Result<String, Fault>)
    ensures
        seen(r) == dns_host(host@),
{
    let host = strip_end(trim(host).as_str(), '.');
    let cs = chars_of(host.as_str());
    if cs.len() == 0 {
        return Err(Fault::new("host must not be empty"));
    }
    if cs[0] == '[' {
        let inner = string_of(&cs, 1, cs.len());
        assert(inner@ =~= host@.skip(1));
        return match split_once(inner.as_str(), ']') {
            None => Err(Fault::new("invalid bracketed IPv6 host")),
            Some((name, tail)) => {
                let ts = chars_of(tail.as_str());
                if ts.len() > 0 && ts[0] != ':' {
                    Err(Fault::new("invalid bracketed IPv6 host"))
                } else {
                    Ok(name)
                }
            },
        };
    }
    if let Some((name, port)) = rsplit_once(host.as_str(), ':') {
        if !contains_char(name.as_str(), ':') && !port.as_str().is_empty() && digits_only(
            port.as_str(),
        ) {
            return Ok(name);
        }
    }
    Ok(host)
}

/// The kinds of addresses that are asked for, in this order.
#[derive(Debug, Clone, Copy, PartialEq, Eq, Structural)]
pub enum RecordType {
    A,
    Aaaa,
}

impl RecordType {
    /// The kind as a query writes it.
    pub open spec fn word(self) -> Seq<char> {
        match self {
            RecordType::A => "A"@,
            RecordType::Aaaa => "AAAA"@,
        }
    }

    /// The kind as an answer numbers it.
    pub open spec fn number(self) -> u16 {
        match self {
            RecordType::A => 1,
            RecordType::Aaaa => 28,
        }
    }

    /// The kind as a query writes it.
    pub fn as_str(self) -> (r: &'static str)
        ensures
            r@ == self.word(),
    {
        match self {
            RecordType::A => "A",
            RecordType::Aaaa => "AAAA",
        }
    }

    /// The kind as an answer numbers it.
    pub fn code(self) -> (r: u16)
        ensures
            r == self.number(),
    {
        match self {
            RecordType::A => 1,
            RecordType::Aaaa => 28,
        }
    }
}

/// The URL that asks a server for the addresses of a host.
pub open spec fn query_text(
    doh_host: Seq<char>,
    doh_path: Seq<char>,
    host: Seq<char>,
    record: RecordType,
) -> Seq<char> {
    "https://"@ + doh_host + doh_path + "?name="@ + host + "&type="@ + record.word()
}

/// The URL of a query.
pub fn query_url(doh_host: &str, doh_path: &str, host: &str, record: RecordType) -> (r: String)
    ensures
        r@ == query_text(doh_host@, doh_path@, host@, record),
{
    let mut url = cat5("https://", doh_host, doh_path, "?name=", host);
    url.append("&type=");
    url.append(record.as_str());
    url
}

/// One line of an answer: its kind, and the address that it names if it names one.
#[derive(Debug)]
pub struct DnsAnswer {
    pub record_type: u16,
    pub address: Option<HostIp>,
}

/// The first address of the kind among the answers.
pub open spec fn first_address(answers: Seq<DnsAnswer>, number: u16) -> Option<HostIp>
    decreases answers.len(),
{
    if answers.len() == 0 {
        None
    } else if answers[0].record_type == number && answers[0].address is Some {
        answers[0].address
    } else {
        first_address(answers.drop_first(), number)
    }
}

/// What an answer gives: a failed lookup fails, any other gives the first address of the
/// kind.
pub open spec fn answer_given(status: u16, answers: Seq<DnsAnswer>, record: RecordType) -> Result<
    Option<HostIp>,
    Seq<char>,
> {
    if status != 0 {
        Err("DNS status "@ + dec(status as nat))
    } else {
        Ok(first_address(answers, record.number()))
    }
}

/// What an answer gives.
pub fn pick_answer(status: u16, answers: &Vec<DnsAnswer>, record: RecordType) -> (r: Result<
    Option<HostIp>,
    Fault,
>)
    ensures
        plain(r) == answer_given(status, answers@, record),
{
    if status != 0 {
        return Err(Fault { text: cat2("DNS status ", decimal(status as u64).as_str()) });
    }
    let number: u16 = record.code();
    let mut i: usize = 0;
    assert(answers@.skip(0) =~= answers@);
    while i < answers.len()
        invariant
            i <= answers@.len(),
            status == 0,
            number == record.number(),
            first_address(answers@.skip(i as int), number) == first_address(answers@, number),
        decreases answers@.len() - i,
    {
        assert(answers@.skip(i as int).drop_first() =~= answers@.skip(i + 1));
        assert(answers@.skip(i as int)[0] == answers@[i as int]);
        if answers[i].record_type == number {
            if let Some(ip) = &answers[i].address {
                return Ok(Some(ip.clone()));
            }
        }
        i = i + 1;
    }
    Ok(None)
}

/// What is noted of a server that had no address, for the reason given if there was one.
pub open spec fn server_note(addr: Seq<char>, error: Option<Seq<char>>) -> Seq<char> {
    match error {
        None => addr + ": no A/AAAA answer"@,
        Some(e) => addr + ": "@ + e,
    }
}

/// What is noted of a server that had no address.
pub fn note_server(addr: &str, error: Option<String>) -> (r: String)
    ensures
        r@ == server_note(addr@, opt_text(error)),
{
    match error {
        None => cat2(addr, ": no A/AAAA answer"),
        Some(e) => cat3(addr, ": ", e.as_str()),
    }
}

/// A lookup: the servers to ask, what was noted of those that were asked in vain, and the
/// kind of address that is asked for next.
#[derive(Debug)]
pub struct Lookup {
    pub host: String,
    pub servers: Vec<String>,
    pub notes: Vec<String>,
    pub record: RecordType,
}

/// A lookup by its contents.
pub struct LookupModel {
    pub host: Seq<char>,
    pub servers: Seq<Seq<char>>,
    pub notes: Seq<Seq<char>>,
    pub record: RecordType,
}

impl View for Lookup {
    type V = LookupModel;

    open spec fn view(&self) -> LookupModel {
        LookupModel {
            host: self.host@,
            servers: texts(self.servers@),
            notes: texts(self.notes@),
            record: self.record,
        }
    }
}

impl LookupModel {
    /// There is a server left to ask: each server that was asked in vain has one note.
    pub open spec fn open_ended(self) -> bool {
        self.notes.len() < self.servers.len()
    }

    /// The server to ask.
    pub open spec fn server(self) -> Seq<char> {
        self.servers[self.notes.len() as int]
    }

    /// How many questions are left.
    pub open spec fn questions(self) -> int {
        2 * (self.servers.len() - self.notes.len()) - if self.record == RecordType::Aaaa {
            1int
        } else {
            0
        }
    }

    /// Goes on behind a server that was asked in vain.
    pub open spec fn past(self, error: Option<Seq<char>>) -> StepModel {
        let notes = self.notes.push(server_note(self.server(), error));
        if notes.len() < self.servers.len() {
            StepModel::Ask(LookupModel { notes, record: RecordType::A, ..self })
        } else {
            StepModel::Failed(failure_text(self.host, self.servers, notes))
        }
    }

    /// What follows on the answer of the server.
    pub open spec fn after(self, answer: Result<Option<HostIp>, Seq<char>>) -> StepModel {
        match answer {
            Ok(Some(ip)) => StepModel::Found(ip),
            Ok(None) => if self.record == RecordType::A {
                StepModel::Ask(LookupModel { record: RecordType::Aaaa, ..self })
            } else {
                self.past(None)
            },
            Err(e) => self.past(Some(e)),
        }
    }
}

/// What is to be done next for a lookup.
#[derive(Debug)]
pub enum LookupStep {
    /// Ask the next server.
    Ask(Lookup),
    /// Nothing: this is the address.
    Found(HostIp),
    /// Nothing: no server had an address.
    Failed(Fault),
}

/// What is to be done next, by its contents.
pub enum StepModel {
    Ask(LookupModel),
    Found(HostIp),
    Failed(Seq<char>),
}

impl View for LookupStep {
    type V = StepModel;

    open spec fn view(&self) -> StepModel {
        match *self {
            LookupStep::Ask(l) => StepModel::Ask(l@),
            LookupStep::Found(ip) => StepModel::Found(ip),
            LookupStep::Failed(f) => StepModel::Failed(f@),
        }
    }
}

/// What came back from a server.
#[derive(Debug)]
pub enum LookupEvent {
    /// Its answer.
    Answer(u16, Vec<DnsAnswer>),
    /// No answer, for this reason.
    Error(String),
}

/// What a server gave for the kind of address that it was asked for.
pub open spec fn event_given(event: LookupEvent, record: RecordType) -> Result<
    Option<HostIp>,
    Seq<char>,
> {
    match event {
        LookupEvent::Answer(status, answers) => answer_given(status, answers@, record),
        LookupEvent::Error(e) => Err(e@),
    }
}

/// The first step of a lookup: an address is its own answer, and any other host is asked for at
/// the first server.
pub open spec fn first_step(
    servers: Seq<Seq<char>>,
    host: Seq<char>,
    literal: Option<HostIp>,
) -> StepModel {
    match literal {
        Some(ip) => StepModel::Found(ip),
        None => StepModel::Ask(
            LookupModel { host, servers, notes: Seq::empty(), record: RecordType::A },
        ),
    }
}

/// Begins a lookup: an address is its own answer, and any other host is asked for at the
/// first server.
pub fn begin_lookup(dns: &DnsConfig, host: &str, literal: Option<HostIp>) -> (r: LookupStep)
    ensures
        r@ == first_step(dns.server_addrs(), host@, literal),
        literal is None ==> (r matches LookupStep::Ask(l) && l@.open_ended()),
{
    if let Some(ip) = literal {
        return LookupStep::Found(ip);
    }
    let addrs = dns.effective_doh_addrs();
    let servers = strings(addrs.as_slice());
    let notes: Vec<String> = Vec::new();
    proof {
        assert(texts(notes@) =~= Seq::empty());
        assert(texts(servers@) =~= dns.server_addrs());
        assert(texts(dns.doh_addrs@).len() == dns.doh_addrs@.len());
    }
    LookupStep::Ask(Lookup { host: host.to_owned(), servers, notes, record: RecordType::A })
}

/// Goes on with a lookup by what came back from the server that was asked.
pub fn next_lookup(lookup: Lookup, event: LookupEvent) -> (r: LookupStep)
    requires
        lookup@.open_ended(),
    ensures
        r@ == lookup@.after(event_given(event, lookup.record)),
{
    let given = match event {
        LookupEvent::Answer(status, answers) => pick_answer(status, &answers, lookup.record),
        LookupEvent::Error(e) => Err(Fault { text: e }),
    };
    let Lookup { host, servers, notes, record } = lookup;
    let ghost at = lookup@;
    let mut notes = notes;
    let error = match given {
        Ok(Some(ip)) => {
            return LookupStep::Found(ip);
        },
        Ok(None) => {
            if let RecordType::A = record {
                return LookupStep::Ask(
                    Lookup { host, servers, notes, record: RecordType::Aaaa },
                );
            }
            None
        },
        Err(e) => Some(e.text),
    };
    assert(texts(notes@).len() == notes@.len() && texts(servers@).len() == servers@.len());
    assert(servers@[notes@.len() as int]@ == at.server());
    let note = note_server(servers[notes.len()].as_str(), error);
    proof {
        texts_push(notes@, note);
    }
    notes.push(note);
    if notes.len() < servers.len() {
        LookupStep::Ask(Lookup { host, servers, notes, record: RecordType::A })
    } else {
        LookupStep::Failed(lookup_failure(host.as_str(), &servers, &notes))
    }
}

/// A lookup comes to an end: after every answer that does not end it, fewer questions are
/// left, and a server to ask.
pub proof fn lookups_end(l: LookupModel, answer: Result<Option<HostIp>, Seq<char>>)
    requires
        l.open_ended(),
    ensures
        l.questions() > 0,
        l.after(answer) matches StepModel::Ask(next) ==> next.open_ended() && 0
            < next.questions() < l.questions(),
{
}

/// A lookup asks its servers in turn: no server is passed over, and none that failed is
/// asked again.
pub proof fn servers_in_turn(l: LookupModel, answer: Result<Option<HostIp>, Seq<char>>)
    requires
        l.open_ended(),
    ensures
        l.after(answer) matches StepModel::Ask(next) ==> next.servers == l.servers && next.host
            == l.host && (next.notes == l.notes || next.notes.drop_last() == l.notes),
{
    if let StepModel::Ask(next) = l.after(answer) {
        if next.notes != l.notes {
            assert(next.notes.drop_last() =~= l.notes);
        }
    }
}

/// What is said where no server had an address.
pub open spec fn failure_text(
    host: Seq<char>,
    servers: Seq<Seq<char>>,
    notes: Seq<Seq<char>>,
) -> Seq<char> {
    "DoH lookup for "@ + host + " via "@ + joined(servers, ", "@) + " failed: "@ + joined(
        notes,
        "; "@,
    )
}

/// The failure of a lookup where no server had an address.
pub fn lookup_failure(host: &str, addrs: &Vec<String>, notes: &Vec<String>) -> (r: Fault)
    ensures
        r@ == failure_text(host@, texts(addrs@), texts(notes@)),
{
    let mut text = cat4("DoH lookup for ", host, " via ", join(addrs, ", ").as_str());
    text.append(" failed: ");
    text.append(join(notes, "; ").as_str());
    Fault { text }
}

/// Checks that addresses are looked up over HTTPS.
pub fn check_dns_mode(dns: &DnsConfig) -> (r: Result<(), Fault>)
    ensures
        done(r) == unless(mode_fault(dns.mode@)),
{
    if str_eq(dns.mode.as_str(), "doh") {
        Ok(())
    } else {
        Err(Fault { text: cat2("unsupported DNS mode: ", dns.mode.as_str()) })
    }
}

/// What is wrong with a mode in which addresses are not looked up over HTTPS.
pub open spec fn mode_fault(mode: Seq<char>) -> Option<Seq<char>> {
    if mode == "doh"@ {
        None
    } else {
        Some("unsupported DNS mode: "@ + mode)
    }
}

} // verus!
