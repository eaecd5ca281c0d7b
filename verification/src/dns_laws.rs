use vstd::prelude::*;
use crate::dns::{
    answer_given, dns_host, failure_text, first_address, first_step, mode_fault, query_text,
    DnsAnswer, LookupModel, RecordType, StepModel,
};
use crate::number::{dec, decimals_are_digits};
use crate::text::{has_text, joined, last_at_unique, occurs_at};
use crate::text_laws::{
    cut_at_first, is_blank, is_tight, part_of_joined, stripping_takes_the_end, text_within_text,
    trimming_takes_blanks,
};
use crate::types::HostIp;

verus! {

// ---------------------------------------------------------------------------
// Hosts

/// A host name is found in a text with white space around it and with dots behind it, and with
/// a port behind a colon; none of that is part of the name.
pub proof fn host_names_are_bare(
    before: Seq<char>,
    name: Seq<char>,
    port: u16,
    dots: Seq<char>,
    behind: Seq<char>,
)
    requires
        is_blank(before),
        is_blank(behind),
        is_tight(name),
        name[0] != '[',
        name.last() != '.',
        !name.contains(':'),
        forall|i: int| 0 <= i < dots.len() ==> #[trigger] dots[i] == '.',
    ensures
        dns_host(before + (name + dots) + behind) == Ok::<Seq<char>, Seq<char>>(name),
        dns_host(before + (name + seq![':'] + dec(port as nat)) + behind) == Ok::<
            Seq<char>,
            Seq<char>,
        >(name),
{
    let dotted = name + dots;
    assert(dotted[0] == name[0]);
    if dots.len() > 0 {
        assert(dotted.last() == dots[dots.len() - 1]);
    } else {
        assert(dotted =~= name);
    }
    trimming_takes_blanks(before, dotted, behind);
    stripping_takes_the_end(name, '.', dots);
    let digits = dec(port as nat);
    let full = name + seq![':'] + digits;
    decimals_are_digits(port as nat);
    assert(full[0] == name[0]);
    assert(full.last() == digits[digits.len() - 1]);
    trimming_takes_blanks(before, full, behind);
    let none = Seq::<char>::empty();
    stripping_takes_the_end(full, '.', none);
    assert(full + none =~= full);
    let at = name.len() as int;
    assert forall|j: int| at < j < full.len() implies full[j] != ':' by {
        assert(full[j] == digits[j - at - 1]);
    }
    last_at_unique(full, ':', at);
    assert(full.take(at) =~= name);
    assert(full.skip(at + 1) =~= digits);
}

/// A host in brackets is what stands in them, with a port behind them or without.
pub proof fn bracketed_hosts_are_bare(name: Seq<char>, port: u16)
    requires
        !name.contains(']'),
    ensures
        dns_host(seq!['['] + name + seq![']']) == Ok::<Seq<char>, Seq<char>>(name),
        dns_host(seq!['['] + name + seq![']'] + seq![':'] + dec(port as nat)) == Ok::<
            Seq<char>,
            Seq<char>,
        >(name),
{
    let none = Seq::<char>::empty();
    let digits = dec(port as nat);
    let bare = seq!['['] + name + seq![']'];
    let full = seq!['['] + name + seq![']'] + seq![':'] + digits;
    decimals_are_digits(port as nat);
    assert(bare.last() == ']');
    assert(full.last() == digits[digits.len() - 1]);
    trimming_takes_blanks(none, bare, none);
    trimming_takes_blanks(none, full, none);
    assert(none + bare + none =~= bare);
    assert(none + full + none =~= full);
    stripping_takes_the_end(bare, '.', none);
    stripping_takes_the_end(full, '.', none);
    assert(bare + none =~= bare);
    assert(full + none =~= full);
    cut_at_first(name, ']', none);
    assert(bare.skip(1) =~= name + seq![']'] + none);
    cut_at_first(name, ']', seq![':'] + digits);
    assert(full.skip(1) =~= name + seq![']'] + (seq![':'] + digits));
}

// ---------------------------------------------------------------------------
// Answers

/// The two kinds of records are written and numbered as they are everywhere.
pub proof fn records_have_their_numbers(record: RecordType)
    ensures
        record == RecordType::A ==> record.word() == "A"@ && record.number() == 1,
        record == RecordType::Aaaa ==> record.word() == "AAAA"@ && record.number() == 28,
{
}

/// The number of the kind that was asked for.
pub open spec fn asked_number(record: RecordType) -> u16 {
    match record {
        RecordType::A => 1,
        RecordType::Aaaa => 28,
    }
}

/// The answer at `i` is an address of the kind.
pub open spec fn is_address(answers: Seq<DnsAnswer>, number: u16, i: int) -> bool {
    0 <= i < answers.len() && answers[i].record_type == number && answers[i].address is Some
}

/// Of the answers the first address of the kind that was asked for counts, whatever stands
/// before it and behind it; addresses of the other kind never do, and a failed lookup gives
/// none at all.
pub proof fn first_address_counts(
    status: u16,
    answers: Seq<DnsAnswer>,
    record: RecordType,
    i: int,
)
    ensures
        ({
            let number = asked_number(record);
            let given = answer_given(status, answers, record);
            &&& given is Err <==> status != 0
            &&& status == 0 && is_address(answers, number, i) && (forall|j: int|
                0 <= j < i ==> !#[trigger] is_address(answers, number, j)) ==> given == Ok::<
                Option<HostIp>,
                Seq<char>,
            >(answers[i].address)
            &&& status == 0 && (forall|j: int|
                0 <= j < answers.len() ==> !#[trigger] is_address(answers, number, j)) ==> given
                == Ok::<Option<HostIp>, Seq<char>>(None)
        }),
{
    first_is_given(answers, asked_number(record), i);
}

proof fn first_is_given(answers: Seq<DnsAnswer>, number: u16, i: int)
    ensures
        is_address(answers, number, i) && (forall|j: int|
            0 <= j < i ==> !#[trigger] is_address(answers, number, j)) ==> first_address(
            answers,
            number,
        ) == answers[i].address,
        (forall|j: int| 0 <= j < answers.len() ==> !#[trigger] is_address(answers, number, j))
            ==> first_address(answers, number) is None,
    decreases answers.len(),
{
    if answers.len() > 0 {
        let rest = answers.drop_first();
        first_is_given(rest, number, i - 1);
        assert(forall|j: int|
            #![trigger rest[j]]
            0 <= j < rest.len() ==> rest[j] == answers[j + 1]);
        if answers[0].record_type == number && answers[0].address is Some {
            assert(is_address(answers, number, 0));
        } else {
            if is_address(answers, number, i) && (forall|j: int|
                0 <= j < i ==> !#[trigger] is_address(answers, number, j)) {
                assert(rest[i - 1] == answers[i]);
                assert forall|j: int| 0 <= j < i - 1 implies !#[trigger] is_address(
                    rest,
                    number,
                    j,
                ) by {
                    assert(!is_address(answers, number, j + 1));
                }
                assert(is_address(rest, number, i - 1));
            }
            if forall|j: int| 0 <= j < answers.len()
                ==> !#[trigger] is_address(answers, number, j) {
                assert forall|j: int| 0 <= j < rest.len() implies !#[trigger] is_address(
                    rest,
                    number,
                    j,
                ) by {
                    assert(!is_address(answers, number, j + 1));
                }
            }
        }
    }
}

// ---------------------------------------------------------------------------
// Lookups

/// A lookup ends with the first address that a server gives. A server without one is asked for
/// the other kind of address. Only then, or where it failed, is it noted, with the reason, and
/// the next server asked from the start. With the last server the lookup fails.
pub proof fn lookups_go_on(l: LookupModel, answer: Result<Option<HostIp>, Seq<char>>)
    requires
        l.open_ended(),
    ensures
        ({
            let next = l.after(answer);
            let addr = l.servers[l.notes.len() as int];
            let in_vain = answer is Err || answer == Ok::<Option<HostIp>, Seq<char>>(None)
                && l.record == RecordType::Aaaa;
            let note = match answer {
                Err(e) => addr + ": "@ + e,
                Ok(_) => addr + ": no A/AAAA answer"@,
            };
            &&& next is Found <==> answer is Ok && answer->Ok_0 is Some
            &&& answer is Ok && answer->Ok_0 is Some ==> next == StepModel::Found(answer->Ok_0->0)
            &&& answer == Ok::<Option<HostIp>, Seq<char>>(None) && l.record == RecordType::A
                ==> next is Ask && next->Ask_0.record == RecordType::Aaaa && next->Ask_0.notes
                == l.notes
            &&& next is Failed <==> in_vain && l.notes.len() + 1 == l.servers.len()
            &&& in_vain && next is Ask ==> next->Ask_0.record == RecordType::A
                && next->Ask_0.notes == l.notes.push(note)
            &&& next matches StepModel::Failed(text) ==> text == failure_text(
                l.host,
                l.servers,
                l.notes.push(note),
            )
        }),
{
}

/// The failure of a lookup tells the host, every server that was asked and every note.
pub proof fn failures_tell_everything(
    host: Seq<char>,
    servers: Seq<Seq<char>>,
    notes: Seq<Seq<char>>,
    i: int,
    j: int,
)
    ensures
        has_text(failure_text(host, servers, notes), "DoH lookup for "@ + host + " via "@),
        0 <= i < servers.len() ==> has_text(failure_text(host, servers, notes), servers[i]),
        0 <= j < notes.len() ==> has_text(failure_text(host, servers, notes), notes[j]),
{
    let head = "DoH lookup for "@ + host + " via "@;
    let asked = joined(servers, ", "@);
    let noted = joined(notes, "; "@);
    let text = failure_text(host, servers, notes);
    assert(text.subrange(0, head.len() as int) =~= head);
    assert(occurs_at(text, head, 0));
    assert(text.subrange(head.len() as int, head.len() as int + asked.len()) =~= asked);
    assert(occurs_at(text, asked, head.len() as int));
    assert(text.subrange(text.len() - noted.len(), text.len() as int) =~= noted);
    assert(occurs_at(text, noted, text.len() - noted.len()));
    if 0 <= i < servers.len() {
        part_of_joined(servers, ", "@, i);
        text_within_text(text, asked, servers[i]);
    }
    if 0 <= j < notes.len() {
        part_of_joined(notes, "; "@, j);
        text_within_text(text, noted, notes[j]);
    }
}

/// Addresses are looked up over HTTPS and in no other way.
pub proof fn only_https_is_a_mode(mode: Seq<char>)
    ensures
        mode_fault(mode) is None <==> mode == "doh"@,
{
}

/// A server is asked over HTTPS, at its own host and path, for the name and the kind; questions
/// for the two kinds differ only in the kind, which stands last.
pub proof fn questions_tell_name_and_kind(
    doh_host: Seq<char>,
    doh_path: Seq<char>,
    host: Seq<char>,
)
    ensures
        query_text(doh_host, doh_path, host, RecordType::A) == "https://"@ + doh_host + doh_path
            + "?name="@ + host + "&type=A"@,
        query_text(doh_host, doh_path, host, RecordType::Aaaa) == "https://"@ + doh_host + doh_path
            + "?name="@ + host + "&type=AAAA"@,
{
    reveal_strlit("&type=");
    reveal_strlit("A");
    reveal_strlit("AAAA");
    reveal_strlit("&type=A");
    reveal_strlit("&type=AAAA");
    let front = "https://"@ + doh_host + doh_path + "?name="@ + host;
    assert("&type="@ + "A"@ =~= "&type=A"@);
    assert("&type="@ + "AAAA"@ =~= "&type=AAAA"@);
    assert(front + "&type="@ + "A"@ =~= front + ("&type="@ + "A"@));
    assert(front + "&type="@ + "AAAA"@ =~= front + ("&type="@ + "AAAA"@));
}

/// An address needs no lookup; for any other host the first server is asked first, for the
/// first kind of address, with nothing noted yet.
pub proof fn lookups_begin_at_the_first_server(
    servers: Seq<Seq<char>>,
    host: Seq<char>,
    literal: Option<HostIp>,
)
    ensures
        literal matches Some(ip) ==> first_step(servers, host, literal) == StepModel::Found(ip),
        literal is None ==> {
            let step = first_step(servers, host, literal);
            &&& step is Ask
            &&& step->Ask_0.host == host && step->Ask_0.servers == servers
            &&& step->Ask_0.notes.len() == 0 && step->Ask_0.record == RecordType::A
            &&& servers.len() > 0 ==> step->Ask_0.server() == servers[0]
        },
{
}

} // verus!
