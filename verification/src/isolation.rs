use vstd::prelude::*;
use crate::config::IsolationConfig;
use crate::fault::{done, plain, quote, quoted, Fault};
use crate::number::{
    digits_text, last_digit, number_fits, number_of, pad_left, padded_left, padded_read_back,
    parse_number, render,
};
use crate::text::{
    begins, cat2, cat4, occurs_at, str_eq, strip_prefix, take_all, take_next, texts, trim, trimmed,
};
use crate::worker::WorkerAssignment;

verus! {

/// How the packets of one worker are told from those of the others.
#[derive(Debug, Clone, Copy, PartialEq, Eq, Structural)]
pub enum IsolationMode {
    SourcePort,
    Fwmark,
}

impl IsolationMode {
    /// The mode as a configuration writes it.
    pub open spec fn name(self) -> Seq<char> {
        match self {
            IsolationMode::SourcePort => "source_port"@,
            IsolationMode::Fwmark => "fwmark"@,
        }
    }

    /// The mode that a configuration writes.
    pub open spec fn configured(value: Seq<char>) -> Result<IsolationMode, Seq<char>> {
        if value == "source_port"@ {
            Ok(IsolationMode::SourcePort)
        } else if value == "fwmark"@ {
            Ok(IsolationMode::Fwmark)
        } else {
            Err("isolation.mode must be source_port or fwmark, got "@ + quoted(value))
        }
    }

    /// Reads the mode that a configuration writes.
    pub fn parse(value: &str) -> (r: Result<IsolationMode, Fault>)
        ensures
            plain(r) == IsolationMode::configured(value@),
    {
        if str_eq(value, "source_port") {
            Ok(IsolationMode::SourcePort)
        } else if str_eq(value, "fwmark") {
            Ok(IsolationMode::Fwmark)
        } else {
            Err(
                Fault {
                    text: cat2(
                        "isolation.mode must be source_port or fwmark, got ",
                        quote(value).as_str(),
                    ),
                },
            )
        }
    }

    /// The mode as a configuration writes it.
    pub fn as_str(self) -> (r: &'static str)
        ensures
            r@ == self.name(),
    {
        match self {
            IsolationMode::SourcePort => "source_port",
            IsolationMode::Fwmark => "fwmark",
        }
    }
}

/// The hexadecimal digits of a mark: what is left without white space at the ends and
/// without the prefix.
pub open spec fn mark_digits(value: Seq<char>) -> Seq<char> {
    let t = trimmed(value);
    if begins(t, "0x"@) {
        t.skip("0x"@.len() as int)
    } else if begins(t, "0X"@) {
        t.skip("0X"@.len() as int)
    } else {
        t
    }
}

/// The mark that a text writes in hexadecimal digits, with or without the prefix `0x`.
pub open spec fn mark_value(value: Seq<char>) -> Result<u32, Seq<char>> {
    match number_of(mark_digits(value), 16, u32::MAX as nat) {
        Ok(n) => Ok(n as u32),
        Err(e) => Err("invalid mark "@ + quoted(value) + ": "@ + e.words()),
    }
}

/// Reads a mark.
pub fn parse_hex_mark(value: &str) -> (r: Result<u32, Fault>)
    ensures
        plain(r) == mark_value(value@),
{
    let t = trim(value);
    let digits = match strip_prefix(t.as_str(), "0x") {
        Some(rest) => rest,
        None => match strip_prefix(t.as_str(), "0X") {
            Some(rest) => rest,
            None => t,
        },
    };
    match parse_number(digits.as_str(), 16, u32::MAX as u64) {
        Ok(n) => {
            proof {
                number_fits(digits@, 16, u32::MAX as nat);
            }
            Ok(n as u32)
        },
        Err(e) => Err(
            Fault {
                text: cat4(
                    "invalid mark ",
                    quote(value).as_str(),
                    ": ",
                    e.message().as_str(),
                ),
            },
        ),
    }
}

/// A mark as the prefix `0x` and eight hexadecimal digits.
pub open spec fn mark_text(value: u32) -> Seq<char> {
    "0x"@ + padded_left(digits_text(value as nat, 16), 8, '0')
}

/// Writes a mark as the prefix `0x` and eight hexadecimal digits.
pub fn format_hex_mark(value: u32) -> (r: String)
    ensures
        r@ == mark_text(value),
{
    cat2("0x", pad_left(render(value as u128, 16).as_str(), 8, '0').as_str())
}

/// A mark that was written reads back as the same mark.
pub proof fn marks_read_back(value: u32)
    ensures
        mark_value(mark_text(value)) == Ok::<u32, Seq<char>>(value),
{
    let digits = padded_left(digits_text(value as nat, 16), 8, '0');
    let t = mark_text(value);
    last_digit(value as nat, 16);
    padded_read_back(value as nat, 16, u32::MAX as nat, 8);
    reveal_strlit("0x");
    assert(t[0] == '0');
    assert(digits.last() == digits_text(value as nat, 16).last());
    assert(t.last() == digits.last());
    assert(trimmed(t) == t);
    assert(occurs_at(t, "0x"@, 0)) by {
        assert(t.subrange(0, 2) =~= "0x"@);
    }
    assert(t.skip(2) =~= digits);
}

/// The mark of the worker with the given number, counted from the one behind the base. Marks
/// end at the largest one.
pub open spec fn fwmark_of(mark_base: u32, worker_id: usize) -> u32 {
    let sum = mark_base + (worker_id as int) % 0x1_0000_0000 + 1;
    if sum > u32::MAX {
        u32::MAX
    } else {
        sum as u32
    }
}

/// The mark of a worker.
pub fn worker_fwmark(mark_base: u32, worker_id: usize) -> (r: u32)
    requires
        (worker_id as int) % 0x1_0000_0000 < u32::MAX,
    ensures
        r == fwmark_of(mark_base, worker_id),
{
    let low: u32 = ((worker_id as u64) % 0x1_0000_0000) as u32;
    mark_base.saturating_add(low + 1)
}

/// The queue, and where the mode is by mark the mark, of the worker with the given number.
pub open spec fn assignment_of(isolation: IsolationConfig, worker_id: usize) -> WorkerAssignment {
    WorkerAssignment {
        worker_id,
        qnum: (isolation.queue_base + worker_id) as u16,
        fwmark: if IsolationMode::configured(isolation.mode@) == Ok::<IsolationMode, Seq<char>>(
            IsolationMode::Fwmark,
        ) {
            match mark_value(isolation.mark_base@) {
                Ok(base) => Some(fwmark_of(base, worker_id)),
                Err(_) => None,
            }
        } else {
            None
        },
        source_port: None,
    }
}

/// The queues and the marks of the workers, in their order.
pub open spec fn assignments_of(isolation: IsolationConfig, count: usize) -> Seq<WorkerAssignment> {
    Seq::new(count as nat, |i: int| assignment_of(isolation, i as usize))
}

/// Gives every worker its queue, and its mark where packets are told apart by marks.
pub fn generate_assignments(workers_count: usize, isolation: &IsolationConfig) -> (r: Vec<
    WorkerAssignment,
>)
    requires
        IsolationMode::configured(isolation.mode@) is Ok,
        mark_value(isolation.mark_base@) is Ok,
        workers_count > 0 ==> isolation.queue_base + workers_count - 1 <= u16::MAX,
    ensures
        r@ == assignments_of(*isolation, workers_count),
{
    let mut out: Vec<WorkerAssignment> = Vec::new();
    let (by_mark, mark_base) = match (
        IsolationMode::parse(isolation.mode.as_str()),
        parse_hex_mark(isolation.mark_base.as_str()),
    ) {
        (Ok(mode), Ok(base)) => (mode == IsolationMode::Fwmark, base),
        _ => {
            assert(false);
            return out;
        },
    };
    let mut i: usize = 0;
    while i < workers_count
        invariant
            i <= workers_count,
            workers_count > 0 ==> isolation.queue_base + workers_count - 1 <= u16::MAX,
            mark_value(isolation.mark_base@) == Ok::<u32, Seq<char>>(mark_base),
            by_mark == (IsolationMode::configured(isolation.mode@) == Ok::<
                IsolationMode,
                Seq<char>,
            >(IsolationMode::Fwmark)),
            out@ =~= Seq::new(i as nat, |i: int| assignment_of(*isolation, i as usize)),
        decreases workers_count - i,
    {
        out.push(
            WorkerAssignment {
                worker_id: i,
                qnum: isolation.queue_base + i as u16,
                fwmark: if by_mark {
                    Some(worker_fwmark(mark_base, i))
                } else {
                    None
                },
                source_port: None,
            },
        );
        i = i + 1;
    }
    out
}

/// What is wrong with one argument: a mark that cannot be read, or that is not `expected`.
pub open spec fn mark_argument_fault(
    arg: Seq<char>,
    expected: u32,
    desync_mark: Seq<char>,
) -> Option<Seq<char>> {
    if begins(arg, "--fwmark="@) {
        let value = arg.skip("--fwmark="@.len() as int);
        match mark_value(value) {
            Err(e) => Some(e),
            Ok(mark) => if mark != expected {
                Some(
                    "nfqws.base_args --fwmark="@ + value
                        + " does not match isolation.desync_mark="@ + desync_mark,
                )
            } else {
                None
            },
        }
    } else {
        None
    }
}

/// What is wrong with the first argument that has a fault.
pub open spec fn mark_arguments_fault(
    args: Seq<Seq<char>>,
    expected: u32,
    desync_mark: Seq<char>,
) -> Option<Seq<char>>
    decreases args.len(),
{
    if args.len() == 0 {
        None
    } else {
        match mark_arguments_fault(args.drop_last(), expected, desync_mark) {
            Some(e) => Some(e),
            None => mark_argument_fault(args.last(), expected, desync_mark),
        }
    }
}

/// The check of the marks in the arguments against the mark of changed packets.
pub open spec fn desync_mark_check(args: Seq<Seq<char>>, desync_mark: Seq<char>) -> Result<
    (),
    Seq<char>,
> {
    match mark_value(desync_mark) {
        Err(e) => Err(e),
        Ok(expected) => match mark_arguments_fault(args, expected, desync_mark) {
            Some(e) => Err(e),
            None => Ok(()),
        },
    }
}

proof fn mark_fault_stays(args: Seq<Seq<char>>, i: int, expected: u32, desync_mark: Seq<char>)
    requires
        0 <= i <= args.len(),
        mark_arguments_fault(args.take(i), expected, desync_mark) is Some,
    ensures
        mark_arguments_fault(args, expected, desync_mark) == mark_arguments_fault(
            args.take(i),
            expected,
            desync_mark,
        ),
    decreases args.len() - i,
{
    if i < args.len() {
        take_next(args, i);
        mark_fault_stays(args, i + 1, expected, desync_mark);
    } else {
        take_all(args);
    }
}

/// Checks that every mark in the arguments is the mark of changed packets.
pub fn validate_nfqws_desync_mark(base_args: &[String], desync_mark: &str) -> (r: Result<
    (),
    Fault,
>)
    ensures
        done(r) == desync_mark_check(texts(base_args@), desync_mark@),
{
    let expected = match parse_hex_mark(desync_mark) {
        Ok(mark) => mark,
        Err(e) => {
            return Err(e);
        },
    };
    let mut i: usize = 0;
    while i < base_args.len()
        invariant
            i <= base_args@.len(),
            mark_value(desync_mark@) == Ok::<u32, Seq<char>>(expected),
            mark_arguments_fault(texts(base_args@).take(i as int), expected, desync_mark@) is None,
        decreases base_args@.len() - i,
    {
        proof {
            take_next(texts(base_args@), i as int);
        }
        if let Some(value) = strip_prefix(base_args[i].as_str(), "--fwmark=") {
            match parse_hex_mark(value.as_str()) {
                Err(e) => {
                    proof {
                        mark_fault_stays(texts(base_args@), i + 1, expected, desync_mark@);
                    }
                    return Err(e);
                },
                Ok(mark) => {
                    if mark != expected {
                        proof {
                            mark_fault_stays(texts(base_args@), i + 1, expected, desync_mark@);
                        }
                        return Err(
                            Fault {
                                text: cat4(
                                    "nfqws.base_args --fwmark=",
                                    value.as_str(),
                                    " does not match isolation.desync_mark=",
                                    desync_mark,
                                ),
                            },
                        );
                    }
                },
            }
        }
        i = i + 1;
    }
    proof {
        take_all(texts(base_args@));
    }
    Ok(())
}

/// No two workers share a queue.
pub proof fn queues_differ(isolation: IsolationConfig, count: usize, a: usize, b: usize)
    requires
        isolation.queue_base + count - 1 <= u16::MAX,
        a < count,
        b < count,
        a != b,
    ensures
        assignment_of(isolation, a).qnum != assignment_of(isolation, b).qnum,
{
}

/// No two workers share a mark, as long as the marks do not run into the largest one.
pub proof fn marks_differ(mark_base: u32, count: usize, a: usize, b: usize)
    requires
        mark_base + count <= u32::MAX,
        a < count,
        b < count,
        a != b,
    ensures
        fwmark_of(mark_base, a) != fwmark_of(mark_base, b),
{
}

} // verus!
