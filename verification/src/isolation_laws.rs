use vstd::prelude::*;
use crate::config::IsolationConfig;
use crate::isolation::{
    assignment_of, assignments_of, desync_mark_check, fwmark_of, mark_argument_fault,
    mark_arguments_fault, mark_value, IsolationMode,
};
use crate::number::{digit_of, digits_text, hex_text, last_digit, number_read_back};
use crate::text::{begins, is_space, trimmed};

verus! {

/// A configuration has two modes, each by its own word, and no other word is a mode.
pub proof fn modes_have_their_words(value: Seq<char>)
    ensures
        IsolationMode::configured(value) == Ok::<IsolationMode, Seq<char>>(
            IsolationMode::SourcePort,
        ) <==> value == "source_port"@,
        IsolationMode::configured(value) == Ok::<IsolationMode, Seq<char>>(IsolationMode::Fwmark)
            <==> value == "fwmark"@,
        IsolationMode::configured(value) is Err <==> value != "source_port"@ && value
            != "fwmark"@,
        IsolationMode::SourcePort.name() == "source_port"@,
        IsolationMode::Fwmark.name() == "fwmark"@,
{
    reveal_strlit("source_port");
    reveal_strlit("fwmark");
    assert("source_port"@.len() != "fwmark"@.len());
}

/// The workers are numbered through: the queue of each is as far behind the base as its number
/// says, and its mark, where packets are told apart by marks, one farther behind the base of
/// the marks. Where they are told apart by ports nobody has a mark.
pub proof fn workers_are_numbered_through(isolation: IsolationConfig, worker_id: usize)
    requires
        isolation.queue_base + worker_id <= u16::MAX,
    ensures
        ({
            let a = assignment_of(isolation, worker_id);
            &&& a.worker_id == worker_id
            &&& a.qnum == isolation.queue_base + worker_id
            &&& a.source_port is None
            &&& isolation.mode@ == "source_port"@ ==> a.fwmark is None
            &&& isolation.mode@ == "fwmark"@ ==> match mark_value(isolation.mark_base@) {
                Ok(base) => a.fwmark is Some && (base + worker_id + 1 <= u32::MAX ==> a.fwmark->0
                    == base + worker_id + 1) && (base + worker_id + 1 > u32::MAX ==> a.fwmark->0
                    == u32::MAX),
                Err(_) => a.fwmark is None,
            }
        }),
{
    modes_have_their_words(isolation.mode@);
}

/// Each worker's queue and mark are those of the worker before it and one more.
pub proof fn next_worker_is_one_farther(isolation: IsolationConfig, mark_base: u32, worker_id: usize)
    requires
        isolation.queue_base + worker_id < u16::MAX,
        mark_base + worker_id + 1 < u32::MAX,
    ensures
        assignment_of(isolation, (worker_id + 1) as usize).qnum == assignment_of(
            isolation,
            worker_id,
        ).qnum + 1,
        fwmark_of(mark_base, (worker_id + 1) as usize) == fwmark_of(mark_base, worker_id) + 1,
        fwmark_of(mark_base, worker_id) > mark_base,
{
}

proof fn trimmed_of_tight(t: Seq<char>)
    requires
        t.len() > 0,
        !is_space(t[0]),
        !is_space(t.last()),
    ensures
        trimmed(t) == t,
{
}

proof fn hex_digits_are_tight(n: nat)
    ensures
        digits_text(n, 16).len() > 0,
        forall|i: int| 0 <= i < digits_text(n, 16).len()
            ==> digit_of(#[trigger] digits_text(n, 16)[i]) is Some,
    decreases n,
{
    if n >= 16 {
        hex_digits_are_tight(n / 16);
    }
    last_digit(n, 16);
    if n >= 16 {
        assert(digits_text(n, 16).drop_last() =~= digits_text(n / 16, 16));
        assert forall|i: int| 0 <= i < digits_text(n, 16).len() implies digit_of(
            #[trigger] digits_text(n, 16)[i],
        ) is Some by {
            if i < digits_text(n / 16, 16).len() {
                assert(digits_text(n, 16)[i] == digits_text(n / 16, 16)[i]);
            }
        }
    }
}

/// A mark is read in hexadecimal digits, with the prefix in small or large letters as without.
pub proof fn marks_are_read_with_any_prefix(n: u32)
    ensures
        mark_value("0x"@ + digits_text(n as nat, 16)) == Ok::<u32, Seq<char>>(n),
        mark_value("0X"@ + digits_text(n as nat, 16)) == Ok::<u32, Seq<char>>(n),
        mark_value(digits_text(n as nat, 16)) == Ok::<u32, Seq<char>>(n),
        mark_value(hex_text(n as nat)) == Ok::<u32, Seq<char>>(n),
{
    let d = digits_text(n as nat, 16);
    reveal_strlit("0x");
    reveal_strlit("0X");
    hex_digits_are_tight(n as nat);
    number_read_back(n as nat, 16, u32::MAX as nat);
    assert(digit_of(d[0]) is Some);
    assert(digit_of(d.last()) is Some);
    trimmed_of_tight(d);
    if begins(d, "0x"@) {
        assert(d.subrange(0, 2)[1] == d[1]);
        assert(digit_of(d[1]) is Some);
        assert(false);
    }
    if begins(d, "0X"@) {
        assert(d.subrange(0, 2)[1] == d[1]);
        assert(digit_of(d[1]) is Some);
        assert(false);
    }
    let small = "0x"@ + d;
    let large = "0X"@ + d;
    assert(small.last() == d.last() && large.last() == d.last());
    trimmed_of_tight(small);
    trimmed_of_tight(large);
    assert(small.subrange(0, 2) =~= "0x"@);
    assert(small.skip(2) =~= d);
    assert(large.subrange(0, 2) =~= "0X"@);
    assert(large.subrange(0, 2)[1] == 'X');
    assert(!begins(large, "0x"@));
    assert(large.skip(2) =~= d);
}

/// The arguments pass the check if and only if the mark of changed packets can be read and
/// every argument that sets a mark sets that very one; other arguments do not matter.
pub proof fn only_the_desync_mark_passes(args: Seq<Seq<char>>, desync_mark: Seq<char>)
    ensures
        desync_mark_check(args, desync_mark) is Ok <==> mark_value(desync_mark) is Ok && forall|
            i: int,
        |
            #![trigger args[i]]
            0 <= i < args.len() && begins(args[i], "--fwmark="@) ==> mark_value(
                args[i].skip("--fwmark="@.len() as int),
            ) == mark_value(desync_mark),
{
    if let Ok(expected) = mark_value(desync_mark) {
        arguments_set_the_mark(args, expected, desync_mark);
    }
}

proof fn arguments_set_the_mark(args: Seq<Seq<char>>, expected: u32, desync_mark: Seq<char>)
    ensures
        mark_arguments_fault(args, expected, desync_mark) is None <==> forall|i: int|
            #![trigger args[i]]
            0 <= i < args.len() && begins(args[i], "--fwmark="@) ==> mark_value(
                args[i].skip("--fwmark="@.len() as int),
            ) == Ok::<u32, Seq<char>>(expected),
    decreases args.len(),
{
    if args.len() > 0 {
        let init = args.drop_last();
        arguments_set_the_mark(init, expected, desync_mark);
        assert(forall|i: int| 0 <= i < init.len() ==> #[trigger] init[i] == args[i]);
        assert(args.last() == args[args.len() - 1]);
        let found = mark_argument_fault(args.last(), expected, desync_mark);
        assert(found is None <==> (begins(args.last(), "--fwmark="@) ==> mark_value(
            args.last().skip("--fwmark="@.len() as int),
        ) == Ok::<u32, Seq<char>>(expected)));
        if mark_arguments_fault(args, expected, desync_mark) is None {
            assert forall|i: int|
                #![trigger args[i]]
                0 <= i < args.len() && begins(args[i], "--fwmark="@) implies mark_value(
                args[i].skip("--fwmark="@.len() as int),
            ) == Ok::<u32, Seq<char>>(expected) by {
                if i < init.len() {
                    assert(init[i] == args[i]);
                }
            }
        } else if mark_arguments_fault(init, expected, desync_mark) is Some {
            let i = choose|i: int|
                #![trigger init[i]]
                0 <= i < init.len() && begins(init[i], "--fwmark="@) && mark_value(
                    init[i].skip("--fwmark="@.len() as int),
                ) != Ok::<u32, Seq<char>>(expected);
            assert(args[i] == init[i]);
        }
    }
}

/// There is one assignment for each of the workers, in their order, and each has its own queue:
/// the first the base, the last as far behind it as there are other workers.
pub proof fn every_worker_is_assigned(isolation: IsolationConfig, count: usize, i: int)
    requires
        0 <= i < count,
        isolation.queue_base + count - 1 <= u16::MAX,
    ensures
        assignments_of(isolation, count).len() == count,
        assignments_of(isolation, count)[i].worker_id == i,
        assignments_of(isolation, count)[i].qnum == isolation.queue_base + i,
        assignments_of(isolation, count)[i] == assignment_of(isolation, i as usize),
{
}

} // verus!
