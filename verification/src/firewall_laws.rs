use vstd::prelude::*;
use crate::firewall::{
    command_end, handle_among, iptables_args, iptables_program, line_handle, listing_end,
    lists_rule, mark_lines, nft_add_args, nft_add_chain_args, nft_add_table_args, nft_delete_args,
    nft_delete_table_args, nft_list_args, pair_at, rule_handle, says_pair, script_end, triple_at,
    vmap_script, FirewallHook, L4Protocol, NftablesVmapFirewallManager, WorkerFirewallRule,
};
use crate::number::{
    dec, decimals_are_digits, decimals_differ, digits_text, hex_text, number_read_back,
};
use crate::text::{after_last, has_text, is_space, joined, last_part_at, occurs_at, words_of};
use crate::text_laws::{
    in_a_row, indent_adds_no_word, is_word, lines_of_joined, one_behind, part_of_joined,
    text_within_text, three_in_a_row, two_in_a_row, word_of_itself, words_of_joined,
};
use crate::worker::WorkerAssignment;

verus! {

// ---------------------------------------------------------------------------
// What a rule says

/// How a rule writes a protocol.
pub open spec fn protocol_word(protocol: L4Protocol) -> Seq<char> {
    if protocol == L4Protocol::Tcp {
        "tcp"@
    } else {
        "udp"@
    }
}

/// How nftables writes the version of an address.
pub open spec fn version_word(is_ipv4: bool) -> Seq<char> {
    if is_ipv4 {
        "ip"@
    } else {
        "ip6"@
    }
}

/// A rule that nftables is to add says the address, the two ports and the queue, each of the
/// rule itself, behind the word for it, and that packets pass where nobody reads the queue.
pub proof fn nft_rule_says_its_connection(table: Seq<char>, rule: WorkerFirewallRule)
    ensures
        ({
            let args = nft_add_args(table, rule);
            let protocol = protocol_word(rule.protocol);
            &&& in_a_row(args, version_word(rule.target_ip.is_ipv4), "daddr"@, rule.target_ip.text@)
            &&& in_a_row(args, protocol, "sport"@, dec(rule.source_port as nat))
            &&& in_a_row(args, protocol, "dport"@, dec(rule.target_port as nat))
            &&& in_a_row(args, "queue"@, "num"@, dec(rule.qnum as nat))
            &&& args.last() == "bypass"@
            &&& in_a_row(args, "add"@, "rule"@, "inet"@)
            &&& args[3] == table
        }),
{
    let args = nft_add_args(table, rule);
    three_in_a_row(args, 0);
    three_in_a_row(args, 5);
    three_in_a_row(args, 8);
    three_in_a_row(args, 11);
    three_in_a_row(args, 14);
}

proof fn rule_words_differ()
    ensures
        "tcp"@ != "udp"@,
        "ip"@ != "ip6"@,
        "output"@ != "postrouting"@,
        "OUTPUT"@ != "POSTROUTING"@,
{
    reveal_strlit("tcp");
    reveal_strlit("udp");
    reveal_strlit("ip");
    reveal_strlit("ip6");
    reveal_strlit("output");
    reveal_strlit("postrouting");
    reveal_strlit("OUTPUT");
    reveal_strlit("POSTROUTING");
    assert("tcp"@[0] != "udp"@[0]);
    assert("ip"@.len() != "ip6"@.len());
    assert("output"@.len() != "postrouting"@.len());
    assert("OUTPUT"@.len() != "POSTROUTING"@.len());
}

/// The two rules lead the same packets into the same queue.
pub open spec fn same_rule(a: WorkerFirewallRule, b: WorkerFirewallRule) -> bool {
    &&& a.target_ip.is_ipv4 == b.target_ip.is_ipv4
    &&& a.target_ip.text@ == b.target_ip.text@
    &&& a.source_port == b.source_port
    &&& a.target_port == b.target_port
    &&& a.qnum == b.qnum
    &&& a.protocol == b.protocol
}

/// Rules that differ in anything that decides over packets, in an address, a port, the
/// protocol, the queue or the hook, or that stand in different tables, are added by different
/// arguments.
pub proof fn nft_rules_are_told_apart(
    table: Seq<char>,
    a: WorkerFirewallRule,
    other_table: Seq<char>,
    b: WorkerFirewallRule,
)
    ensures
        nft_add_args(table, a) == nft_add_args(other_table, b) <==> same_rule(a, b) && a.hook
            == b.hook && table == other_table,
{
    let x = nft_add_args(table, a);
    let y = nft_add_args(other_table, b);
    rule_words_differ();
    if x == y {
        assert(x[3] == y[3] && x[4] == y[4] && x[5] == y[5] && x[7] == y[7] && x[8] == y[8]);
        assert(x[10] == y[10] && x[13] == y[13] && x[16] == y[16]);
        decimals_differ(a.source_port as nat, b.source_port as nat);
        decimals_differ(a.target_port as nat, b.target_port as nat);
        decimals_differ(a.qnum as nat, b.qnum as nat);
    }
    if same_rule(a, b) && a.hook == b.hook && table == other_table {
        assert(x =~= y);
    }
}

/// The same of iptables: rules that differ in anything that decides over packets are added by
/// different arguments, or by the programs for different versions of addresses.
pub proof fn iptables_rules_are_told_apart(a: WorkerFirewallRule, b: WorkerFirewallRule)
    requires
        a.target_ip.is_ipv4 == b.target_ip.is_ipv4,
    ensures
        iptables_args("-A"@, a) == iptables_args("-A"@, b) <==> same_rule(a, b) && a.hook
            == b.hook,
{
    let x = iptables_args("-A"@, a);
    let y = iptables_args("-A"@, b);
    rule_words_differ();
    if x == y {
        assert(x[3] == y[3] && x[5] == y[5] && x[7] == y[7]);
        assert(x[9] == y[9] && x[11] == y[11] && x[15] == y[15]);
        decimals_differ(a.source_port as nat, b.source_port as nat);
        decimals_differ(a.target_port as nat, b.target_port as nat);
        decimals_differ(a.qnum as nat, b.qnum as nat);
    }
    if same_rule(a, b) && a.hook == b.hook {
        assert(x =~= y);
    }
}

/// A rule for iptables says the chain behind the operation, and the protocol, the address, the
/// two ports and the queue, each of the rule itself, behind the option for it.
pub proof fn iptables_rule_says_its_connection(operation: Seq<char>, rule: WorkerFirewallRule)
    ensures
        ({
            let args = iptables_args(operation, rule);
            &&& one_behind(args, "-t"@, "mangle"@)
            &&& one_behind(
                args,
                operation,
                if rule.hook == FirewallHook::Postrouting {
                    "POSTROUTING"@
                } else {
                    "OUTPUT"@
                },
            )
            &&& one_behind(args, "-p"@, protocol_word(rule.protocol))
            &&& one_behind(args, "-d"@, rule.target_ip.text@)
            &&& one_behind(args, "--sport"@, dec(rule.source_port as nat))
            &&& one_behind(args, "--dport"@, dec(rule.target_port as nat))
            &&& one_behind(args, "-j"@, "NFQUEUE"@)
            &&& one_behind(args, "--queue-num"@, dec(rule.qnum as nat))
            &&& args.last() == "--queue-bypass"@
        }),
{
    let args = iptables_args(operation, rule);
    two_in_a_row(args, 0);
    two_in_a_row(args, 2);
    two_in_a_row(args, 4);
    two_in_a_row(args, 6);
    two_in_a_row(args, 8);
    two_in_a_row(args, 10);
    two_in_a_row(args, 12);
    two_in_a_row(args, 14);
}

/// The commands of a table meet: rules are added to the table and the chain that the set-up
/// makes, listed from there and deleted from there by the handle that is asked for, and the
/// clean-up deletes that very table.
pub proof fn commands_meet_in_one_chain(
    table: Seq<char>,
    rule: WorkerFirewallRule,
    priority: Seq<char>,
    handle: u64,
)
    ensures
        ({
            let chain = if rule.hook == FirewallHook::Postrouting {
                "postrouting"@
            } else {
                "output"@
            };
            let place = seq!["inet"@, table, chain];
            &&& nft_add_args(table, rule).subrange(2, 5) == place
            &&& nft_add_chain_args(table, rule.hook, priority).subrange(2, 5) == place
            &&& in_a_row(
                nft_add_chain_args(table, rule.hook, priority),
                "hook"@,
                chain,
                "priority"@,
            )
            &&& one_behind(nft_add_chain_args(table, rule.hook, priority), "priority"@, priority)
            &&& nft_list_args(table, rule.hook).subrange(3, 6) == place
            &&& nft_list_args(table, rule.hook)[0] == "-a"@
            &&& nft_delete_args(table, rule, handle) == seq!["delete"@, "rule"@] + place + seq![
                "handle"@,
                dec(handle as nat),
            ]
            &&& nft_add_table_args(table) == seq!["add"@, "table"@, "inet"@, table]
            &&& nft_delete_table_args(table) == seq!["delete"@, "table"@, "inet"@, table]
        }),
{
    let chain = if rule.hook == FirewallHook::Postrouting {
        "postrouting"@
    } else {
        "output"@
    };
    let place = seq!["inet"@, table, chain];
    let made = nft_add_chain_args(table, rule.hook, priority);
    three_in_a_row(made, 8);
    two_in_a_row(made, 10);
    assert(nft_add_args(table, rule).subrange(2, 5) =~= place);
    assert(made.subrange(2, 5) =~= place);
    assert(nft_list_args(table, rule.hook).subrange(3, 6) =~= place);
    assert(nft_delete_args(table, rule, handle) =~= seq!["delete"@, "rule"@] + place + seq![
        "handle"@,
        dec(handle as nat),
    ]);
}

// ---------------------------------------------------------------------------
// Finding a rule again

proof fn digits_are_a_word(n: nat)
    ensures
        is_word(dec(n)),
        forall|i: int| 0 <= i < dec(n).len() ==> #[trigger] dec(n)[i] != '#',
{
    decimals_are_digits(n);
}

proof fn last_mark(before: Seq<char>, mark: Seq<char>, rest: Seq<char>)
    requires
        mark.len() > 0,
        forall|i: int| 0 < i < mark.len() ==> #[trigger] mark[i] != mark[0],
        forall|i: int| 0 <= i < rest.len() ==> #[trigger] rest[i] != mark[0],
    ensures
        has_text(before + mark + rest, mark),
        after_last(before + mark + rest, mark) == Some(rest),
{
    let line = before + mark + rest;
    let at = before.len() as int;
    assert(line.subrange(at, at + mark.len()) =~= mark);
    assert(occurs_at(line, mark, at));
    assert forall|j: int| at < j implies !#[trigger] occurs_at(line, mark, j) by {
        if occurs_at(line, mark, j) {
            assert(line.subrange(j, j + mark.len())[0] == line[j]);
            assert(line[j] == mark[0]);
            if j < at + mark.len() {
                assert(line[j] == mark[j - at]);
            } else {
                assert(line[j] == rest[j - at - mark.len()]);
            }
        }
    }
    assert(last_part_at(line, mark, at));
    let i = choose|i: int| last_part_at(line, mark, i);
    assert(last_part_at(line, mark, i));
    assert(i == at);
    assert(line.skip(at + mark.len()) =~= rest);
}

proof fn handle_mark()
    ensures
        "# handle "@.len() == 9,
        "# handle "@[0] == '#',
        forall|i: int| 0 < i < 9 ==> #[trigger] "# handle "@[i] != '#',
{
    reveal_strlit("# handle ");
}

/// The handle that a line ends with is read, whatever stands before it.
pub proof fn handle_is_read(before: Seq<char>, handle: u64)
    ensures
        line_handle(before + "# handle "@ + dec(handle as nat)) == Some(handle),
        has_text(before + "# handle "@ + dec(handle as nat), "# handle "@),
{
    let digits = dec(handle as nat);
    handle_mark();
    digits_are_a_word(handle as nat);
    last_mark(before, "# handle "@, digits);
    word_of_itself(digits);
    number_read_back(handle as nat, 10, u64::MAX as nat);
    assert(words_of(digits)[0] == digits);
}

/// An address is written without white space, with a dot or a colon in it.
pub open spec fn is_address_text(s: Seq<char>) -> bool {
    is_word(s) && exists|k: int| 0 <= k < s.len() && (#[trigger] s[k] == '.' || s[k] == ':')
}

/// The words by which nftables says where the packets of a rule go: those by which it was
/// added, or those of its own making.
pub open spec fn queue_words(qnum: u16, own: bool) -> Seq<Seq<char>> {
    if own {
        seq!["queue"@, "flags"@, "bypass"@, "to"@, dec(qnum as nat)]
    } else {
        seq!["queue"@, "num"@, dec(qnum as nat), "bypass"@]
    }
}

/// The words of the line by which nftables lists a rule with its handle: those by which it
/// was added behind the table and the chain, its queue, and the handle.
pub open spec fn listed_words(
    table: Seq<char>,
    rule: WorkerFirewallRule,
    own: bool,
    handle: u64,
) -> Seq<Seq<char>> {
    nft_add_args(table, rule).subrange(5, 14) + queue_words(rule.qnum, own) + seq![
        "#"@,
        "handle"@,
        dec(handle as nat),
    ]
}

/// The line by which nftables lists a rule with its handle.
pub open spec fn listed_line(
    table: Seq<char>,
    rule: WorkerFirewallRule,
    own: bool,
    handle: u64,
    indent: Seq<char>,
) -> Seq<char> {
    indent + joined(listed_words(table, rule, own, handle), seq![' '])
}

proof fn listing_words()
    ensures
        is_word("daddr"@),
        is_word("sport"@),
        is_word("dport"@),
        is_word("queue"@),
        is_word("num"@),
        is_word("bypass"@),
        is_word("#"@),
        is_word("handle"@),
        is_word("flags"@),
        is_word("to"@),
        is_word("tcp"@),
        is_word("udp"@),
        is_word("ip"@),
        is_word("ip6"@),
        "daddr"@ != "sport"@,
        "daddr"@ != "dport"@,
        "daddr"@ != "queue"@,
        "daddr"@ != "num"@,
        "daddr"@ != "bypass"@,
        "daddr"@ != "#"@,
        "daddr"@ != "handle"@,
        "daddr"@ != "flags"@,
        "daddr"@ != "to"@,
        "daddr"@ != "tcp"@,
        "daddr"@ != "udp"@,
        "daddr"@ != "ip"@,
        "daddr"@ != "ip6"@,
        "sport"@ != "daddr"@,
        "sport"@ != "dport"@,
        "sport"@ != "queue"@,
        "sport"@ != "num"@,
        "sport"@ != "bypass"@,
        "sport"@ != "#"@,
        "sport"@ != "handle"@,
        "sport"@ != "flags"@,
        "sport"@ != "to"@,
        "sport"@ != "tcp"@,
        "sport"@ != "udp"@,
        "sport"@ != "ip"@,
        "sport"@ != "ip6"@,
        "dport"@ != "daddr"@,
        "dport"@ != "sport"@,
        "dport"@ != "queue"@,
        "dport"@ != "num"@,
        "dport"@ != "bypass"@,
        "dport"@ != "#"@,
        "dport"@ != "handle"@,
        "dport"@ != "flags"@,
        "dport"@ != "to"@,
        "dport"@ != "tcp"@,
        "dport"@ != "udp"@,
        "dport"@ != "ip"@,
        "dport"@ != "ip6"@,
        "queue"@ != "daddr"@,
        "queue"@ != "sport"@,
        "queue"@ != "dport"@,
        "queue"@ != "num"@,
        "queue"@ != "bypass"@,
        "queue"@ != "#"@,
        "queue"@ != "handle"@,
        "queue"@ != "flags"@,
        "queue"@ != "to"@,
        "queue"@ != "tcp"@,
        "queue"@ != "udp"@,
        "queue"@ != "ip"@,
        "queue"@ != "ip6"@,
        "num"@ != "daddr"@,
        "num"@ != "sport"@,
        "num"@ != "dport"@,
        "num"@ != "queue"@,
        "num"@ != "bypass"@,
        "num"@ != "#"@,
        "num"@ != "handle"@,
        "num"@ != "flags"@,
        "num"@ != "to"@,
        "num"@ != "tcp"@,
        "num"@ != "udp"@,
        "num"@ != "ip"@,
        "num"@ != "ip6"@,
        "to"@ != "daddr"@,
        "to"@ != "sport"@,
        "to"@ != "dport"@,
        "to"@ != "queue"@,
        "to"@ != "num"@,
        "to"@ != "bypass"@,
        "to"@ != "#"@,
        "to"@ != "handle"@,
        "to"@ != "flags"@,
        "to"@ != "tcp"@,
        "to"@ != "udp"@,
        "to"@ != "ip"@,
        "to"@ != "ip6"@,
{
    reveal_strlit("daddr");
    reveal_strlit("sport");
    reveal_strlit("dport");
    reveal_strlit("queue");
    reveal_strlit("num");
    reveal_strlit("bypass");
    reveal_strlit("#");
    reveal_strlit("handle");
    reveal_strlit("flags");
    reveal_strlit("to");
    reveal_strlit("tcp");
    reveal_strlit("udp");
    reveal_strlit("ip");
    reveal_strlit("ip6");
    assert("daddr"@[0] != "sport"@[0]);
    assert("daddr"@[1] != "dport"@[1]);
    assert("daddr"@[0] != "queue"@[0]);
    assert("daddr"@.len() != "num"@.len());
    assert("daddr"@.len() != "bypass"@.len());
    assert("daddr"@.len() != "#"@.len());
    assert("daddr"@.len() != "handle"@.len());
    assert("daddr"@[0] != "flags"@[0]);
    assert("daddr"@.len() != "to"@.len());
    assert("daddr"@.len() != "tcp"@.len());
    assert("daddr"@.len() != "udp"@.len());
    assert("daddr"@.len() != "ip"@.len());
    assert("daddr"@.len() != "ip6"@.len());
    assert("sport"@[0] != "daddr"@[0]);
    assert("sport"@[0] != "dport"@[0]);
    assert("sport"@[0] != "queue"@[0]);
    assert("sport"@.len() != "num"@.len());
    assert("sport"@.len() != "bypass"@.len());
    assert("sport"@.len() != "#"@.len());
    assert("sport"@.len() != "handle"@.len());
    assert("sport"@[0] != "flags"@[0]);
    assert("sport"@.len() != "to"@.len());
    assert("sport"@.len() != "tcp"@.len());
    assert("sport"@.len() != "udp"@.len());
    assert("sport"@.len() != "ip"@.len());
    assert("sport"@.len() != "ip6"@.len());
    assert("dport"@[1] != "daddr"@[1]);
    assert("dport"@[0] != "sport"@[0]);
    assert("dport"@[0] != "queue"@[0]);
    assert("dport"@.len() != "num"@.len());
    assert("dport"@.len() != "bypass"@.len());
    assert("dport"@.len() != "#"@.len());
    assert("dport"@.len() != "handle"@.len());
    assert("dport"@[0] != "flags"@[0]);
    assert("dport"@.len() != "to"@.len());
    assert("dport"@.len() != "tcp"@.len());
    assert("dport"@.len() != "udp"@.len());
    assert("dport"@.len() != "ip"@.len());
    assert("dport"@.len() != "ip6"@.len());
    assert("queue"@[0] != "daddr"@[0]);
    assert("queue"@[0] != "sport"@[0]);
    assert("queue"@[0] != "dport"@[0]);
    assert("queue"@.len() != "num"@.len());
    assert("queue"@.len() != "bypass"@.len());
    assert("queue"@.len() != "#"@.len());
    assert("queue"@.len() != "handle"@.len());
    assert("queue"@[0] != "flags"@[0]);
    assert("queue"@.len() != "to"@.len());
    assert("queue"@.len() != "tcp"@.len());
    assert("queue"@.len() != "udp"@.len());
    assert("queue"@.len() != "ip"@.len());
    assert("queue"@.len() != "ip6"@.len());
    assert("num"@.len() != "daddr"@.len());
    assert("num"@.len() != "sport"@.len());
    assert("num"@.len() != "dport"@.len());
    assert("num"@.len() != "queue"@.len());
    assert("num"@.len() != "bypass"@.len());
    assert("num"@.len() != "#"@.len());
    assert("num"@.len() != "handle"@.len());
    assert("num"@.len() != "flags"@.len());
    assert("num"@.len() != "to"@.len());
    assert("num"@[0] != "tcp"@[0]);
    assert("num"@[0] != "udp"@[0]);
    assert("num"@.len() != "ip"@.len());
    assert("num"@[0] != "ip6"@[0]);
    assert("to"@.len() != "daddr"@.len());
    assert("to"@.len() != "sport"@.len());
    assert("to"@.len() != "dport"@.len());
    assert("to"@.len() != "queue"@.len());
    assert("to"@.len() != "num"@.len());
    assert("to"@.len() != "bypass"@.len());
    assert("to"@.len() != "#"@.len());
    assert("to"@.len() != "handle"@.len());
    assert("to"@.len() != "flags"@.len());
    assert("to"@.len() != "tcp"@.len());
    assert("to"@.len() != "udp"@.len());
    assert("to"@[0] != "ip"@[0]);
    assert("to"@.len() != "ip6"@.len());
}

proof fn digits_are_no_listing_word(n: nat)
    ensures
        is_word(dec(n)),
        dec(n) != "daddr"@,
        dec(n) != "sport"@,
        dec(n) != "dport"@,
        dec(n) != "queue"@,
        dec(n) != "num"@,
        dec(n) != "to"@,
        dec(n) != "flags"@,
{
    decimals_are_digits(n);
    reveal_strlit("daddr");
    reveal_strlit("sport");
    reveal_strlit("dport");
    reveal_strlit("queue");
    reveal_strlit("num");
    reveal_strlit("to");
    reveal_strlit("flags");
    assert('0' <= dec(n)[0] <= '9');
}

proof fn address_is_no_listing_word(s: Seq<char>)
    requires
        is_address_text(s),
    ensures
        s != "daddr"@,
        s != "sport"@,
        s != "dport"@,
        s != "queue"@,
        s != "num"@,
        s != "to"@,
{
    let k = choose|k: int| 0 <= k < s.len() && (#[trigger] s[k] == '.' || s[k] == ':');
    reveal_strlit("daddr");
    reveal_strlit("sport");
    reveal_strlit("dport");
    reveal_strlit("queue");
    reveal_strlit("num");
    reveal_strlit("to");
    if s == "daddr"@ {
        assert(k == 0 || k == 1 || k == 2 || k == 3 || k == 4);
        assert(false);
    }
    if s == "sport"@ {
        assert(k == 0 || k == 1 || k == 2 || k == 3 || k == 4);
        assert(false);
    }
    if s == "dport"@ {
        assert(k == 0 || k == 1 || k == 2 || k == 3 || k == 4);
        assert(false);
    }
    if s == "queue"@ {
        assert(k == 0 || k == 1 || k == 2 || k == 3 || k == 4);
        assert(false);
    }
    if s == "num"@ {
        assert(k == 0 || k == 1 || k == 2);
        assert(false);
    }
    if s == "to"@ {
        assert(k == 0 || k == 1);
        assert(false);
    }
}

proof fn listed_line_parts(
    table: Seq<char>,
    rule: WorkerFirewallRule,
    own: bool,
    handle: u64,
    indent: Seq<char>,
)
    requires
        is_word(rule.target_ip.text@),
        forall|i: int| 0 <= i < indent.len() ==> is_space(#[trigger] indent[i]),
    ensures
        words_of(listed_line(table, rule, own, handle, indent)) == listed_words(
            table,
            rule,
            own,
            handle,
        ),
        exists|before: Seq<char>|
            listed_line(table, rule, own, handle, indent) == #[trigger] (before + "# handle "@)
                + dec(handle as nat),
{
    let words = listed_words(table, rule, own, handle);
    let blank = seq![' '];
    listing_words();
    digits_are_a_word(rule.source_port as nat);
    digits_are_a_word(rule.target_port as nat);
    digits_are_a_word(rule.qnum as nat);
    digits_are_a_word(handle as nat);
    assert forall|i: int| 0 <= i < words.len() implies is_word(#[trigger] words[i]) by {}
    words_of_joined(words);
    indent_adds_no_word(indent, joined(words, blank));
    let n = words.len() as int;
    let a = words.drop_last();
    let b = a.drop_last();
    let c = b.drop_last();
    assert(words.last() == dec(handle as nat) && a.last() == "handle"@ && b.last() == "#"@);
    let before = indent + (joined(c, blank) + blank);
    reveal_strlit("#");
    reveal_strlit("handle");
    reveal_strlit("# handle ");
    assert(joined(words, blank) == joined(a, blank) + blank + words.last());
    assert(joined(a, blank) == joined(b, blank) + blank + a.last());
    assert(joined(b, blank) == joined(c, blank) + blank + b.last());
    assert("# handle "@ =~= "#"@ + blank + "handle"@ + blank);
    assert(indent + joined(words, blank) =~= (before + "# handle "@) + dec(handle as nat));
}

/// A rule that was added is found again: the line that lists it, however far it is indented
/// and whichever words say its queue, is a line of the rule, and the handle on it is read.
pub proof fn added_rule_is_recognised(
    table: Seq<char>,
    rule: WorkerFirewallRule,
    own: bool,
    handle: u64,
    indent: Seq<char>,
)
    requires
        is_word(rule.target_ip.text@),
        forall|i: int| 0 <= i < indent.len() ==> is_space(#[trigger] indent[i]),
    ensures
        lists_rule(listed_line(table, rule, own, handle, indent), rule),
        line_handle(listed_line(table, rule, own, handle, indent)) == Some(handle),
{
    let line = listed_line(table, rule, own, handle, indent);
    let words = listed_words(table, rule, own, handle);
    let number = dec(rule.qnum as nat);
    listed_line_parts(table, rule, own, handle, indent);
    let before = choose|before: Seq<char>|
        line == #[trigger] (before + "# handle "@) + dec(handle as nat);
    handle_is_read(before, handle);
    assert(triple_at(words, 0, rule.ip_word(), "daddr"@, rule.target_ip.text@));
    assert(triple_at(words, 3, rule.protocol.word(), "sport"@, dec(rule.source_port as nat)));
    assert(triple_at(words, 6, rule.protocol.word(), "dport"@, dec(rule.target_port as nat)));
    assert(words[9] == "queue"@);
    if own {
        assert(pair_at(words, 12, "to"@, number));
    } else {
        assert(pair_at(words, 10, "num"@, number));
    }
}

/// No other rule is taken for it: a line that lists a rule is a line of another one only where
/// the two agree in the address, both ports, the protocol and the queue.
pub proof fn other_rules_are_not_recognised(
    table: Seq<char>,
    rule: WorkerFirewallRule,
    own: bool,
    handle: u64,
    indent: Seq<char>,
    other: WorkerFirewallRule,
)
    requires
        is_address_text(rule.target_ip.text@),
        forall|i: int| 0 <= i < indent.len() ==> is_space(#[trigger] indent[i]),
    ensures
        lists_rule(listed_line(table, rule, own, handle, indent), other) <==> same_rule(
            rule,
            other,
        ),
{
    let line = listed_line(table, rule, own, handle, indent);
    let words = listed_words(table, rule, own, handle);
    listed_line_parts(table, rule, own, handle, indent);
    listing_words();
    rule_words_differ();
    address_is_no_listing_word(rule.target_ip.text@);
    digits_are_no_listing_word(rule.source_port as nat);
    digits_are_no_listing_word(rule.target_port as nat);
    digits_are_no_listing_word(rule.qnum as nat);
    digits_are_no_listing_word(handle as nat);
    digits_are_no_listing_word(other.qnum as nat);
    assert forall|i: int| 0 <= i < words.len() && words[i] == "daddr"@ implies i == 1 by {}
    assert forall|i: int| 0 <= i < words.len() && words[i] == "sport"@ implies i == 4 by {}
    assert forall|i: int| 0 <= i < words.len() && words[i] == "dport"@ implies i == 7 by {}
    assert forall|i: int| 0 <= i < words.len() && words[i] == "queue"@ implies i == 9 by {}
    assert forall|i: int| 0 <= i < words.len() && words[i] == "num"@ implies !own && i == 10 by {}
    assert forall|i: int| 0 <= i < words.len() && words[i] == "to"@ implies own && i == 12 by {}
    if lists_rule(line, other) {
        let number = dec(other.qnum as nat);
        let i = choose|i: int|
            #[trigger] triple_at(words, i, other.ip_word(), "daddr"@, other.target_ip.text@);
        assert(words[i + 1] == "daddr"@);
        let j = choose|j: int|
            #[trigger] triple_at(
                words,
                j,
                other.protocol.word(),
                "sport"@,
                dec(other.source_port as nat),
            );
        assert(words[j + 1] == "sport"@);
        let k = choose|k: int|
            #[trigger] triple_at(
                words,
                k,
                other.protocol.word(),
                "dport"@,
                dec(other.target_port as nat),
            );
        assert(words[k + 1] == "dport"@);
        decimals_differ(rule.source_port as nat, other.source_port as nat);
        decimals_differ(rule.target_port as nat, other.target_port as nat);
        decimals_differ(rule.qnum as nat, other.qnum as nat);
        if says_pair(words, "to"@, number) {
            let q = choose|q: int| #[trigger] pair_at(words, q, "to"@, number);
            assert(words[q] == "to"@);
        } else if says_pair(words, "num"@, number) {
            let q = choose|q: int| #[trigger] pair_at(words, q, "num"@, number);
            assert(words[q] == "num"@);
        } else {
            let q = choose|q: int| #[trigger] pair_at(words, q, "queue"@, number);
            assert(words[q] == "queue"@);
        }
    }
    if same_rule(rule, other) {
        assert(nft_add_args(table, rule).subrange(5, 14) =~= nft_add_args(table, other).subrange(
            5,
            14,
        ));
        added_rule_is_recognised(table, other, own, handle, indent);
    }
}

/// The search goes by the first of the lines that lists the rule, whatever the lines behind it
/// say, and finds nothing where none does.
pub proof fn first_listed_handle_counts(lines: Seq<Seq<char>>, rule: WorkerFirewallRule, i: int)
    ensures
        0 <= i < lines.len() && lists_rule(lines[i], rule) && (forall|j: int|
            0 <= j < i ==> !lists_rule(#[trigger] lines[j], rule)) ==> handle_among(lines, rule)
            == line_handle(lines[i]),
        (forall|j: int| 0 <= j < lines.len() ==> !lists_rule(#[trigger] lines[j], rule))
            ==> handle_among(lines, rule) is None,
    decreases lines.len(),
{
    if lines.len() > 0 {
        let rest = lines.drop_first();
        first_listed_handle_counts(rest, rule, i - 1);
        assert(forall|j: int| 0 <= j < rest.len() ==> #[trigger] rest[j] == lines[j + 1]);
        if !lists_rule(lines[0], rule) {
            if 0 < i < lines.len() {
                assert(rest[i - 1] == lines[i]);
            }
        }
    }
}

/// In the list of a chain the handle of an added rule is found: that of the rule's own line,
/// whatever other rules and other lines stand around it.
pub proof fn added_rule_is_found(
    table: Seq<char>,
    rule: WorkerFirewallRule,
    own: bool,
    handle: u64,
    indent: Seq<char>,
    lines: Seq<Seq<char>>,
    i: int,
)
    requires
        is_word(rule.target_ip.text@),
        forall|k: int| 0 <= k < indent.len() ==> is_space(#[trigger] indent[k]),
        0 <= i < lines.len(),
        lines[i] == listed_line(table, rule, own, handle, indent),
        forall|j: int|
            0 <= j < lines.len() ==> !(#[trigger] lines[j]).contains('\n') && !lines[j].contains(
                '\r',
            ),
        forall|j: int| 0 <= j < i ==> !lists_rule(#[trigger] lines[j], rule),
    ensures
        rule_handle(joined(lines, seq!['\n']) + seq!['\n'], rule) == Some(handle),
{
    lines_of_joined(lines);
    added_rule_is_recognised(table, rule, own, handle, indent);
    first_listed_handle_counts(lines, rule, i);
}

/// Each version of addresses has its own program.
pub proof fn versions_have_their_programs(rule: WorkerFirewallRule)
    ensures
        iptables_program(rule) == "iptables"@ <==> rule.target_ip.is_ipv4,
        iptables_program(rule) == "ip6tables"@ <==> !rule.target_ip.is_ipv4,
{
    reveal_strlit("iptables");
    reveal_strlit("ip6tables");
    assert("iptables"@.len() != "ip6tables"@.len());
}

// ---------------------------------------------------------------------------
// Queues by marks

/// The line of a mark and its queue.
pub open spec fn mark_line(mark: u32, qnum: u16) -> Seq<char> {
    "            0x"@ + digits_text(mark as nat, 16) + " : queue num "@ + dec(qnum as nat)
        + " bypass,"@
}

/// How many of the workers have a mark.
pub open spec fn marked_workers(s: Seq<WorkerAssignment>) -> nat
    decreases s.len(),
{
    if s.len() == 0 {
        0
    } else {
        marked_workers(s.drop_first()) + if s[0].fwmark is Some {
            1nat
        } else {
            0nat
        }
    }
}

proof fn marked_workers_last(s: Seq<WorkerAssignment>)
    requires
        s.len() > 0,
    ensures
        marked_workers(s) == marked_workers(s.drop_last()) + if s.last().fwmark is Some {
            1nat
        } else {
            0nat
        },
    decreases s.len(),
{
    reveal_with_fuel(marked_workers, 2);
    if s.len() > 1 {
        marked_workers_last(s.drop_first());
        assert(s.drop_first().drop_last() =~= s.drop_last().drop_first());
        assert(s.drop_last()[0] == s[0]);
    } else {
        assert(s.drop_first() =~= s.drop_last());
    }
}

/// Every worker with a mark has its line, which leads its own mark into its own queue; there
/// are no other lines, and none for a worker without a mark.
pub proof fn every_mark_has_its_queue(s: Seq<WorkerAssignment>)
    ensures
        mark_lines(s).len() == marked_workers(s),
        forall|i: int|
            #![trigger s[i]]
            0 <= i < s.len() && s[i].fwmark is Some ==> mark_lines(s).contains(
                mark_line(s[i].fwmark->0, s[i].qnum),
            ),
        forall|k: int|
            #![trigger mark_lines(s)[k]]
            0 <= k < mark_lines(s).len() ==> exists|i: int|
                #![trigger s[i]]
                0 <= i < s.len() && s[i].fwmark is Some && mark_lines(s)[k] == mark_line(
                    s[i].fwmark->0,
                    s[i].qnum,
                ),
    decreases s.len(),
{
    if s.len() > 0 {
        let init = s.drop_last();
        let before = mark_lines(init);
        let all = mark_lines(s);
        every_mark_has_its_queue(init);
        marked_workers_last(s);
        reveal_strlit("            ");
        reveal_strlit("0x");
        reveal_strlit("            0x");
        if let Some(mark) = s.last().fwmark {
            let line = mark_line(mark, s.last().qnum);
            assert("            "@ + hex_text(mark as nat) =~= "            0x"@ + digits_text(
                mark as nat,
                16,
            ));
            assert(all =~= before.push(line));
            assert(all[before.len() as int] == line);
        }
        assert forall|i: int|
            #![trigger s[i]]
            0 <= i < s.len() && s[i].fwmark is Some implies all.contains(
            mark_line(s[i].fwmark->0, s[i].qnum),
        ) by {
            if i < init.len() {
                assert(init[i] == s[i]);
                let line = mark_line(s[i].fwmark->0, s[i].qnum);
                assert(before.contains(line));
                let k = choose|k: int| 0 <= k < before.len() && before[k] == line;
                assert(all[k] == line);
            }
        }
        assert forall|k: int| #![trigger all[k]] 0 <= k < all.len() implies exists|i: int|
            #![trigger s[i]]
            0 <= i < s.len() && s[i].fwmark is Some && all[k] == mark_line(
                s[i].fwmark->0,
                s[i].qnum,
            ) by {
            if k < before.len() {
                assert(all[k] == before[k]);
                let i = choose|i: int|
                    #![trigger init[i]]
                    0 <= i < init.len() && init[i].fwmark is Some && before[k] == mark_line(
                        init[i].fwmark->0,
                        init[i].qnum,
                    );
                assert(s[i] == init[i]);
            } else {
                let last = s.len() - 1;
                assert(s[last] == s.last());
            }
        }
    }
}

/// The script says the table, the chain at its hook with its priority, the mark by which
/// changed packets pass, and for every worker with a mark the queue that its packets are led
/// into.
pub proof fn script_says_every_queue(m: NftablesVmapFirewallManager, i: int)
    ensures
        ({
            let script = vmap_script(m);
            let chain = if m.hook == FirewallHook::Postrouting {
                "postrouting"@
            } else {
                "output"@
            };
            &&& has_text(script, "table inet "@ + m.table@ + " {"@)
            &&& has_text(script, "    chain "@ + chain + " {"@)
            &&& has_text(
                script,
                "        type filter hook "@ + chain + " priority "@ + m.priority@
                    + "; policy accept;"@,
            )
            &&& has_text(
                script,
                "        meta mark 0x"@ + digits_text(m.desync_mark as nat, 16)
                    + " notrack counter accept comment \"desync bypass\";"@,
            )
            &&& has_text(
                script,
                "        type filter hook input priority "@ + m.priority@ + "; policy accept;"@,
            )
            &&& 0 <= i < m.assignments@.len() && m.assignments@[i].fwmark is Some ==> has_text(
                script,
                mark_line(m.assignments@[i].fwmark->0, m.assignments@[i].qnum),
            )
        }),
{
    let lines = mark_lines(m.assignments@);
    let elements = joined(lines, "\n"@);
    let parts = seq![
        "table inet "@ + m.table@ + " {"@,
        "    map meta_mark_queue {"@,
        "        type mark : meta mark;"@,
        "        elements = {"@,
        elements,
        "        };"@,
        "    }"@,
        ""@,
        "    map ct_mark_queue {"@,
        "        type mark : meta mark;"@,
        "        elements = {"@,
        elements,
        "        };"@,
        "    }"@,
        ""@,
        "    chain "@ + m.hook.chain() + " {"@,
        "        type filter hook "@ + m.hook.chain() + " priority "@ + m.priority@
            + "; policy accept;"@,
        "        meta mark "@ + hex_text(m.desync_mark as nat)
            + " notrack counter accept comment \"desync bypass\";"@,
        "        meta mark vmap @meta_mark_queue"@,
        "        ct mark set meta mark"@,
        "        ct mark vmap @ct_mark_queue"@,
        "    }"@,
        ""@,
        "    chain input {"@,
        "        type filter hook input priority "@ + m.priority@ + "; policy accept;"@,
        "        ct mark vmap @ct_mark_queue"@,
        "    }"@,
        "}"@,
    ];
    let script = vmap_script(m);
    assert(script == joined(parts, "\n"@));
    part_of_joined(parts, "\n"@, 0);
    part_of_joined(parts, "\n"@, 4);
    part_of_joined(parts, "\n"@, 15);
    part_of_joined(parts, "\n"@, 16);
    part_of_joined(parts, "\n"@, 17);
    part_of_joined(parts, "\n"@, 24);
    reveal_strlit("        meta mark ");
    reveal_strlit("0x");
    reveal_strlit("        meta mark 0x");
    assert("        meta mark "@ + hex_text(m.desync_mark as nat) =~= "        meta mark 0x"@
        + digits_text(m.desync_mark as nat, 16));
    if 0 <= i < m.assignments@.len() && m.assignments@[i].fwmark is Some {
        let line = mark_line(m.assignments@[i].fwmark->0, m.assignments@[i].qnum);
        every_mark_has_its_queue(m.assignments@);
        let k = choose|k: int| 0 <= k < lines.len() && lines[k] == line;
        part_of_joined(lines, "\n"@, k);
        text_within_text(script, elements, line);
    }
}

/// A command, a listing and a script fail if and only if their program did; a listing that did
/// not fail is what the program wrote, and a failure tells the program, its arguments and how
/// it ended.
pub proof fn programs_decide(
    program: Seq<char>,
    args: Seq<Seq<char>>,
    success: bool,
    status: Seq<char>,
    out: Seq<char>,
    err: Seq<char>,
)
    ensures
        command_end(program, args, success, status) is Ok <==> success,
        listing_end(program, args, success, status, out, err) is Ok <==> success,
        success ==> listing_end(program, args, success, status, out, err) == Ok::<
            Seq<char>,
            Seq<char>,
        >(out),
        script_end(success, err) is Ok <==> success,
        !success ==> has_text(command_end(program, args, success, status)->Err_0, program),
        !success ==> has_text(command_end(program, args, success, status)->Err_0, status),
{
    if !success {
        let text = command_end(program, args, success, status)->Err_0;
        let head = "command failed: "@;
        assert(text.subrange(head.len() as int, head.len() as int + program.len()) =~= program);
        assert(occurs_at(text, program, head.len() as int));
        let at = text.len() - status.len();
        assert(text.subrange(at, at + status.len()) =~= status);
        assert(occurs_at(text, status, at));
    }
}

} // verus!
