use vstd::prelude::*;
use crate::nfqws::{list_text, render_list};
use crate::number::{dec, decimal, hex, hex_text, number_of, parse_number};
use crate::probe::{lossy, lossy_text};
use crate::text::{
    after_last, cat2, cat3, cat5, contains, has_text, join, joined, lines, lines_of,
    rest_after_last, str_eq, strings, take_all, take_next, texts, texts_push, trim, trimmed, words,
    words_of,
};
use crate::types::HostIp;
use crate::worker::WorkerAssignment;

verus! {

/// Why a firewall could not be changed.
#[derive(Debug)]
pub enum FirewallError {
    CommandFailed(String),
    Io(String),
}

impl FirewallError {
    /// The failure in words.
    pub open spec fn words(self) -> Seq<char> {
        match self {
            FirewallError::CommandFailed(e) => "command failed: "@ + e@,
            FirewallError::Io(e) => "io error: "@ + e@,
        }
    }

    /// The failure in words.
    pub fn message(&self) -> (r: String)
        ensures
            r@ == self.words(),
    {
        match self {
            FirewallError::CommandFailed(e) => cat2("command failed: ", e.as_str()),
            FirewallError::Io(e) => cat2("io error: ", e.as_str()),
        }
    }
}

/// A command that ended badly: what was run, and how it ended.
pub open spec fn command_text(program: Seq<char>, args: Seq<Seq<char>>, status: Seq<char>) -> Seq<
    char,
> {
    program + " "@ + list_text(args) + " -> "@ + status
}

/// A result with the failure in words.
pub open spec fn told<T>(r: Result<T, FirewallError>) -> Result<T, Seq<char>> {
    match r {
        Ok(v) => Ok(v),
        Err(e) => Err(e.words()),
    }
}

/// What came of a command that changes a firewall.
pub open spec fn command_end(
    program: Seq<char>,
    args: Seq<Seq<char>>,
    success: bool,
    status: Seq<char>,
) -> Result<(), Seq<char>> {
    if success {
        Ok(())
    } else {
        Err("command failed: "@ + command_text(program, args, status))
    }
}

/// What came of a command that lists rules: what it wrote, or how it failed.
pub open spec fn listing_end(
    program: Seq<char>,
    args: Seq<Seq<char>>,
    success: bool,
    status: Seq<char>,
    out: Seq<char>,
    err: Seq<char>,
) -> Result<Seq<char>, Seq<char>> {
    if success {
        Ok(out)
    } else {
        Err(
            "command failed: "@ + (command_text(program, args, status) + ", stderr="@ + trimmed(
                err,
            )),
        )
    }
}

/// What came of a script.
pub open spec fn script_end(success: bool, err: Seq<char>) -> Result<(), Seq<char>> {
    if success {
        Ok(())
    } else {
        Err("command failed: "@ + ("nft script failed: "@ + trimmed(err)))
    }
}

/// What came of a command that changes a firewall.
pub fn command_outcome(program: &str, args: &Vec<String>, success: bool, status: &str) -> (r: Result<
    (),
    FirewallError,
>)
    ensures
        told(r) == command_end(program@, texts(args@), success, status@),
{
    if success {
        return Ok(());
    }
    let text = cat5(program, " ", render_list(args).as_str(), " -> ", status);
    Err(FirewallError::CommandFailed(text))
}

/// What a command that lists rules has written.
pub fn listing_outcome(
    program: &str,
    args: &Vec<String>,
    success: bool,
    status: &str,
    stdout: &[u8],
    stderr: &[u8],
) -> (r: Result<String, FirewallError>)
    ensures
        match r {
            Ok(listing) => Ok::<Seq<char>, Seq<char>>(listing@),
            Err(e) => Err::<Seq<char>, Seq<char>>(e.words()),
        } == listing_end(
            program@,
            texts(args@),
            success,
            status@,
            lossy_text(stdout@),
            lossy_text(stderr@),
        ),
{
    if success {
        return Ok(lossy(stdout));
    }
    let mut text = cat5(program, " ", render_list(args).as_str(), " -> ", status);
    text.append(", stderr=");
    text.append(trim(lossy(stderr).as_str()).as_str());
    Err(FirewallError::CommandFailed(text))
}

/// What came of a script of commands.
pub fn script_outcome(success: bool, stderr: &[u8]) -> (r: Result<(), FirewallError>)
    ensures
        told(r) == script_end(success, lossy_text(stderr@)),
{
    if success {
        return Ok(());
    }
    Err(
        FirewallError::CommandFailed(
            cat2("nft script failed: ", trim(lossy(stderr).as_str()).as_str()),
        ),
    )
}

#[derive(Debug, Clone, Copy, PartialEq, Eq, Structural)]
pub enum L4Protocol {
    Tcp,
    Udp,
}

impl L4Protocol {
    /// The protocol as a rule writes it.
    pub open spec fn word(self) -> Seq<char> {
        match self {
            L4Protocol::Tcp => "tcp"@,
            L4Protocol::Udp => "udp"@,
        }
    }

    fn as_str(self) -> (r: &'static str)
        ensures
            r@ == self.word(),
    {
        match self {
            L4Protocol::Tcp => "tcp",
            L4Protocol::Udp => "udp",
        }
    }
}

/// Where packets pass the firewall.
#[derive(Debug, Clone, Copy, PartialEq, Eq, Structural)]
pub enum FirewallHook {
    Output,
    Postrouting,
}

impl FirewallHook {
    /// The chain as nftables writes it.
    pub open spec fn chain(self) -> Seq<char> {
        match self {
            FirewallHook::Output => "output"@,
            FirewallHook::Postrouting => "postrouting"@,
        }
    }

    /// The chain as iptables writes it.
    pub open spec fn upper_chain(self) -> Seq<char> {
        match self {
            FirewallHook::Output => "OUTPUT"@,
            FirewallHook::Postrouting => "POSTROUTING"@,
        }
    }

    fn chain_name(self) -> (r: &'static str)
        ensures
            r@ == self.chain(),
    {
        match self {
            FirewallHook::Output => "output",
            FirewallHook::Postrouting => "postrouting",
        }
    }

    fn upper_chain_name(self) -> (r: &'static str)
        ensures
            r@ == self.upper_chain(),
    {
        match self {
            FirewallHook::Output => "OUTPUT",
            FirewallHook::Postrouting => "POSTROUTING",
        }
    }
}

/// The hook that a configuration names: postrouting, or else output.
pub open spec fn hook_named(s: Seq<char>) -> FirewallHook {
    if s == "postrouting"@ {
        FirewallHook::Postrouting
    } else {
        FirewallHook::Output
    }
}

/// The hook that a configuration names.
pub fn parse_hook(s: &str) -> (r: FirewallHook)
    ensures
        r == hook_named(s@),
{
    if str_eq(s, "postrouting") {
        FirewallHook::Postrouting
    } else {
        FirewallHook::Output
    }
}

/// The rule that leads the packets of one connection into the queue of a worker.
#[derive(Debug)]
pub struct WorkerFirewallRule {
    pub worker_id: usize,
    pub qnum: u16,
    pub source_port: u16,
    pub target_ip: HostIp,
    pub target_port: u16,
    pub protocol: L4Protocol,
    pub hook: FirewallHook,
}

impl Clone for WorkerFirewallRule {
    fn clone(&self) -> (r: WorkerFirewallRule)
        ensures
            r == *self,
    {
        WorkerFirewallRule {
            worker_id: self.worker_id,
            qnum: self.qnum,
            source_port: self.source_port,
            target_ip: self.target_ip.clone(),
            target_port: self.target_port,
            protocol: self.protocol,
            hook: self.hook,
        }
    }
}

impl WorkerFirewallRule {
    /// How nftables calls addresses of the target's version.
    pub open spec fn ip_word(self) -> Seq<char> {
        if self.target_ip.is_ipv4 {
            "ip"@
        } else {
            "ip6"@
        }
    }

    fn ip_keyword(&self) -> (r: &'static str)
        ensures
            r@ == self.ip_word(),
    {
        if self.target_ip.is_ipv4 {
            "ip"
        } else {
            "ip6"
        }
    }
}

// ---------------------------------------------------------------------------
// Rules by nftables

/// A table of nftables with a chain of its own for the workers' rules.
#[derive(Debug)]
pub struct NftablesFirewallManager {
    pub table: String,
    pub hook: FirewallHook,
    pub priority: String,
    pub cleanup_on_start: bool,
}

/// The arguments that add a rule.
pub open spec fn nft_add_args(table: Seq<char>, rule: WorkerFirewallRule) -> Seq<Seq<char>> {
    seq![
        "add"@,
        "rule"@,
        "inet"@,
        table,
        rule.hook.chain(),
        rule.ip_word(),
        "daddr"@,
        rule.target_ip.text@,
        rule.protocol.word(),
        "sport"@,
        dec(rule.source_port as nat),
        rule.protocol.word(),
        "dport"@,
        dec(rule.target_port as nat),
        "queue"@,
        "num"@,
        dec(rule.qnum as nat),
        "bypass"@,
    ]
}

/// The arguments that delete a rule by its handle.
pub open spec fn nft_delete_args(table: Seq<char>, rule: WorkerFirewallRule, handle: u64) -> Seq<
    Seq<char>,
> {
    seq![
        "delete"@,
        "rule"@,
        "inet"@,
        table,
        rule.hook.chain(),
        "handle"@,
        dec(handle as nat),
    ]
}

/// The arguments that list the rules of a chain with their handles.
pub open spec fn nft_list_args(table: Seq<char>, hook: FirewallHook) -> Seq<Seq<char>> {
    seq!["-a"@, "list"@, "chain"@, "inet"@, table, hook.chain()]
}

/// The arguments that delete a table.
pub open spec fn nft_delete_table_args(table: Seq<char>) -> Seq<Seq<char>> {
    seq!["delete"@, "table"@, "inet"@, table]
}

/// The arguments that add a table.
pub open spec fn nft_add_table_args(table: Seq<char>) -> Seq<Seq<char>> {
    seq!["add"@, "table"@, "inet"@, table]
}

/// The arguments that add a chain.
pub open spec fn nft_add_chain_args(
    table: Seq<char>,
    hook: FirewallHook,
    priority: Seq<char>,
) -> Seq<Seq<char>> {
    seq![
        "add"@,
        "chain"@,
        "inet"@,
        table,
        hook.chain(),
        "{"@,
        "type"@,
        "filter"@,
        "hook"@,
        hook.chain(),
        "priority"@,
        priority,
        ";"@,
        "}"@,
    ]
}

impl NftablesFirewallManager {
    /// The arguments that add a rule.
    pub fn render_add_rule(&self, rule: &WorkerFirewallRule) -> (r: Vec<String>)
        ensures
            texts(r@) == nft_add_args(self.table@, *rule),
    {
        let source_port = decimal(rule.source_port as u64);
        let target_port = decimal(rule.target_port as u64);
        let qnum = decimal(rule.qnum as u64);
        let r = strings(
            &[
                "add",
                "rule",
                "inet",
                self.table.as_str(),
                rule.hook.chain_name(),
                rule.ip_keyword(),
                "daddr",
                rule.target_ip.text.as_str(),
                rule.protocol.as_str(),
                "sport",
                source_port.as_str(),
                rule.protocol.as_str(),
                "dport",
                target_port.as_str(),
                "queue",
                "num",
                qnum.as_str(),
                "bypass",
            ],
        );
        assert(texts(r@) =~= nft_add_args(self.table@, *rule));
        r
    }

    /// The arguments that delete a rule by its handle.
    pub fn render_delete_rule_by_handle(&self, rule: &WorkerFirewallRule, handle: u64) -> (r: Vec<
        String,
    >)
        ensures
            texts(r@) == nft_delete_args(self.table@, *rule, handle),
    {
        let handle_text = decimal(handle);
        let r = strings(
            &[
                "delete",
                "rule",
                "inet",
                self.table.as_str(),
                rule.hook.chain_name(),
                "handle",
                handle_text.as_str(),
            ],
        );
        assert(texts(r@) =~= nft_delete_args(self.table@, *rule, handle));
        r
    }

    /// The arguments that list the rules of a chain with their handles.
    pub fn render_list_chain(&self, hook: FirewallHook) -> (r: Vec<String>)
        ensures
            texts(r@) == nft_list_args(self.table@, hook),
    {
        let r = strings(
            &["-a", "list", "chain", "inet", self.table.as_str(), hook.chain_name()],
        );
        assert(texts(r@) =~= nft_list_args(self.table@, hook));
        r
    }

    /// The arguments that delete the table.
    pub fn render_delete_table(&self) -> (r: Vec<String>)
        ensures
            texts(r@) == nft_delete_table_args(self.table@),
    {
        delete_table_args(self.table.as_str())
    }

    /// The commands that make the table and its chain, one after another: where it is asked
    /// for, what an earlier run left is deleted first. A command that fails is passed over.
    pub fn render_setup(&self) -> (r: Vec<Vec<String>>)
        ensures
            arg_lists(r@) == setup_commands(*self),
    {
        let mut out: Vec<Vec<String>> = Vec::new();
        if self.cleanup_on_start {
            out.push(self.render_delete_table());
        }
        let table = strings(&["add", "table", "inet", self.table.as_str()]);
        assert(texts(table@) =~= nft_add_table_args(self.table@));
        out.push(table);
        let chain = strings(
            &[
                "add",
                "chain",
                "inet",
                self.table.as_str(),
                self.hook.chain_name(),
                "{",
                "type",
                "filter",
                "hook",
                self.hook.chain_name(),
                "priority",
                self.priority.as_str(),
                ";",
                "}",
            ],
        );
        assert(texts(chain@) =~= nft_add_chain_args(self.table@, self.hook, self.priority@));
        out.push(chain);
        assert(arg_lists(out@) =~= setup_commands(*self));
        out
    }

    /// The arguments that take a rule away, given the list of the rules of its chain; none
    /// where the rule is not among them.
    pub fn render_removal(&self, listing: &str, rule: &WorkerFirewallRule) -> (r: Option<
        Vec<String>,
    >)
        ensures
            match r {
                Some(args) => rule_handle(listing@, *rule) is Some && texts(args@)
                    == nft_delete_args(self.table@, *rule, rule_handle(listing@, *rule)->0),
                None => rule_handle(listing@, *rule) is None,
            },
    {
        match find_nft_rule_handle(listing, rule) {
            Some(handle) => Some(self.render_delete_rule_by_handle(rule, handle)),
            None => None,
        }
    }
}

/// Lists of arguments by their contents.
pub open spec fn arg_lists(s: Seq<Vec<String>>) -> Seq<Seq<Seq<char>>> {
    Seq::new(s.len(), |i: int| texts(s[i]@))
}

/// The commands that make the table and its chain.
pub open spec fn setup_commands(m: NftablesFirewallManager) -> Seq<Seq<Seq<char>>> {
    let made = seq![
        nft_add_table_args(m.table@),
        nft_add_chain_args(m.table@, m.hook, m.priority@),
    ];
    if m.cleanup_on_start {
        seq![nft_delete_table_args(m.table@)] + made
    } else {
        made
    }
}

fn delete_table_args(table: &str) -> (r: Vec<String>)
    ensures
        texts(r@) == nft_delete_table_args(table@),
{
    let r = strings(&["delete", "table", "inet", table]);
    assert(texts(r@) =~= nft_delete_table_args(table@));
    r
}

// ---------------------------------------------------------------------------
// Finding a rule

/// At position `i` stand the two words.
pub open spec fn pair_at(words: Seq<Seq<char>>, i: int, a: Seq<char>, b: Seq<char>) -> bool {
    0 <= i && i + 1 < words.len() && words[i] == a && words[i + 1] == b
}

/// At position `i` stand the three words.
pub open spec fn triple_at(
    words: Seq<Seq<char>>,
    i: int,
    a: Seq<char>,
    b: Seq<char>,
    c: Seq<char>,
) -> bool {
    0 <= i && i + 2 < words.len() && words[i] == a && words[i + 1] == b && words[i + 2] == c
}

/// The two words stand one behind the other.
pub open spec fn says_pair(words: Seq<Seq<char>>, a: Seq<char>, b: Seq<char>) -> bool {
    exists|i: int| #[trigger] pair_at(words, i, a, b)
}

/// The three words stand one behind the other.
pub open spec fn says_triple(
    words: Seq<Seq<char>>,
    a: Seq<char>,
    b: Seq<char>,
    c: Seq<char>,
) -> bool {
    exists|i: int| #[trigger] triple_at(words, i, a, b, c)
}

/// A line that lists the rule with its handle: word for word it has the address and the ports
/// of the rule, and the number of its queue.
pub open spec fn lists_rule(line: Seq<char>, rule: WorkerFirewallRule) -> bool {
    let said = words_of(line);
    let number = dec(rule.qnum as nat);
    &&& says_triple(said, rule.ip_word(), "daddr"@, rule.target_ip.text@)
    &&& says_triple(said, rule.protocol.word(), "sport"@, dec(rule.source_port as nat))
    &&& says_triple(said, rule.protocol.word(), "dport"@, dec(rule.target_port as nat))
    &&& said.contains("queue"@)
    &&& says_pair(said, "to"@, number) || says_pair(said, "num"@, number) || says_pair(
        said,
        "queue"@,
        number,
    )
    &&& has_text(line, "# handle "@)
}

/// The handle that a line ends with.
pub open spec fn line_handle(line: Seq<char>) -> Option<u64> {
    match after_last(line, "# handle "@) {
        None => None,
        Some(rest) => if words_of(rest).len() == 0 {
            None
        } else {
            match number_of(words_of(rest)[0], 10, u64::MAX as nat) {
                Ok(n) => Some(n as u64),
                Err(_) => None,
            }
        },
    }
}

/// The handle of the rule by the first of the lines that lists it.
pub open spec fn handle_among(lines: Seq<Seq<char>>, rule: WorkerFirewallRule) -> Option<u64>
    decreases lines.len(),
{
    if lines.len() == 0 {
        None
    } else if lists_rule(lines[0], rule) {
        line_handle(lines[0])
    } else {
        handle_among(lines.drop_first(), rule)
    }
}

/// The handle of the rule in a list of rules.
pub open spec fn rule_handle(listing: Seq<char>, rule: WorkerFirewallRule) -> Option<u64> {
    handle_among(lines_of(listing), rule)
}

fn has_word(said: &Vec<String>, a: &str) -> (r: bool)
    ensures
        r == texts(said@).contains(a@),
{
    let ghost all = texts(said@);
    let mut i: usize = 0;
    while i < said.len()
        invariant
            i <= said@.len(),
            all == texts(said@),
            forall|j: int| 0 <= j < i ==> #[trigger] all[j] != a@,
        decreases said@.len() - i,
    {
        assert(all[i as int] == said@[i as int]@);
        if str_eq(said[i].as_str(), a) {
            return true;
        }
        i = i + 1;
    }
    false
}

fn has_pair(said: &Vec<String>, a: &str, b: &str) -> (r: bool)
    ensures
        r == says_pair(texts(said@), a@, b@),
{
    let ghost all = texts(said@);
    let mut i: usize = 1;
    while i < said.len()
        invariant
            1 <= i,
            all == texts(said@),
            forall|j: int| j + 1 < i ==> !#[trigger] pair_at(all, j, a@, b@),
        decreases said@.len() - i,
    {
        assert(all[i - 1] == said@[i - 1]@ && all[i as int] == said@[i as int]@);
        if str_eq(said[i - 1].as_str(), a) && str_eq(said[i].as_str(), b) {
            assert(pair_at(all, i - 1, a@, b@));
            return true;
        }
        i = i + 1;
    }
    false
}

fn has_triple(said: &Vec<String>, a: &str, b: &str, c: &str) -> (r: bool)
    ensures
        r == says_triple(texts(said@), a@, b@, c@),
{
    let ghost all = texts(said@);
    let mut i: usize = 2;
    while i < said.len()
        invariant
            2 <= i,
            all == texts(said@),
            forall|j: int| j + 2 < i ==> !#[trigger] triple_at(all, j, a@, b@, c@),
        decreases said@.len() - i,
    {
        assert(all[i - 2] == said@[i - 2]@ && all[i - 1] == said@[i - 1]@ && all[i as int]
            == said@[i as int]@);
        if str_eq(said[i - 2].as_str(), a) && str_eq(said[i - 1].as_str(), b) && str_eq(
            said[i].as_str(),
            c,
        ) {
            assert(triple_at(all, i - 2, a@, b@, c@));
            return true;
        }
        i = i + 1;
    }
    false
}

fn line_lists_rule(line: &str, rule: &WorkerFirewallRule) -> (r: bool)
    ensures
        r == lists_rule(line@, *rule),
{
    let said = words(line);
    let protocol = rule.protocol.as_str();
    let source = decimal(rule.source_port as u64);
    let target = decimal(rule.target_port as u64);
    let number = decimal(rule.qnum as u64);
    has_triple(&said, rule.ip_keyword(), "daddr", rule.target_ip.text.as_str()) && has_triple(
        &said,
        protocol,
        "sport",
        source.as_str(),
    ) && has_triple(&said, protocol, "dport", target.as_str()) && has_word(&said, "queue") && (
    has_pair(&said, "to", number.as_str()) || has_pair(&said, "num", number.as_str()) || has_pair(
        &said,
        "queue",
        number.as_str(),
    )) && contains(line, "# handle ")
}

fn read_handle(line: &str) -> (r: Option<u64>)
    ensures
        r == line_handle(line@),
{
    match rest_after_last(line, "# handle ") {
        None => None,
        Some(rest) => {
            let parts = words(rest.as_str());
            assert(texts(parts@).len() == parts@.len());
            if parts.len() == 0 {
                None
            } else {
                assert(texts(parts@)[0] == parts@[0]@);
                match parse_number(parts[0].as_str(), 10, u64::MAX) {
                    Ok(n) => Some(n),
                    Err(_) => None,
                }
            }
        },
    }
}

/// The handle of the rule in a list of rules.
pub fn find_nft_rule_handle(output: &str, rule: &WorkerFirewallRule) -> (r: Option<u64>)
    ensures
        r == rule_handle(output@, *rule),
{
    let all = lines(output);
    let ghost models = texts(all@);
    let mut i: usize = 0;
    assert(models.skip(0) =~= models);
    while i < all.len()
        invariant
            i <= all@.len(),
            models == texts(all@),
            models == lines_of(output@),
            handle_among(models.skip(i as int), *rule) == handle_among(models, *rule),
        decreases all@.len() - i,
    {
        assert(models.skip(i as int).drop_first() =~= models.skip(i + 1));
        assert(models.skip(i as int)[0] == models[i as int]);
        if line_lists_rule(all[i].as_str(), rule) {
            return read_handle(all[i].as_str());
        }
        i = i + 1;
    }
    None
}

// ---------------------------------------------------------------------------
// Queues by marks

/// A table of nftables that leads packets into queues by their marks.
#[derive(Debug)]
pub struct NftablesVmapFirewallManager {
    pub table: String,
    pub hook: FirewallHook,
    pub priority: String,
    pub cleanup_on_start: bool,
    pub desync_mark: u32,
    pub assignments: Vec<WorkerAssignment>,
}

/// The lines that lead marks into queues: one for each worker with a mark.
pub open spec fn mark_lines(s: Seq<WorkerAssignment>) -> Seq<Seq<char>>
    decreases s.len(),
{
    if s.len() == 0 {
        Seq::empty()
    } else {
        match s.last().fwmark {
            Some(mark) => mark_lines(s.drop_last()).push(
                "            "@ + hex_text(mark as nat) + " : queue num "@ + dec(
                    s.last().qnum as nat,
                ) + " bypass,"@,
            ),
            None => mark_lines(s.drop_last()),
        }
    }
}

/// The script that makes the table: the map from marks to queues for packets and for
/// connections, the chain in which changed packets pass and marked ones are led into their
/// queues, and the chain for what comes back.
pub open spec fn vmap_script(m: NftablesVmapFirewallManager) -> Seq<char> {
    let elements = joined(mark_lines(m.assignments@), "\n"@);
    joined(
        seq![
            "table inet "@ + m.table@ + " {"@,
            "    map meta_mark_queue {"@,
            "        type mark : meta mark;"@,
            "        elements = {"@,
            elements,
            "        };"@,
            "    }"@,
            ""@,
            "    map ct_mark_queue {"@,
            "        type mark : meta mark;"@,
            "        elements = {"@,
            elements,
            "        };"@,
            "    }"@,
            ""@,
            "    chain "@ + m.hook.chain() + " {"@,
            "        type filter hook "@ + m.hook.chain() + " priority "@ + m.priority@
                + "; policy accept;"@,
            "        meta mark "@ + hex_text(m.desync_mark as nat)
                + " notrack counter accept comment \"desync bypass\";"@,
            "        meta mark vmap @meta_mark_queue"@,
            "        ct mark set meta mark"@,
            "        ct mark vmap @ct_mark_queue"@,
            "    }"@,
            ""@,
            "    chain input {"@,
            "        type filter hook input priority "@ + m.priority@ + "; policy accept;"@,
            "        ct mark vmap @ct_mark_queue"@,
            "    }"@,
            "}"@,
        ],
        "\n"@,
    )
}

fn render_mark_lines(s: &Vec<WorkerAssignment>) -> (r: Vec<String>)
    ensures
        texts(r@) == mark_lines(s@),
{
    let mut out: Vec<String> = Vec::new();
    let mut i: usize = 0;
    proof {
        take_all(s@);
        assert(texts(out@) =~= Seq::empty());
    }
    while i < s.len()
        invariant
            i <= s@.len(),
            texts(out@) == mark_lines(s@.take(i as int)),
        decreases s@.len() - i,
    {
        proof {
            take_next(s@, i as int);
        }
        if let Some(mark) = s[i].fwmark {
            let line = cat5(
                "            ",
                hex(mark as u64).as_str(),
                " : queue num ",
                decimal(s[i].qnum as u64).as_str(),
                " bypass,",
            );
            proof {
                texts_push(out@, line);
            }
            out.push(line);
        }
        i = i + 1;
    }
    proof {
        take_all(s@);
    }
    out
}

impl NftablesVmapFirewallManager {
    /// The script that makes the table.
    pub fn render_setup_script(&self) -> (r: String)
        ensures
            r@ == vmap_script(*self),
    {
        let elements = join(&render_mark_lines(&self.assignments), "\n");
        let chain = self.hook.chain_name();
        let head = cat3("table inet ", self.table.as_str(), " {");
        let chain_head = cat3("    chain ", chain, " {");
        let chain_type = cat5(
            "        type filter hook ",
            chain,
            " priority ",
            self.priority.as_str(),
            "; policy accept;",
        );
        let bypass = cat3(
            "        meta mark ",
            hex(self.desync_mark as u64).as_str(),
            " notrack counter accept comment \"desync bypass\";",
        );
        let input_type = cat3(
            "        type filter hook input priority ",
            self.priority.as_str(),
            "; policy accept;",
        );
        let all = strings(
            &[
                head.as_str(),
                "    map meta_mark_queue {",
                "        type mark : meta mark;",
                "        elements = {",
                elements.as_str(),
                "        };",
                "    }",
                "",
                "    map ct_mark_queue {",
                "        type mark : meta mark;",
                "        elements = {",
                elements.as_str(),
                "        };",
                "    }",
                "",
                chain_head.as_str(),
                chain_type.as_str(),
                bypass.as_str(),
                "        meta mark vmap @meta_mark_queue",
                "        ct mark set meta mark",
                "        ct mark vmap @ct_mark_queue",
                "    }",
                "",
                "    chain input {",
                input_type.as_str(),
                "        ct mark vmap @ct_mark_queue",
                "    }",
                "}",
            ],
        );
        let ghost want = seq![
            head@,
            "    map meta_mark_queue {"@,
            "        type mark : meta mark;"@,
            "        elements = {"@,
            elements@,
            "        };"@,
            "    }"@,
            ""@,
            "    map ct_mark_queue {"@,
            "        type mark : meta mark;"@,
            "        elements = {"@,
            elements@,
            "        };"@,
            "    }"@,
            ""@,
            chain_head@,
            chain_type@,
            bypass@,
            "        meta mark vmap @meta_mark_queue"@,
            "        ct mark set meta mark"@,
            "        ct mark vmap @ct_mark_queue"@,
            "    }"@,
            ""@,
            "    chain input {"@,
            input_type@,
            "        ct mark vmap @ct_mark_queue"@,
            "    }"@,
            "}"@,
        ];
        assert(texts(all@) =~= want);
        join(&all, "\n")
    }

    /// The arguments that delete the table.
    pub fn render_delete_table(&self) -> (r: Vec<String>)
        ensures
            texts(r@) == nft_delete_table_args(self.table@),
    {
        delete_table_args(self.table.as_str())
    }
}

// ---------------------------------------------------------------------------
// Rules by iptables

#[derive(Debug)]
pub struct IptablesFirewallManager;

/// The program that changes rules for the version of the target's address.
pub open spec fn iptables_program(rule: WorkerFirewallRule) -> Seq<char> {
    if rule.target_ip.is_ipv4 {
        "iptables"@
    } else {
        "ip6tables"@
    }
}

/// The arguments that add a rule, or with `-D` for `-A` delete it.
pub open spec fn iptables_args(operation: Seq<char>, rule: WorkerFirewallRule) -> Seq<Seq<char>> {
    seq![
        "-t"@,
        "mangle"@,
        operation,
        rule.hook.upper_chain(),
        "-p"@,
        rule.protocol.word(),
        "-d"@,
        rule.target_ip.text@,
        "--sport"@,
        dec(rule.source_port as nat),
        "--dport"@,
        dec(rule.target_port as nat),
        "-j"@,
        "NFQUEUE"@,
        "--queue-num"@,
        dec(rule.qnum as nat),
        "--queue-bypass"@,
    ]
}

fn iptables_rule(operation: &str, rule: &WorkerFirewallRule) -> (r: Vec<String>)
    ensures
        texts(r@) == iptables_args(operation@, *rule),
{
    let source_port = decimal(rule.source_port as u64);
    let target_port = decimal(rule.target_port as u64);
    let qnum = decimal(rule.qnum as u64);
    let r = strings(
        &[
            "-t",
            "mangle",
            operation,
            rule.hook.upper_chain_name(),
            "-p",
            rule.protocol.as_str(),
            "-d",
            rule.target_ip.text.as_str(),
            "--sport",
            source_port.as_str(),
            "--dport",
            target_port.as_str(),
            "-j",
            "NFQUEUE",
            "--queue-num",
            qnum.as_str(),
            "--queue-bypass",
        ],
    );
    assert(texts(r@) =~= iptables_args(operation@, *rule));
    r
}

impl IptablesFirewallManager {
    /// The arguments that add a rule.
    pub fn render_add_rule(&self, rule: &WorkerFirewallRule) -> (r: Vec<String>)
        ensures
            texts(r@) == iptables_args("-A"@, *rule),
    {
        iptables_rule("-A", rule)
    }

    /// The arguments that delete a rule.
    pub fn render_delete_rule(&self, rule: &WorkerFirewallRule) -> (r: Vec<String>)
        ensures
            texts(r@) == iptables_args("-D"@, *rule),
    {
        iptables_rule("-D", rule)
    }

    /// The program that changes rules for the version of the target's address.
    pub fn binary(&self, rule: &WorkerFirewallRule) -> (r: &'static str)
        ensures
            r@ == iptables_program(*rule),
    {
        if rule.target_ip.is_ipv4 {
            "iptables"
        } else {
            "ip6tables"
        }
    }
}

/// What deletes a rule is what added it, but for the operation.
pub proof fn iptables_delete_mirrors_add(rule: WorkerFirewallRule)
    ensures
        iptables_args("-D"@, rule) == iptables_args("-A"@, rule).update(2, "-D"@),
{
    assert(iptables_args("-D"@, rule) =~= iptables_args("-A"@, rule).update(2, "-D"@));
}

} // verus!
