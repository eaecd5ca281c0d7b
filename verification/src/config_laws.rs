use vstd::prelude::*;
use crate::config::{
    alias_form_fault, alias_owner, allowed_fault, allowed_place, allowed_protocols_fault,
    doh_port_fault, is_probe_key, last_worker, named_payload_fault, named_payloads_fault,
    param_fault, params_fault, workers_fault, AllowedCombination, AppConfig, DnsConfig,
    NamedPayload, ProbeConfig, ProtocolProbeConfig, StrategyCombinationConfig, StrategyValuesConfig,
    WorkersConfig,
};
use crate::fault::{fault_if, first_fault, first_fault_none, quoted};
use crate::isolation::{fwmark_of, mark_value};
use crate::isolation_laws::modes_have_their_words;
use crate::number::dec;
use crate::target_laws::configured_words_have_no_case;
use crate::text::{lowered, texts, uppered};

verus! {

// ---------------------------------------------------------------------------
// The sections of a configuration

/// Nothing is wrong with a list of checks if and only if nothing is wrong with any of them.
pub proof fn all_must_pass(s: Seq<Option<Seq<char>>>)
    ensures
        first_fault(s) is None <==> forall|i: int|
            0 <= i < s.len() ==> #[trigger] s[i] is None,
    decreases s.len(),
{
    if s.len() > 0 {
        let rest = s.drop_first();
        all_must_pass(rest);
        if first_fault(s) is None {
            assert forall|i: int| 0 <= i < s.len() implies #[trigger] s[i] is None by {
                if i > 0 {
                    assert(rest[i - 1] is None);
                    assert(rest[i - 1] == s[i]);
                }
            }
        }
        if forall|i: int| 0 <= i < s.len() ==> #[trigger] s[i] is None {
            first_fault_none(s);
        }
    }
}

proof fn protocol_keys_differ()
    ensures
        "http"@ != "tls12"@,
        "http"@ != "tls13"@,
        "http"@ != "quic"@,
        "tls12"@ != "tls13"@,
        "tls12"@ != "quic"@,
        "tls13"@ != "quic"@,
{
    reveal_strlit("http");
    reveal_strlit("tls12");
    reveal_strlit("tls13");
    reveal_strlit("quic");
    assert("http"@[0] != "quic"@[0]);
    assert("http"@.len() != "tls12"@.len());
    assert("http"@.len() != "tls13"@.len());
    assert("tls12"@[4] != "tls13"@[4]);
    assert("tls12"@.len() != "quic"@.len());
    assert("tls13"@.len() != "quic"@.len());
}

/// The choice of protocols passes if and only if the preferred one is a protocol that is
/// switched on.
pub proof fn preferred_protocol_must_be_on(p: ProtocolProbeConfig)
    ensures
        p.fault() is None <==> (p.preferred@ == "http"@ && p.http) || (p.preferred@ == "tls12"@
            && p.tls12) || (p.preferred@ == "tls13"@ && p.tls13) || (p.preferred@ == "quic"@
            && p.quic),
{
    protocol_keys_differ();
}

/// The workers pass if and only if there is one, both channels have room, and the last worker
/// has a queue.
pub proof fn workers_must_have_queues(w: WorkersConfig, queue_base: u16)
    ensures
        workers_fault(w, queue_base) is None <==> w.count > 0 && w.task_channel_size > 0
            && w.result_channel_size > 0 && queue_base + w.count - 1 <= 65535,
{
}

/// The isolation passes if and only if the mode is one, both marks can be read and are written
/// differently, and where workers are told apart by marks the map of marks and nftables are
/// used and the last worker's mark is not that of changed packets.
pub proof fn isolation_must_hold(c: AppConfig)
    ensures
        c.isolation_fault() is None <==> {
            let i = c.isolation;
            &&& i.mode@ == "source_port"@ || i.mode@ == "fwmark"@
            &&& mark_value(i.mark_base@) is Ok
            &&& mark_value(i.desync_mark@) is Ok
            &&& i.mark_base@ != i.desync_mark@
            &&& i.mode@ == "fwmark"@ ==> i.use_nft_vmap && c.firewall.backend@ == "nftables"@
                && fwmark_of(mark_value(i.mark_base@)->Ok_0, last_worker(c.workers.count) as usize)
                != mark_value(i.desync_mark@)->Ok_0
        },
{
    modes_have_their_words(c.isolation.mode@);
    reveal_strlit("source_port");
    reveal_strlit("fwmark");
    assert("source_port"@.len() != "fwmark"@.len());
}

/// The probe passes if and only if its backend, its method and how much it reads are each one
/// of those that there are, the least body fits in what is read, and there is a test.
pub proof fn probe_must_be_possible(p: ProbeConfig)
    ensures
        p.fault() is None <==> {
            &&& p.backend@ == "native"@ || p.backend@ == "curl"@
            &&& lowered(p.method@) == "get"@ || lowered(p.method@) == "head"@
            &&& uppered(p.read_mode@) == "HEADERS"@ || uppered(p.read_mode@) == "BODY"@ || uppered(
                p.read_mode@,
            ) == "FULL"@
            &&& p.min_body_bytes <= p.max_read_bytes
            &&& p.test_count > 0
        },
{
    configured_words_have_no_case(p.method@);
    configured_words_have_no_case(p.read_mode@);
}

/// The lookup of addresses passes if and only if it is over HTTPS, every server is named by its
/// address and the port of HTTPS, and the host and the path are ones.
pub proof fn lookups_must_be_possible(d: DnsConfig, ports: Seq<Option<u16>>)
    ensures
        d.fault(ports) is None <==> {
            &&& d.mode@ == "doh"@
            &&& forall|i: int| 0 <= i < ports.len() ==> #[trigger] ports[i] == Some(443u16)
            &&& d.doh_host@.len() > 0 && !d.doh_host@.contains(':') && !d.doh_host@.contains('/')
            &&& d.doh_path@.len() > 0 && d.doh_path@[0] == '/'
        },
{
    let faults = Seq::new(ports.len(), |i: int| doh_port_fault(ports[i]));
    all_must_pass(faults);
    if forall|i: int| 0 <= i < ports.len() ==> #[trigger] ports[i] == Some(443u16) {
        assert forall|i: int| 0 <= i < faults.len() implies #[trigger] faults[i] is None by {
            assert(ports[i] == Some(443u16));
        }
    }
    if forall|i: int| 0 <= i < faults.len() ==> #[trigger] faults[i] is None {
        assert forall|i: int| 0 <= i < ports.len() implies #[trigger] ports[i] == Some(443u16) by {
            assert(faults[i] is None);
        }
    }
}

/// The modes pass if and only if the firewall, its hook and the search are each one of those
/// that there are, and no rules are kept that are cleaned up.
pub proof fn modes_must_be_known(c: AppConfig)
    ensures
        c.mode_fault() is None <==> {
            &&& c.firewall.backend@ == "nftables"@ || c.firewall.backend@ == "iptables"@
            &&& c.firewall.hook@ == "output"@ || c.firewall.hook@ == "postrouting"@
            &&& !(c.debug.keep_rules_on_failure && c.firewall.cleanup_on_exit)
            &&& c.strategies.search_mode@ == "signal"@ || c.strategies.search_mode@ == "expand"@
                || c.strategies.search_mode@ == "force"@
        },
{
}

// ---------------------------------------------------------------------------
// Payloads

/// The alias is not empty and made of ASCII letters, digits and underscores.
pub open spec fn is_alias(s: Seq<char>) -> bool {
    s.len() > 0 && forall|i: int|
        0 <= i < s.len() ==> 'a' <= #[trigger] s[i] <= 'z' || 'A' <= s[i] <= 'Z' || '0' <= s[i]
            <= '9' || s[i] == '_'
}

/// No two of the payloads go by one alias; each has one, which is well formed and none of the
/// builtin ones.
pub open spec fn aliases_are_fit(s: Seq<NamedPayload>) -> bool {
    &&& forall|i: int|
        0 <= i < s.len() ==> (#[trigger] s[i]).alias is Some && is_alias(s[i].alias->0)
            && s[i].alias->0 != "fake_default_http"@ && s[i].alias->0 != "fake_default_tls"@
            && s[i].alias->0 != "fake_default_quic"@
    &&& forall|i: int, j: int|
        0 <= i < j < s.len() ==> (#[trigger] s[i]).alias != (#[trigger] s[j]).alias
}

proof fn owners_are_before(s: Seq<NamedPayload>, alias: Seq<char>)
    ensures
        alias_owner(s, alias) is None <==> forall|j: int|
            0 <= j < s.len() ==> (#[trigger] s[j]).alias != Some(alias),
    decreases s.len(),
{
    if s.len() > 0 {
        let init = s.drop_last();
        owners_are_before(init, alias);
        assert(s[s.len() - 1] == s.last());
        assert(forall|j: int| 0 <= j < init.len() ==> #[trigger] init[j] == s[j]);
        assert(forall|j: int| #![trigger s[j]] 0 <= j < init.len() ==> init[j] == s[j]);
    }
}

/// The aliases of the payloads pass if and only if each is well formed, taken by no builtin
/// payload, and taken once.
pub proof fn aliases_must_be_fit(s: Seq<NamedPayload>)
    ensures
        named_payloads_fault(s) is None <==> aliases_are_fit(s),
{
    let faults = Seq::new(s.len(), |i: int| named_payload_fault(s, i));
    all_must_pass(faults);
    assert forall|i: int| 0 <= i < s.len() implies (#[trigger] faults[i] is None <==> s[i].alias
        is Some && is_alias(s[i].alias->0) && s[i].alias->0 != "fake_default_http"@
        && s[i].alias->0 != "fake_default_tls"@ && s[i].alias->0 != "fake_default_quic"@ && forall|
        j: int,
    |
        0 <= j < i ==> (#[trigger] s[j]).alias != s[i].alias) by {
        if let Some(alias) = s[i].alias {
            let before = s.take(i);
            owners_are_before(before, alias);
            assert(forall|j: int| 0 <= j < i ==> #[trigger] before[j] == s[j]);
            assert(forall|j: int| #![trigger s[j]] 0 <= j < i ==> before[j] == s[j]);
            assert(alias_form_fault(alias) is None <==> is_alias(alias));
        }
    }
    if aliases_are_fit(s) {
        assert forall|i: int| 0 <= i < faults.len() implies #[trigger] faults[i] is None by {
            assert(s[i].alias is Some);
        }
    }
    if forall|i: int| 0 <= i < faults.len() ==> #[trigger] faults[i] is None {
        assert forall|i: int| 0 <= i < s.len() implies (#[trigger] s[i]).alias is Some && is_alias(
            s[i].alias->0,
        ) && s[i].alias->0 != "fake_default_http"@ && s[i].alias->0 != "fake_default_tls"@
            && s[i].alias->0 != "fake_default_quic"@ by {
            assert(faults[i] is None);
        }
        assert forall|i: int, j: int| 0 <= i < j < s.len() implies (#[trigger] s[i]).alias != (
        #[trigger] s[j]).alias by {
            assert(faults[j] is None);
        }
    }
}

/// The payloads pass if and only if some are allowed, no protocol has more of them than are
/// allowed, a directory is named where files are to be found, and the aliases are fit.
pub proof fn payloads_must_be_fit(c: AppConfig)
    ensures
        c.payloads_fault() is None <==> {
            let p = c.payloads;
            &&& p.max_per_protocol > 0
            &&& c.blobs.auto_load ==> c.blobs.base_dir is Some
            &&& aliases_are_fit(p.named())
            &&& p.http.files@.len() + p.http.aliases@.len() <= p.max_per_protocol
            &&& p.tls.files@.len() + p.tls.aliases@.len() <= p.max_per_protocol
            &&& p.quic.files@.len() + p.quic.aliases@.len() <= p.max_per_protocol
        },
{
    aliases_must_be_fit(c.payloads.named());
}

// ---------------------------------------------------------------------------
// Values and combinations

/// Every parameter has a name, and none of the values is empty.
pub open spec fn values_are_fit(s: Seq<(Seq<char>, Vec<String>)>) -> bool {
    forall|i: int|
        0 <= i < s.len() ==> (#[trigger] s[i]).0.len() > 0 && forall|k: int|
            0 <= k < s[i].1@.len() ==> (#[trigger] s[i].1@[k])@.len() > 0
}

proof fn params_must_be_fit(protocol: Seq<char>, s: Seq<(Seq<char>, Vec<String>)>)
    ensures
        params_fault(protocol, s) is None <==> values_are_fit(s),
{
    let faults = Seq::new(s.len(), |i: int| param_fault(protocol, s[i].0, texts(s[i].1@)));
    all_must_pass(faults);
    assert forall|i: int| 0 <= i < s.len() implies (#[trigger] faults[i] is None <==> s[i].0.len()
        > 0 && forall|k: int| 0 <= k < s[i].1@.len() ==> (#[trigger] s[i].1@[k])@.len() > 0) by {
        param_must_be_fit(protocol, s[i].0, s[i].1@);
    }
    if values_are_fit(s) {
        assert forall|i: int| 0 <= i < faults.len() implies #[trigger] faults[i] is None by {
            assert(s[i].0.len() > 0);
        }
    }
    if forall|i: int| 0 <= i < faults.len() ==> #[trigger] faults[i] is None {
        assert forall|i: int| 0 <= i < s.len() implies (#[trigger] s[i]).0.len() > 0 && forall|
            k: int,
        | 0 <= k < s[i].1@.len() ==> (#[trigger] s[i].1@[k])@.len() > 0 by {
            assert(faults[i] is None);
        }
    }
}

proof fn param_must_be_fit(protocol: Seq<char>, param: Seq<char>, values: Seq<String>)
    ensures
        param_fault(protocol, param, texts(values)) is None <==> param.len() > 0 && forall|k: int|
            0 <= k < values.len() ==> (#[trigger] values[k])@.len() > 0,
{
    let names = texts(values);
    let faults = Seq::new(
        names.len(),
        |i: int|
            fault_if(
                names[i].len() == 0,
                "strategy_values."@ + protocol + "."@ + param + "["@ + dec(i as nat)
                    + "] must not be an empty string"@,
            ),
    );
    all_must_pass(faults);
    assert forall|k: int| 0 <= k < values.len() implies (#[trigger] faults[k] is None
        <==> values[k]@.len() > 0) by {
        assert(names[k] == values[k]@);
    }
    if param.len() > 0 {
        assert(param_fault(protocol, param, names) == first_fault(faults));
    }
    if forall|k: int| 0 <= k < values.len() ==> (#[trigger] values[k])@.len() > 0 {
        assert forall|k: int| 0 <= k < faults.len() implies #[trigger] faults[k] is None by {
            assert(values[k]@.len() > 0);
        }
    }
    if forall|k: int| 0 <= k < faults.len() ==> #[trigger] faults[k] is None {
        assert forall|k: int| 0 <= k < values.len() implies (#[trigger] values[k])@.len() > 0 by {
            assert(faults[k] is None);
        }
    }
}

/// The values pass if and only if their mode is one of the two, every parameter has a name and
/// no value is empty.
pub proof fn values_must_be_fit(v: StrategyValuesConfig)
    ensures
        v.fault() is None <==> (v.mode@ == "extend"@ || v.mode@ == "override"@) && values_are_fit(
            v.http@,
        ) && values_are_fit(v.tls@) && values_are_fit(v.quic@),
{
    params_must_be_fit("http"@, v.http@);
    params_must_be_fit("tls"@, v.tls@);
    params_must_be_fit("quic"@, v.quic@);
}

/// The combination is of two families with names, different ones where they must be, under at
/// least one protocol.
pub open spec fn is_fit_pair(c: AllowedCombination, different: bool) -> bool {
    let f = texts(c.families@);
    let p = texts(c.protocols@);
    &&& p.len() > 0
    &&& forall|k: int|
        0 <= k < p.len() ==> #[trigger] p[k] == "http"@ || p[k] == "tls12"@ || p[k] == "tls13"@
            || p[k] == "quic"@
    &&& f.len() == 2
    &&& f[0].len() > 0 && f[1].len() > 0
    &&& different ==> f[0] != f[1]
}

proof fn pair_must_be_fit(c: AllowedCombination, i: int, different: bool)
    ensures
        allowed_fault(c, i, different) is None <==> is_fit_pair(c, different),
{
    let p = texts(c.protocols@);
    let faults = Seq::new(
        p.len(),
        |k: int|
            fault_if(
                !is_probe_key(p[k]),
                allowed_place(i) + ".protocols contains unsupported protocol "@
                    + quoted(p[k]),
            ),
    );
    all_must_pass(faults);
    assert(allowed_protocols_fault(p, i) == first_fault(faults));
    assert forall|k: int| 0 <= k < p.len() implies (#[trigger] faults[k] is None <==> p[k]
        == "http"@ || p[k] == "tls12"@ || p[k] == "tls13"@ || p[k] == "quic"@) by {}
    if forall|k: int|
        0 <= k < p.len() ==> #[trigger] p[k] == "http"@ || p[k] == "tls12"@ || p[k] == "tls13"@
            || p[k] == "quic"@ {
        assert forall|k: int| 0 <= k < faults.len() implies #[trigger] faults[k] is None by {
            assert(p[k] == "http"@ || p[k] == "tls12"@ || p[k] == "tls13"@ || p[k] == "quic"@);
        }
    }
    if forall|k: int| 0 <= k < faults.len() ==> #[trigger] faults[k] is None {
        assert forall|k: int| 0 <= k < p.len() implies #[trigger] p[k] == "http"@ || p[k]
            == "tls12"@ || p[k] == "tls13"@ || p[k] == "quic"@ by {
            assert(faults[k] is None);
        }
    }
}

/// The combinations pass if and only if their mode is one of the three and every allowed one is
/// fit.
pub proof fn combinations_must_be_fit(c: StrategyCombinationConfig)
    ensures
        c.fault() is None <==> (c.mode@ == "pairwise"@ || c.mode@ == "best_with_variants"@
            || c.mode@ == "force"@) && forall|i: int|
            0 <= i < c.allowed@.len() ==> is_fit_pair(
                #[trigger] c.allowed@[i],
                c.require_different_family,
            ),
{
    let faults = Seq::new(
        c.allowed@.len(),
        |i: int| allowed_fault(c.allowed@[i], i, c.require_different_family),
    );
    all_must_pass(faults);
    assert forall|i: int| 0 <= i < c.allowed@.len() implies (#[trigger] faults[i] is None
        <==> is_fit_pair(c.allowed@[i], c.require_different_family)) by {
        pair_must_be_fit(c.allowed@[i], i, c.require_different_family);
    }
    if forall|i: int|
        0 <= i < c.allowed@.len() ==> is_fit_pair(
            #[trigger] c.allowed@[i],
            c.require_different_family,
        ) {
        assert forall|i: int| 0 <= i < faults.len() implies #[trigger] faults[i] is None by {
            assert(is_fit_pair(c.allowed@[i], c.require_different_family));
        }
    }
    if forall|i: int| 0 <= i < faults.len() ==> #[trigger] faults[i] is None {
        assert forall|i: int| 0 <= i < c.allowed@.len() implies is_fit_pair(
            #[trigger] c.allowed@[i],
            c.require_different_family,
        ) by {
            assert(faults[i] is None);
        }
    }
}

/// A configuration passes if and only if every section of it does and ports are assigned by
/// the system.
pub proof fn every_section_must_pass(c: AppConfig, ports: Seq<Option<u16>>)
    ensures
        c.fault(ports) is None <==> {
            &&& c.probe.protocols.fault() is None
            &&& workers_fault(c.workers, c.isolation.queue_base) is None
            &&& c.isolation_fault() is None
            &&& c.source_port.mode@ == "os_assigned"@
            &&& c.probe.fault() is None
            &&& c.probe.dns.fault(ports) is None
            &&& c.mode_fault() is None
            &&& c.payloads_fault() is None
            &&& c.strategy_values.fault() is None
            &&& c.strategy_combinations.fault() is None
        },
{
}

} // verus!
