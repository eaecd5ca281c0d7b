use vstd::prelude::*;
use crate::config::{
    group_of, is_builtin_alias, BlobConfig, DnsConfig, PayloadConfig, PayloadProtocolConfig,
    ProtocolGroup, StrategyValuesConfig,
};
use crate::map::{
    ascending, unique_sorted_members, value_at, with_entry, with_entry_ascending, with_entry_value,
};
use crate::order::before;
use crate::path::{extension_of, file_name_of, file_stem_of, parent_of, path_under, stem_of_name};
use crate::payload_registry::{
    alias_of_stem, aliased_files, are_aliases_of, blob_args, kind_of, listed_files, lowercased,
    payload_alias, payload_base, protocol_aliases, registry_of, squeezed, with_builtins, with_file,
    with_files, with_protocol, PathKind, PayloadAliases, PayloadModel, PayloadProtocol,
};
use crate::text::{
    is_alnum, last_at_unique, split_on, split_on_len, stripped_end, stripped_start, texts,
};
use crate::text_laws::{join_undoes_split, split_around, split_of_one_part};

verus! {

// ---------------------------------------------------------------------------
// Groups of protocols

/// The settings of a group are for its own keys: TLS for both of its versions and for itself,
/// the others for their one key. What is no key has no settings.
pub proof fn groups_have_their_keys(key: Seq<char>)
    ensures
        group_of(key) == Some(ProtocolGroup::Http) <==> key == "http"@,
        group_of(key) == Some(ProtocolGroup::Tls) <==> key == "tls12"@ || key == "tls13"@ || key
            == "tls"@,
        group_of(key) == Some(ProtocolGroup::Quic) <==> key == "quic"@,
        group_of(key) is None <==> key != "http"@ && key != "tls12"@ && key != "tls13"@ && key
            != "tls"@ && key != "quic"@,
{
    reveal_strlit("http");
    reveal_strlit("tls12");
    reveal_strlit("tls13");
    reveal_strlit("tls");
    reveal_strlit("quic");
    assert("http"@[0] != "quic"@[0]);
    assert("http"@.len() != "tls12"@.len());
    assert("http"@.len() != "tls13"@.len());
    assert("http"@.len() != "tls"@.len());
    assert("quic"@.len() != "tls12"@.len());
    assert("quic"@.len() != "tls13"@.len());
    assert("quic"@.len() != "tls"@.len());
}

/// The aliases and the values for a key are those of its group.
pub proof fn keys_have_their_settings(
    aliases: PayloadAliases,
    values: StrategyValuesConfig,
    key: Seq<char>,
)
    ensures
        key == "http"@ ==> aliases.of_key(key) == texts(aliases.http@) && values.of_protocol(key)
            == values.http@,
        key == "tls12"@ || key == "tls13"@ ==> aliases.of_key(key) == texts(aliases.tls@)
            && values.of_protocol(key) == values.tls@,
        key == "quic"@ ==> aliases.of_key(key) == texts(aliases.quic@) && values.of_protocol(key)
            == values.quic@,
{
    groups_have_their_keys(key);
}

/// The servers that are asked are all those of the list, in its order, and the single one only
/// where the list is empty.
pub proof fn listed_servers_are_asked(d: DnsConfig)
    ensures
        d.doh_addrs@.len() > 0 ==> d.server_addrs() == texts(d.doh_addrs@),
        d.doh_addrs@.len() == 0 ==> d.server_addrs() == seq![d.doh_addr@],
        d.server_addrs().len() > 0,
{
}

// ---------------------------------------------------------------------------
// What the registry is used for

/// Every payload out of a file is handed over, under its alias and by its path; builtin ones
/// are not, and nothing else is.
pub proof fn file_payloads_are_handed_over(payloads: Seq<PayloadModel>, x: Seq<char>)
    ensures
        blob_args(payloads).contains(x) <==> exists|i: int|
            #![trigger payloads[i]]
            0 <= i < payloads.len() && !payloads[i].builtin && payloads[i].path is Some && x
                == "--blob="@ + payloads[i].alias + ":@"@ + payloads[i].path->0,
    decreases payloads.len(),
{
    if payloads.len() > 0 {
        let init = payloads.drop_last();
        let last = payloads.last();
        let before = blob_args(init);
        let all = blob_args(payloads);
        file_payloads_are_handed_over(init, x);
        assert(payloads[payloads.len() - 1] == last);
        assert(forall|i: int| 0 <= i < init.len() ==> #[trigger] init[i] == payloads[i]);
        assert(forall|i: int|
            #![trigger payloads[i]]
            0 <= i < init.len() ==> init[i] == payloads[i]);
        if !last.builtin && last.path is Some {
            let own = "--blob="@ + last.alias + ":@"@ + last.path->0;
            assert(all == before.push(own));
            pushed_member(before, own, x);
        }
    }
}

proof fn pushed_member(s: Seq<Seq<char>>, own: Seq<char>, x: Seq<char>)
    ensures
        s.push(own).contains(x) <==> s.contains(x) || x == own,
{
    let all = s.push(own);
    assert(all[s.len() as int] == own);
    if s.contains(x) {
        let k = choose|k: int| 0 <= k < s.len() && s[k] == x;
        assert(all[k] == x);
    }
    if all.contains(x) && x != own {
        let k = choose|k: int| 0 <= k < all.len() && all[k] == x;
        assert(s[k] == x);
    }
}

/// The aliases for a protocol are those of its payloads, all of them and no others.
pub proof fn aliases_are_those_of_the_protocol(
    payloads: Seq<PayloadModel>,
    protocol: PayloadProtocol,
    x: Seq<char>,
)
    ensures
        protocol_aliases(payloads, protocol).contains(x) <==> exists|i: int|
            #![trigger payloads[i]]
            0 <= i < payloads.len() && payloads[i].protocol == protocol && payloads[i].alias == x,
    decreases payloads.len(),
{
    if payloads.len() > 0 {
        let init = payloads.drop_last();
        let last = payloads.last();
        let before = protocol_aliases(init, protocol);
        aliases_are_those_of_the_protocol(init, protocol, x);
        assert(payloads[payloads.len() - 1] == last);
        assert(forall|i: int| 0 <= i < init.len() ==> #[trigger] init[i] == payloads[i]);
        assert(forall|i: int|
            #![trigger payloads[i]]
            0 <= i < init.len() ==> init[i] == payloads[i]);
        if last.protocol == protocol {
            pushed_member(before, last.alias, x);
        }
    }
}

// ---------------------------------------------------------------------------
// The registry

/// The files are looked for if and only if they shall be loaded, and then in the directory that
/// is named, which must be one.
pub proof fn files_are_loaded_from_their_directory(
    blobs: BlobConfig,
    disk: Seq<(Seq<char>, PathKind)>,
)
    ensures
        !blobs.auto_load ==> payload_base(blobs, disk) == Ok::<Option<Seq<char>>, Seq<char>>(None),
        blobs.auto_load ==> (payload_base(blobs, disk) is Ok <==> blobs.base_dir is Some
            && kind_of(disk, blobs.base_dir->0@) == PathKind::Directory),
        blobs.auto_load && payload_base(blobs, disk) is Ok ==> payload_base(blobs, disk) == Ok::<
            Option<Seq<char>>,
            Seq<char>,
        >(Some(blobs.base_dir->0@)),
{
}

/// The payload is in the registry for a reason: it is a builtin one that the configuration of
/// its protocol lists, or out of a file that is there, under an alias that is not reserved.
pub open spec fn has_reason(
    e: PayloadModel,
    payloads: PayloadConfig,
    disk: Seq<(Seq<char>, PathKind)>,
    loaded: bool,
) -> bool {
    let config = match e.protocol {
        PayloadProtocol::Http => payloads.http,
        PayloadProtocol::Tls => payloads.tls,
        PayloadProtocol::Quic => payloads.quic,
    };
    if e.builtin {
        e.path is None && texts(config.builtin@).contains(e.alias)
    } else {
        loaded && e.path is Some && kind_of(disk, e.path->0) == PathKind::File
            && !is_builtin_alias(e.alias)
    }
}

/// Every one of the payloads is there for a reason.
pub open spec fn all_have_reasons(
    r: Seq<PayloadModel>,
    payloads: PayloadConfig,
    disk: Seq<(Seq<char>, PathKind)>,
    loaded: bool,
) -> bool {
    forall|i: int| 0 <= i < r.len() ==> has_reason(#[trigger] r[i], payloads, disk, loaded)
}

/// The registry holds the payload.
pub open spec fn holds(r: Seq<PayloadModel>, e: PayloadModel) -> bool {
    exists|i: int| 0 <= i < r.len() && #[trigger] r[i] == e
}

proof fn pushing_holds(r: Seq<PayloadModel>, p: PayloadModel)
    ensures
        holds(r.push(p), p),
        forall|e: PayloadModel| holds(r, e) ==> #[trigger] holds(r.push(p), e),
{
    let q = r.push(p);
    assert(q[r.len() as int] == p);
    assert forall|e: PayloadModel| holds(r, e) implies #[trigger] holds(q, e) by {
        let i = choose|i: int| 0 <= i < r.len() && #[trigger] r[i] == e;
        assert(q[i] == e);
    }
}

spec fn config_of(payloads: PayloadConfig, protocol: PayloadProtocol) -> PayloadProtocolConfig {
    match protocol {
        PayloadProtocol::Http => payloads.http,
        PayloadProtocol::Tls => payloads.tls,
        PayloadProtocol::Quic => payloads.quic,
    }
}

proof fn builtins_have_reasons(
    r: Seq<PayloadModel>,
    protocol: PayloadProtocol,
    n: int,
    payloads: PayloadConfig,
    disk: Seq<(Seq<char>, PathKind)>,
    loaded: bool,
)
    requires
        all_have_reasons(r, payloads, disk, loaded),
        0 <= n <= texts(config_of(payloads, protocol).builtin@).len(),
    ensures
        with_builtins(
            r,
            protocol,
            texts(config_of(payloads, protocol).builtin@).take(n),
        ) matches Ok(q) ==> {
            &&& all_have_reasons(q, payloads, disk, loaded)
            &&& forall|e: PayloadModel| holds(r, e) ==> #[trigger] holds(q, e)
            &&& forall|k: int|
                0 <= k < n ==> holds(
                    q,
                    (PayloadModel {
                        protocol,
                        alias: #[trigger] texts(config_of(payloads, protocol).builtin@)[k],
                        path: None,
                        builtin: true,
                    }),
                )
        },
    decreases n,
{
    let all = texts(config_of(payloads, protocol).builtin@);
    let some = all.take(n);
    if n > 0 {
        let less = all.take(n - 1);
        assert(some.drop_last() =~= less);
        assert(some.last() == all[n - 1]);
        builtins_have_reasons(r, protocol, n - 1, payloads, disk, loaded);
        if let Ok(q) = with_builtins(r, protocol, less) {
            let p = PayloadModel { protocol, alias: all[n - 1], path: None, builtin: true };
            pushing_holds(q, p);
            assert(all.contains(all[n - 1]));
            if let Ok(next) = with_builtins(r, protocol, some) {
                assert(next == q.push(p));
                assert forall|i: int| 0 <= i < next.len() implies has_reason(
                    #[trigger] next[i],
                    payloads,
                    disk,
                    loaded,
                ) by {
                    if i < q.len() {
                        assert(next[i] == q[i]);
                    }
                }
                assert forall|e: PayloadModel| holds(r, e) implies #[trigger] holds(next, e) by {
                    assert(holds(q, e));
                }
                assert forall|k: int| 0 <= k < n implies holds(
                    next,
                    (PayloadModel {
                        protocol,
                        alias: #[trigger] all[k],
                        path: None,
                        builtin: true,
                    }),
                ) by {
                    if k < n - 1 {
                        assert(holds(
                            q,
                            (PayloadModel { protocol, alias: all[k], path: None, builtin: true }),
                        ));
                    }
                }
            }
        }
    } else {
        assert(some =~= Seq::empty());
    }
}

/// Each of the files is there, under an alias that is not reserved.
pub open spec fn files_are_there(
    files: Seq<(Seq<char>, Seq<char>)>,
    disk: Seq<(Seq<char>, PathKind)>,
) -> bool {
    forall|i: int|
        0 <= i < files.len() ==> kind_of(disk, (#[trigger] files[i]).1) == PathKind::File
            && !is_builtin_alias(files[i].0)
}

proof fn entry_is_there(
    files: Seq<(Seq<char>, Seq<char>)>,
    alias: Seq<char>,
    path: Seq<char>,
    disk: Seq<(Seq<char>, PathKind)>,
)
    requires
        files_are_there(files, disk),
    ensures
        with_file(files, alias, path, disk) matches Ok(r) ==> files_are_there(r, disk),
{
    if let Ok(r) = with_file(files, alias, path, disk) {
        entries_come_from(files, alias, path);
        assert forall|i: int| 0 <= i < r.len() implies kind_of(disk, (#[trigger] r[i]).1)
            == PathKind::File && !is_builtin_alias(r[i].0) by {
            if r[i] != (alias, path) {
                let k = choose|k: int| 0 <= k < files.len() && #[trigger] files[k] == r[i];
                assert(files[k] == r[i]);
            }
        }
    }
}

proof fn entries_come_from(
    files: Seq<(Seq<char>, Seq<char>)>,
    alias: Seq<char>,
    path: Seq<char>,
)
    ensures
        forall|i: int|
            0 <= i < with_entry(files, alias, path).len() ==> (#[trigger] with_entry(
                files,
                alias,
                path,
            )[i]) == (alias, path) || exists|k: int|
                0 <= k < files.len() && #[trigger] files[k] == with_entry(files, alias, path)[i],
    decreases files.len(),
{
    let r = with_entry(files, alias, path);
    if files.len() > 0 {
        let init = files.drop_last();
        let inner = with_entry(init, alias, path);
        entries_come_from(init, alias, path);
        assert(forall|k: int| 0 <= k < init.len() ==> #[trigger] init[k] == files[k]);
        assert(files[files.len() - 1] == files.last());
        assert forall|i: int| 0 <= i < r.len() implies (#[trigger] r[i]) == (alias, path) || exists|
            k: int,
        | 0 <= k < files.len() && #[trigger] files[k] == r[i] by {
            if files.last().0 == alias {
                if i < init.len() {
                    assert(r[i] == init[i]);
                    assert(files[i] == r[i]);
                }
            } else if before(files.last().0, alias) {
                if i < files.len() {
                    assert(files[i] == r[i]);
                }
            } else {
                if i < inner.len() {
                    assert(r[i] == inner[i]);
                    if inner[i] != (alias, path) {
                        let k = choose|k: int| 0 <= k < init.len()
                            && #[trigger] init[k] == inner[i];
                        assert(files[k] == r[i]);
                    }
                } else {
                    assert(files[files.len() - 1] == r[i]);
                }
            }
        }
    }
}

proof fn listed_files_are_there(
    files: Seq<Seq<char>>,
    base: Seq<char>,
    disk: Seq<(Seq<char>, PathKind)>,
)
    ensures
        listed_files(files, base, disk) matches Ok(r) ==> files_are_there(r, disk) && ascending(r),
    decreases files.len(),
{
    if files.len() > 0 {
        listed_files_are_there(files.drop_last(), base, disk);
        if let Ok(found) = listed_files(files.drop_last(), base, disk) {
            if let Ok(alias) = payload_alias(files.last()) {
                entry_is_there(found, alias, path_under(base, files.last()), disk);
                with_entry_ascending(found, alias, path_under(base, files.last()));
            }
        }
    }
}

proof fn aliased_files_are_there(
    found: Seq<(Seq<char>, Seq<char>)>,
    aliases: Seq<(Seq<char>, String)>,
    base: Seq<char>,
    disk: Seq<(Seq<char>, PathKind)>,
)
    requires
        files_are_there(found, disk),
        ascending(found),
    ensures
        aliased_files(found, aliases, base, disk) matches Ok(r) ==> {
            &&& files_are_there(r, disk)
            &&& ascending(r)
            &&& forall|k: int|
                0 <= k < aliases.len() && (forall|j: int|
                    k < j < aliases.len() ==> (#[trigger] aliases[j]).0 != aliases[k].0)
                    ==> value_at(r, (#[trigger] aliases[k]).0) == Some(
                    path_under(base, aliases[k].1@),
                )
        },
    decreases aliases.len(),
{
    if aliases.len() > 0 {
        let init = aliases.drop_last();
        let last = aliases.last();
        aliased_files_are_there(found, init, base, disk);
        assert(aliases[aliases.len() - 1] == last);
        assert(forall|k: int| 0 <= k < init.len() ==> #[trigger] init[k] == aliases[k]);
        if let Ok(files) = aliased_files(found, init, base, disk) {
            let path = path_under(base, last.1@);
            entry_is_there(files, last.0, path, disk);
            with_entry_ascending(files, last.0, path);
            if let Ok(r) = aliased_files(found, aliases, base, disk) {
                assert(r == with_entry(files, last.0, path));
                assert forall|k: int|
                    0 <= k < aliases.len() && (forall|j: int|
                        k < j < aliases.len() ==> (#[trigger] aliases[j]).0
                            != aliases[k].0) implies value_at(r, (#[trigger] aliases[k]).0)
                    == Some(path_under(base, aliases[k].1@)) by {
                    with_entry_value(files, last.0, path, aliases[k].0);
                    if k < init.len() {
                        assert(aliases[aliases.len() - 1].0 != aliases[k].0);
                        assert(init[k] == aliases[k]);
                        assert forall|j: int| k < j < init.len() implies (#[trigger] init[j]).0
                            != init[k].0 by {
                            assert(aliases[j].0 != aliases[k].0);
                        }
                    }
                }
            }
        }
    }
}

proof fn files_have_reasons(
    r: Seq<PayloadModel>,
    protocol: PayloadProtocol,
    files: Seq<(Seq<char>, Seq<char>)>,
    payloads: PayloadConfig,
    disk: Seq<(Seq<char>, PathKind)>,
)
    requires
        all_have_reasons(r, payloads, disk, true),
        files_are_there(files, disk),
    ensures
        with_files(r, protocol, files) matches Ok(q) ==> {
            &&& all_have_reasons(q, payloads, disk, true)
            &&& forall|e: PayloadModel| holds(r, e) ==> #[trigger] holds(q, e)
            &&& forall|k: int|
                0 <= k < files.len() ==> holds(
                    q,
                    (PayloadModel {
                        protocol,
                        alias: (#[trigger] files[k]).0,
                        path: Some(files[k].1),
                        builtin: false,
                    }),
                )
        },
    decreases files.len(),
{
    if files.len() > 0 {
        let init = files.drop_last();
        let last = files.last();
        assert(files[files.len() - 1] == last);
        assert(forall|k: int| 0 <= k < init.len() ==> #[trigger] init[k] == files[k]);
        files_have_reasons(r, protocol, init, payloads, disk);
        if let Ok(q) = with_files(r, protocol, init) {
            let p = PayloadModel {
                protocol,
                alias: last.0,
                path: Some(last.1),
                builtin: false,
            };
            pushing_holds(q, p);
            if let Ok(next) = with_files(r, protocol, files) {
                assert(next == q.push(p));
                assert forall|i: int| 0 <= i < next.len() implies has_reason(
                    #[trigger] next[i],
                    payloads,
                    disk,
                    true,
                ) by {
                    if i < q.len() {
                        assert(next[i] == q[i]);
                    }
                }
                assert forall|e: PayloadModel| holds(r, e) implies #[trigger] holds(next, e) by {
                    assert(holds(q, e));
                }
                assert forall|k: int| 0 <= k < files.len() implies holds(
                    next,
                    (PayloadModel {
                        protocol,
                        alias: (#[trigger] files[k]).0,
                        path: Some(files[k].1),
                        builtin: false,
                    }),
                ) by {
                    if k < init.len() {
                        assert(init[k] == files[k]);
                        assert(holds(
                            q,
                            (PayloadModel {
                                protocol,
                                alias: init[k].0,
                                path: Some(init[k].1),
                                builtin: false,
                            }),
                        ));
                    }
                }
            }
        }
    }
}

proof fn value_is_an_entry(s: Seq<(Seq<char>, Seq<char>)>, key: Seq<char>)
    ensures
        value_at(s, key) matches Some(v) ==> exists|i: int|
            0 <= i < s.len() && #[trigger] s[i] == (key, v),
    decreases s.len(),
{
    if s.len() > 0 {
        if s.last().0 == key {
            assert(s[s.len() - 1] == (key, s.last().1));
        } else {
            value_is_an_entry(s.drop_last(), key);
            if let Some(v) = value_at(s.drop_last(), key) {
                let i = choose|i: int|
                    0 <= i < s.drop_last().len() && #[trigger] s.drop_last()[i] == (key, v);
                assert(s[i] == (key, v));
            }
        }
    }
}

/// The registry has what the configuration of the protocol lists: every builtin payload, and
/// where files are loaded every file under a chosen alias, at its path under the directory.
pub open spec fn has_listed(
    r: Seq<PayloadModel>,
    protocol: PayloadProtocol,
    config: PayloadProtocolConfig,
    base: Option<Seq<char>>,
) -> bool {
    &&& forall|k: int|
        0 <= k < config.builtin@.len() ==> holds(
            r,
            (PayloadModel {
                protocol,
                alias: (#[trigger] config.builtin@[k])@,
                path: None,
                builtin: true,
            }),
        )
    &&& base is Some ==> forall|k: int|
        0 <= k < config.aliases@.len() && (forall|j: int|
            k < j < config.aliases@.len() ==> (#[trigger] config.aliases@[j]).0
                != config.aliases@[k].0) ==> holds(
            r,
            (PayloadModel {
                protocol,
                alias: (#[trigger] config.aliases@[k]).0,
                path: Some(path_under(base->0, config.aliases@[k].1@)),
                builtin: false,
            }),
        )
}

proof fn protocol_has_reasons(
    r: Seq<PayloadModel>,
    protocol: PayloadProtocol,
    payloads: PayloadConfig,
    limit: usize,
    base: Option<Seq<char>>,
    disk: Seq<(Seq<char>, PathKind)>,
)
    requires
        all_have_reasons(r, payloads, disk, base is Some),
    ensures
        with_protocol(r, protocol, config_of(payloads, protocol), limit, base, disk) matches Ok(
            q,
        ) ==> {
            &&& all_have_reasons(q, payloads, disk, base is Some)
            &&& forall|e: PayloadModel| holds(r, e) ==> #[trigger] holds(q, e)
            &&& has_listed(q, protocol, config_of(payloads, protocol), base)
            &&& config_of(payloads, protocol).files@.len() + config_of(
                payloads,
                protocol,
            ).aliases@.len() <= limit
        },
{
    let config = config_of(payloads, protocol);
    let names = texts(config.builtin@);
    let n = names.len() as int;
    builtins_have_reasons(r, protocol, n, payloads, disk, base is Some);
    assert(names.take(n) =~= names);
    if let Ok(q) = with_protocol(r, protocol, config, limit, base, disk) {
        let first = with_builtins(r, protocol, names)->Ok_0;
        if let Some(dir) = base {
            listed_files_are_there(texts(config.files@), dir, disk);
            let found = listed_files(texts(config.files@), dir, disk)->Ok_0;
            aliased_files_are_there(found, config.aliases@, dir, disk);
            let files = aliased_files(found, config.aliases@, dir, disk)->Ok_0;
            files_have_reasons(first, protocol, files, payloads, disk);
            assert forall|e: PayloadModel| holds(r, e) implies #[trigger] holds(q, e) by {
                assert(holds(first, e));
            }
            assert forall|k: int|
                0 <= k < config.aliases@.len() && (forall|j: int|
                    k < j < config.aliases@.len() ==> (#[trigger] config.aliases@[j]).0
                        != config.aliases@[k].0) implies holds(
                q,
                (PayloadModel {
                    protocol,
                    alias: (#[trigger] config.aliases@[k]).0,
                    path: Some(path_under(dir, config.aliases@[k].1@)),
                    builtin: false,
                }),
            ) by {
                value_is_an_entry(files, config.aliases@[k].0);
                let v = path_under(dir, config.aliases@[k].1@);
                let i = choose|i: int|
                    0 <= i < files.len() && #[trigger] files[i] == (config.aliases@[k].0, v);
                assert(files[i].0 == config.aliases@[k].0);
            }
        }
        assert forall|k: int| 0 <= k < config.builtin@.len() implies holds(
            q,
            (PayloadModel {
                protocol,
                alias: (#[trigger] config.builtin@[k])@,
                path: None,
                builtin: true,
            }),
        ) by {
            assert(names[k] == config.builtin@[k]@);
            assert(holds(
                first,
                (PayloadModel { protocol, alias: names[k], path: None, builtin: true }),
            ));
        }
    }
}

proof fn listed_stays(
    r: Seq<PayloadModel>,
    q: Seq<PayloadModel>,
    protocol: PayloadProtocol,
    config: PayloadProtocolConfig,
    base: Option<Seq<char>>,
)
    requires
        has_listed(r, protocol, config, base),
        forall|e: PayloadModel| holds(r, e) ==> #[trigger] holds(q, e),
    ensures
        has_listed(q, protocol, config, base),
{
}

/// A registry holds what is configured and nothing else. Every payload in it is a builtin one
/// that is listed for its protocol, or comes from a file that is there, which none does where
/// files are not loaded. Every builtin payload that is listed is in it, and every file under a
/// chosen alias, each for its own protocol; and no protocol has more files than are allowed.
pub proof fn registry_holds_what_is_listed(
    blobs: BlobConfig,
    payloads: PayloadConfig,
    disk: Seq<(Seq<char>, PathKind)>,
)
    ensures
        registry_of(blobs, payloads, disk) matches Ok(r) ==> {
            let base = if blobs.auto_load {
                Some(blobs.base_dir->0@)
            } else {
                None
            };
            &&& all_have_reasons(r, payloads, disk, blobs.auto_load)
            &&& has_listed(r, PayloadProtocol::Http, payloads.http, base)
            &&& has_listed(r, PayloadProtocol::Tls, payloads.tls, base)
            &&& has_listed(r, PayloadProtocol::Quic, payloads.quic, base)
            &&& payloads.max_per_protocol > 0
            &&& payloads.http.files@.len() + payloads.http.aliases@.len()
                <= payloads.max_per_protocol
            &&& payloads.tls.files@.len() + payloads.tls.aliases@.len() <= payloads.max_per_protocol
            &&& payloads.quic.files@.len() + payloads.quic.aliases@.len()
                <= payloads.max_per_protocol
        },
{
    let limit = payloads.max_per_protocol;
    if let Ok(r) = registry_of(blobs, payloads, disk) {
        let base = payload_base(blobs, disk)->Ok_0;
        let none = Seq::<PayloadModel>::empty();
        protocol_has_reasons(none, PayloadProtocol::Http, payloads, limit, base, disk);
        let a = with_protocol(
            none,
            PayloadProtocol::Http,
            payloads.http,
            limit,
            base,
            disk,
        )->Ok_0;
        protocol_has_reasons(a, PayloadProtocol::Tls, payloads, limit, base, disk);
        let b = with_protocol(a, PayloadProtocol::Tls, payloads.tls, limit, base, disk)->Ok_0;
        protocol_has_reasons(b, PayloadProtocol::Quic, payloads, limit, base, disk);
        listed_stays(a, b, PayloadProtocol::Http, payloads.http, base);
        listed_stays(b, r, PayloadProtocol::Http, payloads.http, base);
        listed_stays(b, r, PayloadProtocol::Tls, payloads.tls, base);
    }
}

// ---------------------------------------------------------------------------
// Aliases out of file names

proof fn squeezed_is_tidy(s: Seq<char>)
    ensures
        forall|i: int|
            0 <= i < squeezed(s).len() ==> is_alnum(#[trigger] squeezed(s)[i]) || squeezed(s)[i]
                == '_',
        forall|i: int|
            #![trigger squeezed(s)[i]]
            0 <= i && i + 1 < squeezed(s).len() ==> squeezed(s)[i] != '_' || squeezed(s)[i + 1]
                != '_',
        s.len() > 0 ==> squeezed(s).len() > 0,
        s.len() > 0 && is_alnum(s.last()) ==> squeezed(s).last() == s.last(),
        s.len() > 0 && !is_alnum(s.last()) ==> squeezed(s).last() == '_',
    decreases s.len(),
{
    if s.len() > 0 {
        let init = s.drop_last();
        squeezed_is_tidy(init);
        if init.len() > 0 {
            assert(s[s.len() - 2] == init.last());
        }
        let a = squeezed(init);
        let b = squeezed(s);
        assert forall|i: int| 0 <= i < b.len() implies is_alnum(#[trigger] b[i]) || b[i] == '_' by {
            if i < a.len() {
                assert(a[i] == b[i]);
            }
        }
        assert forall|i: int| #![trigger b[i]] 0 <= i && i + 1 < b.len() implies b[i] != '_' || b[i
            + 1] != '_' by {
            assert(a[i] == b[i]);
            if i + 1 < a.len() {
                assert(a[i + 1] == b[i + 1]);
            } else {
                assert(a[i] == a.last());
            }
        }
    }
}

proof fn start_stripped(s: Seq<char>, c: char)
    ensures
        exists|k: int| #![trigger s.skip(k)] 0 <= k <= s.len() && stripped_start(s, c) == s.skip(k),
        stripped_start(s, c).len() > 0 ==> stripped_start(s, c)[0] != c,
    decreases s.len(),
{
    if s.len() > 0 && s[0] == c {
        start_stripped(s.drop_first(), c);
        let k = choose|k: int|
            #![trigger s.drop_first().skip(k)]
            0 <= k <= s.drop_first().len() && stripped_start(s.drop_first(), c)
                == s.drop_first().skip(k);
        assert(s.drop_first().skip(k) =~= s.skip(k + 1));
    } else {
        assert(s.skip(0) =~= s);
    }
}

proof fn end_stripped(s: Seq<char>, c: char)
    ensures
        exists|k: int| #![trigger s.take(k)] 0 <= k <= s.len() && stripped_end(s, c) == s.take(k),
        stripped_end(s, c).len() > 0 ==> stripped_end(s, c).last() != c,
    decreases s.len(),
{
    if s.len() > 0 && s.last() == c {
        end_stripped(s.drop_last(), c);
        let k = choose|k: int|
            #![trigger s.drop_last().take(k)]
            0 <= k <= s.drop_last().len() && stripped_end(s.drop_last(), c) == s.drop_last().take(
                k,
            );
        assert(s.drop_last().take(k) =~= s.take(k));
    } else {
        assert(s.take(s.len() as int) =~= s);
    }
}

/// An alias out of a file name is made of ASCII letters, digits and underscores. It neither
/// begins nor ends with an underscore, and has no two of them side by side.
pub proof fn aliases_are_tidy(stem: Seq<char>)
    ensures
        ({
            let alias = alias_of_stem(stem);
            &&& forall|i: int|
                0 <= i < alias.len() ==> is_alnum(#[trigger] alias[i]) || alias[i] == '_'
            &&& forall|i: int|
                #![trigger alias[i]]
                0 <= i && i + 1 < alias.len() ==> alias[i] != '_' || alias[i + 1] != '_'
            &&& alias.len() > 0 ==> alias[0] != '_' && alias.last() != '_'
        }),
{
    let s = squeezed(lowercased(stem));
    let t = stripped_start(s, '_');
    let alias = alias_of_stem(stem);
    squeezed_is_tidy(lowercased(stem));
    start_stripped(s, '_');
    end_stripped(t, '_');
    let a = choose|a: int| #![trigger s.skip(a)] 0 <= a <= s.len() && t == s.skip(a);
    let b = choose|b: int| #![trigger t.take(b)] 0 <= b <= t.len() && alias == t.take(b);
    assert forall|i: int| 0 <= i < alias.len() implies #[trigger] alias[i] == s[a + i] by {}
    assert forall|i: int|
        #![trigger alias[i]]
        0 <= i && i + 1 < alias.len() implies alias[i] != '_' || alias[i + 1] != '_' by {
        assert(alias[i] == s[a + i]);
        assert(alias[i + 1] == s[a + (i + 1)]);
        assert(s[a + i] != '_' || s[a + i + 1] != '_');
    }
    if alias.len() > 0 {
        assert(alias[0] == t[0]);
    }
}

// ---------------------------------------------------------------------------
// Paths

/// The name is one of a file: not empty, without slashes, and no way to stay or to go up.
pub open spec fn is_file_name(name: Seq<char>) -> bool {
    name.len() > 0 && !name.contains('/') && name != "."@ && name != ".."@
}

/// A path that starts at the root stays as it is under any directory; any other stands behind
/// the directory with one slash between them.
pub proof fn paths_start_somewhere(base: Seq<char>, path: Seq<char>)
    ensures
        path.len() > 0 && path[0] == '/' ==> path_under(base, path) == path,
        !(path.len() > 0 && path[0] == '/') && base.len() > 0 && base.last() != '/' ==> path_under(
            base,
            path,
        ) == base + seq!['/'] + path,
        !(path.len() > 0 && path[0] == '/') && base.len() > 0 && base.last() == '/' ==> path_under(
            base,
            path,
        ) == base + path,
{
    reveal_strlit("/");
    assert("/"@ =~= seq!['/']);
}

/// A file is named by what stands behind the last slash of its path, whatever stands before it.
pub proof fn files_have_their_names(dir: Seq<char>, name: Seq<char>)
    requires
        is_file_name(name),
    ensures
        file_name_of(dir + seq!['/'] + name) == Some(name),
        file_name_of(name) == Some(name),
{
    split_around(dir, name, '/');
    split_of_one_part(name, '/');
    let parts = split_on(dir, '/') + seq![name];
    assert(parts.last() == name);
    assert(seq![name].last() == name);
}

/// The extension of a file stands behind the last dot of its name, and the stem before it; a
/// dot in front begins no extension.
pub proof fn names_have_stems_and_extensions(stem: Seq<char>, ext: Seq<char>)
    requires
        !ext.contains('.'),
    ensures
        stem.len() > 0 ==> stem_of_name(stem + seq!['.'] + ext) == stem,
        stem.len() == 0 ==> stem_of_name(stem + seq!['.'] + ext) == seq!['.'] + ext,
        stem_of_name(ext) == ext,
        stem.len() > 0 && is_file_name(stem + seq!['.'] + ext) ==> extension_of(
            stem + seq!['.'] + ext,
        ) == Some(ext) && file_stem_of(stem + seq!['.'] + ext) == Some(stem),
{
    let name = stem + seq!['.'] + ext;
    let at = stem.len() as int;
    assert forall|j: int| at < j < name.len() implies name[j] != '.' by {
        assert(name[j] == ext[j - at - 1]);
        assert(ext.contains(ext[j - at - 1]));
    }
    last_at_unique(name, '.', at);
    assert(name.take(at) =~= stem);
    assert(name.skip(at + 1) =~= ext);
    if stem.len() == 0 {
        assert(name =~= seq!['.'] + ext);
    }
    if is_file_name(name) {
        files_have_their_names(stem, name);
    }
}

/// A file lies in the directory that its path names before the last slash, and at the root
/// where nothing stands before it.
pub proof fn files_lie_in_their_directory(dir: Seq<char>, name: Seq<char>)
    requires
        is_file_name(name),
    ensures
        dir.len() > 0 && dir.last() != '/' && dir.last() != '.' ==> parent_of(
            dir + seq!['/'] + name,
        ) == Some(dir),
        parent_of(seq!['/'] + name) == Some("/"@),
{
    let empty = Seq::<char>::empty();
    reveal_strlit("/");
    reveal_strlit(".");
    assert("/"@ =~= seq!['/']);
    split_of_one_part(name, '/');
    split_around(empty, name, '/');
    split_of_one_part(empty, '/');
    assert(empty + seq!['/'] + name =~= seq!['/'] + name);
    let root = split_on(empty, '/') + seq![name];
    assert(root =~= seq![empty, name]);
    assert(root.drop_last() =~= seq![empty]);
    if dir.len() > 0 && dir.last() != '/' && dir.last() != '.' {
        split_around(dir, name, '/');
        let above = split_on(dir, '/');
        let parts = above + seq![name];
        split_on_len(dir, '/');
        assert(parts.drop_last() =~= above);
        assert(parts.last() == name);
        assert(above.last().len() > 0);
        assert(above.last().last() == dir.last());
        assert("."@.last() == '.');
        join_undoes_split(dir, '/');
    }
}

/// A protocol has the aliases of its own payloads, all of them and no others.
pub proof fn protocols_have_their_aliases(
    r: PayloadAliases,
    payloads: Seq<PayloadModel>,
    i: int,
    x: Seq<char>,
)
    requires
        are_aliases_of(r, payloads),
    ensures
        0 <= i < payloads.len() && payloads[i].protocol == PayloadProtocol::Http ==> texts(
            r.http@,
        ).contains(payloads[i].alias),
        0 <= i < payloads.len() && payloads[i].protocol == PayloadProtocol::Tls ==> texts(
            r.tls@,
        ).contains(payloads[i].alias),
        0 <= i < payloads.len() && payloads[i].protocol == PayloadProtocol::Quic ==> texts(
            r.quic@,
        ).contains(payloads[i].alias),
        texts(r.http@).contains(x) ==> exists|k: int|
            #![trigger payloads[k]]
            0 <= k < payloads.len() && payloads[k].protocol == PayloadProtocol::Http
                && payloads[k].alias == x,
        texts(r.tls@).contains(x) ==> exists|k: int|
            #![trigger payloads[k]]
            0 <= k < payloads.len() && payloads[k].protocol == PayloadProtocol::Tls
                && payloads[k].alias == x,
        texts(r.quic@).contains(x) ==> exists|k: int|
            #![trigger payloads[k]]
            0 <= k < payloads.len() && payloads[k].protocol == PayloadProtocol::Quic
                && payloads[k].alias == x,
{
    let http = protocol_aliases(payloads, PayloadProtocol::Http);
    let tls = protocol_aliases(payloads, PayloadProtocol::Tls);
    let quic = protocol_aliases(payloads, PayloadProtocol::Quic);
    aliases_are_those_of_the_protocol(payloads, PayloadProtocol::Http, x);
    aliases_are_those_of_the_protocol(payloads, PayloadProtocol::Tls, x);
    aliases_are_those_of_the_protocol(payloads, PayloadProtocol::Quic, x);
    unique_sorted_members(http, x);
    unique_sorted_members(tls, x);
    unique_sorted_members(quic, x);
    if 0 <= i < payloads.len() {
        let own = payloads[i].alias;
        aliases_are_those_of_the_protocol(payloads, payloads[i].protocol, own);
        unique_sorted_members(http, own);
        unique_sorted_members(tls, own);
        unique_sorted_members(quic, own);
    }
}

} // verus!
