use vstd::prelude::*;
use crate::map::{value_at, TextMap};
use crate::order::{before, before_weak, less, listed, sorted, stable_sort, views, weak_order};
use crate::text::{
    alnum, ascii_lower, begins, cat2, cat3, cat4, chars_of, contains, cut_first, drop_empty,
    has_text, is_alnum, join, joined, lower_char, lowered, nonempty, opt_text, pair_text, replace,
    replaced, split_char, split_on, split_once, starts_with, str_eq, strip_prefix, take_all,
    take_next, texts, texts_push, to_lower,
};

verus! {

// ---------------------------------------------------------------------------
// Filling in a template

/// Named values by their contents.
pub open spec fn pair_texts(s: Seq<(String, String)>) -> Seq<(Seq<char>, Seq<char>)> {
    Seq::new(s.len(), |i: int| (s[i].0@, s[i].1@))
}

/// The first value under `name`.
pub open spec fn param_of(combo: Seq<(Seq<char>, Seq<char>)>, name: Seq<char>) -> Option<Seq<char>>
    decreases combo.len(),
{
    if combo.len() == 0 {
        None
    } else if combo[0].0 == name {
        Some(combo[0].1)
    } else {
        param_of(combo.drop_first(), name)
    }
}

/// The first value under `name`, or `otherwise` where there is none.
pub open spec fn param_or(
    combo: Seq<(Seq<char>, Seq<char>)>,
    name: Seq<char>,
    otherwise: Seq<char>,
) -> Seq<char> {
    match param_of(combo, name) {
        Some(v) => v,
        None => otherwise,
    }
}

/// The place of a value in a template.
pub open spec fn placeholder(name: Seq<char>) -> Seq<char> {
    "{{"@ + name + "}}"@
}

/// The template with the values in their places, in the order of the values.
pub open spec fn filled(template: Seq<char>, combo: Seq<(Seq<char>, Seq<char>)>) -> Seq<char>
    decreases combo.len(),
{
    if combo.len() == 0 {
        template
    } else {
        replaced(
            filled(template, combo.drop_last()),
            placeholder(combo.last().0),
            combo.last().1,
        )
    }
}

/// How a desync function is told the way in which a packet is to be spoiled.
pub open spec fn fooling_suffix(value: Seq<char>) -> Seq<char> {
    if value == "none"@ {
        ""@
    } else if value == "badsum"@ {
        ":badsum"@
    } else if value == "autottl"@ {
        ":autottl"@
    } else if value == "badsum_autottl"@ {
        ":badsum:autottl"@
    } else if value == "md5sig"@ {
        ":md5sig"@
    } else if value == "md5sig_autottl"@ {
        ":md5sig:autottl"@
    } else if value == "timestamp"@ {
        ":timestamp"@
    } else if value == "badseq"@ {
        ":badseq"@
    } else if value == "badack"@ {
        ":badack"@
    } else {
        ""@
    }
}

/// How a desync function is told the change of a TLS hello.
pub open spec fn tls_mod_suffix(value: Seq<char>) -> Seq<char> {
    if value == "random_sni"@ {
        ":tls_mod=random_sni"@
    } else if value == "random_session_id"@ {
        ":tls_mod=random_session_id"@
    } else {
        ""@
    }
}

/// The suffix that stands for the value `when`.
pub open spec fn switch_suffix(value: Seq<char>, when: Seq<char>, suffix: Seq<char>) -> Seq<char> {
    if value == when {
        suffix
    } else {
        ""@
    }
}

/// The suffix that names a value, unless it is `none`.
pub open spec fn named_suffix(label: Seq<char>, value: Seq<char>) -> Seq<char> {
    if value == "none"@ {
        ""@
    } else {
        label + value
    }
}

/// The text with the suffixes, which the values decide, in their places.
pub open spec fn suffixed(s: Seq<char>, combo: Seq<(Seq<char>, Seq<char>)>) -> Seq<char> {
    let s1 = replaced(
        s,
        "{{fooling_suffix}}"@,
        fooling_suffix(param_or(combo, "fooling"@, "none"@)),
    );
    let s2 = replaced(
        s1,
        "{{tls_mod_suffix}}"@,
        tls_mod_suffix(param_or(combo, "tls_mod"@, "none"@)),
    );
    let s3 = replaced(
        s2,
        "{{pattern_suffix}}"@,
        switch_suffix(param_or(combo, "pattern"@, "zero"@), "random"@, ":pattern=random"@),
    );
    let s4 = replaced(
        s3,
        "{{seqovl_pattern_suffix}}"@,
        switch_suffix(
            param_or(combo, "seqovl_pattern"@, "zero"@),
            "random"@,
            ":seqovl_pattern=random"@,
        ),
    );
    let s5 = replaced(
        s4,
        "{{rstack_suffix}}"@,
        switch_suffix(param_or(combo, "rstack"@, "false"@), "true"@, ":rstack"@),
    );
    let s6 = replaced(
        s5,
        "{{midhost_suffix}}"@,
        named_suffix(":midhost="@, param_or(combo, "midhost"@, "none"@)),
    );
    let s7 = replaced(
        s6,
        "{{disorder_after_suffix}}"@,
        named_suffix(":disorder_after="@, param_or(combo, "disorder_after"@, "none"@)),
    );
    replaced(s7, "{{ipfrag_suffix}}"@, ""@)
}

/// A template with all its values and suffixes in place.
pub open spec fn rendered(template: Seq<char>, combo: Seq<(Seq<char>, Seq<char>)>) -> Seq<char> {
    suffixed(filled(template, combo), combo)
}

/// A text in which a place was left empty.
pub open spec fn has_placeholder(s: Seq<char>) -> bool {
    has_text(s, "{{"@) || has_text(s, "}}"@)
}

fn find_param(combo: &Vec<(String, String)>, name: &str, otherwise: &str) -> (r: String)
    ensures
        r@ == param_or(pair_texts(combo@), name@, otherwise@),
{
    let ghost all = pair_texts(combo@);
    let mut i: usize = 0;
    assert(all.skip(0) =~= all);
    while i < combo.len()
        invariant
            i <= combo@.len(),
            all == pair_texts(combo@),
            param_of(all.skip(i as int), name@) == param_of(all, name@),
        decreases combo@.len() - i,
    {
        assert(all.skip(i as int).drop_first() =~= all.skip(i + 1));
        assert(all.skip(i as int)[0] == all[i as int]);
        if str_eq(combo[i].0.as_str(), name) {
            return combo[i].1.clone();
        }
        i = i + 1;
    }
    otherwise.to_owned()
}

fn fooling_text(value: &str) -> (r: &'static str)
    ensures
        r@ == fooling_suffix(value@),
{
    if str_eq(value, "none") {
        ""
    } else if str_eq(value, "badsum") {
        ":badsum"
    } else if str_eq(value, "autottl") {
        ":autottl"
    } else if str_eq(value, "badsum_autottl") {
        ":badsum:autottl"
    } else if str_eq(value, "md5sig") {
        ":md5sig"
    } else if str_eq(value, "md5sig_autottl") {
        ":md5sig:autottl"
    } else if str_eq(value, "timestamp") {
        ":timestamp"
    } else if str_eq(value, "badseq") {
        ":badseq"
    } else if str_eq(value, "badack") {
        ":badack"
    } else {
        ""
    }
}

fn tls_mod_text(value: &str) -> (r: &'static str)
    ensures
        r@ == tls_mod_suffix(value@),
{
    if str_eq(value, "random_sni") {
        ":tls_mod=random_sni"
    } else if str_eq(value, "random_session_id") {
        ":tls_mod=random_session_id"
    } else {
        ""
    }
}

fn switch_text(value: &str, when: &str, suffix: &'static str) -> (r: &'static str)
    ensures
        r@ == switch_suffix(value@, when@, suffix@),
{
    if str_eq(value, when) {
        suffix
    } else {
        ""
    }
}

fn named_text(label: &str, value: &str) -> (r: String)
    ensures
        r@ == named_suffix(label@, value@),
{
    if str_eq(value, "none") {
        "".to_owned()
    } else {
        cat2(label, value)
    }
}

/// Puts the suffixes, which the values decide, into their places.
pub fn apply_suffixes(text: &str, combo: &Vec<(String, String)>) -> (r: String)
    ensures
        r@ == suffixed(text@, pair_texts(combo@)),
{
    proof {
        reveal_strlit("{{fooling_suffix}}");
        reveal_strlit("{{tls_mod_suffix}}");
        reveal_strlit("{{pattern_suffix}}");
        reveal_strlit("{{seqovl_pattern_suffix}}");
        reveal_strlit("{{rstack_suffix}}");
        reveal_strlit("{{midhost_suffix}}");
        reveal_strlit("{{disorder_after_suffix}}");
        reveal_strlit("{{ipfrag_suffix}}");
    }
    let fooling = find_param(combo, "fooling", "none");
    let s1 = replace(text, "{{fooling_suffix}}", fooling_text(fooling.as_str()));
    let tls_mod = find_param(combo, "tls_mod", "none");
    let s2 = replace(s1.as_str(), "{{tls_mod_suffix}}", tls_mod_text(tls_mod.as_str()));
    let pattern = find_param(combo, "pattern", "zero");
    let s3 = replace(
        s2.as_str(),
        "{{pattern_suffix}}",
        switch_text(pattern.as_str(), "random", ":pattern=random"),
    );
    let overlap = find_param(combo, "seqovl_pattern", "zero");
    let s4 = replace(
        s3.as_str(),
        "{{seqovl_pattern_suffix}}",
        switch_text(overlap.as_str(), "random", ":seqovl_pattern=random"),
    );
    let rstack = find_param(combo, "rstack", "false");
    let s5 = replace(
        s4.as_str(),
        "{{rstack_suffix}}",
        switch_text(rstack.as_str(), "true", ":rstack"),
    );
    let midhost = find_param(combo, "midhost", "none");
    let s6 = replace(
        s5.as_str(),
        "{{midhost_suffix}}",
        named_text(":midhost=", midhost.as_str()).as_str(),
    );
    let disorder = find_param(combo, "disorder_after", "none");
    let s7 = replace(
        s6.as_str(),
        "{{disorder_after_suffix}}",
        named_text(":disorder_after=", disorder.as_str()).as_str(),
    );
    replace(s7.as_str(), "{{ipfrag_suffix}}", "")
}

/// Puts the values and the suffixes into their places. Where a place is left empty there is
/// no result.
pub fn render_template(template: &str, combo: &Vec<(String, String)>) -> (r: Option<String>)
    ensures
        opt_text(r) == {
            let s = rendered(template@, pair_texts(combo@));
            if has_placeholder(s) {
                None
            } else {
                Some(s)
            }
        },
{
    let ghost all = pair_texts(combo@);
    let mut text = template.to_owned();
    let mut i: usize = 0;
    proof {
        take_all(all);
    }
    while i < combo.len()
        invariant
            i <= combo@.len(),
            all == pair_texts(combo@),
            text@ == filled(template@, all.take(i as int)),
        decreases combo@.len() - i,
    {
        proof {
            take_next(all, i as int);
            reveal_strlit("{{");
        }
        let place = cat3("{{", combo[i].0.as_str(), "}}");
        text = replace(text.as_str(), place.as_str(), combo[i].1.as_str());
        i = i + 1;
    }
    proof {
        take_all(all);
    }
    let done = apply_suffixes(text.as_str(), combo);
    if contains(done.as_str(), "{{") || contains(done.as_str(), "}}") {
        None
    } else {
        Some(done)
    }
}

// ---------------------------------------------------------------------------
// Lists without duplicates

/// `start` with those of the items behind it that it does not hold yet.
pub open spec fn with_new(start: Seq<Seq<char>>, items: Seq<Seq<char>>) -> Seq<Seq<char>>
    decreases items.len(),
{
    if items.len() == 0 {
        start
    } else {
        let r = with_new(start, items.drop_last());
        if r.contains(items.last()) {
            r
        } else {
            r.push(items.last())
        }
    }
}

/// The items without repetitions, in the order in which they first occur.
pub open spec fn without_repeats(items: Seq<Seq<char>>) -> Seq<Seq<char>> {
    with_new(Seq::empty(), items)
}

/// No text stands in the list twice.
pub open spec fn distinct(s: Seq<Seq<char>>) -> bool {
    forall|i: int, j: int| 0 <= i < j < s.len() ==> #[trigger] s[i] != #[trigger] s[j]
}

/// Adding only what is new to a list without repetitions gives one without repetitions.
pub proof fn with_new_distinct(start: Seq<Seq<char>>, items: Seq<Seq<char>>)
    requires
        distinct(start),
    ensures
        distinct(with_new(start, items)),
    decreases items.len(),
{
    if items.len() > 0 {
        let r = with_new(start, items.drop_last());
        with_new_distinct(start, items.drop_last());
        if !r.contains(items.last()) {
            let q = r.push(items.last());
            assert forall|i: int, j: int| 0 <= i < j < q.len() implies #[trigger] q[i]
                != #[trigger] q[j] by {
                assert(q[i] == r[i]);
                assert(r.contains(r[i]));
                if j < r.len() {
                    assert(q[j] == r[j]);
                }
            }
        }
    }
}

/// What is in a list after adding is what was in it and what was added.
pub proof fn with_new_members(start: Seq<Seq<char>>, items: Seq<Seq<char>>, x: Seq<char>)
    ensures
        with_new(start, items).contains(x) == (start.contains(x) || items.contains(x)),
    decreases items.len(),
{
    if items.len() > 0 {
        let init = items.drop_last();
        let r = with_new(start, init);
        with_new_members(start, init, x);
        with_new_members(start, init, items.last());
        if items.contains(x) && x != items.last() {
            let k = choose|k: int| 0 <= k < items.len() && items[k] == x;
            assert(init[k] == x);
        }
        if init.contains(x) {
            let k = choose|k: int| 0 <= k < init.len() && init[k] == x;
            assert(items[k] == x);
        }
        assert(items[items.len() - 1] == items.last());
        if !r.contains(items.last()) {
            let q = r.push(items.last());
            assert(q[q.len() - 1] == items.last());
            if r.contains(x) {
                let k = choose|k: int| 0 <= k < r.len() && r[k] == x;
                assert(q[k] == x);
            }
            if q.contains(x) && x != items.last() {
                let k = choose|k: int| 0 <= k < q.len() && q[k] == x;
                assert(r[k] == x);
            }
        }
    }
}

/// Adds to `out` those of the items that it does not hold yet.
pub fn add_new(out: &mut Vec<String>, items: &[String])
    ensures
        texts(final(out)@) == with_new(texts(old(out)@), texts(items@)),
{
    let ghost start = texts(out@);
    let ghost all = texts(items@);
    let mut i: usize = 0;
    proof {
        take_all(all);
    }
    while i < items.len()
        invariant
            i <= items@.len(),
            all == texts(items@),
            texts(out@) == with_new(start, all.take(i as int)),
        decreases items@.len() - i,
    {
        proof {
            take_next(all, i as int);
        }
        if !listed(out, items[i].as_str()) {
            proof {
                texts_push(out@, items@[i as int]);
            }
            out.push(items[i].clone());
        }
        i = i + 1;
    }
    proof {
        take_all(all);
    }
}

/// The items without repetitions, in the order in which they first occur.
pub fn dedup_preserve_order(values: &Vec<String>) -> (r: Vec<String>)
    ensures
        texts(r@) == without_repeats(texts(values@)),
{
    let mut out: Vec<String> = Vec::new();
    assert(texts(out@) =~= Seq::empty());
    add_new(&mut out, values.as_slice());
    out
}

// ---------------------------------------------------------------------------
// The payload option

/// The first of the parts that begins with `label`, without the label.
pub open spec fn labelled(parts: Seq<Seq<char>>, label: Seq<char>) -> Option<Seq<char>>
    decreases parts.len(),
{
    if parts.len() == 0 {
        None
    } else if begins(parts[0], label) {
        Some(parts[0].skip(label.len() as int))
    } else {
        labelled(parts.drop_first(), label)
    }
}

/// The payloads that a desync call names itself.
pub open spec fn explicit_payload(lua: Seq<char>) -> Option<Seq<char>> {
    match labelled(split_on(lua, ':'), "payload="@) {
        Some(p) => if p.len() == 0 {
            None
        } else {
            Some(p)
        },
        None => None,
    }
}

/// The desync functions that work on the standard payload of a protocol.
pub open spec fn takes_standard_payload(function: Seq<char>) -> bool {
    function == "drop"@ || function == "fake"@ || function == "rst"@ || function == "multisplit"@
        || function == "multidisorder"@ || function == "fakedsplit"@ || function
        == "fakeddisorder"@ || function == "tcpseg"@ || function == "udplen"@
}

/// The standard payload of a protocol.
pub open spec fn standard_payload(protocol_key: Option<Seq<char>>) -> Option<Seq<char>> {
    match protocol_key {
        None => None,
        Some(key) => if key == "http"@ {
            Some("http_req"@)
        } else if key == "tls12"@ || key == "tls13"@ {
            Some("tls_client_hello"@)
        } else if key == "quic"@ {
            Some("quic_initial"@)
        } else {
            None
        },
    }
}

/// The payloads that a desync call works on.
pub open spec fn payload_of_call(
    lua: Seq<char>,
    protocol_key: Option<Seq<char>>,
) -> Option<Seq<char>> {
    match explicit_payload(lua) {
        Some(p) => Some(p),
        None => if takes_standard_payload(split_on(lua, ':')[0]) {
            standard_payload(protocol_key)
        } else {
            None
        },
    }
}

/// The payloads found so far, with those of one more desync call.
pub open spec fn with_call(
    found: Seq<Seq<char>>,
    lua: Seq<char>,
    protocol_key: Option<Seq<char>>,
) -> Seq<Seq<char>> {
    match payload_of_call(lua, protocol_key) {
        Some(p) => with_new(found, nonempty(split_on(p, ','))),
        None => found,
    }
}

/// The payloads found so far, with those of the desync calls from place `i` on. A call
/// stands behind an equals sign or as an argument of its own.
pub open spec fn call_payloads(
    args: Seq<Seq<char>>,
    protocol_key: Option<Seq<char>>,
    i: int,
    found: Seq<Seq<char>>,
) -> Seq<Seq<char>>
    decreases args.len() - i,
{
    if i < 0 || i >= args.len() {
        found
    } else if begins(args[i], "--lua-desync="@) {
        call_payloads(
            args,
            protocol_key,
            i + 1,
            with_call(found, args[i].skip("--lua-desync="@.len() as int), protocol_key),
        )
    } else if args[i] == "--lua-desync"@ {
        if i + 1 < args.len() {
            call_payloads(
                args,
                protocol_key,
                i + 2,
                with_call(found, args[i + 1], protocol_key),
            )
        } else {
            found
        }
    } else {
        call_payloads(args, protocol_key, i + 1, found)
    }
}

/// An argument that begins a desync call.
pub open spec fn is_desync_arg(arg: Seq<char>) -> bool {
    arg == "--lua-desync"@ || begins(arg, "--lua-desync="@)
}

/// An argument that names payloads.
pub open spec fn is_payload_arg(arg: Seq<char>) -> bool {
    arg == "--payload"@ || begins(arg, "--payload="@)
}

/// The place of the first desync call, or the end where there is none.
pub open spec fn desync_place(args: Seq<Seq<char>>) -> int
    decreases args.len(),
{
    if args.len() == 0 || is_desync_arg(args[0]) {
        0
    } else {
        1 + desync_place(args.drop_first())
    }
}

/// The arguments with the payloads of their desync calls named in front of the first call,
/// unless payloads are named already or there are none.
pub open spec fn with_payload_option(
    args: Seq<Seq<char>>,
    protocol_key: Option<Seq<char>>,
) -> Seq<Seq<char>> {
    let payloads = call_payloads(args, protocol_key, 0, Seq::empty());
    if (exists|i: int| 0 <= i < args.len() && is_payload_arg(#[trigger] args[i]))
        || payloads.len() == 0 {
        args
    } else {
        args.insert(desync_place(args), "--payload="@ + joined(payloads, ","@))
    }
}

fn find_labelled(parts: &Vec<String>, label: &str) -> (r: Option<String>)
    ensures
        opt_text(r) == labelled(texts(parts@), label@),
{
    let ghost all = texts(parts@);
    let mut i: usize = 0;
    assert(all.skip(0) =~= all);
    while i < parts.len()
        invariant
            i <= parts@.len(),
            all == texts(parts@),
            labelled(all.skip(i as int), label@) == labelled(all, label@),
        decreases parts@.len() - i,
    {
        assert(all.skip(i as int).drop_first() =~= all.skip(i + 1));
        assert(all.skip(i as int)[0] == all[i as int]);
        if let Some(rest) = strip_prefix(parts[i].as_str(), label) {
            return Some(rest);
        }
        i = i + 1;
    }
    None
}

fn uses_standard_payload(function: &str) -> (r: bool)
    ensures
        r == takes_standard_payload(function@),
{
    str_eq(function, "drop") || str_eq(function, "fake") || str_eq(function, "rst") || str_eq(
        function,
        "multisplit",
    ) || str_eq(function, "multidisorder") || str_eq(function, "fakedsplit") || str_eq(
        function,
        "fakeddisorder",
    ) || str_eq(function, "tcpseg") || str_eq(function, "udplen")
}

/// An optional text by its contents.
pub open spec fn opt_str(s: Option<&str>) -> Option<Seq<char>> {
    match s {
        Some(t) => Some(t@),
        None => None,
    }
}

fn find_payload(lua: &str, protocol_key: Option<&str>) -> (r: Option<String>)
    ensures
        opt_text(r) == payload_of_call(lua@, opt_str(protocol_key)),
{
    let parts = split_char(lua, ':');
    if let Some(p) = find_labelled(&parts, "payload=") {
        if !p.as_str().is_empty() {
            return Some(p);
        }
    }
    assert(texts(parts@)[0] == parts@[0]@);
    if !uses_standard_payload(parts[0].as_str()) {
        return None;
    }
    match protocol_key {
        None => None,
        Some(key) => if str_eq(key, "http") {
            Some("http_req".to_owned())
        } else if str_eq(key, "tls12") || str_eq(key, "tls13") {
            Some("tls_client_hello".to_owned())
        } else if str_eq(key, "quic") {
            Some("quic_initial".to_owned())
        } else {
            None
        },
    }
}

fn add_call(found: &mut Vec<String>, lua: &str, protocol_key: Option<&str>)
    ensures
        texts(final(found)@) == with_call(texts(old(found)@), lua@, opt_str(protocol_key)),
{
    if let Some(p) = find_payload(lua, protocol_key) {
        let items = drop_empty(split_char(p.as_str(), ','));
        add_new(found, items.as_slice());
    }
}

/// The payloads that the desync calls among the arguments work on.
pub fn lua_desync_payloads(args: &Vec<String>, protocol_key: Option<&str>) -> (r: Vec<String>)
    ensures
        texts(r@) == call_payloads(
            texts(args@),
            opt_str(protocol_key),
            0,
            Seq::empty(),
        ),
{
    let ghost all = texts(args@);
    let ghost key = opt_str(protocol_key);
    let mut found: Vec<String> = Vec::new();
    let mut i: usize = 0;
    assert(texts(found@) =~= Seq::empty());
    while i < args.len()
        invariant
            i <= args@.len(),
            all == texts(args@),
            key == opt_str(protocol_key),
            call_payloads(all, key, i as int, texts(found@)) == call_payloads(
                all,
                key,
                0,
                Seq::empty(),
            ),
        decreases args@.len() - i,
    {
        if let Some(lua) = strip_prefix(args[i].as_str(), "--lua-desync=") {
            add_call(&mut found, lua.as_str(), protocol_key);
            i = i + 1;
        } else if str_eq(args[i].as_str(), "--lua-desync") {
            if i + 1 < args.len() {
                add_call(&mut found, args[i + 1].as_str(), protocol_key);
                i = i + 2;
            } else {
                return found;
            }
        } else {
            i = i + 1;
        }
    }
    found
}

proof fn desync_place_at(args: Seq<Seq<char>>, n: int)
    requires
        0 <= n <= args.len(),
        forall|i: int| 0 <= i < n ==> !is_desync_arg(#[trigger] args[i]),
        n < args.len() ==> is_desync_arg(args[n]),
    ensures
        desync_place(args) == n,
    decreases n,
{
    if n > 0 {
        assert(!is_desync_arg(args[0]));
        let t = args.drop_first();
        assert forall|i: int| 0 <= i < n - 1 implies !is_desync_arg(#[trigger] t[i]) by {
            assert(t[i] == args[i + 1]);
        }
        desync_place_at(t, n - 1);
    }
}

fn find_desync(args: &Vec<String>) -> (r: usize)
    ensures
        r == desync_place(texts(args@)),
        r <= args@.len(),
{
    let ghost all = texts(args@);
    let mut i: usize = 0;
    while i < args.len()
        invariant
            i <= args@.len(),
            all == texts(args@),
            forall|j: int| 0 <= j < i ==> !is_desync_arg(#[trigger] all[j]),
        decreases args@.len() - i,
    {
        if str_eq(args[i].as_str(), "--lua-desync") || starts_with(
            args[i].as_str(),
            "--lua-desync=",
        ) {
            proof {
                desync_place_at(all, i as int);
            }
            return i;
        }
        i = i + 1;
    }
    proof {
        desync_place_at(all, i as int);
    }
    i
}

proof fn texts_insert(s: Seq<String>, i: int, x: String)
    requires
        0 <= i <= s.len(),
    ensures
        texts(s.insert(i, x)) == texts(s).insert(i, x@),
{
    assert(texts(s.insert(i, x)) =~= texts(s).insert(i, x@));
}

/// Names the payloads of the desync calls in front of the first call, unless payloads are
/// named already or there are none.
pub fn ensure_payload_option(args: &mut Vec<String>, protocol_key: Option<&str>)
    ensures
        texts(final(args)@) == with_payload_option(texts(old(args)@), opt_str(protocol_key)),
{
    let ghost all = texts(args@);
    let mut i: usize = 0;
    while i < args.len()
        invariant
            i <= args@.len(),
            all == texts(args@),
            forall|j: int| 0 <= j < i ==> !is_payload_arg(#[trigger] all[j]),
            args@ == old(args)@,
        decreases args@.len() - i,
    {
        if str_eq(args[i].as_str(), "--payload") || starts_with(args[i].as_str(), "--payload=") {
            assert(is_payload_arg(all[i as int]));
            return;
        }
        i = i + 1;
    }
    let payloads = lua_desync_payloads(args, protocol_key);
    if payloads.len() == 0 {
        assert(texts(payloads@).len() == 0);
        return;
    }
    assert(texts(payloads@).len() == payloads@.len());
    let place: usize = find_desync(args);
    let option = cat2("--payload=", join(&payloads, ",").as_str());
    proof {
        texts_insert(args@, place as int, option);
    }
    args.insert(place, option);
}

// ---------------------------------------------------------------------------
// Payload files

/// What marks a value that stands for a payload file.
pub const BLOB_FILE_SENTINEL: &'static str = "__zapret_checker_blob_file__";

/// Where payload files lie unless a directory is named.
pub const DEFAULT_FAKE_BLOB_DIR: &'static str = "/opt/zapret2/files/fake";

/// The name and the path of the payload file that a marked value stands for.
pub open spec fn marked_file(value: Seq<char>) -> Option<(Seq<char>, Seq<char>)> {
    if begins(value, BLOB_FILE_SENTINEL@) {
        match cut_first(value.skip(BLOB_FILE_SENTINEL@.len() as int), '@') {
            Some((name, path)) => if name.len() == 0 || path.len() == 0 {
                None
            } else {
                Some((name, path))
            },
            None => None,
        }
    } else {
        None
    }
}

/// The payload file that a part of a desync call stands for.
pub open spec fn part_file(part: Seq<char>) -> Option<(Seq<char>, Seq<char>)> {
    if begins(part, "blob="@) {
        marked_file(part.skip("blob="@.len() as int))
    } else {
        None
    }
}

/// The parts of a desync call with the names of payload files in place of marked values.
pub open spec fn parts_with_names(parts: Seq<Seq<char>>) -> Seq<Seq<char>> {
    Seq::new(
        parts.len(),
        |i: int|
            match part_file(parts[i]) {
                Some((name, _)) => "blob="@ + name,
                None => parts[i],
            },
    )
}

/// The options that load the payload files of a desync call.
pub open spec fn part_options(parts: Seq<Seq<char>>) -> Seq<Seq<char>>
    decreases parts.len(),
{
    if parts.len() == 0 {
        Seq::empty()
    } else {
        match part_file(parts.last()) {
            Some((name, path)) => part_options(parts.drop_last()).push(
                "--blob="@ + name + ":@"@ + path,
            ),
            None => part_options(parts.drop_last()),
        }
    }
}

/// An argument with the names of payload files in place of marked values.
pub open spec fn arg_with_names(arg: Seq<char>) -> Seq<char> {
    if begins(arg, "--lua-desync="@) {
        let parts = split_on(arg.skip("--lua-desync="@.len() as int), ':');
        if part_options(parts).len() > 0 {
            "--lua-desync="@ + joined(parts_with_names(parts), ":"@)
        } else {
            arg
        }
    } else {
        arg
    }
}

/// The options that load the payload files of an argument.
pub open spec fn arg_options(arg: Seq<char>) -> Seq<Seq<char>> {
    if begins(arg, "--lua-desync="@) {
        part_options(split_on(arg.skip("--lua-desync="@.len() as int), ':'))
    } else {
        Seq::empty()
    }
}

/// The options that load the payload files of all arguments.
pub open spec fn all_options(args: Seq<Seq<char>>) -> Seq<Seq<char>>
    decreases args.len(),
{
    if args.len() == 0 {
        Seq::empty()
    } else {
        all_options(args.drop_last()) + arg_options(args.last())
    }
}

/// The arguments with payload files called by their names, and with an option for each file
/// in front of the first desync call.
pub open spec fn with_blob_options(args: Seq<Seq<char>>) -> Seq<Seq<char>> {
    let named = Seq::new(args.len(), |i: int| arg_with_names(args[i]));
    let options = without_repeats(all_options(args));
    if all_options(args).len() == 0 {
        named
    } else {
        named.take(desync_place(named)) + options + named.skip(desync_place(named))
    }
}

fn read_marked(value: &str) -> (r: Option<(String, String)>)
    ensures
        pair_text(r) == marked_file(value@),
{
    match strip_prefix(value, BLOB_FILE_SENTINEL) {
        None => None,
        Some(rest) => match split_once(rest.as_str(), '@') {
            None => None,
            Some((name, path)) => if name.as_str().is_empty() || path.as_str().is_empty() {
                None
            } else {
                Some((name, path))
            },
        },
    }
}

fn read_part(part: &str) -> (r: Option<(String, String)>)
    ensures
        pair_text(r) == part_file(part@),
{
    match strip_prefix(part, "blob=") {
        Some(value) => read_marked(value.as_str()),
        None => None,
    }
}

/// Takes the marked values out of a desync call: gives the call with the names of the
/// payload files, and the options that load them.
pub fn replace_blob_file_sentinels(lua: &str) -> (r: (String, Vec<String>))
    ensures
        r.0@ == joined(parts_with_names(split_on(lua@, ':')), ":"@),
        texts(r.1@) == part_options(split_on(lua@, ':')),
{
    let parts = split_char(lua, ':');
    let ghost all = texts(parts@);
    let mut out: Vec<String> = Vec::new();
    let mut options: Vec<String> = Vec::new();
    let mut i: usize = 0;
    proof {
        take_all(all);
        assert(texts(out@) =~= parts_with_names(all).take(0));
        assert(texts(options@) =~= Seq::empty());
    }
    while i < parts.len()
        invariant
            i <= parts@.len(),
            all == texts(parts@),
            texts(out@) == parts_with_names(all).take(i as int),
            texts(options@) == part_options(all.take(i as int)),
        decreases parts@.len() - i,
    {
        proof {
            take_next(all, i as int);
            take_next(parts_with_names(all), i as int);
        }
        match read_part(parts[i].as_str()) {
            Some((name, path)) => {
                let named = cat2("blob=", name.as_str());
                let option = cat4("--blob=", name.as_str(), ":@", path.as_str());
                proof {
                    texts_push(out@, named);
                    texts_push(options@, option);
                }
                out.push(named);
                options.push(option);
            },
            None => {
                proof {
                    texts_push(out@, parts@[i as int]);
                }
                out.push(parts[i].clone());
            },
        }
        i = i + 1;
    }
    proof {
        take_all(all);
        take_all(parts_with_names(all));
    }
    (join(&out, ":"), options)
}

/// Calls payload files by their names, and adds an option for each file in front of the
/// first desync call.
pub fn apply_blob_file_options(args: &Vec<String>) -> (r: Vec<String>)
    ensures
        texts(r@) == with_blob_options(texts(args@)),
{
    let ghost all = texts(args@);
    let ghost named = Seq::new(all.len(), |i: int| arg_with_names(all[i]));
    let mut out: Vec<String> = Vec::new();
    let mut options: Vec<String> = Vec::new();
    let mut i: usize = 0;
    proof {
        take_all(all);
        assert(texts(out@) =~= named.take(0));
        assert(texts(options@) =~= Seq::empty());
    }
    while i < args.len()
        invariant
            i <= args@.len(),
            all == texts(args@),
            named == Seq::new(all.len(), |i: int| arg_with_names(all[i])),
            texts(out@) == named.take(i as int),
            texts(options@) == all_options(all.take(i as int)),
        decreases args@.len() - i,
    {
        proof {
            take_next(all, i as int);
            take_next(named, i as int);
            assert(all_options(all.take(i as int)) + Seq::<Seq<char>>::empty() =~= all_options(
                all.take(i as int),
            ));
        }
        let mut arg = args[i].clone();
        if let Some(lua) = strip_prefix(args[i].as_str(), "--lua-desync=") {
            let (call, found) = replace_blob_file_sentinels(lua.as_str());
            assert(texts(found@).len() == found@.len());
            if found.len() > 0 {
                arg = cat2("--lua-desync=", call.as_str());
                let ghost before_options = options@;
                append_texts(&mut options, &found);
            } else {
                assert(texts(found@) =~= Seq::empty());
            }
        }
        proof {
            texts_push(out@, arg);
        }
        out.push(arg);
        i = i + 1;
    }
    proof {
        take_all(all);
        take_all(named);
        assert(texts(options@).len() == options@.len());
    }
    if options.len() == 0 {
        return out;
    }
    let place: usize = find_desync(&out);
    let fresh = dedup_preserve_order(&options);
    let mut whole: Vec<String> = Vec::new();
    assert(texts(whole@) =~= named.take(0));
    let mut k: usize = 0;
    while k < place
        invariant
            k <= place <= out@.len(),
            texts(out@) == named,
            texts(whole@) == named.take(k as int),
        decreases place - k,
    {
        proof {
            take_next(named, k as int);
            texts_push(whole@, out@[k as int]);
        }
        whole.push(out[k].clone());
        k = k + 1;
    }
    append_texts(&mut whole, &fresh);
    let ghost front = texts(whole@);
    assert(named.skip(place as int).take(0) =~= Seq::empty());
    assert(front + named.skip(place as int).take(0) =~= front);
    while k < out.len()
        invariant
            place <= k <= out@.len(),
            texts(out@) == named,
            texts(whole@) == front + named.skip(place as int).take(k - place),
        decreases out@.len() - k,
    {
        proof {
            let tail = named.skip(place as int);
            take_next(tail, k - place);
            texts_push(whole@, out@[k as int]);
            assert(front + tail.take(k - place + 1) =~= (front + tail.take(k - place)).push(
                named[k as int],
            ));
        }
        whole.push(out[k].clone());
        k = k + 1;
    }
    proof {
        take_all(named.skip(place as int));
    }
    whole
}

/// Puts the texts of `more` behind those of `out`.
pub fn append_texts(out: &mut Vec<String>, more: &Vec<String>)
    ensures
        texts(final(out)@) == texts(old(out)@) + texts(more@),
{
    let ghost start = texts(out@);
    let ghost all = texts(more@);
    let mut i: usize = 0;
    assert(start + all.take(0) =~= start);
    while i < more.len()
        invariant
            i <= more@.len(),
            all == texts(more@),
            texts(out@) == start + all.take(i as int),
        decreases more@.len() - i,
    {
        proof {
            take_next(all, i as int);
            texts_push(out@, more@[i as int]);
            assert(start + all.take(i + 1) =~= (start + all.take(i as int)).push(all[i as int]));
        }
        out.push(more[i].clone());
        i = i + 1;
    }
    proof {
        take_all(all);
    }
}

// ---------------------------------------------------------------------------
// Directories of payload files

/// The payload files of a directory that a value asks for.
#[derive(Debug, Clone, Copy, PartialEq, Eq, Structural)]
pub enum FakeBlobKind {
    Http,
    Tls,
    Quic,
    All,
}

impl FakeBlobKind {
    /// The kind that a marker names.
    pub open spec fn marked(marker: Seq<char>) -> Option<FakeBlobKind> {
        if marker == "fake_dir_http"@ {
            Some(FakeBlobKind::Http)
        } else if marker == "fake_dir_tls"@ {
            Some(FakeBlobKind::Tls)
        } else if marker == "fake_dir_quic"@ {
            Some(FakeBlobKind::Quic)
        } else if marker == "fake_dir_all"@ {
            Some(FakeBlobKind::All)
        } else {
            None
        }
    }

    /// How the names of payload files tell the kind.
    pub open spec fn label(self) -> Seq<char> {
        match self {
            FakeBlobKind::Http => "http"@,
            FakeBlobKind::Tls => "tls"@,
            FakeBlobKind::Quic => "quic"@,
            FakeBlobKind::All => "fake"@,
        }
    }

    fn from_marker(marker: &str) -> (r: Option<FakeBlobKind>)
        ensures
            r == FakeBlobKind::marked(marker@),
    {
        if str_eq(marker, "fake_dir_http") {
            Some(FakeBlobKind::Http)
        } else if str_eq(marker, "fake_dir_tls") {
            Some(FakeBlobKind::Tls)
        } else if str_eq(marker, "fake_dir_quic") {
            Some(FakeBlobKind::Quic)
        } else if str_eq(marker, "fake_dir_all") {
            Some(FakeBlobKind::All)
        } else {
            None
        }
    }

    fn name(self) -> (r: &'static str)
        ensures
            r@ == self.label(),
    {
        match self {
            FakeBlobKind::Http => "http",
            FakeBlobKind::Tls => "tls",
            FakeBlobKind::Quic => "quic",
            FakeBlobKind::All => "fake",
        }
    }
}

/// The kind and the directory that a value asks for, if it asks for a directory.
pub open spec fn dir_marker(value: Seq<char>) -> Option<(FakeBlobKind, Seq<char>)> {
    let (marker, dir) = match cut_first(value, ':') {
        Some((marker, dir)) => (marker, dir),
        None => (value, DEFAULT_FAKE_BLOB_DIR@),
    };
    match FakeBlobKind::marked(marker) {
        Some(kind) => Some((kind, dir)),
        None => None,
    }
}

/// A kind and a directory by their contents.
pub open spec fn marker_text(r: Option<(FakeBlobKind, String)>) -> Option<
    (FakeBlobKind, Seq<char>),
> {
    match r {
        Some((kind, dir)) => Some((kind, dir@)),
        None => None,
    }
}

/// The kind and the directory that a value asks for.
pub fn parse_fake_dir_marker(value: &str) -> (r: Option<(FakeBlobKind, String)>)
    ensures
        marker_text(r) == dir_marker(value@),
{
    let (marker, dir) = match split_once(value, ':') {
        Some((marker, dir)) => (marker, dir),
        None => (value.to_owned(), DEFAULT_FAKE_BLOB_DIR.to_owned()),
    };
    match FakeBlobKind::from_marker(marker.as_str()) {
        Some(kind) => Some((kind, dir)),
        None => None,
    }
}

/// A file in a directory: its path, and its name where that is Unicode text.
#[derive(Debug)]
pub struct DirFile {
    pub path: String,
    pub name: Option<String>,
}

/// A file in a directory by its contents.
pub struct DirFileModel {
    pub path: Seq<char>,
    pub name: Option<Seq<char>>,
}

impl View for DirFile {
    type V = DirFileModel;

    open spec fn view(&self) -> DirFileModel {
        DirFileModel { path: self.path@, name: opt_text(self.name) }
    }
}

/// A file whose name tells that it is of the kind.
pub open spec fn file_matches(file: DirFileModel, kind: FakeBlobKind) -> bool {
    let name = lowered(
        match file.name {
            Some(n) => n,
            None => Seq::empty(),
        },
    );
    match kind {
        FakeBlobKind::Http => has_text(name, "http"@),
        FakeBlobKind::Tls => has_text(name, "tls"@) || has_text(name, "ssl"@),
        FakeBlobKind::Quic => has_text(name, "quic"@),
        FakeBlobKind::All => true,
    }
}

/// An ASCII letter, digit or underscore in lower case; an underscore for anything else.
pub open spec fn name_char(c: char) -> char {
    if is_alnum(c) || c == '_' {
        lower_char(c)
    } else {
        '_'
    }
}

/// A name that may begin with `c`.
pub open spec fn begins_name(c: char) -> bool {
    'a' <= c <= 'z' || 'A' <= c <= 'Z' || c == '_'
}

/// A text as a name: lower-case letters, digits and underscores, no digit in front.
pub open spec fn blob_name(s: Seq<char>) -> Seq<char> {
    let t = Seq::new(s.len(), |i: int| name_char(s[i]));
    if t.len() == 0 || !begins_name(t[0]) {
        seq!['_'] + t
    } else {
        t
    }
}

/// The marked value that stands for a payload file.
pub open spec fn marked_value(file: DirFileModel, kind: FakeBlobKind) -> Seq<char> {
    let name = match file.name {
        Some(n) => n,
        None => "blob"@,
    };
    BLOB_FILE_SENTINEL@ + blob_name("fake_"@ + kind.label() + "_"@ + name) + "@"@ + file.path
}

/// The marked values for the files of the kind.
pub open spec fn matching_values(files: Seq<DirFileModel>, kind: FakeBlobKind) -> Seq<Seq<char>>
    decreases files.len(),
{
    if files.len() == 0 {
        Seq::empty()
    } else if file_matches(files.last(), kind) {
        matching_values(files.drop_last(), kind).push(marked_value(files.last(), kind))
    } else {
        matching_values(files.drop_last(), kind)
    }
}

/// The order of texts.
pub open spec fn text_order() -> spec_fn(Seq<char>, Seq<char>) -> bool {
    |a: Seq<char>, b: Seq<char>| before(a, b)
}

/// The marked values for the files of the kind, in order.
pub open spec fn blob_values(files: Seq<DirFileModel>, kind: FakeBlobKind) -> Seq<Seq<char>> {
    sorted(matching_values(files, kind), text_order())
}

/// The files of a directory, by a list of the directories that can be read.
pub open spec fn files_in(dirs: Seq<(Seq<char>, Vec<DirFile>)>, dir: Seq<char>) -> Seq<
    DirFileModel,
> {
    match value_at(dirs, dir) {
        Some(files) => views(files@),
        None => Seq::empty(),
    }
}

/// The values with the payload files of a directory in place of each value that asks for
/// one.
pub open spec fn with_dir_files(
    values: Seq<Seq<char>>,
    dirs: Seq<(Seq<char>, Vec<DirFile>)>,
) -> Seq<Seq<char>>
    decreases values.len(),
{
    if values.len() == 0 {
        Seq::empty()
    } else {
        let r = with_dir_files(values.drop_last(), dirs);
        match dir_marker(values.last()) {
            Some((kind, dir)) => r + blob_values(files_in(dirs, dir), kind),
            None => r.push(values.last()),
        }
    }
}

/// The values of a parameter. Those of a payload may ask for the files of a directory.
pub open spec fn dynamic_values(
    name: Seq<char>,
    values: Seq<Seq<char>>,
    dirs: Seq<(Seq<char>, Vec<DirFile>)>,
) -> Seq<Seq<char>> {
    if name == "blob"@ {
        without_repeats(with_dir_files(values, dirs))
    } else {
        values
    }
}

fn matches_kind(file: &DirFile, kind: FakeBlobKind) -> (r: bool)
    ensures
        r == file_matches(file@, kind),
{
    let name = match &file.name {
        Some(n) => ascii_lower(n.as_str()),
        None => ascii_lower(String::new().as_str()),
    };
    match kind {
        FakeBlobKind::Http => contains(name.as_str(), "http"),
        FakeBlobKind::Tls => contains(name.as_str(), "tls") || contains(name.as_str(), "ssl"),
        FakeBlobKind::Quic => contains(name.as_str(), "quic"),
        FakeBlobKind::All => true,
    }
}

/// A text as a name: lower-case letters, digits and underscores, no digit in front.
pub fn sanitize_blob_name(value: &str) -> (r: String)
    ensures
        r@ == blob_name(value@),
{
    let cs = chars_of(value);
    let ghost want = Seq::new(cs@.len(), |i: int| name_char(cs@[i]));
    let mut out = String::new();
    let mut i: usize = 0;
    let bare: bool = if cs.len() == 0 {
        true
    } else {
        let first = cs[0];
        !(('a' <= first && first <= 'z') || ('A' <= first && first <= 'Z') || first == '_') && (
        alnum(first))
    };
    if bare {
        out.push('_');
    }
    let ghost front = out@;
    assert(front + want.take(0) =~= front);
    while i < cs.len()
        invariant
            i <= cs@.len(),
            want == Seq::new(cs@.len(), |i: int| name_char(cs@[i])),
            out@ == front + want.take(i as int),
        decreases cs@.len() - i,
    {
        let c = cs[i];
        proof {
            take_next(want, i as int);
            assert(front + want.take(i + 1) =~= (front + want.take(i as int)).push(
                want[i as int],
            ));
        }
        if alnum(c) || c == '_' {
            out.push(to_lower(c));
        } else {
            out.push('_');
        }
        i = i + 1;
    }
    proof {
        take_all(want);
        assert(front + want =~= blob_name(value@));
    }
    out
}

fn mark_file(file: &DirFile, kind: FakeBlobKind) -> (r: String)
    ensures
        r@ == marked_value(file@, kind),
{
    let raw = match &file.name {
        Some(n) => cat4("fake_", kind.name(), "_", n.as_str()),
        None => cat4("fake_", kind.name(), "_", "blob"),
    };
    cat4(
        BLOB_FILE_SENTINEL,
        sanitize_blob_name(raw.as_str()).as_str(),
        "@",
        file.path.as_str(),
    )
}

/// The marked values for the files of the kind, in order.
pub fn fake_blob_files(files: &Vec<DirFile>, kind: FakeBlobKind) -> (r: Vec<String>)
    ensures
        texts(r@) == blob_values(views(files@), kind),
{
    let ghost all = views(files@);
    let mut out: Vec<String> = Vec::new();
    let mut i: usize = 0;
    proof {
        take_all(all);
        assert(texts(out@) =~= Seq::empty());
    }
    while i < files.len()
        invariant
            i <= files@.len(),
            all == views(files@),
            texts(out@) == matching_values(all.take(i as int), kind),
        decreases files@.len() - i,
    {
        proof {
            take_next(all, i as int);
        }
        if matches_kind(&files[i], kind) {
            let value = mark_file(&files[i], kind);
            proof {
                texts_push(out@, value);
            }
            out.push(value);
        }
        i = i + 1;
    }
    proof {
        take_all(all);
    }
    sort_texts(out)
}

fn text_ahead(a: &String, b: &String) -> (r: bool)
    ensures
        r == before(a@, b@),
{
    less(a.as_str(), b.as_str())
}

/// The order of texts can be sorted by.
pub proof fn text_order_weak()
    ensures
        weak_order(text_order()),
{
    let f = text_order();
    assert forall|a: Seq<char>, b: Seq<char>| #[trigger] f(a, b) implies !f(b, a) by {
        before_weak(a, b, b);
    }
    assert forall|a: Seq<char>, b: Seq<char>, c: Seq<char>|
        !#[trigger] f(b, a) && !#[trigger] f(c, b) implies !f(c, a) by {
        before_weak(a, b, c);
    }
}

/// The texts in order.
pub fn sort_texts(items: Vec<String>) -> (r: Vec<String>)
    ensures
        texts(r@) == sorted(texts(items@), text_order()),
{
    let ghost start = items@;
    proof {
        text_order_weak();
    }
    let r = stable_sort(items, text_ahead, Ghost(text_order()));
    assert(texts(r@) =~= views(r@));
    assert(texts(start) =~= views(start));
    r
}

/// The values of a parameter, with the payload files of a directory in place of each value
/// that asks for one.
pub fn expand_dynamic_param_values(
    name: &str,
    values: Vec<String>,
    dirs: &TextMap<Vec<DirFile>>,
) -> (r: Vec<String>)
    ensures
        texts(r@) == dynamic_values(name@, texts(values@), dirs@),
{
    if !str_eq(name, "blob") {
        return values;
    }
    let ghost all = texts(values@);
    let mut out: Vec<String> = Vec::new();
    let mut i: usize = 0;
    proof {
        take_all(all);
        assert(texts(out@) =~= Seq::empty());
    }
    while i < values.len()
        invariant
            i <= values@.len(),
            all == texts(values@),
            texts(out@) == with_dir_files(all.take(i as int), dirs@),
        decreases values@.len() - i,
    {
        proof {
            take_next(all, i as int);
        }
        match parse_fake_dir_marker(values[i].as_str()) {
            Some((kind, dir)) => {
                match dirs.get(dir.as_str()) {
                    Some(files) => {
                        let found = fake_blob_files(files, kind);
                        append_texts(&mut out, &found);
                    },
                    None => {
                        proof {
                            assert(blob_values(Seq::empty(), kind) =~= Seq::empty());
                            assert(texts(out@) + Seq::<Seq<char>>::empty() =~= texts(out@));
                        }
                    },
                }
            },
            None => {
                proof {
                    texts_push(out@, values@[i as int]);
                }
                out.push(values[i].clone());
            },
        }
        i = i + 1;
    }
    proof {
        take_all(all);
    }
    dedup_preserve_order(&out)
}

} // verus!
