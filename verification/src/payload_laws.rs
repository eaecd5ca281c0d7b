use vstd::prelude::*;
use crate::desync::{
    all_options, arg_options, arg_with_names, blob_name, blob_values, call_payloads, desync_place,
    dir_marker, distinct, dynamic_values, file_matches, files_in, is_desync_arg, is_payload_arg,
    labelled, marked_file, marked_value, matching_values, name_char, part_file, part_options,
    parts_with_names, payload_of_call, standard_payload, text_order, with_blob_options, with_call,
    with_dir_files, with_new_distinct, with_new_members, with_payload_option, without_repeats,
    DirFile, DirFileModel, FakeBlobKind,
};
use crate::selection_laws::sorted_members;
use crate::text::{
    begins, cut_first, first_at, first_at_unique, has_text, joined, lowered, nonempty, occurs_at,
    split_on,
};
use crate::text_laws::{cut_at_first, split_undoes_join};

verus! {

// ---------------------------------------------------------------------------
// The payloads of desync calls

/// Each protocol has its standard payload, the two versions of TLS the same one; whatever is
/// no protocol has none.
pub proof fn protocols_have_their_payloads(key: Seq<char>)
    ensures
        standard_payload(Some(key)) == Some("http_req"@) <==> key == "http"@,
        standard_payload(Some(key)) == Some("tls_client_hello"@) <==> key == "tls12"@ || key
            == "tls13"@,
        standard_payload(Some(key)) == Some("quic_initial"@) <==> key == "quic"@,
        standard_payload(Some(key)) is None <==> key != "http"@ && key != "tls12"@ && key
            != "tls13"@ && key != "quic"@,
        standard_payload(None) is None,
{
    reveal_strlit("http");
    reveal_strlit("tls12");
    reveal_strlit("tls13");
    reveal_strlit("quic");
    assert("http"@.len() != "tls12"@.len());
    assert("http"@.len() != "tls13"@.len());
    assert("http"@[0] != "quic"@[0]);
    assert("tls12"@[4] != "tls13"@[4]);
    assert("tls12"@.len() != "quic"@.len());
    assert("tls13"@.len() != "quic"@.len());
    reveal_strlit("http_req");
    reveal_strlit("tls_client_hello");
    reveal_strlit("quic_initial");
    assert("http_req"@.len() != "tls_client_hello"@.len());
    assert("http_req"@.len() != "quic_initial"@.len());
    assert("tls_client_hello"@.len() != "quic_initial"@.len());
}

/// The first part of a call that names payloads decides what the call works on, whatever its
/// function is and whatever stands around that part. A call that names none works on the
/// protocol's standard payload if its function is one of those that do, and on nothing else.
pub proof fn calls_name_their_payloads(
    parts: Seq<Seq<char>>,
    protocol_key: Option<Seq<char>>,
    i: int,
)
    requires
        parts.len() > 0,
        forall|j: int| 0 <= j < parts.len() ==> !(#[trigger] parts[j]).contains(':'),
    ensures
        ({
            let found = payload_of_call(joined(parts, seq![':']), protocol_key);
            let label = "payload="@;
            &&& 0 <= i < parts.len() && begins(parts[i], label) && parts[i].len() > label.len() && (
            forall|j: int| 0 <= j < i ==> !begins(#[trigger] parts[j], label)) ==> found == Some(
                parts[i].skip(label.len() as int),
            )
            &&& (forall|j: int| 0 <= j < parts.len() ==> !begins(#[trigger] parts[j], label)) ==> (
            found == if parts[0] == "drop"@ || parts[0] == "fake"@ || parts[0] == "rst"@
                || parts[0] == "multisplit"@ || parts[0] == "multidisorder"@
                || parts[0] == "fakedsplit"@ || parts[0] == "fakeddisorder"@
                || parts[0] == "tcpseg"@ || parts[0] == "udplen"@ {
                standard_payload(protocol_key)
            } else {
                None
            })
        }),
{
    split_undoes_join(parts, ':');
    labelled_first(parts, "payload="@, i);
}

proof fn labelled_first(parts: Seq<Seq<char>>, label: Seq<char>, i: int)
    ensures
        0 <= i < parts.len() && begins(parts[i], label) && (forall|j: int|
            0 <= j < i ==> !begins(#[trigger] parts[j], label)) ==> labelled(parts, label) == Some(
            parts[i].skip(label.len() as int),
        ),
        (forall|j: int| 0 <= j < parts.len() ==> !begins(#[trigger] parts[j], label)) ==> labelled(
            parts,
            label,
        ) is None,
    decreases parts.len(),
{
    if parts.len() > 0 {
        let rest = parts.drop_first();
        labelled_first(rest, label, i - 1);
        assert(forall|j: int| 0 <= j < rest.len() ==> #[trigger] rest[j] == parts[j + 1]);
        if !begins(parts[0], label) && 0 < i < parts.len() {
            assert(rest[i - 1] == parts[i]);
        }
    }
}

/// The payload `x` is one of those that the argument's call works on.
pub open spec fn call_works_on(
    arg: Seq<char>,
    protocol_key: Option<Seq<char>>,
    x: Seq<char>,
) -> bool {
    begins(arg, "--lua-desync="@) && match payload_of_call(
        arg.skip("--lua-desync="@.len() as int),
        protocol_key,
    ) {
        Some(p) => x.len() > 0 && split_on(p, ',').contains(x),
        None => false,
    }
}

proof fn nonempty_members(parts: Seq<Seq<char>>, x: Seq<char>)
    ensures
        nonempty(parts).contains(x) <==> x.len() > 0 && parts.contains(x),
    decreases parts.len(),
{
    if parts.len() > 0 {
        let init = parts.drop_last();
        nonempty_members(init, x);
        assert(parts[parts.len() - 1] == parts.last());
        if init.contains(x) {
            let k = choose|k: int| 0 <= k < init.len() && init[k] == x;
            assert(parts[k] == x);
        }
        if parts.contains(x) && x != parts.last() {
            let k = choose|k: int| 0 <= k < parts.len() && parts[k] == x;
            assert(init[k] == x);
        }
        if parts.last().len() > 0 {
            let before = nonempty(init);
            let all = before.push(parts.last());
            assert(all[before.len() as int] == parts.last());
            if before.contains(x) {
                let k = choose|k: int| 0 <= k < before.len() && before[k] == x;
                assert(all[k] == x);
            }
            if all.contains(x) && x != parts.last() {
                let k = choose|k: int| 0 <= k < all.len() && all[k] == x;
                assert(before[k] == x);
            }
        }
    }
}

proof fn payloads_from(
    args: Seq<Seq<char>>,
    protocol_key: Option<Seq<char>>,
    i: int,
    found: Seq<Seq<char>>,
    x: Seq<char>,
)
    requires
        0 <= i,
        forall|k: int| 0 <= k < args.len() ==> #[trigger] args[k] != "--lua-desync"@,
    ensures
        call_payloads(args, protocol_key, i, found).contains(x) <==> found.contains(x) || exists|
            k: int,
        |
            #![trigger args[k]]
            i <= k < args.len() && call_works_on(args[k], protocol_key, x),
        distinct(found) ==> distinct(call_payloads(args, protocol_key, i, found)),
    decreases args.len() - i,
{
    if i < args.len() {
        if begins(args[i], "--lua-desync="@) {
            let lua = args[i].skip("--lua-desync="@.len() as int);
            let more = with_call(found, lua, protocol_key);
            payloads_from(args, protocol_key, i + 1, more, x);
            if let Some(p) = payload_of_call(lua, protocol_key) {
                with_new_members(found, nonempty(split_on(p, ',')), x);
                nonempty_members(split_on(p, ','), x);
                if distinct(found) {
                    with_new_distinct(found, nonempty(split_on(p, ',')));
                }
            }
            assert(more.contains(x) <==> found.contains(x) || call_works_on(
                args[i],
                protocol_key,
                x,
            ));
        } else {
            assert(args[i] != "--lua-desync"@);
            payloads_from(args, protocol_key, i + 1, found, x);
        }
    }
}

/// The payloads of the arguments are those that their desync calls work on, all of them and no
/// others, each once.
pub proof fn payloads_are_those_of_the_calls(
    args: Seq<Seq<char>>,
    protocol_key: Option<Seq<char>>,
    x: Seq<char>,
)
    requires
        forall|k: int| 0 <= k < args.len() ==> #[trigger] args[k] != "--lua-desync"@,
    ensures
        call_payloads(args, protocol_key, 0, Seq::empty()).contains(x) <==> exists|k: int|
            #![trigger args[k]]
            0 <= k < args.len() && call_works_on(args[k], protocol_key, x),
        distinct(call_payloads(args, protocol_key, 0, Seq::empty())),
{
    payloads_from(args, protocol_key, 0, Seq::empty(), x);
}

proof fn first_call(args: Seq<Seq<char>>)
    ensures
        0 <= desync_place(args) <= args.len(),
        desync_place(args) < args.len() ==> is_desync_arg(args[desync_place(args)]),
        forall|j: int| 0 <= j < desync_place(args) ==> !is_desync_arg(#[trigger] args[j]),
    decreases args.len(),
{
    if args.len() > 0 && !is_desync_arg(args[0]) {
        let rest = args.drop_first();
        first_call(rest);
        assert(forall|j: int| 0 <= j < rest.len() ==> #[trigger] rest[j] == args[j + 1]);
        assert forall|j: int| 0 <= j < desync_place(args) implies !is_desync_arg(
            #[trigger] args[j],
        ) by {
            if j > 0 {
                assert(rest[j - 1] == args[j]);
            }
        }
    }
}

/// The argument begins a desync call.
pub open spec fn calls_desync(arg: Seq<char>) -> bool {
    arg == "--lua-desync"@ || begins(arg, "--lua-desync="@)
}

/// The argument names payloads.
pub open spec fn names_payloads(arg: Seq<char>) -> bool {
    arg == "--payload"@ || begins(arg, "--payload="@)
}

/// Arguments that name payloads, or whose calls work on none, stay as they are. To all others
/// one argument is added, in front of the first call, that names the payloads of the calls;
/// taking it away again gives back the arguments.
pub proof fn payloads_are_named_once(args: Seq<Seq<char>>, protocol_key: Option<Seq<char>>, i: int)
    ensures
        ({
            let out = with_payload_option(args, protocol_key);
            let payloads = call_payloads(args, protocol_key, 0, Seq::empty());
            &&& 0 <= i < args.len() && names_payloads(args[i]) ==> out == args
            &&& payloads.len() == 0 ==> out == args
            &&& payloads.len() > 0 && (forall|j: int|
                0 <= j < args.len() ==> !names_payloads(#[trigger] args[j])) ==> exists|place: int|
                #![trigger out[place]]
                {
                    &&& 0 <= place <= args.len()
                    &&& out.len() == args.len() + 1
                    &&& out[place] == "--payload="@ + joined(payloads, ","@)
                    &&& out.remove(place) == args
                    &&& forall|j: int| 0 <= j < place ==> !calls_desync(#[trigger] args[j])
                    &&& place < args.len() ==> calls_desync(args[place])
                }
        }),
{
    let out = with_payload_option(args, protocol_key);
    let payloads = call_payloads(args, protocol_key, 0, Seq::empty());
    let named = exists|k: int| 0 <= k < args.len() && is_payload_arg(#[trigger] args[k]);
    if 0 <= i < args.len() && names_payloads(args[i]) {
        assert(is_payload_arg(args[i]));
    }
    if payloads.len() > 0 && (forall|j: int|
        0 <= j < args.len() ==> !names_payloads(#[trigger] args[j])) {
        assert(!named) by {
            if named {
                let k = choose|k: int| 0 <= k < args.len() && is_payload_arg(#[trigger] args[k]);
                assert(names_payloads(args[k]));
            }
        }
        first_call(args);
        let place = desync_place(args);
        assert(out[place] == "--payload="@ + joined(payloads, ","@));
        assert(out.remove(place) =~= args);
        assert forall|j: int| 0 <= j < place implies !calls_desync(#[trigger] args[j]) by {
            assert(!is_desync_arg(args[j]));
        }
    }
}

// ---------------------------------------------------------------------------
// Payload files

/// A marked value stands for the file that it names: the name up to the first at sign, and
/// behind it the path.
pub proof fn marked_values_are_read(name: Seq<char>, path: Seq<char>)
    requires
        !name.contains('@'),
    ensures
        name.len() > 0 && path.len() > 0 ==> part_file(
            "blob=__zapret_checker_blob_file__"@ + name + "@"@ + path,
        ) == Some((name, path)),
        marked_file("__zapret_checker_blob_file__"@ + name + "@"@ + path) == if name.len() > 0
            && path.len() > 0 {
            Some((name, path))
        } else {
            None
        },
        forall|value: Seq<char>|
            !begins(value, "__zapret_checker_blob_file__"@) ==> #[trigger] marked_file(
                value,
            ) is None,
{
    let mark = "__zapret_checker_blob_file__"@;
    let value = mark + name + "@"@ + path;
    reveal_strlit("@");
    assert("@"@ =~= seq!['@']);
    assert(value.subrange(0, mark.len() as int) =~= mark);
    assert(occurs_at(value, mark, 0));
    assert(value.skip(mark.len() as int) =~= name + seq!['@'] + path);
    cut_at_first(name, '@', path);
    reveal_strlit("blob=");
    reveal_strlit("__zapret_checker_blob_file__");
    reveal_strlit("blob=__zapret_checker_blob_file__");
    let part = "blob=__zapret_checker_blob_file__"@ + name + "@"@ + path;
    assert("blob=__zapret_checker_blob_file__"@ =~= "blob="@ + mark);
    assert(part.subrange(0, 5) =~= "blob="@);
    assert(occurs_at(part, "blob="@, 0));
    assert(part.skip(5) =~= value);
}

/// A file of a directory is found again under its marked value: the name tells the kind and
/// the file, and the path is the file's own.
pub proof fn marked_files_are_found(file: DirFileModel, kind: FakeBlobKind)
    requires
        file.path.len() > 0,
    ensures
        marked_file(marked_value(file, kind)) == Some(
            (
                blob_name(
                    (if kind == FakeBlobKind::Http {
                        "fake_http_"@
                    } else if kind == FakeBlobKind::Tls {
                        "fake_tls_"@
                    } else if kind == FakeBlobKind::Quic {
                        "fake_quic_"@
                    } else {
                        "fake_fake_"@
                    }) + match file.name {
                        Some(n) => n,
                        None => "blob"@,
                    },
                ),
                file.path,
            ),
        ),
{
    let own = match file.name {
        Some(n) => n,
        None => "blob"@,
    };
    let front = "fake_"@ + kind.label() + "_"@;
    reveal_strlit("fake_");
    reveal_strlit("_");
    reveal_strlit("http");
    reveal_strlit("tls");
    reveal_strlit("quic");
    reveal_strlit("fake");
    reveal_strlit("fake_http_");
    reveal_strlit("fake_tls_");
    reveal_strlit("fake_quic_");
    reveal_strlit("fake_fake_");
    match kind {
        FakeBlobKind::Http => assert(front =~= "fake_http_"@),
        FakeBlobKind::Tls => assert(front =~= "fake_tls_"@),
        FakeBlobKind::Quic => assert(front =~= "fake_quic_"@),
        FakeBlobKind::All => assert(front =~= "fake_fake_"@),
    }
    let name = blob_name(front + own);
    names_are_clean(front + own);
    assert(!name.contains('@')) by {
        if name.contains('@') {
            let k = choose|k: int| 0 <= k < name.len() && name[k] == '@';
            assert(is_name_char(name[k]));
        }
    }
    assert(name.len() > 0);
    marked_values_are_read(name, file.path);
}

/// A lower-case letter, a digit or an underscore.
pub open spec fn is_name_char(c: char) -> bool {
    'a' <= c <= 'z' || '0' <= c <= '9' || c == '_'
}

/// A name is made of lower-case letters, digits and underscores, with no digit in front. It
/// says the text character by character, behind an underscore where the text is empty or
/// begins with a digit: capitals as small letters, and an underscore for what no name holds.
pub proof fn names_are_clean(s: Seq<char>)
    ensures
        ({
            let name = blob_name(s);
            let shift: int = if s.len() == 0 || '0' <= s[0] <= '9' {
                1
            } else {
                0
            };
            &&& name.len() == s.len() + shift
            &&& name.len() > 0
            &&& !('0' <= name[0] <= '9')
            &&& forall|i: int| 0 <= i < name.len() ==> is_name_char(#[trigger] name[i])
            &&& shift == 1 ==> name[0] == '_'
            &&& forall|i: int|
                #![trigger s[i]]
                0 <= i < s.len() ==> {
                    &&& is_name_char(s[i]) ==> name[i + shift] == s[i]
                    &&& 'A' <= s[i] <= 'Z' ==> name[i + shift] == ((s[i] as u8) + 32) as char
                    &&& !is_name_char(s[i]) && !('A' <= s[i] <= 'Z') ==> name[i + shift] == '_'
                }
        }),
{
    let t = Seq::new(s.len(), |i: int| name_char(s[i]));
    assert forall|i: int| 0 <= i < t.len() implies is_name_char(#[trigger] t[i]) by {
        assert(t[i] == name_char(s[i]));
    }
    if s.len() > 0 {
        assert(t[0] == name_char(s[0]));
    }
}

/// What is a name already stays as it is.
pub proof fn names_stay(s: Seq<char>)
    ensures
        blob_name(blob_name(s)) == blob_name(s),
{
    let name = blob_name(s);
    names_are_clean(s);
    names_are_clean(name);
    assert forall|i: int| 0 <= i < name.len() implies blob_name(name)[i] == name[i] by {
        assert(is_name_char(name[i]));
    }
    assert(blob_name(name) =~= name);
}

proof fn kind_markers_differ()
    ensures
        FakeBlobKind::marked("fake_dir_http"@) == Some(FakeBlobKind::Http),
        FakeBlobKind::marked("fake_dir_tls"@) == Some(FakeBlobKind::Tls),
        FakeBlobKind::marked("fake_dir_quic"@) == Some(FakeBlobKind::Quic),
        FakeBlobKind::marked("fake_dir_all"@) == Some(FakeBlobKind::All),
        !"fake_dir_http"@.contains(':'),
        !"fake_dir_tls"@.contains(':'),
        !"fake_dir_quic"@.contains(':'),
        !"fake_dir_all"@.contains(':'),
{
    reveal_strlit("fake_dir_http");
    reveal_strlit("fake_dir_tls");
    reveal_strlit("fake_dir_quic");
    reveal_strlit("fake_dir_all");
    assert("fake_dir_http"@.len() != "fake_dir_tls"@.len());
    assert("fake_dir_http"@[9] != "fake_dir_quic"@[9]);
    assert("fake_dir_http"@.len() != "fake_dir_all"@.len());
    assert("fake_dir_tls"@.len() != "fake_dir_quic"@.len());
    assert("fake_dir_tls"@[9] != "fake_dir_all"@[9]);
    assert("fake_dir_quic"@.len() != "fake_dir_all"@.len());
}

/// A value that asks for the files of a directory tells the kind in front of the first colon
/// and the directory behind it; with the kind alone it asks for the directory where payload
/// files lie. A value that begins otherwise asks for none.
pub proof fn directories_are_asked_for(dir: Seq<char>, value: Seq<char>)
    ensures
        dir_marker("fake_dir_http"@ + seq![':'] + dir) == Some((FakeBlobKind::Http, dir)),
        dir_marker("fake_dir_tls"@ + seq![':'] + dir) == Some((FakeBlobKind::Tls, dir)),
        dir_marker("fake_dir_quic"@ + seq![':'] + dir) == Some((FakeBlobKind::Quic, dir)),
        dir_marker("fake_dir_all"@ + seq![':'] + dir) == Some((FakeBlobKind::All, dir)),
        dir_marker("fake_dir_http"@) == Some((FakeBlobKind::Http, "/opt/zapret2/files/fake"@)),
        dir_marker("fake_dir_tls"@) == Some((FakeBlobKind::Tls, "/opt/zapret2/files/fake"@)),
        dir_marker("fake_dir_quic"@) == Some((FakeBlobKind::Quic, "/opt/zapret2/files/fake"@)),
        dir_marker("fake_dir_all"@) == Some((FakeBlobKind::All, "/opt/zapret2/files/fake"@)),
        !begins(value, "fake_dir_"@) ==> dir_marker(value) is None,
{
    kind_markers_differ();
    cut_at_first("fake_dir_http"@, ':', dir);
    cut_at_first("fake_dir_tls"@, ':', dir);
    cut_at_first("fake_dir_quic"@, ':', dir);
    cut_at_first("fake_dir_all"@, ':', dir);
    if let Some((kind, found)) = dir_marker(value) {
        let marker = match cut_first(value, ':') {
            Some((marker, _)) => marker,
            None => value,
        };
        reveal_strlit("fake_dir_");
        reveal_strlit("fake_dir_http");
        reveal_strlit("fake_dir_tls");
        reveal_strlit("fake_dir_quic");
        reveal_strlit("fake_dir_all");
        assert(marker == value.take(marker.len() as int) && marker.len() <= value.len()) by {
            if value.contains(':') {
                first_of(value, ':');
                let i = choose|i: int| first_at(value, ':', i);
                assert(first_at(value, ':', i));
                first_at_unique(value, ':', i);
            } else {
                assert(value.take(value.len() as int) =~= value);
            }
        }
        assert(marker.take(9) =~= "fake_dir_"@);
        assert(value.subrange(0, 9) =~= marker.take(9));
    }
}

proof fn first_of(s: Seq<char>, c: char)
    requires
        s.contains(c),
    ensures
        exists|i: int| first_at(s, c, i),
    decreases s.len(),
{
    let k = choose|k: int| 0 <= k < s.len() && s[k] == c;
    let front = s.take(k);
    if front.contains(c) {
        first_of(front, c);
        let i = choose|i: int| first_at(front, c, i);
        assert forall|j: int| 0 <= j < i implies s[j] != c by {
            assert(front[j] == s[j]);
        }
        assert(s[i] == front[i]);
        assert(first_at(s, c, i));
    } else {
        assert forall|j: int| 0 <= j < k implies s[j] != c by {
            assert(front.contains(front[j]));
        }
        assert(first_at(s, c, k));
    }
}

/// The name of a file tells its kind in letters of either case: TLS by either of its two
/// names, the others by their own, and every file is of the kind of all.
pub proof fn files_tell_their_kind(path: Seq<char>, name: Seq<char>)
    ensures
        ({
            let file = DirFileModel { path, name: Some(name) };
            let told = lowered(name);
            &&& file_matches(file, FakeBlobKind::Http) <==> has_text(told, "http"@)
            &&& file_matches(file, FakeBlobKind::Quic) <==> has_text(told, "quic"@)
            &&& file_matches(file, FakeBlobKind::Tls) <==> has_text(told, "tls"@) || has_text(
                told,
                "ssl"@,
            )
            &&& file_matches(file, FakeBlobKind::All)
        }),
{
}

/// The values for a directory are those of its files of the kind, all of them and no others.
pub proof fn every_matching_file_counts(
    files: Seq<DirFileModel>,
    kind: FakeBlobKind,
    x: Seq<char>,
)
    ensures
        blob_values(files, kind).contains(x) <==> exists|i: int|
            #![trigger files[i]]
            0 <= i < files.len() && file_matches(files[i], kind) && marked_value(files[i], kind)
                == x,
{
    sorted_members(matching_values(files, kind), text_order(), x);
    matching_members(files, kind, x);
}

proof fn matching_members(files: Seq<DirFileModel>, kind: FakeBlobKind, x: Seq<char>)
    ensures
        matching_values(files, kind).contains(x) <==> exists|i: int|
            #![trigger files[i]]
            0 <= i < files.len() && file_matches(files[i], kind) && marked_value(files[i], kind)
                == x,
    decreases files.len(),
{
    if files.len() > 0 {
        let init = files.drop_last();
        let before = matching_values(init, kind);
        let all = matching_values(files, kind);
        matching_members(init, kind, x);
        assert(forall|i: int| 0 <= i < init.len() ==> #[trigger] init[i] == files[i]);
        assert(files[files.len() - 1] == files.last());
        if file_matches(files.last(), kind) {
            let own = marked_value(files.last(), kind);
            assert(all == before.push(own));
            assert(all[before.len() as int] == own);
            if before.contains(x) {
                let k = choose|k: int| 0 <= k < before.len() && before[k] == x;
                assert(all[k] == x);
            }
            if all.contains(x) && x != own {
                let k = choose|k: int| 0 <= k < all.len() && all[k] == x;
                assert(before[k] == x);
            }
        }
        if before.contains(x) {
            let i = choose|i: int|
                #![trigger init[i]]
                0 <= i < init.len() && file_matches(init[i], kind) && marked_value(init[i], kind)
                    == x;
            assert(files[i] == init[i]);
        }
        if exists|i: int|
            #![trigger files[i]]
            0 <= i < files.len() && file_matches(files[i], kind) && marked_value(files[i], kind)
                == x {
            let i = choose|i: int|
                #![trigger files[i]]
                0 <= i < files.len() && file_matches(files[i], kind) && marked_value(
                    files[i],
                    kind,
                ) == x;
            if i < init.len() {
                assert(init[i] == files[i]);
            }
        }
    }
}

/// The values of a payload parameter are its own values, and in place of each one that asks
/// for a directory those of the directory's files, each value once. The values of any other
/// parameter stay as they are.
pub proof fn directories_are_expanded(
    name: Seq<char>,
    values: Seq<Seq<char>>,
    dirs: Seq<(Seq<char>, Vec<DirFile>)>,
    x: Seq<char>,
)
    ensures
        name != "blob"@ ==> dynamic_values(name, values, dirs) == values,
        name == "blob"@ ==> distinct(dynamic_values(name, values, dirs)),
        name == "blob"@ ==> (dynamic_values(name, values, dirs).contains(x) <==> (values.contains(
            x,
        ) && dir_marker(x) is None) || exists|i: int|
            #![trigger values[i]]
            0 <= i < values.len() && dir_asked(values[i], dirs, x)),
{
    with_new_members(Seq::empty(), with_dir_files(values, dirs), x);
    with_new_distinct(Seq::empty(), with_dir_files(values, dirs));
    expanded_members(values, dirs, x);
}

/// The value asks for a directory, and `x` is one of the values for its files.
pub open spec fn dir_asked(
    value: Seq<char>,
    dirs: Seq<(Seq<char>, Vec<DirFile>)>,
    x: Seq<char>,
) -> bool {
    match dir_marker(value) {
        Some((kind, dir)) => blob_values(files_in(dirs, dir), kind).contains(x),
        None => false,
    }
}

proof fn expanded_members(
    values: Seq<Seq<char>>,
    dirs: Seq<(Seq<char>, Vec<DirFile>)>,
    x: Seq<char>,
)
    ensures
        with_dir_files(values, dirs).contains(x) <==> (values.contains(x) && dir_marker(
            x,
        ) is None) || exists|i: int|
            #![trigger values[i]]
            0 <= i < values.len() && dir_asked(values[i], dirs, x),
    decreases values.len(),
{
    if values.len() > 0 {
        let init = values.drop_last();
        let last = values.last();
        let before = with_dir_files(init, dirs);
        let all = with_dir_files(values, dirs);
        expanded_members(init, dirs, x);
        assert(forall|i: int| 0 <= i < init.len() ==> #[trigger] init[i] == values[i]);
        assert(values[values.len() - 1] == last);
        if init.contains(x) {
            let k = choose|k: int| 0 <= k < init.len() && init[k] == x;
            assert(values[k] == x);
        }
        if values.contains(x) && x != last {
            let k = choose|k: int| 0 <= k < values.len() && values[k] == x;
            assert(init[k] == x);
        }
        let asked = exists|i: int|
            #![trigger values[i]]
            0 <= i < values.len() && dir_asked(values[i], dirs, x);
        let asked_before = exists|i: int|
            #![trigger init[i]]
            0 <= i < init.len() && dir_asked(init[i], dirs, x);
        if asked_before {
            let i = choose|i: int|
                #![trigger init[i]]
                0 <= i < init.len() && dir_asked(init[i], dirs, x);
            assert(dir_asked(values[i], dirs, x));
        }
        if asked && !asked_before {
            let i = choose|i: int|
                #![trigger values[i]]
                0 <= i < values.len() && dir_asked(values[i], dirs, x);
            if i < init.len() {
                assert(dir_asked(init[i], dirs, x));
            }
            assert(dir_asked(last, dirs, x));
        }
        assert(asked <==> asked_before || dir_asked(last, dirs, x));
        match dir_marker(last) {
            Some((kind, dir)) => {
                let more = blob_values(files_in(dirs, dir), kind);
                in_either(before, more, x);
            },
            None => {
                assert(all =~= before + seq![last]);
                in_either(before, seq![last], x);
                if x == last {
                    assert(seq![last][0] == x);
                }
            },
        }
    }
}

proof fn in_either(a: Seq<Seq<char>>, b: Seq<Seq<char>>, x: Seq<char>)
    ensures
        (a + b).contains(x) <==> a.contains(x) || b.contains(x),
{
    let s = a + b;
    if a.contains(x) {
        let k = choose|k: int| 0 <= k < a.len() && a[k] == x;
        assert(s[k] == x);
    }
    if b.contains(x) {
        let k = choose|k: int| 0 <= k < b.len() && b[k] == x;
        assert(s[a.len() + k] == x);
    }
    if s.contains(x) {
        let k = choose|k: int| 0 <= k < s.len() && s[k] == x;
        if k < a.len() {
            assert(a[k] == x);
        } else {
            assert(b[k - a.len()] == x);
        }
    }
}

/// The payload files of a call, which stand in it as marked values, are called by their names,
/// and each of them has the option that loads it. The other parts of the call stay.
pub proof fn files_are_named_and_loaded(parts: Seq<Seq<char>>, i: int)
    requires
        0 <= i < parts.len(),
    ensures
        parts_with_names(parts).len() == parts.len(),
        part_file(parts[i]) is None ==> parts_with_names(parts)[i] == parts[i],
        part_file(parts[i]) matches Some((name, path)) ==> parts_with_names(parts)[i] == "blob="@
            + name && part_options(parts).contains("--blob="@ + name + ":@"@ + path),
        (forall|j: int| 0 <= j < parts.len() ==> part_file(#[trigger] parts[j]) is None)
            ==> part_options(parts).len() == 0,
    decreases parts.len(),
{
    let init = parts.drop_last();
    let before = part_options(init);
    let all = part_options(parts);
    assert(forall|j: int| 0 <= j < init.len() ==> #[trigger] init[j] == parts[j]);
    assert(parts[parts.len() - 1] == parts.last());
    if i < init.len() {
        files_are_named_and_loaded(init, i);
        if let Some((name, path)) = part_file(parts[i]) {
            let option = "--blob="@ + name + ":@"@ + path;
            assert(before.contains(option));
            let k = choose|k: int| 0 <= k < before.len() && before[k] == option;
            assert(all[k] == option);
        }
    } else {
        if let Some((name, path)) = part_file(parts[i]) {
            assert(all[before.len() as int] == "--blob="@ + name + ":@"@ + path);
        }
        if init.len() > 0 {
            files_are_named_and_loaded(init, 0);
        }
    }
}

proof fn options_of_each(args: Seq<Seq<char>>, i: int, x: Seq<char>)
    requires
        0 <= i < args.len(),
        arg_options(args[i]).contains(x),
    ensures
        all_options(args).contains(x),
    decreases args.len(),
{
    in_either(all_options(args.drop_last()), arg_options(args.last()), x);
    if i < args.len() - 1 {
        assert(args.drop_last()[i] == args[i]);
        options_of_each(args.drop_last(), i, x);
    }
}

/// The arguments keep their number and order; only the options that load payload files are
/// added, each once, every one of them in front of the first desync call.
pub proof fn files_are_loaded_before_calls(args: Seq<Seq<char>>)
    ensures
        ({
            let out = with_blob_options(args);
            let named = Seq::new(args.len(), |i: int| arg_with_names(args[i]));
            let added = out.len() - args.len();
            &&& all_options(args).len() == 0 ==> out == named
            &&& added >= 0
            &&& all_options(args).len() > 0 ==> exists|place: int|
                #![trigger out.subrange(place, place + added)]
                {
                    &&& 0 <= place <= args.len()
                    &&& out.take(place) + out.skip(place + added) == named
                    &&& distinct(out.subrange(place, place + added))
                    &&& forall|j: int| 0 <= j < place ==> !calls_desync(#[trigger] out[j])
                    &&& forall|i: int, x: Seq<char>|
                        0 <= i < args.len() && #[trigger] arg_options(args[i]).contains(x)
                            ==> out.subrange(place, place + added).contains(x)
                }
        }),
{
    let out = with_blob_options(args);
    let named = Seq::new(args.len(), |i: int| arg_with_names(args[i]));
    let options = without_repeats(all_options(args));
    let place = desync_place(named);
    let added = out.len() - args.len();
    first_call(named);
    if all_options(args).len() > 0 {
        assert(named.take(place) + named.skip(place) =~= named);
        assert(added == options.len());
        assert(out.take(place) =~= named.take(place));
        assert(out.skip(place + added) =~= named.skip(place));
        assert(out.subrange(place, place + added) =~= options);
        with_new_distinct(Seq::empty(), all_options(args));
        assert forall|j: int| 0 <= j < place implies !calls_desync(#[trigger] out[j]) by {
            assert(out[j] == named[j]);
            assert(!is_desync_arg(named[j]));
        }
        assert forall|i: int, x: Seq<char>|
            0 <= i < args.len()
                && #[trigger] arg_options(args[i]).contains(x) implies options.contains(
            x,
        ) by {
            options_of_each(args, i, x);
            with_new_members(Seq::empty(), all_options(args), x);
        }
    }
}

/// An argument that is no desync call, or names no payload file, stays as it is and loads
/// none.
pub proof fn other_arguments_stay(arg: Seq<char>)
    ensures
        !begins(arg, "--lua-desync="@) ==> arg_with_names(arg) == arg && arg_options(arg).len()
            == 0,
        arg_options(arg).len() == 0 ==> arg_with_names(arg) == arg,
{
}

} // verus!
