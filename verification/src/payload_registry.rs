use vstd::prelude::*;
use crate::config::{
    alias_form_fault, check_alias_form, check_reserved_alias, group_of, protocol_group,
    reserved_alias_fault, BlobConfig, PayloadConfig, PayloadProtocolConfig, ProtocolGroup,
};
use crate::fault::{done, quote, quoted, seen, sooner, unless, Fault};
use crate::map::{
    entry_texts, entry_texts_with, sort_unique, unique_sorted, value_at, with_entry, TextMap,
};
use crate::number::{dec, decimal, decimal_sum};
use crate::path::{file_stem, file_stem_of, join_path, path_under};
use crate::text::{
    alnum, cat2, cat3, cat4, chars_of, is_alnum, opt_text, str_eq, strip_end, strip_start,
    stripped_end, stripped_start, take_all, take_next, texts, texts_push,
};

verus! {

/// The protocol that a payload imitates.
#[derive(Debug, Clone, Copy, PartialEq, Eq, Structural)]
pub enum PayloadProtocol {
    Http,
    Tls,
    Quic,
}

impl PayloadProtocol {
    /// How a message names the protocol.
    pub open spec fn name(self) -> Seq<char> {
        match self {
            PayloadProtocol::Http => "Http"@,
            PayloadProtocol::Tls => "Tls"@,
            PayloadProtocol::Quic => "Quic"@,
        }
    }

    fn label(self) -> (r: &'static str)
        ensures
            r@ == self.name(),
    {
        match self {
            PayloadProtocol::Http => "Http",
            PayloadProtocol::Tls => "Tls",
            PayloadProtocol::Quic => "Quic",
        }
    }
}

/// A payload that strategies can send: a builtin one, or one out of a file.
#[derive(Debug)]
pub struct PayloadDef {
    pub protocol: PayloadProtocol,
    pub alias: String,
    pub path: Option<String>,
    pub builtin: bool,
}

/// A payload by its contents.
pub struct PayloadModel {
    pub protocol: PayloadProtocol,
    pub alias: Seq<char>,
    pub path: Option<Seq<char>>,
    pub builtin: bool,
}

impl View for PayloadDef {
    type V = PayloadModel;

    open spec fn view(&self) -> PayloadModel {
        PayloadModel {
            protocol: self.protocol,
            alias: self.alias@,
            path: opt_text(self.path),
            builtin: self.builtin,
        }
    }
}

/// The payloads by their contents.
pub open spec fn payload_models(s: Seq<PayloadDef>) -> Seq<PayloadModel> {
    Seq::new(s.len(), |i: int| s[i]@)
}

/// The aliases of the payloads, by protocol.
#[derive(Debug)]
pub struct PayloadAliases {
    pub http: Vec<String>,
    pub tls: Vec<String>,
    pub quic: Vec<String>,
}

impl PayloadAliases {
    /// The aliases for a protocol key.
    pub open spec fn of_key(self, protocol_key: Seq<char>) -> Seq<Seq<char>> {
        match group_of(protocol_key) {
            Some(ProtocolGroup::Http) => texts(self.http@),
            Some(ProtocolGroup::Tls) => texts(self.tls@),
            Some(ProtocolGroup::Quic) => texts(self.quic@),
            None => Seq::empty(),
        }
    }

    /// The aliases for a protocol key; none for a key that names no protocol.
    pub fn for_protocol_key(&self, protocol_key: &str) -> (r: &[String])
        ensures
            texts(r@) == self.of_key(protocol_key@),
    {
        match protocol_group(protocol_key) {
            Some(ProtocolGroup::Http) => self.http.as_slice(),
            Some(ProtocolGroup::Tls) => self.tls.as_slice(),
            Some(ProtocolGroup::Quic) => self.quic.as_slice(),
            None => {
                let none: &[String] = &[];
                assert(texts(none@) =~= Seq::empty());
                none
            },
        }
    }
}

// ---------------------------------------------------------------------------
// Paths on disk

/// What a path leads to.
#[derive(Debug, Clone, Copy, PartialEq, Eq, Structural)]
pub enum PathKind {
    Missing,
    File,
    Directory,
    Other,
}

/// What `path` leads to, by a list of the paths that lead somewhere.
pub open spec fn kind_of(disk: Seq<(Seq<char>, PathKind)>, path: Seq<char>) -> PathKind {
    match value_at(disk, path) {
        Some(kind) => kind,
        None => PathKind::Missing,
    }
}

fn kind_at(disk: &TextMap<PathKind>, path: &str) -> (r: PathKind)
    ensures
        r == kind_of(disk@, path@),
{
    match disk.get(path) {
        Some(kind) => *kind,
        None => PathKind::Missing,
    }
}

// ---------------------------------------------------------------------------
// Aliases out of file names

/// The lower-case form of a character, which may be more than one.
pub uninterp spec fn lowercase_of(c: char) -> Seq<char>;

/// Calls `char::to_lowercase` and writes what it gives into a string. The result is a
/// function of the character alone.
#[verifier::external_body]
fn lowercase(c: char) -> (r: String)
    ensures
        r@ == lowercase_of(c),
{
    c.to_lowercase().to_string()
}

/// `s` in lower case, character by character.
pub open spec fn lowercased(s: Seq<char>) -> Seq<char>
    decreases s.len(),
{
    if s.len() == 0 {
        Seq::empty()
    } else {
        lowercased(s.drop_last()) + lowercase_of(s.last())
    }
}

/// `s` with one underscore in place of each longest run without ASCII letters or digits.
pub open spec fn squeezed(s: Seq<char>) -> Seq<char>
    decreases s.len(),
{
    if s.len() == 0 {
        Seq::empty()
    } else if is_alnum(s.last()) {
        squeezed(s.drop_last()).push(s.last())
    } else if s.len() > 1 && !is_alnum(s[s.len() - 2]) {
        squeezed(s.drop_last())
    } else {
        squeezed(s.drop_last()).push('_')
    }
}

/// The alias made out of a file name: lower case, its words joined by single underscores.
pub open spec fn alias_of_stem(stem: Seq<char>) -> Seq<char> {
    stripped_end(stripped_start(squeezed(lowercased(stem)), '_'), '_')
}

/// The alias made out of the name of the file that a path leads to.
pub open spec fn payload_alias(path: Seq<char>) -> Result<Seq<char>, Seq<char>> {
    match file_stem_of(path) {
        None => Err("payload file must have a valid UTF-8 file name"@),
        Some(stem) => match alias_form_fault(alias_of_stem(stem)) {
            Some(e) => Err(e),
            None => Ok(alias_of_stem(stem)),
        },
    }
}

fn lower_text(s: &str) -> (r: String)
    ensures
        r@ == lowercased(s@),
{
    let cs = chars_of(s);
    let mut out = String::new();
    let mut i: usize = 0;
    proof {
        take_all(cs@);
    }
    while i < cs.len()
        invariant
            i <= cs@.len(),
            out@ == lowercased(cs@.take(i as int)),
        decreases cs@.len() - i,
    {
        proof {
            take_next(cs@, i as int);
        }
        out.append(lowercase(cs[i]).as_str());
        i = i + 1;
    }
    proof {
        take_all(cs@);
    }
    out
}

/// The alias that is made out of a stem in lower case.
pub fn squeeze(lower: &str) -> (r: String)
    ensures
        r@ == stripped_end(stripped_start(squeezed(lower@), '_'), '_'),
{
    let cs = chars_of(lower);
    let mut out = String::new();
    let mut previous_underscore: bool = false;
    let mut i: usize = 0;
    proof {
        take_all(cs@);
    }
    while i < cs.len()
        invariant
            i <= cs@.len(),
            previous_underscore == (i > 0 && !is_alnum(cs@[i - 1])),
            out@ == squeezed(cs@.take(i as int)),
        decreases cs@.len() - i,
    {
        proof {
            take_next(cs@, i as int);
        }
        if alnum(cs[i]) {
            out.push(cs[i]);
            previous_underscore = false;
        } else if !previous_underscore {
            out.push('_');
            previous_underscore = true;
        }
        i = i + 1;
    }
    proof {
        take_all(cs@);
    }
    strip_end(strip_start(out.as_str(), '_').as_str(), '_')
}

/// Makes an alias out of the name of the file that a path leads to.
pub fn make_payload_alias(path: &str) -> (r: Result<String, Fault>)
    ensures
        seen(r) == payload_alias(path@),
{
    match file_stem(path) {
        None => Err(Fault::new("payload file must have a valid UTF-8 file name")),
        Some(stem) => {
            let alias = squeeze(lower_text(stem.as_str()).as_str());
            match validate_payload_alias(alias.as_str()) {
                Ok(_) => Ok(alias),
                Err(e) => Err(e),
            }
        },
    }
}

/// Checks that an alias is not empty and holds ASCII letters, digits and underscores only.
pub fn validate_payload_alias(alias: &str) -> (r: Result<(), Fault>)
    ensures
        done(r) == unless(alias_form_fault(alias@)),
{
    check_alias_form(alias)
}

// ---------------------------------------------------------------------------
// The registry

/// One of the payloads goes by `alias`.
pub open spec fn alias_taken(registry: Seq<PayloadModel>, alias: Seq<char>) -> bool {
    exists|i: int| 0 <= i < registry.len() && (#[trigger] registry[i]).alias == alias
}

/// The registry with one payload more, whose alias must be new.
pub open spec fn with_payload(registry: Seq<PayloadModel>, payload: PayloadModel) -> Result<
    Seq<PayloadModel>,
    Seq<char>,
> {
    if alias_taken(registry, payload.alias) {
        Err("payload alias "@ + quoted(payload.alias) + " is duplicated"@)
    } else {
        Ok(registry.push(payload))
    }
}

/// The registry with builtin payloads more.
pub open spec fn with_builtins(
    registry: Seq<PayloadModel>,
    protocol: PayloadProtocol,
    aliases: Seq<Seq<char>>,
) -> Result<Seq<PayloadModel>, Seq<char>>
    decreases aliases.len(),
{
    if aliases.len() == 0 {
        Ok(registry)
    } else {
        match with_builtins(registry, protocol, aliases.drop_last()) {
            Err(e) => Err(e),
            Ok(r) => match alias_form_fault(aliases.last()) {
                Some(e) => Err(e),
                None => with_payload(
                    r,
                    PayloadModel { protocol, alias: aliases.last(), path: None, builtin: true },
                ),
            },
        }
    }
}

/// What is wrong with the path of a payload file.
pub open spec fn payload_file_fault(
    disk: Seq<(Seq<char>, PathKind)>,
    path: Seq<char>,
) -> Option<Seq<char>> {
    match kind_of(disk, path) {
        PathKind::Missing => Some("payload file does not exist: "@ + path),
        PathKind::File => None,
        _ => Some("payload path is not a file: "@ + path),
    }
}

/// The files under their aliases, with one file more. A later file takes the place of an
/// earlier one with the same alias.
pub open spec fn with_file(
    files: Seq<(Seq<char>, Seq<char>)>,
    alias: Seq<char>,
    path: Seq<char>,
    disk: Seq<(Seq<char>, PathKind)>,
) -> Result<Seq<(Seq<char>, Seq<char>)>, Seq<char>> {
    match sooner(reserved_alias_fault(alias), payload_file_fault(disk, path)) {
        Some(e) => Err(e),
        None => Ok(with_entry(files, alias, path)),
    }
}

/// The files that are listed by name, under the aliases made out of their names.
pub open spec fn listed_files(
    files: Seq<Seq<char>>,
    base: Seq<char>,
    disk: Seq<(Seq<char>, PathKind)>,
) -> Result<Seq<(Seq<char>, Seq<char>)>, Seq<char>>
    decreases files.len(),
{
    if files.len() == 0 {
        Ok(Seq::empty())
    } else {
        match listed_files(files.drop_last(), base, disk) {
            Err(e) => Err(e),
            Ok(found) => match payload_alias(files.last()) {
                Err(e) => Err(e),
                Ok(alias) => with_file(found, alias, path_under(base, files.last()), disk),
            },
        }
    }
}

/// The files found so far, with those that are listed under chosen aliases.
pub open spec fn aliased_files(
    found: Seq<(Seq<char>, Seq<char>)>,
    aliases: Seq<(Seq<char>, String)>,
    base: Seq<char>,
    disk: Seq<(Seq<char>, PathKind)>,
) -> Result<Seq<(Seq<char>, Seq<char>)>, Seq<char>>
    decreases aliases.len(),
{
    if aliases.len() == 0 {
        Ok(found)
    } else {
        match aliased_files(found, aliases.drop_last(), base, disk) {
            Err(e) => Err(e),
            Ok(files) => match alias_form_fault(aliases.last().0) {
                Some(e) => Err(e),
                None => with_file(
                    files,
                    aliases.last().0,
                    path_under(base, aliases.last().1@),
                    disk,
                ),
            },
        }
    }
}

/// The registry with the files more, in the order of their aliases.
pub open spec fn with_files(
    registry: Seq<PayloadModel>,
    protocol: PayloadProtocol,
    files: Seq<(Seq<char>, Seq<char>)>,
) -> Result<Seq<PayloadModel>, Seq<char>>
    decreases files.len(),
{
    if files.len() == 0 {
        Ok(registry)
    } else {
        match with_files(registry, protocol, files.drop_last()) {
            Err(e) => Err(e),
            Ok(r) => with_payload(
                r,
                PayloadModel {
                    protocol,
                    alias: files.last().0,
                    path: Some(files.last().1),
                    builtin: false,
                },
            ),
        }
    }
}

/// The registry with the payloads of one protocol more: the builtin ones, and where there is
/// a directory of payloads those out of files.
pub open spec fn with_protocol(
    registry: Seq<PayloadModel>,
    protocol: PayloadProtocol,
    config: PayloadProtocolConfig,
    limit: usize,
    base: Option<Seq<char>>,
    disk: Seq<(Seq<char>, PathKind)>,
) -> Result<Seq<PayloadModel>, Seq<char>> {
    let count = config.files@.len() + config.aliases@.len();
    if count > limit {
        Err(
            protocol.name() + " has "@ + dec(count)
                + " file payloads, but payloads.max_per_protocol is "@ + dec(limit as nat),
        )
    } else {
        match with_builtins(registry, protocol, texts(config.builtin@)) {
            Err(e) => Err(e),
            Ok(r) => match base {
                None => Ok(r),
                Some(base) => match listed_files(texts(config.files@), base, disk) {
                    Err(e) => Err(e),
                    Ok(found) => match aliased_files(found, config.aliases@, base, disk) {
                        Err(e) => Err(e),
                        Ok(files) => with_files(r, protocol, files),
                    },
                },
            },
        }
    }
}

/// The directory that relative payload paths start from, where files are to be loaded.
pub open spec fn payload_base(blobs: BlobConfig, disk: Seq<(Seq<char>, PathKind)>) -> Result<
    Option<Seq<char>>,
    Seq<char>,
> {
    if !blobs.auto_load {
        Ok(None)
    } else {
        match blobs.base_dir {
            None => Err("blobs.base_dir is required when blobs.auto_load=true"@),
            Some(dir) => match kind_of(disk, dir@) {
                PathKind::Missing => Err("blobs.base_dir does not exist: "@ + dir@),
                PathKind::Directory => Ok(Some(dir@)),
                _ => Err("blobs.base_dir must be a directory: "@ + dir@),
            },
        }
    }
}

/// All payloads: those for HTTP, those for TLS and those for QUIC.
pub open spec fn registry_of(
    blobs: BlobConfig,
    payloads: PayloadConfig,
    disk: Seq<(Seq<char>, PathKind)>,
) -> Result<Seq<PayloadModel>, Seq<char>> {
    let limit = payloads.max_per_protocol;
    if limit == 0 {
        Err("payloads.max_per_protocol must be greater than zero"@)
    } else {
        match payload_base(blobs, disk) {
            Err(e) => Err(e),
            Ok(base) => match with_protocol(
                Seq::empty(),
                PayloadProtocol::Http,
                payloads.http,
                limit,
                base,
                disk,
            ) {
                Err(e) => Err(e),
                Ok(a) => match with_protocol(
                    a,
                    PayloadProtocol::Tls,
                    payloads.tls,
                    limit,
                    base,
                    disk,
                ) {
                    Err(e) => Err(e),
                    Ok(b) => with_protocol(
                        b,
                        PayloadProtocol::Quic,
                        payloads.quic,
                        limit,
                        base,
                        disk,
                    ),
                },
            },
        }
    }
}

/// A registry by its contents.
pub open spec fn registry_text(r: Result<Vec<PayloadDef>, Fault>) -> Result<
    Seq<PayloadModel>,
    Seq<char>,
> {
    match r {
        Ok(v) => Ok(payload_models(v@)),
        Err(e) => Err(e@),
    }
}

fn push_payload(registry: Vec<PayloadDef>, payload: PayloadDef) -> (r: Result<
    Vec<PayloadDef>,
    Fault,
>)
    ensures
        registry_text(r) == with_payload(payload_models(registry@), payload@),
{
    let ghost models = payload_models(registry@);
    let mut i: usize = 0;
    while i < registry.len()
        invariant
            i <= registry@.len(),
            models == payload_models(registry@),
            forall|j: int| 0 <= j < i ==> (#[trigger] models[j]).alias != payload.alias@,
        decreases registry@.len() - i,
    {
        if str_eq(registry[i].alias.as_str(), payload.alias.as_str()) {
            assert(models[i as int].alias == payload@.alias);
            return Err(
                Fault {
                    text: cat3(
                        "payload alias ",
                        quote(payload.alias.as_str()).as_str(),
                        " is duplicated",
                    ),
                },
            );
        }
        i = i + 1;
    }
    let ghost model = payload@;
    let mut registry = registry;
    registry.push(payload);
    assert(payload_models(registry@) =~= models.push(model));
    Ok(registry)
}

fn push_builtins(
    registry: Vec<PayloadDef>,
    protocol: PayloadProtocol,
    aliases: &Vec<String>,
) -> (r: Result<Vec<PayloadDef>, Fault>)
    ensures
        registry_text(r) == with_builtins(
            payload_models(registry@),
            protocol,
            texts(aliases@),
        ),
{
    let ghost start = payload_models(registry@);
    let ghost all = texts(aliases@);
    let mut out = registry;
    let mut i: usize = 0;
    proof {
        take_all(all);
    }
    while i < aliases.len()
        invariant
            i <= aliases@.len(),
            start == payload_models(registry@),
            all == texts(aliases@),
            with_builtins(start, protocol, all.take(i as int)) == Ok::<
                Seq<PayloadModel>,
                Seq<char>,
            >(payload_models(out@)),
        decreases aliases@.len() - i,
    {
        proof {
            take_next(all, i as int);
        }
        if let Err(e) = validate_payload_alias(aliases[i].as_str()) {
            proof {
                builtins_fault_stays(start, protocol, all, i + 1);
            }
            return Err(e);
        }
        let payload = PayloadDef {
            protocol,
            alias: aliases[i].clone(),
            path: None,
            builtin: true,
        };
        match push_payload(out, payload) {
            Err(e) => {
                proof {
                    builtins_fault_stays(start, protocol, all, i + 1);
                }
                return Err(e);
            },
            Ok(more) => {
                out = more;
            },
        }
        i = i + 1;
    }
    proof {
        take_all(all);
    }
    Ok(out)
}

proof fn builtins_fault_stays(
    start: Seq<PayloadModel>,
    protocol: PayloadProtocol,
    all: Seq<Seq<char>>,
    i: int,
)
    requires
        0 <= i <= all.len(),
        with_builtins(start, protocol, all.take(i)) is Err,
    ensures
        with_builtins(start, protocol, all) == with_builtins(start, protocol, all.take(i)),
    decreases all.len() - i,
{
    if i < all.len() {
        take_next(all, i);
        builtins_fault_stays(start, protocol, all, i + 1);
    } else {
        take_all(all);
    }
}

proof fn listed_fault_stays(
    files: Seq<Seq<char>>,
    base: Seq<char>,
    disk: Seq<(Seq<char>, PathKind)>,
    i: int,
)
    requires
        0 <= i <= files.len(),
        listed_files(files.take(i), base, disk) is Err,
    ensures
        listed_files(files, base, disk) == listed_files(files.take(i), base, disk),
    decreases files.len() - i,
{
    if i < files.len() {
        take_next(files, i);
        listed_fault_stays(files, base, disk, i + 1);
    } else {
        take_all(files);
    }
}

proof fn aliased_fault_stays(
    found: Seq<(Seq<char>, Seq<char>)>,
    aliases: Seq<(Seq<char>, String)>,
    base: Seq<char>,
    disk: Seq<(Seq<char>, PathKind)>,
    i: int,
)
    requires
        0 <= i <= aliases.len(),
        aliased_files(found, aliases.take(i), base, disk) is Err,
    ensures
        aliased_files(found, aliases, base, disk) == aliased_files(
            found,
            aliases.take(i),
            base,
            disk,
        ),
    decreases aliases.len() - i,
{
    if i < aliases.len() {
        take_next(aliases, i);
        aliased_fault_stays(found, aliases, base, disk, i + 1);
    } else {
        take_all(aliases);
    }
}

proof fn files_fault_stays(
    start: Seq<PayloadModel>,
    protocol: PayloadProtocol,
    files: Seq<(Seq<char>, Seq<char>)>,
    i: int,
)
    requires
        0 <= i <= files.len(),
        with_files(start, protocol, files.take(i)) is Err,
    ensures
        with_files(start, protocol, files) == with_files(start, protocol, files.take(i)),
    decreases files.len() - i,
{
    if i < files.len() {
        take_next(files, i);
        files_fault_stays(start, protocol, files, i + 1);
    } else {
        take_all(files);
    }
}

/// Files under their aliases, by their contents.
pub open spec fn files_text(r: Result<TextMap<String>, Fault>) -> Result<
    Seq<(Seq<char>, Seq<char>)>,
    Seq<char>,
> {
    match r {
        Ok(v) => Ok(entry_texts(v@)),
        Err(e) => Err(e@),
    }
}

fn add_file(files: TextMap<String>, alias: String, path: String, disk: &TextMap<PathKind>) -> (r:
    Result<TextMap<String>, Fault>)
    ensures
        files_text(r) == with_file(entry_texts(files@), alias@, path@, disk@),
{
    if let Err(e) = check_reserved_alias(alias.as_str()) {
        return Err(e);
    }
    match kind_at(disk, path.as_str()) {
        PathKind::Missing => {
            return Err(Fault { text: cat2("payload file does not exist: ", path.as_str()) });
        },
        PathKind::File => {},
        _ => {
            return Err(Fault { text: cat2("payload path is not a file: ", path.as_str()) });
        },
    }
    proof {
        entry_texts_with(files@, alias@, path);
    }
    Ok(files.insert(alias, path))
}

fn collect_files(config: &PayloadProtocolConfig, base: &str, disk: &TextMap<PathKind>) -> (r:
    Result<TextMap<String>, Fault>)
    ensures
        files_text(r) == match listed_files(texts(config.files@), base@, disk@) {
            Err(e) => Err(e),
            Ok(found) => aliased_files(found, config.aliases@, base@, disk@),
        },
{
    let ghost names = texts(config.files@);
    let ghost chosen = config.aliases@;
    let mut files: TextMap<String> = TextMap::new();
    let mut i: usize = 0;
    proof {
        take_all(names);
        take_all(chosen);
        assert(entry_texts(files@) =~= Seq::empty());
    }
    while i < config.files.len()
        invariant
            i <= config.files@.len(),
            names == texts(config.files@),
            listed_files(names.take(i as int), base@, disk@) == Ok::<
                Seq<(Seq<char>, Seq<char>)>,
                Seq<char>,
            >(entry_texts(files@)),
        decreases config.files@.len() - i,
    {
        proof {
            take_next(names, i as int);
        }
        let alias = match make_payload_alias(config.files[i].as_str()) {
            Ok(alias) => alias,
            Err(e) => {
                proof {
                    listed_fault_stays(names, base@, disk@, i + 1);
                }
                return Err(e);
            },
        };
        match add_file(files, alias, join_path(base, config.files[i].as_str()), disk) {
            Ok(more) => {
                files = more;
            },
            Err(e) => {
                proof {
                    listed_fault_stays(names, base@, disk@, i + 1);
                }
                return Err(e);
            },
        }
        i = i + 1;
    }
    proof {
        take_all(names);
    }
    let ghost found = entry_texts(files@);
    let n: usize = config.aliases.len();
    let mut k: usize = 0;
    while k < n
        invariant
            k <= n,
            n == config.aliases@.len(),
            chosen == config.aliases@,
            listed_files(texts(config.files@), base@, disk@) == Ok::<
                Seq<(Seq<char>, Seq<char>)>,
                Seq<char>,
            >(found),
            aliased_files(found, chosen.take(k as int), base@, disk@) == Ok::<
                Seq<(Seq<char>, Seq<char>)>,
                Seq<char>,
            >(entry_texts(files@)),
        decreases n - k,
    {
        proof {
            take_next(chosen, k as int);
        }
        let alias = config.aliases.key(k);
        if let Err(e) = validate_payload_alias(alias.as_str()) {
            proof {
                aliased_fault_stays(found, chosen, base@, disk@, k + 1);
            }
            return Err(e);
        }
        let path = join_path(base, config.aliases.value(k).as_str());
        match add_file(files, alias.clone(), path, disk) {
            Ok(more) => {
                files = more;
            },
            Err(e) => {
                proof {
                    aliased_fault_stays(found, chosen, base@, disk@, k + 1);
                }
                return Err(e);
            },
        }
        k = k + 1;
    }
    proof {
        take_all(chosen);
    }
    Ok(files)
}

fn push_files(registry: Vec<PayloadDef>, protocol: PayloadProtocol, files: &TextMap<String>) -> (r:
    Result<Vec<PayloadDef>, Fault>)
    ensures
        registry_text(r) == with_files(
            payload_models(registry@),
            protocol,
            entry_texts(files@),
        ),
{
    let ghost start = payload_models(registry@);
    let ghost all = entry_texts(files@);
    let mut out = registry;
    let n: usize = files.len();
    let mut i: usize = 0;
    proof {
        take_all(all);
    }
    while i < n
        invariant
            i <= n,
            n == files@.len(),
            start == payload_models(registry@),
            all == entry_texts(files@),
            with_files(start, protocol, all.take(i as int)) == Ok::<
                Seq<PayloadModel>,
                Seq<char>,
            >(payload_models(out@)),
        decreases n - i,
    {
        proof {
            take_next(all, i as int);
        }
        let payload = PayloadDef {
            protocol,
            alias: files.key(i).clone(),
            path: Some(files.value(i).clone()),
            builtin: false,
        };
        match push_payload(out, payload) {
            Err(e) => {
                proof {
                    files_fault_stays(start, protocol, all, i + 1);
                }
                return Err(e);
            },
            Ok(more) => {
                out = more;
            },
        }
        i = i + 1;
    }
    proof {
        take_all(all);
    }
    Ok(out)
}

fn push_protocol_payloads(
    registry: Vec<PayloadDef>,
    protocol: PayloadProtocol,
    config: &PayloadProtocolConfig,
    limit: usize,
    base: &Option<String>,
    disk: &TextMap<PathKind>,
) -> (r: Result<Vec<PayloadDef>, Fault>)
    ensures
        registry_text(r) == with_protocol(
            payload_models(registry@),
            protocol,
            *config,
            limit,
            opt_text(*base),
            disk@,
        ),
{
    let files: usize = config.files.len();
    let aliases: usize = config.aliases.len();
    if files as u128 + aliases as u128 > limit as u128 {
        let mut text = cat4(
            protocol.label(),
            " has ",
            decimal_sum(files, aliases).as_str(),
            " file payloads, but payloads.max_per_protocol is ",
        );
        text.append(decimal(limit as u64).as_str());
        return Err(Fault { text });
    }
    let registry = match push_builtins(registry, protocol, &config.builtin) {
        Ok(registry) => registry,
        Err(e) => {
            return Err(e);
        },
    };
    match base {
        None => Ok(registry),
        Some(base) => match collect_files(config, base.as_str(), disk) {
            Err(e) => Err(e),
            Ok(files) => push_files(registry, protocol, &files),
        },
    }
}

fn find_base(blobs: &BlobConfig, disk: &TextMap<PathKind>) -> (r: Result<Option<String>, Fault>)
    ensures
        match r {
            Ok(b) => payload_base(*blobs, disk@) == Ok::<Option<Seq<char>>, Seq<char>>(
                opt_text(b),
            ),
            Err(e) => payload_base(*blobs, disk@) == Err::<Option<Seq<char>>, Seq<char>>(e@),
        },
{
    if !blobs.auto_load {
        return Ok(None);
    }
    match &blobs.base_dir {
        None => Err(Fault::new("blobs.base_dir is required when blobs.auto_load=true")),
        Some(dir) => match kind_at(disk, dir.as_str()) {
            PathKind::Missing => Err(
                Fault { text: cat2("blobs.base_dir does not exist: ", dir.as_str()) },
            ),
            PathKind::Directory => Ok(Some(dir.clone())),
            _ => Err(Fault { text: cat2("blobs.base_dir must be a directory: ", dir.as_str()) }),
        },
    }
}

/// Lists all payloads that the configuration names. `disk` says what the paths of
/// [`registry_paths`] lead to.
pub fn build_payload_registry(
    blobs: &BlobConfig,
    payloads: &PayloadConfig,
    disk: &TextMap<PathKind>,
) -> (r: Result<Vec<PayloadDef>, Fault>)
    ensures
        registry_text(r) == registry_of(*blobs, *payloads, disk@),
{
    let limit: usize = payloads.max_per_protocol;
    if limit == 0 {
        return Err(Fault::new("payloads.max_per_protocol must be greater than zero"));
    }
    let base = match find_base(blobs, disk) {
        Ok(base) => base,
        Err(e) => {
            return Err(e);
        },
    };
    let registry: Vec<PayloadDef> = Vec::new();
    assert(payload_models(registry@) =~= Seq::empty());
    let registry = match push_protocol_payloads(
        registry,
        PayloadProtocol::Http,
        &payloads.http,
        limit,
        &base,
        disk,
    ) {
        Ok(registry) => registry,
        Err(e) => {
            return Err(e);
        },
    };
    let registry = match push_protocol_payloads(
        registry,
        PayloadProtocol::Tls,
        &payloads.tls,
        limit,
        &base,
        disk,
    ) {
        Ok(registry) => registry,
        Err(e) => {
            return Err(e);
        },
    };
    push_protocol_payloads(registry, PayloadProtocol::Quic, &payloads.quic, limit, &base, disk)
}

// ---------------------------------------------------------------------------
// What the registry is used for

/// The arguments that hand the file payloads over: one for each of them, in order.
pub open spec fn blob_args(payloads: Seq<PayloadModel>) -> Seq<Seq<char>>
    decreases payloads.len(),
{
    if payloads.len() == 0 {
        Seq::empty()
    } else {
        let args = blob_args(payloads.drop_last());
        let last = payloads.last();
        match last.path {
            Some(path) if !last.builtin => args.push(
                "--blob="@ + last.alias + ":@"@ + path,
            ),
            _ => args,
        }
    }
}

/// The arguments that hand the file payloads over.
pub fn render_blob_args(payloads: &[PayloadDef]) -> (r: Vec<String>)
    ensures
        texts(r@) == blob_args(payload_models(payloads@)),
{
    let ghost all = payload_models(payloads@);
    let mut out: Vec<String> = Vec::new();
    let mut i: usize = 0;
    proof {
        take_all(all);
        assert(texts(out@) =~= Seq::empty());
    }
    while i < payloads.len()
        invariant
            i <= payloads@.len(),
            all == payload_models(payloads@),
            texts(out@) == blob_args(all.take(i as int)),
        decreases payloads@.len() - i,
    {
        proof {
            take_next(all, i as int);
        }
        let payload = &payloads[i];
        if !payload.builtin {
            if let Some(path) = &payload.path {
                let arg = cat4("--blob=", payload.alias.as_str(), ":@", path.as_str());
                proof {
                    texts_push(out@, arg);
                }
                out.push(arg);
            }
        }
        i = i + 1;
    }
    proof {
        take_all(all);
    }
    out
}

/// The aliases of the payloads of one protocol, in the order of the payloads.
pub open spec fn protocol_aliases(
    payloads: Seq<PayloadModel>,
    protocol: PayloadProtocol,
) -> Seq<Seq<char>>
    decreases payloads.len(),
{
    if payloads.len() == 0 {
        Seq::empty()
    } else if payloads.last().protocol == protocol {
        protocol_aliases(payloads.drop_last(), protocol).push(payloads.last().alias)
    } else {
        protocol_aliases(payloads.drop_last(), protocol)
    }
}

fn collect_aliases(payloads: &[PayloadDef], protocol: PayloadProtocol) -> (r: Vec<String>)
    ensures
        texts(r@) == protocol_aliases(payload_models(payloads@), protocol),
{
    let ghost all = payload_models(payloads@);
    let mut out: Vec<String> = Vec::new();
    let mut i: usize = 0;
    proof {
        take_all(all);
        assert(texts(out@) =~= Seq::empty());
    }
    while i < payloads.len()
        invariant
            i <= payloads@.len(),
            all == payload_models(payloads@),
            texts(out@) == protocol_aliases(all.take(i as int), protocol),
        decreases payloads@.len() - i,
    {
        proof {
            take_next(all, i as int);
        }
        if payloads[i].protocol == protocol {
            proof {
                texts_push(out@, payloads@[i as int].alias);
            }
            out.push(payloads[i].alias.clone());
        }
        i = i + 1;
    }
    proof {
        take_all(all);
    }
    out
}

/// `r` holds the aliases of the payloads of each protocol, each once and in order.
pub open spec fn are_aliases_of(r: PayloadAliases, payloads: Seq<PayloadModel>) -> bool {
    &&& texts(r.http@) == unique_sorted(protocol_aliases(payloads, PayloadProtocol::Http))
    &&& texts(r.tls@) == unique_sorted(protocol_aliases(payloads, PayloadProtocol::Tls))
    &&& texts(r.quic@) == unique_sorted(protocol_aliases(payloads, PayloadProtocol::Quic))
}

/// The aliases of the payloads by protocol, each list in order and without duplicates.
pub fn aliases_from_payloads(payloads: &[PayloadDef]) -> (r: PayloadAliases)
    ensures
        are_aliases_of(r, payload_models(payloads@)),
{
    PayloadAliases {
        http: sort_unique(&collect_aliases(payloads, PayloadProtocol::Http)),
        tls: sort_unique(&collect_aliases(payloads, PayloadProtocol::Tls)),
        quic: sort_unique(&collect_aliases(payloads, PayloadProtocol::Quic)),
    }
}

// ---------------------------------------------------------------------------
// The paths that are looked at

/// The paths of the file payloads of one protocol.
pub open spec fn protocol_paths(config: PayloadProtocolConfig, base: Seq<char>) -> Seq<Seq<char>> {
    Seq::new(config.files@.len(), |i: int| path_under(base, config.files@[i]@)) + Seq::new(
        config.aliases@.len(),
        |i: int| path_under(base, config.aliases@[i].1@),
    )
}

/// Every path that the registry looks at.
pub open spec fn registry_paths_of(blobs: BlobConfig, payloads: PayloadConfig) -> Seq<Seq<char>> {
    match blobs.base_dir {
        Some(dir) if blobs.auto_load => seq![dir@] + protocol_paths(payloads.http, dir@)
            + protocol_paths(payloads.tls, dir@) + protocol_paths(payloads.quic, dir@),
        _ => Seq::empty(),
    }
}

fn push_protocol_paths(out: &mut Vec<String>, config: &PayloadProtocolConfig, base: &str)
    ensures
        texts(final(out)@) == texts(old(out)@) + protocol_paths(*config, base@),
{
    let ghost start = texts(out@);
    let ghost first = Seq::new(
        config.files@.len(),
        |i: int| path_under(base@, config.files@[i]@),
    );
    let ghost second = Seq::new(
        config.aliases@.len(),
        |i: int| path_under(base@, config.aliases@[i].1@),
    );
    let mut i: usize = 0;
    assert(start + first.take(0) =~= start);
    while i < config.files.len()
        invariant
            i <= config.files@.len(),
            first == Seq::new(
                config.files@.len(),
                |i: int| path_under(base@, config.files@[i]@),
            ),
            texts(out@) == start + first.take(i as int),
        decreases config.files@.len() - i,
    {
        let path = join_path(base, config.files[i].as_str());
        proof {
            texts_push(out@, path);
            assert(start + first.take(i + 1) =~= (start + first.take(i as int)).push(path@));
        }
        out.push(path);
        i = i + 1;
    }
    let n: usize = config.aliases.len();
    let mut k: usize = 0;
    assert(first.take(first.len() as int) =~= first);
    assert(start + first + second.take(0) =~= start + first);
    while k < n
        invariant
            k <= n,
            n == config.aliases@.len(),
            second == Seq::new(
                config.aliases@.len(),
                |i: int| path_under(base@, config.aliases@[i].1@),
            ),
            texts(out@) == start + first + second.take(k as int),
        decreases n - k,
    {
        let path = join_path(base, config.aliases.value(k).as_str());
        proof {
            texts_push(out@, path);
            assert(start + first + second.take(k + 1) =~= (start + first + second.take(
                k as int,
            )).push(path@));
        }
        out.push(path);
        k = k + 1;
    }
    assert(start + first + second.take(second.len() as int) =~= start + (first + second));
}

/// Every path that the registry looks at.
pub fn registry_paths(blobs: &BlobConfig, payloads: &PayloadConfig) -> (r: Vec<String>)
    ensures
        texts(r@) == registry_paths_of(*blobs, *payloads),
{
    let mut out: Vec<String> = Vec::new();
    if blobs.auto_load {
        if let Some(dir) = &blobs.base_dir {
            out.push(dir.clone());
            assert(texts(out@) =~= seq![dir@]);
            push_protocol_paths(&mut out, &payloads.http, dir.as_str());
            push_protocol_paths(&mut out, &payloads.tls, dir.as_str());
            push_protocol_paths(&mut out, &payloads.quic, dir.as_str());
            return out;
        }
    }
    assert(texts(out@) =~= Seq::empty());
    out
}

/// Two disks hold the same under every one of the paths.
pub open spec fn agree_on(
    paths: Seq<Seq<char>>,
    a: Seq<(Seq<char>, PathKind)>,
    b: Seq<(Seq<char>, PathKind)>,
) -> bool {
    forall|i: int| 0 <= i < paths.len() ==> kind_of(a, #[trigger] paths[i]) == kind_of(b, paths[i])
}

proof fn listed_files_agree(
    files: Seq<Seq<char>>,
    base: Seq<char>,
    a: Seq<(Seq<char>, PathKind)>,
    b: Seq<(Seq<char>, PathKind)>,
)
    requires
        forall|i: int|
            0 <= i < files.len() ==> kind_of(a, path_under(base, #[trigger] files[i])) == kind_of(
                b,
                path_under(base, files[i]),
            ),
    ensures
        listed_files(files, base, a) == listed_files(files, base, b),
    decreases files.len(),
{
    if files.len() > 0 {
        let init = files.drop_last();
        assert forall|i: int| 0 <= i < init.len() implies kind_of(
            a,
            path_under(base, #[trigger] init[i]),
        ) == kind_of(b, path_under(base, init[i])) by {
            assert(init[i] == files[i]);
        }
        listed_files_agree(init, base, a, b);
        assert(files[files.len() - 1] == files.last());
    }
}

proof fn aliased_files_agree(
    found: Seq<(Seq<char>, Seq<char>)>,
    aliases: Seq<(Seq<char>, String)>,
    base: Seq<char>,
    a: Seq<(Seq<char>, PathKind)>,
    b: Seq<(Seq<char>, PathKind)>,
)
    requires
        forall|i: int|
            0 <= i < aliases.len() ==> kind_of(a, path_under(base, (#[trigger] aliases[i]).1@))
                == kind_of(b, path_under(base, aliases[i].1@)),
    ensures
        aliased_files(found, aliases, base, a) == aliased_files(found, aliases, base, b),
    decreases aliases.len(),
{
    if aliases.len() > 0 {
        let init = aliases.drop_last();
        assert forall|i: int| 0 <= i < init.len() implies kind_of(
            a,
            path_under(base, (#[trigger] init[i]).1@),
        ) == kind_of(b, path_under(base, init[i].1@)) by {
            assert(init[i] == aliases[i]);
        }
        aliased_files_agree(found, init, base, a, b);
        assert(aliases[aliases.len() - 1] == aliases.last());
    }
}

proof fn with_protocol_agrees(
    registry: Seq<PayloadModel>,
    protocol: PayloadProtocol,
    config: PayloadProtocolConfig,
    limit: usize,
    base: Seq<char>,
    a: Seq<(Seq<char>, PathKind)>,
    b: Seq<(Seq<char>, PathKind)>,
)
    requires
        agree_on(protocol_paths(config, base), a, b),
    ensures
        with_protocol(registry, protocol, config, limit, Some(base), a) == with_protocol(
            registry,
            protocol,
            config,
            limit,
            Some(base),
            b,
        ),
{
    let files = texts(config.files@);
    let paths = protocol_paths(config, base);
    assert forall|i: int| 0 <= i < files.len() implies kind_of(
        a,
        path_under(base, #[trigger] files[i]),
    ) == kind_of(b, path_under(base, files[i])) by {
        assert(paths[i] == path_under(base, files[i]));
    }
    listed_files_agree(files, base, a, b);
    let aliases = config.aliases@;
    assert forall|i: int| 0 <= i < aliases.len() implies kind_of(
        a,
        path_under(base, (#[trigger] aliases[i]).1@),
    ) == kind_of(b, path_under(base, aliases[i].1@)) by {
        assert(paths[files.len() + i] == path_under(base, aliases[i].1@));
    }
    if let Ok(found) = listed_files(files, base, a) {
        aliased_files_agree(found, aliases, base, a, b);
    }
}

/// The registry depends on the disk only through the paths that it looks at.
pub proof fn registry_reads_its_paths(
    blobs: BlobConfig,
    payloads: PayloadConfig,
    a: Seq<(Seq<char>, PathKind)>,
    b: Seq<(Seq<char>, PathKind)>,
)
    requires
        agree_on(registry_paths_of(blobs, payloads), a, b),
    ensures
        registry_of(blobs, payloads, a) == registry_of(blobs, payloads, b),
{
    if blobs.auto_load && blobs.base_dir is Some {
        let dir = blobs.base_dir->0@;
        let paths = registry_paths_of(blobs, payloads);
        let p1 = protocol_paths(payloads.http, dir);
        let p2 = protocol_paths(payloads.tls, dir);
        let p3 = protocol_paths(payloads.quic, dir);
        assert(paths[0] == dir);
        assert(agree_on(p1, a, b)) by {
            assert forall|i: int| 0 <= i < p1.len() implies kind_of(a, #[trigger] p1[i])
                == kind_of(b, p1[i]) by {
                assert(paths[1 + i] == p1[i]);
            }
        }
        assert(agree_on(p2, a, b)) by {
            assert forall|i: int| 0 <= i < p2.len() implies kind_of(a, #[trigger] p2[i])
                == kind_of(b, p2[i]) by {
                assert(paths[1 + p1.len() + i] == p2[i]);
            }
        }
        assert(agree_on(p3, a, b)) by {
            assert forall|i: int| 0 <= i < p3.len() implies kind_of(a, #[trigger] p3[i])
                == kind_of(b, p3[i]) by {
                assert(paths[1 + p1.len() + p2.len() + i] == p3[i]);
            }
        }
        let limit = payloads.max_per_protocol;
        with_protocol_agrees(Seq::empty(), PayloadProtocol::Http, payloads.http, limit, dir, a, b);
        if let Ok(r) = with_protocol(
            Seq::empty(),
            PayloadProtocol::Http,
            payloads.http,
            limit,
            Some(dir),
            a,
        ) {
            with_protocol_agrees(r, PayloadProtocol::Tls, payloads.tls, limit, dir, a, b);
            if let Ok(q) = with_protocol(
                r,
                PayloadProtocol::Tls,
                payloads.tls,
                limit,
                Some(dir),
                a,
            ) {
                with_protocol_agrees(q, PayloadProtocol::Quic, payloads.quic, limit, dir, a, b);
            }
        }
    }
}

// ---------------------------------------------------------------------------
// Laws of the registry

/// No alias occurs twice, and a payload is builtin exactly where it has no file.
pub open spec fn registry_ok(r: Seq<PayloadModel>) -> bool {
    &&& forall|i: int, j: int|
        0 <= i < j < r.len() ==> (#[trigger] r[i]).alias != (#[trigger] r[j]).alias
    &&& forall|i: int| 0 <= i < r.len() ==> (#[trigger] r[i]).builtin == (r[i].path is None)
}

proof fn with_payload_ok(r: Seq<PayloadModel>, p: PayloadModel)
    requires
        registry_ok(r),
        p.builtin == (p.path is None),
    ensures
        with_payload(r, p) matches Ok(q) ==> registry_ok(q),
{
    if let Ok(q) = with_payload(r, p) {
        assert forall|i: int, j: int| 0 <= i < j < q.len() implies (#[trigger] q[i]).alias != (
        #[trigger] q[j]).alias by {
            assert(q[i] == r[i]);
            if j < r.len() {
                assert(q[j] == r[j]);
            }
        }
        assert forall|i: int| 0 <= i < q.len() implies (#[trigger] q[i]).builtin == (
        q[i].path is None) by {
            if i < r.len() {
                assert(q[i] == r[i]);
            }
        }
    }
}

proof fn with_builtins_ok(r: Seq<PayloadModel>, protocol: PayloadProtocol, s: Seq<Seq<char>>)
    requires
        registry_ok(r),
    ensures
        with_builtins(r, protocol, s) matches Ok(q) ==> registry_ok(q),
    decreases s.len(),
{
    if s.len() > 0 {
        with_builtins_ok(r, protocol, s.drop_last());
        if let Ok(q) = with_builtins(r, protocol, s.drop_last()) {
            with_payload_ok(
                q,
                PayloadModel { protocol, alias: s.last(), path: None, builtin: true },
            );
        }
    }
}

proof fn with_files_ok(
    r: Seq<PayloadModel>,
    protocol: PayloadProtocol,
    s: Seq<(Seq<char>, Seq<char>)>,
)
    requires
        registry_ok(r),
    ensures
        with_files(r, protocol, s) matches Ok(q) ==> registry_ok(q),
    decreases s.len(),
{
    if s.len() > 0 {
        with_files_ok(r, protocol, s.drop_last());
        if let Ok(q) = with_files(r, protocol, s.drop_last()) {
            with_payload_ok(
                q,
                PayloadModel {
                    protocol,
                    alias: s.last().0,
                    path: Some(s.last().1),
                    builtin: false,
                },
            );
        }
    }
}

proof fn with_protocol_ok(
    r: Seq<PayloadModel>,
    protocol: PayloadProtocol,
    config: PayloadProtocolConfig,
    limit: usize,
    base: Option<Seq<char>>,
    disk: Seq<(Seq<char>, PathKind)>,
)
    requires
        registry_ok(r),
    ensures
        with_protocol(r, protocol, config, limit, base, disk) matches Ok(q) ==> registry_ok(q),
{
    with_builtins_ok(r, protocol, texts(config.builtin@));
    if let Ok(q) = with_builtins(r, protocol, texts(config.builtin@)) {
        if let Some(base) = base {
            if let Ok(found) = listed_files(texts(config.files@), base, disk) {
                if let Ok(files) = aliased_files(found, config.aliases@, base, disk) {
                    with_files_ok(q, protocol, files);
                }
            }
        }
    }
}

/// Every registry gives each payload an alias of its own, and marks as builtin exactly the
/// payloads without a file.
pub proof fn registry_is_ok(
    blobs: BlobConfig,
    payloads: PayloadConfig,
    disk: Seq<(Seq<char>, PathKind)>,
)
    ensures
        registry_of(blobs, payloads, disk) matches Ok(r) ==> registry_ok(r),
{
    let limit = payloads.max_per_protocol;
    if let Ok(base) = payload_base(blobs, disk) {
        with_protocol_ok(Seq::empty(), PayloadProtocol::Http, payloads.http, limit, base, disk);
        if let Ok(a) = with_protocol(
            Seq::empty(),
            PayloadProtocol::Http,
            payloads.http,
            limit,
            base,
            disk,
        ) {
            with_protocol_ok(a, PayloadProtocol::Tls, payloads.tls, limit, base, disk);
            if let Ok(b) = with_protocol(
                a,
                PayloadProtocol::Tls,
                payloads.tls,
                limit,
                base,
                disk,
            ) {
                with_protocol_ok(b, PayloadProtocol::Quic, payloads.quic, limit, base, disk);
            }
        }
    }
}

} // verus!
