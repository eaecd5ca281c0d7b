use vstd::prelude::*;
use crate::text::{
    cat2, cat3, chars_of, cut_last, join, joined, opt_text, rsplit_once, split_char, split_on,
    split_on_len, str_eq, take_all, take_next, texts,
};

verus! {

/// The last part of a path that names something: neither empty nor a single dot.
pub open spec fn last_part(parts: Seq<Seq<char>>) -> Option<Seq<char>>
    decreases parts.len(),
{
    if parts.len() == 0 {
        None
    } else if parts.last().len() == 0 || parts.last() == "."@ {
        last_part(parts.drop_last())
    } else {
        Some(parts.last())
    }
}

/// The name of the file that a path leads to, if it does not end on its way up.
pub open spec fn file_name_of(path: Seq<char>) -> Option<Seq<char>> {
    match last_part(split_on(path, '/')) {
        Some(name) => if name == ".."@ {
            None
        } else {
            Some(name)
        },
        None => None,
    }
}

/// A file name without its extension. A dot at the start begins no extension.
pub open spec fn stem_of_name(name: Seq<char>) -> Seq<char> {
    match cut_last(name, '.') {
        Some((stem, _)) => if stem.len() == 0 {
            name
        } else {
            stem
        },
        None => name,
    }
}

/// The name of the file that a path leads to, without its extension.
pub open spec fn file_stem_of(path: Seq<char>) -> Option<Seq<char>> {
    match file_name_of(path) {
        Some(name) => Some(stem_of_name(name)),
        None => None,
    }
}

/// A path that starts at the root.
pub open spec fn is_absolute_path(path: Seq<char>) -> bool {
    path.len() > 0 && path[0] == '/'
}

/// `path` as seen from the directory `base`.
pub open spec fn path_under(base: Seq<char>, path: Seq<char>) -> Seq<char> {
    if is_absolute_path(path) {
        path
    } else if base.len() == 0 || base.last() == '/' {
        base + path
    } else {
        base + "/"@ + path
    }
}

/// The name of the file that a path leads to.
pub fn file_name(path: &str) -> (r: Option<String>)
    ensures
        opt_text(r) == file_name_of(path@),
{
    let parts = split_char(path, '/');
    let mut i: usize = parts.len();
    proof {
        take_all(texts(parts@));
    }
    while i > 0
        invariant
            i <= parts@.len(),
            texts(parts@) == split_on(path@, '/'),
            last_part(texts(parts@).take(i as int)) == last_part(split_on(path@, '/')),
        decreases i,
    {
        proof {
            take_next(texts(parts@), i - 1);
        }
        let part = parts[i - 1].as_str();
        if !part.is_empty() && !str_eq(part, ".") {
            return if str_eq(part, "..") {
                None
            } else {
                Some(part.to_owned())
            };
        }
        i = i - 1;
    }
    proof {
        take_all(texts(parts@));
    }
    None
}

/// The name of the file that a path leads to, without its extension.
pub fn file_stem(path: &str) -> (r: Option<String>)
    ensures
        opt_text(r) == file_stem_of(path@),
{
    match file_name(path) {
        Some(name) => {
            match rsplit_once(name.as_str(), '.') {
                Some((stem, _)) => if stem.as_str().is_empty() {
                    Some(name)
                } else {
                    Some(stem)
                },
                None => Some(name),
            }
        },
        None => None,
    }
}

/// The extension of the file that a path leads to. A dot at the start of a name begins none.
pub open spec fn extension_of(path: Seq<char>) -> Option<Seq<char>> {
    match file_name_of(path) {
        Some(name) => match cut_last(name, '.') {
            Some((stem, ext)) => if stem.len() == 0 {
                None
            } else {
                Some(ext)
            },
            None => None,
        },
        None => None,
    }
}

/// The extension of the file that a path leads to.
pub fn extension(path: &str) -> (r: Option<String>)
    ensures
        opt_text(r) == extension_of(path@),
{
    match file_name(path) {
        Some(name) => match rsplit_once(name.as_str(), '.') {
            Some((stem, ext)) => if stem.as_str().is_empty() {
                None
            } else {
                Some(ext)
            },
            None => None,
        },
        None => None,
    }
}

/// Whether the file that a path leads to has the given extension.
pub fn has_extension(path: &str, wanted: &str) -> (r: bool)
    ensures
        r == (extension_of(path@) == Some(wanted@)),
{
    match extension(path) {
        Some(ext) => str_eq(ext.as_str(), wanted),
        None => false,
    }
}

/// Whether a path starts at the root.
pub fn is_absolute(path: &str) -> (r: bool)
    ensures
        r == is_absolute_path(path@),
{
    let cs = chars_of(path);
    cs.len() > 0 && cs[0] == '/'
}

/// `path` as seen from the directory `base`.
pub fn join_path(base: &str, path: &str) -> (r: String)
    ensures
        r@ == path_under(base@, path@),
{
    let cs = chars_of(base);
    if is_absolute(path) {
        path.to_owned()
    } else if cs.len() == 0 || cs[cs.len() - 1] == '/' {
        cat2(base, path)
    } else {
        cat3(base, "/", path)
    }
}

/// The parts of a path without those at its end that name nothing. The first part stays.
pub open spec fn trimmed_parts(parts: Seq<Seq<char>>) -> Seq<Seq<char>>
    decreases parts.len(),
{
    if parts.len() > 1 && (parts.last().len() == 0 || parts.last() == "."@) {
        trimmed_parts(parts.drop_last())
    } else {
        parts
    }
}

/// The directory that holds what a path leads to. The root, and a path that leads nowhere,
/// have none.
pub open spec fn parent_of(path: Seq<char>) -> Option<Seq<char>> {
    let parts = trimmed_parts(split_on(path, '/'));
    if parts.len() == 1 && parts[0].len() == 0 {
        None
    } else {
        let above = trimmed_parts(parts.drop_last());
        if above.len() == 1 && above[0].len() == 0 {
            Some("/"@)
        } else {
            Some(joined(above, "/"@))
        }
    }
}

fn trim_parts(parts: Vec<String>) -> (r: Vec<String>)
    ensures
        texts(r@) == trimmed_parts(texts(parts@)),
{
    let ghost all = texts(parts@);
    let mut out = parts;
    while out.len() > 1 && (out[out.len() - 1].as_str().is_empty() || str_eq(
        out[out.len() - 1].as_str(),
        ".",
    ))
        invariant
            trimmed_parts(texts(out@)) == trimmed_parts(all),
        decreases out@.len(),
    {
        proof {
            assert(texts(out@).last() == out@[out@.len() - 1]@);
            assert(texts(out@.drop_last()) =~= texts(out@).drop_last());
        }
        out.pop();
    }
    proof {
        assert(texts(out@).len() == out@.len());
        if out@.len() > 1 {
            assert(texts(out@).last() == out@[out@.len() - 1]@);
        }
    }
    out
}

/// The directory that holds what a path leads to.
pub fn parent(path: &str) -> (r: Option<String>)
    ensures
        opt_text(r) == parent_of(path@),
{
    let mut parts = trim_parts(split_char(path, '/'));
    proof {
        split_on_len(path@, '/');
        trimmed_parts_len(split_on(path@, '/'));
        assert(texts(parts@).len() == parts@.len());
        assert(texts(parts@)[0] == parts@[0]@);
    }
    if parts.len() == 1 && parts[0].as_str().is_empty() {
        return None;
    }
    let ghost before_pop = parts@;
    parts.pop();
    assert(texts(parts@) =~= texts(before_pop).drop_last());
    let above = trim_parts(parts);
    assert(texts(above@).len() == above@.len());
    if above.len() == 1 {
        assert(texts(above@)[0] == above@[0]@);
        if above[0].as_str().is_empty() {
            return Some("/".to_owned());
        }
    }
    Some(join(&above, "/"))
}

proof fn trimmed_parts_len(parts: Seq<Seq<char>>)
    requires
        parts.len() >= 1,
    ensures
        trimmed_parts(parts).len() >= 1,
    decreases parts.len(),
{
    if parts.len() > 1 && (parts.last().len() == 0 || parts.last() == "."@) {
        trimmed_parts_len(parts.drop_last());
    }
}

} // verus!
