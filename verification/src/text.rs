use vstd::prelude::*;

verus! {

/// The contents of a list of strings.
pub open spec fn texts(list: Seq<String>) -> Seq<Seq<char>> {
    Seq::new(list.len(), |i: int| list[i]@)
}

/// `std::string::String::push` appends one character.
pub assume_specification[ String::push ](s: &mut String, c: char)
    ensures
        final(s)@ == old(s)@.push(c),
;

/// The characters of a string.
pub fn chars_of(s: &str) -> (v: Vec<char>)
    ensures
        v@ == s@,
{
    let mut v: Vec<char> = Vec::new();
    for c in it: s.chars()
        invariant
            it.seq() == s@,
            v@ == s@.take(it.index()),
    {
        v.push(c);
        assert(s@.take(it.index() + 1) =~= s@.take(it.index()).push(c));
    }
    assert(s@.take(s@.len() as int) =~= s@);
    v
}

/// The string made of the characters `v[from..to]`.
pub fn string_of(v: &[char], from: usize, to: usize) -> (s: String)
    requires
        from <= to <= v@.len(),
    ensures
        s@ == v@.subrange(from as int, to as int),
{
    let mut s = String::new();
    let mut i: usize = from;
    while i < to
        invariant
            from <= i <= to <= v@.len(),
            s@ == v@.subrange(from as int, i as int),
        decreases to - i,
    {
        s.push(v[i]);
        assert(v@.subrange(from as int, i + 1) =~= v@.subrange(from as int, i as int).push(v@[i as int]));
        i = i + 1;
    }
    s
}

/// `<str as PartialEq>::eq`: two texts are equal where they hold the same characters.
pub assume_specification[ <str as PartialEq>::eq ](a: &str, b: &str) -> (r: bool)
    ensures
        r == (a@ == b@),
;

/// Whether two texts hold the same characters.
pub fn str_eq(a: &str, b: &str) -> (r: bool)
    ensures
        r == (a@ == b@),
{
    a.eq(b)
}

/// A copy of the texts.
pub fn copy_texts(v: &Vec<String>) -> (r: Vec<String>)
    ensures
        texts(r@) == texts(v@),
{
    let mut out: Vec<String> = Vec::new();
    let mut i: usize = 0;
    while i < v.len()
        invariant
            i <= v@.len(),
            texts(out@) =~= texts(v@).take(i as int),
        decreases v@.len() - i,
    {
        proof {
            take_next(texts(v@), i as int);
            texts_push(out@, v@[i as int]);
        }
        out.push(v[i].clone());
        i = i + 1;
    }
    proof {
        take_all(texts(v@));
    }
    out
}

pub proof fn texts_push(s: Seq<String>, x: String)
    ensures
        texts(s.push(x)) == texts(s).push(x@),
{
    assert(texts(s.push(x)) =~= texts(s).push(x@));
}

pub proof fn take_next<T>(s: Seq<T>, i: int)
    requires
        0 <= i < s.len(),
    ensures
        s.take(i + 1) == s.take(i).push(s[i]),
        s.take(i + 1).drop_last() == s.take(i),
        s.take(i + 1).last() == s[i],
{
    assert(s.take(i + 1) =~= s.take(i).push(s[i]));
    assert(s.take(i + 1).drop_last() =~= s.take(i));
}

pub proof fn take_all<T>(s: Seq<T>)
    ensures
        s.take(s.len() as int) == s,
        s.take(0) == Seq::<T>::empty(),
{
    assert(s.take(s.len() as int) =~= s);
    assert(s.take(0) =~= Seq::<T>::empty());
}

/// `a` and `b`, one after the other.
pub fn cat2(a: &str, b: &str) -> (r: String)
    ensures
        r@ == a@ + b@,
{
    let mut r = a.to_owned();
    r.append(b);
    r
}

/// `a`, `b` and `c`, one after another.
pub fn cat3(a: &str, b: &str, c: &str) -> (r: String)
    ensures
        r@ == a@ + b@ + c@,
{
    let mut r = a.to_owned();
    r.append(b);
    r.append(c);
    r
}

/// The four texts, one after another.
pub fn cat4(a: &str, b: &str, c: &str, d: &str) -> (r: String)
    ensures
        r@ == a@ + b@ + c@ + d@,
{
    let mut r = cat3(a, b, c);
    r.append(d);
    r
}

/// The five texts, one after another.
pub fn cat5(a: &str, b: &str, c: &str, d: &str, e: &str) -> (r: String)
    ensures
        r@ == a@ + b@ + c@ + d@ + e@,
{
    let mut r = cat4(a, b, c, d);
    r.append(e);
    r
}

// ---------------------------------------------------------------------------
// Searching

/// `part` stands in `s` at position `i`.
pub open spec fn occurs_at(s: Seq<char>, part: Seq<char>, i: int) -> bool {
    0 <= i && i + part.len() <= s.len() && s.subrange(i, i + part.len()) == part
}

/// `part` stands somewhere in `s`.
pub open spec fn has_text(s: Seq<char>, part: Seq<char>) -> bool {
    exists|i: int| occurs_at(s, part, i)
}

/// `s` begins with `part`.
pub open spec fn begins(s: Seq<char>, part: Seq<char>) -> bool {
    occurs_at(s, part, 0)
}

fn occurs_here(s: &Vec<char>, part: &Vec<char>, i: usize) -> (r: bool)
    requires
        i <= s@.len(),
    ensures
        r == occurs_at(s@, part@, i as int),
{
    if part.len() > s.len() - i {
        return false;
    }
    let mut k: usize = 0;
    while k < part.len()
        invariant
            i + part@.len() <= s@.len() <= usize::MAX,
            k <= part@.len(),
            forall|j: int| 0 <= j < k ==> s@[i + j] == part@[j],
        decreases part@.len() - k,
    {
        if s[i + k] != part[k] {
            assert(s@.subrange(i as int, i + part@.len())[k as int] != part@[k as int]);
            return false;
        }
        k = k + 1;
    }
    assert(s@.subrange(i as int, i + part@.len()) =~= part@);
    true
}

/// Whether `part` stands somewhere in `s`.
pub fn contains(s: &str, part: &str) -> (r: bool)
    ensures
        r == has_text(s@, part@),
{
    let cs = chars_of(s);
    let ps = chars_of(part);
    let mut i: usize = 0;
    loop
        invariant
            cs@ == s@,
            ps@ == part@,
            i <= cs@.len(),
            forall|j: int| 0 <= j < i ==> !occurs_at(s@, part@, j),
        decreases cs@.len() - i,
    {
        if occurs_here(&cs, &ps, i) {
            return true;
        }
        if i == cs.len() {
            return false;
        }
        i = i + 1;
    }
}

/// Whether `s` begins with `part`.
pub fn starts_with(s: &str, part: &str) -> (r: bool)
    ensures
        r == begins(s@, part@),
{
    occurs_here(&chars_of(s), &chars_of(part), 0)
}

/// What follows `part` at the start of `s`.
pub fn strip_prefix(s: &str, part: &str) -> (r: Option<String>)
    ensures
        r is Some <==> begins(s@, part@),
        r matches Some(rest) ==> rest@ == s@.skip(part@.len() as int),
{
    let cs = chars_of(s);
    let ps = chars_of(part);
    if occurs_here(&cs, &ps, 0) {
        let rest = string_of(&cs, ps.len(), cs.len());
        assert(rest@ =~= s@.skip(part@.len() as int));
        Some(rest)
    } else {
        None
    }
}

/// `c` first stands in `s` at position `i`.
pub open spec fn first_at(s: Seq<char>, c: char, i: int) -> bool {
    0 <= i < s.len() && s[i] == c && forall|j: int| 0 <= j < i ==> s[j] != c
}

/// `c` last stands in `s` at position `i`.
pub open spec fn last_at(s: Seq<char>, c: char, i: int) -> bool {
    0 <= i < s.len() && s[i] == c && forall|j: int| i < j < s.len() ==> s[j] != c
}

/// The position of the first `c` in `s`.
pub fn find_char(s: &Vec<char>, c: char) -> (r: Option<usize>)
    ensures
        r matches Some(i) ==> first_at(s@, c, i as int),
        r is None ==> !s@.contains(c),
        r is Some <==> s@.contains(c),
{
    let mut i: usize = 0;
    while i < s.len()
        invariant
            i <= s@.len(),
            forall|j: int| 0 <= j < i ==> s@[j] != c,
        decreases s@.len() - i,
    {
        if s[i] == c {
            return Some(i);
        }
        i = i + 1;
    }
    None
}

/// The position of the last `c` in `s`.
pub fn rfind_char(s: &Vec<char>, c: char) -> (r: Option<usize>)
    ensures
        r matches Some(i) ==> last_at(s@, c, i as int),
        r is Some <==> s@.contains(c),
{
    let mut i: usize = s.len();
    while i > 0
        invariant
            i <= s@.len(),
            forall|j: int| i <= j < s@.len() ==> s@[j] != c,
        decreases i,
    {
        i = i - 1;
        if s[i] == c {
            return Some(i);
        }
    }
    None
}

/// Whether the character `c` stands in `s`.
pub fn contains_char(s: &str, c: char) -> (r: bool)
    ensures
        r == s@.contains(c),
{
    match find_char(&chars_of(s), c) {
        Some(_) => true,
        None => false,
    }
}

/// The two sides of the first `c` in `s`.
pub open spec fn cut_first(s: Seq<char>, c: char) -> Option<(Seq<char>, Seq<char>)> {
    if s.contains(c) {
        let i = choose|i: int| first_at(s, c, i);
        Some((s.take(i), s.skip(i + 1)))
    } else {
        None
    }
}

/// The two sides of the last `c` in `s`.
pub open spec fn cut_last(s: Seq<char>, c: char) -> Option<(Seq<char>, Seq<char>)> {
    if s.contains(c) {
        let i = choose|i: int| last_at(s, c, i);
        Some((s.take(i), s.skip(i + 1)))
    } else {
        None
    }
}

pub proof fn first_at_unique(s: Seq<char>, c: char, i: int)
    requires
        first_at(s, c, i),
    ensures
        cut_first(s, c) == Some((s.take(i), s.skip(i + 1))),
{
    assert(s.contains(c));
    let k = choose|k: int| first_at(s, c, k);
    assert(first_at(s, c, k));
    assert(k == i);
}

pub proof fn last_at_unique(s: Seq<char>, c: char, i: int)
    requires
        last_at(s, c, i),
    ensures
        cut_last(s, c) == Some((s.take(i), s.skip(i + 1))),
{
    assert(s.contains(c));
    let k = choose|k: int| last_at(s, c, k);
    assert(last_at(s, c, k));
    assert(k == i);
}

/// A pair of strings by their contents.
pub open spec fn pair_text(p: Option<(String, String)>) -> Option<(Seq<char>, Seq<char>)> {
    match p {
        Some((a, b)) => Some((a@, b@)),
        None => None,
    }
}

/// An optional string by its contents.
pub open spec fn opt_text(p: Option<String>) -> Option<Seq<char>> {
    match p {
        Some(a) => Some(a@),
        None => None,
    }
}

/// The two sides of the first `c` in `s`.
pub fn split_once(s: &str, c: char) -> (r: Option<(String, String)>)
    ensures
        pair_text(r) == cut_first(s@, c),
{
    let cs = chars_of(s);
    match find_char(&cs, c) {
        Some(i) => {
            assert(i < cs.len());
            let a = string_of(&cs, 0, i);
            let b = string_of(&cs, i + 1, cs.len());
            proof {
                first_at_unique(s@, c, i as int);
                assert(a@ =~= s@.take(i as int));
                assert(b@ =~= s@.skip(i + 1));
            }
            Some((a, b))
        },
        None => None,
    }
}

/// The two sides of the last `c` in `s`.
pub fn rsplit_once(s: &str, c: char) -> (r: Option<(String, String)>)
    ensures
        pair_text(r) == cut_last(s@, c),
{
    let cs = chars_of(s);
    match rfind_char(&cs, c) {
        Some(i) => {
            assert(i < cs.len());
            let a = string_of(&cs, 0, i);
            let b = string_of(&cs, i + 1, cs.len());
            proof {
                last_at_unique(s@, c, i as int);
                assert(a@ =~= s@.take(i as int));
                assert(b@ =~= s@.skip(i + 1));
            }
            Some((a, b))
        },
        None => None,
    }
}

/// `part` last stands in `s` at position `i`.
pub open spec fn last_part_at(s: Seq<char>, part: Seq<char>, i: int) -> bool {
    occurs_at(s, part, i) && forall|j: int| i < j ==> !#[trigger] occurs_at(s, part, j)
}

/// What stands behind the last `part` in `s`.
pub open spec fn after_last(s: Seq<char>, part: Seq<char>) -> Option<Seq<char>> {
    if has_text(s, part) {
        let i = choose|i: int| last_part_at(s, part, i);
        Some(s.skip(i + part.len()))
    } else {
        None
    }
}

/// What stands behind the last `part` in `s`.
pub fn rest_after_last(s: &str, part: &str) -> (r: Option<String>)
    ensures
        opt_text(r) == after_last(s@, part@),
{
    let cs = chars_of(s);
    let ps = chars_of(part);
    let mut i: usize = cs.len();
    loop
        invariant
            cs@ == s@,
            ps@ == part@,
            i <= cs@.len(),
            forall|j: int| i < j ==> !#[trigger] occurs_at(s@, part@, j),
        decreases i,
    {
        if occurs_here(&cs, &ps, i) {
            assert(i + ps@.len() <= cs.len());
            let r = string_of(&cs, i + ps.len(), cs.len());
            proof {
                assert(last_part_at(s@, part@, i as int));
                let k = choose|k: int| last_part_at(s@, part@, k);
                assert(k == i) by {
                    if k < i {
                        assert(!occurs_at(s@, part@, i as int));
                    } else if k > i {
                        assert(!occurs_at(s@, part@, k));
                    }
                }
                assert(r@ =~= s@.skip(i + part@.len()));
            }
            return Some(r);
        }
        if i == 0 {
            assert forall|j: int| !occurs_at(s@, part@, j) by {}
            return None;
        }
        i = i - 1;
    }
}

/// Where `part` first stands in `s`, from position `i` on.
pub open spec fn first_text(s: Seq<char>, part: Seq<char>, i: int) -> Option<int>
    decreases s.len() - i + 1,
{
    if i > s.len() {
        None
    } else if occurs_at(s, part, i) {
        Some(i)
    } else {
        first_text(s, part, i + 1)
    }
}

/// Where `part` first stands in `s`.
pub fn find_text(s: &Vec<char>, part: &str) -> (r: Option<usize>)
    ensures
        match r {
            Some(i) => first_text(s@, part@, 0) == Some(i as int) && i + part@.len() <= s@.len(),
            None => first_text(s@, part@, 0) is None,
        },
{
    let ps = chars_of(part);
    let mut i: usize = 0;
    while i < s.len()
        invariant
            ps@ == part@,
            i <= s@.len(),
            first_text(s@, part@, i as int) == first_text(s@, part@, 0),
        decreases s@.len() - i,
    {
        if occurs_here(s, &ps, i) {
            return Some(i);
        }
        i = i + 1;
    }
    if occurs_here(s, &ps, i) {
        return Some(i);
    }
    assert(first_text(s@, part@, i + 1) is None);
    None
}

/// The texts as strings.
pub fn strings(parts: &[&str]) -> (r: Vec<String>)
    ensures
        texts(r@) == Seq::new(parts@.len(), |i: int| parts@[i]@),
{
    let ghost all = Seq::new(parts@.len(), |i: int| parts@[i]@);
    let mut out: Vec<String> = Vec::new();
    let mut i: usize = 0;
    while i < parts.len()
        invariant
            i <= parts@.len(),
            all == Seq::new(parts@.len(), |i: int| parts@[i]@),
            texts(out@) =~= all.take(i as int),
        decreases parts@.len() - i,
    {
        let part = parts[i].to_owned();
        proof {
            take_next(all, i as int);
            texts_push(out@, part);
        }
        out.push(part);
        i = i + 1;
    }
    proof {
        take_all(all);
    }
    out
}

// ---------------------------------------------------------------------------
// Splitting and joining

/// The pieces of `s` between the characters `c`, empty ones included.
pub open spec fn split_on(s: Seq<char>, c: char) -> Seq<Seq<char>>
    decreases s.len(),
{
    if s.len() == 0 {
        seq![Seq::empty()]
    } else {
        let init = split_on(s.drop_last(), c);
        if s.last() == c {
            init.push(Seq::empty())
        } else {
            init.drop_last().push(init.last().push(s.last()))
        }
    }
}

pub proof fn split_on_len(s: Seq<char>, c: char)
    ensures
        split_on(s, c).len() >= 1,
    decreases s.len(),
{
    if s.len() > 0 {
        split_on_len(s.drop_last(), c);
    }
}

/// The pieces of `s` between the characters `c`.
pub fn split_char(s: &str, c: char) -> (r: Vec<String>)
    ensures
        texts(r@) == split_on(s@, c),
        r@.len() >= 1,
{
    let cs = chars_of(s);
    let mut out: Vec<String> = Vec::new();
    let mut current = String::new();
    let mut i: usize = 0;
    proof {
        assert(cs@.take(0) =~= Seq::empty());
        assert(texts(out@).push(current@) =~= seq![Seq::<char>::empty()]);
    }
    while i < cs.len()
        invariant
            cs@ == s@,
            i <= cs@.len(),
            texts(out@).push(current@) == split_on(cs@.take(i as int), c),
        decreases cs@.len() - i,
    {
        let x = cs[i];
        let ghost before = split_on(cs@.take(i as int), c);
        proof {
            assert(cs@.take(i + 1).drop_last() =~= cs@.take(i as int));
            assert(cs@.take(i + 1).last() == x);
            assert(before.drop_last() =~= texts(out@));
            assert(before.last() == current@);
        }
        let ghost old_out = out@;
        if x == c {
            out.push(current);
            proof {
                assert(texts(out@) =~= texts(old_out).push(current@));
            }
            current = String::new();
        } else {
            current.push(x);
        }
        i = i + 1;
    }
    assert(cs@.take(cs@.len() as int) =~= s@);
    let ghost old_out = out@;
    out.push(current);
    assert(texts(out@) =~= texts(old_out).push(current@));
    out
}

/// The parts one after another, with `sep` between neighbours.
pub open spec fn joined(parts: Seq<Seq<char>>, sep: Seq<char>) -> Seq<char>
    decreases parts.len(),
{
    if parts.len() == 0 {
        Seq::empty()
    } else if parts.len() == 1 {
        parts[0]
    } else {
        joined(parts.drop_last(), sep) + sep + parts.last()
    }
}

/// The parts one after another, with `sep` between neighbours.
pub fn join(parts: &Vec<String>, sep: &str) -> (r: String)
    ensures
        r@ == joined(texts(parts@), sep@),
{
    let mut out = String::new();
    let mut i: usize = 0;
    while i < parts.len()
        invariant
            i <= parts@.len(),
            out@ == joined(texts(parts@).take(i as int), sep@),
        decreases parts@.len() - i,
    {
        let ghost next = texts(parts@).take(i + 1);
        proof {
            assert(next.drop_last() =~= texts(parts@).take(i as int));
            assert(next.last() == parts@[i as int]@);
        }
        if i > 0 {
            out.append(sep);
        }
        out.append(parts[i].as_str());
        proof {
            if i == 0 {
                assert(out@ =~= next[0]);
            }
        }
        i = i + 1;
    }
    assert(texts(parts@).take(parts@.len() as int) =~= texts(parts@));
    out
}

/// The parts that are not empty, in order.
pub open spec fn nonempty(parts: Seq<Seq<char>>) -> Seq<Seq<char>>
    decreases parts.len(),
{
    if parts.len() == 0 {
        Seq::empty()
    } else if parts.last().len() == 0 {
        nonempty(parts.drop_last())
    } else {
        nonempty(parts.drop_last()).push(parts.last())
    }
}

/// The parts that are not empty, in order.
pub fn drop_empty(parts: Vec<String>) -> (r: Vec<String>)
    ensures
        texts(r@) == nonempty(texts(parts@)),
{
    let mut out: Vec<String> = Vec::new();
    let mut i: usize = 0;
    assert(texts(out@) =~= Seq::empty());
    while i < parts.len()
        invariant
            i <= parts@.len(),
            texts(out@) == nonempty(texts(parts@).take(i as int)),
        decreases parts@.len() - i,
    {
        proof {
            let next = texts(parts@).take(i + 1);
            assert(next.drop_last() =~= texts(parts@).take(i as int));
            assert(next.last() == parts@[i as int]@);
        }
        if !parts[i].as_str().is_empty() {
            let ghost old_out = out@;
            out.push(parts[i].clone());
            assert(texts(out@) =~= texts(old_out).push(parts@[i as int]@));
        }
        i = i + 1;
    }
    assert(texts(parts@).take(parts@.len() as int) =~= texts(parts@));
    out
}

// ---------------------------------------------------------------------------
// White space

/// The characters with the Unicode property `White_Space`.
pub open spec fn is_space(c: char) -> bool {
    let n = c as u32;
    ||| 9 <= n <= 13
    ||| n == 0x20
    ||| n == 0x85
    ||| n == 0xa0
    ||| n == 0x1680
    ||| 0x2000 <= n <= 0x200a
    ||| n == 0x2028
    ||| n == 0x2029
    ||| n == 0x202f
    ||| n == 0x205f
    ||| n == 0x3000
}

/// Whether `c` has the Unicode property `White_Space`.
pub fn is_white(c: char) -> (r: bool)
    ensures
        r == is_space(c),
{
    let n: u32 = c as u32;
    (9 <= n && n <= 13) || n == 0x20 || n == 0x85 || n == 0xa0 || n == 0x1680 || (0x2000 <= n && n
        <= 0x200a) || n == 0x2028 || n == 0x2029 || n == 0x202f || n == 0x205f || n == 0x3000
}

/// `s` with every white-space character turned into a blank.
pub open spec fn blanked(s: Seq<char>) -> Seq<char> {
    Seq::new(
        s.len(),
        |i: int|
            if is_space(s[i]) {
                ' '
            } else {
                s[i]
            },
    )
}

/// The words of `s`: its longest runs without white space.
pub open spec fn words_of(s: Seq<char>) -> Seq<Seq<char>> {
    nonempty(split_on(blanked(s), ' '))
}

/// The words of `s`.
pub fn words(s: &str) -> (r: Vec<String>)
    ensures
        texts(r@) == words_of(s@),
{
    let cs = chars_of(s);
    let mut blank = String::new();
    let mut i: usize = 0;
    while i < cs.len()
        invariant
            cs@ == s@,
            i <= cs@.len(),
            blank@ == blanked(s@).take(i as int),
        decreases cs@.len() - i,
    {
        let c = cs[i];
        if is_white(c) {
            blank.push(' ');
        } else {
            blank.push(c);
        }
        assert(blanked(s@).take(i + 1) =~= blanked(s@).take(i as int).push(blanked(s@)[i as int]));
        i = i + 1;
    }
    assert(blanked(s@).take(cs@.len() as int) =~= blanked(s@));
    drop_empty(split_char(blank.as_str(), ' '))
}

/// `s` without the white space at its start.
pub open spec fn trimmed_start(s: Seq<char>) -> Seq<char>
    decreases s.len(),
{
    if s.len() > 0 && is_space(s[0]) {
        trimmed_start(s.drop_first())
    } else {
        s
    }
}

/// `s` without the white space at its end.
pub open spec fn trimmed_end(s: Seq<char>) -> Seq<char>
    decreases s.len(),
{
    if s.len() > 0 && is_space(s.last()) {
        trimmed_end(s.drop_last())
    } else {
        s
    }
}

/// `s` without the white space at both ends.
pub open spec fn trimmed(s: Seq<char>) -> Seq<char> {
    trimmed_end(trimmed_start(s))
}

/// `s` without the white space at both ends.
pub fn trim(s: &str) -> (r: String)
    ensures
        r@ == trimmed(s@),
{
    let cs = chars_of(s);
    let mut a: usize = 0;
    assert(cs@.skip(0) =~= s@);
    while a < cs.len() && is_white(cs[a])
        invariant
            cs@ == s@,
            a <= cs@.len(),
            trimmed_start(cs@.skip(a as int)) == trimmed_start(s@),
        decreases cs@.len() - a,
    {
        assert(cs@.skip(a as int).drop_first() =~= cs@.skip(a + 1));
        a = a + 1;
    }
    let ghost mid = cs@.skip(a as int);
    assert(mid == trimmed_start(s@));
    let mut b: usize = cs.len();
    assert(cs@.subrange(a as int, b as int) =~= mid);
    while b > a && is_white(cs[b - 1])
        invariant
            a <= b <= cs@.len(),
            trimmed_end(cs@.subrange(a as int, b as int)) == trimmed_end(mid),
        decreases b,
    {
        assert(cs@.subrange(a as int, b as int).drop_last() =~= cs@.subrange(a as int, b - 1));
        b = b - 1;
    }
    string_of(&cs, a, b)
}

/// `s` without the characters `c` at its end.
pub open spec fn stripped_end(s: Seq<char>, c: char) -> Seq<char>
    decreases s.len(),
{
    if s.len() > 0 && s.last() == c {
        stripped_end(s.drop_last(), c)
    } else {
        s
    }
}

/// `s` without the characters `c` at its start.
pub open spec fn stripped_start(s: Seq<char>, c: char) -> Seq<char>
    decreases s.len(),
{
    if s.len() > 0 && s[0] == c {
        stripped_start(s.drop_first(), c)
    } else {
        s
    }
}

/// `s` without the characters `c` at its end.
pub fn strip_end(s: &str, c: char) -> (r: String)
    ensures
        r@ == stripped_end(s@, c),
{
    let cs = chars_of(s);
    let mut b: usize = cs.len();
    assert(cs@.take(b as int) =~= s@);
    while b > 0 && cs[b - 1] == c
        invariant
            b <= cs@.len(),
            stripped_end(cs@.take(b as int), c) == stripped_end(s@, c),
        decreases b,
    {
        assert(cs@.take(b as int).drop_last() =~= cs@.take(b - 1));
        b = b - 1;
    }
    let r = string_of(&cs, 0, b);
    assert(r@ =~= cs@.take(b as int));
    r
}

/// `s` without the characters `c` at its start.
pub fn strip_start(s: &str, c: char) -> (r: String)
    ensures
        r@ == stripped_start(s@, c),
{
    let cs = chars_of(s);
    let mut a: usize = 0;
    assert(cs@.skip(0) =~= s@);
    while a < cs.len() && cs[a] == c
        invariant
            cs@ == s@,
            a <= cs@.len(),
            stripped_start(cs@.skip(a as int), c) == stripped_start(s@, c),
        decreases cs@.len() - a,
    {
        assert(cs@.skip(a as int).drop_first() =~= cs@.skip(a + 1));
        a = a + 1;
    }
    let r = string_of(&cs, a, cs.len());
    assert(r@ =~= cs@.skip(a as int));
    r
}

// ---------------------------------------------------------------------------
// Lines

/// `line` without a carriage return at its end.
pub open spec fn without_cr(line: Seq<char>) -> Seq<char> {
    if line.len() > 0 && line.last() == '\r' {
        line.drop_last()
    } else {
        line
    }
}

/// The lines of `s`. A line ends with a line feed, or with a carriage return and a line
/// feed; the last one may go without.
pub open spec fn lines_of(s: Seq<char>) -> Seq<Seq<char>> {
    let parts = split_on(s, '\n');
    let ended = Seq::new((parts.len() - 1) as nat, |i: int| without_cr(parts[i]));
    if parts.last().len() == 0 {
        ended
    } else {
        ended.push(parts.last())
    }
}

/// The lines of `s`.
pub fn lines(s: &str) -> (r: Vec<String>)
    ensures
        texts(r@) == lines_of(s@),
{
    let parts = split_char(s, '\n');
    let ghost want = split_on(s@, '\n');
    let ghost ended = Seq::new((want.len() - 1) as nat, |i: int| without_cr(want[i]));
    let mut out: Vec<String> = Vec::new();
    let mut i: usize = 0;
    while i < parts.len() - 1
        invariant
            texts(parts@) == want,
            parts@.len() >= 1,
            i <= parts@.len() - 1,
            ended == Seq::new((want.len() - 1) as nat, |i: int| without_cr(want[i])),
            texts(out@) =~= ended.take(i as int),
        decreases parts@.len() - i,
    {
        let cs = chars_of(parts[i].as_str());
        assert(cs@ == want[i as int]);
        let line = if cs.len() > 0 && cs[cs.len() - 1] == '\r' {
            string_of(&cs, 0, cs.len() - 1)
        } else {
            string_of(&cs, 0, cs.len())
        };
        assert(line@ =~= without_cr(want[i as int]));
        let ghost old_out = out@;
        out.push(line);
        assert(texts(out@) =~= texts(old_out).push(line@));
        assert(ended.take(i + 1) =~= ended.take(i as int).push(ended[i as int]));
        i = i + 1;
    }
    assert(texts(out@) =~= ended);
    if !parts[i].as_str().is_empty() {
        assert(parts@[i as int]@ == want.last());
        out.push(parts[i].clone());
        assert(texts(out@) =~= ended.push(want.last()));
    } else {
        assert(want.last() == parts@[i as int]@);
    }
    out
}

// ---------------------------------------------------------------------------
// Replacing and letter case

/// `s` from position `i` on, with each `from` (taken leftmost first) replaced by `to`.
pub open spec fn replaced_from(s: Seq<char>, from: Seq<char>, to: Seq<char>, i: int) -> Seq<char>
    decreases s.len() - i,
{
    if i < 0 || i >= s.len() {
        Seq::empty()
    } else if from.len() > 0 && occurs_at(s, from, i) {
        to + replaced_from(s, from, to, i + from.len())
    } else {
        seq![s[i]] + replaced_from(s, from, to, i + 1)
    }
}

/// `s` with each `from` replaced by `to`.
pub open spec fn replaced(s: Seq<char>, from: Seq<char>, to: Seq<char>) -> Seq<char> {
    replaced_from(s, from, to, 0)
}

/// `s` with each `from` replaced by `to`.
pub fn replace(s: &str, from: &str, to: &str) -> (r: String)
    requires
        from@.len() > 0,
    ensures
        r@ == replaced(s@, from@, to@),
{
    let cs = chars_of(s);
    let fs = chars_of(from);
    let mut out = String::new();
    let mut i: usize = 0;
    assert(out@ + replaced_from(s@, from@, to@, 0) =~= replaced(s@, from@, to@));
    while i < cs.len()
        invariant
            cs@ == s@,
            fs@ == from@,
            from@.len() > 0,
            i <= cs@.len(),
            out@ + replaced_from(s@, from@, to@, i as int) == replaced(s@, from@, to@),
        decreases cs@.len() - i,
    {
        let ghost old_out = out@;
        if occurs_here(&cs, &fs, i) {
            out.append(to);
            proof {
                assert(out@ + replaced_from(s@, from@, to@, i + from@.len()) =~= old_out + (to@
                    + replaced_from(s@, from@, to@, i + from@.len())));
            }
            i = i + fs.len();
        } else {
            out.push(cs[i]);
            proof {
                assert(out@ + replaced_from(s@, from@, to@, i + 1) =~= old_out + (seq![s@[i as int]]
                    + replaced_from(s@, from@, to@, i + 1)));
            }
            i = i + 1;
        }
    }
    assert(out@ + replaced_from(s@, from@, to@, i as int) =~= out@);
    out
}

/// The lower-case letter of an ASCII capital; any other character as it is.
pub open spec fn lower_char(c: char) -> char {
    if 'A' <= c <= 'Z' {
        ((c as u8) + 32) as char
    } else {
        c
    }
}

/// The capital of an ASCII lower-case letter; any other character as it is.
pub open spec fn upper_char(c: char) -> char {
    if 'a' <= c <= 'z' {
        ((c as u8) - 32) as char
    } else {
        c
    }
}

/// `s` with its ASCII capitals in lower case.
pub open spec fn lowered(s: Seq<char>) -> Seq<char> {
    Seq::new(s.len(), |i: int| lower_char(s[i]))
}

/// `s` with its ASCII letters as capitals.
pub open spec fn uppered(s: Seq<char>) -> Seq<char> {
    Seq::new(s.len(), |i: int| upper_char(s[i]))
}

/// The lower-case letter of an ASCII capital.
pub fn to_lower(c: char) -> (r: char)
    ensures
        r == lower_char(c),
{
    if 'A' <= c && c <= 'Z' {
        (c as u8 + 32) as char
    } else {
        c
    }
}

/// `s` with its ASCII capitals in lower case.
pub fn ascii_lower(s: &str) -> (r: String)
    ensures
        r@ == lowered(s@),
{
    let mut out = String::new();
    for c in it: s.chars()
        invariant
            it.seq() == s@,
            out@ =~= lowered(s@).take(it.index()),
    {
        out.push(to_lower(c));
    }
    assert(out@ =~= lowered(s@));
    out
}

/// `s` with its ASCII letters as capitals.
pub fn ascii_upper(s: &str) -> (r: String)
    ensures
        r@ == uppered(s@),
{
    let mut out = String::new();
    for c in it: s.chars()
        invariant
            it.seq() == s@,
            out@ =~= uppered(s@).take(it.index()),
    {
        if 'a' <= c && c <= 'z' {
            out.push((c as u8 - 32) as char);
        } else {
            out.push(c);
        }
    }
    assert(out@ =~= uppered(s@));
    out
}

/// An ASCII letter or digit.
pub open spec fn is_alnum(c: char) -> bool {
    ||| 'a' <= c <= 'z'
    ||| 'A' <= c <= 'Z'
    ||| '0' <= c <= '9'
}

/// Whether `c` is an ASCII letter or digit.
pub fn alnum(c: char) -> (r: bool)
    ensures
        r == is_alnum(c),
{
    ('a' <= c && c <= 'z') || ('A' <= c && c <= 'Z') || ('0' <= c && c <= '9')
}

} // verus!
