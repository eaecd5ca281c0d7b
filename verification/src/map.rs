use vstd::prelude::*;
use crate::order::{before, before_irreflexive, before_total, before_transitive, less};
use crate::text::{str_eq, take_all, take_next, texts, texts_push};

verus! {

/// A map from texts to values, its entries kept in the order of their keys.
#[derive(Debug)]
pub struct TextMap<V> {
    entries: Vec<(String, V)>,
}

/// The entries by their keys' contents.
pub open spec fn entries_of<V>(s: Seq<(String, V)>) -> Seq<(Seq<char>, V)> {
    Seq::new(s.len(), |i: int| (s[i].0@, s[i].1))
}

/// Each key comes before those behind it, so that none occurs twice.
pub open spec fn ascending<V>(s: Seq<(Seq<char>, V)>) -> bool {
    forall|i: int, j: int| 0 <= i < j < s.len() ==> before(#[trigger] s[i].0, #[trigger] s[j].0)
}

/// The value that stands under `key`.
pub open spec fn value_at<V>(s: Seq<(Seq<char>, V)>, key: Seq<char>) -> Option<V>
    decreases s.len(),
{
    if s.len() == 0 {
        None
    } else if s.last().0 == key {
        Some(s.last().1)
    } else {
        value_at(s.drop_last(), key)
    }
}

/// The entries with `value` under `key`, in place of what stood there.
pub open spec fn with_entry<V>(s: Seq<(Seq<char>, V)>, key: Seq<char>, value: V) -> Seq<
    (Seq<char>, V),
>
    decreases s.len(),
{
    if s.len() == 0 {
        seq![(key, value)]
    } else if s.last().0 == key {
        s.drop_last().push((key, value))
    } else if before(s.last().0, key) {
        s.push((key, value))
    } else {
        with_entry(s.drop_last(), key, value).push(s.last())
    }
}

/// The keys in order.
pub open spec fn keys_of<V>(s: Seq<(Seq<char>, V)>) -> Seq<Seq<char>> {
    Seq::new(s.len(), |i: int| s[i].0)
}

proof fn with_entry_bounded<V>(s: Seq<(Seq<char>, V)>, key: Seq<char>, value: V, top: Seq<char>)
    requires
        forall|i: int| 0 <= i < s.len() ==> before(#[trigger] s[i].0, top),
        before(key, top),
    ensures
        forall|i: int|
            0 <= i < with_entry(s, key, value).len() ==> before(
                #[trigger] with_entry(s, key, value)[i].0,
                top,
            ),
    decreases s.len(),
{
    if s.len() > 0 && s.last().0 != key && !before(s.last().0, key) {
        let init = s.drop_last();
        assert forall|i: int| 0 <= i < init.len() implies before(#[trigger] init[i].0, top) by {
            assert(init[i] == s[i]);
        }
        with_entry_bounded(init, key, value, top);
        let r = with_entry(s, key, value);
        let ri = with_entry(init, key, value);
        assert forall|i: int| 0 <= i < r.len() implies before(#[trigger] r[i].0, top) by {
            if i < ri.len() {
                assert(r[i] == ri[i]);
            } else {
                assert(r[i] == s[s.len() - 1]);
            }
        }
    } else if s.len() > 0 {
        let r = with_entry(s, key, value);
        assert forall|i: int| 0 <= i < r.len() implies before(#[trigger] r[i].0, top) by {
            if i < r.len() - 1 {
                assert(r[i] == s[i]);
            }
        }
    }
}

/// Setting an entry keeps the keys in order.
pub proof fn with_entry_ascending<V>(s: Seq<(Seq<char>, V)>, key: Seq<char>, value: V)
    requires
        ascending(s),
    ensures
        ascending(with_entry(s, key, value)),
    decreases s.len(),
{
    let r = with_entry(s, key, value);
    if s.len() == 0 {
    } else if s.last().0 == key {
        assert forall|i: int, j: int| 0 <= i < j < r.len() implies before(
            #[trigger] r[i].0,
            #[trigger] r[j].0,
        ) by {
            assert(r[i].0 == s[i].0 && r[j].0 == s[j].0);
        }
    } else if before(s.last().0, key) {
        assert forall|i: int, j: int| 0 <= i < j < r.len() implies before(
            #[trigger] r[i].0,
            #[trigger] r[j].0,
        ) by {
            assert(r[i] == s[i]);
            if j < s.len() {
                assert(r[j] == s[j]);
            } else if i < s.len() - 1 {
                assert(before(s[i].0, s[s.len() - 1].0));
                before_transitive(s[i].0, s.last().0, key);
            }
        }
    } else {
        let init = s.drop_last();
        assert(ascending(init)) by {
            assert forall|i: int, j: int| 0 <= i < j < init.len() implies before(
                #[trigger] init[i].0,
                #[trigger] init[j].0,
            ) by {
                assert(init[i] == s[i] && init[j] == s[j]);
            }
        }
        with_entry_ascending(init, key, value);
        before_total(s.last().0, key);
        assert forall|i: int| 0 <= i < init.len() implies before(
            #[trigger] init[i].0,
            s.last().0,
        ) by {
            assert(init[i] == s[i]);
            assert(before(s[i].0, s[s.len() - 1].0));
        }
        with_entry_bounded(init, key, value, s.last().0);
        let ri = with_entry(init, key, value);
        assert forall|i: int, j: int| 0 <= i < j < r.len() implies before(
            #[trigger] r[i].0,
            #[trigger] r[j].0,
        ) by {
            assert(r[i] == ri[i]);
            if j < ri.len() {
                assert(r[j] == ri[j]);
            }
        }
    }
}

/// What was set under a key is what stands there; every other key is left as it was.
pub proof fn with_entry_value<V>(
    s: Seq<(Seq<char>, V)>,
    key: Seq<char>,
    value: V,
    other: Seq<char>,
)
    requires
        ascending(s),
    ensures
        value_at(with_entry(s, key, value), key) == Some(value),
        other != key ==> value_at(with_entry(s, key, value), other) == value_at(s, other),
    decreases s.len(),
{
    let r = with_entry(s, key, value);
    if s.len() == 0 {
        assert(r.drop_last() =~= s);
    } else if s.last().0 == key {
        assert(r.drop_last() =~= s.drop_last());
    } else if before(s.last().0, key) {
        assert(r.drop_last() =~= s);
    } else {
        let init = s.drop_last();
        assert(ascending(init)) by {
            assert forall|i: int, j: int| 0 <= i < j < init.len() implies before(
                #[trigger] init[i].0,
                #[trigger] init[j].0,
            ) by {
                assert(init[i] == s[i] && init[j] == s[j]);
            }
        }
        with_entry_value(init, key, value, other);
        assert(r.drop_last() =~= with_entry(init, key, value));
    }
}

proof fn value_at_none<V>(s: Seq<(Seq<char>, V)>, key: Seq<char>)
    requires
        forall|i: int| 0 <= i < s.len() ==> #[trigger] s[i].0 != key,
    ensures
        value_at(s, key) is None,
    decreases s.len(),
{
    if s.len() > 0 {
        let init = s.drop_last();
        assert forall|i: int| 0 <= i < init.len() implies #[trigger] init[i].0 != key by {
            assert(init[i] == s[i]);
        }
        assert(s[s.len() - 1].0 != key);
        value_at_none(init, key);
    }
}

proof fn value_at_found<V>(s: Seq<(Seq<char>, V)>, key: Seq<char>, i: int)
    requires
        ascending(s),
        0 <= i < s.len(),
        s[i].0 == key,
    ensures
        value_at(s, key) == Some(s[i].1),
    decreases s.len(),
{
    if i == s.len() - 1 {
    } else {
        let init = s.drop_last();
        assert(ascending(init)) by {
            assert forall|a: int, b: int| 0 <= a < b < init.len() implies before(
                #[trigger] init[a].0,
                #[trigger] init[b].0,
            ) by {
                assert(init[a] == s[a] && init[b] == s[b]);
            }
        }
        assert(before(s[i].0, s[s.len() - 1].0));
        before_irreflexive(key);
        assert(init[i] == s[i]);
        value_at_found(init, key, i);
    }
}

/// The entries with their values by their contents.
pub open spec fn entry_texts(s: Seq<(Seq<char>, String)>) -> Seq<(Seq<char>, Seq<char>)> {
    Seq::new(s.len(), |i: int| (s[i].0, s[i].1@))
}

pub proof fn entry_texts_with(s: Seq<(Seq<char>, String)>, key: Seq<char>, value: String)
    ensures
        entry_texts(with_entry(s, key, value)) == with_entry(entry_texts(s), key, value@),
    decreases s.len(),
{
    let t = entry_texts(s);
    if s.len() == 0 {
        assert(entry_texts(with_entry(s, key, value)) =~= with_entry(t, key, value@));
    } else {
        assert(t.drop_last() =~= entry_texts(s.drop_last()));
        assert(t.last() == (s.last().0, s.last().1@));
        if s.last().0 != key && !before(s.last().0, key) {
            entry_texts_with(s.drop_last(), key, value);
        }
        assert(entry_texts(with_entry(s, key, value)) =~= with_entry(t, key, value@));
    }
}

impl<V> View for TextMap<V> {
    type V = Seq<(Seq<char>, V)>;

    closed spec fn view(&self) -> Seq<(Seq<char>, V)> {
        entries_of(self.entries@)
    }
}

impl<V> TextMap<V> {
    #[verifier::type_invariant]
    spec fn ordered(self) -> bool {
        ascending(entries_of(self.entries@))
    }

    /// The map without entries.
    pub fn new() -> (r: TextMap<V>)
        ensures
            r@ == Seq::<(Seq<char>, V)>::empty(),
    {
        let entries: Vec<(String, V)> = Vec::new();
        assert(entries_of(entries@) =~= Seq::empty());
        TextMap { entries }
    }

    /// The number of entries.
    pub fn len(&self) -> (r: usize)
        ensures
            r == self@.len(),
            ascending(self@),
    {
        proof {
            use_type_invariant(self);
        }
        self.entries.len()
    }

    /// The key of the entry at place `i`.
    pub fn key(&self, i: usize) -> (r: &String)
        requires
            i < self@.len(),
        ensures
            r@ == self@[i as int].0,
    {
        &self.entries[i].0
    }

    /// The value of the entry at place `i`.
    pub fn value(&self, i: usize) -> (r: &V)
        requires
            i < self@.len(),
        ensures
            *r == self@[i as int].1,
    {
        &self.entries[i].1
    }

    /// The value that stands under `key`.
    pub fn get(&self, key: &str) -> (r: Option<&V>)
        ensures
            r matches Some(v) ==> value_at(self@, key@) == Some(*v),
            r is None ==> value_at(self@, key@) is None,
    {
        proof {
            use_type_invariant(self);
        }
        let mut i: usize = 0;
        while i < self.entries.len()
            invariant
                i <= self.entries@.len(),
                ascending(self@),
                self@ == entries_of(self.entries@),
                forall|j: int| 0 <= j < i ==> #[trigger] self@[j].0 != key@,
            decreases self.entries@.len() - i,
        {
            if str_eq(self.entries[i].0.as_str(), key) {
                proof {
                    value_at_found(self@, key@, i as int);
                }
                return Some(&self.entries[i].1);
            }
            i = i + 1;
        }
        proof {
            value_at_none(self@, key@);
        }
        None
    }

    /// Whether an entry stands under `key`.
    pub fn contains_key(&self, key: &str) -> (r: bool)
        ensures
            r == value_at(self@, key@) is Some,
    {
        match self.get(key) {
            Some(_) => true,
            None => false,
        }
    }

    /// The keys in order.
    pub fn keys(&self) -> (r: Vec<String>)
        ensures
            texts(r@) == keys_of(self@),
    {
        let mut out: Vec<String> = Vec::new();
        let mut i: usize = 0;
        while i < self.entries.len()
            invariant
                i <= self.entries@.len(),
                self@ == entries_of(self.entries@),
                texts(out@) =~= keys_of(self@).take(i as int),
            decreases self.entries@.len() - i,
        {
            proof {
                texts_push(out@, self.entries@[i as int].0);
                take_next(keys_of(self@), i as int);
            }
            out.push(self.entries[i].0.clone());
            i = i + 1;
        }
        assert(keys_of(self@).take(self@.len() as int) =~= keys_of(self@));
        out
    }

    /// Sets `value` under `key`.
    pub fn insert(self, key: String, value: V) -> (r: TextMap<V>)
        ensures
            r@ == with_entry(self@, key@, value),
            ascending(self@),
            ascending(r@),
            value_at(r@, key@) == Some(value),
    {
        proof {
            use_type_invariant(&self);
            with_entry_ascending(self@, key@, value);
            with_entry_value(self@, key@, value, key@);
        }
        let entries = set_entry(self.entries, key, value);
        TextMap { entries }
    }
}

/// The texts as keys, each once and in order.
pub open spec fn key_set(s: Seq<Seq<char>>) -> Seq<(Seq<char>, ())>
    decreases s.len(),
{
    if s.len() == 0 {
        Seq::empty()
    } else {
        with_entry(key_set(s.drop_last()), s.last(), ())
    }
}

/// The texts in order, each once.
pub open spec fn unique_sorted(s: Seq<Seq<char>>) -> Seq<Seq<char>> {
    keys_of(key_set(s))
}

proof fn key_set_members(s: Seq<Seq<char>>, x: Seq<char>)
    ensures
        ascending(key_set(s)),
        s.contains(x) == value_at(key_set(s), x) is Some,
    decreases s.len(),
{
    if s.len() > 0 {
        let init = s.drop_last();
        key_set_members(init, x);
        with_entry_ascending(key_set(init), s.last(), ());
        with_entry_value(key_set(init), s.last(), (), x);
        if s.contains(x) && x != s.last() {
            let k = choose|k: int| 0 <= k < s.len() && s[k] == x;
            assert(init[k] == x);
        }
        if init.contains(x) {
            let k = choose|k: int| 0 <= k < init.len() && init[k] == x;
            assert(s[k] == x);
        }
        assert(s[s.len() - 1] == s.last());
    }
}

proof fn value_at_member<V>(s: Seq<(Seq<char>, V)>, x: Seq<char>)
    requires
        ascending(s),
    ensures
        keys_of(s).contains(x) == value_at(s, x) is Some,
{
    if keys_of(s).contains(x) {
        let i = choose|i: int| 0 <= i < keys_of(s).len() && keys_of(s)[i] == x;
        value_at_found(s, x, i);
    } else {
        assert forall|i: int| 0 <= i < s.len() implies #[trigger] s[i].0 != x by {
            assert(keys_of(s)[i] == s[i].0);
        }
        value_at_none(s, x);
    }
}

/// Sorting out duplicates keeps exactly the texts that there were, each before those behind
/// it.
pub proof fn unique_sorted_members(s: Seq<Seq<char>>, x: Seq<char>)
    ensures
        unique_sorted(s).contains(x) == s.contains(x),
        forall|i: int, j: int|
            0 <= i < j < unique_sorted(s).len() ==> before(
                #[trigger] unique_sorted(s)[i],
                #[trigger] unique_sorted(s)[j],
            ),
{
    key_set_members(s, x);
    value_at_member(key_set(s), x);
    let k = key_set(s);
    assert forall|i: int, j: int| 0 <= i < j < unique_sorted(s).len() implies before(
        #[trigger] unique_sorted(s)[i],
        #[trigger] unique_sorted(s)[j],
    ) by {
        assert(before(k[i].0, k[j].0));
    }
}

/// The texts in order, each once.
pub fn sort_unique(items: &Vec<String>) -> (r: Vec<String>)
    ensures
        texts(r@) == unique_sorted(texts(items@)),
{
    let ghost all = texts(items@);
    let mut set: TextMap<()> = TextMap::new();
    let mut i: usize = 0;
    proof {
        take_all(all);
    }
    while i < items.len()
        invariant
            i <= items@.len(),
            all == texts(items@),
            set@ == key_set(all.take(i as int)),
        decreases items@.len() - i,
    {
        proof {
            take_next(all, i as int);
        }
        set = set.insert(items[i].clone(), ());
        i = i + 1;
    }
    proof {
        take_all(all);
    }
    set.keys()
}

/// How many of the entries stay in front when `key` is set.
spec fn front<V>(s: Seq<(Seq<char>, V)>, key: Seq<char>) -> int
    decreases s.len(),
{
    if s.len() > 0 && s.last().0 != key && !before(s.last().0, key) {
        front(s.drop_last(), key)
    } else {
        s.len() as int
    }
}

proof fn front_splits<V>(s: Seq<(Seq<char>, V)>, key: Seq<char>, value: V)
    ensures
        0 <= front(s, key) <= s.len(),
        with_entry(s, key, value) == with_entry(s.take(front(s, key)), key, value) + s.skip(
            front(s, key),
        ),
        front(s, key) > 0 ==> s[front(s, key) - 1].0 == key || before(
            s[front(s, key) - 1].0,
            key,
        ),
    decreases s.len(),
{
    let n = front(s, key);
    if s.len() > 0 && s.last().0 != key && !before(s.last().0, key) {
        let init = s.drop_last();
        front_splits(init, key, value);
        assert(init.take(n) =~= s.take(n));
        assert(s.skip(n) =~= init.skip(n).push(s.last()));
        assert(with_entry(s, key, value) =~= with_entry(s.take(n), key, value) + s.skip(n));
    } else {
        assert(s.take(n) =~= s);
        assert(with_entry(s, key, value) =~= with_entry(s.take(n), key, value) + s.skip(n));
    }
}

fn find_front<V>(entries: &Vec<(String, V)>, key: &str) -> (r: usize)
    ensures
        r == front(entries_of(entries@), key@),
        r <= entries@.len(),
{
    let ghost start = entries_of(entries@);
    let mut i: usize = entries.len();
    assert(start.take(i as int) =~= start);
    while i > 0 && !str_eq(entries[i - 1].0.as_str(), key) && !less(
        entries[i - 1].0.as_str(),
        key,
    )
        invariant
            i <= entries@.len(),
            start == entries_of(entries@),
            front(start.take(i as int), key@) == front(start, key@),
        decreases i,
    {
        proof {
            take_next(start, i - 1);
        }
        i = i - 1;
    }
    proof {
        if i > 0 {
            take_next(start, i - 1);
        }
    }
    i
}

fn set_entry<V>(entries: Vec<(String, V)>, key: String, value: V) -> (r: Vec<(String, V)>)
    ensures
        entries_of(r@) == with_entry(entries_of(entries@), key@, value),
{
    let ghost start = entries_of(entries@);
    let ghost k = key@;
    proof {
        front_splits(start, k, value);
    }
    let i: usize = find_front(&entries, key.as_str());
    let mut entries = entries;
    let ghost here = start.take(i as int);
    if i > 0 && str_eq(entries[i - 1].0.as_str(), key.as_str()) {
        assert(here.last() == start[i - 1]);
        entries.set(i - 1, (key, value));
        assert(entries_of(entries@) =~= here.drop_last().push((k, value)) + start.skip(i as int));
    } else {
        if i > 0 {
            assert(here.last() == start[i - 1]);
        }
        entries.insert(i, (key, value));
        assert(entries_of(entries@) =~= here.push((k, value)) + start.skip(i as int));
    }
    entries
}

} // verus!
