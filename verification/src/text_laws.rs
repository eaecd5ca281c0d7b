use vstd::prelude::*;
use crate::text::{
    blanked, cut_first, first_at_unique, has_text, is_space, joined, lines_of, nonempty, occurs_at,
    split_on, split_on_len, stripped_end, trimmed, trimmed_end, trimmed_start, without_cr, words_of,
};

verus! {

// ---------------------------------------------------------------------------
// Cutting a text apart and joining it

/// A text without the separator is its own only part.
pub proof fn split_of_one_part(s: Seq<char>, c: char)
    requires
        !s.contains(c),
    ensures
        split_on(s, c) == seq![s],
    decreases s.len(),
{
    if s.len() > 0 {
        assert forall|i: int| 0 <= i < s.drop_last().len() implies s.drop_last()[i] != c by {
            assert(s.contains(s[i]));
        }
        split_of_one_part(s.drop_last(), c);
        assert(s.contains(s.last()));
        assert(s.drop_last().push(s.last()) =~= s);
        assert(split_on(s, c) =~= seq![s]);
    } else {
        assert(s =~= Seq::empty());
    }
}

/// The parts of two texts with the separator between them are the parts of the one and then
/// those of the other.
pub proof fn split_around(a: Seq<char>, b: Seq<char>, c: char)
    ensures
        split_on(a + seq![c] + b, c) == split_on(a, c) + split_on(b, c),
    decreases b.len(),
{
    let s = a + seq![c] + b;
    if b.len() == 0 {
        assert(s.drop_last() =~= a);
        assert(s.last() == c);
        assert(split_on(s, c) =~= split_on(a, c) + split_on(b, c));
    } else {
        let t = b.drop_last();
        split_around(a, t, c);
        split_on_len(t, c);
        assert(s.drop_last() =~= a + seq![c] + t);
        assert(s.last() == b.last());
        let left = split_on(a, c);
        let right = split_on(t, c);
        assert((left + right).last() == right.last());
        assert((left + right).drop_last() =~= left + right.drop_last());
        assert(split_on(s, c) =~= left + split_on(b, c));
    }
}

/// Parts without the separator are found again, all of them in their order, in the text that
/// joins them.
pub proof fn split_undoes_join(parts: Seq<Seq<char>>, c: char)
    requires
        parts.len() > 0,
        forall|i: int| 0 <= i < parts.len() ==> !(#[trigger] parts[i]).contains(c),
    ensures
        split_on(joined(parts, seq![c]), c) == parts,
    decreases parts.len(),
{
    split_of_one_part(parts.last(), c);
    if parts.len() > 1 {
        let init = parts.drop_last();
        assert forall|i: int| 0 <= i < init.len() implies !(#[trigger] init[i]).contains(c) by {
            assert(init[i] == parts[i]);
        }
        split_undoes_join(init, c);
        split_around(joined(init, seq![c]), parts.last(), c);
        assert(init + seq![parts.last()] =~= parts);
    } else {
        assert(seq![parts[0]] =~= parts);
    }
}

/// The word is not empty and has no white space in it.
pub open spec fn is_word(w: Seq<char>) -> bool {
    w.len() > 0 && forall|i: int| 0 <= i < w.len() ==> !is_space(#[trigger] w[i])
}

proof fn none_empty(parts: Seq<Seq<char>>)
    requires
        forall|i: int| 0 <= i < parts.len() ==> (#[trigger] parts[i]).len() > 0,
    ensures
        nonempty(parts) == parts,
    decreases parts.len(),
{
    if parts.len() > 0 {
        let init = parts.drop_last();
        assert forall|i: int| 0 <= i < init.len() implies (#[trigger] init[i]).len() > 0 by {
            assert(init[i] == parts[i]);
        }
        none_empty(init);
        assert(init.push(parts.last()) =~= parts);
    } else {
        assert(parts =~= Seq::empty());
    }
}

proof fn blanked_joined(words: Seq<Seq<char>>)
    requires
        forall|i: int| 0 <= i < words.len() ==> is_word(#[trigger] words[i]),
    ensures
        blanked(joined(words, seq![' '])) == joined(words, seq![' ']),
    decreases words.len(),
{
    let s = joined(words, seq![' ']);
    if words.len() == 1 {
        assert(is_word(words[0]));
        assert(blanked(s) =~= s);
    } else if words.len() > 1 {
        let init = words.drop_last();
        assert forall|i: int| 0 <= i < init.len() implies is_word(#[trigger] init[i]) by {
            assert(init[i] == words[i]);
        }
        blanked_joined(init);
        let head = joined(init, seq![' ']);
        assert(is_word(words[words.len() - 1]));
        assert forall|i: int| 0 <= i < s.len() implies blanked(s)[i] == s[i] by {
            if i < head.len() {
                assert(s[i] == head[i]);
                assert(blanked(head)[i] == head[i]);
            } else if i == head.len() {
                assert(s[i] == ' ');
            } else {
                assert(s[i] == words.last()[i - head.len() - 1]);
            }
        }
        assert(blanked(s) =~= s);
    } else {
        assert(blanked(s) =~= s);
    }
}

/// Words that a text holds with one blank between neighbours are the words of that text.
pub proof fn words_of_joined(words: Seq<Seq<char>>)
    requires
        words.len() > 0,
        forall|i: int| 0 <= i < words.len() ==> is_word(#[trigger] words[i]),
    ensures
        words_of(joined(words, seq![' '])) == words,
{
    blanked_joined(words);
    assert forall|i: int| 0 <= i < words.len() implies !(#[trigger] words[i]).contains(' ')
        && words[i].len() > 0 by {
        assert(is_word(words[i]));
        if words[i].contains(' ') {
            let k = choose|k: int| 0 <= k < words[i].len() && words[i][k] == ' ';
            assert(!is_space(words[i][k]));
        }
    }
    split_undoes_join(words, ' ');
    none_empty(words);
}

proof fn nonempty_of_both(a: Seq<Seq<char>>, b: Seq<Seq<char>>)
    ensures
        nonempty(a + b) == nonempty(a) + nonempty(b),
    decreases b.len(),
{
    if b.len() == 0 {
        assert(a + b =~= a);
        assert(nonempty(a) + nonempty(b) =~= nonempty(a));
    } else {
        nonempty_of_both(a, b.drop_last());
        assert((a + b).drop_last() =~= a + b.drop_last());
        assert((a + b).last() == b.last());
        assert(nonempty(a + b) =~= nonempty(a) + nonempty(b));
    }
}

/// White space parts words: the words of two texts with white space between them are the
/// words of the one and then those of the other.
pub proof fn words_around(a: Seq<char>, b: Seq<char>, c: char)
    requires
        is_space(c),
    ensures
        words_of(a + seq![c] + b) == words_of(a) + words_of(b),
{
    assert(blanked(a + seq![c] + b) =~= blanked(a) + seq![' '] + blanked(b));
    split_around(blanked(a), blanked(b), ' ');
    nonempty_of_both(split_on(blanked(a), ' '), split_on(blanked(b), ' '));
}

/// White space before a text adds no word to it.
pub proof fn indent_adds_no_word(indent: Seq<char>, s: Seq<char>)
    requires
        forall|i: int| 0 <= i < indent.len() ==> is_space(#[trigger] indent[i]),
    ensures
        words_of(indent + s) == words_of(s),
    decreases indent.len(),
{
    if indent.len() == 0 {
        assert(indent + s =~= s);
    } else {
        let rest = indent.drop_first();
        assert forall|i: int| 0 <= i < rest.len() implies is_space(#[trigger] rest[i]) by {
            assert(rest[i] == indent[i + 1]);
        }
        indent_adds_no_word(rest, s);
        let empty = Seq::<char>::empty();
        assert(indent + s =~= empty + seq![indent[0]] + (rest + s));
        words_around(empty, rest + s, indent[0]);
        no_words();
        assert(words_of(empty) + words_of(rest + s) =~= words_of(rest + s));
    }
}

/// An empty text has no words.
pub proof fn no_words()
    ensures
        words_of(Seq::empty()) == Seq::<Seq<char>>::empty(),
{
    assert(blanked(Seq::empty()) =~= Seq::<char>::empty());
    reveal_with_fuel(nonempty, 2);
    assert(seq![Seq::<char>::empty()].drop_last() =~= Seq::empty());
}

/// A word is the one word of its text.
pub proof fn word_of_itself(w: Seq<char>)
    requires
        is_word(w),
    ensures
        words_of(w) == seq![w],
{
    words_of_joined(seq![w]);
}

/// Lines without line ends in them are found again, all of them in their order, in the text
/// that ends each of them with a line feed.
pub proof fn lines_of_joined(lines: Seq<Seq<char>>)
    requires
        lines.len() > 0,
        forall|i: int|
            0 <= i < lines.len() ==> !(#[trigger] lines[i]).contains('\n') && !lines[i].contains(
                '\r',
            ),
    ensures
        lines_of(joined(lines, seq!['\n']) + seq!['\n']) == lines,
{
    let body = joined(lines, seq!['\n']);
    let empty = Seq::<char>::empty();
    split_undoes_join(lines, '\n');
    split_around(body, empty, '\n');
    assert(body + seq!['\n'] + empty =~= body + seq!['\n']);
    let parts = lines + seq![empty];
    assert(split_on(body + seq!['\n'], '\n') =~= parts);
    assert forall|i: int| 0 <= i < lines.len() implies without_cr(parts[i]) == lines[i] by {
        assert(parts[i] == lines[i]);
        if lines[i].len() > 0 {
            assert(lines[i].contains(lines[i].last()));
        }
    }
    assert(lines_of(body + seq!['\n']) =~= lines);
}

/// A part stands in the text that joins it with others.
pub proof fn part_of_joined(parts: Seq<Seq<char>>, sep: Seq<char>, i: int)
    requires
        0 <= i < parts.len(),
    ensures
        has_text(joined(parts, sep), parts[i]),
    decreases parts.len(),
{
    let s = joined(parts, sep);
    let part = parts[i];
    if parts.len() == 1 {
        assert(s.subrange(0, part.len() as int) =~= part);
        assert(occurs_at(s, part, 0));
    } else {
        let head = joined(parts.drop_last(), sep);
        if i == parts.len() - 1 {
            let at = (head.len() + sep.len()) as int;
            assert(s.subrange(at, at + part.len()) =~= part);
            assert(occurs_at(s, part, at));
        } else {
            part_of_joined(parts.drop_last(), sep, i);
            assert(parts.drop_last()[i] == part);
            let at = choose|at: int| occurs_at(head, part, at);
            assert(s.subrange(at, at + part.len()) =~= head.subrange(at, at + part.len()));
            assert(occurs_at(s, part, at));
        }
    }
}

/// What stands in a part of a text stands in the text.
pub proof fn text_within_text(s: Seq<char>, part: Seq<char>, inner: Seq<char>)
    requires
        has_text(s, part),
        has_text(part, inner),
    ensures
        has_text(s, inner),
{
    let a = choose|a: int| occurs_at(s, part, a);
    let b = choose|b: int| occurs_at(part, inner, b);
    assert(s.subrange(a, a + part.len()) == part);
    let found = s.subrange(a + b, a + b + inner.len());
    assert forall|k: int| 0 <= k < inner.len() implies #[trigger] found[k] == inner[k] by {
        assert(part.subrange(b, b + inner.len())[k] == part[b + k]);
        assert(s.subrange(a, a + part.len())[b + k] == s[a + (b + k)]);
    }
    assert(found =~= inner);
    assert(occurs_at(s, inner, a + b));
}

/// The first line of a text ends at the first line feed.
pub proof fn first_line(line: Seq<char>, rest: Seq<char>)
    requires
        !line.contains('\n'),
    ensures
        lines_of(line + seq!['\n'] + rest).len() >= 1,
        lines_of(line + seq!['\n'] + rest)[0] == without_cr(line),
{
    split_around(line, rest, '\n');
    split_of_one_part(line, '\n');
    split_on_len(rest, '\n');
}

/// The last line of a text that does not end with a line feed is what stands behind the last
/// one.
pub proof fn last_line(before: Seq<char>, line: Seq<char>)
    requires
        line.len() > 0,
        !line.contains('\n'),
    ensures
        lines_of(before + seq!['\n'] + line).len() >= 1,
        lines_of(before + seq!['\n'] + line).last() == line,
{
    split_around(before, line, '\n');
    split_of_one_part(line, '\n');
    split_on_len(before, '\n');
}

spec fn with_cr(lines: Seq<Seq<char>>) -> Seq<Seq<char>> {
    Seq::new(lines.len(), |i: int| lines[i].push('\r'))
}

proof fn joined_with_cr(lines: Seq<Seq<char>>)
    requires
        lines.len() > 0,
    ensures
        joined(lines, seq!['\r', '\n']) + seq!['\r'] == joined(with_cr(lines), seq!['\n']),
    decreases lines.len(),
{
    let marked = with_cr(lines);
    if lines.len() == 1 {
        assert(lines[0] + seq!['\r'] =~= marked[0]);
    } else {
        joined_with_cr(lines.drop_last());
        assert(marked.drop_last() =~= with_cr(lines.drop_last()));
        assert(joined(lines, seq!['\r', '\n']) + seq!['\r'] =~= joined(
            lines.drop_last(),
            seq!['\r', '\n'],
        ) + seq!['\r'] + seq!['\n'] + lines.last().push('\r'));
    }
}

/// Lines without line ends in them are found again, all of them in their order, in the text
/// that ends each of them with a carriage return and a line feed.
pub proof fn lines_of_joined_crlf(lines: Seq<Seq<char>>)
    requires
        lines.len() > 0,
        forall|i: int|
            0 <= i < lines.len() ==> !(#[trigger] lines[i]).contains('\n') && !lines[i].contains(
                '\r',
            ),
    ensures
        lines_of(joined(lines, seq!['\r', '\n']) + seq!['\r', '\n']) == lines,
{
    let marked = with_cr(lines);
    let body = joined(marked, seq!['\n']);
    let empty = Seq::<char>::empty();
    joined_with_cr(lines);
    let text = joined(lines, seq!['\r', '\n']) + seq!['\r', '\n'];
    assert(text =~= joined(lines, seq!['\r', '\n']) + seq!['\r'] + seq!['\n']);
    assert(text =~= body + seq!['\n'] + empty);
    assert forall|i: int| 0 <= i < marked.len() implies !(#[trigger] marked[i]).contains('\n') by {
        assert(!lines[i].contains('\n'));
        if marked[i].contains('\n') {
            let k = choose|k: int| 0 <= k < marked[i].len() && marked[i][k] == '\n';
            assert(lines[i][k] == '\n');
        }
    }
    split_undoes_join(marked, '\n');
    split_around(body, empty, '\n');
    assert(split_on(text, '\n') =~= marked + seq![empty]);
    assert forall|i: int| 0 <= i < lines.len() implies without_cr(#[trigger] marked[i])
        == lines[i] by {
        assert(marked[i].drop_last() =~= lines[i]);
    }
    assert(lines_of(text) =~= lines);
}

/// A text is cut at the first separator: what stands before it has none, and what stands
/// behind it may have more.
pub proof fn cut_at_first(before: Seq<char>, c: char, behind: Seq<char>)
    requires
        !before.contains(c),
    ensures
        cut_first(before + seq![c] + behind, c) == Some((before, behind)),
{
    let s = before + seq![c] + behind;
    let i = before.len() as int;
    assert forall|j: int| 0 <= j < i implies s[j] != c by {
        assert(before.contains(before[j]));
    }
    first_at_unique(s, c, i);
    assert(s.take(i) =~= before);
    assert(s.skip(i + 1) =~= behind);
}

/// The text neither begins nor ends with white space.
pub open spec fn is_tight(s: Seq<char>) -> bool {
    s.len() > 0 && !is_space(s[0]) && !is_space(s.last())
}

/// All the characters are white space.
pub open spec fn is_blank(s: Seq<char>) -> bool {
    forall|i: int| 0 <= i < s.len() ==> is_space(#[trigger] s[i])
}

/// Trimming takes away the white space around a text and nothing of the text.
pub proof fn trimming_takes_blanks(before: Seq<char>, s: Seq<char>, behind: Seq<char>)
    requires
        is_blank(before),
        is_tight(s),
        is_blank(behind),
    ensures
        trimmed(before + s + behind) == s,
{
    trimming_start(before, s + behind);
    assert((s + behind)[0] == s[0]);
    trimming_end(s, behind);
    assert(before + s + behind =~= before + (s + behind));
}

proof fn trimming_start(before: Seq<char>, rest: Seq<char>)
    requires
        is_blank(before),
        rest.len() > 0,
        !is_space(rest[0]),
    ensures
        trimmed_start(before + rest) == rest,
    decreases before.len(),
{
    if before.len() > 0 {
        let less = before.drop_first();
        assert forall|i: int| 0 <= i < less.len() implies is_space(#[trigger] less[i]) by {
            assert(less[i] == before[i + 1]);
        }
        trimming_start(less, rest);
        assert((before + rest).drop_first() =~= less + rest);
        assert((before + rest)[0] == before[0]);
    } else {
        assert(before + rest =~= rest);
    }
}

proof fn trimming_end(s: Seq<char>, behind: Seq<char>)
    requires
        s.len() > 0,
        !is_space(s.last()),
        is_blank(behind),
    ensures
        trimmed_end(s + behind) == s,
    decreases behind.len(),
{
    if behind.len() > 0 {
        let less = behind.drop_last();
        assert forall|i: int| 0 <= i < less.len() implies is_space(#[trigger] less[i]) by {
            assert(less[i] == behind[i]);
        }
        trimming_end(s, less);
        assert((s + behind).drop_last() =~= s + less);
        assert((s + behind).last() == behind.last());
        assert(behind.last() == behind[behind.len() - 1]);
    } else {
        assert(s + behind =~= s);
    }
}

/// Stripping takes away the characters at the end and nothing before them.
pub proof fn stripping_takes_the_end(s: Seq<char>, c: char, tail: Seq<char>)
    requires
        s.len() > 0 ==> s.last() != c,
        forall|i: int| 0 <= i < tail.len() ==> #[trigger] tail[i] == c,
    ensures
        stripped_end(s + tail, c) == s,
    decreases tail.len(),
{
    if tail.len() > 0 {
        let less = tail.drop_last();
        assert forall|i: int| 0 <= i < less.len() implies #[trigger] less[i] == c by {
            assert(less[i] == tail[i]);
        }
        stripping_takes_the_end(s, c, less);
        assert((s + tail).drop_last() =~= s + less);
        assert((s + tail).last() == tail[tail.len() - 1]);
    } else {
        assert(s + tail =~= s);
    }
}

// ---------------------------------------------------------------------------
// Words in a row

/// Somewhere in the words `a`, `b` and `c` stand one behind the other.
pub open spec fn in_a_row(
    words: Seq<Seq<char>>,
    a: Seq<char>,
    b: Seq<char>,
    c: Seq<char>,
) -> bool {
    exists|i: int|
        #![trigger words[i]]
        0 <= i && i + 2 < words.len() && words[i] == a && words[i + 1] == b && words[i + 2] == c
}

/// Three neighbours stand in a row.
pub proof fn three_in_a_row(words: Seq<Seq<char>>, i: int)
    requires
        0 <= i,
        i + 2 < words.len(),
    ensures
        in_a_row(words, words[i], words[i + 1], words[i + 2]),
{
}

/// Somewhere in the words `b` stands behind `a`.
pub open spec fn one_behind(words: Seq<Seq<char>>, a: Seq<char>, b: Seq<char>) -> bool {
    exists|i: int|
        #![trigger words[i]]
        0 <= i && i + 1 < words.len() && words[i] == a && words[i + 1] == b
}

/// Of two neighbours one stands behind the other.
pub proof fn two_in_a_row(words: Seq<Seq<char>>, i: int)
    requires
        0 <= i,
        i + 1 < words.len(),
    ensures
        one_behind(words, words[i], words[i + 1]),
{
}

/// Joining the parts of a text with the separator gives back the text.
pub proof fn join_undoes_split(s: Seq<char>, c: char)
    ensures
        joined(split_on(s, c), seq![c]) == s,
    decreases s.len(),
{
    if s.len() == 0 {
        assert(s =~= Seq::empty());
    } else {
        let t = s.drop_last();
        let init = split_on(t, c);
        let parts = split_on(s, c);
        join_undoes_split(t, c);
        split_on_len(t, c);
        if s.last() == c {
            assert(parts.drop_last() =~= init);
            assert(joined(parts, seq![c]) == joined(init, seq![c]) + seq![c] + parts.last());
            assert(joined(parts, seq![c]) =~= t.push(c));
            assert(t.push(c) =~= s);
        } else {
            let less = init.drop_last();
            assert(parts.drop_last() =~= less);
            if init.len() == 1 {
                assert(joined(init, seq![c]) == init[0]);
                assert(init[0] == t);
                assert(parts.len() == 1);
                assert(parts[0] =~= t.push(s.last()));
                assert(t.push(s.last()) =~= s);
            } else {
                assert(joined(init, seq![c]) == joined(less, seq![c]) + seq![c] + init.last());
                assert(parts.last() == init.last().push(s.last()));
                assert(joined(parts, seq![c]) == joined(less, seq![c]) + seq![c] + parts.last());
                let head = joined(less, seq![c]) + seq![c];
                assert(head + init.last().push(s.last()) =~= (head + init.last()).push(s.last()));
                assert(t.push(s.last()) =~= s);
            }
        }
    }
}

} // verus!
