//! Text as sequences of characters: splitting at a separator, joining again,
//! and the conversions between `str`, `String` and `Vec<char>`.

use vstd::prelude::*;

verus! {

/// `String::push` appends one character to the text.
pub assume_specification[ String::push ](s: &mut String, ch: char)
    ensures
        final(s)@ == old(s)@.push(ch),
;

/// The segments of `s` between the occurrences of `sep`, in their order.
///
/// Read from the left, a separator closes the segment before it and opens an
/// empty one, and any other character extends the last segment. There is
/// always at least one segment; a text that ends in a separator ends in an
/// empty one.
pub open spec fn split(s: Seq<char>, sep: char) -> Seq<Seq<char>>
    decreases s.len(),
{
    if s.len() == 0 {
        seq![Seq::<char>::empty()]
    } else {
        let before = split(s.drop_last(), sep);
        if s.last() == sep {
            before.push(Seq::<char>::empty())
        } else {
            before.drop_last().push(before.last().push(s.last()))
        }
    }
}

/// The segments written one after the other with `sep` between neighbours.
pub open spec fn join(parts: Seq<Seq<char>>, sep: char) -> Seq<char>
    decreases parts.len(),
{
    if parts.len() == 0 {
        Seq::<char>::empty()
    } else if parts.len() == 1 {
        parts[0]
    } else {
        join(parts.drop_last(), sep).push(sep) + parts.last()
    }
}

/// `s` without the run of `c` at its start.
pub open spec fn trim_start(s: Seq<char>, c: char) -> Seq<char>
    decreases s.len(),
{
    if s.len() > 0 && s.first() == c {
        trim_start(s.drop_first(), c)
    } else {
        s
    }
}

/// `s` without the run of `c` at its end.
pub open spec fn trim_end(s: Seq<char>, c: char) -> Seq<char>
    decreases s.len(),
{
    if s.len() > 0 && s.last() == c {
        trim_end(s.drop_last(), c)
    } else {
        s
    }
}

/// `s` without the runs of `c` at both of its ends.
pub open spec fn trim(s: Seq<char>, c: char) -> Seq<char> {
    trim_end(trim_start(s, c), c)
}

/// The texts that a list of character buffers holds.
pub open spec fn texts(parts: Seq<Vec<char>>) -> Seq<Seq<char>> {
    parts.map_values(|part: Vec<char>| part@)
}

/// The texts that a list of strings holds.
pub open spec fn string_views(strings: Seq<String>) -> Seq<Seq<char>> {
    strings.map_values(|string: String| string@)
}

/// A split has at least one segment.
pub proof fn lemma_split_len(s: Seq<char>, sep: char)
    ensures
        split(s, sep).len() >= 1,
    decreases s.len(),
{
    if s.len() > 0 {
        lemma_split_len(s.drop_last(), sep);
    }
}

/// No segment of a split holds the separator.
pub proof fn lemma_split_segments(s: Seq<char>, sep: char)
    ensures
        forall|i: int| 0 <= i < split(s, sep).len() ==> !(#[trigger] split(s, sep)[i]).contains(sep),
    decreases s.len(),
{
    if s.len() > 0 {
        lemma_split_segments(s.drop_last(), sep);
        lemma_split_len(s.drop_last(), sep);
        let before = split(s.drop_last(), sep);
        if s.last() != sep {
            let grown = before.last().push(s.last());
            assert forall|k: int| 0 <= k < grown.len() implies grown[k] != sep by {
                if k < before.last().len() {
                    assert(before.last().contains(grown[k]));
                }
            }
        }
    }
}

/// A separator in the middle of a text splits it into the splits of its two sides.
pub proof fn lemma_split_at_separator(a: Seq<char>, b: Seq<char>, sep: char)
    ensures
        split(a.push(sep) + b, sep) == split(a, sep) + split(b, sep),
    decreases b.len(),
{
    let whole = a.push(sep) + b;
    if b.len() == 0 {
        assert(whole == a.push(sep));
        assert(whole.drop_last() == a);
        assert(split(a, sep).push(Seq::<char>::empty()) == split(a, sep) + split(b, sep));
    } else {
        assert(whole.drop_last() == a.push(sep) + b.drop_last());
        lemma_split_at_separator(a, b.drop_last(), sep);
        lemma_split_len(b.drop_last(), sep);
        let left = split(a, sep);
        let right = split(b.drop_last(), sep);
        if b.last() == sep {
            assert((left + right).push(Seq::<char>::empty()) == left + right.push(
                Seq::<char>::empty(),
            ));
        } else {
            assert((left + right).drop_last().push((left + right).last().push(b.last())) == left
                + right.drop_last().push(right.last().push(b.last())));
        }
    }
}

/// Text without a separator, put behind a text, lengthens the last segment.
pub proof fn lemma_split_extend(a: Seq<char>, b: Seq<char>, sep: char)
    requires
        !b.contains(sep),
    ensures
        split(a + b, sep) == split(a, sep).drop_last().push(split(a, sep).last() + b),
    decreases b.len(),
{
    lemma_split_len(a, sep);
    if b.len() == 0 {
        assert(a + b == a);
        assert(split(a, sep).last() + b == split(a, sep).last());
        assert(split(a, sep).drop_last().push(split(a, sep).last()) == split(a, sep));
    } else {
        assert((a + b).drop_last() == a + b.drop_last());
        assert(b.last() != sep) by {
            assert(b.contains(b.last()));
        }
        assert(!b.drop_last().contains(sep)) by {
            if b.drop_last().contains(sep) {
                let k = choose|k: int| 0 <= k < b.drop_last().len() && b.drop_last()[k] == sep;
                assert(b[k] == sep);
            }
        }
        lemma_split_extend(a, b.drop_last(), sep);
        let init = split(a, sep).drop_last();
        let last = split(a, sep).last();
        assert((last + b.drop_last()).push(b.last()) == last + b);
        assert(init.push(last + b.drop_last()).drop_last() == init);
    }
}

/// Joining the segments of a split gives the text back.
pub proof fn lemma_join_split(s: Seq<char>, sep: char)
    ensures
        join(split(s, sep), sep) == s,
    decreases s.len(),
{
    if s.len() > 0 {
        let rest = s.drop_last();
        lemma_join_split(rest, sep);
        lemma_split_len(rest, sep);
        let before = split(rest, sep);
        if s.last() == sep {
            assert(before.push(Seq::<char>::empty()).drop_last() == before);
            assert(join(before, sep).push(sep) + Seq::<char>::empty() == s);
        } else {
            lemma_join_extend(before, s.last(), sep);
            assert(rest.push(s.last()) == s);
        }
    }
}

/// A character put behind the last segment shows at the end of the joined text.
pub proof fn lemma_join_extend(parts: Seq<Seq<char>>, c: char, sep: char)
    requires
        parts.len() >= 1,
    ensures
        join(parts.drop_last().push(parts.last().push(c)), sep) == join(parts, sep).push(c),
{
    let grown = parts.drop_last().push(parts.last().push(c));
    if parts.len() == 1 {
        assert(grown[0] == parts[0].push(c));
    } else {
        assert(grown.drop_last() == parts.drop_last());
        assert(join(parts.drop_last(), sep).push(sep) + parts.last().push(c) == (join(
            parts.drop_last(),
            sep,
        ).push(sep) + parts.last()).push(c));
    }
}

/// The last segment stands at the end of the joined text, behind a separator
/// where other segments come before it.
pub proof fn lemma_join_last(parts: Seq<Seq<char>>, last: Seq<char>, sep: char)
    ensures
        join(parts.push(last), sep) == join(parts.push(Seq::<char>::empty()), sep) + last,
{
    let nothing = Seq::<char>::empty();
    if parts.len() == 0 {
        assert(join(parts.push(last), sep) == last);
        assert(join(parts.push(nothing), sep) == nothing);
        assert(nothing + last == last);
    } else {
        assert(parts.push(last).drop_last() == parts);
        assert(parts.push(nothing).drop_last() == parts);
        assert(join(parts, sep).push(sep) + nothing == join(parts, sep).push(sep));
    }
}

/// What `trim_start` leaves when the run at the start is `k` long.
pub proof fn lemma_trim_start(s: Seq<char>, c: char, k: int)
    requires
        0 <= k <= s.len(),
        forall|j: int| 0 <= j < k ==> s[j] == c,
        k < s.len() ==> s[k] != c,
    ensures
        trim_start(s, c) == s.skip(k),
    decreases k,
{
    if k == 0 {
        assert(s.skip(0) == s);
    } else {
        let rest = s.drop_first();
        assert forall|j: int| 0 <= j < k - 1 implies rest[j] == c by {
            assert(rest[j] == s[j + 1]);
        }
        lemma_trim_start(rest, c, k - 1);
        assert(rest.skip(k - 1) == s.skip(k));
    }
}

/// What `trim_end` leaves when all from `k` on is the run at the end.
pub proof fn lemma_trim_end(s: Seq<char>, c: char, k: int)
    requires
        0 <= k <= s.len(),
        forall|j: int| k <= j < s.len() ==> s[j] == c,
        k > 0 ==> s[k - 1] != c,
    ensures
        trim_end(s, c) == s.take(k),
    decreases s.len() - k,
{
    if k == s.len() {
        assert(s.take(k) == s);
    } else {
        let rest = s.drop_last();
        lemma_trim_end(rest, c, k);
        assert(rest.take(k) == s.take(k));
    }
}

/// Segments that hold no separator are the split of their joined text.
pub proof fn lemma_split_join(parts: Seq<Seq<char>>, sep: char)
    requires
        parts.len() >= 1,
        forall|i: int| 0 <= i < parts.len() ==> !(#[trigger] parts[i]).contains(sep),
    ensures
        split(join(parts, sep), sep) == parts,
    decreases parts.len(),
{
    let nothing = Seq::<char>::empty();
    if parts.len() == 1 {
        lemma_split_extend(nothing, parts[0], sep);
        assert(nothing + parts[0] == parts[0]);
        assert(split(nothing, sep) == seq![nothing]);
        assert(seq![nothing].drop_last().push(nothing + parts[0]) == parts);
    } else {
        let init = parts.drop_last();
        lemma_split_join(init, sep);
        lemma_split_at_separator(join(init, sep), nothing, sep);
        assert(join(init, sep).push(sep) + nothing == join(init, sep).push(sep));
        assert(split(join(init, sep).push(sep), sep) == init.push(nothing)) by {
            assert(split(nothing, sep) == seq![nothing]);
            assert(init + seq![nothing] == init.push(nothing));
        }
        lemma_split_extend(join(init, sep).push(sep), parts.last(), sep);
        assert(init.push(nothing).drop_last() == init);
        assert(nothing + parts.last() == parts.last());
        assert(init.push(parts.last()) == parts);
    }
}

/// The characters of a text, in their order.
pub fn chars_of(s: &str) -> (v: Vec<char>)
    ensures
        v@ == s@,
{
    let mut v: Vec<char> = Vec::new();
    for c in it: s.chars()
        invariant
            v@ == it.seq().take(it.index() as int),
    {
        v.push(c);
    }
    v
}

/// The text that the given characters spell.
pub fn string_of(v: &Vec<char>) -> (s: String)
    ensures
        s@ == v@,
{
    let mut s = String::new();
    let mut i: usize = 0;
    while i < v.len()
        invariant
            i <= v.len(),
            s@ == v@.take(i as int),
        decreases v.len() - i,
    {
        s.push(v[i]);
        i += 1;
    }
    s
}

/// Whether a text holds the character.
pub fn holds_char(text: &str, wanted: char) -> (found: bool)
    ensures
        found == text@.contains(wanted),
{
    let chars = chars_of(text);
    let mut i: usize = 0;
    while i < chars.len()
        invariant
            i <= chars.len(),
            chars@ == text@,
            forall|k: int| 0 <= k < i ==> chars@[k] != wanted,
        decreases chars.len() - i,
    {
        if chars[i] == wanted {
            assert(text@[i as int] == wanted);
            return true;
        }
        i += 1;
    }
    false
}

} // verus!
