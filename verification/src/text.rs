//! Text as sequences of characters: splitting at a separator, joining, and
//! searching for a word.

use vstd::prelude::*;

verus! {

/// The pieces of `s` between the occurrences of `sep`. There is one piece
/// more than there are separators, so the empty text has one empty piece.
pub open spec fn split(s: Seq<char>, sep: char) -> Seq<Seq<char>>
    decreases s.len(),
{
    if s.len() == 0 {
        seq![Seq::empty()]
    } else {
        let before = split(s.drop_last(), sep);
        if s.last() == sep {
            before.push(Seq::empty())
        } else {
            before.drop_last().push(before.last().push(s.last()))
        }
    }
}

/// The pieces, with `sep` between each two neighbours.
pub open spec fn join(pieces: Seq<Seq<char>>, sep: char) -> Seq<char>
    decreases pieces.len(),
{
    if pieces.len() == 0 {
        Seq::empty()
    } else if pieces.len() == 1 {
        pieces[0]
    } else {
        join(pieces.drop_last(), sep).push(sep) + pieces.last()
    }
}

/// No piece holds the separator.
pub open spec fn free_of(pieces: Seq<Seq<char>>, sep: char) -> bool {
    forall|k: int| 0 <= k < pieces.len() ==> !(#[trigger] pieces[k]).contains(sep)
}

/// The texts of a list of string slices.
pub open spec fn texts(pieces: Seq<&str>) -> Seq<Seq<char>> {
    pieces.map_values(|piece: &str| piece@)
}

/// `needle` stands in `hay` at position `at`.
pub open spec fn occurs_at(hay: Seq<char>, needle: Seq<char>, at: int) -> bool {
    0 <= at && at + needle.len() <= hay.len() && hay.subrange(at, at + needle.len()) == needle
}

/// `needle` stands somewhere in `hay`.
pub open spec fn occurs_in(hay: Seq<char>, needle: Seq<char>) -> bool {
    exists|at: int| occurs_at(hay, needle, at)
}

/// Stands for what `str::trim` returns for a text. std describes it as the
/// text without the white space at its two ends; here it is only a name.
pub uninterp spec fn trimmed(s: Seq<char>) -> Seq<char>;

/// Stands for what `str::to_lowercase` returns for a text. Here it is only
/// a name.
pub uninterp spec fn lowercased(s: Seq<char>) -> Seq<char>;

/// `str::trim`, of which only this is claimed: what it returns depends on
/// the characters of the text alone.
pub assume_specification[ str::trim ](s: &str) -> (t: &str)
    ensures
        t@ == trimmed(s@),
;

/// `str::to_lowercase`, of which only this is claimed: what it returns
/// depends on the characters of the text alone.
pub assume_specification[ str::to_lowercase ](s: &str) -> (t: String)
    ensures
        t@ == lowercased(s@),
;

/// A text as it is compared with names: trimmed, then in lower case.
pub open spec fn normalized(s: Seq<char>) -> Seq<char> {
    lowercased(trimmed(s))
}

/// Splitting never gives an empty list.
pub proof fn lemma_split_len(s: Seq<char>, sep: char)
    ensures
        split(s, sep).len() >= 1,
    decreases s.len(),
{
    if s.len() > 0 {
        lemma_split_len(s.drop_last(), sep);
    }
}

/// What one more character does to the pieces: a separator opens a new,
/// empty piece; any other character is added to the last piece.
pub proof fn lemma_split_push(s: Seq<char>, c: char, sep: char)
    ensures
        split(s, sep).len() >= 1,
        c == sep ==> split(s.push(c), sep) == split(s, sep).push(Seq::empty()),
        c != sep ==> split(s.push(c), sep) == split(s, sep).drop_last().push(
            split(s, sep).last().push(c),
        ),
{
    lemma_split_len(s, sep);
    assert(s.push(c).drop_last() == s);
}

/// Splitting loses nothing: the pieces joined again are the text, and no
/// piece holds the separator.
pub proof fn lemma_split_is_sound(s: Seq<char>, sep: char)
    ensures
        join(split(s, sep), sep) == s,
        free_of(split(s, sep), sep),
    decreases s.len(),
{
    if s.len() > 0 {
        let shorter = s.drop_last();
        let before = split(shorter, sep);
        lemma_split_is_sound(shorter, sep);
        lemma_split_len(shorter, sep);
        assert(s == shorter.push(s.last()));
        if s.last() == sep {
            let after = before.push(Seq::empty());
            assert(after.drop_last() == before);
            assert(join(after, sep) == join(before, sep).push(sep) + Seq::<char>::empty());
            assert(join(after, sep) == s);
        } else {
            let after = before.drop_last().push(before.last().push(s.last()));
            assert(after.drop_last() == before.drop_last());
            if before.len() == 1 {
                assert(join(before, sep) == before[0]);
                assert(join(after, sep) == after[0]);
                assert(join(after, sep) == s);
            } else {
                assert(join(before, sep) == join(before.drop_last(), sep).push(sep)
                    + before.last());
                assert(join(after, sep) == join(before.drop_last(), sep).push(sep) + after.last());
                assert(join(after, sep) == s);
            }
            assert forall|k: int| 0 <= k < after.len() implies !(#[trigger] after[k]).contains(
                sep,
            ) by {
                if k < after.len() - 1 {
                    assert(after[k] == before[k]);
                } else {
                    assert(!before.last().contains(sep));
                    assert(!before[before.len() - 1].push(s.last()).contains(sep));
                }
            }
        }
    }
}

/// Appending a text without separators lengthens the last piece.
pub proof fn lemma_split_append_free(s: Seq<char>, tail: Seq<char>, sep: char)
    requires
        !tail.contains(sep),
    ensures
        split(s, sep).len() >= 1,
        split(s + tail, sep) == split(s, sep).drop_last().push(split(s, sep).last() + tail),
    decreases tail.len(),
{
    lemma_split_len(s, sep);
    let pieces = split(s, sep);
    if tail.len() == 0 {
        assert(s + tail == s);
        assert(pieces.last() + tail == pieces.last());
        assert(pieces.drop_last().push(pieces.last()) == pieces);
    } else {
        let shorter = tail.drop_last();
        let c = tail.last();
        assert(tail[tail.len() - 1] == c);
        assert(c != sep);
        assert forall|k: int| 0 <= k < shorter.len() implies shorter[k] != sep by {
            assert(tail[k] == shorter[k]);
        }
        lemma_split_append_free(s, shorter, sep);
        assert(s + tail == (s + shorter).push(c));
        lemma_split_push(s + shorter, c, sep);
        let mid = pieces.drop_last().push(pieces.last() + shorter);
        assert(mid.drop_last() == pieces.drop_last());
        assert((pieces.last() + shorter).push(c) == pieces.last() + tail);
    }
}

/// Joining is undone by splitting: a list of at least one piece, none of
/// which holds the separator, is what its joined text splits into.
pub proof fn lemma_split_of_join(pieces: Seq<Seq<char>>, sep: char)
    requires
        pieces.len() >= 1,
        free_of(pieces, sep),
    ensures
        split(join(pieces, sep), sep) == pieces,
    decreases pieces.len(),
{
    if pieces.len() == 1 {
        let empty = Seq::<char>::empty();
        assert(!pieces[0].contains(sep));
        lemma_split_append_free(empty, pieces[0], sep);
        assert(empty + pieces[0] == pieces[0]);
        assert(split(empty, sep) == seq![empty]);
        assert(seq![empty].drop_last().push(empty + pieces[0]) == pieces);
    } else {
        let front = pieces.drop_last();
        assert forall|k: int| 0 <= k < front.len() implies !(#[trigger] front[k]).contains(sep) by {
            assert(front[k] == pieces[k]);
        }
        lemma_split_of_join(front, sep);
        let joined = join(front, sep);
        lemma_split_push(joined, sep, sep);
        assert(!pieces[pieces.len() - 1].contains(sep));
        lemma_split_append_free(joined.push(sep), pieces.last(), sep);
        let opened = front.push(Seq::empty());
        assert(opened.drop_last() == front);
        assert(opened.last() + pieces.last() == pieces.last());
        assert(front.push(pieces.last()) == pieces);
    }
}

/// The characters of `s`, in order.
pub fn chars_of(s: &str) -> (chars: Vec<char>)
    ensures
        chars@ == s@,
{
    let mut chars: Vec<char> = Vec::new();
    for c in it: s.chars()
        invariant
            it.seq() == s@,
            chars@ == s@.take(it.index() as int),
    {
        chars.push(c);
    }
    chars
}

/// Where character `from` of a text stands, or the end of the text where
/// it is shorter.
pub open spec fn within(s: Seq<char>, from: int) -> int {
    if from <= s.len() {
        from
    } else {
        s.len() as int
    }
}

/// Splits the part of `s` that starts at character `from` at each `sep`. A
/// text that ends before `from` has nothing there, which is one empty piece.
pub fn split_from<'a>(s: &'a str, from: usize, sep: char) -> (pieces: Vec<&'a str>)
    ensures
        texts(pieces@) == split(s@.skip(within(s@, from as int)), sep),
{
    let n = s.unicode_len();
    let from = if from <= n {
        from
    } else {
        n
    };
    let mut pieces: Vec<&'a str> = Vec::new();
    let mut start: usize = from;
    let mut at: usize = 0;
    for c in it: s.chars()
        invariant
            it.seq() == s@,
            at == it.index(),
            n == s@.len(),
            from <= n,
            from <= start,
            at <= from ==> start == from && pieces@.len() == 0,
            at > from ==> start <= at,
            at > from ==> texts(pieces@).push(s@.subrange(start as int, at as int)) == split(
                s@.subrange(from as int, at as int),
                sep,
            ),
    {
        proof {
            if at >= from {
                if at == from {
                    assert(s@.subrange(from as int, at as int) == Seq::<char>::empty());
                    assert(texts(pieces@).push(s@.subrange(start as int, at as int)) == seq![
                        Seq::<char>::empty(),
                    ]);
                }
                lemma_split_push(s@.subrange(from as int, at as int), c, sep);
                assert(s@.subrange(from as int, at + 1) == s@.subrange(from as int, at as int).push(
                    c,
                ));
                assert(s@.subrange(start as int, at + 1) == s@.subrange(
                    start as int,
                    at as int,
                ).push(c));
                assert(texts(pieces@).push(s@.subrange(start as int, at as int)).drop_last()
                    == texts(pieces@));
            }
        }
        if at >= from && c == sep {
            let piece = s.substring_char(start, at);
            proof {
                assert(texts(pieces@.push(piece)) == texts(pieces@).push(piece@));
                assert(s@.subrange(at + 1, at + 1) == Seq::<char>::empty());
            }
            pieces.push(piece);
            start = at + 1;
        }
        at += 1;
    }
    let last = s.substring_char(start, n);
    proof {
        if n == from {
            assert(s@.subrange(from as int, n as int) == Seq::<char>::empty());
            assert(texts(pieces@).push(s@.subrange(start as int, n as int)) == seq![
                Seq::<char>::empty(),
            ]);
        }
        assert(texts(pieces@.push(last)) == texts(pieces@).push(last@));
        assert(s@.skip(from as int) == s@.subrange(from as int, n as int));
    }
    pieces.push(last);
    pieces
}

/// Trims `s` and puts it in lower case.
pub fn normalize(s: &str) -> (t: String)
    ensures
        t@ == normalized(s@),
{
    s.trim().to_lowercase()
}

/// Whether `s` begins with `prefix`.
pub fn starts_with(s: &str, prefix: &str) -> (found: bool)
    ensures
        found == prefix@.is_prefix_of(s@),
{
    let word = chars_of(prefix);
    if word.len() > s.unicode_len() {
        return false;
    }
    let mut at: usize = 0;
    while at < word.len()
        invariant
            word@ == prefix@,
            word@.len() <= s@.len(),
            at <= word@.len(),
            forall|k: int| 0 <= k < at ==> s@[k] == word@[k],
        decreases word@.len() - at,
    {
        if s.get_char(at) != word[at] {
            assert(s@.subrange(0, word@.len() as int)[at as int] != word@[at as int]);
            return false;
        }
        at += 1;
    }
    assert(word@ == s@.subrange(0, word@.len() as int));
    true
}

/// Whether `a` and `b` are the same text.
pub fn same_text(a: &str, b: &str) -> (same: bool)
    ensures
        same == (a@ == b@),
{
    if a.unicode_len() != b.unicode_len() {
        return false;
    }
    let same = starts_with(a, b);
    proof {
        assert(a@.subrange(0, a@.len() as int) == a@);
    }
    same
}

/// Whether `needle` stands somewhere in `hay`.
pub fn occurs(hay: &Vec<char>, needle: &str) -> (found: bool)
    ensures
        found == occurs_in(hay@, needle@),
{
    let word = chars_of(needle);
    if word.len() == 0 {
        assert(hay@.subrange(0, 0) == word@);
        assert(occurs_at(hay@, needle@, 0));
        return true;
    }
    if word.len() > hay.len() {
        assert forall|at: int| !occurs_at(hay@, needle@, at) by {}
        return false;
    }
    let last = hay.len() - word.len();
    let mut at: usize = 0;
    while at <= last
        invariant
            word@ == needle@,
            0 < word@.len() <= hay@.len() <= usize::MAX,
            last == hay@.len() - word@.len(),
            at <= last + 1,
            forall|k: int| 0 <= k < at ==> !occurs_at(hay@, needle@, k),
        decreases last + 1 - at,
    {
        let mut same: usize = 0;
        while same < word.len() && hay[at + same] == word[same]
            invariant
                word@ == needle@,
                at <= last,
                0 < word@.len() <= hay@.len() <= usize::MAX,
                last == hay@.len() - word@.len(),
                same <= word@.len(),
                forall|k: int| 0 <= k < same ==> hay@[at + k] == word@[k],
            decreases word@.len() - same,
        {
            same += 1;
        }
        if same == word.len() {
            assert(hay@.subrange(at as int, at + word@.len()) == word@);
            assert(occurs_at(hay@, needle@, at as int));
            return true;
        }
        proof {
            let part = hay@.subrange(at as int, at + word@.len());
            assert(part[same as int] == hay@[at + same]);
            assert(!occurs_at(hay@, needle@, at as int));
        }
        at += 1;
    }
    assert forall|k: int| !occurs_at(hay@, needle@, k) by {}
    false
}

} // verus!
