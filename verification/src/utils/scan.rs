//! Scanning text: where a character first occurs, the pieces between
//! separators, lines, and what is left when the white space at both ends is
//! taken away.

use vstd::prelude::*;

verus! {

/// Whether a character is white space, as `char::is_whitespace` tells.
pub uninterp spec fn is_space(c: char) -> bool;

/// The text in upper case, as `str::to_uppercase` gives it.
pub uninterp spec fn uppercased(text: Seq<char>) -> Seq<char>;

/// `char::is_whitespace` on `c`.
///
/// Trusted: the answer depends on `c` alone.
#[verifier::external_body]
pub(crate) fn is_whitespace(c: char) -> (space: bool)
    ensures
        space == is_space(c),
{
    c.is_whitespace()
}

/// `str::to_uppercase` on `text`.
///
/// Trusted: the result depends on `text` alone.
#[verifier::external_body]
pub(crate) fn to_uppercase(text: &str) -> (upper: String)
    ensures
        upper@ == uppercased(text@),
{
    text.to_uppercase()
}

/// The place of the first `c` in `text`, or the length of `text` where it
/// holds none.
pub open spec fn first_place(text: Seq<char>, c: char) -> int
    decreases text.len(),
{
    if text.len() == 0 || text[0] == c {
        0
    } else {
        1 + first_place(text.skip(1), c)
    }
}

/// The pieces of `text` between the separators `sep`: one more than there
/// are separators, some of them empty.
pub open spec fn pieces(text: Seq<char>, sep: char) -> Seq<Seq<char>>
    decreases text.len(),
{
    let place = first_place(text, sep);
    if 0 <= place < text.len() {
        seq![text.take(place)] + pieces(text.skip(place + 1), sep)
    } else {
        seq![text]
    }
}

/// A line without the carriage return that stood before its line feed.
pub open spec fn without_return(line: Seq<char>) -> Seq<char> {
    if line.len() > 0 && line.last() == '\r' {
        line.drop_last()
    } else {
        line
    }
}

/// The lines of `text`. A line ends at a line feed, or at a carriage return
/// with a line feed behind it; the last line needs no ending, and an empty
/// text has no line.
pub open spec fn lines(text: Seq<char>) -> Seq<Seq<char>>
    decreases text.len(),
{
    let place = first_place(text, '\n');
    if text.len() == 0 {
        Seq::empty()
    } else if 0 <= place < text.len() {
        seq![without_return(text.take(place))] + lines(text.skip(place + 1))
    } else {
        seq![text]
    }
}

/// The number of white-space characters at the start of `text`.
pub open spec fn leading_space(text: Seq<char>) -> int
    decreases text.len(),
{
    if text.len() == 0 || !is_space(text[0]) {
        0
    } else {
        1 + leading_space(text.skip(1))
    }
}

/// The number of white-space characters at the end of `text`.
pub open spec fn trailing_space(text: Seq<char>) -> int
    decreases text.len(),
{
    if text.len() == 0 || !is_space(text.last()) {
        0
    } else {
        1 + trailing_space(text.drop_last())
    }
}

/// `text` without the white space at its start and at its end.
pub open spec fn trimmed(text: Seq<char>) -> Seq<char> {
    let rest = text.skip(leading_space(text));
    rest.take(rest.len() - trailing_space(rest))
}

/// Whether `text` begins with `prefix`.
pub open spec fn begins_with(text: Seq<char>, prefix: Seq<char>) -> bool {
    prefix.len() <= text.len() && text.take(prefix.len() as int) == prefix
}

/// Whether `part` stands in `text` at the place `i`.
pub open spec fn stands_at(text: Seq<char>, part: Seq<char>, i: int) -> bool {
    0 <= i && i + part.len() <= text.len() && text.subrange(i, i + part.len()) == part
}

/// Whether `part` stands somewhere in `text`.
pub open spec fn holds(text: Seq<char>, part: Seq<char>) -> bool {
    exists|i: int| #[trigger] stands_at(text, part, i)
}

/// `first_place` is the first place that holds `c`: nothing before it
/// does, and it is the end of the text or holds `c`.
pub proof fn lemma_first_place(text: Seq<char>, c: char, place: int)
    requires
        0 <= place <= text.len(),
        forall|i: int| 0 <= i < place ==> text[i] != c,
        place == text.len() || text[place] == c,
    ensures
        first_place(text, c) == place,
    decreases text.len(),
{
    if text.len() == 0 || text[0] == c {
    } else {
        assert forall|i: int| 0 <= i < place - 1 implies text.skip(1)[i] != c by {
            assert(text.skip(1)[i] == text[i + 1]);
        }
        lemma_first_place(text.skip(1), c, place - 1);
    }
}

/// The characters of a text.
pub fn chars_of(text: &str) -> (chars: Vec<char>)
    ensures
        chars@ == text@,
{
    let mut chars: Vec<char> = Vec::new();
    for c in it: text.chars()
        invariant
            it.seq() == text@,
            chars@ == text@.take(it.index() as int),
    {
        chars.push(c);
        assert(chars@ =~= text@.take(it.index() as int + 1));
    }
    assert(text@.take(text@.len() as int) =~= text@);
    chars
}

/// The first place from `from` on and before `to` that holds `c`, or `to`
/// where none does.
pub fn find(chars: &Vec<char>, from: usize, to: usize, c: char) -> (place: usize)
    requires
        from <= to <= chars@.len(),
    ensures
        from <= place <= to,
        place - from == first_place(chars@.subrange(from as int, to as int), c),
{
    let mut place = from;
    while place < to && chars[place] != c
        invariant
            from <= place <= to <= chars@.len(),
            forall|i: int| from <= i < place ==> chars@[i] != c,
        decreases to - place,
    {
        place = place + 1;
    }
    proof {
        lemma_first_place(chars@.subrange(from as int, to as int), c, place - from);
    }
    place
}

/// The range that is left of the range from `from` to `to` when the white
/// space at both ends is taken away.
pub fn trim(chars: &Vec<char>, from: usize, to: usize) -> (range: (usize, usize))
    requires
        from <= to <= chars@.len(),
    ensures
        from <= range.0 <= range.1 <= to,
        chars@.subrange(range.0 as int, range.1 as int) == trimmed(
            chars@.subrange(from as int, to as int),
        ),
{
    let ghost text = chars@.subrange(from as int, to as int);
    let mut start = from;
    while start < to && is_whitespace(chars[start])
        invariant
            from <= start <= to <= chars@.len(),
            text == chars@.subrange(from as int, to as int),
            leading_space(text) == (start - from) + leading_space(
                chars@.subrange(start as int, to as int),
            ),
        decreases to - start,
    {
        proof {
            let rest = chars@.subrange(start as int, to as int);
            assert(rest[0] == chars@[start as int]);
            assert(rest.skip(1) =~= chars@.subrange(start as int + 1, to as int));
        }
        start = start + 1;
    }
    let ghost rest = chars@.subrange(start as int, to as int);
    proof {
        if start < to {
            assert(rest[0] == chars@[start as int]);
        }
        assert(leading_space(rest) == 0);
        assert(text.skip(start - from) =~= rest);
    }
    let mut end = to;
    while end > start && is_whitespace(chars[end - 1])
        invariant
            start <= end <= to <= chars@.len(),
            rest == chars@.subrange(start as int, to as int),
            trailing_space(rest) == (to - end) + trailing_space(
                chars@.subrange(start as int, end as int),
            ),
        decreases end - start,
    {
        proof {
            let head = chars@.subrange(start as int, end as int);
            assert(head.last() == chars@[end as int - 1]);
            assert(head.drop_last() =~= chars@.subrange(start as int, end as int - 1));
        }
        end = end - 1;
    }
    proof {
        let head = chars@.subrange(start as int, end as int);
        if end > start {
            assert(head.last() == chars@[end as int - 1]);
        }
        assert(trailing_space(head) == 0);
        assert(rest.take(rest.len() - (to - end)) =~= head);
    }
    (start, end)
}

/// Whether the characters from `from` on are those of `prefix`.
pub fn starts_with_at(chars: &Vec<char>, from: usize, to: usize, prefix: &Vec<char>) -> (found: bool)
    requires
        from <= to <= chars@.len(),
    ensures
        found == begins_with(chars@.subrange(from as int, to as int), prefix@),
{
    if prefix.len() > to - from {
        return false;
    }
    let ghost text = chars@.subrange(from as int, to as int);
    let mut i: usize = 0;
    while i < prefix.len()
        invariant
            i <= prefix.len() <= to - from,
            from <= to <= chars@.len(),
            text == chars@.subrange(from as int, to as int),
            forall|j: int| 0 <= j < i ==> text[j] == prefix@[j],
        decreases prefix.len() - i,
    {
        if chars[from + i] != prefix[i] {
            proof {
                assert(text.take(prefix@.len() as int)[i as int] == text[i as int]);
            }
            return false;
        }
        i = i + 1;
    }
    assert(text.take(prefix@.len() as int) =~= prefix@);
    true
}

/// Whether `part` stands somewhere in `chars`.
pub fn contains_text(chars: &Vec<char>, part: &Vec<char>) -> (found: bool)
    ensures
        found == holds(chars@, part@),
{
    if part.len() > chars.len() {
        return false;
    }
    let last = chars.len() - part.len();
    let mut i: usize = 0;
    loop
        invariant
            last == chars@.len() - part@.len(),
            i <= last,
            forall|j: int| 0 <= j < i ==> !#[trigger] stands_at(chars@, part@, j),
        decreases last - i,
    {
        proof {
            let tail = chars@.subrange(i as int, chars@.len() as int);
            assert(tail.take(part@.len() as int) =~= chars@.subrange(i as int, i + part@.len()));
        }
        if starts_with_at(chars, i, chars.len(), part) {
            assert(stands_at(chars@, part@, i as int));
            return true;
        }
        if i == last {
            return false;
        }
        i = i + 1;
    }
}

} // verus!
