//! Text as sequences of characters: splitting, trimming and searching.
//!
//! Contracts speak of a string by its view, a `Seq<char>`. The executable
//! functions read a string once into a `Vec<char>` and work on indices.

use vstd::prelude::*;
use vstd::std_specs::iter::IteratorSpec;
use vstd::string::StringExecFns;

verus! {

/// `String::push` appends one character to the end of the string.
#[verifier::external_body]
pub(crate) fn push_char(text: &mut String, c: char)
    ensures
        final(text)@ == old(text)@.push(c),
{
    text.push(c)
}

/// The pieces into which the characters of `seps` cut `text`. A separator ends
/// the piece before it and starts a new one, so there is always one piece more
/// than there are separators in `text`, and pieces may be empty.
pub open spec fn pieces(text: Seq<char>, seps: Set<char>) -> Seq<Seq<char>>
    decreases text.len(),
{
    if text.len() == 0 {
        seq![Seq::<char>::empty()]
    } else {
        let before = pieces(text.drop_last(), seps);
        if seps.contains(text.last()) {
            before.push(Seq::<char>::empty())
        } else {
            before.drop_last().push(before.last().push(text.last()))
        }
    }
}

/// The pieces of `text` between occurrences of `sep`.
pub open spec fn split_on(text: Seq<char>, sep: char) -> Seq<Seq<char>> {
    pieces(text, set![sep])
}

/// Whether `c` is white space: the characters with the Unicode property
/// `White_Space`.
pub open spec fn is_space(c: char) -> bool {
    let n = c as u32;
    ||| 0x09 <= n <= 0x0D
    ||| n == 0x20
    ||| n == 0x85
    ||| n == 0xA0
    ||| n == 0x1680
    ||| 0x2000 <= n <= 0x200A
    ||| n == 0x2028
    ||| n == 0x2029
    ||| n == 0x202F
    ||| n == 0x205F
    ||| n == 0x3000
}

/// The set of white-space characters.
pub open spec fn spaces() -> Set<char> {
    Set::new(|c: char| is_space(c))
}

/// Whether a piece of text has at least one character.
pub open spec fn is_filled(piece: Seq<char>) -> bool {
    piece.len() > 0
}

/// The fields of a line: its maximal runs of characters that are not white
/// space, in order.
pub open spec fn fields_of(line: Seq<char>) -> Seq<Seq<char>> {
    pieces(line, spaces()).filter(|piece: Seq<char>| is_filled(piece))
}

/// `line` without one carriage return at its end, if it has one there.
pub open spec fn without_return(line: Seq<char>) -> Seq<char> {
    if line.len() > 0 && line.last() == '\r' {
        line.drop_last()
    } else {
        line
    }
}

/// The lines of `text`. A line ends at a line feed; the line feed, and a
/// carriage return directly before it, are not part of the line. What follows
/// the last line feed is a line of its own unless it is empty.
pub open spec fn lines_of(text: Seq<char>) -> Seq<Seq<char>> {
    let parts = split_on(text, '\n');
    let ended = parts.drop_last().map_values(|part: Seq<char>| without_return(part));
    if parts.last().len() == 0 {
        ended
    } else {
        ended.push(parts.last())
    }
}

/// Whether `pattern` occurs in `text` as a contiguous run of characters.
pub open spec fn occurs_in(pattern: Seq<char>, text: Seq<char>) -> bool {
    exists|at: int| occurs_at(pattern, text, at)
}

/// Whether `pattern` occurs in `text` starting at index `at`.
pub open spec fn occurs_at(pattern: Seq<char>, text: Seq<char>, at: int) -> bool {
    0 <= at && at + pattern.len() <= text.len() && text.subrange(at, at + pattern.len())
        == pattern
}

/// `text` without the white space at its start.
pub open spec fn trimmed_start(text: Seq<char>) -> Seq<char>
    decreases text.len(),
{
    if text.len() > 0 && is_space(text.first()) {
        trimmed_start(text.drop_first())
    } else {
        text
    }
}

/// `text` without the white space at its end.
pub open spec fn trimmed_end(text: Seq<char>) -> Seq<char>
    decreases text.len(),
{
    if text.len() > 0 && is_space(text.last()) {
        trimmed_end(text.drop_last())
    } else {
        text
    }
}

/// `text` without the white space at its start and at its end.
pub open spec fn trimmed(text: Seq<char>) -> Seq<char> {
    trimmed_end(trimmed_start(text))
}

/// Filtering a sequence with one more element at its end.
pub proof fn lemma_filter_push<A>(s: Seq<A>, last: A, keep: spec_fn(A) -> bool)
    ensures
        s.push(last).filter(keep) == if keep(last) {
            s.filter(keep).push(last)
        } else {
            s.filter(keep)
        },
{
    reveal(Seq::filter);
    assert(s.push(last).drop_last() =~= s);
}

/// The views of a vector of strings with one more string at its end.
pub proof fn lemma_deep_view_push(before: Seq<String>, after: Seq<String>, last: String)
    requires
        after == before.push(last),
    ensures
        Seq::new(after.len(), |i: int| after[i].deep_view()) == Seq::new(
            before.len(),
            |i: int| before[i].deep_view(),
        ).push(last@),
{
    assert(Seq::new(after.len(), |i: int| after[i].deep_view()) =~= Seq::new(
        before.len(),
        |i: int| before[i].deep_view(),
    ).push(last@));
}

/// Whether `c` is white space.
pub fn is_whitespace(c: char) -> (space: bool)
    ensures
        space == is_space(c),
{
    let n: u32 = c as u32;
    (0x09 <= n && n <= 0x0D) || n == 0x20 || n == 0x85 || n == 0xA0 || n == 0x1680 || (0x2000 <= n
        && n <= 0x200A) || n == 0x2028 || n == 0x2029 || n == 0x202F || n == 0x205F || n == 0x3000
}

/// The characters of `text`, in order.
pub fn chars_of(text: &str) -> (chars: Vec<char>)
    ensures
        chars@ == text@,
{
    let mut chars: Vec<char> = Vec::new();
    for c in it: text.chars()
        invariant
            it.seq() == text@,
            chars@ == text@.take(it.index() as int),
    {
        chars.push(c);
    }
    chars
}

/// The string made of the characters of `chars` from index `from` up to, not
/// including, index `to`.
pub fn text_of(chars: &Vec<char>, from: usize, to: usize) -> (text: String)
    requires
        from <= to <= chars.len(),
    ensures
        text@ == chars@.subrange(from as int, to as int),
{
    let mut text = String::new();
    let mut i: usize = from;
    while i < to
        invariant
            from <= i <= to <= chars.len(),
            text@ == chars@.subrange(from as int, i as int),
        decreases to - i,
    {
        push_char(&mut text, chars[i]);
        i += 1;
        assert(chars@.subrange(from as int, i as int) =~= chars@.subrange(
            from as int,
            i as int - 1,
        ).push(chars@[i as int - 1]));
    }
    text
}

/// Whether two strings hold the same characters.
pub fn same_text(a: &str, b: &str) -> (same: bool)
    ensures
        same == (a@ == b@),
{
    let mut left = a.chars();
    let mut right = b.chars();
    let ghost mut done: int = 0;
    loop
        invariant
            0 <= done <= a@.len(),
            done <= b@.len(),
            left.remaining() == a@.skip(done),
            right.remaining() == b@.skip(done),
            a@.take(done) == b@.take(done),
        decreases a@.len() - done,
    {
        let x = left.next();
        let y = right.next();
        match (x, y) {
            (Some(c), Some(d)) => {
                if c != d {
                    assert(a@[done] != b@[done]);
                    return false;
                }
                proof {
                    assert(a@.take(done + 1) =~= a@.take(done).push(a@[done]));
                    assert(b@.take(done + 1) =~= b@.take(done).push(b@[done]));
                    assert(a@.skip(done).drop_first() =~= a@.skip(done + 1));
                    assert(b@.skip(done).drop_first() =~= b@.skip(done + 1));
                    done = done + 1;
                }
            },
            (None, None) => {
                assert(a@ =~= a@.take(done));
                assert(b@ =~= b@.take(done));
                return true;
            },
            _ => {
                assert(a@.len() != b@.len());
                return false;
            },
        }
    }
}

/// Whether `text` has no characters.
pub fn is_empty(text: &String) -> (empty: bool)
    ensures
        empty == (text@.len() == 0),
{
    text.as_str().is_empty()
}

/// `first` followed by `second`.
pub fn joined(first: &str, second: &str) -> (both: String)
    ensures
        both@ == first@ + second@,
{
    let mut both = first.to_owned();
    both.append(second);
    both
}

/// Cuts `text` at every occurrence of `sep`.
pub fn split(text: &str, sep: char) -> (parts: Vec<String>)
    ensures
        parts.deep_view() == split_on(text@, sep),
{
    let chars = chars_of(text);
    let mut parts: Vec<String> = Vec::new();
    let mut current = String::new();
    let mut i: usize = 0;
    while i < chars.len()
        invariant
            i <= chars.len(),
            parts.deep_view().push(current@) == split_on(chars@.take(i as int), sep),
        decreases chars.len() - i,
    {
        let c = chars[i];
        proof {
            assert(chars@.take(i as int + 1).drop_last() =~= chars@.take(i as int));
        }
        if c == sep {
            proof {
                lemma_deep_view_push(parts@, parts@.push(current), current);
            }
            parts.push(current);
            current = String::new();
        } else {
            push_char(&mut current, c);
            assert(parts.deep_view().push(current@).drop_last() =~= parts.deep_view());
            assert(split_on(chars@.take(i as int), sep).drop_last() =~= parts.deep_view());
        }
        i += 1;
    }
    proof {
        assert(chars@.take(chars.len() as int) =~= chars@);
        lemma_deep_view_push(parts@, parts@.push(current), current);
    }
    parts.push(current);
    parts
}

/// The fields of `line`: its runs of characters between white space.
pub fn fields(line: &str) -> (found: Vec<String>)
    ensures
        found.deep_view() == fields_of(line@),
{
    let chars = chars_of(line);
    let ghost keep = |piece: Seq<char>| is_filled(piece);
    let mut found: Vec<String> = Vec::new();
    let mut current = String::new();
    let mut filled = false;
    let mut i: usize = 0;
    while i < chars.len()
        invariant
            i <= chars.len(),
            keep == |piece: Seq<char>| is_filled(piece),
            filled == (current@.len() > 0),
            current@ == pieces(chars@.take(i as int), spaces()).last(),
            found.deep_view() == pieces(chars@.take(i as int), spaces()).drop_last().filter(keep),
        decreases chars.len() - i,
    {
        let c = chars[i];
        let ghost before = pieces(chars@.take(i as int), spaces());
        proof {
            assert(chars@.take(i as int + 1).drop_last() =~= chars@.take(i as int));
            lemma_pieces_len(chars@.take(i as int), spaces());
            assert(before =~= before.drop_last().push(before.last()));
        }
        if is_whitespace(c) {
            proof {
                assert(before.push(Seq::<char>::empty()).drop_last() =~= before);
                lemma_filter_push(before.drop_last(), before.last(), keep);
            }
            if filled {
                proof {
                    lemma_deep_view_push(found@, found@.push(current), current);
                }
                found.push(current);
                current = String::new();
                filled = false;
            }
        } else {
            push_char(&mut current, c);
            filled = true;
            assert(before.drop_last().push(before.last().push(c)).drop_last()
                =~= before.drop_last());
        }
        i += 1;
    }
    proof {
        let all = pieces(chars@, spaces());
        assert(chars@.take(chars.len() as int) =~= chars@);
        lemma_pieces_len(chars@, spaces());
        assert(all =~= all.drop_last().push(all.last()));
        lemma_filter_push(all.drop_last(), all.last(), keep);
    }
    if filled {
        proof {
            lemma_deep_view_push(found@, found@.push(current), current);
        }
        found.push(current);
    }
    found
}

/// The lines of `text`.
pub fn lines(text: &str) -> (found: Vec<String>)
    ensures
        found.deep_view() == lines_of(text@),
{
    let parts = split(text, '\n');
    let ghost strip = |part: Seq<char>| without_return(part);
    proof {
        lemma_pieces_len(text@, set!['\n']);
    }
    let mut found: Vec<String> = Vec::new();
    let mut i: usize = 0;
    while i + 1 < parts.len()
        invariant
            parts.len() > 0,
            i + 1 <= parts.len(),
            strip == |part: Seq<char>| without_return(part),
            found.deep_view() == parts.deep_view().drop_last().take(i as int).map_values(strip),
        decreases parts.len() - i,
    {
        let chars = chars_of(parts[i].as_str());
        let n = chars.len();
        let line = if n > 0 && chars[n - 1] == '\r' {
            assert(chars@.subrange(0, n as int - 1) =~= chars@.drop_last());
            text_of(&chars, 0, n - 1)
        } else {
            assert(chars@.subrange(0, n as int) =~= chars@);
            text_of(&chars, 0, n)
        };
        proof {
            let ended = parts.deep_view().drop_last();
            lemma_deep_view_push(found@, found@.push(line), line);
            assert(ended.take(i as int + 1).map_values(strip) =~= ended.take(i as int).map_values(
                strip,
            ).push(strip(ended[i as int])));
        }
        found.push(line);
        i += 1;
    }
    proof {
        let ended = parts.deep_view().drop_last();
        assert(ended.take(i as int) =~= ended);
    }
    let last = &parts[parts.len() - 1];
    proof {
        lemma_empty_text();
        assert(parts.deep_view().last() == last@);
        if last@.len() == 0 {
            assert(last@ =~= Seq::<char>::empty());
        }
    }
    if !same_text(last.as_str(), "") {
        let kept = last.clone();
        proof {
            lemma_deep_view_push(found@, found@.push(kept), kept);
        }
        found.push(kept);
    }
    found
}

/// Whether `pattern` occurs in `text`.
pub fn contains(text: &str, pattern: &str) -> (found: bool)
    ensures
        found == occurs_in(pattern@, text@),
{
    let hay = chars_of(text);
    let needle = chars_of(pattern);
    if needle.len() > hay.len() {
        assert forall|at: int| !occurs_at(pattern@, text@, at) by {}
        return false;
    }
    let last: usize = hay.len() - needle.len();
    let mut at: usize = 0;
    while at <= last
        invariant
            hay@ == text@,
            needle@ == pattern@,
            last + needle.len() == hay.len(),
            at <= last + 1,
            forall|k: int| 0 <= k < at ==> !occurs_at(pattern@, text@, k),
        decreases last + 1 - at,
    {
        let mut k: usize = 0;
        while k < needle.len() && hay[at + k] == needle[k]
            invariant
                at <= last,
                last + needle.len() == hay.len(),
                k <= needle.len(),
                hay@.subrange(at as int, at + k) == needle@.take(k as int),
            decreases needle.len() - k,
        {
            k += 1;
            assert(hay@.subrange(at as int, at + k) =~= hay@.subrange(at as int, at + k - 1).push(
                hay@[at + k - 1],
            ));
            assert(needle@.take(k as int) =~= needle@.take(k as int - 1).push(needle@[k as int - 1]));
        }
        if k == needle.len() {
            assert(needle@.take(k as int) =~= needle@);
            assert(occurs_at(pattern@, text@, at as int));
            return true;
        }
        assert(!occurs_at(pattern@, text@, at as int)) by {
            if occurs_at(pattern@, text@, at as int) {
                assert(hay@.subrange(at as int, at + needle.len())[k as int] == needle@[k as int]);
            }
        }
        at += 1;
    }
    assert forall|k: int| !occurs_at(pattern@, text@, k) by {}
    false
}

/// `text` without the white space at its start and at its end.
pub fn trim(text: &str) -> (inner: String)
    ensures
        inner@ == trimmed(text@),
{
    let chars = chars_of(text);
    let mut from: usize = 0;
    assert(chars@.skip(0) =~= chars@);
    while from < chars.len() && is_whitespace(chars[from])
        invariant
            from <= chars.len(),
            trimmed_start(chars@) == trimmed_start(chars@.skip(from as int)),
        decreases chars.len() - from,
    {
        assert(chars@.skip(from as int).drop_first() =~= chars@.skip(from as int + 1));
        from += 1;
    }
    let mut to: usize = chars.len();
    while to > from && is_whitespace(chars[to - 1])
        invariant
            from <= to <= chars.len(),
            trimmed_end(chars@.skip(from as int)) == trimmed_end(
                chars@.subrange(from as int, to as int),
            ),
        decreases to,
    {
        assert(chars@.subrange(from as int, to as int).drop_last() =~= chars@.subrange(
            from as int,
            to as int - 1,
        ));
        to -= 1;
    }
    proof {
        assert(chars@.skip(from as int) =~= chars@.subrange(from as int, chars.len() as int));
    }
    text_of(&chars, from, to)
}

/// Cutting a text gives at least one piece.
pub proof fn lemma_pieces_len(text: Seq<char>, seps: Set<char>)
    ensures
        pieces(text, seps).len() > 0,
    decreases text.len(),
{
    if text.len() > 0 {
        lemma_pieces_len(text.drop_last(), seps);
    }
}

/// The empty string literal has no characters.
pub proof fn lemma_empty_text()
    ensures
        ""@ == Seq::<char>::empty(),
{
    reveal_strlit("");
    assert(""@ =~= Seq::<char>::empty());
}

} // verus!
