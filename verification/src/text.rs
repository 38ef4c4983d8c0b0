//! Character sequences: the model of an address, and the searches and
//! rewrites that the rules perform on it.

use vstd::prelude::*;
use vstd::string::StringExecFns;

verus! {

/// `String::push` of the standard library: the character is appended to the
/// end of the string, and nothing else changes.
pub assume_specification[ String::push ](s: &mut String, ch: char)
    ensures
        final(s)@ == old(s)@.push(ch),
;

/// `needle` stands in `hay` at position `at`.
pub open spec fn occurs_at(hay: Seq<char>, needle: Seq<char>, at: int) -> bool {
    &&& 0 <= at
    &&& at + needle.len() <= hay.len()
    &&& hay.subrange(at, at + needle.len()) == needle
}

/// `needle` is a substring of `hay`. The empty sequence is a substring of
/// every sequence.
pub open spec fn occurs(hay: Seq<char>, needle: Seq<char>) -> bool {
    exists|at: int| occurs_at(hay, needle, at)
}

/// `hay` with every occurrence of `needle` replaced by `with`, the
/// occurrences taken from the left and never overlapping. An empty `needle`
/// occurs before each character and once more at the end.
pub open spec fn replace_all(hay: Seq<char>, needle: Seq<char>, with: Seq<char>) -> Seq<char>
    decreases hay.len(),
{
    if hay.len() == 0 {
        if needle.len() == 0 {
            with
        } else {
            hay
        }
    } else if needle.len() == 0 {
        with + hay.take(1) + replace_all(hay.skip(1), needle, with)
    } else if occurs_at(hay, needle, 0) {
        with + replace_all(hay.skip(needle.len() as int), needle, with)
    } else {
        hay.take(1) + replace_all(hay.skip(1), needle, with)
    }
}

/// Replacing a needle that does not occur changes nothing.
pub proof fn lemma_replace_absent(hay: Seq<char>, needle: Seq<char>, with: Seq<char>)
    requires
        !occurs(hay, needle),
    ensures
        replace_all(hay, needle, with) == hay,
    decreases hay.len(),
{
    if needle.len() == 0 {
        assert(hay.subrange(0, 0) =~= needle);
        assert(occurs_at(hay, needle, 0));
    }
    if hay.len() > 0 {
        let tail = hay.skip(1);
        assert forall|at: int| !occurs_at(tail, needle, at) by {
            if occurs_at(tail, needle, at) {
                assert(tail.subrange(at, at + needle.len()) =~= hay.subrange(
                    at + 1,
                    at + 1 + needle.len(),
                ));
                assert(occurs_at(hay, needle, at + 1));
            }
        }
        lemma_replace_absent(tail, needle, with);
        assert(!occurs_at(hay, needle, 0));
        assert(hay.take(1) + tail =~= hay);
    }
}

/// The position of the first line feed in `text`, or the length of `text`
/// where it holds none.
pub open spec fn first_newline(text: Seq<char>) -> nat
    decreases text.len(),
{
    if text.len() == 0 || text[0] == '\n' {
        0
    } else {
        1 + first_newline(text.skip(1))
    }
}

/// `line` without the carriage return that ends it, if one does.
pub open spec fn without_cr(line: Seq<char>) -> Seq<char> {
    if line.len() > 0 && line.last() == '\r' {
        line.drop_last()
    } else {
        line
    }
}

/// The lines of `text`. A line ends at a line feed; a carriage return just
/// before that line feed belongs to the line ending too. Neither is part of
/// the line. What follows the last line feed is a line if it is not empty,
/// and is kept whole.
pub open spec fn lines_of(text: Seq<char>) -> Seq<Seq<char>>
    decreases text.len(),
{
    if text.len() == 0 {
        Seq::empty()
    } else {
        let end = first_newline(text);
        if end >= text.len() {
            seq![text]
        } else {
            seq![without_cr(text.take(end as int))] + lines_of(text.skip(end as int + 1))
        }
    }
}

/// The character sequences that the strings of `strings` hold.
pub open spec fn texts_of(strings: Seq<String>) -> Seq<Seq<char>> {
    strings.map_values(|s: String| s@)
}

/// Where the first `end` characters hold no line feed, and one follows them
/// or the text ends there, the first line ends at `end`.
pub proof fn lemma_first_newline(text: Seq<char>, end: int)
    requires
        0 <= end <= text.len(),
        forall|j: int| 0 <= j < end ==> text[j] != '\n',
        end < text.len() ==> text[end] == '\n',
    ensures
        first_newline(text) == end,
    decreases end,
{
    if end > 0 {
        let tail = text.skip(1);
        assert forall|j: int| 0 <= j < end - 1 implies tail[j] != '\n' by {
            assert(tail[j] == text[j + 1]);
        }
        lemma_first_newline(tail, end - 1);
    }
}

/// The characters of `s`, in order, as a vector that can be indexed in
/// constant time.
pub fn chars_of(s: &str) -> (chars: Vec<char>)
    ensures
        chars@ == s@,
{
    let mut chars: Vec<char> = Vec::new();
    for c in it: s.chars()
        invariant
            chars@ == it.seq().take(it.index()),
            it.seq() == s@,
    {
        chars.push(c);
    }
    chars
}

/// Whether `needle` stands in `hay` at position `at`.
pub fn matches_at(hay: &Vec<char>, needle: &Vec<char>, at: usize) -> (found: bool)
    ensures
        found == occurs_at(hay@, needle@, at as int),
{
    if needle.len() > hay.len() || at > hay.len() - needle.len() {
        return false;
    }
    let mut k: usize = 0;
    while k < needle.len()
        invariant
            k <= needle.len(),
            at + needle.len() <= hay.len(),
            forall|j: int| 0 <= j < k ==> hay@[at + j] == needle@[j],
        decreases needle.len() - k,
    {
        if hay[at + k] != needle[k] {
            proof {
                let window = hay@.subrange(at as int, at + needle.len());
                assert(window[k as int] == hay@[at + k]);
            }
            return false;
        }
        k += 1;
    }
    assert(hay@.subrange(at as int, at + needle.len()) =~= needle@);
    true
}

/// Whether `a` and `b` hold the same characters.
pub fn same_text(a: &str, b: &str) -> (same: bool)
    ensures
        same == (a@ == b@),
{
    let a_chars = chars_of(a);
    let b_chars = chars_of(b);
    proof {
        assert(a@.subrange(0, a@.len() as int) =~= a@);
    }
    a_chars.len() == b_chars.len() && matches_at(&a_chars, &b_chars, 0)
}

/// Whether `needle` is a substring of `hay`.
pub fn contains(hay: &str, needle: &str) -> (found: bool)
    ensures
        found == occurs(hay@, needle@),
{
    let hay_chars = chars_of(hay);
    let needle_chars = chars_of(needle);
    if needle_chars.len() > hay_chars.len() {
        return false;
    }
    let last: usize = hay_chars.len() - needle_chars.len();
    let mut at: usize = 0;
    loop
        invariant
            hay_chars@ == hay@,
            needle_chars@ == needle@,
            last + needle_chars.len() == hay_chars.len(),
            at <= last,
            forall|j: int| 0 <= j < at ==> !occurs_at(hay@, needle@, j),
        decreases last - at,
    {
        if matches_at(&hay_chars, &needle_chars, at) {
            return true;
        }
        if at == last {
            return false;
        }
        at += 1;
    }
}

/// `hay` with every occurrence of `needle` replaced by `with`.
pub fn replace(hay: &str, needle: &str, with: &str) -> (out: String)
    ensures
        out@ == replace_all(hay@, needle@, with@),
{
    let hay_chars = chars_of(hay);
    let needle_chars = chars_of(needle);
    let mut out = String::new();
    let mut at: usize = 0;
    proof {
        assert(hay@.skip(0) =~= hay@);
        assert(out@ + replace_all(hay@, needle@, with@) =~= replace_all(hay@, needle@, with@));
    }
    while at < hay_chars.len()
        invariant
            hay_chars@ == hay@,
            needle_chars@ == needle@,
            at <= hay_chars.len(),
            out@ + replace_all(hay@.skip(at as int), needle@, with@) == replace_all(
                hay@,
                needle@,
                with@,
            ),
        decreases hay_chars.len() - at,
    {
        let ghost rest = hay@.skip(at as int);
        let ghost before = out@;
        if needle_chars.len() == 0 {
            out.append(with);
            out.push(hay_chars[at]);
            at += 1;
            proof {
                assert(rest.skip(1) =~= hay@.skip(at as int));
                assert(out@ =~= before + (with@ + rest.take(1)));
            }
        } else if matches_at(&hay_chars, &needle_chars, at) {
            out.append(with);
            at += needle_chars.len();
            proof {
                assert(rest.subrange(0, needle@.len() as int) =~= hay@.subrange(
                    at - needle@.len(),
                    at as int,
                ));
                assert(rest.skip(needle@.len() as int) =~= hay@.skip(at as int));
            }
        } else {
            out.push(hay_chars[at]);
            at += 1;
            proof {
                if needle@.len() <= rest.len() {
                    assert(rest.subrange(0, needle@.len() as int) =~= hay@.subrange(
                        at - 1,
                        at - 1 + needle@.len(),
                    ));
                }
                assert(rest.skip(1) =~= hay@.skip(at as int));
                assert(out@ =~= before + rest.take(1));
            }
        }
    }
    if needle_chars.len() == 0 {
        out.append(with);
    }
    out
}

/// The lines of `text`, in order.
pub fn split_lines(text: &str) -> (lines: Vec<String>)
    ensures
        texts_of(lines@) == lines_of(text@),
{
    let mut lines: Vec<String> = Vec::new();
    let mut line = String::new();
    // A carriage return that was read last and is not yet part of `line`.
    let mut held: bool = false;
    // Whether anything was read since the last line feed.
    let mut open: bool = false;
    let ghost mut start: int = 0;
    proof {
        assert(text@.skip(0) =~= text@);
        assert(texts_of(lines@) + lines_of(text@) =~= lines_of(text@));
        assert(line@ + Seq::<char>::empty() =~= text@.subrange(0, 0));
    }
    for c in it: text.chars()
        invariant
            it.seq() == text@,
            0 <= start <= it.index(),
            open == (start < it.index()),
            forall|j: int| start <= j < it.index() ==> text@[j] != '\n',
            line@ + (if held {
                seq!['\r']
            } else {
                Seq::empty()
            }) == text@.subrange(start, it.index() as int),
            !held ==> line@.len() == 0 || line@.last() != '\r',
            texts_of(lines@) + lines_of(text@.skip(start)) == lines_of(text@),
    {
        let ghost at: int = it.index() as int;
        let ghost done = texts_of(lines@);
        assert(c == text@[at]);
        if c == '\n' {
            proof {
                let rest = text@.skip(start);
                assert forall|j: int| 0 <= j < at - start implies rest[j] != '\n' by {
                    assert(rest[j] == text@[start + j]);
                }
                lemma_first_newline(rest, at - start);
                assert(rest.take(at - start) =~= text@.subrange(start, at));
                assert(rest.skip(at - start + 1) =~= text@.skip(at + 1));
                if held {
                    assert((line@ + seq!['\r']).drop_last() =~= line@);
                } else {
                    assert(line@ + Seq::<char>::empty() =~= line@);
                }
                assert(without_cr(rest.take(at - start)) == line@);
                assert(texts_of(lines@.push(line)) =~= done.push(line@));
                assert(done.push(line@) + lines_of(text@.skip(at + 1)) =~= done + (seq![line@]
                    + lines_of(text@.skip(at + 1))));
                start = at + 1;
            }
            lines.push(line);
            line = String::new();
            held = false;
            open = false;
            proof {
                assert(line@ + Seq::<char>::empty() =~= text@.subrange(start, at + 1));
            }
        } else {
            let ghost before = line@;
            if held {
                line.push('\r');
            }
            if c == '\r' {
                held = true;
            } else {
                line.push(c);
                held = false;
            }
            open = true;
            proof {
                assert(line@ + (if held {
                    seq!['\r']
                } else {
                    Seq::empty()
                }) =~= text@.subrange(start, at).push(c));
                assert(text@.subrange(start, at).push(c) =~= text@.subrange(start, at + 1));
            }
        }
    }
    if open {
        if held {
            line.push('\r');
        }
        proof {
            let rest = text@.skip(start);
            assert forall|j: int| 0 <= j < rest.len() implies rest[j] != '\n' by {
                assert(rest[j] == text@[start + j]);
            }
            lemma_first_newline(rest, rest.len() as int);
            assert(line@ =~= text@.subrange(start, text@.len() as int));
            assert(rest =~= text@.subrange(start, text@.len() as int));
            assert(texts_of(lines@.push(line)) =~= texts_of(lines@).push(line@));
            assert(texts_of(lines@).push(line@) =~= texts_of(lines@) + seq![rest]);
        }
        lines.push(line);
    } else {
        proof {
            assert(texts_of(lines@) + lines_of(text@.skip(start)) =~= texts_of(lines@));
        }
    }
    lines
}

} // verus!
