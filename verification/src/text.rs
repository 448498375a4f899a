//! Text helpers shared by the other modules. Contracts speak of a string
//! through its view, the sequence of its characters.

use vstd::prelude::*;

verus! {

/// `String::push` of the standard library appends one character.
pub assume_specification[ String::push ](s: &mut String, c: char)
    ensures
        final(s)@ == old(s)@.push(c),
;

/// `String::pop` of the standard library removes the last character and
/// returns it; an empty string is left as it is and `None` is returned.
pub assume_specification[ String::pop ](s: &mut String) -> (r: Option<char>)
    ensures
        old(s)@.len() == 0 ==> r is None && final(s)@ == old(s)@,
        old(s)@.len() > 0 ==> r == Some(old(s)@.last()) && final(s)@ == old(s)@.drop_last(),
;

/// The first `limit` characters of `text`, or all of it when it is shorter.
pub open spec fn truncated(text: Seq<char>, limit: nat) -> Seq<char> {
    if text.len() <= limit {
        text
    } else {
        text.take(limit as int)
    }
}

/// The parts written one after another with `separator` between neighbours.
pub open spec fn joined(parts: Seq<Seq<char>>, separator: Seq<char>) -> Seq<char>
    decreases parts.len(),
{
    if parts.len() == 0 {
        Seq::empty()
    } else if parts.len() == 1 {
        parts[0]
    } else {
        joined(parts.drop_last(), separator) + separator + parts.last()
    }
}

/// `text` cut after each line feed. Every piece but the last ends in a line
/// feed; a last piece without one is kept when it is not empty.
pub open spec fn lines_with_endings(text: Seq<char>) -> Seq<Seq<char>>
    decreases text.len(),
{
    if text.len() == 0 {
        Seq::empty()
    } else {
        match first_line_feed(text) {
            Some(k) => seq![text.take(k + 1)] + lines_with_endings(text.skip(k + 1)),
            None => seq![text],
        }
    }
}

/// The pieces of `text` between its line feeds, without the line feeds. A
/// text without a line feed is one piece, an empty text too; a text that
/// ends in a line feed has an empty last piece.
pub open spec fn pieces(text: Seq<char>) -> Seq<Seq<char>>
    decreases text.len(),
{
    match first_line_feed(text) {
        Some(k) => seq![text.take(k)] + pieces(text.skip(k + 1)),
        None => seq![text],
    }
}

/// Where the first line feed of `text` stands, if it has one.
pub open spec fn first_line_feed(text: Seq<char>) -> Option<int> {
    if exists|k: int| is_first_line_feed(text, k) {
        Some(choose|k: int| is_first_line_feed(text, k))
    } else {
        None
    }
}

pub open spec fn is_first_line_feed(text: Seq<char>, k: int) -> bool {
    &&& 0 <= k < text.len()
    &&& text[k] == '\n'
    &&& forall|j: int| 0 <= j < k ==> text[j] != '\n'
}

/// `count` copies of `c`.
pub open spec fn repeated(c: char, count: nat) -> Seq<char> {
    Seq::new(count, |i: int| c)
}

/// An upper-case ASCII letter becomes its lower-case form; any other
/// character stays.
pub open spec fn ascii_lower(c: char) -> char {
    if 'A' <= c && c <= 'Z' {
        ((c as u8) + 32) as char
    } else {
        c
    }
}

pub open spec fn ascii_lowercase(text: Seq<char>) -> Seq<char> {
    text.map_values(|c: char| ascii_lower(c))
}

/// The decimal digit for `d`.
pub open spec fn digit_char(d: int) -> char
    recommends
        0 <= d < 10,
{
    ((48 + d) as u8) as char
}

/// `n` written with two decimal digits, for `n` from 0 to 99. For any `n`
/// these are the characters that stand `n / 10` and `n % 10` places after
/// the digit zero.
pub open spec fn two_digits(n: int) -> Seq<char>
    recommends
        0 <= n < 100,
{
    seq![digit_char(n / 10), digit_char(n % 10)]
}

pub proof fn lemma_first_line_feed_unique(text: Seq<char>, k: int)
    requires
        is_first_line_feed(text, k),
    ensures
        first_line_feed(text) == Some(k),
{
    let chosen = choose|j: int| is_first_line_feed(text, j);
    assert(is_first_line_feed(text, chosen));
    assert(chosen == k) by {
        if chosen < k {
            assert(text[chosen] != '\n');
        } else if k < chosen {
            assert(text[k] != '\n');
        }
    }
}

pub proof fn lemma_no_line_feed(text: Seq<char>)
    requires
        forall|j: int| 0 <= j < text.len() ==> text[j] != '\n',
    ensures
        first_line_feed(text) is None,
{
}

/// Whether the two texts hold the same characters.
pub fn same_text(a: &str, b: &str) -> (r: bool)
    ensures
        r == (a@ == b@),
{
    let left = String::from_str(a);
    let right = String::from_str(b);
    left == right
}

/// Whether `text` begins with `prefix`.
pub fn starts_with(text: &str, prefix: &str) -> (r: bool)
    ensures
        r == prefix@.is_prefix_of(text@),
{
    let wanted = prefix.unicode_len();
    let given = text.unicode_len();
    if wanted > given {
        false
    } else {
        same_text(text.substring_char(0, wanted), prefix)
    }
}

/// The first `limit` characters of `text`, as a new string.
pub fn take_chars(text: &str, limit: usize) -> (r: String)
    ensures
        r@ == truncated(text@, limit as nat),
{
    let given = text.unicode_len();
    if given <= limit {
        String::from_str(text)
    } else {
        String::from_str(text.substring_char(0, limit))
    }
}

/// Joins the parts with a line feed between neighbours.
pub fn join_lines(parts: &Vec<String>) -> (r: String)
    ensures
        r@ == joined(parts.deep_view(), seq!['\n']),
{
    let mut out = String::new();
    let mut i: usize = 0;
    while i < parts.len()
        invariant
            i <= parts.len(),
            out@ == joined(parts.deep_view().take(i as int), seq!['\n']),
        decreases parts.len() - i,
    {
        let ghost before = parts.deep_view().take(i as int);
        let ghost after = parts.deep_view().take(i + 1);
        proof {
            assert(after.drop_last() =~= before);
            assert(after.last() == parts[i as int]@);
        }
        if i > 0 {
            out.push('\n');
            proof {
                assert(out@ =~= joined(before, seq!['\n']) + seq!['\n']);
            }
        } else {
            proof {
                assert(out@ =~= Seq::<char>::empty());
            }
        }
        out.append(parts[i].as_str());
        proof {
            assert(out@ =~= joined(after, seq!['\n']));
        }
        i = i + 1;
    }
    proof {
        assert(parts.deep_view().take(parts.len() as int) =~= parts.deep_view());
    }
    out
}

/// Cuts `text` after each line feed, keeping the line feeds.
pub fn split_lines(text: &str) -> (lines: Vec<String>)
    ensures
        lines.deep_view() == lines_with_endings(text@),
{
    let mut lines: Vec<String> = Vec::new();
    let mut current = String::new();
    let ghost whole = text@;
    proof {
        assert(current@ + whole.skip(0) =~= whole);
        assert(lines.deep_view() =~= Seq::<Seq<char>>::empty());
        assert(Seq::<Seq<char>>::empty() + lines_with_endings(whole) =~= lines_with_endings(
            whole,
        ));
    }
    for c in it: text.chars()
        invariant
            it.seq() == whole,
            forall|j: int| 0 <= j < current@.len() ==> current@[j] != '\n',
            lines_with_endings(whole) == lines.deep_view() + lines_with_endings(
                current@ + whole.skip(it.index() as int),
            ),
    {
        let ghost i = it.index() as int;
        let ghost rest = current@ + whole.skip(i);
        let ghost done = lines.deep_view();
        proof {
            assert(rest[current@.len() as int] == c);
        }
        current.push(c);
        if c == '\n' {
            proof {
                assert(is_first_line_feed(rest, current@.len() - 1));
                lemma_first_line_feed_unique(rest, current@.len() - 1);
                assert(rest.take(current@.len() as int) =~= current@);
                assert(rest.skip(current@.len() as int) =~= whole.skip(i + 1));
                assert(Seq::<char>::empty() + whole.skip(i + 1) =~= whole.skip(i + 1));
            }
            lines.push(current);
            current = String::new();
            proof {
                assert(lines.deep_view() =~= done + seq![rest.take(rest.len() - whole.skip(
                    i + 1,
                ).len())]);
                assert(rest.take(rest.len() - whole.skip(i + 1).len()) =~= lines.deep_view().last());
                assert(lines_with_endings(whole) =~= lines.deep_view() + lines_with_endings(
                    current@ + whole.skip(i + 1),
                ));
            }
        } else {
            proof {
                assert(current@ + whole.skip(i + 1) =~= rest);
            }
        }
    }
    proof {
        assert(whole.skip(whole.len() as int) =~= Seq::<char>::empty());
        assert(current@ + Seq::<char>::empty() =~= current@);
    }
    if current.as_str().is_empty() {
        proof {
            assert(lines.deep_view() + Seq::<Seq<char>>::empty() =~= lines.deep_view());
        }
    } else {
        proof {
            lemma_no_line_feed(current@);
            assert(lines.deep_view().push(current@) =~= lines.deep_view() + seq![current@]);
        }
        let ghost done = lines.deep_view();
        lines.push(current);
        proof {
            assert(lines.deep_view() =~= done + seq![current@]);
        }
    }
    lines
}

/// Cuts `text` at its line feeds and drops them.
pub fn split_pieces(text: &str) -> (parts: Vec<String>)
    ensures
        parts.deep_view() == pieces(text@),
        parts.len() >= 1,
{
    let mut parts: Vec<String> = Vec::new();
    let mut current = String::new();
    let ghost whole = text@;
    proof {
        assert(current@ + whole.skip(0) =~= whole);
        assert(parts.deep_view() =~= Seq::<Seq<char>>::empty());
        assert(Seq::<Seq<char>>::empty() + pieces(whole) =~= pieces(whole));
    }
    for c in it: text.chars()
        invariant
            it.seq() == whole,
            forall|j: int| 0 <= j < current@.len() ==> current@[j] != '\n',
            pieces(whole) == parts.deep_view() + pieces(current@ + whole.skip(it.index() as int)),
    {
        let ghost i = it.index() as int;
        let ghost rest = current@ + whole.skip(i);
        let ghost done = parts.deep_view();
        proof {
            assert(rest[current@.len() as int] == c);
        }
        if c == '\n' {
            proof {
                assert(is_first_line_feed(rest, current@.len() as int));
                lemma_first_line_feed_unique(rest, current@.len() as int);
                assert(rest.take(current@.len() as int) =~= current@);
                assert(rest.skip(current@.len() as int + 1) =~= whole.skip(i + 1));
                assert(Seq::<char>::empty() + whole.skip(i + 1) =~= whole.skip(i + 1));
            }
            let ghost piece = current@;
            parts.push(current);
            current = String::new();
            proof {
                assert(parts.deep_view() =~= done + seq![piece]);
                assert(pieces(whole) =~= parts.deep_view() + pieces(current@ + whole.skip(i + 1)));
            }
        } else {
            current.push(c);
            proof {
                assert(current@ + whole.skip(i + 1) =~= rest);
            }
        }
    }
    proof {
        assert(whole.skip(whole.len() as int) =~= Seq::<char>::empty());
        assert(current@ + Seq::<char>::empty() =~= current@);
        lemma_no_line_feed(current@);
    }
    let ghost done = parts.deep_view();
    let ghost piece = current@;
    parts.push(current);
    proof {
        assert(parts.deep_view() =~= done + seq![piece]);
    }
    parts
}

/// `count` copies of `c`, as a new string.
pub fn repeat_char(c: char, count: u32) -> (r: String)
    ensures
        r@ == repeated(c, count as nat),
{
    let mut out = String::new();
    let mut i: u32 = 0;
    while i < count
        invariant
            i <= count,
            out@ == repeated(c, i as nat),
        decreases count - i,
    {
        out.push(c);
        i = i + 1;
        proof {
            assert(out@ =~= repeated(c, i as nat));
        }
    }
    out
}

/// The lower-case form of one character, for ASCII letters.
pub fn lower_char(c: char) -> (r: char)
    ensures
        r == ascii_lower(c),
{
    if c >= 'A' && c <= 'Z' {
        ((c as u8) + 32) as char
    } else {
        c
    }
}

/// `text` with its upper-case ASCII letters made lower-case.
pub fn to_ascii_lowercase(text: &str) -> (r: String)
    ensures
        r@ == ascii_lowercase(text@),
{
    let mut out = String::new();
    let ghost whole = text@;
    for c in it: text.chars()
        invariant
            it.seq() == whole,
            out@ == ascii_lowercase(whole.take(it.index() as int)),
    {
        let ghost i = it.index() as int;
        out.push(lower_char(c));
        proof {
            assert(out@ =~= ascii_lowercase(whole.take(i + 1)));
        }
    }
    proof {
        assert(whole.take(whole.len() as int) =~= whole);
    }
    out
}

/// Appends the two characters of [`two_digits`]: for `n` below 100, its two
/// decimal digits.
pub fn push_two_digits(out: &mut String, n: u8)
    ensures
        final(out)@ == old(out)@ + two_digits(n as int),
{
    out.push((48u8 + n / 10) as char);
    out.push((48u8 + n % 10) as char);
    proof {
        assert(final(out)@ =~= old(out)@ + two_digits(n as int));
    }
}

} // verus!
