//! Text primitives: decimal numerals and the splitting of content into lines.

use vstd::prelude::*;
use vstd::string::*;

verus! {

/// `String::push` of the standard library: the string afterwards is the
/// string before with `ch` added at its end, as its documentation says.
pub assume_specification[ String::push ](s: &mut String, ch: char)
    ensures
        final(s)@ == old(s)@.push(ch),
;

/// The character of a decimal digit.
pub open spec fn digit(d: nat) -> char {
    if d == 0 {
        '0'
    } else if d == 1 {
        '1'
    } else if d == 2 {
        '2'
    } else if d == 3 {
        '3'
    } else if d == 4 {
        '4'
    } else if d == 5 {
        '5'
    } else if d == 6 {
        '6'
    } else if d == 7 {
        '7'
    } else if d == 8 {
        '8'
    } else {
        '9'
    }
}

/// The decimal numeral of `n`, without sign or leading zeros.
pub open spec fn decimal(n: nat) -> Seq<char>
    decreases n,
{
    if n < 10 {
        seq![digit(n)]
    } else {
        decimal(n / 10).push(digit(n % 10))
    }
}

fn digit_char(d: usize) -> (c: char)
    requires
        d < 10,
    ensures
        c == digit(d as nat),
{
    if d == 0 {
        '0'
    } else if d == 1 {
        '1'
    } else if d == 2 {
        '2'
    } else if d == 3 {
        '3'
    } else if d == 4 {
        '4'
    } else if d == 5 {
        '5'
    } else if d == 6 {
        '6'
    } else if d == 7 {
        '7'
    } else if d == 8 {
        '8'
    } else {
        '9'
    }
}

/// Appends the decimal numeral of `n` to `out`.
pub fn push_decimal(out: &mut String, n: usize)
    ensures
        final(out)@ == old(out)@ + decimal(n as nat),
    decreases n,
{
    if n >= 10 {
        push_decimal(out, n / 10);
    }
    out.push(digit_char(n % 10));
    assert(out@ =~= old(out)@ + decimal(n as nat));
}

/// The five characters that markup reserves.
pub open spec fn is_reserved(c: char) -> bool {
    c == '"' || c == '\'' || c == '<' || c == '>' || c == '&'
}

/// What stands for `c` in markup: its named entity if it is reserved, else
/// the character itself.
pub open spec fn escape_char(c: char) -> Seq<char> {
    if c == '"' {
        seq!['&', 'q', 'u', 'o', 't', ';']
    } else if c == '\'' {
        seq!['&', 'a', 'p', 'o', 's', ';']
    } else if c == '<' {
        seq!['&', 'l', 't', ';']
    } else if c == '>' {
        seq!['&', 'g', 't', ';']
    } else if c == '&' {
        seq!['&', 'a', 'm', 'p', ';']
    } else {
        seq![c]
    }
}

/// The text with every character replaced by what stands for it in markup.
pub open spec fn escape(s: Seq<char>) -> Seq<char>
    decreases s.len(),
{
    if s.len() == 0 {
        Seq::empty()
    } else {
        escape(s.drop_last()) + escape_char(s.last())
    }
}

/// Reading markup back: each of the five named entities becomes its
/// character, every other character stands for itself.
pub open spec fn unescape(s: Seq<char>) -> Seq<char>
    decreases s.len(),
{
    if s.len() == 0 {
        Seq::empty()
    } else if escape_char('"').is_prefix_of(s) {
        seq!['"'] + unescape(s.skip(6))
    } else if escape_char('\'').is_prefix_of(s) {
        seq!['\''] + unescape(s.skip(6))
    } else if escape_char('<').is_prefix_of(s) {
        seq!['<'] + unescape(s.skip(4))
    } else if escape_char('>').is_prefix_of(s) {
        seq!['>'] + unescape(s.skip(4))
    } else if escape_char('&').is_prefix_of(s) {
        seq!['&'] + unescape(s.skip(5))
    } else {
        seq![s[0]] + unescape(s.skip(1))
    }
}

/// Escaping goes character by character: the escape of two texts joined is
/// the two escapes joined.
pub proof fn lemma_escape_concat(a: Seq<char>, b: Seq<char>)
    ensures
        escape(a + b) == escape(a) + escape(b),
    decreases b.len(),
{
    if b.len() == 0 {
        assert(a + b =~= a);
        assert(escape(a) + escape(b) =~= escape(a));
    } else {
        assert((a + b).drop_last() =~= a + b.drop_last());
        assert((a + b).last() == b.last());
        lemma_escape_concat(a, b.drop_last());
        assert(escape(a + b) =~= escape(a) + escape(b));
    }
}

/// A text without reserved characters is its own escape.
pub proof fn lemma_escape_plain(s: Seq<char>)
    requires
        forall|i: int| 0 <= i < s.len() ==> !is_reserved(#[trigger] s[i]),
    ensures
        escape(s) == s,
    decreases s.len(),
{
    if s.len() > 0 {
        let front = s.drop_last();
        assert forall|i: int| 0 <= i < front.len() implies !is_reserved(#[trigger] front[i]) by {
            assert(front[i] == s[i]);
        }
        lemma_escape_plain(front);
        assert(!is_reserved(s[s.len() - 1]));
        assert(escape(s) =~= s);
    }
}

/// Each reserved character alone escapes to exactly its named entity.
pub proof fn lemma_escape_reserved()
    ensures
        escape(seq!['"']) == "&quot;"@,
        escape(seq!['\'']) == "&apos;"@,
        escape(seq!['<']) == "&lt;"@,
        escape(seq!['>']) == "&gt;"@,
        escape(seq!['&']) == "&amp;"@,
{
    reveal_strlit("&quot;");
    reveal_strlit("&apos;");
    reveal_strlit("&lt;");
    reveal_strlit("&gt;");
    reveal_strlit("&amp;");
    reveal_with_fuel(escape, 2);
    assert(seq!['"'].drop_last() =~= Seq::<char>::empty());
    assert(seq!['\''].drop_last() =~= Seq::<char>::empty());
    assert(seq!['<'].drop_last() =~= Seq::<char>::empty());
    assert(seq!['>'].drop_last() =~= Seq::<char>::empty());
    assert(seq!['&'].drop_last() =~= Seq::<char>::empty());
    assert(escape(seq!['"']) =~= "&quot;"@);
    assert(escape(seq!['\'']) =~= "&apos;"@);
    assert(escape(seq!['<']) =~= "&lt;"@);
    assert(escape(seq!['>']) =~= "&gt;"@);
    assert(escape(seq!['&']) =~= "&amp;"@);
}

/// Reading back what stands for one character, in front of any rest, gives
/// the character and the rest read back.
proof fn lemma_unescape_step(c: char, rest: Seq<char>)
    ensures
        unescape(escape_char(c) + rest) == seq![c] + unescape(rest),
{
    let s = escape_char(c) + rest;
    assert(s.skip(escape_char(c).len() as int) =~= rest);
    if is_reserved(c) {
        assert(escape_char(c).is_prefix_of(s)) by {
            assert(s.subrange(0, escape_char(c).len() as int) =~= escape_char(c));
        }
        assert(s[1] == escape_char(c)[1]);
        assert(s[2] == escape_char(c)[2]);
    } else {
        assert(s[0] == c);
    }
}

/// Escaping loses nothing: reading the escaped text back gives the text.
pub proof fn lemma_unescape_escape(s: Seq<char>)
    ensures
        unescape(escape(s)) == s,
    decreases s.len(),
{
    if s.len() > 0 {
        let head = seq![s[0]];
        let tail = s.skip(1);
        assert(s =~= head + tail);
        lemma_escape_concat(head, tail);
        assert(escape(head) =~= escape_char(s[0])) by {
            reveal_with_fuel(escape, 2);
            assert(head.drop_last() =~= Seq::<char>::empty());
        }
        lemma_unescape_step(s[0], escape(tail));
        lemma_unescape_escape(tail);
    }
}

/// A line without the carriage return that stood before its line feed.
pub open spec fn without_cr(line: Seq<char>) -> Seq<char> {
    if line.len() > 0 && line.last() == '\r' {
        line.drop_last()
    } else {
        line
    }
}

/// Reading `s` from the left: the lines that a line feed has closed so far,
/// and the characters read since the last line feed.
pub open spec fn scan_lines(s: Seq<char>) -> (Seq<Seq<char>>, Seq<char>)
    decreases s.len(),
{
    if s.len() == 0 {
        (Seq::empty(), Seq::empty())
    } else {
        let (closed, pending) = scan_lines(s.drop_last());
        if s.last() == '\n' {
            (closed.push(without_cr(pending)), Seq::empty())
        } else {
            (closed, pending.push(s.last()))
        }
    }
}

/// The lines of a text. A line ends at a line feed, or at a carriage return
/// followed by a line feed; the terminator is not part of the line. What
/// follows the last line feed is a line too unless it is empty, and the empty
/// text is one empty line.
pub open spec fn text_lines(s: Seq<char>) -> Seq<Seq<char>> {
    let (closed, pending) = scan_lines(s);
    if pending.len() > 0 || s.len() == 0 {
        closed.push(pending)
    } else {
        closed
    }
}

/// Every text has at least one line.
pub proof fn lemma_text_lines_nonempty(s: Seq<char>)
    ensures
        text_lines(s).len() >= 1,
    decreases s.len(),
{
    if s.len() > 0 {
        if s.last() != '\n' {
            assert(scan_lines(s).1.len() > 0);
        }
    }
}

/// The characters of each string of a list.
pub open spec fn lines_view(lines: Seq<String>) -> Seq<Seq<char>> {
    Seq::new(lines.len(), |i: int| lines[i]@)
}

/// Splits `content` into its lines.
pub fn split_lines(content: &str) -> (lines: Vec<String>)
    ensures
        lines_view(lines@) == text_lines(content@),
{
    let mut lines: Vec<String> = Vec::new();
    let mut line = String::new();
    let mut held_cr = false;
    let mut seen_any = false;
    for c in it: content.chars()
        invariant
            it.seq() == content@,
            seen_any == (it.index() > 0),
            lines_view(lines@) == scan_lines(content@.take(it.index() as int)).0,
            scan_lines(content@.take(it.index() as int)).1 == if held_cr {
                line@.push('\r')
            } else {
                line@
            },
            !held_cr ==> without_cr(line@) == line@,
    {
        let ghost before = content@.take(it.index() as int);
        let ghost after = content@.take(it.index() + 1);
        assert(after.drop_last() =~= before);
        assert(after.last() == c);
        if c == '\n' {
            let ghost closed = lines_view(lines@);
            lines.push(line);
            assert(lines_view(lines@) =~= closed.push(without_cr(scan_lines(before).1))) by {
                if held_cr {
                    assert(line@.push('\r').drop_last() =~= line@);
                }
            }
            line = String::new();
            held_cr = false;
        } else {
            if held_cr {
                line.push('\r');
            }
            if c == '\r' {
                held_cr = true;
            } else {
                line.push(c);
                held_cr = false;
            }
        }
        seen_any = true;
    }
    assert(content@.take(content@.len() as int) =~= content@);
    if held_cr {
        line.push('\r');
    }
    if !line.as_str().is_empty() || !seen_any {
        let ghost closed = lines_view(lines@);
        lines.push(line);
        assert(lines_view(lines@) =~= closed.push(line@));
    }
    lines
}

} // verus!
