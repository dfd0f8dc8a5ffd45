//! Escaping of free text into the body of a string literal.
//!
//! Tab, carriage return, line feed, both quotes and the backslash become a
//! backslash and one character; printable ASCII stands for itself; everything
//! else becomes `\u{..}` with the code point in lower-case hexadecimal.

use vstd::prelude::*;
use crate::text::{
    all_printable, first_index_of, hex_digit_lower, hex_lower, is_printable,
    lemma_numerals_are_printable, push_hex_lower,
};

verus! {

/// Whether `c` is written as it is: printable ASCII but neither quote nor
/// the backslash.
pub open spec fn is_plain(c: char) -> bool {
    0x20 <= (c as u32) <= 0x7e && c != '\'' && c != '"' && c != '\\'
}

/// The escaped form of one character.
pub open spec fn escape_char(c: char) -> Seq<char> {
    if c == '\t' {
        seq!['\\', 't']
    } else if c == '\r' {
        seq!['\\', 'r']
    } else if c == '\n' {
        seq!['\\', 'n']
    } else if c == '\'' {
        seq!['\\', '\'']
    } else if c == '"' {
        seq!['\\', '"']
    } else if c == '\\' {
        seq!['\\', '\\']
    } else if is_plain(c) {
        seq![c]
    } else {
        seq!['\\', 'u', '{'] + hex_lower(c as nat) + seq!['}']
    }
}

/// The escaped form of a text: the escaped forms of its characters, in order.
pub open spec fn escape_text(t: Seq<char>) -> Seq<char>
    decreases t.len(),
{
    if t.len() == 0 {
        Seq::empty()
    } else {
        escape_text(t.drop_last()) + escape_char(t.last())
    }
}

/// Appends the escaped form of `c`.
pub fn push_escaped_char(out: &mut String, c: char)
    ensures
        final(out)@ == old(out)@ + escape_char(c),
{
    let u: u32 = c as u32;
    if c == '\t' {
        out.push('\\');
        out.push('t');
    } else if c == '\r' {
        out.push('\\');
        out.push('r');
    } else if c == '\n' {
        out.push('\\');
        out.push('n');
    } else if c == '\'' || c == '"' || c == '\\' {
        out.push('\\');
        out.push(c);
    } else if 0x20 <= u && u <= 0x7e {
        out.push(c);
    } else {
        out.push('\\');
        out.push('u');
        out.push('{');
        push_hex_lower(out, u);
        out.push('}');
    }
}

/// Appends the escaped form of `text`.
pub fn push_escaped(out: &mut String, text: &str)
    ensures
        final(out)@ == old(out)@ + escape_text(text@),
{
    for c in it: text.chars()
        invariant
            it.seq() == text@,
            out@ == old(out)@ + escape_text(text@.take(it.index() as int)),
    {
        push_escaped_char(out, c);
        proof {
            let k = it.index() as int;
            assert(text@.take(k + 1).drop_last() == text@.take(k));
        }
    }
    proof {
        assert(text@.take(text@.len() as int) == text@);
    }
}

/// The escaped form of `text`.
pub fn escape(text: &str) -> (out: String)
    ensures
        out@ == escape_text(text@),
{
    let mut out = String::new();
    push_escaped(&mut out, text);
    out
}

/// Escaping a text part by part gives the escaped whole.
pub proof fn lemma_escape_concat(a: Seq<char>, b: Seq<char>)
    ensures
        escape_text(a + b) == escape_text(a) + escape_text(b),
    decreases b.len(),
{
    if b.len() == 0 {
        assert(a + b =~= a);
        assert(escape_text(a) + escape_text(b) =~= escape_text(a));
    } else {
        lemma_escape_concat(a, b.drop_last());
        assert((a + b).drop_last() =~= a + b.drop_last());
        assert((a + b).last() == b.last());
        assert(escape_text(a + b) =~= escape_text(a) + escape_text(b));
    }
}

/// The escaped form of a text begins with that of its first character.
pub proof fn lemma_escape_first(t: Seq<char>)
    requires
        t.len() > 0,
    ensures
        escape_text(t) == escape_char(t.first()) + escape_text(t.drop_first()),
{
    reveal_with_fuel(escape_text, 2);
    assert(seq![t.first()].drop_last() =~= Seq::<char>::empty());
    assert(escape_text(seq![t.first()]) =~= escape_char(t.first()));
    assert(t =~= seq![t.first()] + t.drop_first());
    lemma_escape_concat(seq![t.first()], t.drop_first());
}

/// Escaped text is printable: it holds no control character, so no line
/// break, and nothing outside ASCII.
pub proof fn lemma_escaped_is_printable(t: Seq<char>)
    ensures
        all_printable(escape_text(t)),
    decreases t.len(),
{
    if t.len() > 0 {
        lemma_escaped_is_printable(t.drop_last());
        let c = t.last();
        lemma_numerals_are_printable(c as nat, 0);
        let e = escape_char(c);
        assert forall|i: int| 0 <= i < e.len() implies is_printable(#[trigger] e[i]) by {
            if !is_plain(c) && e.len() > 2 {
                if 3 <= i < e.len() - 1 {
                    assert(e[i] == hex_lower(c as nat)[i - 3]);
                }
            }
        }
    }
}

/// The value of a hexadecimal digit, in either case.
pub open spec fn hex_digit_value(c: char) -> Option<nat> {
    let u = c as u32;
    if 0x30 <= u <= 0x39 {
        Some((u - 0x30) as nat)
    } else if 0x61 <= u <= 0x66 {
        Some((u - 0x61 + 10) as nat)
    } else if 0x41 <= u <= 0x46 {
        Some((u - 0x41 + 10) as nat)
    } else {
        None
    }
}

/// The value of a hexadecimal numeral; none for the empty text and for one
/// that holds anything but digits.
pub open spec fn hex_number(s: Seq<char>) -> Option<nat>
    decreases s.len(),
{
    if s.len() == 0 {
        None
    } else {
        match hex_digit_value(s.last()) {
            None => None,
            Some(d) => if s.len() == 1 {
                Some(d)
            } else {
                match hex_number(s.drop_last()) {
                    Some(n) => Some(16 * n + d),
                    None => None,
                }
            },
        }
    }
}

/// The character that a backslash and `c` stand for.
pub open spec fn simple_escape(c: char) -> Option<char> {
    if c == 't' {
        Some('\t')
    } else if c == 'r' {
        Some('\r')
    } else if c == 'n' {
        Some('\n')
    } else if c == '\'' || c == '"' || c == '\\' {
        Some(c)
    } else {
        None
    }
}

/// Whether `n` is the code point of a character.
pub open spec fn is_code_point(n: nat) -> bool {
    n <= 0xD7FF || 0xE000 <= n <= 0x10FFFF
}

/// `c` before the text `rest`, if there is one.
pub open spec fn before(c: char, rest: Option<Seq<char>>) -> Option<Seq<char>> {
    match rest {
        Some(r) => Some(seq![c] + r),
        None => None,
    }
}

/// The text that the body of a string literal stands for, as a reader of
/// string literals takes it: a character for itself, a backslash with the
/// character after it, or with `u` and a code point between braces. None
/// for a body that holds a bare double quote or a malformed escape.
pub open spec fn unescape(s: Seq<char>) -> Option<Seq<char>>
    decreases s.len(),
{
    if s.len() == 0 {
        Some(Seq::empty())
    } else if s[0] == '"' {
        None
    } else if s[0] != '\\' {
        before(s[0], unescape(s.skip(1)))
    } else if s.len() < 2 {
        None
    } else if s[1] == 'u' {
        let close = first_index_of(s, '}') as int;
        if s.len() >= 3 && s[2] == '{' && 3 <= close < s.len() {
            match hex_number(s.subrange(3, close)) {
                Some(n) => if is_code_point(n) {
                    before((n as u32) as char, unescape(s.skip(close + 1)))
                } else {
                    None
                },
                None => None,
            }
        } else {
            None
        }
    } else {
        match simple_escape(s[1]) {
            Some(c) => before(c, unescape(s.skip(2))),
            None => None,
        }
    }
}

/// Where the body of a string literal ends: the index of the first double
/// quote that no backslash escapes, or the length where there is none.
pub open spec fn closing_quote(s: Seq<char>) -> nat
    decreases s.len(),
{
    if s.len() == 0 || s[0] == '"' {
        0
    } else if s[0] == '\\' && s.len() >= 2 {
        2 + closing_quote(s.skip(2))
    } else {
        1 + closing_quote(s.skip(1))
    }
}

/// Whether `c` is a lower-case hexadecimal digit.
pub open spec fn is_hex_lower(c: char) -> bool {
    0x30 <= (c as u32) <= 0x39 || 0x61 <= (c as u32) <= 0x66
}

/// The numeral of `n` is made of hexadecimal digits and reads back as `n`.
pub proof fn lemma_hex_lower_reads_back(n: nat)
    ensures
        hex_lower(n).len() > 0,
        forall|i: int| 0 <= i < hex_lower(n).len() ==> is_hex_lower(#[trigger] hex_lower(n)[i]),
        hex_number(hex_lower(n)) == Some(n),
    decreases n,
{
    let d = if n < 16 {
        n
    } else {
        n % 16
    };
    assert(is_hex_lower(hex_digit_lower(d)));
    assert(hex_digit_value(hex_digit_lower(d)) == Some(d));
    if n < 16 {
        assert(hex_lower(n).drop_last() =~= Seq::<char>::empty());
    } else {
        lemma_hex_lower_reads_back(n / 16);
        assert(hex_lower(n).drop_last() =~= hex_lower(n / 16));
    }
}

/// A run of characters that are neither a double quote nor a backslash is
/// passed over when the end of a literal is sought.
pub proof fn lemma_closing_quote_after_run(run: Seq<char>, rest: Seq<char>)
    requires
        forall|i: int| 0 <= i < run.len() ==> run[i] != '"' && run[i] != '\\',
    ensures
        closing_quote(run + rest) == run.len() + closing_quote(rest),
    decreases run.len(),
{
    if run.len() == 0 {
        assert(run + rest =~= rest);
    } else {
        let s = run + rest;
        assert(s[0] == run[0]);
        assert(s.skip(1) =~= run.drop_first() + rest);
        lemma_closing_quote_after_run(run.drop_first(), rest);
    }
}

/// The escaped form of a character is passed over when the end of a literal
/// is sought.
pub proof fn lemma_closing_quote_after_char(c: char, rest: Seq<char>)
    ensures
        closing_quote(escape_char(c) + rest) == escape_char(c).len() + closing_quote(rest),
{
    let e = escape_char(c);
    let s = e + rest;
    if is_plain(c) {
        lemma_closing_quote_after_run(e, rest);
    } else if c == '\t' || c == '\r' || c == '\n' || c == '\'' || c == '"' || c == '\\' {
        assert(s[0] == '\\');
        assert(s.skip(2) =~= rest);
    } else {
        let digits = hex_lower(c as nat);
        lemma_hex_lower_reads_back(c as nat);
        let run = seq!['{'] + digits + seq!['}'];
        assert(s[0] == '\\');
        assert(s.skip(2) =~= run + rest);
        assert forall|i: int| 0 <= i < run.len() implies run[i] != '"' && run[i] != '\\' by {
            if 1 <= i < run.len() - 1 {
                assert(run[i] == digits[i - 1]);
                assert(is_hex_lower(digits[i - 1]));
            }
        }
        lemma_closing_quote_after_run(run, rest);
    }
}

/// No text can end its literal early: whatever `text` holds, and whatever
/// follows the literal, the body ends at the quote written after the escaped
/// text.
pub proof fn lemma_literal_ends_where_written(text: Seq<char>, rest: Seq<char>)
    ensures
        closing_quote(escape_text(text) + seq!['"'] + rest) == escape_text(text).len(),
    decreases text.len(),
{
    let tail = seq!['"'] + rest;
    if text.len() == 0 {
        assert(escape_text(text) + seq!['"'] + rest =~= tail);
    } else {
        lemma_escape_first(text);
        let head = escape_char(text.first());
        let more = escape_text(text.drop_first());
        lemma_literal_ends_where_written(text.drop_first(), rest);
        lemma_closing_quote_after_char(text.first(), more + seq!['"'] + rest);
        assert(escape_text(text) + seq!['"'] + rest =~= head + (more + seq!['"'] + rest));
    }
}

/// No `c` stands before the end of a run that holds none.
proof fn lemma_first_index_after_run(run: Seq<char>, c: char, rest: Seq<char>)
    requires
        forall|i: int| 0 <= i < run.len() ==> run[i] != c,
    ensures
        first_index_of(run + seq![c] + rest, c) == run.len(),
    decreases run.len(),
{
    let s = run + seq![c] + rest;
    if run.len() == 0 {
        assert(s[0] == c);
    } else {
        assert(s[0] == run[0]);
        assert(s.drop_first() =~= run.drop_first() + seq![c] + rest);
        lemma_first_index_after_run(run.drop_first(), c, rest);
    }
}

/// The escaped form of a character reads back as the character.
pub proof fn lemma_unescape_char(c: char, rest: Seq<char>)
    ensures
        unescape(escape_char(c) + rest) == before(c, unescape(rest)),
{
    let e = escape_char(c);
    let s = e + rest;
    if is_plain(c) {
        assert(s[0] == c);
        assert(s.skip(1) =~= rest);
    } else if c == '\t' || c == '\r' || c == '\n' || c == '\'' || c == '"' || c == '\\' {
        assert(s[0] == '\\');
        assert(s[1] == e[1]);
        assert(s.skip(2) =~= rest);
    } else {
        let n = c as nat;
        let digits = hex_lower(n);
        lemma_hex_lower_reads_back(n);
        let run = seq!['\\', 'u', '{'] + digits;
        assert(s =~= run + seq!['}'] + rest);
        assert forall|i: int| 0 <= i < run.len() implies run[i] != '}' by {
            if i >= 3 {
                assert(run[i] == digits[i - 3]);
                assert(is_hex_lower(digits[i - 3]));
            }
        }
        lemma_first_index_after_run(run, '}', rest);
        let close = run.len() as int;
        assert(s[0] == '\\' && s[1] == 'u' && s[2] == '{');
        assert(s.subrange(3, close) =~= digits);
        assert(s.skip(close + 1) =~= rest);
        assert(is_code_point(n));
        assert((n as u32) as char == c);
    }
}

/// Escaping loses nothing: the escaped form of a text reads back as the
/// text.
pub proof fn lemma_unescape_escape(text: Seq<char>)
    ensures
        unescape(escape_text(text)) == Some(text),
    decreases text.len(),
{
    if text.len() == 0 {
    } else {
        lemma_escape_first(text);
        lemma_unescape_escape(text.drop_first());
        lemma_unescape_char(text.first(), escape_text(text.drop_first()));
        assert(text =~= seq![text.first()] + text.drop_first());
    }
}

} // verus!
