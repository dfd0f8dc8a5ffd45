//! Building blocks for reading and assembling text.

use vstd::prelude::*;

verus! {

/// `String::push` appends the given character to the end of the string.
pub assume_specification[ String::push ](s: &mut String, c: char)
    ensures
        final(s)@ == old(s)@.push(c),
;

/// The character for one hexadecimal digit, letters in lower case.
pub open spec fn hex_digit_lower(d: nat) -> char
    recommends
        d < 16,
{
    if d < 10 {
        (('0' as u32) + d) as char
    } else {
        (('a' as u32) + d - 10) as char
    }
}

/// The character for one hexadecimal digit, letters in upper case.
pub open spec fn hex_digit_upper(d: nat) -> char
    recommends
        d < 16,
{
    if d < 10 {
        (('0' as u32) + d) as char
    } else {
        (('A' as u32) + d - 10) as char
    }
}

/// The shortest lower-case hexadecimal numeral of `n`; `"0"` for zero.
pub open spec fn hex_lower(n: nat) -> Seq<char>
    decreases n,
{
    if n < 16 {
        seq![hex_digit_lower(n)]
    } else {
        hex_lower(n / 16).push(hex_digit_lower(n % 16))
    }
}

/// The upper-case hexadecimal numeral of `n` modulo `16^width`, with exactly
/// `width` digits.
pub open spec fn hex_upper_fixed(n: nat, width: nat) -> Seq<char>
    decreases width,
{
    if width == 0 {
        Seq::empty()
    } else {
        hex_upper_fixed(n / 16, (width - 1) as nat).push(hex_digit_upper(n % 16))
    }
}

/// The shortest decimal numeral of `n`; `"0"` for zero.
pub open spec fn decimal(n: nat) -> Seq<char>
    decreases n,
{
    if n < 10 {
        seq![(('0' as u32) + n) as char]
    } else {
        decimal(n / 10).push((('0' as u32) + n % 10) as char)
    }
}

/// Whether `c` is a printable ASCII character, the space included.
pub open spec fn is_printable(c: char) -> bool {
    0x20 <= (c as u32) <= 0x7e
}

/// Whether `s` holds printable ASCII characters only, so that it fills part
/// of one line and takes one byte per character.
pub open spec fn all_printable(s: Seq<char>) -> bool {
    forall|i: int| 0 <= i < s.len() ==> is_printable(#[trigger] s[i])
}

/// Numerals are printable.
pub proof fn lemma_numerals_are_printable(n: nat, width: nat)
    ensures
        all_printable(decimal(n)),
        all_printable(hex_lower(n)),
        all_printable(hex_upper_fixed(n, width)),
    decreases n + width,
{
    if n >= 10 {
        lemma_numerals_are_printable(n / 10, 0);
    }
    if n >= 16 {
        lemma_numerals_are_printable(n / 16, 0);
    }
    if width > 0 {
        lemma_numerals_are_printable(n / 16, (width - 1) as nat);
        assert(is_printable(hex_digit_upper(n % 16)));
    }
    assert(is_printable(hex_digit_lower(n % 16)));
    if n < 16 {
        assert(is_printable(hex_digit_lower(n)));
    }
}

/// One lower-case hexadecimal digit.
pub(crate) fn hex_digit_lower_char(d: u8) -> (c: char)
    requires
        d < 16,
    ensures
        c == hex_digit_lower(d as nat),
{
    if d < 10 {
        (48u8 + d) as char
    } else {
        (97u8 + (d - 10)) as char
    }
}

/// One upper-case hexadecimal digit.
pub(crate) fn hex_digit_upper_char(d: u8) -> (c: char)
    requires
        d < 16,
    ensures
        c == hex_digit_upper(d as nat),
{
    if d < 10 {
        (48u8 + d) as char
    } else {
        (65u8 + (d - 10)) as char
    }
}

/// Appends the shortest lower-case hexadecimal numeral of `n`.
pub fn push_hex_lower(out: &mut String, n: u32)
    ensures
        final(out)@ == old(out)@ + hex_lower(n as nat),
    decreases n,
{
    if n >= 16 {
        push_hex_lower(out, n / 16);
    }
    out.push(hex_digit_lower_char((n % 16) as u8));
}

/// Appends the `width` lowest hexadecimal digits of `n`, in upper case.
pub fn push_hex_upper_fixed(out: &mut String, n: u32, width: u8)
    ensures
        final(out)@ == old(out)@ + hex_upper_fixed(n as nat, width as nat),
    decreases width,
{
    if width > 0 {
        push_hex_upper_fixed(out, n / 16, width - 1);
        out.push(hex_digit_upper_char((n % 16) as u8));
    }
}

/// Appends the shortest decimal numeral of `n`.
pub fn push_decimal(out: &mut String, n: u32)
    ensures
        final(out)@ == old(out)@ + decimal(n as nat),
    decreases n,
{
    if n >= 10 {
        push_decimal(out, n / 10);
    }
    out.push((48u8 + (n % 10) as u8) as char);
}

/// Whether `c` has the Unicode property `White_Space`.
pub open spec fn is_whitespace(c: char) -> bool {
    let u = c as u32;
    ||| 0x09 <= u <= 0x0D
    ||| u == 0x20
    ||| u == 0x85
    ||| u == 0xA0
    ||| u == 0x1680
    ||| 0x2000 <= u <= 0x200A
    ||| u == 0x2028
    ||| u == 0x2029
    ||| u == 0x202F
    ||| u == 0x205F
    ||| u == 0x3000
}

/// Tests a character for the Unicode property `White_Space`.
pub fn char_is_whitespace(c: char) -> (b: bool)
    ensures
        b == is_whitespace(c),
{
    let u: u32 = c as u32;
    (0x09 <= u && u <= 0x0D) || u == 0x20 || u == 0x85 || u == 0xA0 || u == 0x1680 || (0x2000 <= u
        && u <= 0x200A) || u == 0x2028 || u == 0x2029 || u == 0x202F || u == 0x205F || u == 0x3000
}

/// The number of characters left of `s` once trailing whitespace is removed.
pub open spec fn trimmed_end(s: Seq<char>) -> nat
    decreases s.len(),
{
    if s.len() > 0 && is_whitespace(s.last()) {
        trimmed_end(s.drop_last())
    } else {
        s.len()
    }
}

/// The number of leading whitespace characters of `s`.
pub open spec fn trimmed_start(s: Seq<char>) -> nat
    decreases s.len(),
{
    if s.len() > 0 && is_whitespace(s.first()) {
        1 + trimmed_start(s.drop_first())
    } else {
        0
    }
}

/// `s` without its trailing whitespace.
pub open spec fn trim_end(s: Seq<char>) -> Seq<char> {
    s.take(trimmed_end(s) as int)
}

/// `s` without its leading and trailing whitespace.
pub open spec fn trim(s: Seq<char>) -> Seq<char> {
    let rest = s.skip(trimmed_start(s) as int);
    rest.take(trimmed_end(rest) as int)
}

/// The index of the first `c` in `s`, or the length of `s` when there is none.
pub open spec fn first_index_of(s: Seq<char>, c: char) -> nat
    decreases s.len(),
{
    if s.len() == 0 || s.first() == c {
        0
    } else {
        1 + first_index_of(s.drop_first(), c)
    }
}

/// `first_index_of` is within the text and points at `c` when it is not the end;
/// no `c` lies before it.
pub proof fn lemma_first_index_of(s: Seq<char>, c: char)
    ensures
        first_index_of(s, c) <= s.len(),
        first_index_of(s, c) < s.len() ==> s[first_index_of(s, c) as int] == c,
        forall|i: int| 0 <= i < first_index_of(s, c) ==> s[i] != c,
    decreases s.len(),
{
    if s.len() == 0 || s.first() == c {
    } else {
        let rest = s.drop_first();
        lemma_first_index_of(rest, c);
        assert forall|i: int| 0 <= i < first_index_of(s, c) implies s[i] != c by {
            if i > 0 {
                assert(s[i] == rest[i - 1]);
            }
        }
    }
}

/// `trimmed_start` counts whitespace only and stops at the first character
/// that is none.
pub proof fn lemma_trimmed_start(s: Seq<char>)
    ensures
        trimmed_start(s) <= s.len(),
        forall|i: int| 0 <= i < trimmed_start(s) ==> is_whitespace(s[i]),
        trimmed_start(s) < s.len() ==> !is_whitespace(s[trimmed_start(s) as int]),
    decreases s.len(),
{
    if s.len() > 0 && is_whitespace(s.first()) {
        let rest = s.drop_first();
        lemma_trimmed_start(rest);
        assert forall|i: int| 0 <= i < trimmed_start(s) implies is_whitespace(s[i]) by {
            if i > 0 {
                assert(s[i] == rest[i - 1]);
            }
        }
    }
}

/// `trimmed_end` leaves whitespace only behind it and ends after a character
/// that is none.
pub proof fn lemma_trimmed_end(s: Seq<char>)
    ensures
        trimmed_end(s) <= s.len(),
        forall|i: int| trimmed_end(s) <= i < s.len() ==> is_whitespace(s[i]),
        trimmed_end(s) > 0 ==> !is_whitespace(s[trimmed_end(s) - 1]),
    decreases s.len(),
{
    if s.len() > 0 && is_whitespace(s.last()) {
        let rest = s.drop_last();
        lemma_trimmed_end(rest);
        assert forall|i: int| trimmed_end(s) <= i < s.len() implies is_whitespace(s[i]) by {
            if i < rest.len() {
                assert(s[i] == rest[i]);
            }
        }
        if trimmed_end(s) > 0 {
            assert(s[trimmed_end(s) - 1] == rest[trimmed_end(rest) - 1]);
        }
    }
}

/// The characters of a string slice.
pub fn chars_of(s: &str) -> (v: Vec<char>)
    ensures
        v@ == s@,
{
    let mut v: Vec<char> = Vec::new();
    for c in it: s.chars()
        invariant
            it.seq() == s@,
            v@ == s@.take(it.index() as int),
    {
        v.push(c);
    }
    v
}

/// The text made of the characters `from..to` of `v`.
pub(crate) fn text_of(v: &Vec<char>, from: usize, to: usize) -> (s: String)
    requires
        from <= to <= v.len(),
    ensures
        s@ == v@.subrange(from as int, to as int),
{
    let mut s = String::new();
    let mut i: usize = from;
    while i < to
        invariant
            from <= i <= to <= v.len(),
            s@ == v@.subrange(from as int, i as int),
        decreases to - i,
    {
        s.push(v[i]);
        i += 1;
    }
    s
}

/// The first index at or after `from` where `v` holds `c`, or `to`.
pub(crate) fn find_char(v: &Vec<char>, from: usize, to: usize, c: char) -> (i: usize)
    requires
        from <= to <= v.len(),
    ensures
        i == from + first_index_of(v@.subrange(from as int, to as int), c),
        from <= i <= to,
        i < to ==> v@[i as int] == c,
        forall|j: int| from <= j < i ==> v@[j] != c,
{
    let ghost part = v@.subrange(from as int, to as int);
    proof {
        lemma_first_index_of(part, c);
        assert forall|j: int| from <= j < from + first_index_of(part, c) implies v@[j] != c by {
            assert(part[j - from] == v@[j]);
        }
    }
    let mut i: usize = from;
    while i < to && v[i] != c
        invariant
            from <= i <= to <= v.len(),
            first_index_of(v@.subrange(from as int, to as int), c) == (i - from)
                + first_index_of(v@.subrange(i as int, to as int), c),
        decreases to - i,
    {
        proof {
            let cur = v@.subrange(i as int, to as int);
            assert(cur.drop_first() == v@.subrange(i + 1, to as int));
        }
        i += 1;
    }
    i
}

/// The end of `v[from..to]` once trailing whitespace is removed.
pub(crate) fn trim_end_index(v: &Vec<char>, from: usize, to: usize) -> (end: usize)
    requires
        from <= to <= v.len(),
    ensures
        end == from + trimmed_end(v@.subrange(from as int, to as int)),
        from <= end <= to,
        end > from ==> !is_whitespace(v@[end - 1]),
        forall|j: int| end <= j < to ==> is_whitespace(v@[j]),
{
    let ghost part = v@.subrange(from as int, to as int);
    proof {
        lemma_trimmed_end(part);
        assert forall|j: int| from + trimmed_end(part) <= j < to implies is_whitespace(
            v@[j],
        ) by {
            assert(part[j - from] == v@[j]);
        }
    }
    let mut end: usize = to;
    while end > from && char_is_whitespace(v[end - 1])
        invariant
            from <= end <= to <= v.len(),
            trimmed_end(v@.subrange(from as int, to as int)) == trimmed_end(
                v@.subrange(from as int, end as int),
            ),
        decreases end - from,
    {
        proof {
            let cur = v@.subrange(from as int, end as int);
            assert(cur.drop_last() == v@.subrange(from as int, end - 1));
        }
        end -= 1;
    }
    end
}

/// The start of `v[from..to]` once leading whitespace is removed.
pub(crate) fn trim_start_index(v: &Vec<char>, from: usize, to: usize) -> (start: usize)
    requires
        from <= to <= v.len(),
    ensures
        start == from + trimmed_start(v@.subrange(from as int, to as int)),
        from <= start <= to,
        start < to ==> !is_whitespace(v@[start as int]),
        forall|j: int| from <= j < start ==> is_whitespace(v@[j]),
{
    let ghost part = v@.subrange(from as int, to as int);
    proof {
        lemma_trimmed_start(part);
        assert forall|j: int| from <= j < from + trimmed_start(part) implies is_whitespace(
            v@[j],
        ) by {
            assert(part[j - from] == v@[j]);
        }
    }
    let mut start: usize = from;
    while start < to && char_is_whitespace(v[start])
        invariant
            from <= start <= to <= v.len(),
            trimmed_start(v@.subrange(from as int, to as int)) == (start - from) + trimmed_start(
                v@.subrange(start as int, to as int),
            ),
        decreases to - start,
    {
        proof {
            let cur = v@.subrange(start as int, to as int);
            assert(cur.drop_first() == v@.subrange(start + 1, to as int));
        }
        start += 1;
    }
    start
}

/// Whether `t` begins with `p`.
pub open spec fn is_prefix(p: Seq<char>, t: Seq<char>) -> bool {
    p.len() <= t.len() && t.take(p.len() as int) == p
}

/// Where `word` ends if the characters `from..to` of `v` begin with it.
pub(crate) fn match_prefix(v: &Vec<char>, from: usize, to: usize, word: &str) -> (end: Option<usize>)
    requires
        from <= to <= v.len(),
    ensures
        end is Some <==> is_prefix(word@, v@.subrange(from as int, to as int)),
        end matches Some(e) ==> e == from + word@.len(),
{
    let ghost part = v@.subrange(from as int, to as int);
    let mut i: usize = from;
    for c in it: word.chars()
        invariant
            it.seq() == word@,
            from <= to <= v.len(),
            part == v@.subrange(from as int, to as int),
            i == from + it.index(),
            i <= to,
            part.take(it.index() as int) == word@.take(it.index() as int),
    {
        if i >= to || v[i] != c {
            proof {
                let k = it.index() as int;
                if is_prefix(word@, part) {
                    assert(part.take(word@.len() as int)[k] == word@[k]);
                }
            }
            return None;
        }
        proof {
            let k = it.index() as int;
            assert(part.take(k + 1) == part.take(k).push(part[k]));
            assert(word@.take(k + 1) == word@.take(k).push(word@[k]));
        }
        i += 1;
    }
    proof {
        assert(word@.take(word@.len() as int) == word@);
    }
    Some(i)
}

/// Whether the characters `from..to` of `v` spell `word`.
pub(crate) fn spells(v: &Vec<char>, from: usize, to: usize, word: &str) -> (b: bool)
    requires
        from <= to <= v.len(),
    ensures
        b == (v@.subrange(from as int, to as int) == word@),
{
    let ghost part = v@.subrange(from as int, to as int);
    match match_prefix(v, from, to, word) {
        Some(end) => {
            proof {
                if end == to {
                    assert(part.take(part.len() as int) == part);
                }
            }
            end == to
        },
        None => {
            proof {
                if part == word@ {
                    assert(part.take(part.len() as int) == part);
                }
            }
            false
        },
    }
}

} // verus!
