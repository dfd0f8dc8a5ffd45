//! The wire format: one visual record, or the order to clear a surface, as
//! one line of text in the shape of an object.

use vstd::prelude::*;
use vstd::string::StringExecFns;
use crate::escape::{
    closing_quote, escape_text, lemma_escape_concat, lemma_escaped_is_printable,
    lemma_literal_ends_where_written, lemma_unescape_escape, push_escaped, unescape,
};
use crate::record::{
    alignment_code, lemma_number_is_printable, lemma_style_names_are_printable, line_style_name,
    is_number_text, optional_text, point_style_name, valid_record, valid_visual, Color, LineStyle, Number,
    PointStyle, Visual, VisualRecord, VisualRecordView, VisualView,
};
use crate::text::{
    all_printable, decimal, hex_upper_fixed, lemma_numerals_are_printable, push_decimal,
    push_hex_upper_fixed,
};

verus! {

/// A free text as a string literal: escaped, between double quotes.
pub open spec fn quoted(t: Seq<char>) -> Seq<char> {
    seq!['"'] + escape_text(t) + seq!['"']
}

/// A position: three numbers between square brackets.
pub open spec fn position(x: Seq<char>, y: Seq<char>, z: Seq<char>) -> Seq<char> {
    seq!['['] + x + seq![','] + y + seq![','] + z + seq![']']
}

/// The token of a color: the name of a themed color, or `#` and the eight
/// upper-case hexadecimal digits of an explicit one.
pub open spec fn color_token(c: Color) -> Seq<char> {
    match c {
        Color::Base => "var(--base)"@,
        Color::Healthy => "var(--healthy)"@,
        Color::Error => "var(--error)"@,
        Color::Warn => "var(--warn)"@,
        Color::Info => "var(--info)"@,
        Color::X => "var(--x)"@,
        Color::Y => "var(--y)"@,
        Color::Z => "var(--z)"@,
        Color::Hex(code) => seq!['#'] + hex_upper_fixed(code as nat, 8),
    }
}

/// The number of leading dots of `s`.
pub open spec fn leading_dots(s: Seq<char>) -> nat
    decreases s.len(),
{
    if s.len() > 0 && s.first() == '.' {
        1 + leading_dots(s.drop_first())
    } else {
        0
    }
}

/// Where the logging call stands: the source root, a slash, and the file
/// without its leading dots; the file counts as empty where it is unknown.
pub open spec fn file_locator(root: Seq<char>, file: Option<Seq<char>>) -> Seq<char> {
    let name = match file {
        Some(f) => f.skip(leading_dots(f) as int),
        None => Seq::empty(),
    };
    root + seq!['/'] + name
}

/// The line number as written on the wire: `0` where it is unknown.
pub open spec fn line_number(line: Option<u32>) -> nat {
    match line {
        Some(n) => n as nat,
        None => 0,
    }
}

/// The `meta` object of a record: target, file locator, line and color.
pub open spec fn meta_text(root: Seq<char>, r: VisualRecordView) -> Seq<char> {
    "{\"target\":"@ + quoted(r.target) + ",\"file\":"@ + quoted(file_locator(root, r.file))
        + ",\"line\":"@ + decimal(line_number(r.line)) + ",\"col\":\""@ + color_token(r.color)
        + "\"}"@
}

/// What stands between the text and the surface of an event: nothing for a
/// message; for the others the position or positions and the alignment or
/// style.
pub open spec fn geometry_text(v: VisualView) -> Seq<char> {
    match v {
        VisualView::Message => Seq::empty(),
        VisualView::Label { x, y, z, alignment } => ",\"pos\":"@ + position(x, y, z)
            + ",\"align\":"@ + decimal(alignment_code(alignment) as nat),
        VisualView::Point { x, y, z, style } => ",\"pos\":"@ + position(x, y, z)
            + ",\"style\":\""@ + point_style_name(style) + "\""@,
        VisualView::Line { x1, y1, z1, x2, y2, z2, style } => ",\"pos\":"@ + position(x1, y1, z1)
            + ",\"pos2\":"@ + position(x2, y2, z2) + ",\"style\":\""@ + line_style_name(style)
            + "\""@,
    }
}

/// The key under which an event carries its text.
pub open spec fn text_key(v: VisualView) -> Seq<char> {
    match v {
        VisualView::Message => "{\"msg\":"@,
        _ => "{\"lbl\":"@,
    }
}

/// The size of an event as written on the wire; a message carries none.
pub open spec fn size_text(v: VisualView, size: Seq<char>) -> Seq<char> {
    match v {
        VisualView::Message => Seq::empty(),
        _ => ",\"size\":"@ + size,
    }
}

/// The wire event of a record, logged from below the source root `root`.
pub open spec fn wire_event(root: Seq<char>, r: VisualRecordView) -> Seq<char> {
    text_key(r.visual) + quoted(r.text) + geometry_text(r.visual) + ",\"surf\":"@ + quoted(
        r.surface,
    ) + size_text(r.visual, r.size) + ",\"meta\":"@ + meta_text(root, r) + "}"@
}

/// The wire event that clears a surface.
pub open spec fn clear_event(surface: Seq<char>) -> Seq<char> {
    "{\"clear\":1,\"surf\":"@ + quoted(surface) + "}"@
}

/// What follows the closing quote of an event's text.
pub open spec fn after_text(root: Seq<char>, r: VisualRecordView) -> Seq<char> {
    geometry_text(r.visual) + ",\"surf\":"@ + quoted(r.surface) + size_text(r.visual, r.size)
        + ",\"meta\":"@ + meta_text(root, r) + "}"@
}

/// The text of an event cannot leave its field and reads back as it was
/// logged: whatever the record holds, the literal that opens after the key
/// ends at the quote written after the escaped text, and its body stands for
/// the record's text.
pub proof fn lemma_text_reads_back(root: Seq<char>, r: VisualRecordView)
    ensures
        wire_event(root, r) == text_key(r.visual) + seq!['"'] + escape_text(r.text) + seq!['"']
            + after_text(root, r),
        closing_quote(escape_text(r.text) + seq!['"'] + after_text(root, r)) == escape_text(
            r.text,
        ).len(),
        unescape(escape_text(r.text)) == Some(r.text),
{
    lemma_literal_ends_where_written(r.text, after_text(root, r));
    lemma_unescape_escape(r.text);
    assert(wire_event(root, r) =~= text_key(r.visual) + seq!['"'] + escape_text(r.text)
        + seq!['"'] + after_text(root, r));
}

/// The surface of the order to clear it cannot leave its field and reads
/// back as it was given.
pub proof fn lemma_surface_reads_back(surface: Seq<char>)
    ensures
        clear_event(surface) == "{\"clear\":1,\"surf\":"@ + seq!['"'] + escape_text(surface)
            + seq!['"'] + "}"@,
        closing_quote(escape_text(surface) + seq!['"'] + "}"@) == escape_text(surface).len(),
        unescape(escape_text(surface)) == Some(surface),
{
    lemma_literal_ends_where_written(surface, "}"@);
    lemma_unescape_escape(surface);
    assert(clear_event(surface) =~= "{\"clear\":1,\"surf\":"@ + seq!['"'] + escape_text(
        surface,
    ) + seq!['"'] + "}"@);
}

/// Two printable texts make a printable text.
pub proof fn lemma_printable_concat(a: Seq<char>, b: Seq<char>)
    requires
        all_printable(a),
        all_printable(b),
    ensures
        all_printable(a + b),
{
}

/// A string literal is printable.
proof fn lemma_quoted_is_printable(t: Seq<char>)
    ensures
        all_printable(quoted(t)),
{
    lemma_escaped_is_printable(t);
}

/// A position is printable.
proof fn lemma_position_is_printable(x: Seq<char>, y: Seq<char>, z: Seq<char>)
    requires
        is_number_text(x),
        is_number_text(y),
        is_number_text(z),
    ensures
        all_printable(position(x, y, z)),
{
    lemma_number_is_printable(x);
    lemma_number_is_printable(y);
    lemma_number_is_printable(z);
}

/// The token of a color is printable.
proof fn lemma_color_is_printable(c: Color)
    ensures
        all_printable(color_token(c)),
{
    reveal_strlit("var(--base)");
    reveal_strlit("var(--healthy)");
    reveal_strlit("var(--error)");
    reveal_strlit("var(--warn)");
    reveal_strlit("var(--info)");
    reveal_strlit("var(--x)");
    reveal_strlit("var(--y)");
    reveal_strlit("var(--z)");
    if let Color::Hex(code) = c {
        lemma_numerals_are_printable(code as nat, 8);
    }
}

/// The `meta` object is printable.
proof fn lemma_meta_is_printable(root: Seq<char>, r: VisualRecordView)
    ensures
        all_printable(meta_text(root, r)),
{
    reveal_strlit("{\"target\":");
    reveal_strlit(",\"file\":");
    reveal_strlit(",\"line\":");
    reveal_strlit(",\"col\":\"");
    reveal_strlit("\"}");
    lemma_quoted_is_printable(r.target);
    lemma_quoted_is_printable(file_locator(root, r.file));
    lemma_numerals_are_printable(line_number(r.line), 0);
    lemma_color_is_printable(r.color);
    let a = "{\"target\":"@ + quoted(r.target);
    lemma_printable_concat("{\"target\":"@, quoted(r.target));
    lemma_printable_concat(a, ",\"file\":"@);
    let b = a + ",\"file\":"@ + quoted(file_locator(root, r.file));
    lemma_printable_concat(a + ",\"file\":"@, quoted(file_locator(root, r.file)));
    lemma_printable_concat(b, ",\"line\":"@);
    let c = b + ",\"line\":"@ + decimal(line_number(r.line));
    lemma_printable_concat(b + ",\"line\":"@, decimal(line_number(r.line)));
    lemma_printable_concat(c, ",\"col\":\""@);
    let d = c + ",\"col\":\""@ + color_token(r.color);
    lemma_printable_concat(c + ",\"col\":\""@, color_token(r.color));
    lemma_printable_concat(d, "\"}"@);
}

/// What stands between the text and the surface is printable.
proof fn lemma_geometry_is_printable(v: VisualView)
    requires
        valid_visual(v),
    ensures
        all_printable(geometry_text(v)),
{
    reveal_strlit(",\"pos\":");
    reveal_strlit(",\"pos2\":");
    reveal_strlit(",\"align\":");
    reveal_strlit(",\"style\":\"");
    reveal_strlit("\"");
    match v {
        VisualView::Message => {},
        VisualView::Label { x, y, z, alignment } => {
            lemma_position_is_printable(x, y, z);
            lemma_numerals_are_printable(alignment_code(alignment) as nat, 0);
            lemma_printable_concat(",\"pos\":"@, position(x, y, z));
            lemma_printable_concat(",\"pos\":"@ + position(x, y, z), ",\"align\":"@);
            lemma_printable_concat(
                ",\"pos\":"@ + position(x, y, z) + ",\"align\":"@,
                decimal(alignment_code(alignment) as nat),
            );
        },
        VisualView::Point { x, y, z, style } => {
            lemma_position_is_printable(x, y, z);
            lemma_style_names_are_printable(style, LineStyle::Simple);
            let a = ",\"pos\":"@ + position(x, y, z);
            lemma_printable_concat(",\"pos\":"@, position(x, y, z));
            lemma_printable_concat(a, ",\"style\":\""@);
            lemma_printable_concat(a + ",\"style\":\""@, point_style_name(style));
            lemma_printable_concat(a + ",\"style\":\""@ + point_style_name(style), "\""@);
        },
        VisualView::Line { x1, y1, z1, x2, y2, z2, style } => {
            lemma_position_is_printable(x1, y1, z1);
            lemma_position_is_printable(x2, y2, z2);
            lemma_style_names_are_printable(PointStyle::Point, style);
            let a = ",\"pos\":"@ + position(x1, y1, z1);
            lemma_printable_concat(",\"pos\":"@, position(x1, y1, z1));
            lemma_printable_concat(a, ",\"pos2\":"@);
            let b = a + ",\"pos2\":"@ + position(x2, y2, z2);
            lemma_printable_concat(a + ",\"pos2\":"@, position(x2, y2, z2));
            lemma_printable_concat(b, ",\"style\":\""@);
            lemma_printable_concat(b + ",\"style\":\""@, line_style_name(style));
            lemma_printable_concat(b + ",\"style\":\""@ + line_style_name(style), "\""@);
        },
    }
}

/// A wire event is one line of printable ASCII: whatever the texts of the
/// record hold, the event holds no line break, no other control character
/// and nothing outside ASCII, and so takes one byte per character.
pub proof fn lemma_event_is_printable(root: Seq<char>, r: VisualRecordView)
    requires
        valid_record(r),
    ensures
        all_printable(wire_event(root, r)),
{
    reveal_strlit("{\"msg\":");
    reveal_strlit("{\"lbl\":");
    reveal_strlit(",\"surf\":");
    reveal_strlit(",\"size\":");
    reveal_strlit(",\"meta\":");
    reveal_strlit("}");
    lemma_quoted_is_printable(r.text);
    lemma_geometry_is_printable(r.visual);
    lemma_quoted_is_printable(r.surface);
    lemma_number_is_printable(r.size);
    lemma_meta_is_printable(root, r);
    assert(all_printable(size_text(r.visual, r.size))) by {
        lemma_printable_concat(",\"size\":"@, r.size);
    }
    let a = text_key(r.visual) + quoted(r.text);
    lemma_printable_concat(text_key(r.visual), quoted(r.text));
    let b = a + geometry_text(r.visual);
    lemma_printable_concat(a, geometry_text(r.visual));
    lemma_printable_concat(b, ",\"surf\":"@);
    let c = b + ",\"surf\":"@ + quoted(r.surface);
    lemma_printable_concat(b + ",\"surf\":"@, quoted(r.surface));
    let d = c + size_text(r.visual, r.size);
    lemma_printable_concat(c, size_text(r.visual, r.size));
    lemma_printable_concat(d, ",\"meta\":"@);
    let e = d + ",\"meta\":"@ + meta_text(root, r);
    lemma_printable_concat(d + ",\"meta\":"@, meta_text(root, r));
    lemma_printable_concat(e, "}"@);
}

/// The order to clear a surface is one line of printable ASCII.
pub proof fn lemma_clear_event_is_printable(surface: Seq<char>)
    ensures
        all_printable(clear_event(surface)),
{
    reveal_strlit("{\"clear\":1,\"surf\":");
    reveal_strlit("}");
    lemma_quoted_is_printable(surface);
    lemma_printable_concat("{\"clear\":1,\"surf\":"@, quoted(surface));
    lemma_printable_concat("{\"clear\":1,\"surf\":"@ + quoted(surface), "}"@);
}

/// Appends `t` as a string literal.
fn push_quoted(out: &mut String, t: &str)
    ensures
        final(out)@ == old(out)@ + quoted(t@),
{
    out.push('"');
    push_escaped(out, t);
    out.push('"');
    assert(out@ == old(out)@ + quoted(t@));
}

/// Appends a position.
fn push_position(out: &mut String, x: &Number, y: &Number, z: &Number)
    ensures
        final(out)@ == old(out)@ + position(x@, y@, z@),
        is_number_text(x@) && is_number_text(y@) && is_number_text(z@),
{
    out.push('[');
    out.append(x.as_str());
    out.push(',');
    out.append(y.as_str());
    out.push(',');
    out.append(z.as_str());
    out.push(']');
    assert(out@ == old(out)@ + position(x@, y@, z@));
}

/// Appends the token of a color.
fn push_color(out: &mut String, color: Color)
    ensures
        final(out)@ == old(out)@ + color_token(color),
{
    match color {
        Color::Base => out.append("var(--base)"),
        Color::Healthy => out.append("var(--healthy)"),
        Color::Error => out.append("var(--error)"),
        Color::Warn => out.append("var(--warn)"),
        Color::Info => out.append("var(--info)"),
        Color::X => out.append("var(--x)"),
        Color::Y => out.append("var(--y)"),
        Color::Z => out.append("var(--z)"),
        Color::Hex(code) => {
            out.push('#');
            push_hex_upper_fixed(out, code, 8);
            assert(out@ == old(out)@ + color_token(color));
        },
    }
}

/// Appends `file` without its leading dots, escaped.
fn push_escaped_without_leading_dots(out: &mut String, file: &str)
    ensures
        final(out)@ == old(out)@ + escape_text(file@.skip(leading_dots(file@) as int)),
{
    let mut rest = String::new();
    let mut leading = true;
    assert(file@.skip(0) == file@);
    for c in it: file.chars()
        invariant
            it.seq() == file@,
            leading ==> leading_dots(file@) == it.index() + leading_dots(
                file@.skip(it.index() as int),
            ) && rest@.len() == 0,
            !leading ==> leading_dots(file@) <= it.index() && rest@ == file@.subrange(
                leading_dots(file@) as int,
                it.index() as int,
            ),
    {
        proof {
            let k = it.index() as int;
            assert(file@.skip(k).drop_first() == file@.skip(k + 1));
            assert(file@.skip(k).first() == file@[k]);
        }
        if leading && c == '.' {
        } else {
            leading = false;
            rest.push(c);
        }
    }
    proof {
        let n = file@.len() as int;
        assert(file@.skip(n).len() == 0);
        assert(file@.subrange(leading_dots(file@) as int, n) == file@.skip(
            leading_dots(file@) as int,
        ));
    }
    push_escaped(out, rest.as_str());
}

/// Appends where the logging call stands, as a string literal.
fn push_locator(out: &mut String, root: &str, file: &Option<String>)
    ensures
        final(out)@ == old(out)@ + quoted(file_locator(root@, optional_text(*file))),
{
    let ghost file_text = optional_text(*file);
    out.push('"');
    push_escaped(out, root);
    push_escaped_char_slash(out);
    match file {
        Some(f) => push_escaped_without_leading_dots(out, f.as_str()),
        None => {},
    }
    out.push('"');
    proof {
        lemma_escape_locator(root@, file_text);
        assert(out@ =~= old(out)@ + quoted(file_locator(root@, file_text)));
    }
}

/// Appends the `meta` object of a record.
fn push_meta(out: &mut String, root: &str, record: &VisualRecord)
    ensures
        final(out)@ == old(out)@ + meta_text(root@, record@),
{
    let ghost start = out@;
    out.append("{\"target\":");
    let ghost mut acc = "{\"target\":"@;
    push_quoted(out, record.target.as_str());
    proof {
        acc = acc + quoted(record@.target);
        assert(out@ =~= start + acc);
    }
    out.append(",\"file\":");
    proof {
        acc = acc + ",\"file\":"@;
        assert(out@ =~= start + acc);
    }
    push_locator(out, root, &record.file);
    proof {
        acc = acc + quoted(file_locator(root@, record@.file));
        assert(out@ =~= start + acc);
    }
    out.append(",\"line\":");
    proof {
        acc = acc + ",\"line\":"@;
        assert(out@ =~= start + acc);
    }
    match record.line {
        Some(n) => push_decimal(out, n),
        None => push_decimal(out, 0),
    }
    proof {
        acc = acc + decimal(line_number(record@.line));
        assert(out@ =~= start + acc);
    }
    out.append(",\"col\":\"");
    proof {
        acc = acc + ",\"col\":\""@;
        assert(out@ =~= start + acc);
    }
    push_color(out, record.color);
    proof {
        acc = acc + color_token(record@.color);
        assert(out@ =~= start + acc);
    }
    out.append("\"}");
    proof {
        acc = acc + "\"}"@;
        assert(out@ =~= start + acc);
        assert(acc == meta_text(root@, record@));
    }
}

/// Appends a slash, which escaping leaves as it is.
fn push_escaped_char_slash(out: &mut String)
    ensures
        final(out)@ == old(out)@ + escape_text(seq!['/']),
{
    out.push('/');
    proof {
        reveal_with_fuel(escape_text, 2);
        assert(escape_text(seq!['/']) =~= seq!['/']);
    }
}

/// The escaped file locator is the escaped root, a slash and the escaped
/// file name.
proof fn lemma_escape_locator(root: Seq<char>, file: Option<Seq<char>>)
    ensures
        escape_text(file_locator(root, file)) == escape_text(root) + escape_text(seq!['/']) + (
        match file {
            Some(f) => escape_text(f.skip(leading_dots(f) as int)),
            None => Seq::empty(),
        }),
{
    let name = match file {
        Some(f) => f.skip(leading_dots(f) as int),
        None => Seq::empty(),
    };
    lemma_escape_concat(root, seq!['/']);
    lemma_escape_concat(root + seq!['/'], name);
}

/// Appends a key, a position and what opens the alignment or style.
fn push_placed(out: &mut String, key: &str, x: &Number, y: &Number, z: &Number, next: &str)
    ensures
        final(out)@ == old(out)@ + (key@ + position(x@, y@, z@) + next@),
        is_number_text(x@) && is_number_text(y@) && is_number_text(z@),
{
    out.append(key);
    push_position(out, x, y, z);
    out.append(next);
    assert(out@ =~= old(out)@ + (key@ + position(x@, y@, z@) + next@));
}

/// Appends what stands between the text and the surface of an event.
fn push_geometry(out: &mut String, visual: &Visual)
    ensures
        final(out)@ == old(out)@ + geometry_text(visual@),
        valid_visual(visual@),
{
    let ghost start = out@;
    match visual {
        Visual::Message => {
            assert(out@ =~= start + geometry_text(visual@));
        },
        Visual::Label { x, y, z, alignment } => {
            push_placed(out, ",\"pos\":", x, y, z, ",\"align\":");
            let ghost acc = ",\"pos\":"@ + position(x@, y@, z@) + ",\"align\":"@;
            let code: u32 = alignment.code() as u32;
            push_decimal(out, code);
            assert(out@ =~= start + (acc + decimal(code as nat)));
        },
        Visual::Point { x, y, z, style } => {
            push_placed(out, ",\"pos\":", x, y, z, ",\"style\":\"");
            let ghost acc = ",\"pos\":"@ + position(x@, y@, z@) + ",\"style\":\""@;
            out.append(style.name());
            assert(out@ =~= start + (acc + point_style_name(*style)));
            out.append("\"");
            assert(out@ =~= start + (acc + point_style_name(*style) + "\""@));
        },
        Visual::Line { x1, y1, z1, x2, y2, z2, style } => {
            push_placed(out, ",\"pos\":", x1, y1, z1, ",\"pos2\":");
            let ghost first = ",\"pos\":"@ + position(x1@, y1@, z1@) + ",\"pos2\":"@;
            push_position(out, x2, y2, z2);
            assert(out@ =~= start + (first + position(x2@, y2@, z2@)));
            out.append(",\"style\":\"");
            let ghost acc = first + position(x2@, y2@, z2@) + ",\"style\":\""@;
            assert(out@ =~= start + acc);
            out.append(style.name());
            assert(out@ =~= start + (acc + line_style_name(*style)));
            out.append("\"");
            assert(out@ =~= start + (acc + line_style_name(*style) + "\""@));
        },
    }
}

/// Encodes a record as its wire event, which is one line of printable
/// ASCII.
pub fn encode(root: &str, record: &VisualRecord) -> (event: String)
    ensures
        event@ == wire_event(root@, record@),
        all_printable(event@),
{
    let mut out = String::new();
    match &record.visual {
        Visual::Message => out.append("{\"msg\":"),
        _ => out.append("{\"lbl\":"),
    }
    let ghost mut acc = text_key(record@.visual);
    assert(out@ =~= acc);
    push_quoted(&mut out, record.text.as_str());
    proof {
        acc = acc + quoted(record@.text);
        assert(out@ =~= acc);
    }
    push_geometry(&mut out, &record.visual);
    proof {
        acc = acc + geometry_text(record@.visual);
        assert(out@ =~= acc);
    }
    out.append(",\"surf\":");
    proof {
        acc = acc + ",\"surf\":"@;
        assert(out@ =~= acc);
    }
    push_quoted(&mut out, record.surface.as_str());
    proof {
        acc = acc + quoted(record@.surface);
        assert(out@ =~= acc);
    }
    push_size(&mut out, record);
    proof {
        acc = acc + size_text(record@.visual, record@.size);
        assert(out@ =~= acc);
    }
    out.append(",\"meta\":");
    proof {
        acc = acc + ",\"meta\":"@;
        assert(out@ =~= acc);
    }
    push_meta(&mut out, root, record);
    proof {
        acc = acc + meta_text(root@, record@);
        assert(out@ =~= acc);
    }
    out.append("}");
    proof {
        acc = acc + "}"@;
        assert(out@ =~= acc);
        assert(acc == wire_event(root@, record@));
        lemma_event_is_printable(root@, record@);
    }
    out
}

/// Appends the size of an event, unless it is a message.
fn push_size(out: &mut String, record: &VisualRecord)
    ensures
        final(out)@ == old(out)@ + size_text(record@.visual, record@.size),
        is_number_text(record@.size),
{
    let size = record.size.as_str();
    match &record.visual {
        Visual::Message => {
            assert(out@ =~= old(out)@ + size_text(record@.visual, record@.size));
        },
        _ => {
            out.append(",\"size\":");
            out.append(size);
            assert(out@ =~= old(out)@ + size_text(record@.visual, record@.size));
        },
    }
}

/// Encodes the order to clear a surface, which is one line of printable
/// ASCII.
pub fn encode_clear(surface: &str) -> (event: String)
    ensures
        event@ == clear_event(surface@),
        all_printable(event@),
{
    let mut out = String::from_str("{\"clear\":1,\"surf\":");
    push_quoted(&mut out, surface);
    out.append("}");
    proof {
        lemma_clear_event_is_printable(surface@);
    }
    out
}

} // verus!
