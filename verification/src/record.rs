//! The visual record: what one logging call hands to the encoder.

use vstd::prelude::*;
use crate::text::{all_printable, is_printable};

verus! {

/// The color of a visual: a themed color chosen by the viewer, or an explicit
/// one whose most significant byte is red and whose least significant byte is
/// alpha.
#[derive(Clone, Copy, Debug, PartialEq, Eq, Structural)]
pub enum Color {
    Base,
    Healthy,
    Error,
    Warn,
    Info,
    X,
    Y,
    Z,
    Hex(u32),
}

/// Where a label's text lies relative to its position.
#[derive(Clone, Copy, Debug, PartialEq, Eq, Structural)]
pub enum TextAlignment {
    Left,
    Center,
    Right,
    Flexible,
}

/// How a point is drawn.
#[derive(Clone, Copy, Debug, PartialEq, Eq, Structural)]
pub enum PointStyle {
    FilledCircle,
    Circle,
    DashedCircle,
    FilledSquare,
    Square,
    DashedSquare,
    Point,
    PointOutline,
    PointSquare,
    PointSquareOutline,
    PointCross,
    PointDiamond,
    PointDiamondOutline,
}

/// How a line is drawn.
#[derive(Clone, Copy, Debug, PartialEq, Eq, Structural)]
pub enum LineStyle {
    Simple,
    Dashed,
    Arrow,
    InsideHarpoonCCW,
    InsideHarpoonCW,
}

/// The number that stands for an alignment on the wire.
pub open spec fn alignment_code(a: TextAlignment) -> u8 {
    match a {
        TextAlignment::Left => 0,
        TextAlignment::Center => 1,
        TextAlignment::Right => 2,
        TextAlignment::Flexible => 3,
    }
}

/// The tag that stands for a point style on the wire.
pub open spec fn point_style_name(s: PointStyle) -> Seq<char> {
    match s {
        PointStyle::FilledCircle => "FilledCircle"@,
        PointStyle::Circle => "Circle"@,
        PointStyle::DashedCircle => "DashedCircle"@,
        PointStyle::FilledSquare => "FilledSquare"@,
        PointStyle::Square => "Square"@,
        PointStyle::DashedSquare => "DashedSquare"@,
        PointStyle::Point => "Point"@,
        PointStyle::PointOutline => "PointOutline"@,
        PointStyle::PointSquare => "PointSquare"@,
        PointStyle::PointSquareOutline => "PointSquareOutline"@,
        PointStyle::PointCross => "PointCross"@,
        PointStyle::PointDiamond => "PointDiamond"@,
        PointStyle::PointDiamondOutline => "PointDiamondOutline"@,
    }
}

/// The tag that stands for a line style on the wire.
pub open spec fn line_style_name(s: LineStyle) -> Seq<char> {
    match s {
        LineStyle::Simple => "Simple"@,
        LineStyle::Dashed => "Dashed"@,
        LineStyle::Arrow => "Arrow"@,
        LineStyle::InsideHarpoonCCW => "InsideHarpoonCCW"@,
        LineStyle::InsideHarpoonCW => "InsideHarpoonCW"@,
    }
}

/// The tags of styles are printable.
pub proof fn lemma_style_names_are_printable(p: PointStyle, l: LineStyle)
    ensures
        all_printable(point_style_name(p)),
        all_printable(line_style_name(l)),
{
    reveal_strlit("FilledCircle");
    reveal_strlit("Circle");
    reveal_strlit("DashedCircle");
    reveal_strlit("FilledSquare");
    reveal_strlit("Square");
    reveal_strlit("DashedSquare");
    reveal_strlit("Point");
    reveal_strlit("PointOutline");
    reveal_strlit("PointSquare");
    reveal_strlit("PointSquareOutline");
    reveal_strlit("PointCross");
    reveal_strlit("PointDiamond");
    reveal_strlit("PointDiamondOutline");
    reveal_strlit("Simple");
    reveal_strlit("Dashed");
    reveal_strlit("Arrow");
    reveal_strlit("InsideHarpoonCCW");
    reveal_strlit("InsideHarpoonCW");
}

/// The text of a number is printable.
pub proof fn lemma_number_is_printable(s: Seq<char>)
    requires
        is_number_text(s),
    ensures
        all_printable(s),
{
    assert forall|i: int| 0 <= i < s.len() implies is_printable(#[trigger] s[i]) by {
        assert(is_number_char(s[i]));
    }
}

impl TextAlignment {
    /// The number that stands for this alignment on the wire.
    pub fn code(&self) -> (c: u8)
        ensures
            c == alignment_code(*self),
    {
        match self {
            TextAlignment::Left => 0,
            TextAlignment::Center => 1,
            TextAlignment::Right => 2,
            TextAlignment::Flexible => 3,
        }
    }
}

impl PointStyle {
    /// The tag that stands for this style on the wire.
    pub fn name(&self) -> (n: &'static str)
        ensures
            n@ == point_style_name(*self),
    {
        match self {
            PointStyle::FilledCircle => "FilledCircle",
            PointStyle::Circle => "Circle",
            PointStyle::DashedCircle => "DashedCircle",
            PointStyle::FilledSquare => "FilledSquare",
            PointStyle::Square => "Square",
            PointStyle::DashedSquare => "DashedSquare",
            PointStyle::Point => "Point",
            PointStyle::PointOutline => "PointOutline",
            PointStyle::PointSquare => "PointSquare",
            PointStyle::PointSquareOutline => "PointSquareOutline",
            PointStyle::PointCross => "PointCross",
            PointStyle::PointDiamond => "PointDiamond",
            PointStyle::PointDiamondOutline => "PointDiamondOutline",
        }
    }
}

impl LineStyle {
    /// The tag that stands for this style on the wire.
    pub fn name(&self) -> (n: &'static str)
        ensures
            n@ == line_style_name(*self),
    {
        match self {
            LineStyle::Simple => "Simple",
            LineStyle::Dashed => "Dashed",
            LineStyle::Arrow => "Arrow",
            LineStyle::InsideHarpoonCCW => "InsideHarpoonCCW",
            LineStyle::InsideHarpoonCW => "InsideHarpoonCW",
        }
    }
}

/// Whether `c` may stand in the text of a number: an ASCII letter or digit, a
/// sign or the decimal point.
pub open spec fn is_number_char(c: char) -> bool {
    let u = c as u32;
    ||| 0x30 <= u <= 0x39
    ||| 0x41 <= u <= 0x5A
    ||| 0x61 <= u <= 0x7A
    ||| c == '.'
    ||| c == '+'
    ||| c == '-'
}

/// Whether `s` can be the text of a number: not empty, and made of number
/// characters only.
pub open spec fn is_number_text(s: Seq<char>) -> bool {
    s.len() > 0 && forall|i: int| 0 <= i < s.len() ==> is_number_char(#[trigger] s[i])
}

/// A coordinate or a size, held as the text it is written with.
pub struct Number {
    text: String,
}

impl View for Number {
    type V = Seq<char>;

    closed spec fn view(&self) -> Seq<char> {
        self.text@
    }
}

impl Number {
    #[verifier::type_invariant]
    closed spec fn inv(&self) -> bool {
        is_number_text(self.text@)
    }

    /// Takes `text` as a number if it can be one.
    pub fn parse(text: &str) -> (n: Option<Number>)
        ensures
            n is Some <==> is_number_text(text@),
            n matches Some(number) ==> number@ == text@,
    {
        let mut count: usize = 0;
        for c in it: text.chars()
            invariant
                it.seq() == text@,
                forall|i: int| 0 <= i < it.index() ==> is_number_char(#[trigger] text@[i]),
                count == 0 <==> it.index() == 0,
        {
            let u: u32 = c as u32;
            let ok = (0x30 <= u && u <= 0x39) || (0x41 <= u && u <= 0x5A) || (0x61 <= u && u
                <= 0x7A) || c == '.' || c == '+' || c == '-';
            if !ok {
                assert(!is_number_char(text@[it.index() as int]));
                return None;
            }
            count = 1;
        }
        if count == 0 {
            return None;
        }
        Some(Number { text: text.to_owned() })
    }

    /// The number `0`.
    pub fn zero() -> (n: Number)
        ensures
            n@ == seq!['0'],
    {
        proof {
            reveal_strlit("0");
            assert("0"@ =~= seq!['0']);
        }
        Number { text: "0".to_owned() }
    }

    /// The text the number is written with.
    pub fn as_str(&self) -> (s: &str)
        ensures
            s@ == self@,
            is_number_text(s@),
    {
        proof {
            use_type_invariant(self);
        }
        self.text.as_str()
    }

    /// A copy of the number.
    pub fn duplicate(&self) -> (n: Number)
        ensures
            n@ == self@,
    {
        proof {
            use_type_invariant(self);
        }
        Number { text: self.text.clone() }
    }
}

/// The shape of a visual.
#[allow(inconsistent_fields)]
pub enum Visual {
    /// A message without a place.
    Message,
    /// The record's text at a position.
    Label { x: Number, y: Number, z: Number, alignment: TextAlignment },
    /// A marker at a position.
    Point { x: Number, y: Number, z: Number, style: PointStyle },
    /// A segment between two positions.
    Line { x1: Number, y1: Number, z1: Number, x2: Number, y2: Number, z2: Number, style: LineStyle },
}

/// The shape of a visual, its numbers as the texts they are written with.
#[allow(inconsistent_fields)]
pub enum VisualView {
    Message,
    Label { x: Seq<char>, y: Seq<char>, z: Seq<char>, alignment: TextAlignment },
    Point { x: Seq<char>, y: Seq<char>, z: Seq<char>, style: PointStyle },
    Line {
        x1: Seq<char>,
        y1: Seq<char>,
        z1: Seq<char>,
        x2: Seq<char>,
        y2: Seq<char>,
        z2: Seq<char>,
        style: LineStyle,
    },
}

impl View for Visual {
    type V = VisualView;

    open spec fn view(&self) -> VisualView {
        match *self {
            Visual::Message => VisualView::Message,
            Visual::Label { x, y, z, alignment } => VisualView::Label {
                x: x@,
                y: y@,
                z: z@,
                alignment,
            },
            Visual::Point { x, y, z, style } => VisualView::Point { x: x@, y: y@, z: z@, style },
            Visual::Line { x1, y1, z1, x2, y2, z2, style } => VisualView::Line {
                x1: x1@,
                y1: y1@,
                z1: z1@,
                x2: x2@,
                y2: y2@,
                z2: z2@,
                style,
            },
        }
    }
}

/// Whether the numbers of a visual can be the texts of numbers.
pub open spec fn valid_visual(v: VisualView) -> bool {
    match v {
        VisualView::Message => true,
        VisualView::Label { x, y, z, .. } => is_number_text(x) && is_number_text(y)
            && is_number_text(z),
        VisualView::Point { x, y, z, .. } => is_number_text(x) && is_number_text(y)
            && is_number_text(z),
        VisualView::Line { x1, y1, z1, x2, y2, z2, .. } => is_number_text(x1) && is_number_text(y1)
            && is_number_text(z1) && is_number_text(x2) && is_number_text(y2) && is_number_text(
            z2,
        ),
    }
}

/// Whether the numbers of a record can be the texts of numbers, as those of
/// every record are.
pub open spec fn valid_record(r: VisualRecordView) -> bool {
    is_number_text(r.size) && valid_visual(r.visual)
}

/// The text of a string that may be missing.
pub open spec fn optional_text(s: Option<String>) -> Option<Seq<char>> {
    match s {
        Some(t) => Some(t@),
        None => None,
    }
}

/// One visual log event as a logging call made it.
pub struct VisualRecord {
    /// The tag of the event's origin, matched against the whitelist.
    pub target: String,
    /// The surface the event is drawn on.
    pub surface: String,
    /// The message or label text.
    pub text: String,
    pub color: Color,
    pub visual: Visual,
    /// The size the visual is drawn with.
    pub size: Number,
    /// The source file of the logging call, if known.
    pub file: Option<String>,
    /// The line of the logging call, if known.
    pub line: Option<u32>,
}

/// A visual record with its texts as sequences of characters.
pub struct VisualRecordView {
    pub target: Seq<char>,
    pub surface: Seq<char>,
    pub text: Seq<char>,
    pub color: Color,
    pub visual: VisualView,
    pub size: Seq<char>,
    pub file: Option<Seq<char>>,
    pub line: Option<u32>,
}

impl View for VisualRecord {
    type V = VisualRecordView;

    open spec fn view(&self) -> VisualRecordView {
        VisualRecordView {
            target: self.target@,
            surface: self.surface@,
            text: self.text@,
            color: self.color,
            visual: self.visual@,
            size: self.size@,
            file: optional_text(self.file),
            line: self.line,
        }
    }
}

} // verus!
