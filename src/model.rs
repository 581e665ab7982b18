//! Style descriptors of a cell: font, fill, number format and borders, with
//! structural equality by their views.
use vstd::prelude::*;
use crate::db::Internable;

verus! {

/// One side of a cell border: the side's element name, a style name and a colour.
#[derive(Debug)]
pub struct Border {
    pub type_: String,
    pub style: String,
    pub color: String,
}

pub struct BorderView {
    pub type_: Seq<char>,
    pub style: Seq<char>,
    pub color: Seq<char>,
}

impl View for Border {
    type V = BorderView;

    open spec fn view(&self) -> BorderView {
        BorderView { type_: self.type_@, style: self.style@, color: self.color@ }
    }
}

impl Internable for Border {
    fn same(&self, other: &Self) -> (r: bool) {
        let r = self.type_ == other.type_ && self.style == other.style && self.color == other.color;
        r
    }

    fn duplicate(&self) -> (r: Self) {
        Border { type_: self.type_.clone(), style: self.style.clone(), color: self.color.clone() }
    }
}

impl Border {
    /// A side with no style and no colour.
    pub fn plain(type_: String) -> (r: Border)
        ensures
            r@.type_ == type_@,
            r@.style == Seq::<char>::empty(),
            r@.color == Seq::<char>::empty(),
    {
        Border { type_, style: String::new(), color: String::new() }
    }
}

/// The four sides of a cell's border, its diagonal, and which diagonals are drawn.
#[derive(Debug)]
pub struct BorderStyle {
    pub left: Border,
    pub right: Border,
    pub top: Border,
    pub bottom: Border,
    pub diagonal: Border,
    pub diagonal_up: bool,
    pub diagonal_down: bool,
}

pub struct BorderStyleView {
    pub left: BorderView,
    pub right: BorderView,
    pub top: BorderView,
    pub bottom: BorderView,
    pub diagonal: BorderView,
    pub diagonal_up: bool,
    pub diagonal_down: bool,
}

impl View for BorderStyle {
    type V = BorderStyleView;

    open spec fn view(&self) -> BorderStyleView {
        BorderStyleView {
            left: self.left@,
            right: self.right@,
            top: self.top@,
            bottom: self.bottom@,
            diagonal: self.diagonal@,
            diagonal_up: self.diagonal_up,
            diagonal_down: self.diagonal_down,
        }
    }
}

impl Internable for BorderStyle {
    fn same(&self, other: &Self) -> (r: bool) {
        self.left.same(&other.left) && self.right.same(&other.right) && self.top.same(&other.top)
            && self.bottom.same(&other.bottom) && self.diagonal.same(&other.diagonal)
            && self.diagonal_up == other.diagonal_up && self.diagonal_down == other.diagonal_down
    }

    fn duplicate(&self) -> (r: Self) {
        BorderStyle {
            left: self.left.duplicate(),
            right: self.right.duplicate(),
            top: self.top.duplicate(),
            bottom: self.bottom.duplicate(),
            diagonal: self.diagonal.duplicate(),
            diagonal_up: self.diagonal_up,
            diagonal_down: self.diagonal_down,
        }
    }
}

/// A side that draws nothing.
pub open spec fn border_is_plain(b: BorderView) -> bool {
    b.style.len() == 0 && b.color.len() == 0
}

/// A border that draws nothing on any side.
pub open spec fn border_style_is_plain(b: BorderStyleView) -> bool {
    &&& border_is_plain(b.left)
    &&& border_is_plain(b.right)
    &&& border_is_plain(b.top)
    &&& border_is_plain(b.bottom)
    &&& border_is_plain(b.diagonal)
    &&& !b.diagonal_up
    &&& !b.diagonal_down
}

impl BorderStyle {
    /// Whether the border draws nothing.
    pub fn is_plain(&self) -> (r: bool)
        ensures
            r == border_style_is_plain(self@),
    {
        self.left.style.as_str().is_empty() && self.left.color.as_str().is_empty() && self.right.style.as_str().is_empty()
            && self.right.color.as_str().is_empty() && self.top.style.as_str().is_empty() && self.top.color.as_str().is_empty()
            && self.bottom.style.as_str().is_empty() && self.bottom.color.as_str().is_empty()
            && self.diagonal.style.as_str().is_empty() && self.diagonal.color.as_str().is_empty() && !self.diagonal_up
            && !self.diagonal_down
    }
}

/// Font and alignment properties of a cell.
#[derive(Debug)]
pub struct Font {
    pub bold: bool,
    pub italic: bool,
    pub underline: bool,
    pub strike: bool,
    pub size: i32,
    pub color: String,
    pub wrap_text: bool,
    pub align_horizontal: String,
    pub align_vertical: String,
    pub font: String,
}

pub struct FontView {
    pub bold: bool,
    pub italic: bool,
    pub underline: bool,
    pub strike: bool,
    pub size: i32,
    pub color: Seq<char>,
    pub wrap_text: bool,
    pub align_horizontal: Seq<char>,
    pub align_vertical: Seq<char>,
    pub font: Seq<char>,
}

impl View for Font {
    type V = FontView;

    open spec fn view(&self) -> FontView {
        FontView {
            bold: self.bold,
            italic: self.italic,
            underline: self.underline,
            strike: self.strike,
            size: self.size,
            color: self.color@,
            wrap_text: self.wrap_text,
            align_horizontal: self.align_horizontal@,
            align_vertical: self.align_vertical@,
            font: self.font@,
        }
    }
}

impl Internable for Font {
    fn same(&self, other: &Self) -> (r: bool) {
        self.bold == other.bold && self.italic == other.italic && self.underline == other.underline
            && self.strike == other.strike && self.size == other.size && self.color == other.color
            && self.wrap_text == other.wrap_text && self.align_horizontal == other.align_horizontal
            && self.align_vertical == other.align_vertical && self.font == other.font
    }

    fn duplicate(&self) -> (r: Self) {
        Font {
            bold: self.bold,
            italic: self.italic,
            underline: self.underline,
            strike: self.strike,
            size: self.size,
            color: self.color.clone(),
            wrap_text: self.wrap_text,
            align_horizontal: self.align_horizontal.clone(),
            align_vertical: self.align_vertical.clone(),
            font: self.font.clone(),
        }
    }
}

/// A font with every property unset.
pub open spec fn font_is_default(f: FontView) -> bool {
    &&& !f.bold
    &&& !f.italic
    &&& !f.underline
    &&& !f.strike
    &&& f.size == 0
    &&& f.color.len() == 0
    &&& !f.wrap_text
    &&& f.align_horizontal.len() == 0
    &&& f.align_vertical.len() == 0
    &&& f.font.len() == 0
}

/// The alignment attributes that a font asks of its cell's format record, in order.
pub open spec fn alignment_attrs(f: FontView) -> Seq<(Seq<char>, Seq<char>)> {
    let w: Seq<(Seq<char>, Seq<char>)> = if f.wrap_text {
        seq![("wrapText"@, "1"@)]
    } else {
        Seq::empty()
    };
    let h: Seq<(Seq<char>, Seq<char>)> = if f.align_horizontal.len() > 0 {
        seq![("horizontal"@, f.align_horizontal)]
    } else {
        Seq::empty()
    };
    let v: Seq<(Seq<char>, Seq<char>)> = if f.align_vertical.len() > 0 {
        seq![("vertical"@, f.align_vertical)]
    } else {
        Seq::empty()
    };
    w + h + v
}

/// Views of name/value pairs.
pub open spec fn pairs_view(s: Seq<(String, String)>) -> Seq<(Seq<char>, Seq<char>)> {
    s.map_values(|p: (String, String)| (p.0@, p.1@))
}

impl Font {
    /// Whether every property is unset.
    pub fn is_default(&self) -> (r: bool)
        ensures
            r == font_is_default(self@),
    {
        !self.bold && !self.italic && !self.underline && !self.strike && self.size == 0
            && self.color.as_str().is_empty() && !self.wrap_text && self.align_horizontal.as_str().is_empty()
            && self.align_vertical.as_str().is_empty() && self.font.as_str().is_empty()
    }

    /// The alignment attributes (`wrapText`, `horizontal`, `vertical`) that are set.
    pub fn get_alignment_attributes(&self) -> (r: Vec<(String, String)>)
        ensures
            pairs_view(r@) == alignment_attrs(self@),
    {
        let mut r: Vec<(String, String)> = Vec::new();
        if self.wrap_text {
            r.push((String::from_str("wrapText"), String::from_str("1")));
        }
        if !self.align_horizontal.as_str().is_empty() {
            r.push((String::from_str("horizontal"), self.align_horizontal.clone()));
        }
        if !self.align_vertical.as_str().is_empty() {
            r.push((String::from_str("vertical"), self.align_vertical.clone()));
        }
        assert(pairs_view(r@) =~= alignment_attrs(self@));
        r
    }
}

/// The style of a cell: font, fill colour, number format code and border.
#[derive(Debug)]
pub struct CellStyle {
    pub font: Option<Font>,
    pub fill: String,
    pub numfmt: String,
    pub border: BorderStyle,
}

pub struct CellStyleView {
    pub font: Option<FontView>,
    pub fill: Seq<char>,
    pub numfmt: Seq<char>,
    pub border: BorderStyleView,
}

pub open spec fn font_view(f: Option<Font>) -> Option<FontView> {
    match f {
        Some(x) => Some(x@),
        None => None,
    }
}

impl View for CellStyle {
    type V = CellStyleView;

    open spec fn view(&self) -> CellStyleView {
        CellStyleView {
            font: font_view(self.font),
            fill: self.fill@,
            numfmt: self.numfmt@,
            border: self.border@,
        }
    }
}

impl Internable for CellStyle {
    fn same(&self, other: &Self) -> (r: bool) {
        let fonts_same = match (&self.font, &other.font) {
            (Some(a), Some(b)) => a.same(b),
            (None, None) => true,
            _ => false,
        };
        fonts_same && self.fill == other.fill && self.numfmt == other.numfmt && self.border.same(
            &other.border,
        )
    }

    fn duplicate(&self) -> (r: Self) {
        let font = match &self.font {
            Some(f) => Some(f.duplicate()),
            None => None,
        };
        CellStyle {
            font,
            fill: self.fill.clone(),
            numfmt: self.numfmt.clone(),
            border: self.border.duplicate(),
        }
    }
}

/// Whether the format code holds `yy`, which marks a date format.
pub open spec fn has_yy(s: Seq<char>) -> bool {
    exists|i: int| 0 <= i && i + 1 < s.len() && s[i] == 'y' && #[trigger] s[i + 1] == 'y'
}

/// A style that asks for nothing: no font, fill, number format or border.
pub open spec fn style_is_default(s: CellStyleView) -> bool {
    &&& s.font is None
    &&& s.fill.len() == 0
    &&& s.numfmt.len() == 0
    &&& border_style_is_plain(s.border)
}

impl CellStyle {
    /// Whether the style's number format is a date format, that is holds `yy`.
    pub fn is_date(&self) -> (r: bool)
        ensures
            r == has_yy(self@.numfmt),
    {
        let s = self.numfmt.as_str();
        let n = s.unicode_len();
        if n < 2 {
            return false;
        }
        let mut i: usize = 0;
        while i + 1 < n
            invariant
                n == self@.numfmt.len(),
                s@ == self@.numfmt,
                n >= 2,
                i + 1 <= n,
                forall|j: int| 0 <= j < i ==> !(self@.numfmt[j] == 'y' && #[trigger] self@.numfmt[j + 1] == 'y'),
            decreases n - i,
        {
            if s.get_char(i) == 'y' && s.get_char(i + 1) == 'y' {
                return true;
            }
            i = i + 1;
        }
        false
    }

    /// Whether the style asks for nothing, so that the cell keeps the default style.
    pub fn is_default(&self) -> (r: bool)
        ensures
            r == style_is_default(self@),
    {
        self.font.is_none() && self.fill.as_str().is_empty() && self.numfmt.as_str().is_empty() && self.border.is_plain()
    }
}

} // verus!
