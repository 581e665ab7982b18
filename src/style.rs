//! Building a cell's style from the keyword list of style properties that
//! follows its value.
use vstd::prelude::*;
use crate::error::ExcelError;
use crate::model::{
    Border, BorderStyle, BorderStyleView, BorderView, CellStyle, CellStyleView, Font, FontView,
    font_is_default, font_view,
};
use crate::term::{Term, get_keyword, keyword_list_ok, kw_get, kw_ok, term_str, term_string};

verus! {

/// A flag is set when its key holds the atom `true`.
pub open spec fn kw_bool(items: Seq<Term>, key: Seq<char>) -> bool {
    match kw_get(items, key) {
        Some(Term::Atom(s)) => s@ == "true"@,
        _ => false,
    }
}

/// A text property: empty when absent, `None` when present but not text.
pub open spec fn kw_text(items: Seq<Term>, key: Seq<char>) -> Option<Seq<char>> {
    match kw_get(items, key) {
        None => Some(Seq::empty()),
        Some(t) => term_str(t),
    }
}

/// The font size: 0 when absent, `None` when present but not an `i32`.
pub open spec fn kw_size(items: Seq<Term>) -> Option<i32> {
    match kw_get(items, "size"@) {
        None => Some(0i32),
        Some(Term::Integer(i)) => if i32::MIN <= i <= i32::MAX {
            Some(i as i32)
        } else {
            None
        },
        _ => None,
    }
}

/// The number format code that the properties ask for; `None` when malformed.
pub open spec fn kw_numfmt(items: Seq<Term>) -> Option<Seq<char>> {
    if kw_get(items, "yyyymmdd"@) is Some {
        Some("yyyy-mm-dd"@)
    } else if kw_get(items, "datetime"@) is Some {
        Some("yyyy-mm-dd h:mm:ss"@)
    } else {
        match kw_get(items, "num_format"@) {
            None => Some(Seq::empty()),
            Some(t) => term_str(t),
        }
    }
}

pub open spec fn font_ok(items: Seq<Term>) -> bool {
    &&& kw_size(items) is Some
    &&& kw_text(items, "color"@) is Some
    &&& kw_text(items, "align_horizontal"@) is Some
    &&& kw_text(items, "align_vertical"@) is Some
    &&& kw_text(items, "font"@) is Some
}

/// The font that the properties describe, for properties with `font_ok`.
pub open spec fn font_of(items: Seq<Term>) -> FontView {
    FontView {
        bold: kw_bool(items, "bold"@),
        italic: kw_bool(items, "italic"@),
        underline: kw_bool(items, "underline"@),
        strike: kw_bool(items, "strike"@),
        size: kw_size(items)->0,
        color: kw_text(items, "color"@)->0,
        wrap_text: kw_bool(items, "wrap_text"@),
        align_horizontal: kw_text(items, "align_horizontal"@)->0,
        align_vertical: kw_text(items, "align_vertical"@)->0,
        font: kw_text(items, "font"@)->0,
    }
}

/// The font entry of a style: none when every font property is unset.
pub open spec fn font_entry(items: Seq<Term>) -> Option<FontView> {
    if font_is_default(font_of(items)) {
        None
    } else {
        Some(font_of(items))
    }
}

/// A border side is absent, or a keyword list with text `style` and `color`.
pub open spec fn side_ok(items: Seq<Term>, side: Seq<char>) -> bool {
    match kw_get(items, side) {
        None => true,
        Some(Term::List(l)) => kw_ok(l@) && kw_text(l@, "style"@) is Some && kw_text(
            l@,
            "color"@,
        ) is Some,
        _ => false,
    }
}

/// The border side named `side`; plain when absent.
pub open spec fn side_of(items: Seq<Term>, side: Seq<char>) -> BorderView {
    match kw_get(items, side) {
        Some(Term::List(l)) => BorderView {
            type_: side,
            style: kw_text(l@, "style"@)->0,
            color: kw_text(l@, "color"@)->0,
        },
        _ => BorderView { type_: side, style: Seq::empty(), color: Seq::empty() },
    }
}

pub open spec fn border_ok(items: Seq<Term>) -> bool {
    &&& side_ok(items, "left"@)
    &&& side_ok(items, "right"@)
    &&& side_ok(items, "top"@)
    &&& side_ok(items, "bottom"@)
    &&& side_ok(items, "diagonal"@)
}

pub open spec fn border_of(items: Seq<Term>) -> BorderStyleView {
    BorderStyleView {
        left: side_of(items, "left"@),
        right: side_of(items, "right"@),
        top: side_of(items, "top"@),
        bottom: side_of(items, "bottom"@),
        diagonal: side_of(items, "diagonal"@),
        diagonal_up: kw_bool(items, "diagonal_up"@),
        diagonal_down: kw_bool(items, "diagonal_down"@),
    }
}

/// The style properties are well formed.
pub open spec fn style_ok(items: Seq<Term>) -> bool {
    &&& kw_ok(items)
    &&& font_ok(items)
    &&& kw_text(items, "bg_color"@) is Some
    &&& kw_numfmt(items) is Some
    &&& border_ok(items)
}

/// The style that well-formed properties describe.
pub open spec fn style_of(items: Seq<Term>) -> CellStyleView {
    CellStyleView {
        font: font_entry(items),
        fill: kw_text(items, "bg_color"@)->0,
        numfmt: kw_numfmt(items)->0,
        border: border_of(items),
    }
}

/// Whether `key` holds the atom `true`.
pub fn get_bool(items: &[Term], key: &str) -> (r: bool)
    ensures
        r == kw_bool(items@, key@),
{
    let t = String::from_str("true");
    proof {
        reveal_strlit("true");
    }
    match get_keyword(items, key) {
        Some(Term::Atom(s)) => *s == t,
        _ => false,
    }
}

/// The text under `key`, empty when the key is absent.
pub fn get_keyword_value(items: &[Term], key: &str) -> (r: Result<String, ExcelError>)
    ensures
        r is Ok <==> kw_text(items@, key@) is Some,
        r is Ok ==> r->Ok_0@ == kw_text(items@, key@)->0,
{
    match get_keyword(items, key) {
        None => Ok(String::new()),
        Some(t) => match term_string(t) {
            Some(s) => Ok(s),
            None => Err(ExcelError::BadArg),
        },
    }
}

fn get_size(items: &[Term]) -> (r: Result<i32, ExcelError>)
    ensures
        r is Ok <==> kw_size(items@) is Some,
        r is Ok ==> r->Ok_0 == kw_size(items@)->0,
{
    match get_keyword(items, "size") {
        None => Ok(0),
        Some(Term::Integer(i)) => if i32::MIN as i64 <= *i && *i <= i32::MAX as i64 {
            Ok(*i as i32)
        } else {
            Err(ExcelError::BadArg)
        },
        _ => Err(ExcelError::BadArg),
    }
}

/// The number format code: `yyyymmdd` and `datetime` flags pick a date format,
/// else `num_format` gives the code, else it is empty.
pub fn get_numfmt(items: &[Term]) -> (r: Result<String, ExcelError>)
    ensures
        r is Ok <==> kw_numfmt(items@) is Some,
        r is Ok ==> r->Ok_0@ == kw_numfmt(items@)->0,
{
    if get_keyword(items, "yyyymmdd").is_some() {
        Ok(String::from_str("yyyy-mm-dd"))
    } else if get_keyword(items, "datetime").is_some() {
        Ok(String::from_str("yyyy-mm-dd h:mm:ss"))
    } else {
        match get_keyword(items, "num_format") {
            None => Ok(String::new()),
            Some(t) => match term_string(t) {
                Some(s) => Ok(s),
                None => Err(ExcelError::BadArg),
            },
        }
    }
}

impl Font {
    /// The font that the properties describe; `None` when every font property is unset.
    pub fn new(items: &[Term]) -> (r: Result<Option<Font>, ExcelError>)
        ensures
            r is Ok <==> font_ok(items@),
            r is Ok ==> font_view(r->Ok_0) == font_entry(items@),
    {
        let size = get_size(items)?;
        let color = get_keyword_value(items, "color")?;
        let align_horizontal = get_keyword_value(items, "align_horizontal")?;
        let align_vertical = get_keyword_value(items, "align_vertical")?;
        let font = get_keyword_value(items, "font")?;
        let re = Font {
            bold: get_bool(items, "bold"),
            italic: get_bool(items, "italic"),
            underline: get_bool(items, "underline"),
            strike: get_bool(items, "strike"),
            size,
            color,
            wrap_text: get_bool(items, "wrap_text"),
            align_horizontal,
            align_vertical,
            font,
        };
        assert(re@ == font_of(items@));
        if re.is_default() {
            Ok(None)
        } else {
            Ok(Some(re))
        }
    }
}

impl Border {
    /// The side named `type_`, from its keyword list of `style` and `color`.
    pub fn new(items: &[Term], type_: String) -> (r: Result<Border, ExcelError>)
        ensures
            r is Ok <==> (kw_text(items@, "style"@) is Some && kw_text(items@, "color"@) is Some),
            r is Ok ==> r->Ok_0@ == (BorderView {
                type_: type_@,
                style: kw_text(items@, "style"@)->0,
                color: kw_text(items@, "color"@)->0,
            }),
    {
        let style = get_keyword_value(items, "style")?;
        let color = get_keyword_value(items, "color")?;
        Ok(Border { type_, style, color })
    }
}

fn get_border(items: &[Term], name: &str) -> (r: Result<Border, ExcelError>)
    ensures
        r is Ok <==> side_ok(items@, name@),
        r is Ok ==> r->Ok_0@ == side_of(items@, name@),
{
    match get_keyword(items, name) {
        None => Ok(Border::plain(String::from_str(name))),
        Some(Term::List(l)) => {
            if !keyword_list_ok(l.as_slice()) {
                return Err(ExcelError::BadArg);
            }
            Border::new(l.as_slice(), String::from_str(name))
        },
        _ => Err(ExcelError::BadArg),
    }
}

impl BorderStyle {
    /// The border that the properties describe; absent sides are plain.
    pub fn new(items: &[Term]) -> (r: Result<BorderStyle, ExcelError>)
        ensures
            r is Ok <==> border_ok(items@),
            r is Ok ==> r->Ok_0@ == border_of(items@),
    {
        let left = get_border(items, "left")?;
        let right = get_border(items, "right")?;
        let top = get_border(items, "top")?;
        let bottom = get_border(items, "bottom")?;
        let diagonal = get_border(items, "diagonal")?;
        Ok(BorderStyle {
            left,
            right,
            top,
            bottom,
            diagonal,
            diagonal_up: get_bool(items, "diagonal_up"),
            diagonal_down: get_bool(items, "diagonal_down"),
        })
    }
}

impl CellStyle {
    /// The style that a keyword list of style properties describes; absent
    /// properties are unset.
    pub fn new(items: &[Term]) -> (r: Result<CellStyle, ExcelError>)
        ensures
            r is Ok <==> style_ok(items@),
            r is Ok ==> r->Ok_0@ == style_of(items@),
    {
        if !keyword_list_ok(items) {
            return Err(ExcelError::BadArg);
        }
        let font = Font::new(items)?;
        let fill = get_keyword_value(items, "bg_color")?;
        let numfmt = get_numfmt(items)?;
        let border = BorderStyle::new(items)?;
        Ok(CellStyle { font, fill, numfmt, border })
    }
}

} // verus!
