//! The styles part: one format record per interned cell style, which interns
//! the style's font, fill, number format and border, then the lists of those.
use vstd::prelude::*;
use crate::db::{DB, id_in, interned};
use crate::model::{
    Border, BorderStyle, BorderStyleView, BorderView, CellStyle, CellStyleView, Font, FontView,
    alignment_attrs, pairs_view,
};
use crate::text::{int_text, nat_text};
use crate::wb_compiler::WorkbookCompInfo;
use crate::xml_writer::{XmlWriter, empty_tag_text, write_int, write_nat, write_xml_empty_tag};

verus! {

/// The tables that the format records fill.
pub struct StyleTables {
    pub fonts: Seq<FontView>,
    pub fills: Seq<Seq<char>>,
    pub numfmts: Seq<Seq<char>>,
    pub borders: Seq<BorderStyleView>,
}

impl WorkbookCompInfo {
    pub open spec fn style_tables(&self) -> StyleTables {
        StyleTables {
            fonts: self.fontdb@,
            fills: self.filldb@,
            numfmts: self.numfmtdb@,
            borders: self.borderstyledb@,
        }
    }
}

/// A colour as written: its first character replaced by `#`.
pub open spec fn argb(c: Seq<char>) -> Seq<char> {
    if c.len() == 0 {
        Seq::empty()
    } else {
        seq!['#'] + c.drop_first()
    }
}

/// The colour as written into the styles part: its first character becomes `#`.
pub fn to_argb_color(color: String) -> (r: String)
    ensures
        r@ == argb(color@),
{
    let n = color.as_str().unicode_len();
    if n == 0 {
        return String::new();
    }
    let mut s = String::from_str("#");
    s.append(color.as_str().substring_char(1, n));
    proof {
        reveal_strlit("#");
    }
    assert(s@ =~= argb(color@));
    s
}

pub open spec fn flag_text(on: bool, t: Seq<char>) -> Seq<char> {
    if on {
        t
    } else {
        Seq::empty()
    }
}

/// A `<font>` record.
pub open spec fn font_xml(f: FontView) -> Seq<char> {
    "<font>"@ + flag_text(f.bold, "<b val=\"1\"/>"@) + flag_text(f.italic, "<i val=\"1\"/>"@)
        + flag_text(f.underline, "<u val=\"single\"/>"@) + flag_text(
        f.strike,
        "<strike val=\"1\"/>"@,
    ) + flag_text(f.size > 0, "<sz val=\""@ + int_text(f.size as int) + "\"/>"@) + flag_text(
        f.color.len() > 0,
        "<color rgb=\""@ + argb(f.color) + "\" />"@,
    ) + flag_text(f.font.len() > 0, "<name val=\""@ + f.font + "\" />"@) + "</font>"@
}

/// Writes `t` when `on` holds.
fn write_flag<W: XmlWriter>(w: &mut W, on: bool, t: &str)
    ensures
        final(w).written() == old(w).written() + flag_text(on, t@),
{
    if on {
        w.write_string(t);
    } else {
        assert(old(w).written() + flag_text(on, t@) =~= old(w).written());
    }
}

/// The size element of a font, when the size is positive.
fn size_part(size: i32) -> (r: String)
    ensures
        r@ == flag_text(size > 0, "<sz val=\""@ + int_text(size as int) + "\"/>"@),
{
    let mut s = String::new();
    if size > 0 {
        s.append("<sz val=\"");
        write_int(&mut s, size as i128);
        s.append("\"/>");
    }
    assert(s@ =~= flag_text(size > 0, "<sz val=\""@ + int_text(size as int) + "\"/>"@));
    s
}

/// The colour element of a record, when a colour is given.
fn color_part(color: &String) -> (r: String)
    ensures
        r@ == flag_text(color@.len() > 0, "<color rgb=\""@ + argb(color@) + "\" />"@),
{
    let mut s = String::new();
    if !color.as_str().is_empty() {
        let c = to_argb_color(color.clone());
        s.append("<color rgb=\"");
        s.append(c.as_str());
        s.append("\" />");
    }
    assert(s@ =~= flag_text(color@.len() > 0, "<color rgb=\""@ + argb(color@) + "\" />"@));
    s
}

/// Writes a `<font>` record: the flags that are set, the size when positive,
/// the colour and the family name when given.
fn write_font<W: XmlWriter>(w: &mut W, font: &Font)
    ensures
        final(w).written() == old(w).written() + font_xml(font@),
{
    let sz = size_part(font.size);
    let color = color_part(&font.color);
    let mut name = String::new();
    if !font.font.as_str().is_empty() {
        name.append("<name val=\"");
        name.append(font.font.as_str());
        name.append("\" />");
    }
    assert(name@ =~= flag_text(font@.font.len() > 0, "<name val=\""@ + font@.font + "\" />"@));
    let mut s = String::from_str("<font>");
    write_flag(&mut s, font.bold, "<b val=\"1\"/>");
    write_flag(&mut s, font.italic, "<i val=\"1\"/>");
    write_flag(&mut s, font.underline, "<u val=\"single\"/>");
    write_flag(&mut s, font.strike, "<strike val=\"1\"/>");
    s.append(sz.as_str());
    s.append(color.as_str());
    s.append(name.as_str());
    s.append("</font>");
    w.write_string(s.as_str());
}

/// A `<fill>` record: a solid pattern of the colour, or nothing.
pub open spec fn fill_xml(fill: Seq<char>) -> Seq<char> {
    "<fill>"@ + flag_text(
        fill.len() > 0,
        "<patternFill patternType=\"solid\"><fgColor rgb=\""@ + argb(fill)
            + "\" /></patternFill>"@,
    ) + "</fill>"@
}

fn write_fill<W: XmlWriter>(w: &mut W, fill: &String)
    ensures
        final(w).written() == old(w).written() + fill_xml(fill@),
{
    w.write_string("<fill>");
    if !fill.as_str().is_empty() {
        let c = to_argb_color(fill.clone());
        w.write_string("<patternFill patternType=\"solid\"><fgColor rgb=\"");
        w.write_string(c.as_str());
        w.write_string("\" /></patternFill>");
    }
    w.write_string("</fill>");
    assert(final(w).written() =~= old(w).written() + fill_xml(fill@));
}

/// The line style token of the format for a style name.
pub open spec fn line_style(s: Seq<char>) -> Seq<char> {
    if s == "dash_dot"@ {
        "dashDot"@
    } else if s == "dash_dot_dot"@ {
        "dashDotDot"@
    } else {
        s
    }
}

/// One side of a border record, named by the side.
pub open spec fn side_xml(b: BorderView) -> Seq<char> {
    "<"@ + b.type_ + flag_text(
        line_style(b.style).len() > 0,
        " style=\""@ + line_style(b.style) + "\""@,
    ) + ">"@ + flag_text(b.color.len() > 0, "<color rgb=\""@ + argb(b.color) + "\" />"@) + "</"@
        + b.type_ + ">"@
}

fn write_border<W: XmlWriter>(w: &mut W, border: &Border)
    ensures
        final(w).written() == old(w).written() + side_xml(border@),
{
    let dash_dot = String::from_str("dash_dot");
    let dash_dot_dot = String::from_str("dash_dot_dot");
    let style = if border.style == dash_dot {
        String::from_str("dashDot")
    } else if border.style == dash_dot_dot {
        String::from_str("dashDotDot")
    } else {
        border.style.clone()
    };
    w.write_string("<");
    w.write_string(border.type_.as_str());
    if !style.as_str().is_empty() {
        w.write_string(" style=\"");
        w.write_string(style.as_str());
        w.write_string("\"");
    }
    w.write_string(">");
    let color = color_part(&border.color);
    w.write_string(color.as_str());
    w.write_string("</");
    w.write_string(border.type_.as_str());
    w.write_string(">");
    assert(final(w).written() =~= old(w).written() + side_xml(border@));
}

pub open spec fn bool_text(b: bool) -> Seq<char> {
    if b {
        "true"@
    } else {
        "false"@
    }
}

/// A `<border>` record: four sides, then the diagonal when one is drawn.
pub open spec fn border_xml(b: BorderStyleView) -> Seq<char> {
    "<border diagonalUp=\""@ + bool_text(b.diagonal_up) + "\" diagonalDown=\""@ + bool_text(
        b.diagonal_down,
    ) + "\">"@ + side_xml(b.left) + side_xml(b.right) + side_xml(b.top) + side_xml(b.bottom) + (
    if b.diagonal_down || b.diagonal_up {
        side_xml(b.diagonal)
    } else {
        "<diagonal></diagonal>"@
    }) + "</border>"@
}

fn bool_str(b: bool) -> (r: &'static str)
    ensures
        r@ == bool_text(b),
{
    if b {
        "true"
    } else {
        "false"
    }
}

fn write_border_style<W: XmlWriter>(w: &mut W, border: &BorderStyle)
    ensures
        final(w).written() == old(w).written() + border_xml(border@),
{
    let mut d = String::new();
    if border.diagonal_down || border.diagonal_up {
        write_border(&mut d, &border.diagonal);
    } else {
        d.append("<diagonal></diagonal>");
    }
    assert(d@ =~= (if border@.diagonal_down || border@.diagonal_up {
        side_xml(border@.diagonal)
    } else {
        "<diagonal></diagonal>"@
    }));
    let mut s = String::from_str("<border diagonalUp=\"");
    s.append(bool_str(border.diagonal_up));
    s.append("\" diagonalDown=\"");
    s.append(bool_str(border.diagonal_down));
    s.append("\">");
    write_border(&mut s, &border.left);
    write_border(&mut s, &border.right);
    write_border(&mut s, &border.top);
    write_border(&mut s, &border.bottom);
    s.append(d.as_str());
    s.append("</border>");
    w.write_string(s.as_str());
}

/// A format record with the given ids and alignment attributes.
pub open spec fn xf_text(
    border_id: nat,
    fill_id: nat,
    font_id: nat,
    numfmt_id: nat,
    align: Seq<(Seq<char>, Seq<char>)>,
) -> Seq<char> {
    "<xf borderId=\""@ + nat_text(border_id) + "\" fillId=\""@ + nat_text(fill_id)
        + "\" fontId=\""@ + nat_text(font_id) + "\" numFmtId=\""@ + nat_text(numfmt_id)
        + "\" xfId=\"0\""@ + (if align.len() > 0 {
        " applyAlignment=\"1\">"@ + empty_tag_text("alignment"@, align) + "</xf>"@
    } else {
        "></xf>"@
    })
}

/// The format record of a cell style, and the tables after interning its
/// font (id + 1), fill (id + 2), number format (id + 164) and border (id).
pub open spec fn xf_step(s: CellStyleView, t: StyleTables) -> (Seq<char>, StyleTables) {
    let fonts = match s.font {
        Some(f) => interned(t.fonts, f),
        None => t.fonts,
    };
    let font_id: nat = match s.font {
        Some(f) => (id_in(fonts, f) + 1) as nat,
        None => 0,
    };
    let fills = if s.fill.len() > 0 {
        interned(t.fills, s.fill)
    } else {
        t.fills
    };
    let fill_id: nat = if s.fill.len() > 0 {
        (id_in(fills, s.fill) + 2) as nat
    } else {
        0
    };
    let numfmts = if s.numfmt.len() > 0 {
        interned(t.numfmts, s.numfmt)
    } else {
        t.numfmts
    };
    let numfmt_id: nat = if s.numfmt.len() > 0 {
        (id_in(numfmts, s.numfmt) + 164) as nat
    } else {
        0
    };
    let borders = interned(t.borders, s.border);
    let border_id = id_in(borders, s.border) as nat;
    let align = match s.font {
        Some(f) => alignment_attrs(f),
        None => Seq::empty(),
    };
    (
        xf_text(border_id, fill_id, font_id, numfmt_id, align),
        StyleTables { fonts, fills, numfmts, borders },
    )
}

/// Writes the format record of a cell style, interning its parts.
fn write_cell_style<W: XmlWriter>(
    w: &mut W,
    style: &CellStyle,
    fontdb: &mut DB<Font>,
    filldb: &mut DB<String>,
    numfmtdb: &mut DB<String>,
    borderstyledb: &mut DB<BorderStyle>,
)
    requires
        old(fontdb).wf(),
        old(filldb).wf(),
        old(numfmtdb).wf(),
        old(borderstyledb).wf(),
    ensures
        final(fontdb).wf(),
        final(filldb).wf(),
        final(numfmtdb).wf(),
        final(borderstyledb).wf(),
        ({
            let (x, t) = xf_step(
                style@,
                StyleTables {
                    fonts: old(fontdb)@,
                    fills: old(filldb)@,
                    numfmts: old(numfmtdb)@,
                    borders: old(borderstyledb)@,
                },
            );
            &&& final(w).written() == old(w).written() + x
            &&& t == StyleTables {
                fonts: final(fontdb)@,
                fills: final(filldb)@,
                numfmts: final(numfmtdb)@,
                borders: final(borderstyledb)@,
            }
        }),
{
    let font_id: u128 = match &style.font {
        Some(font) => {
            let id = fontdb.get_id(font);
            proof {
                crate::db::lemma_id_in_unique(fontdb@, font@, id as int);
            }
            id as u128 + 1
        },
        None => 0,
    };
    let fill_id: u128 = if !style.fill.as_str().is_empty() {
        let id = filldb.get_id(&style.fill);
        proof {
            crate::db::lemma_id_in_unique(filldb@, style.fill@, id as int);
        }
        id as u128 + 2
    } else {
        0
    };
    let numfmt_id: u128 = if !style.numfmt.as_str().is_empty() {
        let id = numfmtdb.get_id(&style.numfmt);
        proof {
            crate::db::lemma_id_in_unique(numfmtdb@, style.numfmt@, id as int);
        }
        id as u128 + 164
    } else {
        0
    };
    let border_id = borderstyledb.get_id(&style.border);
    proof {
        crate::db::lemma_id_in_unique(borderstyledb@, style.border@, border_id as int);
    }
    let align_attrs: Vec<(String, String)> = match &style.font {
        Some(f) => f.get_alignment_attributes(),
        None => Vec::new(),
    };
    let ghost align = pairs_view(align_attrs@);
    assert(align =~= match style@.font {
        Some(f) => alignment_attrs(f),
        None => Seq::empty(),
    });
    let mut tail = String::new();
    if align_attrs.len() > 0 {
        tail.append(" applyAlignment=\"1\">");
        write_xml_empty_tag(&mut tail, "alignment", &align_attrs);
        tail.append("</xf>");
    } else {
        tail.append("></xf>");
    }
    assert(tail@ =~= (if align.len() > 0 {
        " applyAlignment=\"1\">"@ + empty_tag_text("alignment"@, align) + "</xf>"@
    } else {
        "></xf>"@
    }));
    let mut s = String::from_str("<xf borderId=\"");
    write_nat(&mut s, border_id as u128);
    s.append("\" fillId=\"");
    write_nat(&mut s, fill_id);
    s.append("\" fontId=\"");
    write_nat(&mut s, font_id);
    s.append("\" numFmtId=\"");
    write_nat(&mut s, numfmt_id);
    s.append("\" xfId=\"0\"");
    s.append(tail.as_str());
    w.write_string(s.as_str());
}

/// The format records of the styles in turn, threaded through the tables.
pub open spec fn xfs_xml(styles: Seq<CellStyleView>, t: StyleTables) -> (Seq<char>, StyleTables)
    decreases styles.len(),
{
    if styles.len() == 0 {
        (Seq::empty(), t)
    } else {
        let (x, t1) = xfs_xml(styles.drop_last(), t);
        let (y, t2) = xf_step(styles.last(), t1);
        (x + y, t2)
    }
}

/// One `<numFmt>` per code; the code with id `k` gets number `k + 164`.
pub open spec fn numfmt_entries(codes: Seq<Seq<char>>) -> Seq<char>
    decreases codes.len(),
{
    if codes.len() == 0 {
        Seq::empty()
    } else {
        numfmt_entries(codes.drop_last()) + "<numFmt numFmtId=\""@ + nat_text(
            (codes.len() + 164) as nat,
        ) + "\" formatCode=\""@ + codes.last() + "\"/>"@
    }
}

/// The custom number formats block, present only when there is one.
pub open spec fn numfmts_xml(codes: Seq<Seq<char>>) -> Seq<char> {
    if codes.len() == 0 {
        Seq::empty()
    } else {
        "<numFmts count=\""@ + nat_text(codes.len()) + "\">"@ + numfmt_entries(codes)
            + "</numFmts>"@
    }
}

/// Writes the custom number formats, each under its id plus 164.
pub fn write_numfmts<W: XmlWriter>(w: &mut W, numfmts: &DB<String>)
    ensures
        final(w).written() == old(w).written() + numfmts_xml(numfmts@),
{
    let list = numfmts.sorted_list();
    let len = list.len();
    let ghost codes = numfmts@;
    if len == 0 {
        assert(old(w).written() + numfmts_xml(codes) =~= old(w).written());
        return;
    }
    w.write_string("<numFmts count=\"");
    write_nat(w, len as u128);
    w.write_string("\">");
    let ghost w1 = w.written();
    for i in 0..len
        invariant
            len == list@.len(),
            len == codes.len(),
            forall|k: int| 0 <= k < len ==> (#[trigger] list@[k]).0@ == codes[k] && list@[k].1 == k + 1,
            w.written() == w1 + numfmt_entries(codes.subrange(0, i as int)),
    {
        proof {
            let s = codes.subrange(0, i as int + 1);
            assert(s.drop_last() =~= codes.subrange(0, i as int));
        }
        let (fmt, index) = (&list[i].0, list[i].1);
        w.write_string("<numFmt numFmtId=\"");
        write_nat(w, index as u128 + 164);
        w.write_string("\" formatCode=\"");
        w.write_string(fmt.as_str());
        w.write_string("\"/>");
        assert(w.written() =~= w1 + numfmt_entries(codes.subrange(0, i as int + 1)));
    }
    assert(codes.subrange(0, len as int) =~= codes);
    w.write_string("</numFmts>");
    assert(final(w).written() =~= old(w).written() + numfmts_xml(codes));
}

pub open spec fn font_entries(fonts: Seq<FontView>) -> Seq<char>
    decreases fonts.len(),
{
    if fonts.len() == 0 {
        Seq::empty()
    } else {
        font_entries(fonts.drop_last()) + font_xml(fonts.last())
    }
}

pub open spec fn fill_entries(fills: Seq<Seq<char>>) -> Seq<char>
    decreases fills.len(),
{
    if fills.len() == 0 {
        Seq::empty()
    } else {
        fill_entries(fills.drop_last()) + fill_xml(fills.last())
    }
}

pub open spec fn border_entries(borders: Seq<BorderStyleView>) -> Seq<char>
    decreases borders.len(),
{
    if borders.len() == 0 {
        Seq::empty()
    } else {
        border_entries(borders.drop_last()) + border_xml(borders.last())
    }
}

fn write_font_list<W: XmlWriter>(w: &mut W, fontdb: &DB<Font>)
    ensures
        final(w).written() == old(w).written() + font_entries(fontdb@),
{
    let list = fontdb.sorted_list();
    let len = list.len();
    let ghost v = fontdb@;
    for i in 0..len
        invariant
            len == list@.len(),
            len == v.len(),
            forall|k: int| 0 <= k < len ==> (#[trigger] list@[k]).0@ == v[k],
            w.written() == old(w).written() + font_entries(v.subrange(0, i as int)),
    {
        proof {
            let s = v.subrange(0, i as int + 1);
            assert(s.drop_last() =~= v.subrange(0, i as int));
        }
        write_font(w, &list[i].0);
        assert(w.written() =~= old(w).written() + font_entries(v.subrange(0, i as int + 1)));
    }
    assert(v.subrange(0, len as int) =~= v);
}

fn write_fill_list<W: XmlWriter>(w: &mut W, filldb: &DB<String>)
    ensures
        final(w).written() == old(w).written() + fill_entries(filldb@),
{
    let list = filldb.sorted_list();
    let len = list.len();
    let ghost v = filldb@;
    for i in 0..len
        invariant
            len == list@.len(),
            len == v.len(),
            forall|k: int| 0 <= k < len ==> (#[trigger] list@[k]).0@ == v[k],
            w.written() == old(w).written() + fill_entries(v.subrange(0, i as int)),
    {
        proof {
            let s = v.subrange(0, i as int + 1);
            assert(s.drop_last() =~= v.subrange(0, i as int));
        }
        write_fill(w, &list[i].0);
        assert(w.written() =~= old(w).written() + fill_entries(v.subrange(0, i as int + 1)));
    }
    assert(v.subrange(0, len as int) =~= v);
}

fn write_border_list<W: XmlWriter>(w: &mut W, borderdb: &DB<BorderStyle>)
    ensures
        final(w).written() == old(w).written() + border_entries(borderdb@),
{
    let list = borderdb.sorted_list();
    let len = list.len();
    let ghost v = borderdb@;
    for i in 0..len
        invariant
            len == list@.len(),
            len == v.len(),
            forall|k: int| 0 <= k < len ==> (#[trigger] list@[k]).0@ == v[k],
            w.written() == old(w).written() + border_entries(v.subrange(0, i as int)),
    {
        proof {
            let s = v.subrange(0, i as int + 1);
            assert(s.drop_last() =~= v.subrange(0, i as int));
        }
        write_border_style(w, &list[i].0);
        assert(w.written() =~= old(w).written() + border_entries(v.subrange(0, i as int + 1)));
    }
    assert(v.subrange(0, len as int) =~= v);
}

pub const STYLES_HEAD: &'static str = "<?xml version=\"1.0\" encoding=\"UTF-8\" standalone=\"yes\"?>\n<styleSheet xmlns=\"http://schemas.openxmlformats.org/spreadsheetml/2006/main\">";

pub const FILLS_BUILT_IN: &'static str = "<fill><patternFill patternType=\"none\"/></fill><fill><patternFill patternType=\"gray125\"/></fill>";

pub const CELL_STYLE_XFS: &'static str = "<cellStyleXfs count=\"1\"><xf borderId=\"0\" numFmtId=\"0\" fillId=\"0\" fontId=\"0\" applyAlignment=\"1\"><alignment wrapText=\"1\"/></xf></cellStyleXfs>";

pub const DEFAULT_XF: &'static str = "\"><xf borderId=\"0\" numFmtId=\"0\" fillId=\"0\" fontId=\"0\" xfId=\"0\"/>";

/// The styles part for the interned cell styles, and the tables after it:
/// custom number formats, fonts (after the default one), fills (after the two
/// built-in ones), borders (after the default one), the one cell-style
/// format, then the default format record and one per cell style.
#[verifier::opaque]
pub open spec fn styles_xml(styles: Seq<CellStyleView>, t: StyleTables) -> (Seq<char>, StyleTables) {
    let (xfs, t2) = xfs_xml(styles, t);
    (
        STYLES_HEAD@ + numfmts_xml(t2.numfmts) + "<fonts count=\""@ + nat_text(
            (t2.fonts.len() + 1) as nat,
        ) + "\"><font />"@ + font_entries(t2.fonts) + "</fonts><fills count=\""@ + nat_text(
            (t2.fills.len() + 2) as nat,
        ) + "\">"@ + FILLS_BUILT_IN@ + fill_entries(t2.fills) + "</fills><borders count=\""@
            + nat_text((t2.borders.len() + 1) as nat) + "\"><border />"@ + border_entries(
            t2.borders,
        ) + "</borders>"@ + CELL_STYLE_XFS@ + "<cellXfs count=\""@ + nat_text(
            (styles.len() + 1) as nat,
        ) + DEFAULT_XF@ + xfs + "</cellXfs></styleSheet>"@,
        t2,
    )
}

/// Writes the styles part, interning the fonts, fills, number formats and
/// borders of every interned cell style.
pub fn write_xl_styles<W: XmlWriter>(w: &mut W, wci: &mut WorkbookCompInfo)
    requires
        old(wci).wf(),
    ensures
        final(wci).wf(),
        final(wci).sheet_info == old(wci).sheet_info,
        final(wci).stringdb == old(wci).stringdb,
        final(wci).cellstyledb == old(wci).cellstyledb,
        final(wci).next_free_xl_rid == old(wci).next_free_xl_rid,
        ({
            let (x, t) = styles_xml(old(wci).cellstyledb@, old(wci).style_tables());
            final(w).written() == old(w).written() + x && final(wci).style_tables() == t
        }),
{
    let ghost styles = wci.cellstyledb@;
    let ghost t0 = wci.style_tables();
    let n = wci.cellstyledb.len();
    let mut xfs = String::new();
    for i in 0..n
        invariant
            n == styles.len(),
            wci.wf(),
            wci.sheet_info == old(wci).sheet_info,
            wci.stringdb == old(wci).stringdb,
            wci.cellstyledb == old(wci).cellstyledb,
            wci.next_free_xl_rid == old(wci).next_free_xl_rid,
            styles == old(wci).cellstyledb@,
            t0 == old(wci).style_tables(),
            xfs_xml(styles.subrange(0, i as int), t0) == (xfs@, wci.style_tables()),
    {
        proof {
            let s = styles.subrange(0, i as int + 1);
            assert(s.drop_last() =~= styles.subrange(0, i as int));
        }
        let style = wci.cellstyledb.entry(i + 1);
        write_cell_style(
            &mut xfs,
            style,
            &mut wci.fontdb,
            &mut wci.filldb,
            &mut wci.numfmtdb,
            &mut wci.borderstyledb,
        );
    }
    assert(styles.subrange(0, n as int) =~= styles);
    let mut s = String::from_str(STYLES_HEAD);
    write_numfmts(&mut s, &wci.numfmtdb);
    s.append("<fonts count=\"");
    write_nat(&mut s, wci.fontdb.len() as u128 + 1);
    s.append("\"><font />");
    write_font_list(&mut s, &wci.fontdb);
    s.append("</fonts><fills count=\"");
    write_nat(&mut s, wci.filldb.len() as u128 + 2);
    s.append("\">");
    s.append(FILLS_BUILT_IN);
    write_fill_list(&mut s, &wci.filldb);
    s.append("</fills><borders count=\"");
    write_nat(&mut s, wci.borderstyledb.len() as u128 + 1);
    s.append("\"><border />");
    write_border_list(&mut s, &wci.borderstyledb);
    s.append("</borders>");
    s.append(CELL_STYLE_XFS);
    s.append("<cellXfs count=\"");
    write_nat(&mut s, n as u128 + 1);
    s.append(DEFAULT_XF);
    s.append(xfs.as_str());
    s.append("</cellXfs></styleSheet>");
    w.write_string(s.as_str());
    reveal(styles_xml);
}

} // verus!
