//! The package parts other than the worksheets: content types, relationships,
//! the workbook manifest, shared strings and document properties.
use vstd::prelude::*;
use crate::db::DB;
use crate::escape::escape_text;
use crate::text::{int_text, nat_text};
use crate::wb_compiler::{SheetCompInfo, rid_text};
use crate::workbook::Sheet;
use crate::xml_writer::{XmlWriter, write_escaped, write_int, write_nat};

verus! {

pub const CONTENT_TYPES_HEAD: &'static str = "<?xml version=\"1.0\" encoding=\"UTF-8\"?>\n<Types xmlns=\"http://schemas.openxmlformats.org/package/2006/content-types\"><Override PartName=\"/_rels/.rels\" ContentType=\"application/vnd.openxmlformats-package.relationships+xml\"/><Override PartName=\"/docProps/app.xml\" ContentType=\"application/vnd.openxmlformats-officedocument.extended-properties+xml\"/><Override PartName=\"/docProps/core.xml\" ContentType=\"application/vnd.openxmlformats-package.core-properties+xml\"/><Override PartName=\"/xl/_rels/workbook.xml.rels\" ContentType=\"application/vnd.openxmlformats-package.relationships+xml\"/><Override PartName=\"/xl/workbook.xml\" ContentType=\"application/vnd.openxmlformats-officedocument.spreadsheetml.sheet.main+xml\"/><Override PartName=\"/xl/styles.xml\" ContentType=\"application/vnd.openxmlformats-officedocument.spreadsheetml.styles+xml\"/>";

pub const WORKSHEET_OVERRIDE_START: &'static str = "<Override PartName=\"/xl/worksheets/";

pub const WORKSHEET_OVERRIDE_END: &'static str = "\" ContentType=\"application/vnd.openxmlformats-officedocument.spreadsheetml.worksheet+xml\"/>";

pub const CONTENT_TYPES_TAIL: &'static str = "<Override PartName=\"/xl/sharedStrings.xml\" ContentType=\"application/vnd.openxmlformats-officedocument.spreadsheetml.sharedStrings+xml\"/></Types>";

/// One worksheet override per sheet file, in order.
pub open spec fn worksheet_overrides(scis: Seq<SheetCompInfo>) -> Seq<char>
    decreases scis.len(),
{
    if scis.len() == 0 {
        Seq::empty()
    } else {
        worksheet_overrides(scis.drop_last()) + WORKSHEET_OVERRIDE_START@ + scis.last().filename@
            + WORKSHEET_OVERRIDE_END@
    }
}

/// The content-types part.
pub open spec fn content_types_xml(scis: Seq<SheetCompInfo>) -> Seq<char> {
    CONTENT_TYPES_HEAD@ + worksheet_overrides(scis) + CONTENT_TYPES_TAIL@
}

/// Writes the content-types part: the fixed parts, one override per worksheet,
/// and the shared strings.
pub fn write_content_types<W: XmlWriter>(w: &mut W, scis: &Vec<SheetCompInfo>)
    ensures
        final(w).written() == old(w).written() + content_types_xml(scis@),
{
    w.write_string(CONTENT_TYPES_HEAD);
    let ghost w1 = w.written();
    let n = scis.len();
    for i in 0..n
        invariant
            n == scis@.len(),
            w.written() == w1 + worksheet_overrides(scis@.subrange(0, i as int)),
    {
        proof {
            let s = scis@.subrange(0, i as int + 1);
            assert(s.drop_last() =~= scis@.subrange(0, i as int));
        }
        w.write_string(WORKSHEET_OVERRIDE_START);
        w.write_string(scis[i].filename.as_str());
        w.write_string(WORKSHEET_OVERRIDE_END);
        assert(w.written() =~= w1 + worksheet_overrides(scis@.subrange(0, i as int + 1)));
    }
    assert(scis@.subrange(0, n as int) =~= scis@);
    w.write_string(CONTENT_TYPES_TAIL);
    assert(final(w).written() =~= old(w).written() + content_types_xml(scis@));
}

pub const XL_RELS_HEAD: &'static str = "<?xml version=\"1.0\" encoding=\"UTF-8\"?>\n<Relationships xmlns=\"http://schemas.openxmlformats.org/package/2006/relationships\"><Relationship Id=\"rId1\" Type=\"http://schemas.openxmlformats.org/officeDocument/2006/relationships/styles\" Target=\"styles.xml\"/>";

pub const SHEET_REL_TYPE: &'static str = "\" Type=\"http://schemas.openxmlformats.org/officeDocument/2006/relationships/worksheet\" Target=\"worksheets/";

pub const STRINGS_REL_TYPE: &'static str = "\" Type=\"http://schemas.openxmlformats.org/officeDocument/2006/relationships/sharedStrings\" Target=\"sharedStrings.xml\"/></Relationships>";

/// One relationship per sheet, in order.
pub open spec fn sheet_rels(scis: Seq<SheetCompInfo>) -> Seq<char>
    decreases scis.len(),
{
    if scis.len() == 0 {
        Seq::empty()
    } else {
        sheet_rels(scis.drop_last()) + "<Relationship Id=\""@ + scis.last().rid@ + SHEET_REL_TYPE@
            + scis.last().filename@ + "\"/>"@
    }
}

/// The workbook's relationships part.
pub open spec fn xl_rels_xml(scis: Seq<SheetCompInfo>, next_free_xl_rid: nat) -> Seq<char> {
    XL_RELS_HEAD@ + sheet_rels(scis) + "<Relationship Id=\""@ + rid_text(next_free_xl_rid)
        + STRINGS_REL_TYPE@
}

/// Writes the workbook's relationships: styles as `rId1`, each sheet under its
/// id, and the shared strings under `next_free_xl_rid`.
pub fn write_xl_rels<W: XmlWriter>(w: &mut W, scis: &Vec<SheetCompInfo>, next_free_xl_rid: usize)
    ensures
        final(w).written() == old(w).written() + xl_rels_xml(scis@, next_free_xl_rid as nat),
{
    w.write_string(XL_RELS_HEAD);
    let ghost w1 = w.written();
    let n = scis.len();
    for i in 0..n
        invariant
            n == scis@.len(),
            w.written() == w1 + sheet_rels(scis@.subrange(0, i as int)),
    {
        proof {
            let s = scis@.subrange(0, i as int + 1);
            assert(s.drop_last() =~= scis@.subrange(0, i as int));
        }
        w.write_string("<Relationship Id=\"");
        w.write_string(scis[i].rid.as_str());
        w.write_string(SHEET_REL_TYPE);
        w.write_string(scis[i].filename.as_str());
        w.write_string("\"/>");
        assert(w.written() =~= w1 + sheet_rels(scis@.subrange(0, i as int + 1)));
    }
    assert(scis@.subrange(0, n as int) =~= scis@);
    w.write_string("<Relationship Id=\"rId");
    write_nat(w, next_free_xl_rid as u128);
    w.write_string(STRINGS_REL_TYPE);
    proof {
        reveal_strlit("<Relationship Id=\"rId");
        reveal_strlit("<Relationship Id=\"");
        reveal_strlit("rId");
    }
    assert(final(w).written() =~= old(w).written() + xl_rels_xml(scis@, next_free_xl_rid as nat));
}

pub const WORKBOOK_HEAD: &'static str = "<?xml version=\"1.0\" encoding=\"UTF-8\" standalone=\"yes\"?>\n<workbook xmlns=\"http://schemas.openxmlformats.org/spreadsheetml/2006/main\" xmlns:r=\"http://schemas.openxmlformats.org/officeDocument/2006/relationships\"><fileVersion appName=\"Calc\"/><bookViews><workbookView activeTab=\"0\"/></bookViews><sheets>";

pub const WORKBOOK_TAIL: &'static str = "</sheets><calcPr fullCalcOnLoad=\"1\" iterateCount=\"100\" refMode=\"A1\" iterate=\"false\" iterateDelta=\"0.001\"/></workbook>";

/// One `<sheet>` entry per sheet, with its escaped name, sheet id and relationship id.
pub open spec fn sheet_entries(sheets: Seq<Sheet>, scis: Seq<SheetCompInfo>) -> Seq<char>
    decreases sheets.len(),
{
    if sheets.len() == 0 || scis.len() < sheets.len() {
        Seq::empty()
    } else {
        let k = sheets.len() - 1;
        sheet_entries(sheets.drop_last(), scis) + "<sheet name=\""@ + escape_text(sheets[k].name@)
            + "\" sheetId=\""@ + nat_text(scis[k].sheet_id as nat) + "\" state=\"visible\" r:id=\""@
            + scis[k].rid@ + "\"/>"@
    }
}

/// The workbook manifest part.
pub open spec fn workbook_xml(sheets: Seq<Sheet>, scis: Seq<SheetCompInfo>) -> Seq<char> {
    WORKBOOK_HEAD@ + sheet_entries(sheets, scis) + WORKBOOK_TAIL@
}

/// Writes the workbook manifest: one entry per sheet, in order.
pub fn write_workbook_xml<W: XmlWriter>(
    w: &mut W,
    sheets: &Vec<Sheet>,
    scis: &Vec<SheetCompInfo>,
)
    requires
        scis@.len() >= sheets@.len(),
    ensures
        final(w).written() == old(w).written() + workbook_xml(sheets@, scis@),
{
    w.write_string(WORKBOOK_HEAD);
    let ghost w1 = w.written();
    let n = sheets.len();
    for i in 0..n
        invariant
            n == sheets@.len(),
            scis@.len() >= n,
            w.written() == w1 + sheet_entries(sheets@.subrange(0, i as int), scis@),
    {
        proof {
            let s = sheets@.subrange(0, i as int + 1);
            assert(s.drop_last() =~= sheets@.subrange(0, i as int));
        }
        w.write_string("<sheet name=\"");
        write_escaped(w, &sheets[i].name);
        w.write_string("\" sheetId=\"");
        write_nat(w, scis[i].sheet_id as u128);
        w.write_string("\" state=\"visible\" r:id=\"");
        w.write_string(scis[i].rid.as_str());
        w.write_string("\"/>");
        assert(w.written() =~= w1 + sheet_entries(sheets@.subrange(0, i as int + 1), scis@));
    }
    assert(sheets@.subrange(0, n as int) =~= sheets@);
    w.write_string(WORKBOOK_TAIL);
    assert(final(w).written() =~= old(w).written() + workbook_xml(sheets@, scis@));
}

pub const SST_HEAD: &'static str = "<?xml version=\"1.0\" encoding=\"UTF-8\" standalone=\"yes\"?>\n<sst xmlns=\"http://schemas.openxmlformats.org/spreadsheetml/2006/main\" count=\"";

/// One `<si>` entry per string, escaped, in order.
pub open spec fn string_entries(strings: Seq<Seq<char>>) -> Seq<char>
    decreases strings.len(),
{
    if strings.len() == 0 {
        Seq::empty()
    } else {
        string_entries(strings.drop_last()) + "<si><t>"@ + escape_text(strings.last())
            + "</t></si>"@
    }
}

/// The shared-strings part: the table's strings in id order.
pub open spec fn string_db_xml(strings: Seq<Seq<char>>) -> Seq<char> {
    SST_HEAD@ + nat_text(strings.len()) + "\" uniqueCount=\""@ + nat_text(strings.len()) + "\">"@
        + string_entries(strings) + "</sst>"@
}

/// Writes the shared-strings part: the table's size as total and unique count,
/// then each string in id order.
pub fn wite_string_db<W: XmlWriter>(w: &mut W, stringdb: &DB<String>)
    ensures
        final(w).written() == old(w).written() + string_db_xml(stringdb@),
{
    let list = stringdb.sorted_list();
    let len = list.len();
    let ghost strings = stringdb@;
    w.write_string(SST_HEAD);
    write_nat(w, len as u128);
    w.write_string("\" uniqueCount=\"");
    write_nat(w, len as u128);
    w.write_string("\">");
    let ghost w1 = w.written();
    for i in 0..len
        invariant
            len == list@.len(),
            len == strings.len(),
            forall|k: int| 0 <= k < len ==> (#[trigger] list@[k]).0@ == strings[k],
            w.written() == w1 + string_entries(strings.subrange(0, i as int)),
    {
        proof {
            let s = strings.subrange(0, i as int + 1);
            assert(s.drop_last() =~= strings.subrange(0, i as int));
        }
        w.write_string("<si><t>");
        write_escaped(w, &list[i].0);
        w.write_string("</t></si>");
        assert(w.written() =~= w1 + string_entries(strings.subrange(0, i as int + 1)));
    }
    assert(strings.subrange(0, len as int) =~= strings);
    w.write_string("</sst>");
    assert(final(w).written() =~= old(w).written() + string_db_xml(stringdb@));
}

pub const APP_HEAD: &'static str = "<?xml version=\"1.0\" encoding=\"UTF-8\" standalone=\"yes\"?>\n<Properties xmlns=\"http://schemas.openxmlformats.org/officeDocument/2006/extended-properties\" xmlns:vt=\"http://schemas.openxmlformats.org/officeDocument/2006/docPropsVTypes\"><TotalTime>0</TotalTime><Application>Elixlsx</Application><AppVersion>";

pub const APP_TAIL: &'static str = "</AppVersion></Properties>\n";

/// The extended-properties part for application version `ver`.
pub open spec fn doc_props_app_xml(ver: Seq<char>) -> Seq<char> {
    APP_HEAD@ + ver + APP_TAIL@
}

/// The extended-properties part: application name and version `ver`.
pub fn doc_props_app(ver: String) -> (r: String)
    ensures
        r@ == doc_props_app_xml(ver@),
{
    let mut s = String::from_str(APP_HEAD);
    s.append(ver.as_str());
    s.append(APP_TAIL);
    s
}

pub const CORE_HEAD: &'static str = "<?xml version=\"1.0\" encoding=\"UTF-8\" standalone=\"yes\"?>\n<cp:coreProperties xmlns:cp=\"http://schemas.openxmlformats.org/package/2006/metadata/core-properties\" xmlns:dc=\"http://purl.org/dc/elements/1.1/\" xmlns:dcterms=\"http://purl.org/dc/terms/\" xmlns:dcmitype=\"http://purl.org/dc/dcmitype/\" xmlns:xsi=\"http://www.w3.org/2001/XMLSchema-instance\"><dcterms:created xsi:type=\"dcterms:W3CDTF\">";

pub const CORE_LANGUAGE: &'static str = "</dcterms:created><dc:language>";

pub const CORE_MODIFIED: &'static str = "</dc:language><dcterms:modified xsi:type=\"dcterms:W3CDTF\">";

pub const CORE_REVISION: &'static str = "</dcterms:modified><cp:revision>";

pub const CORE_TAIL: &'static str = "</cp:revision></cp:coreProperties>\n";

/// The core-properties part: created and modified at `time`, in `language`, at `revision`.
pub open spec fn doc_props_core_xml(time: Seq<char>, language: Seq<char>, revision: int) -> Seq<
    char,
> {
    CORE_HEAD@ + time + CORE_LANGUAGE@ + language + CORE_MODIFIED@ + time + CORE_REVISION@
        + int_text(revision) + CORE_TAIL@
}

/// The core-properties part; the language defaults to `en-US` and the revision to 1.
pub fn doc_props_core(time: String, language: Option<String>, revision: Option<i32>) -> (r: String)
    ensures
        r@ == doc_props_core_xml(
            time@,
            match language {
                Some(l) => l@,
                None => "en-US"@,
            },
            match revision {
                Some(v) => v as int,
                None => 1,
            },
        ),
{
    let lang = match language {
        Some(l) => l,
        None => String::from_str("en-US"),
    };
    let rev: i32 = match revision {
        Some(v) => v,
        None => 1,
    };
    let mut s = String::from_str(CORE_HEAD);
    s.append(time.as_str());
    s.append(CORE_LANGUAGE);
    s.append(lang.as_str());
    s.append(CORE_MODIFIED);
    s.append(time.as_str());
    s.append(CORE_REVISION);
    write_int(&mut s, rev as i128);
    s.append(CORE_TAIL);
    s
}

pub const PACKAGE_RELS: &'static str = "<?xml version=\"1.0\" encoding=\"UTF-8\"?>\n<Relationships xmlns=\"http://schemas.openxmlformats.org/package/2006/relationships\"><Relationship Id=\"rId1\" Type=\"http://schemas.openxmlformats.org/officeDocument/2006/relationships/officeDocument\" Target=\"xl/workbook.xml\"/><Relationship Id=\"rId2\" Type=\"http://schemas.openxmlformats.org/package/2006/relationships/metadata/core-properties\" Target=\"docProps/core.xml\"/><Relationship Id=\"rId3\" Type=\"http://schemas.openxmlformats.org/officeDocument/2006/relationships/extended-properties\" Target=\"docProps/app.xml\"/></Relationships>\n";

/// The package-level relationships: main document, core and extended properties.
pub fn rels_dotrels() -> (r: String)
    ensures
        r@ == PACKAGE_RELS@,
{
    String::from_str(PACKAGE_RELS)
}

} // verus!
