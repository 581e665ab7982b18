use elixlsx::model::Font;
use elixlsx::xl_styles::to_argb_color;
use elixlsx::xml_templates::{doc_props_app, doc_props_core, rels_dotrels};

#[test]
fn argb_replaces_first_character() {
    assert_eq!(to_argb_color("#FF0000".to_string()), "#FF0000");
    assert_eq!(to_argb_color("xABCDEF".to_string()), "#ABCDEF");
    assert_eq!(to_argb_color(String::new()), "");
}

#[test]
fn doc_props_defaults_and_overrides() {
    let c = doc_props_core("T".to_string(), Some("de-DE".to_string()), Some(7));
    assert!(c.contains("<dc:language>de-DE</dc:language>"));
    assert!(c.contains("<cp:revision>7</cp:revision>"));
    assert!(c.contains("<dcterms:modified xsi:type=\"dcterms:W3CDTF\">T</dcterms:modified>"));
    let a = doc_props_app("1.00".to_string());
    assert!(a.contains("<AppVersion>1.00</AppVersion>"));
    assert!(rels_dotrels().contains("Target=\"xl/workbook.xml\""));
}

#[test]
fn alignment_attributes_in_order() {
    let f = Font {
        bold: false,
        italic: false,
        underline: false,
        strike: false,
        size: 0,
        color: String::new(),
        wrap_text: true,
        align_horizontal: "left".to_string(),
        align_vertical: "top".to_string(),
        font: String::new(),
    };
    assert_eq!(
        f.get_alignment_attributes(),
        vec![
            ("wrapText".to_string(), "1".to_string()),
            ("horizontal".to_string(), "left".to_string()),
            ("vertical".to_string(), "top".to_string()),
        ]
    );
    assert!(!f.is_default());
}

