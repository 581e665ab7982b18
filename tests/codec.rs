use elixlsx::db::DB;
use elixlsx::escape::xml_escape;
use elixlsx::util::{encode_col, to_excel_coords};
use elixlsx::xml_writer::Escaped;

fn decode_col(s: &str) -> i128 {
    s.chars().fold(0, |acc, c| acc * 26 + (c as i128 - 64))
}

#[test]
fn column_letters_literal_cases() {
    assert_eq!(encode_col(1), "A");
    assert_eq!(encode_col(26), "Z");
    assert_eq!(encode_col(27), "AA");
    assert_eq!(encode_col(52), "AZ");
    assert_eq!(encode_col(53), "BA");
    assert_eq!(encode_col(702), "ZZ");
    assert_eq!(encode_col(703), "AAA");
}

#[test]
fn column_letters_round_trip() {
    for n in 1..=20000 {
        assert_eq!(decode_col(&encode_col(n)), n);
    }
}

#[test]
fn column_letters_nonpositive_are_empty() {
    assert_eq!(encode_col(0), "");
    assert_eq!(encode_col(-5), "");
}

#[test]
fn cell_reference_appends_row() {
    assert_eq!(to_excel_coords(1, 1), "A1");
    assert_eq!(to_excel_coords(42, 28), "AB42");
    assert_eq!(to_excel_coords(1048576, 16384), "XFD1048576");
}

#[test]
fn interning_gives_first_seen_ids() {
    let mut db: DB<String> = DB::new();
    let a = db.get_id(&"foo".to_string());
    let b = db.get_id(&"bar".to_string());
    let c = db.get_id(&"foo".to_string());
    assert_eq!((a, b, c), (1, 2, 1));
    assert_eq!(db.len(), 2);
}

#[test]
fn interning_is_deterministic() {
    let vals = ["x", "y", "x", "z", "y", "w"];
    let run = || {
        let mut db: DB<String> = DB::new();
        vals.iter().map(|v| db.get_id(&v.to_string())).collect::<Vec<usize>>()
    };
    assert_eq!(run(), run());
    assert_eq!(run(), vec![1, 2, 1, 3, 2, 4]);
}

#[test]
fn sorted_list_is_in_id_order() {
    let mut db: DB<String> = DB::new();
    db.get_id(&"b".to_string());
    db.get_id(&"a".to_string());
    db.get_id(&"b".to_string());
    let li = db.sorted_list();
    assert_eq!(li, vec![("b".to_string(), 1), ("a".to_string(), 2)]);
    assert_eq!(db.entry(2), "a");
}

#[test]
fn escape_leaves_safe_text() {
    assert_eq!(xml_escape("plain text 123".to_string()), "plain text 123");
    assert_eq!(xml_escape(String::new()), "");
}

#[test]
fn escape_ampersand() {
    assert_eq!(xml_escape("A&B".to_string()), "A&amp;B");
}

#[test]
fn escape_all_metacharacters() {
    assert_eq!(
        xml_escape("<a href='x'>\"q\" & é</a>".to_string()),
        "&lt;a href=&apos;x&apos;&gt;&quot;q&quot; &amp; é&lt;/a&gt;"
    );
}

#[test]
fn escaped_wrapper_escapes() {
    let s = "Q&A".to_string();
    assert_eq!(Escaped(&s).to_string(), "Q&amp;A");
}
