//! A sink for XML text, and the pieces of markup written to it.
use vstd::prelude::*;
use crate::escape::{escape_text, xml_escape};
use crate::text::{digit_char, int_text, nat_text, push_char};

verus! {

/// Something that XML text is written to, in order.
pub trait XmlWriter {
    /// Everything written so far.
    spec fn written(&self) -> Seq<char>;

    fn write_string(&mut self, s: &str)
        ensures
            final(self).written() == old(self).written() + s@;

    fn write_char(&mut self, c: char)
        ensures
            final(self).written() == old(self).written().push(c);
}

impl XmlWriter for String {
    open spec fn written(&self) -> Seq<char> {
        self@
    }

    fn write_string(&mut self, s: &str) {
        self.append(s);
    }

    fn write_char(&mut self, c: char) {
        push_char(self, c);
    }
}

/// Writes the decimal rendering of `n`.
pub fn write_nat<W: XmlWriter>(w: &mut W, n: u128)
    ensures
        final(w).written() == old(w).written() + nat_text(n as nat),
    decreases n,
{
    if n >= 10 {
        write_nat(w, n / 10);
    }
    let d: u8 = (n % 10) as u8;
    w.write_char((d + 48) as char);
    assert(final(w).written() =~= old(w).written() + nat_text(n as nat));
}

/// Writes the decimal rendering of `i`, with a leading `-` when negative.
pub fn write_int<W: XmlWriter>(w: &mut W, i: i128)
    ensures
        final(w).written() == old(w).written() + int_text(i as int),
{
    if i < 0 {
        w.write_char('-');
        let m: u128 = ((0 - (i + 1)) as u128) + 1;
        write_nat(w, m);
        assert(final(w).written() =~= old(w).written() + int_text(i as int));
    } else {
        write_nat(w, i as u128);
    }
}

/// ` name="value"` for each pair, in order.
pub open spec fn attrs_text(attrs: Seq<(Seq<char>, Seq<char>)>) -> Seq<char>
    decreases attrs.len(),
{
    if attrs.len() == 0 {
        Seq::empty()
    } else {
        attrs_text(attrs.drop_last()) + " "@ + attrs.last().0 + "=\""@ + attrs.last().1 + "\""@
    }
}

/// Writes ` name="value"` for each pair, in order.
pub fn write_attrs<W: XmlWriter>(w: &mut W, attrs: &Vec<(String, String)>)
    ensures
        final(w).written() == old(w).written() + attrs_text(
            attrs@.map_values(|p: (String, String)| (p.0@, p.1@)),
        ),
{
    let ghost v = attrs@.map_values(|p: (String, String)| (p.0@, p.1@));
    let n = attrs.len();
    for i in 0..n
        invariant
            n == attrs@.len(),
            v == attrs@.map_values(|p: (String, String)| (p.0@, p.1@)),
            w.written() == old(w).written() + attrs_text(v.subrange(0, i as int)),
    {
        proof {
            let s = v.subrange(0, i as int + 1);
            assert(s.drop_last() =~= v.subrange(0, i as int));
        }
        w.write_string(" ");
        w.write_string(attrs[i].0.as_str());
        w.write_string("=\"");
        w.write_string(attrs[i].1.as_str());
        w.write_string("\"");
        assert(w.written() =~= old(w).written() + attrs_text(v.subrange(0, i as int + 1)));
    }
    assert(v.subrange(0, n as int) =~= v);
}

/// `<tag attrs/>`.
pub open spec fn empty_tag_text(tag: Seq<char>, attrs: Seq<(Seq<char>, Seq<char>)>) -> Seq<char> {
    "<"@ + tag + attrs_text(attrs) + "/>"@
}

/// Writes an element without content: `<tag attrs/>`.
pub fn write_xml_empty_tag<W: XmlWriter>(w: &mut W, tag: &str, attrs: &Vec<(String, String)>)
    ensures
        final(w).written() == old(w).written() + empty_tag_text(
            tag@,
            attrs@.map_values(|p: (String, String)| (p.0@, p.1@)),
        ),
{
    w.write_string("<");
    w.write_string(tag);
    write_attrs(w, attrs);
    w.write_string("/>");
    assert(final(w).written() =~= old(w).written() + empty_tag_text(
        tag@,
        attrs@.map_values(|p: (String, String)| (p.0@, p.1@)),
    ));
}

/// Writes the text with its metacharacters escaped.
pub fn write_escaped<W: XmlWriter>(w: &mut W, s: &String)
    ensures
        final(w).written() == old(w).written() + escape_text(s@),
{
    let e = xml_escape(s.clone());
    w.write_string(e.as_str());
}

/// Text that is written escaped.
pub struct Escaped<'a>(pub &'a String);

impl<'a> Escaped<'a> {
    /// The text with its metacharacters escaped.
    pub fn to_string(&self) -> (r: String)
        ensures
            r@ == escape_text(self.0@),
    {
        xml_escape(self.0.clone())
    }
}

} // verus!
