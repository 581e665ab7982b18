//! Escaping of the five XML metacharacters in text and attribute values.
use vstd::prelude::*;
use crate::text::push_char;

verus! {

/// The characters that XML text must not hold verbatim.
pub open spec fn is_markup(c: char) -> bool {
    c == '<' || c == '>' || c == '&' || c == '\'' || c == '"'
}

/// What one character becomes in escaped text.
pub open spec fn escape_char(c: char) -> Seq<char> {
    if c == '<' {
        "&lt;"@
    } else if c == '>' {
        "&gt;"@
    } else if c == '&' {
        "&amp;"@
    } else if c == '\'' {
        "&apos;"@
    } else if c == '"' {
        "&quot;"@
    } else {
        seq![c]
    }
}

/// The text with each metacharacter replaced by its named entity.
pub open spec fn escape_text(s: Seq<char>) -> Seq<char>
    decreases s.len(),
{
    if s.len() == 0 {
        Seq::empty()
    } else {
        escape_text(s.drop_last()) + escape_char(s.last())
    }
}

/// Relies on `regex::Regex::new` and `regex::Regex::is_match`: a character class
/// matches a text exactly when one of its characters is in the class. Should the
/// pattern not compile, the answer is `true`, which claims nothing.
#[verifier::external_body]
fn has_markup(text: &str) -> (r: bool)
    ensures
        !r ==> forall|i: int| 0 <= i < text@.len() ==> !is_markup(#[trigger] text@[i]),
{
    regex::Regex::new("[<>&\"']").map_or(true, |re| re.is_match(text))
}

/// Text free of metacharacters is left as it is by escaping.
pub proof fn lemma_escape_plain(s: Seq<char>)
    requires
        forall|i: int| 0 <= i < s.len() ==> !is_markup(#[trigger] s[i]),
    ensures
        escape_text(s) == s,
    decreases s.len(),
{
    if s.len() > 0 {
        let t = s.drop_last();
        assert forall|i: int| 0 <= i < t.len() implies !is_markup(#[trigger] t[i]) by {
            assert(t[i] == s[i]);
        }
        lemma_escape_plain(t);
        assert(!is_markup(s[s.len() - 1]));
        assert(s =~= t + seq![s.last()]);
    }
}

/// Escapes `< > & ' "` as `&lt; &gt; &amp; &apos; &quot;`; text without any of
/// them is handed back as it came, without a new allocation.
pub fn xml_escape(input: String) -> (r: String)
    ensures
        r@ == escape_text(input@),
        (forall|i: int| 0 <= i < input@.len() ==> !is_markup(#[trigger] input@[i])) ==> r@ == input@,
{
    if !has_markup(input.as_str()) {
        proof {
            lemma_escape_plain(input@);
        }
        return input;
    }
    let mut out = String::new();
    for c in it: input.as_str().chars()
        invariant
            it.seq() == input@,
            out@ == escape_text(input@.subrange(0, it.index() as int)),
    {
        proof {
            let i = it.index() as int;
            let p = input@.subrange(0, i + 1);
            assert(p.drop_last() =~= input@.subrange(0, i));
            assert(p.last() == c);
        }
        if c == '<' {
            out.append("&lt;");
        } else if c == '>' {
            out.append("&gt;");
        } else if c == '&' {
            out.append("&amp;");
        } else if c == '\'' {
            out.append("&apos;");
        } else if c == '"' {
            out.append("&quot;");
        } else {
            push_char(&mut out, c);
        }
    }
    proof {
        assert(input@.subrange(0, input@.len() as int) =~= input@);
        if forall|i: int| 0 <= i < input@.len() ==> !is_markup(#[trigger] input@[i]) {
            lemma_escape_plain(input@);
        }
    }
    out
}

} // verus!
