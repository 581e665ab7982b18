//! A host value as plain data, and keyword lists of such values.
use vstd::prelude::*;
use crate::text::int_text;
use crate::xml_writer::write_int;

verus! {

/// A value handed over by the host: the shapes that a workbook description uses.
#[derive(Debug)]
pub enum Term {
    Integer(i64),
    /// A non-integer number, as its decimal text.
    Real(String),
    Atom(String),
    Binary(String),
    Tuple(Vec<Term>),
    List(Vec<Term>),
    Dict(Vec<(Term, Term)>),
    Other,
}

/// The text that a term stands for, where it stands for one.
pub open spec fn term_str(t: Term) -> Option<Seq<char>> {
    match t {
        Term::Integer(i) => Some(int_text(i as int)),
        Term::Real(s) => Some(s@),
        Term::Atom(s) => Some(s@),
        Term::Binary(s) => Some(s@),
        _ => None,
    }
}

/// The text that a term stands for, where it stands for one.
pub fn term_string(t: &Term) -> (r: Option<String>)
    ensures
        r is Some <==> term_str(*t) is Some,
        r is Some ==> r->0@ == term_str(*t)->0,
{
    match t {
        Term::Integer(i) => {
            let mut s = String::new();
            write_int(&mut s, *i as i128);
            Some(s)
        },
        Term::Real(s) => Some(s.clone()),
        Term::Atom(s) => Some(s.clone()),
        Term::Binary(s) => Some(s.clone()),
        _ => None,
    }
}

/// A keyword entry: a pair whose first element names the key.
pub open spec fn kw_entry(t: Term) -> Option<(Seq<char>, Term)> {
    match t {
        Term::Tuple(v) => if v@.len() == 2 && term_str(v@[0]) is Some {
            Some((term_str(v@[0])->0, v@[1]))
        } else {
            None
        },
        _ => None,
    }
}

/// Every element of the list is a keyword entry.
pub open spec fn kw_ok(items: Seq<Term>) -> bool {
    forall|i: int| 0 <= i < items.len() ==> (#[trigger] kw_entry(items[i])) is Some
}

/// The value under `key`; where the key occurs more than once, the last one counts.
pub open spec fn kw_get(items: Seq<Term>, key: Seq<char>) -> Option<Term>
    decreases items.len(),
{
    if items.len() == 0 {
        None
    } else {
        let e = kw_entry(items.last());
        if e is Some && (e->0).0 == key {
            Some((e->0).1)
        } else {
            kw_get(items.drop_last(), key)
        }
    }
}

/// Whether each element of the list is a keyword entry.
pub fn keyword_list_ok(items: &[Term]) -> (r: bool)
    ensures
        r == kw_ok(items@),
{
    let n = items.len();
    for i in 0..n
        invariant
            n == items@.len(),
            forall|j: int| 0 <= j < i ==> (#[trigger] kw_entry(items@[j])) is Some,
    {
        let ok = match &items[i] {
            Term::Tuple(v) => v.len() == 2 && term_string(&v[0]).is_some(),
            _ => false,
        };
        if !ok {
            assert(kw_entry(items@[i as int]) is None);
            return false;
        }
    }
    true
}

/// The value under `key` in a keyword list, the last one where it occurs more than once.
pub fn get_keyword<'a>(items: &'a [Term], key: &str) -> (r: Option<&'a Term>)
    ensures
        r is Some <==> kw_get(items@, key@) is Some,
        r is Some ==> *r->0 == kw_get(items@, key@)->0,
{
    let k = String::from_str(key);
    let mut i = items.len();
    assert(items@.subrange(0, i as int) =~= items@);
    while i > 0
        invariant
            i <= items@.len(),
            k@ == key@,
            kw_get(items@, key@) == kw_get(items@.subrange(0, i as int), key@),
        decreases i,
    {
        let ghost pre = items@.subrange(0, i as int);
        proof {
            assert(pre.drop_last() =~= items@.subrange(0, i - 1));
            assert(pre.last() == items@[i - 1]);
        }
        if let Term::Tuple(v) = &items[i - 1] {
            if v.len() == 2 {
                if let Some(name) = term_string(&v[0]) {
                    if name == k {
                        return Some(&v[1]);
                    }
                }
            }
        }
        i = i - 1;
    }
    None
}

} // verus!
