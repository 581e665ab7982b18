//! Reading a workbook and its sheets from the host's description: maps keyed
//! by atoms, with defaults for the optional keys.
use vstd::prelude::*;
use crate::error::ExcelError;
use crate::int_map::{IntMap, lookup};
use crate::model::pairs_view;
use crate::term::Term;
use crate::workbook::{Sheet, Workbook};

verus! {

/// The value under the atom `key` in a host map; the last one where a key repeats.
pub open spec fn dict_get(pairs: Seq<(Term, Term)>, key: Seq<char>) -> Option<Term>
    decreases pairs.len(),
{
    if pairs.len() == 0 {
        None
    } else if pairs.last().0 is Atom && pairs.last().0->Atom_0@ == key {
        Some(pairs.last().1)
    } else {
        dict_get(pairs.drop_last(), key)
    }
}

/// Position of the entry that `dict_get` reads, if any.
fn dict_index(pairs: &Vec<(Term, Term)>, key: &str) -> (r: Option<usize>)
    ensures
        r is Some <==> dict_get(pairs@, key@) is Some,
        r is Some ==> r->0 < pairs@.len() && pairs@[r->0 as int].1 == dict_get(pairs@, key@)->0,
{
    let k = String::from_str(key);
    let mut i = pairs.len();
    assert(pairs@.subrange(0, i as int) =~= pairs@);
    while i > 0
        invariant
            i <= pairs@.len(),
            k@ == key@,
            dict_get(pairs@, key@) == dict_get(pairs@.subrange(0, i as int), key@),
        decreases i,
    {
        let ghost pre = pairs@.subrange(0, i as int);
        proof {
            assert(pre.drop_last() =~= pairs@.subrange(0, i - 1));
            assert(pre.last() == pairs@[i - 1]);
        }
        if let Term::Atom(name) = &pairs[i - 1].0 {
            if *name == k {
                return Some(i - 1);
            }
        }
        i = i - 1;
    }
    None
}

/// The value under the atom `key` in a host map, the last one where a key repeats.
pub fn dict_lookup<'a>(pairs: &'a Vec<(Term, Term)>, key: &str) -> (r: Option<&'a Term>)
    ensures
        r is Some <==> dict_get(pairs@, key@) is Some,
        r is Some ==> *r->0 == dict_get(pairs@, key@)->0,
{
    match dict_index(pairs, key) {
        Some(j) => Some(&pairs[j].1),
        None => None,
    }
}

/// Both elements are integers that fit an `i32`.
pub open spec fn int_pair_ok(p: (Term, Term)) -> bool {
    &&& p.0 is Integer
    &&& p.1 is Integer
    &&& i32::MIN <= p.0->Integer_0 <= i32::MAX
    &&& i32::MIN <= p.1->Integer_0 <= i32::MAX
}

/// The value under integer key `k`, the last one where a key repeats.
pub open spec fn int_pairs_get(pairs: Seq<(Term, Term)>, k: i32) -> Option<i32>
    decreases pairs.len(),
{
    if pairs.len() == 0 {
        None
    } else if pairs.last().0 == Term::Integer(k as i64) {
        Some(pairs.last().1->Integer_0 as i32)
    } else {
        int_pairs_get(pairs.drop_last(), k)
    }
}

/// An optional map of integers to integers: absent, or a host map of such pairs.
pub open spec fn int_map_ok(t: Option<Term>) -> bool {
    match t {
        None => true,
        Some(Term::Dict(p)) => forall|i: int| 0 <= i < p@.len() ==> int_pair_ok(#[trigger] p@[i]),
        _ => false,
    }
}

pub open spec fn int_map_get(t: Option<Term>, k: i32) -> Option<i32> {
    match t {
        Some(Term::Dict(p)) => int_pairs_get(p@, k),
        _ => None,
    }
}

/// Reads an optional host map of integers to integers; absent gives an empty map.
pub fn decode_hash_map(t: Option<&Term>) -> (r: Result<IntMap, ExcelError>)
    ensures
        r is Ok <==> int_map_ok(match t {
            Some(x) => Some(*x),
            None => None,
        }),
        r is Ok ==> r->Ok_0.wf() && forall|k: i32|
            lookup(r->Ok_0@, k) == int_map_get(
                match t {
                    Some(x) => Some(*x),
                    None => None,
                },
                k,
            ),
{
    let mut m = IntMap::new();
    let pairs = match t {
        None => return Ok(m),
        Some(Term::Dict(p)) => p,
        Some(_) => return Err(ExcelError::BadArg),
    };
    let n = pairs.len();
    for i in 0..n
        invariant
            n == pairs@.len(),
            t == Some(&Term::Dict(*pairs)),
            m.wf(),
            forall|j: int| 0 <= j < i ==> int_pair_ok(#[trigger] pairs@[j]),
            forall|k: i32| lookup(m@, k) == int_pairs_get(pairs@.subrange(0, i as int), k),
    {
        let ghost pre = pairs@.subrange(0, i as int + 1);
        proof {
            assert(pre.drop_last() =~= pairs@.subrange(0, i as int));
            assert(pre.last() == pairs@[i as int]);
        }
        match (&pairs[i].0, &pairs[i].1) {
            (Term::Integer(k), Term::Integer(v)) => {
                if !(i32::MIN as i64 <= *k && *k <= i32::MAX as i64 && i32::MIN as i64 <= *v && *v
                    <= i32::MAX as i64) {
                    assert(!int_pair_ok(pairs@[i as int]));
                    return Err(ExcelError::BadArg);
                }
                m.insert(*k as i32, *v as i32);
            },
            _ => {
                assert(!int_pair_ok(pairs@[i as int]));
                return Err(ExcelError::BadArg);
            },
        }
    }
    assert(pairs@.subrange(0, n as int) =~= pairs@);
    Ok(m)
}

/// A merged range: a pair of two texts.
pub open spec fn merge_pair(t: Term) -> Option<(Seq<char>, Seq<char>)> {
    match t {
        Term::Tuple(v) => if v@.len() == 2 && v@[0] is Binary && v@[1] is Binary {
            Some((v@[0]->Binary_0@, v@[1]->Binary_0@))
        } else {
            None
        },
        _ => None,
    }
}

/// The merged ranges: none when absent; `None` when not a list of pairs of texts.
pub open spec fn merges_of(t: Option<Term>) -> Option<Seq<(Seq<char>, Seq<char>)>> {
    match t {
        None => Some(Seq::empty()),
        Some(Term::List(l)) => if forall|i: int|
            0 <= i < l@.len() ==> (#[trigger] merge_pair(l@[i])) is Some {
            Some(l@.map_values(|x: Term| merge_pair(x)->0))
        } else {
            None
        },
        _ => None,
    }
}

fn decode_merge_cells(t: Option<&Term>) -> (r: Result<Vec<(String, String)>, ExcelError>)
    ensures
        r is Ok <==> merges_of(match t {
            Some(x) => Some(*x),
            None => None,
        }) is Some,
        r is Ok ==> pairs_view(r->Ok_0@) == merges_of(
            match t {
                Some(x) => Some(*x),
                None => None,
            },
        )->0,
{
    let mut out: Vec<(String, String)> = Vec::new();
    let l = match t {
        None => {
            assert(pairs_view(out@) =~= Seq::empty());
            return Ok(out);
        },
        Some(Term::List(l)) => l,
        Some(_) => return Err(ExcelError::BadArg),
    };
    let n = l.len();
    for i in 0..n
        invariant
            n == l@.len(),
            t == Some(&Term::List(*l)),
            out@.len() == i,
            forall|j: int| 0 <= j < i ==> (#[trigger] merge_pair(l@[j])) is Some,
            forall|j: int| 0 <= j < i ==> (#[trigger] pairs_view(out@)[j]) == merge_pair(l@[j])->0,
    {
        let ghost before = out@;
        match &l[i] {
            Term::Tuple(v) => {
                if v.len() != 2 {
                    assert(merge_pair(l@[i as int]) is None);
                    return Err(ExcelError::BadArg);
                }
                match (&v[0], &v[1]) {
                    (Term::Binary(a), Term::Binary(b)) => out.push((a.clone(), b.clone())),
                    _ => {
                        assert(merge_pair(l@[i as int]) is None);
                        return Err(ExcelError::BadArg);
                    },
                }
            },
            _ => {
                assert(merge_pair(l@[i as int]) is None);
                return Err(ExcelError::BadArg);
            },
        }
        proof {
            assert forall|j: int| 0 <= j <= i implies (#[trigger] pairs_view(out@)[j]) == merge_pair(
                l@[j],
            )->0 by {
                if j < i {
                    assert(out@[j] == before[j]);
                    assert(pairs_view(before)[j] == (before[j].0@, before[j].1@));
                }
            }
        }
    }
    assert(pairs_view(out@) =~= l@.map_values(|x: Term| merge_pair(x)->0));
    Ok(out)
}

/// A pane freeze: a pair of integers that fit an `i32`; anything else is none.
pub open spec fn pane_of(t: Option<Term>) -> Option<(i32, i32)> {
    match t {
        Some(Term::Tuple(v)) => if v@.len() == 2 && v@[0] is Integer && v@[1] is Integer
            && i32::MIN <= v@[0]->Integer_0 <= i32::MAX && i32::MIN <= v@[1]->Integer_0
            <= i32::MAX {
            Some((v@[0]->Integer_0 as i32, v@[1]->Integer_0 as i32))
        } else {
            None
        },
        _ => None,
    }
}

fn decode_pane(t: Option<&Term>) -> (r: Option<(i32, i32)>)
    ensures
        r == pane_of(match t {
            Some(x) => Some(*x),
            None => None,
        }),
{
    match t {
        Some(Term::Tuple(v)) => {
            if v.len() != 2 {
                return None;
            }
            match (&v[0], &v[1]) {
                (Term::Integer(x), Term::Integer(y)) => {
                    if i32::MIN as i64 <= *x && *x <= i32::MAX as i64 && i32::MIN as i64 <= *y && *y
                        <= i32::MAX as i64 {
                        Some((*x as i32, *y as i32))
                    } else {
                        None
                    }
                },
                _ => None,
            }
        },
        _ => None,
    }
}

/// The sheet name: a text, else empty.
pub open spec fn name_of(t: Option<Term>) -> Seq<char> {
    match t {
        Some(Term::Binary(s)) => s@,
        _ => Seq::empty(),
    }
}

/// Gridlines show unless the flag is the atom `false`.
pub open spec fn grid_of(t: Option<Term>) -> bool {
    match t {
        Some(Term::Atom(s)) => s@ != "false"@,
        _ => true,
    }
}

/// A host value that describes a sheet: a map with `rows`, and well-formed
/// optional widths, heights and merged ranges.
pub open spec fn sheet_term_ok(t: Term) -> bool {
    match t {
        Term::Dict(p) => {
            &&& dict_get(p@, "rows"@) is Some
            &&& int_map_ok(dict_get(p@, "col_widths"@))
            &&& int_map_ok(dict_get(p@, "row_heights"@))
            &&& merges_of(dict_get(p@, "merge_cells"@)) is Some
        },
        _ => false,
    }
}

/// The sheet that a host value describes.
pub open spec fn decodes_to(t: Term, s: Sheet) -> bool {
    match t {
        Term::Dict(p) => {
            &&& s.wf()
            &&& s.name@ == name_of(dict_get(p@, "name"@))
            &&& s.rows == dict_get(p@, "rows"@)->0
            &&& forall|k: i32|
                lookup(s.col_widths@, k) == int_map_get(dict_get(p@, "col_widths"@), k)
            &&& forall|k: i32|
                lookup(s.row_heights@, k) == int_map_get(dict_get(p@, "row_heights"@), k)
            &&& pairs_view(s.merge_cells@) == merges_of(dict_get(p@, "merge_cells"@))->0
            &&& s.pane_freeze == pane_of(dict_get(p@, "pane_freeze"@))
            &&& s.show_grid_lines == grid_of(dict_get(p@, "show_grid_lines"@))
        },
        _ => false,
    }
}

/// Name of the text that a time stamp in seconds since the epoch is written as,
/// where it is in range.
pub uninterp spec fn timestamp_text(secs: int) -> Option<Seq<char>>;

/// Relies on `chrono::NaiveDateTime::from_timestamp_opt` and its `Debug` form:
/// the date and time of a second count, when in range.
#[verifier::external_body]
#[allow(deprecated)]
fn epoch_text(secs: i64) -> (r: Option<String>)
    ensures
        r is Some <==> timestamp_text(secs as int) is Some,
        r is Some ==> r->0@ == timestamp_text(secs as int)->0,
{
    chrono::NaiveDateTime::from_timestamp_opt(secs, 0).map(|d| format!("{:?}", d))
}

/// The creation time stamp: seconds since the epoch as a date and time, a
/// text as it is, else `now`.
pub open spec fn datetime_of(t: Option<Term>, now: Seq<char>) -> Seq<char> {
    match t {
        Some(Term::Integer(secs)) => match timestamp_text(secs as int) {
            Some(s) => s,
            None => now,
        },
        Some(Term::Binary(s)) => s@,
        _ => now,
    }
}

/// A host value that describes a workbook: a map whose `sheets`, if present,
/// is a list of sheet descriptions.
pub open spec fn workbook_term_ok(t: Term) -> bool {
    match t {
        Term::Dict(p) => match dict_get(p@, "sheets"@) {
            None => true,
            Some(Term::List(v)) => forall|i: int| 0 <= i < v@.len() ==> sheet_term_ok(#[trigger] v@[i]),
            _ => false,
        },
        _ => false,
    }
}

/// The sheet descriptions of a workbook description.
pub open spec fn sheet_terms(t: Term) -> Seq<Term> {
    match t {
        Term::Dict(p) => match dict_get(p@, "sheets"@) {
            Some(Term::List(v)) => v@,
            _ => Seq::empty(),
        },
        _ => Seq::empty(),
    }
}

impl Sheet {
    /// Reads a sheet from its host description: `rows` is required; the name
    /// defaults to empty, widths, heights and merged ranges to none, the pane
    /// freeze to none and gridlines to shown.
    pub fn decode(term: Term) -> (r: Result<Sheet, ExcelError>)
        ensures
            r is Ok <==> sheet_term_ok(term),
            r is Ok ==> decodes_to(term, r->Ok_0),
    {
        let mut pairs = match term {
            Term::Dict(p) => p,
            _ => return Err(ExcelError::BadArg),
        };
        let name = match dict_lookup(&pairs, "name") {
            Some(Term::Binary(s)) => s.clone(),
            _ => String::new(),
        };
        let col_widths = decode_hash_map(dict_lookup(&pairs, "col_widths"))?;
        let row_heights = decode_hash_map(dict_lookup(&pairs, "row_heights"))?;
        let merge_cells = decode_merge_cells(dict_lookup(&pairs, "merge_cells"))?;
        let pane_freeze = decode_pane(dict_lookup(&pairs, "pane_freeze"));
        let f = String::from_str("false");
        let show_grid_lines = match dict_lookup(&pairs, "show_grid_lines") {
            Some(Term::Atom(s)) => *s != f,
            _ => true,
        };
        let j = match dict_index(&pairs, "rows") {
            Some(j) => j,
            None => return Err(ExcelError::BadArg),
        };
        let (_, rows) = pairs.remove(j);
        Ok(
            Sheet {
                name,
                rows,
                col_widths,
                row_heights,
                merge_cells,
                pane_freeze,
                show_grid_lines,
            },
        )
    }
}

impl Workbook {
    /// Reads a workbook from its host description: its sheets in order (none
    /// when absent) and its time stamp, with `now` standing in when none is given.
    pub fn decode(term: Term, now: String) -> (r: Result<Workbook, ExcelError>)
        ensures
            r is Ok <==> workbook_term_ok(term),
            r is Ok ==> ({
                let w = r->Ok_0;
                &&& w.wf()
                &&& w.datetime@ == datetime_of(dict_get(term->Dict_0@, "datetime"@), now@)
                &&& w.sheets@.len() == sheet_terms(term).len()
                &&& forall|i: int|
                    0 <= i < w.sheets@.len() ==> decodes_to(sheet_terms(term)[i], #[trigger] w.sheets@[i])
            }),
    {
        let mut pairs = match term {
            Term::Dict(p) => p,
            _ => return Err(ExcelError::BadArg),
        };
        let datetime = match dict_lookup(&pairs, "datetime") {
            Some(Term::Integer(secs)) => match epoch_text(*secs) {
                Some(s) => s,
                None => now,
            },
            Some(Term::Binary(s)) => s.clone(),
            _ => now,
        };
        let mut sheets: Vec<Sheet> = Vec::new();
        let mut items = match dict_index(&pairs, "sheets") {
            None => return Ok(Workbook { sheets, datetime }),
            Some(j) => match pairs.remove(j).1 {
                Term::List(v) => v,
                _ => return Err(ExcelError::BadArg),
            },
        };
        let ghost all = items@;
        assert(all == sheet_terms(term));
        let n = items.len();
        for i in 0..n
            invariant
                n == all.len(),
                all == sheet_terms(term),
                items@ == all.subrange(i as int, n as int),
                sheets@.len() == i,
                forall|k: int| 0 <= k < i ==> sheet_term_ok(#[trigger] all[k]),
                forall|k: int| 0 <= k < i ==> decodes_to(all[k], #[trigger] sheets@[k]),
        {
            let ghost before = sheets@;
            let t = items.remove(0);
            assert(t == all[i as int]);
            let s = Sheet::decode(t)?;
            sheets.push(s);
            proof {
                assert(items@ =~= all.subrange(i as int + 1, n as int));
                assert forall|k: int| 0 <= k <= i implies decodes_to(all[k], #[trigger] sheets@[k]) by {
                    if k < i {
                        assert(sheets@[k] == before[k]);
                    }
                }
            }
        }
        let w = Workbook { sheets, datetime };
        assert forall|i: int| 0 <= i < w.sheets@.len() implies (#[trigger] w.sheets@[i]).wf() by {
            assert(decodes_to(all[i], w.sheets@[i]));
        }
        Ok(w)
    }
}

} // verus!
