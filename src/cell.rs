//! The value of a cell, classified from the host value and the date-ness of
//! the cell's style.
use vstd::prelude::*;
use crate::model::pairs_view;
use crate::term::{Term, term_str, term_string};
use crate::text::int_text;

verus! {

/// A calendar date and a time of day.
#[derive(Debug, Clone, Copy)]
pub struct DateTime {
    pub year: i32,
    pub month: u32,
    pub day: u32,
    pub hour: u32,
    pub minute: u32,
    pub second: u32,
}

/// The value of a cell.
#[derive(Debug)]
pub enum CellValue {
    /// A serial date-time number, as its text.
    ExcelTS(String),
    /// A formula and its options (`value` is the cached result).
    Formula(String, Vec<(String, String)>),
    String(String),
    /// A number, as its text.
    Number(String),
    Date(DateTime),
    Empty,
    /// A shape that no cell kind has: nothing is written for it.
    Unrecognized,
}

pub enum CellValueView {
    ExcelTS(Seq<char>),
    Formula(Seq<char>, Seq<(Seq<char>, Seq<char>)>),
    String(Seq<char>),
    Number(Seq<char>),
    Date(DateTime),
    Empty,
    Unrecognized,
}

impl View for CellValue {
    type V = CellValueView;

    open spec fn view(&self) -> CellValueView {
        match self {
            CellValue::ExcelTS(s) => CellValueView::ExcelTS(s@),
            CellValue::Formula(f, o) => CellValueView::Formula(f@, pairs_view(o@)),
            CellValue::String(s) => CellValueView::String(s@),
            CellValue::Number(s) => CellValueView::Number(s@),
            CellValue::Date(d) => CellValueView::Date(*d),
            CellValue::Empty => CellValueView::Empty,
            CellValue::Unrecognized => CellValueView::Unrecognized,
        }
    }
}

/// Whether year, month and day name a day of the calendar that dates can hold.
pub uninterp spec fn is_calendar_date(y: int, m: int, d: int) -> bool;

/// Relies on `chrono::NaiveDate::from_ymd_opt`, which gives a date exactly for
/// a valid, in-range year, month and day; months run 1 to 12 and days 1 to 31.
#[verifier::external_body]
fn calendar_date(y: i32, m: u32, d: u32) -> (r: bool)
    ensures
        r == is_calendar_date(y as int, m as int, d as int),
        r ==> 1 <= m <= 12 && 1 <= d <= 31,
{
    chrono::NaiveDate::from_ymd_opt(y, m, d).is_some()
}

/// Three integer elements.
pub open spec fn int_triple(t: Term) -> Option<(i64, i64, i64)> {
    match t {
        Term::Tuple(v) => if v@.len() == 3 && v@[0] is Integer && v@[1] is Integer
            && v@[2] is Integer {
            Some((v@[0]->Integer_0, v@[1]->Integer_0, v@[2]->Integer_0))
        } else {
            None
        },
        _ => None,
    }
}

/// The date-time that `{{y, m, d}, {h, mi, s}}` names, where it names a valid one.
pub open spec fn date_of(v: Seq<Term>) -> Option<DateTime> {
    if v.len() == 2 && int_triple(v[0]) is Some && int_triple(v[1]) is Some {
        let (y, m, d) = int_triple(v[0])->0;
        let (h, mi, s) = int_triple(v[1])->0;
        if i32::MIN <= y <= i32::MAX && 0 <= m <= u32::MAX && 0 <= d <= u32::MAX
            && is_calendar_date(y as int, m as int, d as int) && 0 <= h < 24 && 0 <= mi < 60
            && 0 <= s < 60 {
            Some(
                DateTime {
                    year: y as i32,
                    month: m as u32,
                    day: d as u32,
                    hour: h as u32,
                    minute: mi as u32,
                    second: s as u32,
                },
            )
        } else {
            None
        }
    } else {
        None
    }
}

/// Formula options: a map whose keys and values are all text.
pub open spec fn opts_of(t: Term) -> Option<Seq<(Seq<char>, Seq<char>)>> {
    match t {
        Term::Dict(pairs) => if forall|i: int|
            0 <= i < pairs@.len() ==> term_str(#[trigger] pairs@[i].0) is Some && term_str(
                pairs@[i].1,
            ) is Some {
            Some(
                pairs@.map_values(
                    |p: (Term, Term)| (term_str(p.0)->0, term_str(p.1)->0),
                ),
            )
        } else {
            None
        },
        _ => None,
    }
}

/// A tagged tuple: `{excelts, text}` or `{formula, text}` or `{formula, text, options}`.
pub open spec fn tagged_value(v: Seq<Term>) -> CellValueView {
    if 2 <= v.len() <= 3 && term_str(v[0]) is Some && term_str(v[1]) is Some {
        let tag = term_str(v[0])->0;
        let body = term_str(v[1])->0;
        if tag == "excelts"@ && v.len() == 2 {
            CellValueView::ExcelTS(body)
        } else if tag == "formula"@ && v.len() == 2 {
            CellValueView::Formula(body, Seq::empty())
        } else if tag == "formula"@ && opts_of(v[2]) is Some {
            CellValueView::Formula(body, opts_of(v[2])->0)
        } else {
            CellValueView::Unrecognized
        }
    } else {
        CellValueView::Unrecognized
    }
}

/// The value that a host value stands for, under a date format or not.
/// Numbers under a date format are serial date-times; shapes that fit no kind
/// are `Unrecognized`.
pub open spec fn classify(t: Term, is_date: bool) -> CellValueView {
    match t {
        Term::Integer(i) => if is_date {
            CellValueView::ExcelTS(int_text(i as int))
        } else {
            CellValueView::Number(int_text(i as int))
        },
        Term::Real(s) => if is_date {
            CellValueView::ExcelTS(s@)
        } else {
            CellValueView::Number(s@)
        },
        Term::Binary(s) => CellValueView::String(s@),
        Term::Atom(s) => if s@ == "empty"@ {
            CellValueView::Empty
        } else {
            CellValueView::Unrecognized
        },
        Term::Tuple(v) => if is_date && date_of(v@) is Some {
            CellValueView::Date(date_of(v@)->0)
        } else {
            tagged_value(v@)
        },
        _ => CellValueView::Unrecognized,
    }
}

fn int_triple_of(t: &Term) -> (r: Option<(i64, i64, i64)>)
    ensures
        r == int_triple(*t),
{
    match t {
        Term::Tuple(v) => {
            if v.len() == 3 {
                match (&v[0], &v[1], &v[2]) {
                    (Term::Integer(a), Term::Integer(b), Term::Integer(c)) => Some((*a, *b, *c)),
                    _ => None,
                }
            } else {
                None
            }
        },
        _ => None,
    }
}

fn in_u32(x: i64) -> (r: bool)
    ensures
        r == (0 <= x <= u32::MAX),
{
    0 <= x && x <= u32::MAX as i64
}

fn decode_date(v: &Vec<Term>) -> (r: Option<DateTime>)
    ensures
        r == date_of(v@),
{
    if v.len() != 2 {
        return None;
    }
    let (y, m, d) = match int_triple_of(&v[0]) {
        Some(p) => p,
        None => return None,
    };
    let (h, mi, s) = match int_triple_of(&v[1]) {
        Some(p) => p,
        None => return None,
    };
    if !(i32::MIN as i64 <= y && y <= i32::MAX as i64 && in_u32(m) && in_u32(d)) {
        return None;
    }
    let calendar = calendar_date(y as i32, m as u32, d as u32);
    date_time(y as i32, m as u32, d as u32, h, mi, s, calendar)
}

/// The date-time of a day and a time of day, given whether the day is on the
/// calendar; `None` unless it is and the time lies within a day.
pub fn date_time(y: i32, m: u32, d: u32, h: i64, mi: i64, s: i64, calendar: bool) -> (r: Option<
    DateTime,
>)
    ensures
        r == (if calendar && 0 <= h < 24 && 0 <= mi < 60 && 0 <= s < 60 {
            Some(
                DateTime {
                    year: y,
                    month: m,
                    day: d,
                    hour: h as u32,
                    minute: mi as u32,
                    second: s as u32,
                },
            )
        } else {
            None
        }),
{
    if !(calendar && 0 <= h && h < 24 && 0 <= mi && mi < 60 && 0 <= s && s < 60) {
        return None;
    }
    Some(
        DateTime {
            year: y,
            month: m,
            day: d,
            hour: h as u32,
            minute: mi as u32,
            second: s as u32,
        },
    )
}

fn decode_opts(t: &Term) -> (r: Option<Vec<(String, String)>>)
    ensures
        r is Some <==> opts_of(*t) is Some,
        r is Some ==> pairs_view(r->0@) == opts_of(*t)->0,
{
    match t {
        Term::Dict(pairs) => {
            let mut out: Vec<(String, String)> = Vec::new();
            let n = pairs.len();
            for i in 0..n
                invariant
                    n == pairs@.len(),
                    *t == Term::Dict(*pairs),
                    out@.len() == i,
                    forall|j: int|
                        0 <= j < i ==> term_str(#[trigger] pairs@[j].0) is Some && term_str(
                            pairs@[j].1,
                        ) is Some,
                    forall|j: int|
                        0 <= j < i ==> (#[trigger] out@[j]).0@ == term_str(pairs@[j].0)->0
                            && out@[j].1@ == term_str(pairs@[j].1)->0,
            {
                let k = term_string(&pairs[i].0);
                let v = term_string(&pairs[i].1);
                match (k, v) {
                    (Some(k), Some(v)) => out.push((k, v)),
                    _ => {
                        assert(!(term_str(pairs@[i as int].0) is Some && term_str(
                            pairs@[i as int].1,
                        ) is Some));
                        assert(opts_of(*t) is None);
                        return None;
                    },
                }
            }
            assert(pairs_view(out@) =~= pairs@.map_values(
                |p: (Term, Term)| (term_str(p.0)->0, term_str(p.1)->0),
            ));
            Some(out)
        },
        _ => None,
    }
}

fn tagged(v: &Vec<Term>) -> (r: CellValue)
    ensures
        r@ == tagged_value(v@),
{
    if v.len() < 2 || v.len() > 3 {
        return CellValue::Unrecognized;
    }
    let tag = match term_string(&v[0]) {
        Some(s) => s,
        None => return CellValue::Unrecognized,
    };
    let body = match term_string(&v[1]) {
        Some(s) => s,
        None => return CellValue::Unrecognized,
    };
    let excelts = String::from_str("excelts");
    let formula = String::from_str("formula");
    if tag == excelts && v.len() == 2 {
        CellValue::ExcelTS(body)
    } else if tag == formula && v.len() == 2 {
        let o: Vec<(String, String)> = Vec::new();
        assert(pairs_view(o@) =~= Seq::empty());
        CellValue::Formula(body, o)
    } else if tag == formula {
        match decode_opts(&v[2]) {
            Some(o) => CellValue::Formula(body, o),
            None => CellValue::Unrecognized,
        }
    } else {
        CellValue::Unrecognized
    }
}

impl CellValue {
    /// Classifies a host value; `is_date` says whether the cell's style has a
    /// date format. Never fails: unknown shapes give `CellValue::Unrecognized`.
    pub fn new(term: &Term, is_date: bool) -> (r: CellValue)
        ensures
            r@ == classify(*term, is_date),
    {
        match term {
            Term::Integer(i) => {
                let s = term_string(term).unwrap();
                if is_date {
                    CellValue::ExcelTS(s)
                } else {
                    CellValue::Number(s)
                }
            },
            Term::Real(s) => if is_date {
                CellValue::ExcelTS(s.clone())
            } else {
                CellValue::Number(s.clone())
            },
            Term::Binary(s) => CellValue::String(s.clone()),
            Term::Atom(s) => {
                let empty = String::from_str("empty");
                if *s == empty {
                    CellValue::Empty
                } else {
                    CellValue::Unrecognized
                }
            },
            Term::Tuple(v) => {
                if is_date {
                    if let Some(d) = decode_date(v) {
                        return CellValue::Date(d);
                    }
                }
                tagged(v)
            },
            _ => CellValue::Unrecognized,
        }
    }
}

} // verus!
