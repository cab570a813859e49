use vstd::prelude::*;
use crate::entity::{Area, Artist};
use crate::query::{str_eq, QueryError, Selection};

verus! {

/// A scalar field value in a response.
pub enum Scalar {
    Null,
    Int(i64),
    Text(String),
    Bool(bool),
}

/// What a scalar value denotes.
pub enum ScalarView {
    Null,
    Int(int),
    Text(Seq<char>),
    Bool(bool),
}

impl View for Scalar {
    type V = ScalarView;

    open spec fn view(&self) -> ScalarView {
        match self {
            Scalar::Null => ScalarView::Null,
            Scalar::Int(i) => ScalarView::Int(*i as int),
            Scalar::Text(s) => ScalarView::Text(s@),
            Scalar::Bool(b) => ScalarView::Bool(*b),
        }
    }
}

/// One selected field of a resolved object, under the name it was selected by.
pub struct Entry {
    pub name: String,
    pub value: Scalar,
}

/// An optional integer column as a response value.
pub open spec fn opt_int(o: Option<i32>) -> ScalarView {
    match o {
        Some(v) => ScalarView::Int(v as int),
        None => ScalarView::Null,
    }
}

/// An optional year column as a response value.
pub open spec fn opt_year(o: Option<i16>) -> ScalarView {
    match o {
        Some(v) => ScalarView::Int(v as int),
        None => ScalarView::Null,
    }
}

/// The value of the artist field called `f`, or `None` when the artist type has no such field.
pub open spec fn artist_field(a: Artist, f: Seq<char>) -> Option<ScalarView> {
    if f == "id"@ {
        Some(ScalarView::Int(a.id as int))
    } else if f == "gid"@ {
        Some(ScalarView::Text(a.gid@))
    } else if f == "name"@ {
        Some(ScalarView::Text(a.name@))
    } else if f == "sort_name"@ {
        Some(ScalarView::Text(a.sort_name@))
    } else if f == "comment"@ {
        Some(ScalarView::Text(a.comment@))
    } else if f == "type"@ {
        Some(opt_int(a.artist_type))
    } else if f == "area"@ {
        Some(opt_int(a.area))
    } else if f == "gender"@ {
        Some(opt_int(a.gender))
    } else if f == "begin_date_year"@ {
        Some(opt_year(a.begin_date_year))
    } else if f == "end_date_year"@ {
        Some(opt_year(a.end_date_year))
    } else if f == "ended"@ {
        Some(ScalarView::Bool(a.ended))
    } else {
        None
    }
}

/// The value of the area field called `f`, or `None` when the area type has no such field.
pub open spec fn area_field(a: Area, f: Seq<char>) -> Option<ScalarView> {
    if f == "id"@ {
        Some(ScalarView::Int(a.id as int))
    } else if f == "gid"@ {
        Some(ScalarView::Text(a.gid@))
    } else if f == "name"@ {
        Some(ScalarView::Text(a.name@))
    } else if f == "type"@ {
        Some(opt_int(a.area_type))
    } else {
        None
    }
}

/// Whether `f` names a field of the artist type.
pub open spec fn is_artist_field(f: Seq<char>) -> bool {
    f == "id"@ || f == "gid"@ || f == "name"@ || f == "sort_name"@ || f == "comment"@ || f
        == "type"@ || f == "area"@ || f == "gender"@ || f == "begin_date_year"@ || f
        == "end_date_year"@ || f == "ended"@
}

/// Whether `f` names a field of the area type.
pub open spec fn is_area_field(f: Seq<char>) -> bool {
    f == "id"@ || f == "gid"@ || f == "name"@ || f == "type"@
}

/// Every selection is a known artist field with no sub-selection.
pub open spec fn artist_leaves(sel: Seq<Selection>) -> bool {
    forall|i: int| #![trigger sel[i]] 0 <= i < sel.len() ==> is_artist_field(sel[i].name@) && sel[i].children@.len() == 0
}

/// Every selection is a known area field with no sub-selection.
pub open spec fn area_leaves(sel: Seq<Selection>) -> bool {
    forall|i: int| #![trigger sel[i]] 0 <= i < sel.len() ==> is_area_field(sel[i].name@) && sel[i].children@.len() == 0
}

/// `entries` holds, in selection order and under the selected names, the
/// artist's fields that `sel` asks for, and nothing else.
pub open spec fn artist_record(entries: Seq<Entry>, a: Artist, sel: Seq<Selection>) -> bool {
    entries.len() == sel.len() && forall|i: int|
        #![trigger entries[i]]
        0 <= i < sel.len() ==> entries[i].name@ == sel[i].name@ && artist_field(
            a,
            sel[i].name@,
        ) == Some(entries[i].value@)
}

/// `entries` holds, in selection order and under the selected names, the
/// area's fields that `sel` asks for, and nothing else.
pub open spec fn area_record(entries: Seq<Entry>, a: Area, sel: Seq<Selection>) -> bool {
    entries.len() == sel.len() && forall|i: int|
        #![trigger entries[i]]
        0 <= i < sel.len() ==> entries[i].name@ == sel[i].name@ && area_field(
            a,
            sel[i].name@,
        ) == Some(entries[i].value@)
}

fn int_of(o: Option<i32>) -> (r: Scalar)
    ensures
        r@ == opt_int(o),
{
    match o {
        Some(v) => Scalar::Int(v as i64),
        None => Scalar::Null,
    }
}

fn year_of(o: Option<i16>) -> (r: Scalar)
    ensures
        r@ == opt_year(o),
{
    match o {
        Some(v) => Scalar::Int(v as i64),
        None => Scalar::Null,
    }
}

/// Resolves one scalar field of an artist row.
pub fn resolve_artist_field(a: &Artist, f: &str) -> (r: Option<Scalar>)
    ensures
        match r {
            Some(v) => artist_field(*a, f@) == Some(v@),
            None => artist_field(*a, f@) is None,
        },
        r is Some <==> is_artist_field(f@),
{
    if str_eq(f, "id") {
        Some(Scalar::Int(a.id as i64))
    } else if str_eq(f, "gid") {
        Some(Scalar::Text(a.gid.clone()))
    } else if str_eq(f, "name") {
        Some(Scalar::Text(a.name.clone()))
    } else if str_eq(f, "sort_name") {
        Some(Scalar::Text(a.sort_name.clone()))
    } else if str_eq(f, "comment") {
        Some(Scalar::Text(a.comment.clone()))
    } else if str_eq(f, "type") {
        Some(int_of(a.artist_type))
    } else if str_eq(f, "area") {
        Some(int_of(a.area))
    } else if str_eq(f, "gender") {
        Some(int_of(a.gender))
    } else if str_eq(f, "begin_date_year") {
        Some(year_of(a.begin_date_year))
    } else if str_eq(f, "end_date_year") {
        Some(year_of(a.end_date_year))
    } else if str_eq(f, "ended") {
        Some(Scalar::Bool(a.ended))
    } else {
        None
    }
}

/// Resolves one scalar field of an area row.
pub fn resolve_area_field(a: &Area, f: &str) -> (r: Option<Scalar>)
    ensures
        match r {
            Some(v) => area_field(*a, f@) == Some(v@),
            None => area_field(*a, f@) is None,
        },
        r is Some <==> is_area_field(f@),
{
    if str_eq(f, "id") {
        Some(Scalar::Int(a.id as i64))
    } else if str_eq(f, "gid") {
        Some(Scalar::Text(a.gid.clone()))
    } else if str_eq(f, "name") {
        Some(Scalar::Text(a.name.clone()))
    } else if str_eq(f, "type") {
        Some(int_of(a.area_type))
    } else {
        None
    }
}

/// Decides whether `f` names a field of the artist type.
pub fn artist_field_name(f: &str) -> (r: bool)
    ensures
        r == is_artist_field(f@),
{
    str_eq(f, "id") || str_eq(f, "gid") || str_eq(f, "name") || str_eq(f, "sort_name") || str_eq(
        f,
        "comment",
    ) || str_eq(f, "type") || str_eq(f, "area") || str_eq(f, "gender") || str_eq(
        f,
        "begin_date_year",
    ) || str_eq(f, "end_date_year") || str_eq(f, "ended")
}

/// Decides whether `f` names a field of the area type.
pub fn area_field_name(f: &str) -> (r: bool)
    ensures
        r == is_area_field(f@),
{
    str_eq(f, "id") || str_eq(f, "gid") || str_eq(f, "name") || str_eq(f, "type")
}

/// Decides whether every selection is a known artist field with no sub-selection.
pub fn check_artist_leaves(sel: &Vec<Selection>) -> (r: bool)
    ensures
        r == artist_leaves(sel@),
{
    let mut i: usize = 0;
    while i < sel.len()
        invariant
            i <= sel@.len(),
            forall|k: int| #![trigger sel@[k]] 0 <= k < i ==> is_artist_field(sel@[k].name@) && sel@[k].children@.len() == 0,
        decreases sel@.len() - i,
    {
        let ok = sel[i].children.len() == 0 && artist_field_name(sel[i].name.as_str());
        if !ok {
            assert(artist_leaves(sel@) ==> is_artist_field(sel@[i as int].name@) && sel@[i as int].children@.len()
                == 0);
            return false;
        }
        assert(is_artist_field(sel@[i as int].name@) && sel@[i as int].children@.len() == 0);
        i = i + 1;
    }
    true
}

/// Decides whether every selection is a known area field with no sub-selection.
pub fn check_area_leaves(sel: &Vec<Selection>) -> (r: bool)
    ensures
        r == area_leaves(sel@),
{
    let mut i: usize = 0;
    while i < sel.len()
        invariant
            i <= sel@.len(),
            forall|k: int| #![trigger sel@[k]] 0 <= k < i ==> is_area_field(sel@[k].name@) && sel@[k].children@.len() == 0,
        decreases sel@.len() - i,
    {
        let ok = sel[i].children.len() == 0 && area_field_name(sel[i].name.as_str());
        if !ok {
            assert(area_leaves(sel@) ==> is_area_field(sel@[i as int].name@) && sel@[i as int].children@.len()
                == 0);
            return false;
        }
        assert(is_area_field(sel@[i as int].name@) && sel@[i as int].children@.len() == 0);
        i = i + 1;
    }
    true
}

/// Projects an artist row onto the selected sub-fields.
pub fn project_artist(a: &Artist, sel: &Vec<Selection>) -> (r: Result<Vec<Entry>, QueryError>)
    ensures
        r is Ok <==> artist_leaves(sel@),
        match r {
            Ok(v) => artist_record(v@, *a, sel@),
            Err(e) => e == QueryError::UnknownField,
        },
{
    let mut out: Vec<Entry> = Vec::new();
    let mut i: usize = 0;
    while i < sel.len()
        invariant
            i <= sel@.len(),
            out@.len() == i,
            artist_leaves(sel@.subrange(0, i as int)),
            forall|k: int|
                #![trigger out@[k]]
                0 <= k < i ==> out@[k].name@ == sel@[k].name@ && artist_field(*a, sel@[k].name@) == Some(
                    out@[k].value@,
                ),
        decreases sel@.len() - i,
    {
        let s = &sel[i];
        if s.children.len() != 0 {
            assert(artist_leaves(sel@) ==> is_artist_field(sel@[i as int].name@) && sel@[i as int].children@.len()
                == 0);
            return Err(QueryError::UnknownField);
        }
        match resolve_artist_field(a, s.name.as_str()) {
            Some(v) => {
                out.push(Entry { name: s.name.clone(), value: v });
            },
            None => {
                assert(artist_leaves(sel@) ==> is_artist_field(sel@[i as int].name@));
                return Err(QueryError::UnknownField);
            },
        }
        assert(artist_leaves(sel@.subrange(0, i + 1))) by {
            assert forall|k: int| 0 <= k < i + 1 implies is_artist_field(
                #[trigger] sel@.subrange(0, i + 1)[k].name@,
            ) && sel@.subrange(0, i + 1)[k].children@.len() == 0 by {
                if k < i {
                    assert(sel@.subrange(0, i + 1)[k] == sel@.subrange(0, i as int)[k]);
                }
            }
        }
        i = i + 1;
    }
    assert(sel@.subrange(0, sel@.len() as int) == sel@);
    Ok(out)
}

/// Projects an area row onto the selected sub-fields.
pub fn project_area(a: &Area, sel: &Vec<Selection>) -> (r: Result<Vec<Entry>, QueryError>)
    ensures
        r is Ok <==> area_leaves(sel@),
        match r {
            Ok(v) => area_record(v@, *a, sel@),
            Err(e) => e == QueryError::UnknownField,
        },
{
    let mut out: Vec<Entry> = Vec::new();
    let mut i: usize = 0;
    while i < sel.len()
        invariant
            i <= sel@.len(),
            out@.len() == i,
            area_leaves(sel@.subrange(0, i as int)),
            forall|k: int|
                #![trigger out@[k]]
                0 <= k < i ==> out@[k].name@ == sel@[k].name@ && area_field(*a, sel@[k].name@) == Some(
                    out@[k].value@,
                ),
        decreases sel@.len() - i,
    {
        let s = &sel[i];
        if s.children.len() != 0 {
            assert(area_leaves(sel@) ==> is_area_field(sel@[i as int].name@) && sel@[i as int].children@.len()
                == 0);
            return Err(QueryError::UnknownField);
        }
        match resolve_area_field(a, s.name.as_str()) {
            Some(v) => {
                out.push(Entry { name: s.name.clone(), value: v });
            },
            None => {
                assert(area_leaves(sel@) ==> is_area_field(sel@[i as int].name@));
                return Err(QueryError::UnknownField);
            },
        }
        assert(area_leaves(sel@.subrange(0, i + 1))) by {
            assert forall|k: int| 0 <= k < i + 1 implies is_area_field(
                #[trigger] sel@.subrange(0, i + 1)[k].name@,
            ) && sel@.subrange(0, i + 1)[k].children@.len() == 0 by {
                if k < i {
                    assert(sel@.subrange(0, i + 1)[k] == sel@.subrange(0, i as int)[k]);
                }
            }
        }
        i = i + 1;
    }
    assert(sel@.subrange(0, sel@.len() as int) == sel@);
    Ok(out)
}

} // verus!
