use vstd::prelude::*;
use crate::entity::{Area, Artist};
use crate::fields::{
    area_field, area_leaves, area_record, artist_field, artist_leaves, artist_record, check_area_leaves, check_artist_leaves,
    project_area, project_artist, Entry, Scalar, ScalarView,
};
use crate::provider::{area_ids, artist_ids, next_count, page, Snapshot};
use crate::query::{
    arg_value, check_limits, depth_all, find_arg, str_eq, within_limits, Limits, QueryError,
    Selection,
};

verus! {

/// Page size of a list field whose `limit` argument is absent.
pub const DEFAULT_LIMIT: u64 = 10;

/// What one root field needs from the row provider, with its arguments bound.
#[derive(Clone, Copy, Debug, PartialEq, Eq)]
pub enum Plan {
    Health,
    Ping,
    ArtistById(i32),
    ArtistPage { offset: u64, limit: u64 },
    ArtistCount,
    AreaById(i32),
    AreaPage { offset: u64, limit: u64 },
}

/// What the row provider returned for a plan.
pub enum Answer {
    Health,
    Connected(bool),
    Artist(Option<Artist>),
    Artists(Vec<Artist>),
    Count(u64),
    Area(Option<Area>),
    Areas(Vec<Area>),
}

/// The resolved value of one root field.
pub enum Resolved {
    Scalar(Scalar),
    Object(Option<Vec<Entry>>),
    List(Vec<Vec<Entry>>),
}

/// One root field of a response, under the name it was selected by: its
/// value, or the error that made this nullable field null.
pub struct Output {
    pub name: String,
    pub value: Result<Resolved, QueryError>,
}

/// A non-negative paging argument, or `default` when it is absent.
pub open spec fn page_arg(args: Seq<crate::query::Argument>, name: Seq<char>, default: u64) -> Result<
    u64,
    QueryError,
> {
    match arg_value(args, name) {
        None => Ok(default),
        Some(v) => if v < 0 {
            Err(QueryError::InvalidArgument)
        } else {
            Ok(v as u64)
        },
    }
}

/// The required `id` argument, which must fit the identifier type.
pub open spec fn id_arg(args: Seq<crate::query::Argument>) -> Result<i32, QueryError> {
    match arg_value(args, "id"@) {
        None => Err(QueryError::MissingArgument),
        Some(v) => if i32::MIN <= v <= i32::MAX {
            Ok(v as i32)
        } else {
            Err(QueryError::InvalidArgument)
        },
    }
}

/// A scalar root field: no sub-selection allowed.
pub open spec fn leaf_plan(s: Selection, p: Plan) -> Result<Plan, QueryError> {
    if s.children@.len() == 0 {
        Ok(p)
    } else {
        Err(QueryError::UnknownField)
    }
}

/// The plan bound for a root selection, or why the selection is invalid.
pub open spec fn plan_of(s: Selection) -> Result<Plan, QueryError> {
    let n = s.name@;
    let args = s.args@;
    let c = s.children@;
    if n == "health"@ {
        leaf_plan(s, Plan::Health)
    } else if n == "database_connected"@ || n == "databaseConnected"@ {
        leaf_plan(s, Plan::Ping)
    } else if n == "artistCount"@ {
        leaf_plan(s, Plan::ArtistCount)
    } else if n == "artist"@ || n == "area"@ {
        match id_arg(args) {
            Err(e) => Err(e),
            Ok(id) => if n == "artist"@ {
                if artist_leaves(c) {
                    Ok(Plan::ArtistById(id))
                } else {
                    Err(QueryError::UnknownField)
                }
            } else {
                if area_leaves(c) {
                    Ok(Plan::AreaById(id))
                } else {
                    Err(QueryError::UnknownField)
                }
            },
        }
    } else if n == "artists"@ || n == "areas"@ {
        match page_arg(args, "limit"@, DEFAULT_LIMIT) {
            Err(e) => Err(e),
            Ok(limit) => match page_arg(args, "offset"@, 0) {
                Err(e) => Err(e),
                Ok(offset) => if n == "artists"@ {
                    if artist_leaves(c) {
                        Ok(Plan::ArtistPage { offset, limit })
                    } else {
                        Err(QueryError::UnknownField)
                    }
                } else {
                    if area_leaves(c) {
                        Ok(Plan::AreaPage { offset, limit })
                    } else {
                        Err(QueryError::UnknownField)
                    }
                },
            },
        }
    } else {
        Err(QueryError::UnknownField)
    }
}

/// Whether the plan reads rows (as opposed to a constant or the health probe).
pub open spec fn reads_rows(p: Plan) -> bool {
    !(p is Health || p is Ping)
}

/// `r` is what an in-memory provider holding `d` answers to `p`.
pub open spec fn answer_of(r: Result<Answer, QueryError>, p: Plan, d: Snapshot) -> bool {
    if reads_rows(p) && !d.reachable {
        r == Err::<Answer, QueryError>(QueryError::DataSource)
    } else {
        match p {
            Plan::Health => r matches Ok(Answer::Health),
            Plan::Ping => r matches Ok(Answer::Connected(b)) && b == d.reachable,
            Plan::ArtistById(id) => r matches Ok(Answer::Artist(o)) && match o {
                Some(a) => a.id == id && d.artists@.contains(a),
                None => forall|k: int| 0 <= k < d.artists@.len() ==> d.artists@[k].id != id,
            },
            Plan::ArtistPage { offset, limit } => r matches Ok(Answer::Artists(v)) && v@ == page(
                d.artists@,
                offset as nat,
                limit as nat,
            ),
            Plan::ArtistCount => r matches Ok(Answer::Count(c)) && c == d.artists@.len(),
            Plan::AreaById(id) => r matches Ok(Answer::Area(o)) && match o {
                Some(a) => a.id == id && d.areas@.contains(a),
                None => forall|k: int| 0 <= k < d.areas@.len() ==> d.areas@[k].id != id,
            },
            Plan::AreaPage { offset, limit } => r matches Ok(Answer::Areas(v)) && v@ == page(
                d.areas@,
                offset as nat,
                limit as nat,
            ),
        }
    }
}

/// The answer has the kind that the plan asks for.
pub open spec fn fits(p: Plan, a: Answer) -> bool {
    match p {
        Plan::Health => a is Health,
        Plan::Ping => a is Connected,
        Plan::ArtistById(_) => a is Artist,
        Plan::ArtistPage { .. } => a is Artists,
        Plan::ArtistCount => a is Count,
        Plan::AreaById(_) => a is Area,
        Plan::AreaPage { .. } => a is Areas,
    }
}

/// `r` is the value assembled for the selection `s` from the answer `a`.
pub open spec fn assembled(r: Result<Resolved, QueryError>, s: Selection, p: Plan, a: Answer) -> bool {
    if !fits(p, a) {
        r == Err::<Resolved, QueryError>(QueryError::TypeMismatch)
    } else {
        match a {
            Answer::Health => r matches Ok(Resolved::Scalar(v)) && v@ == ScalarView::Text("OK"@),
            Answer::Connected(b) => r matches Ok(Resolved::Scalar(v)) && v@ == ScalarView::Bool(b),
            Answer::Count(c) => if c <= i64::MAX {
                r matches Ok(Resolved::Scalar(v)) && v@ == ScalarView::Int(c as int)
            } else {
                r == Err::<Resolved, QueryError>(QueryError::DataSource)
            },
            Answer::Artist(o) => r matches Ok(Resolved::Object(e)) && match o {
                None => e is None,
                Some(row) => e matches Some(fs) && artist_record(fs@, row, s.children@),
            },
            Answer::Area(o) => r matches Ok(Resolved::Object(e)) && match o {
                None => e is None,
                Some(row) => e matches Some(fs) && area_record(fs@, row, s.children@),
            },
            Answer::Artists(rows) => r matches Ok(Resolved::List(recs)) && recs@.len()
                == rows@.len() && forall|i: int|
                #![trigger recs@[i]]
                0 <= i < rows@.len() ==> artist_record(recs@[i]@, rows@[i], s.children@),
            Answer::Areas(rows) => r matches Ok(Resolved::List(recs)) && recs@.len()
                == rows@.len() && forall|i: int|
                #![trigger recs@[i]]
                0 <= i < rows@.len() ==> area_record(recs@[i]@, rows@[i], s.children@),
        }
    }
}

/// The entries carry exactly the selected names, in order.
pub open spec fn names_match(entries: Seq<Entry>, sel: Seq<Selection>) -> bool {
    entries.len() == sel.len() && forall|i: int|
        #![trigger entries[i]]
        0 <= i < sel.len() ==> entries[i].name@ == sel[i].name@
}

/// The resolved value mirrors the shape of the selection that asked for it.
pub open spec fn shaped(v: Resolved, s: Selection) -> bool {
    match v {
        Resolved::Scalar(_) => s.children@.len() == 0,
        Resolved::Object(None) => true,
        Resolved::Object(Some(e)) => names_match(e@, s.children@),
        Resolved::List(recs) => forall|i: int|
            #![trigger recs@[i]]
            0 <= i < recs@.len() ==> names_match(recs@[i]@, s.children@),
    }
}

/// Reads a paging argument; negative values are rejected.
pub fn bind_page_arg(args: &Vec<crate::query::Argument>, name: &str, default: u64) -> (r: Result<
    u64,
    QueryError,
>)
    ensures
        r == page_arg(args@, name@, default),
{
    match find_arg(args, name) {
        None => Ok(default),
        Some(v) => if v < 0 {
            Err(QueryError::InvalidArgument)
        } else {
            Ok(v as u64)
        },
    }
}

/// Reads the required `id` argument.
pub fn bind_id_arg(args: &Vec<crate::query::Argument>) -> (r: Result<i32, QueryError>)
    ensures
        r == id_arg(args@),
{
    match find_arg(args, "id") {
        None => Err(QueryError::MissingArgument),
        Some(v) => if i32::MIN as i64 <= v && v <= i32::MAX as i64 {
            Ok(v as i32)
        } else {
            Err(QueryError::InvalidArgument)
        },
    }
}

/// Binds a root selection to a plan, or says why it is invalid; reads no rows.
pub fn plan_selection(s: &Selection) -> (r: Result<Plan, QueryError>)
    ensures
        r == plan_of(*s),
{
    let n = s.name.as_str();
    let leaf = s.children.len() == 0;
    if str_eq(n, "health") {
        if leaf {
            Ok(Plan::Health)
        } else {
            Err(QueryError::UnknownField)
        }
    } else if str_eq(n, "database_connected") || str_eq(n, "databaseConnected") {
        if leaf {
            Ok(Plan::Ping)
        } else {
            Err(QueryError::UnknownField)
        }
    } else if str_eq(n, "artistCount") {
        if leaf {
            Ok(Plan::ArtistCount)
        } else {
            Err(QueryError::UnknownField)
        }
    } else if str_eq(n, "artist") || str_eq(n, "area") {
        let id = bind_id_arg(&s.args)?;
        if str_eq(n, "artist") {
            if check_artist_leaves(&s.children) {
                Ok(Plan::ArtistById(id))
            } else {
                Err(QueryError::UnknownField)
            }
        } else {
            if check_area_leaves(&s.children) {
                Ok(Plan::AreaById(id))
            } else {
                Err(QueryError::UnknownField)
            }
        }
    } else if str_eq(n, "artists") || str_eq(n, "areas") {
        let limit = bind_page_arg(&s.args, "limit", DEFAULT_LIMIT)?;
        let offset = bind_page_arg(&s.args, "offset", 0)?;
        if str_eq(n, "artists") {
            if check_artist_leaves(&s.children) {
                Ok(Plan::ArtistPage { offset, limit })
            } else {
                Err(QueryError::UnknownField)
            }
        } else {
            if check_area_leaves(&s.children) {
                Ok(Plan::AreaPage { offset, limit })
            } else {
                Err(QueryError::UnknownField)
            }
        }
    } else {
        Err(QueryError::UnknownField)
    }
}

/// Sends a plan to the in-memory row provider. The constant `health` field
/// makes no request; every other plan makes exactly one.
pub fn fetch(d: &mut Snapshot, p: Plan) -> (r: Result<Answer, QueryError>)
    ensures
        answer_of(r, p, *old(d)),
        final(d).same_data(old(d)),
        final(d).calls == if p is Health {
            old(d).calls
        } else {
            next_count(old(d).calls)
        },
{
    match p {
        Plan::Health => Ok(Answer::Health),
        Plan::Ping => {
            let up = d.ping();
            Ok(Answer::Connected(up))
        },
        Plan::ArtistById(id) => match d.find_artist(id) {
            Ok(o) => Ok(Answer::Artist(o)),
            Err(e) => Err(e),
        },
        Plan::ArtistPage { offset, limit } => match d.find_artists(offset, limit) {
            Ok(v) => Ok(Answer::Artists(v)),
            Err(e) => Err(e),
        },
        Plan::ArtistCount => match d.count_artists() {
            Ok(c) => Ok(Answer::Count(c)),
            Err(e) => Err(e),
        },
        Plan::AreaById(id) => match d.find_area(id) {
            Ok(o) => Ok(Answer::Area(o)),
            Err(e) => Err(e),
        },
        Plan::AreaPage { offset, limit } => match d.find_areas(offset, limit) {
            Ok(v) => Ok(Answer::Areas(v)),
            Err(e) => Err(e),
        },
    }
}

/// Projects every artist row onto the selection.
fn project_artists(rows: &Vec<Artist>, sel: &Vec<Selection>) -> (r: Vec<Vec<Entry>>)
    requires
        artist_leaves(sel@),
    ensures
        r@.len() == rows@.len(),
        forall|i: int|
            #![trigger r@[i]]
            0 <= i < rows@.len() ==> artist_record(r@[i]@, rows@[i], sel@),
{
    let mut out: Vec<Vec<Entry>> = Vec::new();
    let mut i: usize = 0;
    while i < rows.len()
        invariant
            i <= rows@.len(),
            artist_leaves(sel@),
            out@.len() == i,
            forall|k: int|
                #![trigger out@[k]]
                0 <= k < i ==> artist_record(out@[k]@, rows@[k], sel@),
        decreases rows@.len() - i,
    {
        match project_artist(&rows[i], sel) {
            Ok(e) => out.push(e),
            Err(_) => {
                assert(false);
            },
        }
        i = i + 1;
    }
    out
}

/// Projects every area row onto the selection.
fn project_areas(rows: &Vec<Area>, sel: &Vec<Selection>) -> (r: Vec<Vec<Entry>>)
    requires
        area_leaves(sel@),
    ensures
        r@.len() == rows@.len(),
        forall|i: int|
            #![trigger r@[i]]
            0 <= i < rows@.len() ==> area_record(r@[i]@, rows@[i], sel@),
{
    let mut out: Vec<Vec<Entry>> = Vec::new();
    let mut i: usize = 0;
    while i < rows.len()
        invariant
            i <= rows@.len(),
            area_leaves(sel@),
            out@.len() == i,
            forall|k: int|
                #![trigger out@[k]]
                0 <= k < i ==> area_record(out@[k]@, rows@[k], sel@),
        decreases rows@.len() - i,
    {
        match project_area(&rows[i], sel) {
            Ok(e) => out.push(e),
            Err(_) => {
                assert(false);
            },
        }
        i = i + 1;
    }
    out
}

/// Builds the value of a root field from what the provider answered to its plan.
pub fn assemble(s: &Selection, p: Plan, a: Answer) -> (r: Result<Resolved, QueryError>)
    requires
        plan_of(*s) == Ok::<Plan, QueryError>(p),
    ensures
        assembled(r, *s, p, a),
        r matches Ok(v) ==> shaped(v, *s),
{
    match (p, a) {
        (Plan::Health, Answer::Health) => Ok(Resolved::Scalar(Scalar::Text("OK".to_string()))),
        (Plan::Ping, Answer::Connected(b)) => Ok(Resolved::Scalar(Scalar::Bool(b))),
        (Plan::ArtistCount, Answer::Count(c)) => {
            if c <= i64::MAX as u64 {
                Ok(Resolved::Scalar(Scalar::Int(c as i64)))
            } else {
                Err(QueryError::DataSource)
            }
        },
        (Plan::ArtistById(_), Answer::Artist(o)) => match o {
            None => Ok(Resolved::Object(None)),
            Some(row) => match project_artist(&row, &s.children) {
                Ok(e) => Ok(Resolved::Object(Some(e))),
                Err(e) => Err(e),
            },
        },
        (Plan::AreaById(_), Answer::Area(o)) => match o {
            None => Ok(Resolved::Object(None)),
            Some(row) => match project_area(&row, &s.children) {
                Ok(e) => Ok(Resolved::Object(Some(e))),
                Err(e) => Err(e),
            },
        },
        (Plan::ArtistPage { .. }, Answer::Artists(rows)) => Ok(
            Resolved::List(project_artists(&rows, &s.children)),
        ),
        (Plan::AreaPage { .. }, Answer::Areas(rows)) => Ok(
            Resolved::List(project_areas(&rows, &s.children)),
        ),
        _ => Err(QueryError::TypeMismatch),
    }
}

/// Every root selection binds to a plan.
pub open spec fn all_planned(roots: Seq<Selection>) -> bool {
    forall|i: int| #![trigger roots[i]] 0 <= i < roots.len() ==> plan_of(roots[i]) is Ok
}

/// The error of the first root selection that binds to no plan, if any.
pub open spec fn first_plan_error(roots: Seq<Selection>) -> Option<QueryError>
    decreases roots.len(),
{
    if roots.len() == 0 {
        None
    } else {
        match plan_of(roots[0]) {
            Err(e) => Some(e),
            Ok(_) => first_plan_error(roots.drop_first()),
        }
    }
}

proof fn lemma_first_plan_error(roots: Seq<Selection>)
    ensures
        first_plan_error(roots) is None <==> all_planned(roots),
    decreases roots.len(),
{
    if roots.len() > 0 {
        lemma_first_plan_error(roots.drop_first());
        if all_planned(roots) {
            assert forall|i: int| 0 <= i < roots.drop_first().len() implies plan_of(
                #[trigger] roots.drop_first()[i],
            ) is Ok by {
                assert(roots.drop_first()[i] == roots[i + 1]);
            }
        }
        if plan_of(roots[0]) is Ok && all_planned(roots.drop_first()) {
            assert forall|i: int| 0 <= i < roots.len() implies plan_of(#[trigger] roots[i]) is Ok by {
                if i > 0 {
                    assert(roots[i] == roots.drop_first()[i - 1]);
                }
            }
        }
    }
}

/// The root field's declared type may be null: the point lookups. A failure
/// of such a field nulls it alone; a failure of any other root field fails
/// the whole query.
pub open spec fn nullable(p: Plan) -> bool {
    p is ArtistById || p is AreaById
}

/// Some non-null root selection needs rows from the provider.
pub open spec fn any_required_reads(roots: Seq<Selection>) -> bool {
    exists|i: int|
        #![trigger roots[i]]
        0 <= i < roots.len() && plan_of(roots[i]) is Ok && reads_rows(plan_of(roots[i])->Ok_0)
            && !nullable(plan_of(roots[i])->Ok_0)
}

/// The query asks for the artist count while the table holds more rows than
/// a response integer can carry.
pub open spec fn count_overflows(roots: Seq<Selection>, d: Snapshot) -> bool {
    d.artists@.len() > i64::MAX && exists|i: int|
        #![trigger roots[i]]
        0 <= i < roots.len() && plan_of(roots[i]) == Ok::<Plan, QueryError>(Plan::ArtistCount)
}

/// The error that the limits give a query that breaks them: depth is checked first.
pub open spec fn limit_error(roots: Seq<Selection>, limits: Limits) -> QueryError {
    match limits.depth {
        Some(d) => if depth_all(roots) > d {
            QueryError::DepthLimitExceeded
        } else {
            QueryError::ComplexityLimitExceeded
        },
        None => QueryError::ComplexityLimitExceeded,
    }
}

/// The output of root field `o` is what the provider holding `d` gives for
/// the selection `s`: the assembled answer, or, for a nullable field whose
/// read failed, a data-source error in its place.
pub open spec fn resolves_to(o: Output, s: Selection, d: Snapshot) -> bool {
    &&& o.name@ == s.name@
    &&& plan_of(s) is Ok
    &&& match o.value {
        Ok(v) => shaped(v, s) && exists|a: Answer|
            answer_of(Ok(a), plan_of(s)->Ok_0, d) && assembled(
                Ok::<Resolved, QueryError>(v),
                s,
                plan_of(s)->Ok_0,
                a,
            ),
        Err(e) => nullable(plan_of(s)->Ok_0) && reads_rows(plan_of(s)->Ok_0) && !d.reachable && e
            == QueryError::DataSource,
    }
}

/// Whether a plan's field may be null.
pub fn plan_nullable(p: Plan) -> (r: bool)
    ensures
        r == nullable(p),
{
    match p {
        Plan::ArtistById(_) | Plan::AreaById(_) => true,
        _ => false,
    }
}

/// Validates a query against the limits and the schema, then resolves its
/// root fields in order against the provider.
///
/// Every check on the query's shape and arguments happens before the first
/// provider request, so a refused query costs the provider nothing. A failed
/// read of a nullable root field (a point lookup) nulls that field and leaves
/// its error beside it, while the other root fields still resolve. A failed
/// read of a non-null root field (a list, a count) fails the whole query. A
/// list's rows come from one ranged read, so its elements fail or succeed
/// together.
pub fn execute(d: &mut Snapshot, roots: &Vec<Selection>, limits: &Limits) -> (r: Result<
    Vec<Output>,
    QueryError,
>)
    ensures
        final(d).same_data(old(d)),
        !within_limits(roots@, *limits) ==> final(d).calls == old(d).calls && r == Err::<
            Vec<Output>,
            QueryError,
        >(limit_error(roots@, *limits)),
        within_limits(roots@, *limits) && !all_planned(roots@) ==> final(d).calls == old(d).calls
            && (r matches Err(e) && first_plan_error(roots@) == Some(e)),
        within_limits(roots@, *limits) && all_planned(roots@) && !old(d).reachable
            && any_required_reads(roots@) ==> r == Err::<Vec<Output>, QueryError>(
            QueryError::DataSource,
        ),
        within_limits(roots@, *limits) && all_planned(roots@) && (old(d).reachable
            || !any_required_reads(roots@)) && !count_overflows(roots@, *old(d)) ==> r is Ok,
        r matches Ok(out) ==> out@.len() == roots@.len() && forall|i: int|
            #![trigger out@[i]]
            0 <= i < roots@.len() ==> resolves_to(out@[i], roots@[i], *old(d)),
{
    match check_limits(roots, limits) {
        Ok(()) => {},
        Err(e) => return Err(e),
    }
    let mut plans: Vec<Plan> = Vec::new();
    let mut i: usize = 0;
    assert(roots@.subrange(0, roots@.len() as int) == roots@);
    while i < roots.len()
        invariant
            i <= roots@.len(),
            plans@.len() == i,
            *d == *old(d),
            within_limits(roots@, *limits),
            forall|k: int| #![trigger roots@[k]] 0 <= k < i ==> plan_of(roots@[k]) == Ok::<Plan, QueryError>(plans@[k]),
            first_plan_error(roots@) == first_plan_error(roots@.subrange(i as int, roots@.len() as int)),
        decreases roots@.len() - i,
    {
        let ghost rest = roots@.subrange(i as int, roots@.len() as int);
        assert(rest.drop_first() == roots@.subrange(i + 1, roots@.len() as int));
        assert(rest[0] == roots@[i as int]);
        match plan_selection(&roots[i]) {
            Ok(p) => plans.push(p),
            Err(e) => {
                proof { lemma_first_plan_error(roots@); }
                return Err(e);
            },
        }
        i = i + 1;
    }
    assert(all_planned(roots@));
    proof { lemma_first_plan_error(roots@); }
    let mut out: Vec<Output> = Vec::new();
    let mut i: usize = 0;
    while i < roots.len()
        invariant
            i <= roots@.len(),
            plans@.len() == roots@.len(),
            out@.len() == i,
            d.same_data(old(d)),
            within_limits(roots@, *limits),
            all_planned(roots@),
            forall|k: int| #![trigger roots@[k]] 0 <= k < roots@.len() ==> plan_of(roots@[k]) == Ok::<Plan, QueryError>(plans@[k]),
            forall|k: int| #![trigger out@[k]] 0 <= k < i ==> resolves_to(out@[k], roots@[k], *old(d)),
            !old(d).reachable ==> forall|k: int|
                0 <= k < i ==> !(reads_rows(#[trigger] plans@[k]) && !nullable(plans@[k])),
        decreases roots@.len() - i,
    {
        let p = plans[i];
        assert(plan_of(roots@[i as int]) == Ok::<Plan, QueryError>(p));
        let a = match fetch(d, p) {
            Ok(a) => a,
            Err(e) => {
                assert(reads_rows(p) && !old(d).reachable);
                if plan_nullable(p) {
                    let o = Output { name: roots[i].name.clone(), value: Err(e) };
                    assert(resolves_to(o, roots@[i as int], *old(d)));
                    out.push(o);
                    i = i + 1;
                    continue;
                }
                assert(any_required_reads(roots@));
                return Err(e);
            },
        };
        assert(answer_of(Ok(a), p, *old(d)));
        let ghost ga = a;
        let v = match assemble(&roots[i], p, a) {
            Ok(v) => v,
            Err(e) => {
                assert(ga is Count);
                assert(plan_of(roots@[i as int]) == Ok::<Plan, QueryError>(Plan::ArtistCount));
                assert(count_overflows(roots@, *old(d)));
                return Err(e);
            },
        };
        let ghost gv = v;
        let o = Output { name: roots[i].name.clone(), value: Ok(v) };
        assert(answer_of(Ok(ga), plan_of(roots@[i as int])->Ok_0, *old(d)) && assembled(
            Ok::<Resolved, QueryError>(gv),
            roots@[i as int],
            plan_of(roots@[i as int])->Ok_0,
            ga,
        ));
        assert(resolves_to(o, roots@[i as int], *old(d)));
        out.push(o);
        i = i + 1;
    }
    proof {
        if !old(d).reachable && any_required_reads(roots@) {
            let j = choose|j: int|
                #![trigger roots@[j]]
                0 <= j < roots@.len() && plan_of(roots@[j]) is Ok && reads_rows(plan_of(roots@[j])->Ok_0)
                    && !nullable(plan_of(roots@[j])->Ok_0);
            assert(!(reads_rows(plans@[j]) && !nullable(plans@[j])));
        }
    }
    Ok(out)
}

/// Two objects carry the same names and values, in the same order.
pub open spec fn same_entries(e1: Seq<Entry>, e2: Seq<Entry>) -> bool {
    e1.len() == e2.len() && forall|k: int|
        #![trigger e1[k], e2[k]]
        0 <= k < e1.len() ==> e1[k].name@ == e2[k].name@ && e1[k].value@ == e2[k].value@
}

/// Two root values denote the same response.
pub open spec fn same_resolved(v1: Resolved, v2: Resolved) -> bool {
    match (v1, v2) {
        (Resolved::Scalar(a), Resolved::Scalar(b)) => a@ == b@,
        (Resolved::Object(None), Resolved::Object(None)) => true,
        (Resolved::Object(Some(a)), Resolved::Object(Some(b))) => same_entries(a@, b@),
        (Resolved::List(a), Resolved::List(b)) => a@.len() == b@.len() && forall|k: int|
            #![trigger a@[k], b@[k]]
            0 <= k < a@.len() ==> same_entries(a@[k]@, b@[k]@),
        _ => false,
    }
}

/// Two root fields denote the same value, or carry the same error.
pub open spec fn same_value(v1: Result<Resolved, QueryError>, v2: Result<Resolved, QueryError>) -> bool {
    match (v1, v2) {
        (Ok(a), Ok(b)) => same_resolved(a, b),
        (Err(a), Err(b)) => a == b,
        _ => false,
    }
}

/// Two responses denote the same result, field by field.
pub open spec fn same_outputs(o1: Seq<Output>, o2: Seq<Output>) -> bool {
    o1.len() == o2.len() && forall|i: int|
        #![trigger o1[i], o2[i]]
        0 <= i < o1.len() ==> o1[i].name@ == o2[i].name@ && same_value(o1[i].value, o2[i].value)
}

proof fn lemma_artist_records_agree(e1: Seq<Entry>, e2: Seq<Entry>, a: Artist, sel: Seq<Selection>)
    requires
        artist_record(e1, a, sel),
        artist_record(e2, a, sel),
    ensures
        same_entries(e1, e2),
{
    assert forall|k: int| 0 <= k < e1.len() implies #[trigger] e1[k].name@ == e2[k].name@
        && e1[k].value@ == e2[k].value@ by {
        assert(artist_field(a, sel[k].name@) == Some(e1[k].value@));
        assert(artist_field(a, sel[k].name@) == Some(e2[k].value@));
    }
}

proof fn lemma_area_records_agree(e1: Seq<Entry>, e2: Seq<Entry>, a: Area, sel: Seq<Selection>)
    requires
        area_record(e1, a, sel),
        area_record(e2, a, sel),
    ensures
        same_entries(e1, e2),
{
    assert forall|k: int| 0 <= k < e1.len() implies #[trigger] e1[k].name@ == e2[k].name@
        && e1[k].value@ == e2[k].value@ by {
        assert(area_field(a, sel[k].name@) == Some(e1[k].value@));
        assert(area_field(a, sel[k].name@) == Some(e2[k].value@));
    }
}

proof fn lemma_root_agrees(o1: Output, o2: Output, s: Selection, d1: Snapshot, d2: Snapshot)
    requires
        d1.wf(),
        d1.same_data(&d2),
        resolves_to(o1, s, d1),
        resolves_to(o2, s, d2),
    ensures
        o1.name@ == o2.name@,
        same_value(o1.value, o2.value),
{
    let p = plan_of(s)->Ok_0;
    if o1.value is Err || o2.value is Err {
        if o1.value is Ok {
            let a = choose|a: Answer|
                answer_of(Ok(a), p, d1) && assembled(Ok::<Resolved, QueryError>(o1.value->Ok_0), s, p, a);
        }
        if o2.value is Ok {
            let a = choose|a: Answer|
                answer_of(Ok(a), p, d2) && assembled(Ok::<Resolved, QueryError>(o2.value->Ok_0), s, p, a);
        }
        return;
    }
    let v1 = o1.value->Ok_0;
    let v2 = o2.value->Ok_0;
    let a1 = choose|a: Answer|
        answer_of(Ok(a), p, d1) && assembled(Ok::<Resolved, QueryError>(v1), s, p, a);
    let a2 = choose|a: Answer|
        answer_of(Ok(a), p, d2) && assembled(Ok::<Resolved, QueryError>(v2), s, p, a);
    match p {
        Plan::ArtistById(id) => {
            if let (Answer::Artist(Some(r1)), Answer::Artist(Some(r2))) = (a1, a2) {
                let i = choose|i: int| 0 <= i < d1.artists@.len() && d1.artists@[i] == r1;
                let j = choose|j: int| 0 <= j < d1.artists@.len() && d1.artists@[j] == r2;
                if i != j {
                    if i < j {
                        assert(artist_ids(d1.artists@)[i] < artist_ids(d1.artists@)[j]);
                    } else {
                        assert(artist_ids(d1.artists@)[j] < artist_ids(d1.artists@)[i]);
                    }
                }
                if let (Resolved::Object(Some(e1)), Resolved::Object(Some(e2))) = (v1, v2) {
                    lemma_artist_records_agree(e1@, e2@, r1, s.children@);
                }
            } else if let (Answer::Artist(Some(r1)), Answer::Artist(None)) = (a1, a2) {
                let i = choose|i: int| 0 <= i < d1.artists@.len() && d1.artists@[i] == r1;
                assert(d2.artists@[i].id != id);
            } else if let (Answer::Artist(None), Answer::Artist(Some(r2))) = (a1, a2) {
                let j = choose|j: int| 0 <= j < d2.artists@.len() && d2.artists@[j] == r2;
                assert(d1.artists@[j].id != id);
            }
        },
        Plan::AreaById(id) => {
            if let (Answer::Area(Some(r1)), Answer::Area(Some(r2))) = (a1, a2) {
                let i = choose|i: int| 0 <= i < d1.areas@.len() && d1.areas@[i] == r1;
                let j = choose|j: int| 0 <= j < d1.areas@.len() && d1.areas@[j] == r2;
                if i != j {
                    if i < j {
                        assert(area_ids(d1.areas@)[i] < area_ids(d1.areas@)[j]);
                    } else {
                        assert(area_ids(d1.areas@)[j] < area_ids(d1.areas@)[i]);
                    }
                }
                if let (Resolved::Object(Some(e1)), Resolved::Object(Some(e2))) = (v1, v2) {
                    lemma_area_records_agree(e1@, e2@, r1, s.children@);
                }
            } else if let (Answer::Area(Some(r1)), Answer::Area(None)) = (a1, a2) {
                let i = choose|i: int| 0 <= i < d1.areas@.len() && d1.areas@[i] == r1;
                assert(d2.areas@[i].id != id);
            } else if let (Answer::Area(None), Answer::Area(Some(r2))) = (a1, a2) {
                let j = choose|j: int| 0 <= j < d2.areas@.len() && d2.areas@[j] == r2;
                assert(d1.areas@[j].id != id);
            }
        },
        Plan::ArtistPage { .. } => {
            if let (Answer::Artists(v1), Answer::Artists(v2), Resolved::List(l1), Resolved::List(l2)) = (
                a1,
                a2,
                v1,
                v2,
            ) {
                assert forall|k: int| 0 <= k < l1@.len() implies #[trigger] same_entries(
                    l1@[k]@,
                    l2@[k]@,
                ) by {
                    assert(artist_record(l1@[k]@, v1@[k], s.children@));
                    assert(artist_record(l2@[k]@, v2@[k], s.children@));
                    lemma_artist_records_agree(l1@[k]@, l2@[k]@, v1@[k], s.children@);
                }
            }
        },
        Plan::AreaPage { .. } => {
            if let (Answer::Areas(v1), Answer::Areas(v2), Resolved::List(l1), Resolved::List(l2)) = (
                a1,
                a2,
                v1,
                v2,
            ) {
                assert forall|k: int| 0 <= k < l1@.len() implies #[trigger] same_entries(
                    l1@[k]@,
                    l2@[k]@,
                ) by {
                    assert(area_record(l1@[k]@, v1@[k], s.children@));
                    assert(area_record(l2@[k]@, v2@[k], s.children@));
                    lemma_area_records_agree(l1@[k]@, l2@[k]@, v1@[k], s.children@);
                }
            }
        },
        _ => {},
    }
}

/// Resolving the same query twice against unchanged data gives the same
/// response: any two successful results of `execute` agree field by field.
pub proof fn lemma_execute_idempotent(
    d1: Snapshot,
    d2: Snapshot,
    roots: Seq<Selection>,
    out1: Seq<Output>,
    out2: Seq<Output>,
)
    requires
        d1.wf(),
        d1.same_data(&d2),
        out1.len() == roots.len(),
        out2.len() == roots.len(),
        forall|i: int| #![trigger out1[i]] 0 <= i < roots.len() ==> resolves_to(out1[i], roots[i], d1),
        forall|i: int| #![trigger out2[i]] 0 <= i < roots.len() ==> resolves_to(out2[i], roots[i], d2),
    ensures
        same_outputs(out1, out2),
{
    assert forall|i: int| 0 <= i < out1.len() implies #[trigger] out1[i].name@ == (
    #[trigger] out2[i]).name@ && same_value(out1[i].value, out2[i].value) by {
        lemma_root_agrees(out1[i], out2[i], roots[i], d1, d2);
    }
}

/// A point lookup of an identifier that no row carries resolves to an
/// explicit null, not to an error.
pub proof fn lemma_missing_id_is_null(o: Output, s: Selection, d: Snapshot)
    requires
        resolves_to(o, s, d),
        d.reachable,
        match plan_of(s) {
            Ok(Plan::ArtistById(k)) => forall|i: int| 0 <= i < d.artists@.len() ==> d.artists@[i].id != k,
            Ok(Plan::AreaById(k)) => forall|i: int| 0 <= i < d.areas@.len() ==> d.areas@[i].id != k,
            _ => false,
        },
    ensures
        o.value matches Ok(Resolved::Object(None)),
{
    let p = plan_of(s)->Ok_0;
    let a = choose|a: Answer|
        answer_of(Ok(a), p, d) && assembled(Ok::<Resolved, QueryError>(o.value->Ok_0), s, p, a);
    match a {
        Answer::Artist(Some(row)) => {
            let i = choose|i: int| 0 <= i < d.artists@.len() && d.artists@[i] == row;
        },
        Answer::Area(Some(row)) => {
            let i = choose|i: int| 0 <= i < d.areas@.len() && d.areas@[i] == row;
        },
        _ => {},
    }
}

} // verus!
