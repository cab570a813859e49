use vstd::prelude::*;
use vstd::string::*;

verus! {

broadcast use vstd::std_specs::vec::group_vec_axioms;

/// One node of a client's selection tree: a field name, its integer
/// arguments, and the sub-fields selected beneath it.
pub struct Selection {
    pub name: String,
    pub args: Vec<Argument>,
    pub children: Vec<Selection>,
}

/// A named integer argument bound to a field selection.
pub struct Argument {
    pub name: String,
    pub value: i64,
}

/// Ceilings on the shape of an incoming query; `None` means unbounded.
pub struct Limits {
    pub depth: Option<u64>,
    pub complexity: Option<u64>,
}

/// Why a query was refused or could not be resolved.
#[derive(Debug, PartialEq, Eq)]
pub enum QueryError {
    DepthLimitExceeded,
    ComplexityLimitExceeded,
    MissingArgument,
    InvalidArgument,
    UnknownField,
    DataSource,
    TypeMismatch,
}

/// Number of nested selection levels, counting the node itself.
pub open spec fn depth(s: Selection) -> nat
    decreases s, 0nat,
{
    1 + depth_all(s.children@)
}

/// Deepest nesting among a sequence of sibling selections (zero when empty).
pub open spec fn depth_all(l: Seq<Selection>) -> nat
    decreases l, 1nat,
{
    if l.len() == 0 {
        0
    } else {
        let a = depth(l.last());
        let b = depth_all(l.drop_last());
        if a >= b {
            a
        } else {
            b
        }
    }
}

/// The first argument named `name`, if any.
pub open spec fn arg_value(args: Seq<Argument>, name: Seq<char>) -> Option<i64>
    decreases args.len(),
{
    if args.len() == 0 {
        None
    } else if args[0].name@ == name {
        Some(args[0].value)
    } else {
        arg_value(args.drop_first(), name)
    }
}

/// List-size hint of a selection: its positive `limit` argument, else one.
pub open spec fn size_hint(s: Selection) -> nat {
    match arg_value(s.args@, "limit"@) {
        Some(v) => if v > 0 {
            v as nat
        } else {
            1
        },
        None => 1,
    }
}

/// Weighted cost of a selection: one for the field itself plus the cost of
/// its sub-selections, multiplied by the field's list-size hint.
pub open spec fn cost(s: Selection) -> nat
    decreases s, 0nat,
{
    1 + size_hint(s) * cost_all(s.children@)
}

/// Total cost of a sequence of sibling selections.
pub open spec fn cost_all(l: Seq<Selection>) -> nat
    decreases l, 1nat,
{
    if l.len() == 0 {
        0
    } else {
        cost_all(l.drop_last()) + cost(l.last())
    }
}

pub open spec fn min_nat(a: nat, b: nat) -> nat {
    if a <= b {
        a
    } else {
        b
    }
}

/// Whether a whole query (its root selections) respects the limits.
pub open spec fn within_limits(roots: Seq<Selection>, limits: Limits) -> bool {
    (match limits.depth {
        Some(d) => depth_all(roots) <= d,
        None => true,
    }) && (match limits.complexity {
        Some(c) => cost_all(roots) <= c,
        None => true,
    })
}

/// Character-wise equality of two strings.
pub fn str_eq(a: &str, b: &str) -> (r: bool)
    ensures
        r == (a@ == b@),
{
    let n = a.unicode_len();
    if n != b.unicode_len() {
        return false;
    }
    let mut i: usize = 0;
    while i < n
        invariant
            n == a@.len(),
            n == b@.len(),
            i <= n,
            a@.subrange(0, i as int) == b@.subrange(0, i as int),
        decreases n - i,
    {
        if a.get_char(i) != b.get_char(i) {
            assert(a@[i as int] != b@[i as int]);
            return false;
        }
        assert(a@.subrange(0, i + 1) == a@.subrange(0, i as int).push(a@[i as int]));
        assert(b@.subrange(0, i + 1) == b@.subrange(0, i as int).push(b@[i as int]));
        i = i + 1;
    }
    assert(a@ == a@.subrange(0, n as int));
    assert(b@ == b@.subrange(0, n as int));
    true
}

/// Looks up the first argument with the given name.
pub fn find_arg(args: &Vec<Argument>, name: &str) -> (r: Option<i64>)
    ensures
        r == arg_value(args@, name@),
{
    let mut i: usize = 0;
    assert(args@.subrange(0, args@.len() as int) == args@);
    while i < args.len()
        invariant
            i <= args@.len(),
            arg_value(args@, name@) == arg_value(args@.subrange(i as int, args@.len() as int), name@),
        decreases args@.len() - i,
    {
        let ghost rest = args@.subrange(i as int, args@.len() as int);
        assert(rest.drop_first() == args@.subrange(i + 1, args@.len() as int));
        if str_eq(args[i].name.as_str(), name) {
            return Some(args[i].value);
        }
        i = i + 1;
    }
    None
}

/// Computes the list-size hint of a selection.
pub fn selection_hint(s: &Selection) -> (r: u64)
    ensures
        r == size_hint(*s),
        1 <= r < 0x8000_0000_0000_0000,
{
    match find_arg(&s.args, "limit") {
        Some(v) => if v > 0 {
            v as u64
        } else {
            1
        },
        None => 1,
    }
}

/// Decides whether a selection nests deeper than `limit` levels.
pub fn exceeds_depth(s: &Selection, limit: u64) -> (r: bool)
    ensures
        r == (depth(*s) > limit),
    decreases s, 0nat,
{
    if limit == 0 {
        return true;
    }
    exceeds_depth_all(&s.children, limit - 1)
}

/// Decides whether any of the sibling selections nests deeper than `limit` levels.
pub fn exceeds_depth_all(l: &Vec<Selection>, limit: u64) -> (r: bool)
    ensures
        r == (depth_all(l@) > limit),
    decreases l, 1nat,
{
    let mut i: usize = 0;
    while i < l.len()
        invariant
            i <= l@.len(),
            depth_all(l@.subrange(0, i as int)) <= limit,
        decreases l@.len() - i,
    {
        assert(l@.subrange(0, i + 1).drop_last() == l@.subrange(0, i as int));
        assert(l@.subrange(0, i + 1).last() == l@[i as int]);
        if exceeds_depth(&l[i], limit) {
            proof { lemma_depth_all_ge_prefix(l@, i as int + 1); }
            return true;
        }
        i = i + 1;
    }
    assert(l@.subrange(0, l@.len() as int) == l@);
    false
}

/// Deepest nesting never shrinks when a sequence is extended.
proof fn lemma_depth_all_ge_prefix(l: Seq<Selection>, k: int)
    requires
        0 <= k <= l.len(),
    ensures
        depth_all(l) >= depth_all(l.subrange(0, k)),
    decreases l.len(),
{
    if k < l.len() {
        assert(l.drop_last().subrange(0, k) == l.subrange(0, k));
        lemma_depth_all_ge_prefix(l.drop_last(), k);
    } else {
        assert(l.subrange(0, k) == l);
    }
}

/// Cost of a selection, saturated at `cap`.
pub fn capped_cost(s: &Selection, cap: u128) -> (r: u128)
    requires
        1 <= cap <= 0x1_0000_0000_0000_0000,
    ensures
        r == min_nat(cost(*s), cap as nat),
    decreases s, 0nat,
{
    let h = selection_hint(s);
    let c = capped_cost_all(&s.children, cap);
    assert((h as u128) * (c as u128) <= 0x8000_0000_0000_0000_0000_0000_0000_0000u128) by (nonlinear_arith)
        requires
            h < 0x8000_0000_0000_0000u128,
            c <= 0x1_0000_0000_0000_0000u128,
    ;
    let p: u128 = (h as u128) * c;
    let total: u128 = p + 1;
    proof {
        let cc = cost_all(s.children@);
        let hh = h as nat;
        if cc > cap {
            assert(hh * cc >= cc) by (nonlinear_arith) requires hh >= 1;
            assert(hh * (cap as nat) >= cap) by (nonlinear_arith) requires hh >= 1;
        }
    }
    if total >= cap {
        cap
    } else {
        total
    }
}

/// Total cost of sibling selections, saturated at `cap`.
pub fn capped_cost_all(l: &Vec<Selection>, cap: u128) -> (r: u128)
    requires
        1 <= cap <= 0x1_0000_0000_0000_0000,
    ensures
        r == min_nat(cost_all(l@), cap as nat),
    decreases l, 1nat,
{
    let mut acc: u128 = 0;
    let mut i: usize = 0;
    while i < l.len()
        invariant
            i <= l@.len(),
            1 <= cap <= 0x1_0000_0000_0000_0000,
            acc == min_nat(cost_all(l@.subrange(0, i as int)), cap as nat),
        decreases l@.len() - i,
    {
        assert(l@.subrange(0, i + 1).drop_last() == l@.subrange(0, i as int));
        assert(l@.subrange(0, i + 1).last() == l@[i as int]);
        let c = capped_cost(&l[i], cap);
        let sum: u128 = acc + c;
        if sum >= cap {
            acc = cap;
        } else {
            acc = sum;
        }
        i = i + 1;
    }
    assert(l@.subrange(0, l@.len() as int) == l@);
    acc
}

/// Checks a query's root selections against the limits, before anything is resolved.
pub fn check_limits(roots: &Vec<Selection>, limits: &Limits) -> (r: Result<(), QueryError>)
    ensures
        r is Ok <==> within_limits(roots@, *limits),
        r == Err::<(), QueryError>(QueryError::DepthLimitExceeded) <==> (match limits.depth {
            Some(d) => depth_all(roots@) > d,
            None => false,
        }),
        r == Err::<(), QueryError>(QueryError::ComplexityLimitExceeded) <==> (match limits.depth {
            Some(d) => depth_all(roots@) <= d,
            None => true,
        }) && (match limits.complexity {
            Some(c) => cost_all(roots@) > c,
            None => false,
        }),
{
    match limits.depth {
        Some(d) => {
            if exceeds_depth_all(roots, d) {
                return Err(QueryError::DepthLimitExceeded);
            }
        },
        None => {},
    }
    match limits.complexity {
        Some(c) => {
            if capped_cost_all(roots, c as u128 + 1) > c as u128 {
                return Err(QueryError::ComplexityLimitExceeded);
            }
        },
        None => {},
    }
    Ok(())
}

} // verus!
