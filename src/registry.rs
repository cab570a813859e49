use vstd::prelude::*;
use crate::engine::{
    all_planned, any_required_reads, count_overflows, execute, first_plan_error, limit_error, plan_of, resolves_to,
    Output,
};
use crate::provider::Snapshot;
use crate::fields::{is_area_field, is_artist_field};
use crate::query::{str_eq, within_limits, Limits, QueryError, Selection};

verus! {

/// The kind of value a field yields.
pub enum BaseType {
    Int,
    Text,
    Boolean,
    Object(String),
}

/// A field's declared result type: a base kind, possibly a list, each
/// possibly non-null.
pub struct TypeRef {
    pub base: BaseType,
    pub non_null: bool,
    pub list: bool,
}

/// A declared argument: its name and type.
pub struct ArgumentDecl {
    pub name: String,
    pub ty: TypeRef,
}

/// A declared field: its name, result type and arguments.
pub struct FieldDecl {
    pub name: String,
    pub ty: TypeRef,
    pub args: Vec<ArgumentDecl>,
}

/// A declared object type: its name and ordered fields.
pub struct ObjectType {
    pub name: String,
    pub fields: Vec<FieldDecl>,
}

/// Why a schema could not be built.
#[derive(Debug, PartialEq, Eq)]
pub enum SchemaError {
    DuplicateType,
    DuplicateField,
    MissingRootType,
    UnresolvedTypeReference,
}

/// Object types declared so far, in declaration order.
pub struct Registry {
    pub types: Vec<ObjectType>,
}

/// A finished schema: its types, the root query type and the query limits.
pub struct Schema {
    pub types: Vec<ObjectType>,
    pub root: String,
    pub limits: Limits,
}

/// The names of the fields, in declaration order.
pub open spec fn field_names(fields: Seq<FieldDecl>) -> Seq<Seq<char>> {
    fields.map_values(|f: FieldDecl| f.name@)
}

/// The field names of the artist type.
pub open spec fn artist_field_names() -> Seq<Seq<char>> {
    seq![
        "id"@,
        "gid"@,
        "name"@,
        "sort_name"@,
        "comment"@,
        "type"@,
        "area"@,
        "gender"@,
        "begin_date_year"@,
        "end_date_year"@,
        "ended"@,
    ]
}

/// The field names of the area type.
pub open spec fn area_field_names() -> Seq<Seq<char>> {
    seq![
        "id"@,
        "gid"@,
        "name"@,
        "type"@,
    ]
}

/// The field names of the root query type.
pub open spec fn query_field_names() -> Seq<Seq<char>> {
    seq![
        "health"@,
        "database_connected"@,
        "databaseConnected"@,
        "artist"@,
        "artists"@,
        "artistCount"@,
        "area"@,
        "areas"@,
    ]
}

/// Some declared type is called `n`.
pub open spec fn names_type(types: Seq<ObjectType>, n: Seq<char>) -> bool {
    exists|i: int| 0 <= i < types.len() && (#[trigger] types[i]).name@ == n
}

/// No two fields of the type share a name.
pub open spec fn fields_distinct(fields: Seq<FieldDecl>) -> bool {
    forall|i: int, j: int|
        0 <= i < j < fields.len() ==> (#[trigger] fields[i]).name@ != (#[trigger] fields[j]).name@
}

/// No two declared types share a name.
pub open spec fn types_distinct(types: Seq<ObjectType>) -> bool {
    forall|i: int, j: int|
        0 <= i < j < types.len() ==> (#[trigger] types[i]).name@ != (#[trigger] types[j]).name@
}

/// The type reference names no object type, or one that is declared.
pub open spec fn ref_resolves(types: Seq<ObjectType>, t: TypeRef) -> bool {
    match t.base {
        BaseType::Object(n) => names_type(types, n@),
        _ => true,
    }
}

/// Every field and argument of every type refers only to declared types.
pub open spec fn refs_resolve(types: Seq<ObjectType>) -> bool {
    forall|i: int, j: int|
        0 <= i < types.len() && 0 <= j < types[i].fields@.len() ==> ref_resolves(
            types,
            (#[trigger] types[i].fields@[j]).ty,
        ) && forall|k: int|
            0 <= k < types[i].fields@[j].args@.len() ==> ref_resolves(
                types,
                (#[trigger] types[i].fields@[j].args@[k]).ty,
            )
}

impl Schema {
    /// A finished schema: distinct types whose references all resolve, one of them the root.
    pub open spec fn wf(&self) -> bool {
        types_distinct(self.types@) && refs_resolve(self.types@) && names_type(
            self.types@,
            self.root@,
        )
    }

    /// Resolves a query under this schema's limits; see `execute`.
    pub fn execute(&self, d: &mut Snapshot, roots: &Vec<Selection>) -> (r: Result<
        Vec<Output>,
        QueryError,
    >)
        ensures
            final(d).same_data(old(d)),
            !within_limits(roots@, self.limits) ==> final(d).calls == old(d).calls && r == Err::<
                Vec<Output>,
                QueryError,
            >(limit_error(roots@, self.limits)),
            within_limits(roots@, self.limits) && !all_planned(roots@) ==> final(d).calls == old(
                d,
            ).calls && (r matches Err(e) && first_plan_error(roots@) == Some(e)),
            within_limits(roots@, self.limits) && all_planned(roots@) && !old(d).reachable
                && any_required_reads(roots@) ==> r == Err::<Vec<Output>, QueryError>(
                QueryError::DataSource,
            ),
            within_limits(roots@, self.limits) && all_planned(roots@) && (old(d).reachable
                || !any_required_reads(roots@)) && !count_overflows(roots@, *old(d)) ==> r is Ok,
            r matches Ok(out) ==> out@.len() == roots@.len() && forall|i: int|
                #![trigger out@[i]]
                0 <= i < roots@.len() ==> resolves_to(out@[i], roots@[i], *old(d)),
    {
        execute(d, roots, &self.limits)
    }
}

/// Decides whether a type called `name` is declared.
pub fn find_type(types: &Vec<ObjectType>, name: &str) -> (r: bool)
    ensures
        r == names_type(types@, name@),
{
    let mut i: usize = 0;
    while i < types.len()
        invariant
            i <= types@.len(),
            forall|k: int| 0 <= k < i ==> (#[trigger] types@[k]).name@ != name@,
        decreases types@.len() - i,
    {
        if str_eq(types[i].name.as_str(), name) {
            return true;
        }
        i = i + 1;
    }
    false
}

fn check_fields_distinct(fields: &Vec<FieldDecl>) -> (r: bool)
    ensures
        r == fields_distinct(fields@),
{
    let mut j: usize = 0;
    while j < fields.len()
        invariant
            j <= fields@.len(),
            forall|a: int, b: int|
                0 <= a < b < j ==> (#[trigger] fields@[a]).name@ != (#[trigger] fields@[b]).name@,
        decreases fields@.len() - j,
    {
        let mut i: usize = 0;
        while i < j
            invariant
                i <= j < fields@.len(),
                forall|a: int| 0 <= a < i ==> (#[trigger] fields@[a]).name@ != fields@[j as int].name@,
            decreases j - i,
        {
            if str_eq(fields[i].name.as_str(), fields[j].name.as_str()) {
                return false;
            }
            i = i + 1;
        }
        j = j + 1;
    }
    true
}

fn check_ref(types: &Vec<ObjectType>, t: &TypeRef) -> (r: bool)
    ensures
        r == ref_resolves(types@, *t),
{
    match &t.base {
        BaseType::Object(n) => find_type(types, n.as_str()),
        _ => true,
    }
}

fn check_refs(types: &Vec<ObjectType>) -> (r: bool)
    ensures
        r == refs_resolve(types@),
{
    let mut i: usize = 0;
    while i < types.len()
        invariant
            i <= types@.len(),
            forall|a: int, b: int|
                0 <= a < i && 0 <= b < types@[a].fields@.len() ==> ref_resolves(
                    types@,
                    (#[trigger] types@[a].fields@[b]).ty,
                ) && forall|k: int|
                    0 <= k < types@[a].fields@[b].args@.len() ==> ref_resolves(
                        types@,
                        (#[trigger] types@[a].fields@[b].args@[k]).ty,
                    ),
        decreases types@.len() - i,
    {
        let fields = &types[i].fields;
        let mut j: usize = 0;
        while j < fields.len()
            invariant
                i < types@.len(),
                *fields == types@[i as int].fields,
                j <= fields@.len(),
                forall|a: int, b: int|
                    0 <= a < i && 0 <= b < types@[a].fields@.len() ==> ref_resolves(
                        types@,
                        (#[trigger] types@[a].fields@[b]).ty,
                    ) && forall|k: int|
                        0 <= k < types@[a].fields@[b].args@.len() ==> ref_resolves(
                            types@,
                            (#[trigger] types@[a].fields@[b].args@[k]).ty,
                        ),
                forall|b: int|
                    0 <= b < j ==> ref_resolves(types@, (#[trigger] fields@[b]).ty) && forall|k: int|
                        0 <= k < fields@[b].args@.len() ==> ref_resolves(
                            types@,
                            (#[trigger] fields@[b].args@[k]).ty,
                        ),
            decreases fields@.len() - j,
        {
            if !check_ref(types, &fields[j].ty) {
                return false;
            }
            let args = &fields[j].args;
            let mut k: usize = 0;
            while k < args.len()
                invariant
                    i < types@.len(),
                    *fields == types@[i as int].fields,
                    j < fields@.len(),
                    *args == fields@[j as int].args,
                    k <= args@.len(),
                    forall|c: int| 0 <= c < k ==> ref_resolves(types@, (#[trigger] args@[c]).ty),
                decreases args@.len() - k,
            {
                if !check_ref(types, &args[k].ty) {
                    assert(refs_resolve(types@) ==> {
                        let f = types@[i as int].fields@[j as int];
                        ref_resolves(types@, f.ty) && forall|c: int|
                            0 <= c < f.args@.len() ==> ref_resolves(types@, (#[trigger] f.args@[c]).ty)
                    });
                    assert(args@[k as int] == types@[i as int].fields@[j as int].args@[k as int]);
                    return false;
                }
                k = k + 1;
            }
            j = j + 1;
        }
        i = i + 1;
    }
    true
}

impl Registry {
    /// The declared types have distinct names.
    pub open spec fn wf(&self) -> bool {
        types_distinct(self.types@)
    }

    /// An empty registry.
    pub fn new() -> (r: Registry)
        ensures
            r.types@.len() == 0,
            r.wf(),
    {
        Registry { types: Vec::new() }
    }

    /// Declares an object type; its name must be new and its field names distinct.
    pub fn declare_object_type(&mut self, ty: ObjectType) -> (r: Result<(), SchemaError>)
        requires
            old(self).wf(),
        ensures
            final(self).wf(),
            names_type(old(self).types@, ty.name@) ==> r == Err::<(), SchemaError>(
                SchemaError::DuplicateType,
            ),
            !names_type(old(self).types@, ty.name@) && !fields_distinct(ty.fields@) ==> r == Err::<
                (),
                SchemaError,
            >(SchemaError::DuplicateField),
            r is Ok <==> !names_type(old(self).types@, ty.name@) && fields_distinct(ty.fields@),
            r is Ok ==> final(self).types@ == old(self).types@.push(ty),
            r is Err ==> final(self).types@ == old(self).types@,
    {
        if find_type(&self.types, ty.name.as_str()) {
            return Err(SchemaError::DuplicateType);
        }
        if !check_fields_distinct(&ty.fields) {
            return Err(SchemaError::DuplicateField);
        }
        let ghost before = self.types@;
        self.types.push(ty);
        assert forall|i: int, j: int| 0 <= i < j < self.types@.len() implies (
        #[trigger] self.types@[i]).name@ != (#[trigger] self.types@[j]).name@ by {
            if j == before.len() as int {
                assert(before[i] == self.types@[i]);
            }
        }
        Ok(())
    }

    /// Closes the registry into a schema rooted at `root`, with the given limits.
    pub fn finalize(self, root: &str, limits: Limits) -> (r: Result<Schema, SchemaError>)
        requires
            self.wf(),
        ensures
            !names_type(self.types@, root@) ==> r == Err::<Schema, SchemaError>(
                SchemaError::MissingRootType,
            ),
            names_type(self.types@, root@) && !refs_resolve(self.types@) ==> r == Err::<
                Schema,
                SchemaError,
            >(SchemaError::UnresolvedTypeReference),
            r is Ok <==> names_type(self.types@, root@) && refs_resolve(self.types@),
            r matches Ok(s) ==> s.wf() && s.types@ == self.types@ && s.root@ == root@ && s.limits
                == limits,
    {
        if !find_type(&self.types, root) {
            return Err(SchemaError::MissingRootType);
        }
        if !check_refs(&self.types) {
            return Err(SchemaError::UnresolvedTypeReference);
        }
        Ok(Schema { types: self.types, root: root.to_string(), limits })
    }
}

fn scalar(base: BaseType, non_null: bool) -> (r: TypeRef)
    ensures
        r.base == base,
        r.non_null == non_null,
        !r.list,
{
    TypeRef { base, non_null, list: false }
}

fn object_ref(name: &str, list: bool) -> (r: TypeRef)
    ensures
        r.base matches BaseType::Object(n) && n@ == name@,
        r.non_null == list,
        r.list == list,
{
    TypeRef { base: BaseType::Object(name.to_string()), non_null: list, list }
}

fn field(name: &str, ty: TypeRef) -> (r: FieldDecl)
    ensures
        r.name@ == name@,
        r.ty == ty,
        r.args@.len() == 0,
{
    FieldDecl { name: name.to_string(), ty, args: Vec::new() }
}

fn int_arg(name: &str, non_null: bool) -> (r: ArgumentDecl)
    ensures
        r.name@ == name@,
        r.ty.base is Int,
{
    ArgumentDecl { name: name.to_string(), ty: scalar(BaseType::Int, non_null) }
}

fn lookup_field(name: &str, ty: &str) -> (r: FieldDecl)
    ensures
        r.name@ == name@,
        r.ty.base matches BaseType::Object(n) && n@ == ty@,
        r.args@.len() == 1,
        r.args@[0].ty.base is Int,
{
    let mut f = field(name, object_ref(ty, false));
    f.args.push(int_arg("id", true));
    f
}

fn list_field(name: &str, ty: &str) -> (r: FieldDecl)
    ensures
        r.name@ == name@,
        r.ty.base matches BaseType::Object(n) && n@ == ty@,
        r.args@.len() == 2,
        r.args@[0].ty.base is Int,
        r.args@[1].ty.base is Int,
{
    let mut f = field(name, object_ref(ty, true));
    f.args.push(int_arg("limit", false));
    f.args.push(int_arg("offset", false));
    f
}

/// The artist object type.
pub fn artist_type() -> (r: ObjectType)
    ensures
        r.name@ == "Artist"@,
        fields_distinct(r.fields@),
        field_names(r.fields@) == artist_field_names(),
        forall|j: int| 0 <= j < r.fields@.len() ==> !((#[trigger] r.fields@[j]).ty.base is Object)
            && r.fields@[j].args@.len() == 0,
{
    let fields = vec![
        field("id", scalar(BaseType::Int, true)),
        field("gid", scalar(BaseType::Text, true)),
        field("name", scalar(BaseType::Text, true)),
        field("sort_name", scalar(BaseType::Text, true)),
        field("comment", scalar(BaseType::Text, true)),
        field("type", scalar(BaseType::Int, false)),
        field("area", scalar(BaseType::Int, false)),
        field("gender", scalar(BaseType::Int, false)),
        field("begin_date_year", scalar(BaseType::Int, false)),
        field("end_date_year", scalar(BaseType::Int, false)),
        field("ended", scalar(BaseType::Boolean, true)),
    ];
    proof {
        reveal_strlit("id");
        reveal_strlit("gid");
        reveal_strlit("name");
        reveal_strlit("sort_name");
        reveal_strlit("comment");
        reveal_strlit("type");
        reveal_strlit("area");
        reveal_strlit("gender");
        reveal_strlit("begin_date_year");
        reveal_strlit("end_date_year");
        reveal_strlit("ended");
        assert(fields@.len() == 11);
        assert(fields@[0].name@ == "id"@);
        assert(fields@[1].name@ == "gid"@);
        assert(fields@[2].name@ == "name"@);
        assert(fields@[3].name@ == "sort_name"@);
        assert(fields@[4].name@ == "comment"@);
        assert(fields@[5].name@ == "type"@);
        assert(fields@[6].name@ == "area"@);
        assert(fields@[7].name@ == "gender"@);
        assert(fields@[8].name@ == "begin_date_year"@);
        assert(fields@[9].name@ == "end_date_year"@);
        assert(fields@[10].name@ == "ended"@);
        assert("id"@.len() == 2);
        assert("gid"@.len() == 3);
        assert("name"@.len() == 4);
        assert("sort_name"@.len() == 9);
        assert("comment"@.len() == 7);
        assert("type"@.len() == 4);
        assert("area"@.len() == 4);
        assert("gender"@.len() == 6);
        assert("begin_date_year"@.len() == 15);
        assert("end_date_year"@.len() == 13);
        assert("ended"@.len() == 5);
        assert("name"@[0] == 'n');
        assert("type"@[0] == 't');
        assert("area"@[0] == 'a');
        assert forall|i: int, j: int| 0 <= i < j < fields@.len() implies (
        #[trigger] fields@[i]).name@ != (#[trigger] fields@[j]).name@ by {
            if i == 0 {
            } else if i == 1 {
            } else if i == 2 {
            } else if i == 3 {
            } else if i == 4 {
            } else if i == 5 {
            } else if i == 6 {
            } else if i == 7 {
            } else if i == 8 {
            } else if i == 9 {
            } else {
            }
        }
        assert(field_names(fields@) =~= artist_field_names());
    }
    ObjectType { name: "Artist".to_string(), fields }
}

/// The area object type.
pub fn area_type() -> (r: ObjectType)
    ensures
        r.name@ == "Area"@,
        fields_distinct(r.fields@),
        field_names(r.fields@) == area_field_names(),
        forall|j: int| 0 <= j < r.fields@.len() ==> !((#[trigger] r.fields@[j]).ty.base is Object)
            && r.fields@[j].args@.len() == 0,
{
    let fields = vec![
        field("id", scalar(BaseType::Int, true)),
        field("gid", scalar(BaseType::Text, true)),
        field("name", scalar(BaseType::Text, true)),
        field("type", scalar(BaseType::Int, false)),
    ];
    proof {
        reveal_strlit("id");
        reveal_strlit("gid");
        reveal_strlit("name");
        reveal_strlit("type");
        assert(fields@.len() == 4);
        assert(fields@[0].name@ == "id"@ && fields@[1].name@ == "gid"@ && fields@[2].name@ == "name"@
            && fields@[3].name@ == "type"@);
        assert("id"@.len() == 2 && "gid"@.len() == 3 && "name"@.len() == 4 && "type"@.len() == 4);
        assert("name"@[0] == 'n' && "type"@[0] == 't');
        assert forall|i: int, j: int| 0 <= i < j < fields@.len() implies (
        #[trigger] fields@[i]).name@ != (#[trigger] fields@[j]).name@ by {
            if i == 0 {
            } else if i == 1 {
            } else {
            }
        }
        assert(field_names(fields@) =~= area_field_names());
    }
    ObjectType { name: "Area".to_string(), fields }
}

/// The root query type.
pub fn query_type() -> (r: ObjectType)
    ensures
        r.name@ == "Query"@,
        fields_distinct(r.fields@),
        field_names(r.fields@) == query_field_names(),
        forall|j: int|
            0 <= j < r.fields@.len() ==> ((#[trigger] r.fields@[j]).ty.base matches BaseType::Object(
                n,
            ) ==> n@ == "Artist"@ || n@ == "Area"@) && forall|k: int|
                0 <= k < r.fields@[j].args@.len() ==> (#[trigger] r.fields@[j].args@[k]).ty.base is Int,
{
    let fields = vec![
        field("health", scalar(BaseType::Text, true)),
        field("database_connected", scalar(BaseType::Boolean, true)),
        field("databaseConnected", scalar(BaseType::Boolean, true)),
        lookup_field("artist", "Artist"),
        list_field("artists", "Artist"),
        field("artistCount", scalar(BaseType::Int, true)),
        lookup_field("area", "Area"),
        list_field("areas", "Area"),
    ];
    proof {
        reveal_strlit("health");
        reveal_strlit("database_connected");
        reveal_strlit("databaseConnected");
        reveal_strlit("artist");
        reveal_strlit("artists");
        reveal_strlit("artistCount");
        reveal_strlit("area");
        reveal_strlit("areas");
        assert(fields@.len() == 8);
        assert(fields@[0].name@ == "health"@);
        assert(fields@[1].name@ == "database_connected"@);
        assert(fields@[2].name@ == "databaseConnected"@);
        assert(fields@[3].name@ == "artist"@);
        assert(fields@[4].name@ == "artists"@);
        assert(fields@[5].name@ == "artistCount"@);
        assert(fields@[6].name@ == "area"@);
        assert(fields@[7].name@ == "areas"@);
        assert("health"@.len() == 6);
        assert("database_connected"@.len() == 18);
        assert("databaseConnected"@.len() == 17);
        assert("artist"@.len() == 6);
        assert("artists"@.len() == 7);
        assert("artistCount"@.len() == 11);
        assert("area"@.len() == 4);
        assert("areas"@.len() == 5);
        assert("health"@[0] == 'h');
        assert("artist"@[0] == 'a');
        assert forall|i: int, j: int| 0 <= i < j < fields@.len() implies (
        #[trigger] fields@[i]).name@ != (#[trigger] fields@[j]).name@ by {
            if i == 0 {
            } else if i == 1 {
            } else if i == 2 {
            } else if i == 3 {
            } else if i == 4 {
            } else if i == 5 {
            } else if i == 6 {
            } else {
            }
        }
        assert(field_names(fields@) =~= query_field_names());
    }
    ObjectType { name: "Query".to_string(), fields }
}

/// The resolvers serve exactly the fields that the registry declares: a
/// name is an artist (area) field to the resolvers if and only if the artist
/// (area) type declares it, and every root selection that binds to a plan
/// names a field of the query type.
pub proof fn lemma_resolvers_follow_schema()
    ensures
        forall|f: Seq<char>| is_artist_field(f) <==> #[trigger] artist_field_names().contains(f),
        forall|f: Seq<char>| is_area_field(f) <==> #[trigger] area_field_names().contains(f),
        forall|sel: Selection| #[trigger] plan_of(sel) is Ok ==> query_field_names().contains(sel.name@),
{
    assert forall|f: Seq<char>| is_artist_field(f) implies #[trigger] artist_field_names().contains(f) by {
        if f == "id"@ {
            assert(artist_field_names()[0] == f);
        } else if f == "gid"@ {
            assert(artist_field_names()[1] == f);
        } else if f == "name"@ {
            assert(artist_field_names()[2] == f);
        } else if f == "sort_name"@ {
            assert(artist_field_names()[3] == f);
        } else if f == "comment"@ {
            assert(artist_field_names()[4] == f);
        } else if f == "type"@ {
            assert(artist_field_names()[5] == f);
        } else if f == "area"@ {
            assert(artist_field_names()[6] == f);
        } else if f == "gender"@ {
            assert(artist_field_names()[7] == f);
        } else if f == "begin_date_year"@ {
            assert(artist_field_names()[8] == f);
        } else if f == "end_date_year"@ {
            assert(artist_field_names()[9] == f);
        } else if f == "ended"@ {
            assert(artist_field_names()[10] == f);
        }
    }
    assert forall|f: Seq<char>| #[trigger] artist_field_names().contains(f) implies is_artist_field(f) by {
        let i = choose|i: int| 0 <= i < artist_field_names().len() && artist_field_names()[i] == f;
        if 0 <= i {
            if i == 0 {
            } else if i == 1 {
            } else if i == 2 {
            } else if i == 3 {
            } else if i == 4 {
            } else if i == 5 {
            } else if i == 6 {
            } else if i == 7 {
            } else if i == 8 {
            } else if i == 9 {
            } else {
            }
        }
    }
    assert forall|f: Seq<char>| is_area_field(f) implies #[trigger] area_field_names().contains(f) by {
        if f == "id"@ {
            assert(area_field_names()[0] == f);
        } else if f == "gid"@ {
            assert(area_field_names()[1] == f);
        } else if f == "name"@ {
            assert(area_field_names()[2] == f);
        } else if f == "type"@ {
            assert(area_field_names()[3] == f);
        }
    }
    assert forall|f: Seq<char>| #[trigger] area_field_names().contains(f) implies is_area_field(f) by {
        let i = choose|i: int| 0 <= i < area_field_names().len() && area_field_names()[i] == f;
        if 0 <= i {
            if i == 0 {
            } else if i == 1 {
            } else if i == 2 {
            } else {
            }
        }
    }
    assert forall|sel: Selection| #[trigger] plan_of(sel) is Ok implies query_field_names().contains(
        sel.name@,
    ) by {
        if sel.name@ == "health"@ {
            assert(query_field_names()[0] == sel.name@);
        } else if sel.name@ == "database_connected"@ {
            assert(query_field_names()[1] == sel.name@);
        } else if sel.name@ == "databaseConnected"@ {
            assert(query_field_names()[2] == sel.name@);
        } else if sel.name@ == "artist"@ {
            assert(query_field_names()[3] == sel.name@);
        } else if sel.name@ == "artists"@ {
            assert(query_field_names()[4] == sel.name@);
        } else if sel.name@ == "artistCount"@ {
            assert(query_field_names()[5] == sel.name@);
        } else if sel.name@ == "area"@ {
            assert(query_field_names()[6] == sel.name@);
        } else if sel.name@ == "areas"@ {
            assert(query_field_names()[7] == sel.name@);
        }
    }
}

/// Builds the schema of artists and areas under the given optional depth
/// and complexity limits. It always succeeds: the schema is rooted at
/// `Query`, holds its three types, and carries exactly the limits given.
pub fn schema(depth: Option<u64>, complexity: Option<u64>) -> (r: Result<Schema, SchemaError>)
    ensures
        r matches Ok(s) && s.wf() && s.root@ == "Query"@ && s.limits == (Limits {
            depth,
            complexity,
        }) && s.types@.len() == 3,
        r matches Ok(s) && s.types@[0].name@ == "Query"@ && s.types@[1].name@ == "Artist"@
            && s.types@[2].name@ == "Area"@ && field_names(s.types@[0].fields@) == query_field_names()
            && field_names(s.types@[1].fields@) == artist_field_names() && field_names(
            s.types@[2].fields@,
        ) == area_field_names(),
{
    let mut reg = Registry::new();
    let q = query_type();
    let ar = artist_type();
    let area = area_type();
    proof {
        reveal_strlit("Query");
        reveal_strlit("Artist");
        reveal_strlit("Area");
        assert("Query"@.len() == 5);
        assert("Artist"@.len() == 6);
        assert("Area"@.len() == 4);
    }
    match reg.declare_object_type(q) {
        Ok(()) => {},
        Err(e) => return Err(e),
    }
    assert(reg.types@.len() == 1 && reg.types@[0].name@ != "Artist"@);
    assert(!names_type(reg.types@, "Artist"@));
    match reg.declare_object_type(ar) {
        Ok(()) => {},
        Err(e) => return Err(e),
    }
    assert(reg.types@.len() == 2 && reg.types@[0].name@ != "Area"@ && reg.types@[1].name@
        != "Area"@);
    assert(!names_type(reg.types@, "Area"@));
    match reg.declare_object_type(area) {
        Ok(()) => {},
        Err(e) => return Err(e),
    }
    let ghost types = reg.types@;
    assert(names_type(types, "Artist"@)) by {
        assert(types[1].name@ == "Artist"@);
    }
    assert(names_type(types, "Area"@)) by {
        assert(types[2].name@ == "Area"@);
    }
    assert(names_type(types, "Query"@)) by {
        assert(types[0].name@ == "Query"@);
    }
    assert(refs_resolve(types));
    reg.finalize("Query", Limits { depth, complexity })
}

} // verus!
