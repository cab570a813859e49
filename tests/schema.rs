use musicbrainz_api::entity::Model;
use musicbrainz_api::provider::{page_bounds, Snapshot};
use musicbrainz_api::query::{capped_cost_all, exceeds_depth_all, find_arg, str_eq, Argument, Limits, Selection};
use musicbrainz_api::registry::{
    artist_type, schema, ArgumentDecl, BaseType, FieldDecl, ObjectType, Registry, SchemaError, TypeRef,
};

fn scalar_field(name: &str) -> FieldDecl {
    FieldDecl {
        name: name.to_string(),
        ty: TypeRef { base: BaseType::Int, non_null: true, list: false },
        args: vec![],
    }
}

fn object_field(name: &str, target: &str) -> FieldDecl {
    FieldDecl {
        name: name.to_string(),
        ty: TypeRef { base: BaseType::Object(target.to_string()), non_null: false, list: false },
        args: vec![ArgumentDecl {
            name: "id".to_string(),
            ty: TypeRef { base: BaseType::Int, non_null: true, list: false },
        }],
    }
}

fn leaf(name: &str) -> Selection {
    Selection { name: name.to_string(), args: vec![], children: vec![] }
}

#[test]
fn built_schema_has_three_types_and_limits() {
    let s = schema(Some(5), Some(100)).unwrap();
    assert_eq!(s.root, "Query");
    assert_eq!(s.types.len(), 3);
    assert_eq!(s.limits.depth, Some(5));
    assert_eq!(s.limits.complexity, Some(100));
    let names: Vec<&str> = s.types.iter().map(|t| t.name.as_str()).collect();
    assert_eq!(names, vec!["Query", "Artist", "Area"]);
    assert_eq!(artist_type().fields.len(), 11);
}

#[test]
fn schema_execute_applies_its_limits() {
    let s = schema(Some(1), None).unwrap();
    let mut d = Snapshot { artists: vec![], areas: vec![], reachable: true, calls: 0 };
    let q = vec![Selection {
        name: "artists".to_string(),
        args: vec![],
        children: vec![leaf("id")],
    }];
    assert!(s.execute(&mut d, &q).is_err());
    assert_eq!(d.calls, 0);
    assert!(s.execute(&mut d, &vec![leaf("health")]).is_ok());
}

#[test]
fn duplicate_type_is_rejected() {
    let mut r = Registry::new();
    assert!(r.declare_object_type(ObjectType { name: "A".to_string(), fields: vec![scalar_field("x")] }).is_ok());
    assert_eq!(
        r.declare_object_type(ObjectType { name: "A".to_string(), fields: vec![] }),
        Err(SchemaError::DuplicateType)
    );
    assert_eq!(r.types.len(), 1);
}

#[test]
fn duplicate_field_is_rejected() {
    let mut r = Registry::new();
    let t = ObjectType { name: "A".to_string(), fields: vec![scalar_field("x"), scalar_field("x")] };
    assert_eq!(r.declare_object_type(t), Err(SchemaError::DuplicateField));
    assert_eq!(r.types.len(), 0);
}

#[test]
fn forward_reference_resolves_at_finalize() {
    let mut r = Registry::new();
    r.declare_object_type(ObjectType { name: "Q".to_string(), fields: vec![object_field("b", "B")] }).unwrap();
    r.declare_object_type(ObjectType { name: "B".to_string(), fields: vec![scalar_field("id")] }).unwrap();
    let s = r.finalize("Q", Limits { depth: None, complexity: None }).unwrap();
    assert_eq!(s.root, "Q");
}

#[test]
fn unresolved_reference_fails_finalize() {
    let mut r = Registry::new();
    r.declare_object_type(ObjectType { name: "Q".to_string(), fields: vec![object_field("b", "B")] }).unwrap();
    assert_eq!(
        r.finalize("Q", Limits { depth: None, complexity: None }).err(),
        Some(SchemaError::UnresolvedTypeReference)
    );
}

#[test]
fn missing_root_fails_finalize() {
    let mut r = Registry::new();
    r.declare_object_type(ObjectType { name: "B".to_string(), fields: vec![] }).unwrap();
    assert_eq!(
        r.finalize("Q", Limits { depth: None, complexity: None }).err(),
        Some(SchemaError::MissingRootType)
    );
}

#[test]
fn string_equality_and_argument_lookup() {
    assert!(str_eq("héllo", "héllo"));
    assert!(!str_eq("abc", "abd"));
    assert!(!str_eq("ab", "abc"));
    let args = vec![
        Argument { name: "limit".to_string(), value: 4 },
        Argument { name: "offset".to_string(), value: 2 },
        Argument { name: "limit".to_string(), value: 9 },
    ];
    assert_eq!(find_arg(&args, "limit"), Some(4));
    assert_eq!(find_arg(&args, "offset"), Some(2));
    assert_eq!(find_arg(&args, "id"), None);
}

#[test]
fn depth_and_cost_of_nested_selection() {
    let inner = Selection { name: "b".to_string(), args: vec![], children: vec![leaf("c"), leaf("d")] };
    let outer = Selection {
        name: "a".to_string(),
        args: vec![Argument { name: "limit".to_string(), value: 5 }],
        children: vec![inner],
    };
    let roots = vec![outer, leaf("e")];
    assert!(exceeds_depth_all(&roots, 2));
    assert!(!exceeds_depth_all(&roots, 3));
    // a: 1 + 5 * (b: 1 + 2) = 16, e: 1
    assert_eq!(capped_cost_all(&roots, 1000), 17);
    assert_eq!(capped_cost_all(&roots, 10), 10);
}

#[test]
fn page_bounds_clamp_to_rows() {
    assert_eq!(page_bounds(5, 0, 2), (0, 2));
    assert_eq!(page_bounds(5, 4, 2), (4, 5));
    assert_eq!(page_bounds(5, 9, 2), (5, 5));
    assert_eq!(page_bounds(5, 1, u64::MAX), (1, 5));
}

#[test]
fn pending_update_model_holds_release() {
    let m = Model { release: 77 };
    assert_eq!(m, Model { release: 77 });
    assert_eq!(m.release, 77);
}

#[test]
fn built_schema_declares_the_served_fields() {
    let s = schema(None, None).unwrap();
    let names = |t: &ObjectType| t.fields.iter().map(|f| f.name.clone()).collect::<Vec<String>>();
    assert_eq!(
        names(&s.types[0]),
        vec!["health", "database_connected", "databaseConnected", "artist", "artists", "artistCount", "area", "areas"]
    );
    assert_eq!(
        names(&s.types[1]),
        vec![
            "id", "gid", "name", "sort_name", "comment", "type", "area", "gender", "begin_date_year",
            "end_date_year", "ended"
        ]
    );
    assert_eq!(names(&s.types[2]), vec!["id", "gid", "name", "type"]);
    assert!(matches!(s.types[0].fields[3].ty.base, BaseType::Object(ref n) if n == "Artist"));
    assert!(!s.types[0].fields[3].ty.non_null);
    assert!(s.types[0].fields[4].ty.list && s.types[0].fields[4].ty.non_null);
}
