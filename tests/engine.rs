use musicbrainz_api::engine::{assemble, execute, plan_selection, Answer, Output, Plan, Resolved};
use musicbrainz_api::entity::{Area, Artist};
use musicbrainz_api::fields::{Entry, Scalar};
use musicbrainz_api::provider::Snapshot;
use musicbrainz_api::query::{Argument, Limits, QueryError, Selection};

fn sel(name: &str, args: &[(&str, i64)], children: Vec<Selection>) -> Selection {
    Selection {
        name: name.to_string(),
        args: args
            .iter()
            .map(|(n, v)| Argument { name: n.to_string(), value: *v })
            .collect(),
        children,
    }
}

fn leaf(name: &str) -> Selection {
    sel(name, &[], vec![])
}

fn artist(id: i32, name: &str) -> Artist {
    Artist {
        id,
        gid: format!("gid-{}", id),
        name: name.to_string(),
        sort_name: name.to_string(),
        comment: String::new(),
        artist_type: Some(1),
        area: None,
        gender: None,
        begin_date_year: Some(1990),
        end_date_year: None,
        ended: false,
    }
}

fn area(id: i32, name: &str) -> Area {
    Area { id, gid: format!("area-{}", id), name: name.to_string(), area_type: None }
}

fn provider(n: i32) -> Snapshot {
    Snapshot {
        artists: (1..=n).map(|i| artist(i, &format!("Artist {}", i))).collect(),
        areas: vec![area(10, "Here"), area(20, "There")],
        reachable: true,
        calls: 0,
    }
}

fn unlimited() -> Limits {
    Limits { depth: None, complexity: None }
}

fn int_of(e: &Entry) -> i64 {
    match e.value {
        Scalar::Int(v) => v,
        _ => panic!("not an integer"),
    }
}

fn text(e: &Entry) -> String {
    match &e.value {
        Scalar::Text(s) => s.clone(),
        _ => panic!("not text"),
    }
}

fn list_ids(o: &Output) -> Vec<i64> {
    match o.value.as_ref().unwrap() {
        Resolved::List(recs) => recs.iter().map(|r| int_of(&r[0])).collect(),
        _ => panic!("not a list"),
    }
}

#[test]
fn artist_by_id_returns_id_and_name() {
    let mut d = provider(0);
    d.artists = vec![artist(1, "Test")];
    let q = vec![sel("artist", &[("id", 1)], vec![leaf("id"), leaf("name")])];
    let out = execute(&mut d, &q, &unlimited()).unwrap();
    assert_eq!(out.len(), 1);
    assert_eq!(out[0].name, "artist");
    match out[0].value.as_ref().unwrap() {
        Resolved::Object(Some(e)) => {
            assert_eq!(e.len(), 2);
            assert_eq!(e[0].name, "id");
            assert_eq!(int_of(&e[0]), 1);
            assert_eq!(e[1].name, "name");
            assert_eq!(text(&e[1]), "Test");
        }
        _ => panic!("expected an artist"),
    }
}

#[test]
fn artists_first_page_of_two() {
    let mut d = provider(5);
    let q = vec![sel("artists", &[("limit", 2), ("offset", 0)], vec![leaf("id")])];
    let out = execute(&mut d, &q, &unlimited()).unwrap();
    assert_eq!(out[0].name, "artists");
    assert_eq!(list_ids(&out[0]), vec![1, 2]);
}

#[test]
fn database_connected_is_false_when_ping_fails() {
    let mut d = provider(3);
    d.reachable = false;
    let q = vec![leaf("databaseConnected")];
    let out = execute(&mut d, &q, &unlimited()).unwrap();
    assert_eq!(out[0].name, "databaseConnected");
    assert!(matches!(out[0].value.as_ref().unwrap(), Resolved::Scalar(Scalar::Bool(false))));
    let q2 = vec![leaf("database_connected")];
    let out2 = execute(&mut d, &q2, &unlimited()).unwrap();
    assert!(matches!(out2[0].value.as_ref().unwrap(), Resolved::Scalar(Scalar::Bool(false))));
}

#[test]
fn database_connected_is_true_when_ping_succeeds() {
    let mut d = provider(3);
    let out = execute(&mut d, &vec![leaf("database_connected")], &unlimited()).unwrap();
    assert!(matches!(out[0].value.as_ref().unwrap(), Resolved::Scalar(Scalar::Bool(true))));
    assert_eq!(d.calls, 1);
}

#[test]
fn depth_limit_rejects_before_any_provider_call() {
    let mut d = provider(5);
    let q = vec![sel("artist", &[("id", 1)], vec![leaf("id")])];
    let limits = Limits { depth: Some(1), complexity: None };
    assert_eq!(execute(&mut d, &q, &limits).err(), Some(QueryError::DepthLimitExceeded));
    assert_eq!(d.calls, 0);
    let ok = Limits { depth: Some(2), complexity: None };
    assert!(execute(&mut d, &q, &ok).is_ok());
    assert_eq!(d.calls, 1);
}

#[test]
fn complexity_limit_counts_list_size() {
    let mut d = provider(5);
    // one for the list field plus three for each of up to three rows with one field
    let q = vec![sel("artists", &[("limit", 3)], vec![leaf("id")])];
    let tight = Limits { depth: None, complexity: Some(3) };
    assert_eq!(execute(&mut d, &q, &tight).err(), Some(QueryError::ComplexityLimitExceeded));
    assert_eq!(d.calls, 0);
    let enough = Limits { depth: None, complexity: Some(4) };
    assert!(execute(&mut d, &q, &enough).is_ok());
}

#[test]
fn missing_artist_is_absent_not_error() {
    let mut d = provider(3);
    let q = vec![sel("artist", &[("id", 42)], vec![leaf("id")])];
    let out = execute(&mut d, &q, &unlimited()).unwrap();
    assert!(matches!(out[0].value.as_ref().unwrap(), Resolved::Object(None)));
    let q2 = vec![sel("area", &[("id", 11)], vec![leaf("name")])];
    let out2 = execute(&mut d, &q2, &unlimited()).unwrap();
    assert!(matches!(out2[0].value.as_ref().unwrap(), Resolved::Object(None)));
}

#[test]
fn pages_have_expected_length_order_and_no_overlap() {
    let mut d = provider(5);
    let page = |d: &mut Snapshot, limit: i64, offset: i64| {
        let q = vec![sel("artists", &[("limit", limit), ("offset", offset)], vec![leaf("id")])];
        list_ids(&execute(d, &q, &unlimited()).unwrap()[0])
    };
    assert_eq!(page(&mut d, 2, 4), vec![5]);
    assert_eq!(page(&mut d, 2, 7), Vec::<i64>::new());
    assert_eq!(page(&mut d, 10, 1), vec![2, 3, 4, 5]);
    let a = page(&mut d, 2, 0);
    let b = page(&mut d, 2, 2);
    assert!(a.iter().all(|x| !b.contains(x)));
    assert_eq!(b, vec![3, 4]);
}

#[test]
fn page_defaults_to_ten_rows_from_start() {
    let mut d = provider(12);
    let q = vec![sel("artists", &[], vec![leaf("id")])];
    let ids = list_ids(&execute(&mut d, &q, &unlimited()).unwrap()[0]);
    assert_eq!(ids, (1..=10).collect::<Vec<i64>>());
}

#[test]
fn count_equals_length_of_full_page() {
    let mut d = provider(7);
    let q = vec![leaf("artistCount"), sel("artists", &[("limit", 100)], vec![leaf("id")])];
    let out = execute(&mut d, &q, &unlimited()).unwrap();
    let count = match out[0].value.as_ref().unwrap() {
        Resolved::Scalar(Scalar::Int(c)) => *c,
        _ => panic!("expected a count"),
    };
    assert_eq!(count, 7);
    assert_eq!(list_ids(&out[1]).len(), 7);
}

#[test]
fn repeated_query_gives_same_output() {
    let mut d = provider(4);
    let q = vec![
        sel("artists", &[("limit", 3), ("offset", 1)], vec![leaf("id"), leaf("name")]),
        sel("artist", &[("id", 2)], vec![leaf("gid")]),
        leaf("health"),
    ];
    let a = execute(&mut d, &q, &unlimited()).unwrap();
    let b = execute(&mut d, &q, &unlimited()).unwrap();
    assert_eq!(a.len(), b.len());
    assert_eq!(list_ids(&a[0]), list_ids(&b[0]));
    match (a[1].value.as_ref().unwrap(), b[1].value.as_ref().unwrap()) {
        (Resolved::Object(Some(x)), Resolved::Object(Some(y))) => assert_eq!(text(&x[0]), text(&y[0])),
        _ => panic!("expected artists"),
    }
}

#[test]
fn output_mirrors_selection_shape() {
    let mut d = provider(3);
    let q = vec![
        leaf("health"),
        sel("artists", &[("limit", 2)], vec![leaf("name"), leaf("ended"), leaf("type"), leaf("area")]),
        sel("areas", &[], vec![leaf("id"), leaf("type")]),
    ];
    let out = execute(&mut d, &q, &unlimited()).unwrap();
    let names: Vec<&str> = out.iter().map(|o| o.name.as_str()).collect();
    assert_eq!(names, vec!["health", "artists", "areas"]);
    assert!(matches!(out[0].value.as_ref().unwrap(), Resolved::Scalar(Scalar::Text(s)) if s == "OK"));
    match out[1].value.as_ref().unwrap() {
        Resolved::List(recs) => {
            assert_eq!(recs.len(), 2);
            for r in recs {
                let fields: Vec<&str> = r.iter().map(|e| e.name.as_str()).collect();
                assert_eq!(fields, vec!["name", "ended", "type", "area"]);
                assert!(matches!(r[1].value, Scalar::Bool(false)));
                assert!(matches!(r[2].value, Scalar::Int(1)));
                assert!(matches!(r[3].value, Scalar::Null));
            }
        }
        _ => panic!("expected a list"),
    }
    match out[2].value.as_ref().unwrap() {
        Resolved::List(recs) => {
            assert_eq!(recs.len(), 2);
            assert_eq!(int_of(&recs[1][0]), 20);
            assert!(matches!(recs[1][1].value, Scalar::Null));
        }
        _ => panic!("expected a list"),
    }
}

#[test]
fn lookup_without_id_is_missing_argument() {
    let mut d = provider(3);
    let q = vec![sel("artist", &[], vec![leaf("id")])];
    assert_eq!(execute(&mut d, &q, &unlimited()).err(), Some(QueryError::MissingArgument));
    assert_eq!(d.calls, 0);
}

#[test]
fn negative_paging_is_invalid_argument() {
    let mut d = provider(3);
    let q = vec![sel("artists", &[("limit", -1)], vec![leaf("id")])];
    assert_eq!(execute(&mut d, &q, &unlimited()).err(), Some(QueryError::InvalidArgument));
    let q2 = vec![sel("areas", &[("offset", -5)], vec![leaf("id")])];
    assert_eq!(execute(&mut d, &q2, &unlimited()).err(), Some(QueryError::InvalidArgument));
    let q3 = vec![sel("artist", &[("id", 1i64 << 40)], vec![leaf("id")])];
    assert_eq!(execute(&mut d, &q3, &unlimited()).err(), Some(QueryError::InvalidArgument));
    assert_eq!(d.calls, 0);
}

#[test]
fn unknown_fields_are_rejected() {
    let mut d = provider(3);
    let q = vec![sel("artist", &[("id", 1)], vec![leaf("nickname")])];
    assert_eq!(execute(&mut d, &q, &unlimited()).err(), Some(QueryError::UnknownField));
    assert_eq!(execute(&mut d, &vec![leaf("songs")], &unlimited()).err(), Some(QueryError::UnknownField));
    let nested = vec![sel("health", &[], vec![leaf("id")])];
    assert_eq!(execute(&mut d, &nested, &unlimited()).err(), Some(QueryError::UnknownField));
    assert_eq!(d.calls, 0);
}

#[test]
fn failed_lookup_is_null_with_error_beside_other_fields() {
    let mut d = provider(3);
    d.reachable = false;
    let q = vec![leaf("health"), sel("artist", &[("id", 1)], vec![leaf("id")]), leaf("databaseConnected")];
    let out = execute(&mut d, &q, &unlimited()).unwrap();
    assert_eq!(out.len(), 3);
    assert!(matches!(out[0].value.as_ref().unwrap(), Resolved::Scalar(Scalar::Text(s)) if s == "OK"));
    assert_eq!(out[1].name, "artist");
    assert_eq!(out[1].value.as_ref().err(), Some(&QueryError::DataSource));
    assert!(matches!(out[2].value.as_ref().unwrap(), Resolved::Scalar(Scalar::Bool(false))));
    let q2 = vec![sel("area", &[("id", 10)], vec![leaf("id")]), leaf("health")];
    let out2 = execute(&mut d, &q2, &unlimited()).unwrap();
    assert_eq!(out2[0].value.as_ref().err(), Some(&QueryError::DataSource));
    assert!(out2[1].value.is_ok());
}

#[test]
fn failed_required_field_fails_the_query() {
    let mut d = provider(3);
    d.reachable = false;
    let q = vec![leaf("health"), sel("artists", &[], vec![leaf("id")])];
    assert_eq!(execute(&mut d, &q, &unlimited()).err(), Some(QueryError::DataSource));
    let q2 = vec![sel("artist", &[("id", 1)], vec![leaf("id")]), leaf("artistCount")];
    assert_eq!(execute(&mut d, &q2, &unlimited()).err(), Some(QueryError::DataSource));
    let health = execute(&mut d, &vec![leaf("health")], &unlimited()).unwrap();
    assert!(matches!(health[0].value.as_ref().unwrap(), Resolved::Scalar(Scalar::Text(s)) if s == "OK"));
}

#[test]
fn depth_error_is_reported_before_complexity() {
    let mut d = provider(3);
    let q = vec![sel("artists", &[("limit", 50)], vec![leaf("id")])];
    let both = Limits { depth: Some(1), complexity: Some(2) };
    assert_eq!(execute(&mut d, &q, &both).err(), Some(QueryError::DepthLimitExceeded));
    let cost_only = Limits { depth: Some(2), complexity: Some(2) };
    assert_eq!(execute(&mut d, &q, &cost_only).err(), Some(QueryError::ComplexityLimitExceeded));
    assert_eq!(d.calls, 0);
}

#[test]
fn mismatched_answer_is_type_mismatch() {
    let s = leaf("artistCount");
    let p = plan_selection(&s).unwrap();
    assert_eq!(p, Plan::ArtistCount);
    assert_eq!(assemble(&s, p, Answer::Connected(true)).err(), Some(QueryError::TypeMismatch));
    assert!(matches!(assemble(&s, p, Answer::Count(3)), Ok(Resolved::Scalar(Scalar::Int(3)))));
}

#[test]
fn plans_bind_arguments() {
    let s = sel("areas", &[("offset", 3)], vec![leaf("name")]);
    assert_eq!(plan_selection(&s), Ok(Plan::AreaPage { offset: 3, limit: 10 }));
    let s2 = sel("area", &[("id", 20)], vec![leaf("gid")]);
    assert_eq!(plan_selection(&s2), Ok(Plan::AreaById(20)));
}

#[test]
fn area_lookup_projects_fields() {
    let mut d = provider(1);
    let q = vec![sel("area", &[("id", 20)], vec![leaf("gid"), leaf("name")])];
    let out = execute(&mut d, &q, &unlimited()).unwrap();
    match out[0].value.as_ref().unwrap() {
        Resolved::Object(Some(e)) => {
            assert_eq!(text(&e[0]), "area-20");
            assert_eq!(text(&e[1]), "There");
        }
        _ => panic!("expected an area"),
    }
}
