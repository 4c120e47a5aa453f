use paradox_server::api::graphql_parse::{graphql_plans_of_text, parse_document};
use paradox_server::api::graphql_fold::{flush_table_data, table_to_json, table_to_json_inner, RowError};
use paradox_server::api::graphql::{
    document_selections, field_to_table_query, graphql_output, graphql_plans, join_strings, plan_selection,
    table_query_to_sql, table_rels_of, valueref_to_json, CellValue, ForeignKey, GqlDefinition,
    GqlDocument, GqlField, GqlSelection, TableFks, TableRels,
};

fn leaf(name: &str) -> GqlSelection {
    GqlSelection::Field(GqlField { alias: None, name: name.into(), arguments: vec![], selection_set: vec![] })
}

fn rels() -> TableRels {
    table_rels_of(&vec![
        TableFks { table: "Missions".into(), fks: vec![] },
        TableFks {
            table: "MissionTasks".into(),
            fks: vec![ForeignKey { from_col: "id".into(), to_table: "Missions".into(), to_col: "id".into() }],
        },
    ])
}

fn missions_query() -> GqlField {
    GqlField {
        alias: Some("m".into()),
        name: "Missions".into(),
        arguments: vec![("id".into(), "5".into())],
        selection_set: vec![
            leaf("name_loc"),
            GqlSelection::Field(GqlField {
                alias: None,
                name: "MissionTasks".into(),
                arguments: vec![],
                selection_set: vec![leaf("uid")],
            }),
        ],
    }
}

#[test]
fn relations_of_foreign_keys() {
    let r = rels();
    let tasks = r.get("MissionTasks").unwrap();
    let fk = tasks.get("id").unwrap();
    assert!(fk.unique);
    assert_eq!((fk.from_col.as_str(), fk.to_table.as_str(), fk.to_col.as_str()), ("id", "Missions", "id"));
    let missions = r.get("Missions").unwrap();
    assert_eq!(missions.keys(), vec!["MissionTasks", "MissionTasks_id"]);
    let back = missions.get("MissionTasks_id").unwrap();
    assert!(!back.unique);
    assert_eq!((back.from_col.as_str(), back.to_table.as_str(), back.to_col.as_str()), ("id", "MissionTasks", "id"));
    let short = missions.get("MissionTasks").unwrap();
    assert_eq!(short.to_table, "MissionTasks");
}

#[test]
fn query_to_sql() {
    let r = rels();
    let tq = field_to_table_query(&r, &missions_query()).unwrap();
    assert_eq!(tq.name, "Missions");
    assert_eq!(tq.constraints, vec!["id == 5"]);
    assert_eq!(tq.cols.len(), 1);
    assert_eq!(tq.cols[0].name, "name_en_US");
    assert_eq!(tq.cols[0].alias.as_deref(), Some("name_loc"));
    assert_eq!(tq.joins.len(), 1);
    assert!(!tq.joins[0].unique);
    assert_eq!(tq.joins[0].to_table.name, "MissionTasks");
    assert_eq!(
        table_query_to_sql(&tq),
        "select t0.rowid, t0.name_en_US, t1.rowid, t1.uid from Missions as t0 left join MissionTasks as t1 on t0.id = t1.id where t0.id == 5 order by t0.rowid, t1.rowid"
    );
    let plan = plan_selection(&r, &GqlSelection::Field(missions_query())).unwrap();
    assert_eq!(plan.key, "m");
    assert_eq!(plan.sql, table_query_to_sql(&tq));
}

#[test]
fn nested_joins_number_tables_in_order() {
    let r = rels();
    let q = GqlField {
        alias: None,
        name: "MissionTasks".into(),
        arguments: vec![],
        selection_set: vec![GqlSelection::Field(GqlField {
            alias: None,
            name: "id".into(),
            arguments: vec![],
            selection_set: vec![GqlSelection::Field(GqlField {
                alias: None,
                name: "MissionTasks_id".into(),
                arguments: vec![("uid".into(), "3".into())],
                selection_set: vec![leaf("uid")],
            })],
        })],
    };
    let tq = field_to_table_query(&r, &q).unwrap();
    assert_eq!(
        table_query_to_sql(&tq),
        "select t0.rowid, t1.rowid, t2.rowid, t2.uid from MissionTasks as t0 left join Missions as t1 on t0.id = t1.id left join MissionTasks as t2 on t1.id = t2.id where t2.uid == 3 order by t0.rowid, t1.rowid, t2.rowid"
    );
}

#[test]
fn query_errors() {
    let r = rels();
    let bad_table = GqlField { alias: None, name: "Nope".into(), arguments: vec![], selection_set: vec![] };
    let e = field_to_table_query(&r, &bad_table).unwrap_err();
    assert_eq!(e.error, "invalid table name Nope");
    assert_eq!(e.message, "table does not exist");
    let not_fk = GqlField {
        alias: None,
        name: "Missions".into(),
        arguments: vec![],
        selection_set: vec![GqlSelection::Field(GqlField {
            alias: None,
            name: "name".into(),
            arguments: vec![],
            selection_set: vec![leaf("x")],
        })],
    };
    let e = field_to_table_query(&r, &not_fk).unwrap_err();
    assert_eq!(e.error, "field name is not a foreign key");
    assert_eq!(e.message, "field has items but is not a FK according to the DB");
    let frag = GqlField {
        alias: None,
        name: "Missions".into(),
        arguments: vec![],
        selection_set: vec![GqlSelection::InlineFragment],
    };
    let e = field_to_table_query(&r, &frag).unwrap_err();
    assert_eq!(e.error, "invalid graphql query");
    assert_eq!(e.message, "selection set in query should only contain Fields");
    let e = plan_selection(&r, &GqlSelection::FragmentSpread).unwrap_err();
    assert_eq!(e.message, "TODO: Selection::FragmentSpread not supported");
}

#[test]
fn documents() {
    let empty = GqlDocument { definitions: vec![] };
    assert_eq!(document_selections(&empty).unwrap_err().message, "empty query");
    let two = GqlDocument { definitions: vec![GqlDefinition::Fragment, GqlDefinition::Fragment] };
    assert_eq!(document_selections(&two).unwrap_err().message, "only 1 definition allowed, got: 2");
    let frag = GqlDocument { definitions: vec![GqlDefinition::Fragment] };
    assert_eq!(document_selections(&frag).unwrap_err().message, "TODO: fragment definition not supported");
    let other = GqlDocument { definitions: vec![GqlDefinition::Other("mutation { x }".into())] };
    assert_eq!(document_selections(&other).unwrap_err().message, "Unsupported operation: mutation { x }");
    let q = GqlDocument { definitions: vec![GqlDefinition::Query(vec![leaf("a")])] };
    assert_eq!(document_selections(&q).unwrap().len(), 1);
}

#[test]
fn json_pieces() {
    assert_eq!(valueref_to_json(&CellValue::Null).unwrap(), "null");
    assert_eq!(valueref_to_json(&CellValue::Integer(-7)).unwrap(), "-7");
    assert_eq!(valueref_to_json(&CellValue::Real("1.5".into())).unwrap(), "1.5");
    assert_eq!(valueref_to_json(&CellValue::Text(b"a\"b\\c\n".to_vec())).unwrap(), "\"a\\\"b\\\\c\\n\"");
    assert!(valueref_to_json(&CellValue::Blob(vec![0xff])).is_err());
    assert_eq!(
        graphql_output(&vec![("a".into(), "[]".into()), ("b".into(), "[{}]".into())]),
        "{\"a\":[],\"b\":[{}]}"
    );
    assert_eq!(graphql_output(&vec![]), "{}");
    assert_eq!(join_strings(&vec!["x".into(), "y".into()], ", "), "x, y");
}

fn text(s: &str) -> CellValue {
    CellValue::Text(s.as_bytes().to_vec())
}

#[test]
fn rows_fold_into_json() {
    let r = rels();
    let mut tq = field_to_table_query(&r, &missions_query()).unwrap();
    let rows = vec![
        vec![CellValue::Integer(1), text("A"), CellValue::Integer(10), CellValue::Integer(100)],
        vec![CellValue::Integer(1), text("A"), CellValue::Integer(11), CellValue::Integer(101)],
        vec![CellValue::Integer(2), text("B"), CellValue::Null, CellValue::Null],
    ];
    assert_eq!(
        table_to_json(&mut tq, &rows).unwrap(),
        "[{\"name_loc\":\"A\",\"MissionTasks\":[{\"uid\":100},{\"uid\":101}]},{\"name_loc\":\"B\",\"MissionTasks\":[]}]"
    );
}

#[test]
fn no_rows_fold_into_an_empty_list() {
    let r = rels();
    let mut tq = field_to_table_query(&r, &missions_query()).unwrap();
    assert_eq!(table_to_json(&mut tq, &vec![]).unwrap(), "[]");
}

#[test]
fn unique_joins_fold_into_an_object_or_null() {
    let r = rels();
    let q = GqlField {
        alias: None,
        name: "MissionTasks".into(),
        arguments: vec![],
        selection_set: vec![
            leaf("uid"),
            GqlSelection::Field(GqlField { alias: None, name: "id".into(), arguments: vec![], selection_set: vec![leaf("name")] }),
        ],
    };
    let mut tq = field_to_table_query(&r, &q).unwrap();
    let rows = vec![
        vec![CellValue::Integer(1), CellValue::Integer(7), CellValue::Integer(3), text("x\"y")],
        vec![CellValue::Integer(2), CellValue::Integer(8), CellValue::Null, CellValue::Null],
    ];
    assert_eq!(
        table_to_json(&mut tq, &rows).unwrap(),
        "[{\"uid\":7,\"id\":{\"name\":\"x\\\"y\"}},{\"uid\":8,\"id\":null}]"
    );
}

#[test]
fn short_rows_and_bad_text_fail() {
    let r = rels();
    let mut tq = field_to_table_query(&r, &missions_query()).unwrap();
    let short = vec![vec![CellValue::Integer(1), text("A"), CellValue::Integer(10)]];
    assert!(matches!(table_to_json(&mut tq, &short), Err(RowError::InvalidColumnIndex(3))));
    let mut tq = field_to_table_query(&r, &missions_query()).unwrap();
    let bad = vec![vec![CellValue::Integer(1), CellValue::Blob(vec![0xc3]), CellValue::Null, CellValue::Null]];
    assert!(matches!(table_to_json(&mut tq, &bad), Err(RowError::Utf8(_))));
}

#[test]
fn reading_and_flushing_by_hand() {
    let r = rels();
    let mut tq = field_to_table_query(&r, &missions_query()).unwrap();
    let mut icol = 0usize;
    table_to_json_inner(&mut tq, &mut icol, false, &vec![CellValue::Integer(4), text("Q"), CellValue::Null, CellValue::Null]).unwrap();
    assert_eq!(icol, 4);
    assert_eq!(tq.rowid, 4);
    let mut icol = 0usize;
    table_to_json_inner(&mut tq, &mut icol, true, &vec![]).unwrap();
    assert_eq!(icol, 4);
    assert_eq!(flush_table_data(&mut tq), "{\"name_loc\":\"Q\",\"MissionTasks\":[]}");
    assert_eq!(tq.rowid, 0);
    assert_eq!(tq.name, "Missions");
    assert_eq!(tq.constraints, vec!["id == 5"]);
    assert_eq!(tq.cols[0].name, "name_en_US");
    assert_eq!(tq.cols[0].alias.as_deref(), Some("name_loc"));
    assert_eq!((tq.joins[0].from_col.as_str(), tq.joins[0].to_col.as_str()), ("id", "id"));
    assert_eq!(tq.joins[0].to_table.name, "MissionTasks");
}

#[test]
fn cells_are_valid_json_strings() {
    let s = valueref_to_json(&CellValue::Text(b"a\nb".to_vec())).unwrap();
    assert_eq!(s, "\"a\\nb\"");
    assert_eq!(serde_json::from_str::<String>(&s).unwrap(), "a\nb");
    let all: String = (0u8..0x20).map(|b| b as char).chain("\"\\ é/".chars()).collect();
    let t = valueref_to_json(&CellValue::Blob(all.clone().into_bytes())).unwrap();
    assert_eq!(serde_json::from_str::<String>(&t).unwrap(), all);
    assert_eq!(
        valueref_to_json(&CellValue::Text(b"\x01\x1f\x08\x0c\r\t".to_vec())).unwrap(),
        "\"\\u0001\\u001f\\b\\f\\r\\t\""
    );
}

#[test]
fn documents_plan_field_by_field() {
    let r = rels();
    let doc = GqlDocument {
        definitions: vec![GqlDefinition::Query(vec![GqlSelection::Field(missions_query()), leaf("Missions")])],
    };
    let plans = graphql_plans(&r, &doc).unwrap();
    assert_eq!(plans.len(), 2);
    assert_eq!(plans[0].key, "m");
    assert_eq!(plans[1].key, "Missions");
    assert_eq!(plans[1].sql, "select t0.rowid from Missions as t0 order by t0.rowid");
    let bad = GqlDocument {
        definitions: vec![GqlDefinition::SelectionSet(vec![
            leaf("Missions"),
            GqlSelection::InlineFragment,
            GqlSelection::FragmentSpread,
        ])],
    };
    assert_eq!(graphql_plans(&r, &bad).unwrap_err().message, "TODO: Selection::InlineFragment not supported");
    let empty = GqlDocument { definitions: vec![] };
    assert_eq!(graphql_plans(&r, &empty).unwrap_err().message, "empty query");
}

#[test]
fn query_texts_read_into_documents() {
    let doc = parse_document("query { m: Missions(id: 5) { name_loc MissionTasks { uid } } Missions }").unwrap();
    let expected = GqlDocument {
        definitions: vec![GqlDefinition::Query(vec![GqlSelection::Field(missions_query()), leaf("Missions")])],
    };
    assert_eq!(format!("{:?}", doc), format!("{:?}", expected));
    let bare = parse_document("{ Missions }").unwrap();
    let expected = GqlDocument { definitions: vec![GqlDefinition::SelectionSet(vec![leaf("Missions")])] };
    assert_eq!(format!("{:?}", bare), format!("{:?}", expected));
    let mutation = parse_document("mutation { a }").unwrap();
    assert_eq!(mutation.definitions.len(), 1);
    assert!(matches!(&mutation.definitions[0], GqlDefinition::Other(t) if t.starts_with("mutation")));
    let fragment = parse_document("fragment f on T { a }").unwrap();
    assert!(matches!(fragment.definitions[..], [GqlDefinition::Fragment]));
    let err = parse_document("{ Missions").unwrap_err();
    assert_eq!(err.error, "GraphQL parsing error");
    assert!(!err.message.is_empty());
}

#[test]
fn query_texts_plan_field_by_field() {
    let r = rels();
    let plans =
        graphql_plans_of_text(&r, "query { m: Missions(id: 5) { name_loc MissionTasks { uid } } Missions }").unwrap();
    assert_eq!(plans.len(), 2);
    assert_eq!(plans[0].key, "m");
    assert_eq!(plans[1].key, "Missions");
    assert_eq!(plans[1].sql, "select t0.rowid from Missions as t0 order by t0.rowid");
    assert_eq!(graphql_plans_of_text(&r, "{ Missions").unwrap_err().error, "GraphQL parsing error");
    let two = graphql_plans_of_text(&r, "{ Missions } { Missions }").unwrap_err();
    assert_eq!(two.message, "only 1 definition allowed, got: 2");
    let fragment = graphql_plans_of_text(&r, "{ Missions { ...f } }").unwrap_err();
    assert_eq!(fragment.error, "invalid graphql query");
}
