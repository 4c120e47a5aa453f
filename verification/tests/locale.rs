use paradox_server::api::locale::{
    all_doc, locale_reply, node_child, pod_doc, select_node, All, AllDoc, DocKey, LocaleNode,
    LocaleReply, LocaleTree, Mode, PodDoc, WithSuffix,
};
use paradox_server::api::locale_keys::{get_keys, locale_table, mission_locale, mission_sections};
use paradox_server::api::locale_query::{
    key_parts, locale_query, query_layer, query_layers, CompositeKey, IntOrKey, IntStringSet, QueryItem,
};
use paradox_server::path::PathSplit;
use paradox_server::strmap::StrMap;

fn node(value: Option<&str>, ints: Vec<(u32, usize)>, strs: Vec<(&str, usize)>) -> LocaleNode {
    LocaleNode {
        value: value.map(|v| v.to_string()),
        int_children: ints,
        str_children: strs.into_iter().map(|(k, c)| (k.to_string(), c)).collect(),
    }
}

fn tree() -> LocaleTree {
    LocaleTree {
        nodes: vec![
            node(None, vec![], vec![("Missions", 1), ("Solo", 6), ("UI", 4)]),
            node(None, vec![(5, 2), (9, 8)], vec![]),
            node(None, vec![], vec![("name", 3)]),
            node(Some("Smash"), vec![], vec![]),
            node(Some("x"), vec![], vec![("title", 5)]),
            node(Some("T"), vec![], vec![]),
            node(None, vec![], vec![("deep", 7)]),
            node(Some("v"), vec![], vec![]),
            node(None, vec![], vec![]),
        ],
    }
}

fn s(x: &str) -> AllDoc {
    AllDoc::Str(x.to_string())
}

fn k(x: &str) -> DocKey {
    DocKey::Str(x.to_string())
}

fn select(path: &str) -> Option<(usize, Mode)> {
    select_node(&tree(), PathSplit::of_path(path))
}

#[test]
fn locale_paths_select_nodes() {
    assert_eq!(select("Missions/5"), Some((2, Mode::Pod)));
    assert_eq!(select("Missions/5/"), Some((2, Mode::Pod)));
    assert_eq!(select("Missions/5/$all"), Some((2, Mode::All)));
    assert_eq!(select("$all"), Some((0, Mode::All)));
    assert_eq!(select(""), Some((0, Mode::Pod)));
    assert_eq!(select("Missions/x"), None);
    assert_eq!(select("Missions/7/name"), None);
    assert_eq!(select("Missions/$all/x"), None);
    assert_eq!(select("UI/title"), Some((5, Mode::Pod)));
    let t = tree();
    let seg: Vec<char> = "05".chars().collect();
    assert_eq!(node_child(&t, 1, &seg), Some(2));
}

#[test]
fn locale_subtrees_in_full() {
    let t = tree();
    assert_eq!(all_doc(&t, 2), AllDoc::Object(vec![(k("name"), s("Smash"))]));
    assert_eq!(all_doc(&t, 3), s("Smash"));
    assert_eq!(all_doc(&t, 8), AllDoc::Null);
    assert_eq!(
        all_doc(&t, 0),
        AllDoc::Object(vec![
            (
                k("Missions"),
                AllDoc::Object(vec![
                    (DocKey::Int(5), AllDoc::Object(vec![(k("name"), s("Smash"))])),
                    (DocKey::Int(9), AllDoc::Null),
                ])
            ),
            (k("Solo_deep"), s("v")),
            (k("UI"), AllDoc::Object(vec![(k("$value"), s("x")), (k("title"), s("T"))])),
        ])
    );
    let (suffix, inner) = All::new_inner(&t, 6);
    assert_eq!((suffix.as_str(), inner.node), ("_deep", 7));
    assert_eq!(All::new(3).node, 3);
    assert_eq!(WithSuffix::new("Solo", "_deep").key(), "Solo_deep");
}

#[test]
fn locale_levels() {
    let t = tree();
    assert_eq!(
        pod_doc(&t, 1),
        PodDoc { value: None, int_keys: vec![5, 9], str_keys: vec![] }
    );
    assert_eq!(
        pod_doc(&t, 4),
        PodDoc { value: Some("x".into()), int_keys: vec![], str_keys: vec!["title".into()] }
    );
    match locale_reply(&t, PathSplit::of_path("UI")) {
        Some(LocaleReply::Pod(p)) => assert_eq!(p.str_keys, vec!["title"]),
        other => panic!("{:?}", other),
    }
    match locale_reply(&t, PathSplit::of_path("UI/$all")) {
        Some(LocaleReply::All(d)) => assert_eq!(d, AllDoc::Object(vec![(k("$value"), s("x")), (k("title"), s("T"))])),
        other => panic!("{:?}", other),
    }
    assert!(locale_reply(&t, PathSplit::of_path("Nope")).is_none());
}

/// The elements of a query layer, read from JSON as the query body gives
/// them: numbers in the range of `u32`, and texts.
fn items(json: &str) -> Vec<QueryItem> {
    let v: serde_json::Value = serde_json::from_str(json).unwrap();
    v.as_array()
        .unwrap()
        .iter()
        .map(|e| match e {
            serde_json::Value::Number(n) => QueryItem::Int(u32::try_from(n.as_u64().unwrap()).unwrap()),
            serde_json::Value::String(s) => QueryItem::Text(s.clone()),
            other => panic!("{:?}", other),
        })
        .collect()
}

#[test]
fn test_deserialize() {
    let t = LocaleTree {
        nodes: vec![
            node(None, vec![], vec![("a", 1), ("b", 2), ("c", 3)]),
            node(None, vec![], vec![]),
            node(None, vec![], vec![]),
            node(None, vec![], vec![]),
        ],
    };
    assert_eq!(
        query_layer(&t, &items(r#"[1,2,3,4,"a","b","c"]"#)),
        IntStringSet {
            int_keys: vec![1, 2, 3, 4],
            str_keys: vec!["a".to_string(), "b".to_string(), "c".to_string()],
            vec_keys: Vec::new(),
        }
    );
}

#[test]
fn query_layers_read_keys() {
    let t = tree();
    let layer = query_layer(&t, &items(r#"[9, "5", "name", "nope", "Missions_5_name", "Missions_x", 5, "Missions_5_name"]"#));
    assert_eq!(layer.int_keys, vec![5, 9]);
    assert_eq!(layer.str_keys, vec!["name".to_string()]);
    assert_eq!(
        layer.vec_keys,
        vec![CompositeKey {
            parts: vec![IntOrKey::Key("Missions".into()), IntOrKey::Int(5), IntOrKey::Key("name".into())],
            full: "Missions_5_name".into(),
        }]
    );
    assert_eq!(key_parts(&t, "UI_7"), Some(vec![IntOrKey::Key("UI".into()), IntOrKey::Int(7)]));
    assert_eq!(key_parts(&t, "UI_zzz"), None);
    assert_eq!(query_layers(&t, &vec![vec![], vec![QueryItem::Int(1)]]).len(), 2);
}

#[test]
fn locale_queries() {
    let t = tree();
    let layers = query_layers(&t, &vec![items(r#"[5, 9, 7]"#), items(r#"["name"]"#)]);
    assert_eq!(
        locale_query(&t, PathSplit::of_path("Missions"), &layers),
        Some(AllDoc::Object(vec![
            (DocKey::Int(5), AllDoc::Object(vec![(k("name"), s("Smash"))])),
            (DocKey::Int(9), AllDoc::Object(vec![])),
        ]))
    );
    let one = query_layers(&t, &vec![items(r#"["Missions_5_name", "UI"]"#)]);
    assert_eq!(
        locale_query(&t, PathSplit::of_path(""), &one),
        Some(AllDoc::Object(vec![(k("UI"), s("x")), (k("Missions_5_name"), s("Smash"))]))
    );
    // Segments of the path are taken apart at underscores too.
    assert_eq!(
        locale_query(&t, PathSplit::of_path("Missions_5"), &Vec::new()),
        Some(AllDoc::Null)
    );
    assert_eq!(locale_query(&t, PathSplit::of_path("UI/title"), &Vec::new()), Some(s("T")));
    assert_eq!(locale_query(&t, PathSplit::of_path("Nope"), &layers), None);
}

fn flat(m: &StrMap<String>) -> Vec<(String, String)> {
    (0..m.len()).map(|i| {
        let (k, v) = m.entry(i);
        (k.clone(), v.clone())
    }).collect()
}

fn pairs(v: &[(&str, &str)]) -> Vec<(String, String)> {
    v.iter().map(|(a, b)| (a.to_string(), b.to_string())).collect()
}

#[test]
fn locale_flat_keys() {
    let t = tree();
    assert!(t.check_wf());
    assert_eq!(
        flat(&get_keys(&t, 0)),
        pairs(&[("Missions_5_name", "Smash"), ("Solo_deep", "v"), ("UI", "x"), ("UI_title", "T")])
    );
    assert_eq!(flat(&get_keys(&t, 2)), pairs(&[("name", "Smash")]));
    assert_eq!(flat(&get_keys(&t, 3)), pairs(&[]));
    let table = locale_table(&t, 1, &[9, 5, -1, 7]);
    let got: Vec<(i32, Vec<(String, String)>)> = table.iter().map(|(k, m)| (*k, flat(m))).collect();
    assert_eq!(got, vec![(9, pairs(&[])), (5, pairs(&[("name", "Smash")]))]);
    assert_eq!(mission_sections(&t), None);
}

#[test]
fn mission_translations() {
    let t = LocaleTree {
        nodes: vec![
            node(None, vec![], vec![("MissionText", 1), ("Missions", 4)]),
            node(None, vec![(3, 2)], vec![]),
            node(None, vec![], vec![("accept_chat", 3)]),
            node(Some("Hi"), vec![], vec![]),
            node(None, vec![(3, 5)], vec![]),
            node(None, vec![], vec![("name", 6)]),
            node(Some("First"), vec![], vec![]),
        ],
    };
    assert!(t.check_wf());
    let sections = mission_sections(&t).unwrap();
    assert_eq!(sections, (1, 4));
    let loc = mission_locale(&t, sections, &[3, 4]);
    assert_eq!(loc.mission_text.len(), 1);
    assert_eq!(flat(&loc.mission_text[0].1), pairs(&[("accept_chat", "Hi")]));
    assert_eq!(flat(&loc.missions[0].1), pairs(&[("name", "First")]));
}

#[test]
fn ill_formed_trees_are_found() {
    let unsorted = LocaleTree { nodes: vec![node(None, vec![], vec![("b", 1), ("a", 2)]), node(None, vec![], vec![]), node(None, vec![], vec![])] };
    assert!(!unsorted.check_wf());
    let backwards = LocaleTree { nodes: vec![node(None, vec![(1, 0)], vec![])] };
    assert!(!backwards.check_wf());
    let empty = LocaleTree { nodes: vec![] };
    assert!(!empty.check_wf());
}

#[test]
fn query_elements_are_never_parsed() {
    let t = LocaleTree {
        nodes: vec![
            node(None, vec![(1, 1)], vec![("1", 2)]),
            node(Some("int"), vec![], vec![]),
            node(Some("text"), vec![], vec![]),
        ],
    };
    assert!(t.check_wf());
    let layer = query_layer(&t, &items(r#"["1", 1]"#));
    assert_eq!(
        layer,
        IntStringSet { int_keys: vec![1], str_keys: vec!["1".to_string()], vec_keys: Vec::new() }
    );
    assert_eq!(
        locale_query(&t, PathSplit::of_path(""), &vec![layer]),
        Some(AllDoc::Object(vec![(DocKey::Int(1), s("int")), (k("1"), s("text"))]))
    );
    let unknown = query_layer(&t, &items(r#"["2"]"#));
    assert_eq!(unknown.int_keys, Vec::<u32>::new());
    assert_eq!(unknown.str_keys, Vec::<String>::new());
}
