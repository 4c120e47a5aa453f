use paradox_server::services::meta_tags::make_meta_template;
use paradox_server::services::minihb::{Lookup, Template};
use paradox_server::services::spa::{
    bullets, first_some, index_params, item_set_meta, meta_plan, mission_kind, mission_meta,
    object_meta, object_name_desc, reloads_template, skill_meta, IndexParams, Meta, MetaPlan, MissionKind, SpaRoute,
    WatchEventKind, DEFAULT_IMG,
};
use paradox_server::services::res::{cleanup_path, res_href};

struct A;

impl Lookup for A {
    fn field(&self, key: &str) -> String {
        match key {
            "a" => "Hello".to_string(),
            "b" => "World".to_string(),
            _ => String::new(),
        }
    }
}

#[test]
fn test_template() {
    let mut template = Template::new();
    template.set_text("{{a}}, {{b}}!".to_string());
    assert_eq!(template.render(&A), "Hello, World!");
}

#[test]
fn template_keeps_text_that_is_no_placeholder() {
    let mut template = Template::new();
    template.set_text("{{A}} {{}} {a}} {{a} {{{a}}} {{c}}.".to_string());
    assert_eq!(template.render(&A), "{{A}} {{}} {a}} {{a} {Hello} .");
}

#[test]
fn template_underscore_names() {
    struct B;
    impl Lookup for B {
        fn field(&self, key: &str) -> String {
            format!("<{}>", key)
        }
    }
    let mut template = Template::new();
    template.set_text("x{{og_title}}y{{a1}}".to_string());
    assert_eq!(template.render(&B), "x<og_title>y{{a1}}");
}

#[test]
fn empty_template_renders_empty() {
    assert_eq!(Template::new().render(&A), "");
}

#[test]
fn meta_tags_get_placeholders() {
    let page = "<head>\n<meta property=\"og:title\" content=\"LU\" />\n<meta name=\"twitter:card\"   content=\"x\">\n<meta name=\"viewport\" content=\"width=device-width\">\n</head>";
    assert_eq!(
        make_meta_template(page),
        "<head>\n<meta property=\"og:title\" content=\"{{title}}\">\n<meta name=\"twitter:card\" content=\"{{card}}\">\n<meta name=\"viewport\" content=\"width=device-width\">\n</head>"
    );
}

#[test]
fn meta_tags_every_field() {
    let names = [
        ("twitter:title", "{{title}}"),
        ("og:title", "{{title}}"),
        ("twitter:description", "{{description}}"),
        ("og:description", "{{description}}"),
        ("twitter:image", "{{image}}"),
        ("og:image", "{{image}}"),
        ("og:url", "{{url}}"),
        ("og:type", "{{type}}"),
        ("twitter:card", "{{card}}"),
        ("twitter:site", "{{site}}"),
    ];
    for (name, placeholder) in names {
        let page = format!("<meta name=\"{}\" content=\"old\">", name);
        let want = format!("<meta name=\"{}\" content=\"{}\">", name, placeholder);
        assert_eq!(make_meta_template(&page), want);
    }
}

#[test]
fn meta_tag_content_is_greedy_and_name_lazy() {
    assert_eq!(
        make_meta_template("<meta name=\"a\" content=\"b\" c=\"d\">"),
        "<meta name=\"a\" content=\"b\" c=\"d\">"
    );
    assert_eq!(
        make_meta_template("<meta name=\"og:url\" content=\"x\"> <meta name=\"og:type\" content=\"y\">"),
        "<meta name=\"og:url\" content=\"{{url}}\">"
    );
    assert_eq!(
        make_meta_template("<meta name=\"og:url\" content=\"x\">\n<meta name=\"og:type\" content=\"y\">"),
        "<meta name=\"og:url\" content=\"{{url}}\">\n<meta name=\"og:type\" content=\"{{type}}\">"
    );
}

#[test]
fn meta_tag_needs_space_and_close() {
    let unchanged = [
        "<metaname=\"og:url\" content=\"x\">",
        "<meta name=\"og:url\"content=\"x\">",
        "<meta name=\"og:url\" content=\"x\"",
        "<meta name=\"og:url\" content=\"x\n\">",
        "<meta id=\"og:url\" content=\"x\">",
    ];
    for page in unchanged {
        assert_eq!(make_meta_template(page), page);
    }
}

#[test]
fn spa_routes_parse() {
    assert_eq!(SpaRoute::parse("/dashboard"), Some(SpaRoute::Dashboard));
    assert_eq!(SpaRoute::parse("//dashboard/anything"), Some(SpaRoute::Dashboard));
    assert_eq!(SpaRoute::parse("/objects"), Some(SpaRoute::Objects));
    assert_eq!(SpaRoute::parse("/objects/1727"), Some(SpaRoute::ObjectById { id: 1727 }));
    assert_eq!(SpaRoute::parse("/objects/item-sets"), Some(SpaRoute::ItemSets));
    assert_eq!(SpaRoute::parse("/objects/item-sets/3"), Some(SpaRoute::ItemSetById { id: 3 }));
    assert_eq!(SpaRoute::parse("/objects/item-sets/x"), None);
    assert_eq!(SpaRoute::parse("/objects/"), None);
    assert_eq!(SpaRoute::parse("/objects/abc"), None);
    assert_eq!(SpaRoute::parse("/missions"), Some(SpaRoute::Missions));
    assert_eq!(SpaRoute::parse("/missions/-5"), Some(SpaRoute::MissionById(-5)));
    assert_eq!(SpaRoute::parse("/skills"), Some(SpaRoute::Skills));
    assert_eq!(SpaRoute::parse("/skills/+12/more"), Some(SpaRoute::SkillById { id: 12 }));
    assert_eq!(SpaRoute::parse("/"), None);
    assert_eq!(SpaRoute::parse("/zones"), None);
}

#[test]
fn meta_of_list_pages_and_others() {
    match meta_plan("/missions") {
        MetaPlan::Ready(m) => {
            assert_eq!(m.title, "Missions");
            assert_eq!(m.description, "Check out the LEGO Universe Missions");
            assert_eq!(m.image, None);
        }
        MetaPlan::Entry(_) => panic!("a list page"),
    }
    match meta_plan("/somewhere/else") {
        MetaPlan::Ready(m) => {
            assert_eq!(m.title, "LU-Explorer");
            assert_eq!(m.description, "Check out the LEGO Universe Game Data");
        }
        MetaPlan::Entry(_) => panic!("no entry"),
    }
    assert!(matches!(meta_plan("/skills/5"), MetaPlan::Entry(SpaRoute::SkillById { id: 5 })));
    let d = Meta::default();
    assert_eq!(d.title, "LU-Explorer");
    assert_eq!(Meta::item_sets().title, "Item Sets");
    assert_eq!(Meta::skills().description, "Check out the LEGO Universe Missions");
}

#[test]
fn index_params_fill_the_page() {
    let meta = Meta::objects();
    let p = index_params(meta, "https://x/lu-res/img.png", "https://lu.example", "/objects?x=1");
    assert_eq!(p.title, "Objects");
    assert_eq!(p.page_type, "website");
    assert_eq!(p.card, "summary");
    assert_eq!(p.site, "@lu_explorer");
    assert_eq!(p.image, "https://x/lu-res/img.png");
    assert_eq!(p.url, "https://lu.example/objects?x=1");
    let mut template = Template::new();
    template.set_text("{{title}}|{{type}}|{{url}}|{{nope}}|{{image}}".to_string());
    assert_eq!(
        template.render(&p),
        "Objects|website|https://lu.example/objects?x=1||https://x/lu-res/img.png"
    );
    let with_image = Meta { title: "T".into(), description: "D".into(), image: Some("i.png".into()) };
    let q = index_params(with_image, DEFAULT_IMG, "", "/");
    assert_eq!(q.image, "i.png");
    assert_eq!(q.url, "/");
    assert_eq!(q.field("description"), "D");
    assert_eq!(q.field("site"), "@lu_explorer");
}

#[test]
fn index_params_field_names() {
    let p = IndexParams {
        title: "a".into(),
        description: "b".into(),
        page_type: "c".into(),
        image: "d".into(),
        url: "e".into(),
        card: "f".into(),
        site: "g".into(),
    };
    let got: Vec<String> = ["title", "description", "type", "image", "url", "card", "site", "x"]
        .iter()
        .map(|k| p.field(k))
        .collect();
    assert_eq!(got, vec!["a", "b", "c", "d", "e", "f", "g", ""]);
}

#[test]
fn bulleted_lists() {
    assert_eq!(bullets(&vec![]), "");
    assert_eq!(bullets(&vec!["one".to_string()]), "- one");
    assert_eq!(bullets(&vec!["one".to_string(), "two".to_string()]), "- one\n- two");
}

#[test]
fn entry_metas() {
    let m = mission_meta(
        7,
        Some(true),
        Some("Smash it".to_string()),
        vec![None, Some("a.png".to_string()), Some("b.png".to_string())],
        &vec!["Task 1".to_string(), "Task 2".to_string()],
    );
    assert_eq!(m.title, "Smash it | Mission #7");
    assert_eq!(m.description, "- Task 1\n- Task 2");
    assert_eq!(m.image.as_deref(), Some("a.png"));

    let a = mission_meta(9, Some(false), None, vec![], &vec![]);
    assert_eq!(a.title, "Missing Achievement #9");
    assert_eq!(a.description, "");
    assert_eq!(a.image, None);
    assert_eq!(mission_kind(None), MissionKind::Mission);
    assert_eq!(mission_kind(Some(false)), MissionKind::Achievement);

    let neg = mission_meta(-3, None, Some("Hidden".to_string()), vec![], &vec![]);
    assert_eq!(neg.title, "Missing Mission #-3");

    let o = object_meta(1, Some(("Brick".to_string(), "A brick".to_string())), None);
    assert_eq!(o.title, "Brick");
    assert_eq!(o.description, "A brick");
    let o2 = object_meta(42, None, Some("r.png".to_string()));
    assert_eq!(o2.title, "Missing Object #42");
    assert_eq!(o2.description, "");
    assert_eq!(o2.image.as_deref(), Some("r.png"));

    let s = item_set_meta(5, 3, Some("Kit".to_string()), None, &vec!["Helmet".to_string()]);
    assert_eq!(s.title, "Kit (Rank 3) | Item Set #5");
    assert_eq!(s.description, "- Helmet");
    let s0 = item_set_meta(5, 0, Some("Kit".to_string()), None, &vec![]);
    assert_eq!(s0.title, "Kit | Item Set #5");
    let s1 = item_set_meta(6, 0, None, None, &vec![]);
    assert_eq!(s1.title, "Unnamed Item Set #6");

    let k = skill_meta(10, Some("Jump".to_string()), Some("Up".to_string()), true, Some("j.png".to_string()));
    assert_eq!(k.title, "Jump | Skill #10");
    assert_eq!(k.description, "Up");
    assert_eq!(k.image.as_deref(), Some("j.png"));
    let k2 = skill_meta(11, None, None, true, None);
    assert_eq!(k2.title, "Skill #11");
    let k3 = skill_meta(12, None, None, false, Some("x.png".to_string()));
    assert_eq!(k3.title, "Missing Skill #12");
    assert_eq!(k3.image, None);
    assert_eq!(first_some(vec![None, None]), None);
}

#[test]
fn image_paths() {
    assert_eq!(
        cleanup_path("..\\..\\textures\\ui\\Inventory\\Icon.DDS").as_deref(),
        Some("/textures/ui/inventory/icon.png")
    );
    assert_eq!(cleanup_path("ui/a.b.dds").as_deref(), Some("/textures/ui/ui/a.b.png"));
    assert_eq!(cleanup_path("a/../../../../b").as_deref(), Some("/b.png"));
    assert_eq!(cleanup_path("./x.").as_deref(), Some("/textures/ui/x.png"));
    assert_eq!(cleanup_path(".hidden").as_deref(), Some("/textures/ui/.hidden.png"));
    assert_eq!(cleanup_path("../..").as_deref(), Some("/"));
    assert_eq!(cleanup_path("/abs/x.dds"), None);
    assert_eq!(cleanup_path("\\abs"), None);
    assert_eq!(res_href("https://x/lu-res", "/textures/ui/a.png"), "https://x/lu-res/textures/ui/a.png");
}

#[test]
fn template_reload_events() {
    assert!(reloads_template(WatchEventKind::CloseWrite, Some("index.html")));
    assert!(reloads_template(WatchEventKind::RemoveFile, Some("index.html")));
    assert!(!reloads_template(WatchEventKind::Other, Some("index.html")));
    assert!(!reloads_template(WatchEventKind::CloseWrite, Some("main.js")));
    assert!(!reloads_template(WatchEventKind::CloseWrite, None));
}

#[test]
fn object_titles() {
    let s = |t: &str| Some(t.to_string());
    assert_eq!(
        object_name_desc(7, s("name"), s("desc"), s("Display"), s("notes")),
        ("Display (name) | Object #7".to_string(), "desc (notes)".to_string())
    );
    assert_eq!(
        object_name_desc(7, s("same"), s("d"), s("same"), s("d")),
        ("same | Object #7".to_string(), "d".to_string())
    );
    assert_eq!(
        object_name_desc(-3, s(""), None, s("Shown"), s("only notes")),
        ("Shown | Object #-3".to_string(), "only notes".to_string())
    );
    assert_eq!(
        object_name_desc(12, s("n"), s(""), None, None),
        ("n | Object #12".to_string(), String::new())
    );
    assert_eq!(object_name_desc(5, None, None, s(""), None), ("Object #5".to_string(), String::new()));
}

#[test]
fn plain_text_renders_unchanged() {
    let mut t = Template::new();
    t.set_text("no {{Fields}} here, {{}} nor {x} {{a b}}".to_string());
    assert_eq!(t.render(&A), "no {{Fields}} here, {{}} nor {x} {{a b}}");
}
