use paradox_server::data::loc_status::{InvalidValueError, LocStatus};
use paradox_server::data::skill_system::match_action_key;
use paradox_server::decimal::{i64_text, u64_text};
use paradox_server::lists::{id_list, plain_id_list, prereq_ids, split_either, trim};
use paradox_server::path::PathSplit;
use paradox_server::strmap::{str_less, str_same, StrMap};
use paradox_server::text::{parse_i32, parse_i64, parse_u32, split, strip_prefix, trim_start};

fn chars(s: &str) -> Vec<char> {
    s.chars().collect()
}

fn text(v: &[char]) -> String {
    v.iter().collect()
}

#[test]
fn decimal_text() {
    assert_eq!(u64_text(0), "0");
    assert_eq!(u64_text(1234567890), "1234567890");
    assert_eq!(u64_text(u64::MAX), u64::MAX.to_string());
    assert_eq!(i64_text(-42), "-42");
    assert_eq!(i64_text(i64::MIN), i64::MIN.to_string());
    for n in [-1000i64, -1, 0, 7, 10, 99, 100, 12345] {
        assert_eq!(i64_text(n), n.to_string());
    }
}

#[test]
fn integers_parse_as_str_parse() {
    for s in ["0", "12", "+12", "-12", "2147483647", "-2147483648", "2147483648", "", "-", "+", "1a", " 1", "--1", "007"] {
        assert_eq!(parse_i32(&chars(s)), s.parse::<i32>().ok(), "{:?}", s);
        assert_eq!(parse_u32(&chars(s)), s.parse::<u32>().ok(), "{:?}", s);
        assert_eq!(parse_i64(&chars(s)), s.parse::<i64>().ok(), "{:?}", s);
    }
    assert_eq!(parse_u32(&chars("4294967295")), Some(u32::MAX));
    assert_eq!(parse_u32(&chars("4294967296")), None);
}

#[test]
fn splitting_and_trimming() {
    let parts: Vec<String> = split(&chars("a//b/"), '/').iter().map(|p| text(p)).collect();
    assert_eq!(parts, vec!["a", "", "b", ""]);
    let one: Vec<String> = split(&chars(""), '/').iter().map(|p| text(p)).collect();
    assert_eq!(one, vec![""]);
    assert_eq!(text(&trim_start(&chars("//x/"), '/')), "x/");
    assert_eq!(text(&trim(&chars(" \t x y \n"))), "x y");
    assert_eq!(strip_prefix(&chars("/api/x"), "/api").map(|r| text(&r)), Some("/x".to_string()));
    assert_eq!(strip_prefix(&chars("/ap"), "/api"), None);
    let either: Vec<String> = split_either(&chars("1&2,3"), '&', ',').iter().map(|p| text(p)).collect();
    assert_eq!(either, vec!["1", "2", "3"]);
}

#[test]
fn id_lists() {
    assert_eq!(id_list(&chars(" 1, 2 ,x, -3 ")), vec![1, 2, -3]);
    assert_eq!(id_list(&chars("")), Vec::<i32>::new());
    assert_eq!(plain_id_list(&chars("1,2, 3,4")), vec![1, 2, 4]);
    assert_eq!(prereq_ids(&chars("(1|2)&3,4")), vec![1, 2, 3, 4]);
}

#[test]
fn path_segments() {
    let mut p = PathSplit::of_path("//v0/rev/objects/");
    assert_eq!(p.next().map(|s| text(&s)), Some("v0".to_string()));
    assert_eq!(p.rest(), vec!["rev", "objects", ""]);
    assert_eq!(p.next().map(|s| text(&s)), Some("rev".to_string()));
    assert_eq!(p.next().map(|s| text(&s)), Some("objects".to_string()));
    assert_eq!(p.next().map(|s| text(&s)), Some(String::new()));
    assert_eq!(p.next(), None);
    assert_eq!(p.next(), None);
}

#[test]
fn sorted_string_map() {
    let mut m: StrMap<i32> = StrMap::new();
    assert_eq!(m.len(), 0);
    m.put("b".to_string(), 2);
    m.put("a".to_string(), 1);
    m.put("c".to_string(), 3);
    m.put("b".to_string(), 20);
    assert_eq!(m.len(), 3);
    assert_eq!(m.keys(), vec!["a", "b", "c"]);
    assert_eq!(m.get("b"), Some(&20));
    assert!(m.contains("c"));
    assert!(!m.contains("d"));
    assert_eq!(m.take("a"), Some(1));
    assert_eq!(m.take("a"), None);
    assert_eq!(m.keys(), vec!["b", "c"]);
    let (k, v) = m.entry(1);
    assert_eq!((k.as_str(), *v), ("c", 3));
    assert!(str_less("ab", "b"));
    assert!(str_less("a", "ab"));
    assert!(!str_less("b", "b"));
    assert!(str_same("x", "x"));
    assert!(!str_same("x", "y"));
}

#[test]
fn behavior_action_keys() {
    for k in ["action", "behavior 1", "bahavior 2", "on_fail_immune", "behavior 10", "jetpack_action"] {
        assert!(match_action_key(k.as_bytes()), "{}", k);
    }
    for k in ["", "Action", "behavior", "behavior 11", "action "] {
        assert_eq!(match_action_key(k.as_bytes()), k == "behavior", "{}", k);
    }
}

#[test]
fn localization_status_numbers() {
    assert_eq!(LocStatus::try_from(0u8), Ok(LocStatus::Missing));
    assert_eq!(LocStatus::try_from(1u8), Ok(LocStatus::InProgress));
    assert_eq!(LocStatus::try_from(2u8), Ok(LocStatus::Complete));
    assert_eq!(LocStatus::try_from(3u8), Err(InvalidValueError));
    assert_eq!(LocStatus::try_from(255u8), Err(InvalidValueError));
    for l in [LocStatus::Missing, LocStatus::InProgress, LocStatus::Complete] {
        assert_eq!(LocStatus::try_from(u8::from(l)), Ok(l));
    }
    assert_eq!(u8::from(LocStatus::Complete), 2);
}
