use imputator::imputation::{Credential, Imputation};
use imputator::order::{find_credential, sort_by_user, text_le_chars};
use imputator::run::{
    cached_value, lookup_outcome, plan, remove_row, step, set_tempo_id, work_lookup_outcome, Plan,
    Progress,
};
use imputator::text::normalize;

fn imp(id: Option<i64>, user: &str, day: &str, issue: &str, desc: &str, time: &str) -> Imputation {
    Imputation {
        tempo_id: id,
        user: user.to_string(),
        day: day.to_string(),
        issue: issue.to_string(),
        description: desc.to_string(),
        time: time.to_string(),
    }
}

#[test]
fn compare_ignores_case_and_surrounding_space() {
    let a = imp(Some(7), "Alice", "2024-01-02", "DEV-1", "Work", "1h");
    let b = imp(Some(7), "  alice ", "2024-01-02\t", "dev-1", "WORK", " 1H ");
    assert!(a.compare(&b));
    assert!(b.compare(&a));
}

#[test]
fn compare_sees_differences() {
    let a = imp(Some(7), "alice", "2024-01-02", "DEV-1", "Work", "1h");
    assert!(!a.compare(&imp(Some(8), "alice", "2024-01-02", "DEV-1", "Work", "1h")));
    assert!(!a.compare(&imp(None, "alice", "2024-01-02", "DEV-1", "Work", "1h")));
    assert!(!a.compare(&imp(Some(7), "bob", "2024-01-02", "DEV-1", "Work", "1h")));
    assert!(!a.compare(&imp(Some(7), "alice", "2024-01-03", "DEV-1", "Work", "1h")));
    assert!(!a.compare(&imp(Some(7), "alice", "2024-01-02", "DEV-2", "Work", "1h")));
    assert!(!a.compare(&imp(Some(7), "alice", "2024-01-02", "DEV-1", "Rest", "1h")));
    assert!(!a.compare(&imp(Some(7), "alice", "2024-01-02", "DEV-1", "Work", "2h")));
    assert!(!a.compare(&imp(Some(7), "alice", "2024-01-02", "DEV-1", "W ork", "1h")));
}

#[test]
fn compare_is_reflexive_on_default() {
    let d = Imputation::default();
    assert_eq!(d.tempo_id, None);
    assert_eq!(d.user, "");
    assert_eq!(d.day, "");
    assert_eq!(d.issue, "");
    assert_eq!(d.description, "");
    assert_eq!(d.time, "");
    assert!(d.compare(&Imputation::default()));
}

#[test]
fn normalize_lowercases_then_trims() {
    assert_eq!(normalize("  HeLLo World \n"), "hello world");
    assert_eq!(normalize("\u{3000}X\u{a0}"), "x");
    assert_eq!(normalize(""), "");
    assert_eq!(normalize(" \t "), "");
}

#[test]
fn sort_by_user_is_stable() {
    let v = vec![
        imp(None, "carol", "1", "", "", ""),
        imp(None, "alice", "2", "", "", ""),
        imp(None, "bob", "3", "", "", ""),
        imp(None, "alice", "4", "", "", ""),
        imp(None, "Zed", "5", "", "", ""),
    ];
    let s = sort_by_user(v);
    let got: Vec<(String, String)> = s.iter().map(|x| (x.user.clone(), x.day.clone())).collect();
    let want: Vec<(String, String)> = vec![
        ("Zed", "5"),
        ("alice", "2"),
        ("alice", "4"),
        ("bob", "3"),
        ("carol", "1"),
    ]
    .into_iter()
    .map(|(a, b)| (a.to_string(), b.to_string()))
    .collect();
    assert_eq!(got, want);
}

#[test]
fn find_credential_takes_the_first_match() {
    let creds = vec![
        Credential { user: "bob".to_string(), pass: "1".to_string() },
        Credential { user: "alice".to_string(), pass: "2".to_string() },
        Credential { user: "alice".to_string(), pass: "3".to_string() },
    ];
    assert_eq!(find_credential(&creds, &"alice".to_string()), Some(1));
    assert_eq!(find_credential(&creds, &"bob".to_string()), Some(0));
    assert_eq!(find_credential(&creds, &"Alice".to_string()), None);
}

#[test]
fn plan_decides_create_update_or_skip() {
    let fresh = imp(None, "a", "d", "i", "x", "1h");
    assert_eq!(plan(&fresh, &None), Plan::Create);
    let stored = imp(Some(5), "a", "d", "i", "x", "1h");
    assert_eq!(plan(&fresh, &Some(imp(Some(5), "a", "d", "i", "x", "1h"))), Plan::Create);
    let recorded = imp(Some(5), "A ", "d", "i", "x", "1h");
    assert_eq!(plan(&recorded, &Some(stored)), Plan::Skip);
    let row = set_tempo_id(vec![imp(None, "a", "d", "i", "x", "1h")], 0, 9);
    let again = imp(Some(9), "a", "d", "i", "x", "1h");
    assert_eq!(plan(&row[0], &Some(again)), Plan::Skip);
    let changed = imp(Some(5), "a", "d", "i", "x", "2h");
    assert_eq!(plan(&changed, &Some(imp(Some(5), "a", "d", "i", "x", "1h"))), Plan::Update(5));
    assert_eq!(plan(&changed, &None), Plan::Create);
}

#[test]
fn progress_counts_and_switches_users() {
    let mut p = Progress::new();
    assert_eq!(p.index, 0);
    assert!(p.switch_user(&"alice".to_string()));
    assert!(!p.switch_user(&"alice".to_string()));
    assert!(p.switch_user(&"bob".to_string()));
    assert_eq!(p.current_user, "bob");
    p.advance();
    p.advance();
    assert_eq!(p.index, 2);
}

#[test]
fn set_tempo_id_touches_one_row() {
    let v = vec![imp(None, "a", "", "", "", ""), imp(None, "b", "", "", "", "")];
    let v = set_tempo_id(v, 1, 42);
    assert_eq!(v[0].tempo_id, None);
    assert_eq!(v[1].tempo_id, Some(42));
    assert_eq!(v[1].user, "b");
    let v = set_tempo_id(v, 5, 9);
    assert_eq!(v.len(), 2);
    assert_eq!(v[0].tempo_id, None);
    let v = set_tempo_id(v, -1, 9);
    assert_eq!(v[0].tempo_id, None);
}

#[test]
fn remove_row_keeps_the_header_alive() {
    let v = vec![imp(Some(1), "a", "", "", "", ""), imp(None, "b", "", "", "", "")];
    let r = remove_row(v, 0);
    assert_eq!(r.len(), 1);
    assert_eq!(r[0].user, "b");
    let r = remove_row(r, 0);
    assert_eq!(r.len(), 1);
    assert_eq!(r[0].user, "");
    assert_eq!(r[0].tempo_id, None);
    let r = remove_row(vec![imp(None, "a", "", "", "", "")], 3);
    assert_eq!(r.len(), 1);
    assert_eq!(r[0].user, "a");
    let r = remove_row(Vec::new(), 0);
    assert_eq!(r.len(), 1);
    assert_eq!(r[0].user, "");
    assert_eq!(r[0].tempo_id, None);
    let r = remove_row(Vec::new(), 4);
    assert_eq!(r.len(), 1);
    assert_eq!(r[0].user, "");
}

#[test]
fn lookups_and_cache() {
    assert_eq!(lookup_outcome(Some(Some("JIRAUSER1".to_string()))), (true, "JIRAUSER1".to_string()));
    assert_eq!(lookup_outcome(Some(None)), (false, String::new()));
    assert_eq!(lookup_outcome(None), (false, String::new()));
    assert_eq!(cached_value((true, "x".to_string())), Some("x".to_string()));
    assert_eq!(cached_value((false, String::new())), None);
    let (found, w) = work_lookup_outcome(Some(Some(imp(Some(3), "a", "", "", "", ""))));
    assert!(found);
    assert_eq!(w.tempo_id, Some(3));
    let (found, w) = work_lookup_outcome(None);
    assert!(!found);
    assert!(w.compare(&Imputation::default()));
}

#[test]
fn normalize_agrees_with_std_on_every_white_space() {
    for code in 0u32..0x3100 {
        if let Some(c) = char::from_u32(code) {
            let s = format!("{}a{}", c, c);
            assert_eq!(normalize(&s), s.to_lowercase().trim().to_string(), "char {:x}", code);
        }
    }
}

#[test]
fn text_order_is_the_order_of_strings() {
    let words = ["", "a", "ab", "b", "B", "\u{e9}", "z", "za", "alice", "alicE"];
    for x in words {
        for y in words {
            let xv: Vec<char> = x.chars().collect();
            let yv: Vec<char> = y.chars().collect();
            assert_eq!(text_le_chars(&xv, &yv), x <= y, "{} {}", x, y);
        }
    }
}

#[test]
fn step_counts_only_imputations_that_reach_the_login() {
    let mut p = Progress::new();
    assert_eq!(step(&mut p, &Plan::Skip, Some(0), true), None);
    assert_eq!(p.index, 0);
    assert_eq!(step(&mut p, &Plan::Create, None, true), None);
    assert_eq!(p.index, 0);
    assert_eq!(step(&mut p, &Plan::Create, Some(2), true), Some(0));
    assert_eq!(p.index, 1);
    assert_eq!(step(&mut p, &Plan::Create, Some(2), false), None);
    assert_eq!(p.index, 2);
    assert_eq!(step(&mut p, &Plan::Update(4), Some(0), true), None);
    assert_eq!(p.index, 3);
    assert_eq!(step(&mut p, &Plan::Create, Some(0), true), Some(3));
    assert_eq!(p.index, 4);
}
