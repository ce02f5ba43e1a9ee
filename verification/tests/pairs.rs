use oxidy::pairs::{del_vec, get_vec, keep_others, position, set_vec, Pairs};

fn entries(p: &Pairs) -> Vec<(String, String)> {
    let mut out = Vec::new();
    let mut i = 0;
    while let Some((k, v)) = p.entry(i) {
        out.push((k.to_string(), v.to_string()));
        i += 1;
    }
    out
}

fn pair(k: &str, v: &str) -> (String, String) {
    (k.to_string(), v.to_string())
}

#[test]
fn a_new_list_is_empty() {
    let p = Pairs::new();
    assert_eq!(p.len(), 0);
    assert!(p.entry(0).is_none());
    assert_eq!(get_vec(&p, "a"), None);
}

#[test]
fn set_appends_in_order() {
    let p = Pairs::new();
    let p = set_vec(&p, "a".to_string(), "1".to_string());
    let p = set_vec(&p, "b".to_string(), "2".to_string());
    assert_eq!(entries(&p), vec![pair("a", "1"), pair("b", "2")]);
    assert_eq!(p.len(), 2);
    assert_eq!(p.entry(1), Some(("b", "2")));
    assert_eq!(p.entry(2), None);
}

#[test]
fn lookups_ignore_letter_case() {
    let p = set_vec(&Pairs::new(), "Content-Type".to_string(), "text/plain".to_string());
    assert_eq!(get_vec(&p, "content-type"), Some("text/plain".to_string()));
    assert_eq!(get_vec(&p, "CONTENT-TYPE"), Some("text/plain".to_string()));
    assert_eq!(get_vec(&p, "Content-Type"), Some("text/plain".to_string()));
    assert_eq!(get_vec(&p, "content"), None);
}

#[test]
fn setting_a_key_again_replaces_the_entry_and_moves_it_last() {
    let p = Pairs::new();
    let p = set_vec(&p, "a".to_string(), "1".to_string());
    let p = set_vec(&p, "b".to_string(), "2".to_string());
    let p = set_vec(&p, "A".to_string(), "3".to_string());
    assert_eq!(entries(&p), vec![pair("b", "2"), pair("A", "3")]);
    assert_eq!(get_vec(&p, "a"), Some("3".to_string()));
}

#[test]
fn no_two_entries_share_a_key() {
    let mut p = Pairs::new();
    for (k, v) in [("x", "1"), ("X", "2"), ("y", "3"), ("x", "4"), ("Y", "5"), ("z", "6")] {
        p = set_vec(&p, k.to_string(), v.to_string());
        let list = entries(&p);
        for i in 0..list.len() {
            for j in (i + 1)..list.len() {
                assert_ne!(list[i].0.to_lowercase(), list[j].0.to_lowercase());
            }
        }
    }
    assert_eq!(entries(&p), vec![pair("x", "4"), pair("Y", "5"), pair("z", "6")]);
    p.keys_are_unique();
}

#[test]
fn delete_ignores_letter_case_and_keeps_the_rest() {
    let p = Pairs::new();
    let p = set_vec(&p, "a".to_string(), "1".to_string());
    let p = set_vec(&p, "b".to_string(), "2".to_string());
    let p = set_vec(&p, "c".to_string(), "3".to_string());
    let q = del_vec(&p, "B");
    assert_eq!(entries(&q), vec![pair("a", "1"), pair("c", "3")]);
    assert_eq!(get_vec(&q, "b"), None);
    let r = del_vec(&q, "missing");
    assert_eq!(entries(&r), entries(&q));
    assert_eq!(entries(&p).len(), 3);
}

#[test]
fn clone_keeps_the_entries() {
    let p = set_vec(&Pairs::new(), "Key".to_string(), "v".to_string());
    let q = p.clone();
    assert_eq!(entries(&q), entries(&p));
    assert_eq!(get_vec(&q, "key"), Some("v".to_string()));
}

#[test]
fn position_finds_the_first_equal_text() {
    let keys = vec!["a".to_string(), "b".to_string(), "a".to_string()];
    assert_eq!(position(&keys, &"a".to_string()), Some(0));
    assert_eq!(position(&keys, &"b".to_string()), Some(1));
    assert_eq!(position(&keys, &"A".to_string()), None);
    assert_eq!(position(&Vec::new(), &"a".to_string()), None);
}

#[test]
fn keep_others_drops_the_positions_of_the_wanted_key() {
    let list = vec![pair("A", "1"), pair("b", "2"), pair("C", "3"), pair("B", "4")];
    let keys = vec!["a".to_string(), "b".to_string(), "c".to_string(), "b".to_string()];
    assert_eq!(
        keep_others(&list, &keys, &"b".to_string()),
        (vec![pair("A", "1"), pair("C", "3")], vec!["a".to_string(), "c".to_string()])
    );
    assert_eq!(keep_others(&list, &keys, &"B".to_string()), (list.clone(), keys.clone()));
    assert_eq!(
        keep_others(&Vec::new(), &Vec::new(), &"b".to_string()),
        (Vec::new(), Vec::new())
    );
}
