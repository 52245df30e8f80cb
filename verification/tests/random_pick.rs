use std::collections::HashMap;

use ttchd::random::{build_catalog, default_foods, pick_random, random_recommend};

#[test]
fn pick_frequencies_approach_uniform() {
    let catalog = vec!["甲".to_string(), "乙".to_string(), "丙".to_string()];
    let mut counts: HashMap<String, u32> = HashMap::new();
    let trials = 3000;
    for _ in 0..trials {
        let pick = pick_random(&catalog);
        assert!(catalog.contains(&pick));
        *counts.entry(pick).or_insert(0) += 1;
    }
    for name in &catalog {
        let n = *counts.get(name).unwrap_or(&0);
        assert!(n > 0, "{} was never picked", name);
        assert!(n > trials / 3 / 3, "{} picked far below uniform: {}", name, n);
    }
}

#[test]
fn pick_never_returns_a_blacklisted_entry() {
    let extras = vec!["甲".to_string(), "乙".to_string(), "丙".to_string()];
    let blacklist = vec!["乙".to_string()];
    let catalog = build_catalog(&extras, &blacklist);
    assert!(catalog.contains(&"甲".to_string()));
    assert!(catalog.contains(&"丙".to_string()));
    assert!(!catalog.contains(&"乙".to_string()));
    for _ in 0..1000 {
        let pick = pick_random(&catalog);
        assert_ne!(pick, "乙");
        assert!(!blacklist.contains(&pick));
    }
}

#[test]
fn catalog_is_deduplicated_and_disjoint_from_blacklist() {
    let extras = vec![
        "火锅".to_string(),
        "新菜".to_string(),
        "新菜".to_string(),
    ];
    let blacklist = vec!["烧烤".to_string(), "新菜".to_string()];
    let catalog = build_catalog(&extras, &blacklist);
    for (i, a) in catalog.iter().enumerate() {
        for b in catalog.iter().skip(i + 1) {
            assert_ne!(a, b);
        }
        assert!(!blacklist.contains(a));
    }
    assert!(catalog.contains(&"火锅".to_string()));
    assert!(!catalog.contains(&"烧烤".to_string()));
    assert!(!catalog.contains(&"新菜".to_string()));
}

#[test]
fn blacklisting_a_default_removes_it_from_the_catalog() {
    let extras: Vec<String> = vec![];
    let blacklist = vec!["火锅".to_string()];
    let catalog = build_catalog(&extras, &blacklist);
    assert_eq!(catalog.len(), default_foods().len() - 1);
    for _ in 0..1000 {
        assert_ne!(pick_random(&catalog), "火锅");
    }
}

#[test]
fn empty_catalog_still_yields_a_pick() {
    let catalog: Vec<String> = vec![];
    assert_eq!(pick_random(&catalog), "火锅");
}

#[test]
fn random_recommend_stays_in_the_builtin_list() {
    let foods = default_foods();
    for _ in 0..200 {
        let pick = random_recommend();
        assert!(foods.contains(&pick));
    }
}
