use ttchd::config::{add_recent, add_skip, add_to_blacklist, add_to_catalog, Config, Rules};

fn empty_rules() -> Rules {
    Rules {
        favorites: vec![],
        blacklist: vec![],
        recent: vec![],
        custom_prompt: String::new(),
    }
}

#[test]
fn default_config_values() {
    let c = Config::default();
    assert_eq!(c.api.provider, "deepseek");
    assert_eq!(c.api.deepseek_key, "");
    assert_eq!(c.api.zhipu_key, "");
    assert_eq!(c.api.openai_key, "");
    assert_eq!(c.api.openai_endpoint, "");
    assert_eq!(c.user.name, "");
    assert_eq!(c.user.spicy, 3);
    assert_eq!(c.user.sweet, 3);
    assert_eq!(c.user.sour, 3);
    assert!(!c.user.vegetarian);
    assert!(!c.user.halal);
    assert!(c.user.allergies.is_empty());
    assert_eq!(c.user.budget, "medium");
    assert!(c.user.cuisine.is_empty());
    assert!(c.rules.favorites.is_empty());
    assert!(c.rules.blacklist.is_empty());
    assert!(c.rules.recent.is_empty());
    assert_eq!(c.rules.custom_prompt, "");
}

#[test]
fn recent_prepends_newest_first() {
    let mut rules = empty_rules();
    add_recent(&mut rules, "饺子");
    add_recent(&mut rules, "拉面");
    assert_eq!(rules.recent, vec!["拉面".to_string(), "饺子".to_string()]);
}

#[test]
fn recent_never_exceeds_capacity() {
    let mut rules = empty_rules();
    for food in ["a", "b", "c", "d", "e", "f", "g"] {
        add_recent(&mut rules, food);
        assert!(rules.recent.len() <= 5);
    }
    assert_eq!(rules.recent, vec!["g", "f", "e", "d", "c"]);
}

#[test]
fn recent_moves_existing_to_front_without_growing() {
    let mut rules = empty_rules();
    add_recent(&mut rules, "a");
    add_recent(&mut rules, "b");
    add_recent(&mut rules, "c");
    add_recent(&mut rules, "a");
    assert_eq!(rules.recent, vec!["a", "c", "b"]);
}

#[test]
fn skip_appends_at_back_up_to_ten() {
    let mut rules = empty_rules();
    assert!(add_skip(&mut rules, "a"));
    assert!(add_skip(&mut rules, "b"));
    assert_eq!(rules.recent, vec!["a", "b"]);
    for food in ["c", "d", "e", "f", "g", "h", "i", "j", "k"] {
        add_skip(&mut rules, food);
    }
    assert_eq!(rules.recent.len(), 10);
    assert!(!rules.recent.contains(&"k".to_string()));
}

#[test]
fn skip_of_present_food_is_a_no_op() {
    let mut rules = empty_rules();
    add_skip(&mut rules, "a");
    assert!(!add_skip(&mut rules, "a"));
    assert_eq!(rules.recent, vec!["a"]);
}

#[test]
fn blacklist_duplicate_is_a_no_op() {
    let mut rules = empty_rules();
    assert!(add_to_blacklist(&mut rules, "香菜"));
    assert!(!add_to_blacklist(&mut rules, "香菜"));
    assert_eq!(rules.blacklist, vec!["香菜"]);
}

#[test]
fn catalog_duplicate_is_a_no_op() {
    let mut rules = empty_rules();
    assert!(add_to_catalog(&mut rules, "牛肉面"));
    assert!(!add_to_catalog(&mut rules, "牛肉面"));
    assert_eq!(rules.favorites, vec!["牛肉面"]);
}

#[test]
fn mutations_leave_other_rules_untouched() {
    let mut rules = empty_rules();
    rules.custom_prompt = "清淡".to_string();
    add_to_blacklist(&mut rules, "x");
    add_recent(&mut rules, "y");
    add_skip(&mut rules, "z");
    add_to_catalog(&mut rules, "w");
    assert_eq!(rules.custom_prompt, "清淡");
    assert_eq!(rules.blacklist, vec!["x"]);
    assert_eq!(rules.favorites, vec!["w"]);
}
