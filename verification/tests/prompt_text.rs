use ttchd::config::{ApiConfig, Config, Rules, UserProfile};
use ttchd::prompt::{build_prompt, category_label};
use ttchd::text::{before_char, join_with, str_eq, trim_text, u32_string};

fn plain_config() -> Config {
    Config::default()
}

fn rich_config() -> Config {
    Config {
        api: ApiConfig {
            provider: "deepseek".to_string(),
            deepseek_key: "k".to_string(),
            zhipu_key: String::new(),
            openai_key: String::new(),
            openai_endpoint: String::new(),
        },
        user: UserProfile {
            name: "测试".to_string(),
            spicy: 5,
            sweet: 4,
            sour: 4,
            vegetarian: true,
            halal: true,
            allergies: vec!["花生".to_string()],
            budget: "low".to_string(),
            cuisine: vec!["川菜".to_string(), "粤菜".to_string()],
        },
        rules: Rules {
            favorites: vec![],
            blacklist: vec!["香菜".to_string()],
            recent: vec!["火锅".to_string()],
            custom_prompt: "想吃热的".to_string(),
        },
    }
}

#[test]
fn prompt_for_default_config_is_exact() {
    let c = plain_config();
    let p = build_prompt(&c, None, 12, category_label(0), 1234);
    assert_eq!(
        p,
        "[1234]时间:午餐。随机推荐一道中餐，不要重复之前的，格式:食物名（15字内理由）"
    );
}

#[test]
fn prompt_for_rich_config_is_exact() {
    let c = rich_config();
    let p = build_prompt(&c, Some("开心"), 19, category_label(10), 8888);
    assert_eq!(
        p,
        "[8888]时间:晚餐，爱吃辣，喜甜，喜酸，素食，清真，预算低，偏好:川菜/粤菜，过敏:花生，不吃:香菜，最近吃过:火锅，心情:开心。想吃热的。随机推荐一道火锅，不要重复之前的，格式:食物名（15字内理由）"
    );
}

#[test]
fn prompt_silent_in_the_mid_range() {
    let mut c = plain_config();
    c.user.spicy = 2;
    c.user.sweet = 3;
    c.user.budget = "medium".to_string();
    let p = build_prompt(&c, None, 3, category_label(15), 1000);
    assert_eq!(
        p,
        "[1000]时间:夜宵。随机推荐一道地方特色，不要重复之前的，格式:食物名（15字内理由）"
    );
}

#[test]
fn prompt_low_spice_is_announced() {
    let mut c = plain_config();
    c.user.spicy = 1;
    let p = build_prompt(&c, None, 8, category_label(6), 2000);
    assert_eq!(
        p,
        "[2000]时间:早餐，不吃辣。随机推荐一道面食，不要重复之前的，格式:食物名（15字内理由）"
    );
}

#[test]
fn prompt_is_deterministic_with_pinned_inputs() {
    let c = rich_config();
    let a = build_prompt(&c, Some("随便"), 16, category_label(3), 4321);
    let b = build_prompt(&c, Some("随便"), 16, category_label(3), 4321);
    assert_eq!(a, b);
}

#[test]
fn category_labels_are_the_fixed_sixteen() {
    let expected = [
        "中餐", "西餐", "日料", "韩餐", "东南亚菜", "小吃", "面食", "米饭", "汤品", "烧烤",
        "火锅", "甜品", "轻食", "快餐", "家常菜", "地方特色",
    ];
    for (i, e) in expected.iter().enumerate() {
        assert_eq!(category_label(i), *e);
    }
}

#[test]
fn decimal_rendering_is_exact() {
    assert_eq!(u32_string(0), "0");
    assert_eq!(u32_string(7), "7");
    assert_eq!(u32_string(1234), "1234");
    assert_eq!(u32_string(1000), "1000");
    assert_eq!(u32_string(u32::MAX), "4294967295");
}

#[test]
fn join_with_separator() {
    let items = vec!["a".to_string(), "b".to_string(), "c".to_string()];
    assert_eq!(join_with(&items, "/"), "a/b/c");
    let one = vec!["只有一个".to_string()];
    assert_eq!(join_with(&one, "/"), "只有一个");
    let none: Vec<String> = vec![];
    assert_eq!(join_with(&none, "/"), "");
}

#[test]
fn trim_removes_surrounding_whitespace() {
    assert_eq!(trim_text("  héllo\t\n"), "héllo");
    assert_eq!(trim_text("\u{3000}中 间 字\u{a0}"), "中 间 字");
    assert_eq!(trim_text("   "), "");
    assert_eq!(trim_text("无空白"), "无空白");
}

#[test]
fn before_char_cuts_at_first_delimiter() {
    assert_eq!(before_char("麻辣香锅（辣而不腻）", '（'), "麻辣香锅");
    assert_eq!(before_char("无括号", '（'), "无括号");
    assert_eq!(before_char("（开头", '（'), "");
}

#[test]
fn str_eq_compares_by_characters() {
    assert!(str_eq("面食", "面食"));
    assert!(!str_eq("面食", "面"));
    assert!(!str_eq("abc", "abd"));
    assert!(str_eq("", ""));
}
