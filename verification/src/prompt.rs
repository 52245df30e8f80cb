//! Prompt construction: meal-time banding and assembly of the instruction
//! text sent to the chat provider. The prompt is a pure function of the
//! configuration, the mood hint, the hour and the diversity inputs.

use vstd::prelude::*;

use crate::config::Config;
use crate::text::{join_with, push_entry, spec_dec, spec_join, str_eq, u32_string};

verus! {

/// How many coarse food categories the diversity injection can choose from.
pub const CATEGORY_COUNT: usize = 16;

/// The meal-time label for a local-clock hour, by inclusive bands:
/// [5,10] breakfast, [11,14] lunch, [15,17] afternoon tea, [18,21] dinner,
/// everything else a late-night snack.
pub open spec fn spec_meal_time(hour: u8) -> Seq<char> {
    if 5 <= hour && hour <= 10 {
        "早餐"@
    } else if 11 <= hour && hour <= 14 {
        "午餐"@
    } else if 15 <= hour && hour <= 17 {
        "下午茶"@
    } else if 18 <= hour && hour <= 21 {
        "晚餐"@
    } else {
        "夜宵"@
    }
}

pub fn meal_time_label(hour: u8) -> (r: &'static str)
    ensures
        r@ == spec_meal_time(hour),
{
    if 5 <= hour && hour <= 10 {
        "早餐"
    } else if 11 <= hour && hour <= 14 {
        "午餐"
    } else if 15 <= hour && hour <= 17 {
        "下午茶"
    } else if 18 <= hour && hour <= 21 {
        "晚餐"
    } else {
        "夜宵"
    }
}

/// The five meal-time labels partition the hours: every hour gets exactly one
/// label, and each band is characterized exactly by its label.
pub proof fn lemma_meal_time_partition()
    ensures
        forall|h: u8|
            #[trigger] spec_meal_time(h) == "早餐"@ || spec_meal_time(h) == "午餐"@
                || spec_meal_time(h) == "下午茶"@ || spec_meal_time(h) == "晚餐"@
                || spec_meal_time(h) == "夜宵"@,
        forall|h: u8| (5 <= h && h <= 10) <==> #[trigger] spec_meal_time(h) == "早餐"@,
        forall|h: u8| (11 <= h && h <= 14) <==> #[trigger] spec_meal_time(h) == "午餐"@,
        forall|h: u8| (15 <= h && h <= 17) <==> #[trigger] spec_meal_time(h) == "下午茶"@,
        forall|h: u8| (18 <= h && h <= 21) <==> #[trigger] spec_meal_time(h) == "晚餐"@,
        forall|h: u8| (h < 5 || 21 < h) <==> #[trigger] spec_meal_time(h) == "夜宵"@,
{
    reveal_strlit("早餐");
    reveal_strlit("午餐");
    reveal_strlit("下午茶");
    reveal_strlit("晚餐");
    reveal_strlit("夜宵");
    assert("早餐"@[0] == '早' && "午餐"@[0] == '午' && "晚餐"@[0] == '晚' && "夜宵"@[0]
        == '夜' && "下午茶"@[0] == '下');
    assert("早餐"@.len() == 2 && "下午茶"@.len() == 3);
}

/// The coarse category label for a diversity index.
pub open spec fn spec_category(i: int) -> Seq<char> {
    if i == 0 {
        "中餐"@
    } else if i == 1 {
        "西餐"@
    } else if i == 2 {
        "日料"@
    } else if i == 3 {
        "韩餐"@
    } else if i == 4 {
        "东南亚菜"@
    } else if i == 5 {
        "小吃"@
    } else if i == 6 {
        "面食"@
    } else if i == 7 {
        "米饭"@
    } else if i == 8 {
        "汤品"@
    } else if i == 9 {
        "烧烤"@
    } else if i == 10 {
        "火锅"@
    } else if i == 11 {
        "甜品"@
    } else if i == 12 {
        "轻食"@
    } else if i == 13 {
        "快餐"@
    } else if i == 14 {
        "家常菜"@
    } else {
        "地方特色"@
    }
}

pub fn category_label(i: usize) -> (r: &'static str)
    requires
        i < CATEGORY_COUNT,
    ensures
        r@ == spec_category(i as int),
{
    if i == 0 {
        "中餐"
    } else if i == 1 {
        "西餐"
    } else if i == 2 {
        "日料"
    } else if i == 3 {
        "韩餐"
    } else if i == 4 {
        "东南亚菜"
    } else if i == 5 {
        "小吃"
    } else if i == 6 {
        "面食"
    } else if i == 7 {
        "米饭"
    } else if i == 8 {
        "汤品"
    } else if i == 9 {
        "烧烤"
    } else if i == 10 {
        "火锅"
    } else if i == 11 {
        "甜品"
    } else if i == 12 {
        "轻食"
    } else if i == 13 {
        "快餐"
    } else if i == 14 {
        "家常菜"
    } else {
        "地方特色"
    }
}

/// The view of an optional mood hint.
pub open spec fn spec_opt_view(mood: Option<&str>) -> Option<Seq<char>> {
    match mood {
        Some(m) => Some(m@),
        None => None,
    }
}

/// The always-present meal-time condition.
pub open spec fn spec_seg_time(hour: u8) -> Seq<Seq<char>> {
    seq!["时间:"@ + spec_meal_time(hour)]
}

/// The spice condition: active only at the extremes; the mid range is silent.
pub open spec fn spec_seg_spicy(spicy: u8) -> Seq<Seq<char>> {
    if spicy >= 4 {
        seq!["爱吃辣"@]
    } else if spicy <= 1 {
        seq!["不吃辣"@]
    } else {
        Seq::<Seq<char>>::empty()
    }
}

/// A condition carried by a high ordinal intensity alone.
pub open spec fn spec_seg_high(level: u8, label: Seq<char>) -> Seq<Seq<char>> {
    if level >= 4 {
        seq![label]
    } else {
        Seq::<Seq<char>>::empty()
    }
}

/// A condition carried by a boolean flag.
pub open spec fn spec_seg_flag(active: bool, label: Seq<char>) -> Seq<Seq<char>> {
    if active {
        seq![label]
    } else {
        Seq::<Seq<char>>::empty()
    }
}

/// The budget condition: active only for the low and high tiers.
pub open spec fn spec_seg_budget(budget: Seq<char>) -> Seq<Seq<char>> {
    if budget == "low"@ {
        seq!["预算低"@]
    } else if budget == "high"@ {
        seq!["预算高"@]
    } else {
        Seq::<Seq<char>>::empty()
    }
}

/// A labelled list condition, active only when the list is non-empty.
pub open spec fn spec_seg_list(label: Seq<char>, items: Seq<Seq<char>>) -> Seq<Seq<char>> {
    if items.len() == 0 {
        Seq::<Seq<char>>::empty()
    } else {
        seq![label + spec_join(items, "/"@)]
    }
}

/// The mood condition, active only when a hint was given.
pub open spec fn spec_seg_mood(mood: Option<Seq<char>>) -> Seq<Seq<char>> {
    match mood {
        Some(m) => seq!["心情:"@ + m],
        None => Seq::<Seq<char>>::empty(),
    }
}

/// The active conditions, in their fixed order.
pub open spec fn spec_parts(c: Config, mood: Option<Seq<char>>, hour: u8) -> Seq<Seq<char>> {
    spec_seg_time(hour) + spec_seg_spicy(c.user.spicy) + spec_seg_high(c.user.sweet, "喜甜"@)
        + spec_seg_high(c.user.sour, "喜酸"@) + spec_seg_flag(c.user.vegetarian, "素食"@)
        + spec_seg_flag(c.user.halal, "清真"@) + spec_seg_budget(c.user.budget@) + spec_seg_list(
        "偏好:"@,
        c.user.cuisine.deep_view(),
    ) + spec_seg_list("过敏:"@, c.user.allergies.deep_view()) + spec_seg_list(
        "不吃:"@,
        c.rules.blacklist.deep_view(),
    ) + spec_seg_list("最近吃过:"@, c.rules.recent.deep_view()) + spec_seg_mood(mood)
}

/// The user's free-text clause, preceded by a separator when present.
pub open spec fn spec_custom_suffix(custom: Seq<char>) -> Seq<char> {
    if custom.len() == 0 {
        Seq::<char>::empty()
    } else {
        "。"@ + custom
    }
}

/// The whole prompt: a seed tag, the joined conditions, the custom clause,
/// the category request and the output-format instruction.
pub open spec fn spec_prompt(
    c: Config,
    mood: Option<Seq<char>>,
    hour: u8,
    cat: Seq<char>,
    seed: u32,
) -> Seq<char> {
    "["@ + spec_dec(seed as nat) + "]"@ + spec_join(spec_parts(c, mood, hour), "，"@)
        + spec_custom_suffix(c.rules.custom_prompt@) + "。随机推荐一道"@ + cat
        + "，不要重复之前的，格式:食物名（15字内理由）"@
}

fn push_time(parts: &mut Vec<String>, hour: u8)
    ensures
        final(parts).deep_view() == old(parts).deep_view() + spec_seg_time(hour),
{
    let mut p = String::from_str("时间:");
    p.append(meal_time_label(hour));
    let ghost pre = parts.deep_view();
    push_entry(parts, p);
    proof {
        assert(parts.deep_view() =~= pre + spec_seg_time(hour));
    }
}

fn push_spicy(parts: &mut Vec<String>, spicy: u8)
    ensures
        final(parts).deep_view() == old(parts).deep_view() + spec_seg_spicy(spicy),
{
    let ghost pre = parts.deep_view();
    if spicy >= 4 {
        push_entry(parts, String::from_str("爱吃辣"));
    } else if spicy <= 1 {
        push_entry(parts, String::from_str("不吃辣"));
    }
    proof {
        assert(parts.deep_view() =~= pre + spec_seg_spicy(spicy));
    }
}

fn push_high(parts: &mut Vec<String>, level: u8, label: &str)
    ensures
        final(parts).deep_view() == old(parts).deep_view() + spec_seg_high(level, label@),
{
    let ghost pre = parts.deep_view();
    if level >= 4 {
        push_entry(parts, String::from_str(label));
    }
    proof {
        assert(parts.deep_view() =~= pre + spec_seg_high(level, label@));
    }
}

fn push_flag(parts: &mut Vec<String>, active: bool, label: &str)
    ensures
        final(parts).deep_view() == old(parts).deep_view() + spec_seg_flag(active, label@),
{
    let ghost pre = parts.deep_view();
    if active {
        push_entry(parts, String::from_str(label));
    }
    proof {
        assert(parts.deep_view() =~= pre + spec_seg_flag(active, label@));
    }
}

fn push_budget(parts: &mut Vec<String>, budget: &str)
    ensures
        final(parts).deep_view() == old(parts).deep_view() + spec_seg_budget(budget@),
{
    let ghost pre = parts.deep_view();
    if str_eq(budget, "low") {
        push_entry(parts, String::from_str("预算低"));
    } else if str_eq(budget, "high") {
        push_entry(parts, String::from_str("预算高"));
    }
    proof {
        assert(parts.deep_view() =~= pre + spec_seg_budget(budget@));
    }
}

fn push_list(parts: &mut Vec<String>, label: &str, items: &Vec<String>)
    ensures
        final(parts).deep_view() == old(parts).deep_view() + spec_seg_list(
            label@,
            items.deep_view(),
        ),
{
    let ghost pre = parts.deep_view();
    if items.len() > 0 {
        let mut p = String::from_str(label);
        let joined = join_with(items, "/");
        p.append(joined.as_str());
        push_entry(parts, p);
    }
    proof {
        assert(parts.deep_view() =~= pre + spec_seg_list(label@, items.deep_view()));
    }
}

fn push_mood(parts: &mut Vec<String>, mood: Option<&str>)
    ensures
        final(parts).deep_view() == old(parts).deep_view() + spec_seg_mood(spec_opt_view(mood)),
{
    let ghost pre = parts.deep_view();
    match mood {
        Some(m) => {
            let mut p = String::from_str("心情:");
            p.append(m);
            push_entry(parts, p);
        },
        None => {},
    }
    proof {
        assert(parts.deep_view() =~= pre + spec_seg_mood(spec_opt_view(mood)));
    }
}

/// Builds the list of active condition texts, in their fixed order.
fn build_parts(config: &Config, mood: Option<&str>, hour: u8) -> (parts: Vec<String>)
    ensures
        parts.deep_view() == spec_parts(*config, spec_opt_view(mood), hour),
{
    let mut parts: Vec<String> = Vec::new();
    proof {
        assert(parts.deep_view() =~= Seq::<Seq<char>>::empty());
    }
    push_time(&mut parts, hour);
    push_spicy(&mut parts, config.user.spicy);
    push_high(&mut parts, config.user.sweet, "喜甜");
    push_high(&mut parts, config.user.sour, "喜酸");
    push_flag(&mut parts, config.user.vegetarian, "素食");
    push_flag(&mut parts, config.user.halal, "清真");
    push_budget(&mut parts, config.user.budget.as_str());
    push_list(&mut parts, "偏好:", &config.user.cuisine);
    push_list(&mut parts, "过敏:", &config.user.allergies);
    push_list(&mut parts, "不吃:", &config.rules.blacklist);
    push_list(&mut parts, "最近吃过:", &config.rules.recent);
    push_mood(&mut parts, mood);
    proof {
        assert(Seq::<Seq<char>>::empty() + spec_seg_time(hour) =~= spec_seg_time(hour));
        assert(parts.deep_view() == spec_parts(*config, spec_opt_view(mood), hour));
    }
    parts
}

/// Builds the prompt text for the given configuration, mood hint, hour,
/// category label and diversity seed.
#[verifier::rlimit(100)]
pub fn build_prompt(config: &Config, mood: Option<&str>, hour: u8, category: &str, seed: u32) -> (r:
    String)
    ensures
        r@ == spec_prompt(*config, spec_opt_view(mood), hour, category@, seed),
{
    let parts = build_parts(config, mood, hour);
    let joined = join_with(&parts, "，");
    let seed_text = u32_string(seed);
    let mut out = String::from_str("[");
    out.append(seed_text.as_str());
    out.append("]");
    out.append(joined.as_str());
    let ghost t1 = "["@ + spec_dec(seed as nat) + "]"@ + spec_join(
        spec_parts(*config, spec_opt_view(mood), hour),
        "，"@,
    );
    proof {
        assert(out@ == t1);
    }
    if !config.rules.custom_prompt.as_str().is_empty() {
        out.append("。");
        out.append(config.rules.custom_prompt.as_str());
    }
    let ghost t2 = t1 + spec_custom_suffix(config.rules.custom_prompt@);
    proof {
        assert(out@ =~= t2);
    }
    out.append("。随机推荐一道");
    out.append(category);
    out.append("，不要重复之前的，格式:食物名（15字内理由）");
    proof {
        assert(out@ == t2 + "。随机推荐一道"@ + category@
            + "，不要重复之前的，格式:食物名（15字内理由）"@);
        assert(out@ == spec_prompt(*config, spec_opt_view(mood), hour, category@, seed));
    }
    out
}

/// Prompt construction is deterministic: identical configuration, mood,
/// hour, category and seed always yield identical prompt text.
pub proof fn lemma_prompt_deterministic(
    c1: Config,
    c2: Config,
    mood1: Option<Seq<char>>,
    mood2: Option<Seq<char>>,
    hour1: u8,
    hour2: u8,
    cat1: Seq<char>,
    cat2: Seq<char>,
    seed1: u32,
    seed2: u32,
)
    requires
        c1 == c2,
        mood1 == mood2,
        hour1 == hour2,
        cat1 == cat2,
        seed1 == seed2,
    ensures
        spec_prompt(c1, mood1, hour1, cat1, seed1) == spec_prompt(c2, mood2, hour2, cat2, seed2),
{
}

} // verus!
