use ttchd::prompt::meal_time_label;
use ttchd::recommend::get_meal_time;

#[test]
fn meal_time_all_hours() {
    for hour in 0u8..24u8 {
        let expected = if (5..=10).contains(&hour) {
            "早餐"
        } else if (11..=14).contains(&hour) {
            "午餐"
        } else if (15..=17).contains(&hour) {
            "下午茶"
        } else if (18..=21).contains(&hour) {
            "晚餐"
        } else {
            "夜宵"
        };
        assert_eq!(meal_time_label(hour), expected);
    }
}

#[test]
fn meal_time_band_edges() {
    assert_eq!(meal_time_label(4), "夜宵");
    assert_eq!(meal_time_label(5), "早餐");
    assert_eq!(meal_time_label(10), "早餐");
    assert_eq!(meal_time_label(11), "午餐");
    assert_eq!(meal_time_label(14), "午餐");
    assert_eq!(meal_time_label(15), "下午茶");
    assert_eq!(meal_time_label(17), "下午茶");
    assert_eq!(meal_time_label(18), "晚餐");
    assert_eq!(meal_time_label(21), "晚餐");
    assert_eq!(meal_time_label(22), "夜宵");
    assert_eq!(meal_time_label(0), "夜宵");
    assert_eq!(meal_time_label(23), "夜宵");
}

#[test]
fn meal_time_now_is_a_fixed_label() {
    let label = get_meal_time();
    let labels = ["早餐", "午餐", "下午茶", "晚餐", "夜宵"];
    assert!(labels.contains(&label));
}
