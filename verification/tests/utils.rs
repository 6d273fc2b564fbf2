use pingchu::utils::{check_uwu_support, feature_word_supports_uwu, format_time_v1_duration};

#[test]
fn format_duration_reports_negative_spans_in_words() {
    assert_eq!(format_time_v1_duration(-1), "<error: negative duration>");
    assert_eq!(format_time_v1_duration(i64::MIN), "<error: negative duration>");
}

#[test]
fn format_duration_is_human_readable() {
    assert_eq!(format_time_v1_duration(0), "0s");
    assert_eq!(format_time_v1_duration(32), "32ms");
    assert_eq!(format_time_v1_duration(9_420_000), "2h 37m");
    assert_eq!(format_time_v1_duration(10_000), "10s");
    assert_eq!(format_time_v1_duration(86_400_000 * 2 + 61_001), "2days 1m 1s 1ms");
}

#[test]
fn feature_word_is_tested_at_bit_nineteen() {
    assert!(feature_word_supports_uwu(1 << 19));
    assert!(feature_word_supports_uwu(u32::MAX));
    assert!(!feature_word_supports_uwu(0));
    assert!(!feature_word_supports_uwu(!(1 << 19)));
    assert!(!feature_word_supports_uwu(1 << 20));
}

#[test]
fn check_uwu_support_gives_a_steady_answer() {
    assert_eq!(check_uwu_support(), check_uwu_support());
}
