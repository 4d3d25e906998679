use transcription_history::corrections::{
    apply_correction_rules, check_duplicate_key, correction_rule_update, correction_vocabulary,
    new_correction_rule, require_rule_changed, rule_enabled_change, validate_correction_rule_texts, CorrectionRule,
};
use transcription_history::error::HistoryError;
use transcription_history::text::{correction_key, eq_ignore_ascii_case, normalize_correction_text};

fn correction_rule(id: i64, heard_text: &str, correct_text: &str, enabled: bool) -> CorrectionRule {
    CorrectionRule {
        id,
        heard_text: heard_text.to_string(),
        correct_text: correct_text.to_string(),
        enabled,
        source_history_entry_id: None,
        created_at: 100,
        updated_at: 100,
    }
}

#[test]
fn apply_correction_rules_replaces_phrase_case_insensitively() {
    let rules = vec![correction_rule(1, "Live Zap", "Livess App", true)];

    let corrected = apply_correction_rules("Open live zap, then Live Zap again.", &rules);

    assert_eq!(corrected, "Open Livess App, then Livess App again.");
}

#[test]
fn apply_correction_rules_respects_word_boundaries() {
    let rules = vec![correction_rule(1, "zap", "app", true)];

    let corrected = apply_correction_rules("zap zapping zap.", &rules);

    assert_eq!(corrected, "app zapping app.");
}

#[test]
fn apply_correction_rules_skips_disabled_rules() {
    let rules = vec![correction_rule(1, "Live Zap", "Livess App", false)];

    let corrected = apply_correction_rules("Live Zap", &rules);

    assert_eq!(corrected, "Live Zap");
}

#[test]
fn correction_rule_validation_rejects_empty_text() {
    assert!(validate_correction_rule_texts("", "Livess App").is_err());
    assert!(validate_correction_rule_texts("Live Zap", "").is_err());
}

#[test]
fn correction_rule_validation_rejects_noop_rule() {
    assert!(validate_correction_rule_texts("Live Zap", "live zap").is_err());
}

#[test]
fn validation_errors_name_the_reason() {
    assert!(matches!(
        validate_correction_rule_texts("", "x"),
        Err(HistoryError::MissingText)
    ));
    assert!(matches!(
        validate_correction_rule_texts("Live Zap", "LIVE ZAP"),
        Err(HistoryError::UnchangedText)
    ));
    assert!(validate_correction_rule_texts("Live Zap", "Livess App").is_ok());
}

#[test]
fn rules_apply_in_order_and_chain() {
    let rules = vec![
        correction_rule(1, "zap", "app", true),
        correction_rule(2, "app store", "App Store", true),
    ];
    assert_eq!(apply_correction_rules("open zap store", &rules), "open App Store");
}

#[test]
fn phrase_inside_a_word_or_after_underscore_is_kept() {
    let rules = vec![correction_rule(1, "zap", "app", true)];
    assert_eq!(apply_correction_rules("rezap my_zap zap_x", &rules), "rezap my_zap zap_x");
    assert_eq!(apply_correction_rules("(zap)", &rules), "(app)");
}

#[test]
fn empty_heard_text_matches_nothing() {
    let rules = vec![correction_rule(1, "", "app", true)];
    assert_eq!(apply_correction_rules("zap", &rules), "zap");
}

#[test]
fn replacement_text_is_not_rescanned() {
    let rules = vec![correction_rule(1, "a", "a a", true)];
    assert_eq!(apply_correction_rules("a b a", &rules), "a a b a a");
}

#[test]
fn whole_text_equal_to_phrase_is_replaced() {
    let rules = vec![correction_rule(1, "Zap", "App", true)];
    assert_eq!(apply_correction_rules("zAP", &rules), "App");
}

#[test]
fn normalization_collapses_and_trims_whitespace() {
    assert_eq!(normalize_correction_text("  live \t\n  zap  "), "live zap");
    assert_eq!(normalize_correction_text("\u{3000}a\u{00A0}b"), "a b");
    assert_eq!(normalize_correction_text("   "), "");
    assert_eq!(normalize_correction_text(""), "");
    let once = normalize_correction_text(" x   y ");
    assert_eq!(normalize_correction_text(&once), once);
}

#[test]
fn correction_key_ignores_case_and_spacing() {
    assert_eq!(correction_key("live   zap"), correction_key("Live Zap"));
    assert_eq!(correction_key(" Live\tZap "), "live zap");
}

#[test]
fn ascii_case_comparison() {
    assert!(eq_ignore_ascii_case("Hello", "hELLO"));
    assert!(!eq_ignore_ascii_case("Hello", "Hell"));
    assert!(!eq_ignore_ascii_case("É", "é"));
}

#[test]
fn new_rule_is_normalized_enabled_and_keyed() {
    let rule = new_correction_rule("  Live   Zap ", " Livess  App", Some(7)).expect("valid rule");
    assert_eq!(rule.texts.heard_text, "Live Zap");
    assert_eq!(rule.texts.correct_text, "Livess App");
    assert_eq!(rule.texts.heard_text_key, "live zap");
    assert!(rule.enabled);
    assert_eq!(rule.source_history_entry_id, Some(7));
    assert_eq!(rule.created_at, rule.updated_at);
    assert!(rule.created_at > 1_600_000_000);
}

#[test]
fn new_rule_is_refused_when_normalized_texts_fail() {
    assert!(matches!(
        new_correction_rule("   ", "x", None),
        Err(HistoryError::MissingText)
    ));
    assert!(matches!(
        new_correction_rule("live  zap", " LIVE ZAP", None),
        Err(HistoryError::UnchangedText)
    ));
}

#[test]
fn duplicate_key_is_refused_with_heard_text() {
    let rule = new_correction_rule("Live Zap", "Livess App", None).expect("valid rule");
    match check_duplicate_key(true, &rule.texts) {
        Err(HistoryError::DuplicateRule(text)) => assert_eq!(text, "Live Zap"),
        other => panic!("unexpected {:?}", other),
    }
    assert!(check_duplicate_key(false, &rule.texts).is_ok());
}

#[test]
fn update_merges_given_fields() {
    let existing = correction_rule(4, "Live Zap", "Livess App", true);
    let update = correction_rule_update(&existing, None, Some("  Lively   App ".to_string()), Some(false))
        .expect("valid update");
    assert_eq!(update.id, 4);
    assert_eq!(update.texts.heard_text, "Live Zap");
    assert_eq!(update.texts.correct_text, "Lively App");
    assert_eq!(update.texts.heard_text_key, "live zap");
    assert!(!update.enabled);

    let kept = correction_rule_update(&existing, None, None, None).expect("valid update");
    assert!(kept.enabled);
    assert_eq!(kept.texts.correct_text, "Livess App");

    assert!(matches!(
        correction_rule_update(&existing, Some("livess app".to_string()), None, None),
        Err(HistoryError::UnchangedText)
    ));
}

#[test]
fn missing_rule_is_reported() {
    assert!(matches!(require_rule_changed(0, 9), Err(HistoryError::RuleNotFound(9))));
    assert!(require_rule_changed(1, 9).is_ok());
}

#[test]
fn vocabulary_is_the_correct_texts_in_order() {
    let rules = vec![
        correction_rule(1, "a", "Alpha", true),
        correction_rule(2, "b", "Beta", true),
    ];
    let rule = &rules[0];
    assert_eq!(rule.heard_text(), "a");
    assert_eq!(rule.correct_text(), "Alpha");
    assert!(rule.enabled());
    assert_eq!(correction_vocabulary(&rules), vec!["Alpha".to_string(), "Beta".to_string()]);
}

#[test]
fn enabled_change_is_stamped() {
    let change = rule_enabled_change(5, false).expect("clock reads a time");
    assert_eq!(change.id, 5);
    assert!(!change.enabled);
    assert!(change.updated_at > 1_600_000_000);
}

#[test]
fn prepared_texts_stay_in_normal_form() {
    let rule = new_correction_rule(" a\t b ", "c  d", None).expect("valid rule");
    assert_eq!(normalize_correction_text(&rule.texts.heard_text), rule.texts.heard_text);
    assert_eq!(normalize_correction_text(&rule.texts.correct_text), rule.texts.correct_text);
    assert_eq!(correction_key(&rule.texts.heard_text), rule.texts.heard_text_key);
    let existing = correction_rule(1, "a b", "c d", true);
    let update = correction_rule_update(&existing, Some("  A  B ".to_string()), None, None)
        .expect("valid update");
    assert_eq!(update.texts.heard_text, "A B");
    assert_eq!(update.texts.heard_text_key, "a b");
}

#[test]
fn phrase_continuing_a_word_is_not_matched() {
    let rules = vec![correction_rule(1, "zap", "app", true)];
    assert_eq!(apply_correction_rules("zap9 9zap zap", &rules), "zap9 9zap app");
}
