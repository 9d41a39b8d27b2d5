use inkview::classify::ConstantClass;
use inkview::classify::Generator;
use inkview::classify::IntWidth;

#[test]
fn single_rule_single_constant() {
    let mut g = Generator::new();
    g.add_rule(String::from("EVT_"), String::from("Event"), IntWidth::Signed32);
    assert_eq!(g.classify("EVT_SHOW", 1), ConstantClass::Grouped(0));
    let enums = g.emit();
    assert_eq!(enums.len(), 1);
    assert_eq!(enums[0].name, "Event");
    assert_eq!(enums[0].width, IntWidth::Signed32);
    assert_eq!(enums[0].variants.len(), 1);
    assert_eq!(enums[0].variants[0].value, 1);
    assert_eq!(enums[0].variants[0].name, "SHOW");
}

#[test]
fn digit_leading_variant_gets_group_name_prepended() {
    let mut g = Generator::new();
    g.add_rule(String::from("EVT_"), String::from("Event"), IntWidth::Signed32);
    assert_eq!(g.classify("EVT_2LEVEL_DISPLAY", 42), ConstantClass::Grouped(0));
    let enums = g.emit();
    assert_eq!(enums.len(), 1);
    assert_eq!(enums[0].variants.len(), 1);
    assert_eq!(enums[0].variants[0].value, 42);
    assert_eq!(enums[0].variants[0].name, "EVENT2LEVEL_DISPLAY");
}

#[test]
fn rules_are_tested_in_lexicographic_prefix_order() {
    // Register in reverse lexicographic order: matching must not depend on
    // registration order.
    let mut g = Generator::new();
    g.add_rule(String::from("AB_C"), String::from("Beta"), IntWidth::Signed32);
    g.add_rule(String::from("AB_"), String::from("Alpha"), IntWidth::Signed32);
    assert_eq!(g.rule_prefix(0), "AB_");
    assert_eq!(g.rule_prefix(1), "AB_C");
    // Both prefixes match, the lexicographically first wins.
    assert_eq!(g.classify("AB_CD", 7), ConstantClass::Grouped(0));
    let enums = g.emit();
    assert_eq!(enums.len(), 1);
    assert_eq!(enums[0].name, "Alpha");
    assert_eq!(enums[0].variants[0].value, 7);
    assert_eq!(enums[0].variants[0].name, "CD");
}

#[test]
fn first_match_is_exclusive_not_longest() {
    let mut g = Generator::new();
    g.add_rule(String::from("AB_"), String::from("Alpha"), IntWidth::Signed32);
    g.add_rule(String::from("AB_C"), String::from("Beta"), IntWidth::Signed32);
    // "AB_" sorts first and claims the constant; "Beta" stays empty and is
    // not emitted.
    assert_eq!(g.classify("AB_CD", 9), ConstantClass::Grouped(0));
    let enums = g.emit();
    assert_eq!(enums.len(), 1);
    assert_eq!(enums[0].name, "Alpha");
}

#[test]
fn unmatched_constant_in_range_is_plain() {
    let mut g = Generator::new();
    g.add_rule(String::from("EVT_"), String::from("Event"), IntWidth::Signed32);
    assert_eq!(g.classify("WHITE", 0xFFFFFF), ConstantClass::Plain);
    assert_eq!(g.classify("SMALL", i32::MIN as i64), ConstantClass::Plain);
    assert_eq!(g.classify("LARGE", i32::MAX as i64), ConstantClass::Plain);
    assert_eq!(g.emit().len(), 0);
}

#[test]
fn unmatched_constant_out_of_range_is_unclassified() {
    let mut g = Generator::new();
    assert_eq!(g.classify("HUGE", 1 << 40), ConstantClass::Unclassified);
    assert_eq!(g.classify("ABOVE", i32::MAX as i64 + 1), ConstantClass::Unclassified);
    assert_eq!(g.classify("BELOW", i32::MIN as i64 - 1), ConstantClass::Unclassified);
    assert_eq!(g.classify("TINY", i64::MIN), ConstantClass::Unclassified);
}

#[test]
fn empty_prefix_never_matches() {
    let mut g = Generator::new();
    g.add_rule(String::from(""), String::from("Any"), IntWidth::Signed32);
    assert_eq!(g.classify("X", 2), ConstantClass::Plain);
    assert_eq!(g.emit().len(), 0);
}

#[test]
fn value_collision_keeps_last_name() {
    let mut g = Generator::new();
    g.add_rule(String::from("EVT_"), String::from("Event"), IntWidth::Signed32);
    assert_eq!(g.classify("EVT_OPEN", 3), ConstantClass::Grouped(0));
    assert_eq!(g.classify("EVT_SHOW", 3), ConstantClass::Grouped(0));
    let enums = g.emit();
    assert_eq!(enums[0].variants.len(), 1);
    assert_eq!(enums[0].variants[0].value, 3);
    assert_eq!(enums[0].variants[0].name, "SHOW");
}

#[test]
fn variants_are_emitted_in_ascending_value_order() {
    let mut g = Generator::new();
    g.add_rule(String::from("K_"), String::from("Key"), IntWidth::Signed32);
    g.classify("K_C", 50);
    g.classify("K_A", -3);
    g.classify("K_B", 7);
    let enums = g.emit();
    assert_eq!(enums[0].variants.len(), 3);
    assert_eq!(enums[0].variants[0].value, -3);
    assert_eq!(enums[0].variants[0].name, "A");
    assert_eq!(enums[0].variants[1].value, 7);
    assert_eq!(enums[0].variants[1].name, "B");
    assert_eq!(enums[0].variants[2].value, 50);
    assert_eq!(enums[0].variants[2].name, "C");
}

#[test]
fn reregistering_a_prefix_resets_its_group() {
    let mut g = Generator::new();
    g.add_rule(String::from("EVT_"), String::from("Event"), IntWidth::Signed32);
    g.classify("EVT_SHOW", 1);
    g.add_rule(String::from("EVT_"), String::from("Happening"), IntWidth::Unsigned32);
    assert_eq!(g.rule_count(), 1);
    assert_eq!(g.rule_group_name(0), "Happening");
    assert_eq!(g.emit().len(), 0);
    g.classify("EVT_HIDE", 2);
    let enums = g.emit();
    assert_eq!(enums.len(), 1);
    assert_eq!(enums[0].name, "Happening");
    assert_eq!(enums[0].width, IntWidth::Unsigned32);
    assert_eq!(enums[0].variants[0].name, "HIDE");
}

#[test]
fn groups_emit_in_rule_order() {
    let mut g = Generator::new();
    g.add_rule(String::from("REQ_"), String::from("Request"), IntWidth::Signed32);
    g.add_rule(String::from("EVT_"), String::from("Event"), IntWidth::Signed32);
    g.add_rule(String::from("ICON_"), String::from("Icon"), IntWidth::Signed32);
    g.classify("REQ_OPEN", 1);
    g.classify("EVT_SHOW", 2);
    g.classify("ICON_WARN", 3);
    let enums = g.emit();
    assert_eq!(enums.len(), 3);
    assert_eq!(enums[0].name, "Event");
    assert_eq!(enums[1].name, "Icon");
    assert_eq!(enums[2].name, "Request");
}

#[test]
fn non_digit_variant_names_are_not_rewritten() {
    let mut g = Generator::new();
    g.add_rule(String::from("IV_KEY_"), String::from("Key"), IntWidth::Signed32);
    g.classify("IV_KEY_HOME", 27);
    let enums = g.emit();
    assert_eq!(enums[0].variants[0].name, "HOME");
}

#[test]
fn exact_prefix_match_makes_empty_variant_name_digit_check_moot() {
    // A constant whose whole name is the prefix strips to the empty name,
    // which begins with no digit and is kept as stripped.
    let mut g = Generator::new();
    g.add_rule(String::from("EVT_"), String::from("Event"), IntWidth::Signed32);
    assert_eq!(g.classify("EVT_", 5), ConstantClass::Grouped(0));
    let enums = g.emit();
    assert_eq!(enums[0].variants[0].name, "");
}
