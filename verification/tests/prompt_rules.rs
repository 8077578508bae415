use cinematography_ir::names::{
    camera_rig_key_list, composition_strategy_key_list, coverage_role_key_list, depth_role_key_list,
    horizontal_angle_key_list, light_kind_key_list, light_role_key_list, operation_key_list, phrase_key_list,
    screen_region_key_list, shot_purpose_key_list, shot_size_key_list, transition_key_list,
    vertical_angle_key_list,
};
use cinematography_ir::palette::color_for_index;
use cinematography_ir::prompt::{bind_color, capitalize, join_natural, lookup, DialectError, PromptDialect, PromptOptions};

fn table(keys: Vec<&'static str>) -> Vec<(String, String)> {
    keys.into_iter().map(|k| (k.to_string(), format!("<{k}>"))).collect()
}

fn complete_dialect() -> PromptDialect {
    PromptDialect {
        name: "test".to_string(),
        description: String::new(),
        shot_size: table(shot_size_key_list()),
        horizontal_angle: table(horizontal_angle_key_list()),
        vertical_angle: table(vertical_angle_key_list()),
        coverage_role: table(coverage_role_key_list()),
        camera_rig: table(camera_rig_key_list()),
        shot_purpose: table(shot_purpose_key_list()),
        composition_strategy: table(composition_strategy_key_list()),
        screen_region: table(screen_region_key_list()),
        depth_role: table(depth_role_key_list()),
        transition: table(transition_key_list()),
        operation: table(operation_key_list()),
        light_kind: table(light_kind_key_list()),
        light_role: table(light_role_key_list()),
        phrases: table(phrase_key_list()),
    }
}

#[test]
fn a_dialect_with_every_key_is_complete() {
    assert!(complete_dialect().check_complete().is_ok());
}

#[test]
fn missing_keys_are_reported_per_table_in_table_order() {
    let mut dialect = complete_dialect();
    dialect.shot_size.retain(|(k, _)| k != "medium" && k != "insert");
    dialect.phrases.retain(|(k, _)| k != "and");
    let error = dialect.check_complete().unwrap_err();
    match &error {
        DialectError::Incomplete(gaps) => {
            assert_eq!(gaps.len(), 2);
            assert_eq!(gaps[0], ("shot_size".to_string(), vec!["medium".to_string(), "insert".to_string()]));
            assert_eq!(gaps[1], ("phrases".to_string(), vec!["and".to_string()]));
        }
        DialectError::Parse(_) => panic!("expected an incomplete dialect"),
    }
    assert_eq!(error.message(), "dialect is missing phrases: shot_size[medium, insert] phrases[and]");
}

#[test]
fn parse_errors_carry_the_json_error_text() {
    let json_error = serde_json::from_str::<serde_json::Value>("{").unwrap_err();
    let expected = format!("invalid dialect JSON: {json_error}");
    assert_eq!(DialectError::Parse(json_error).message(), expected);
}

#[test]
fn phrases_fall_back_to_the_key_with_spaces() {
    let dialect = complete_dialect();
    assert_eq!(dialect.phrase(&dialect.shot_size, "close_up"), "<close_up>");
    assert_eq!(dialect.phrase(&dialect.shot_size, "very_very_wide"), "very very wide");
    assert_eq!(dialect.word("and"), "<and>");
    assert_eq!(lookup(&dialect.shot_size, "nope"), None);
    assert_eq!(lookup(&dialect.shot_size, "medium"), Some("<medium>".to_string()));
}

#[test]
fn empty_phrases_are_kept() {
    let mut dialect = complete_dialect();
    dialect.phrases = vec![("the".to_string(), String::new())];
    assert_eq!(dialect.word("the"), "");
}

#[test]
fn colour_binding_fills_the_template() {
    let mut dialect = complete_dialect();
    dialect.phrases = vec![("color_binding".to_string(), "{name} in {color}, {name}".to_string())];
    let red = color_for_index(0);
    assert_eq!(bind_color(&dialect, "Alice", red), format!("Alice in {}, Alice", red.name));
    dialect.phrases = vec![];
    assert_eq!(bind_color(&dialect, "Alice", red), "color binding");
}

#[test]
fn a_name_holding_the_colour_placeholder_is_substituted_too() {
    let mut dialect = complete_dialect();
    dialect.phrases = vec![("color_binding".to_string(), "{name} ({color})".to_string())];
    let red = color_for_index(0);
    assert_eq!(bind_color(&dialect, "{color}", red), format!("{0} ({0})", red.name));
}

#[test]
fn natural_lists() {
    let items = |v: &[&str]| v.iter().map(|s| s.to_string()).collect::<Vec<String>>();
    assert_eq!(join_natural(&items(&[]), "and"), "");
    assert_eq!(join_natural(&items(&["a"]), "and"), "a");
    assert_eq!(join_natural(&items(&["a", "b"]), "and"), "a and b");
    assert_eq!(join_natural(&items(&["a", "b", "c"]), "und"), "a, b und c");
}

#[test]
fn capitalisation_uses_the_full_case_mapping() {
    assert_eq!(capitalize("hello"), "Hello");
    assert_eq!(capitalize(""), "");
    assert_eq!(capitalize("ßtraße"), "SStraße");
    assert_eq!(capitalize("1st"), "1st");
}

#[test]
fn full_options_include_everything() {
    let options = PromptOptions::full();
    assert!(options.include_measurements && options.include_scene_context && options.include_color_binding);
}
