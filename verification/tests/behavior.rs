use kcodes::render::render_keycodes;
use kcodes::resolve::lines_to_keycodes;
use kcodes::resolve::translate;
use kcodes::table::get_keymap;
use kcodes::table::lookup_keycode;
use kcodes::tokenize::tokenize;

#[test]
fn empty_input_yields_empty_render() {
    let keycodes = lines_to_keycodes("".to_string());
    assert!(keycodes.is_empty());
    let line = render_keycodes(&keycodes);
    assert_eq!(line, "const uint16_t keycodes[] = {  };");
}

#[test]
fn whitespace_only_input_yields_empty_render() {
    let keycodes = lines_to_keycodes(" \t\r\n ".to_string());
    assert!(keycodes.is_empty());
    let line = render_keycodes(&keycodes);
    assert_eq!(line, "const uint16_t keycodes[] = {  };");
}

#[test]
fn lower_and_upper_case_resolve_alike() {
    let lower = lines_to_keycodes("a".to_string());
    let upper = lines_to_keycodes("A".to_string());
    assert_eq!(lower, vec!["KC_A".to_string()]);
    assert_eq!(upper, vec!["KC_A".to_string()]);
}

#[test]
fn mixed_case_modifiers_resolve() {
    let keycodes = lines_to_keycodes("Shift ctrl ALT gUi".to_string());
    assert_eq!(
        keycodes,
        vec![
            "KC_LSFT".to_string(),
            "KC_LCTL".to_string(),
            "KC_LALT".to_string(),
            "KC_LGUI".to_string(),
        ]
    );
}

#[test]
fn digits_resolve() {
    let keycodes = lines_to_keycodes("1 2 3 4 5 6 7 8 9 0".to_string());
    let expected: Vec<String> = vec![
        "KC_1", "KC_2", "KC_3", "KC_4", "KC_5", "KC_6", "KC_7", "KC_8", "KC_9", "KC_0",
    ]
    .into_iter()
    .map(|s| s.to_string())
    .collect();
    assert_eq!(keycodes, expected);
}

#[test]
fn punctuation_resolves() {
    let keycodes = lines_to_keycodes("! @ # $ % ^ & * ( ) - _ = +".to_string());
    let expected: Vec<String> = vec![
        "KC_EXCLAIM",
        "KC_AT",
        "KC_HASH",
        "KC_DOLLAR",
        "KC_PERCENT",
        "KC_CIRCUMFLEX",
        "KC_AMPERSAND",
        "KC_ASTERISK",
        "KC_LPAREN",
        "KC_RPAREN",
        "KC_MINUS",
        "KC_UNDERSCORE",
        "KC_EQUAL",
        "KC_PLUS",
    ]
    .into_iter()
    .map(|s| s.to_string())
    .collect();
    assert_eq!(keycodes, expected);
}

#[test]
fn special_names_resolve() {
    let keycodes = lines_to_keycodes("todo trans no".to_string());
    assert_eq!(
        keycodes,
        vec![
            "KC_TODO".to_string(),
            "KC_TRNS".to_string(),
            "KC_NO".to_string(),
        ]
    );
}

#[test]
fn unknown_tokens_are_reported_not_emitted() {
    let (keycodes, unknown) = translate("foo a bar");
    assert_eq!(keycodes, vec!["KC_A".to_string()]);
    assert_eq!(unknown, vec!["foo".to_string(), "bar".to_string()]);
}

#[test]
fn unknown_tokens_keep_their_original_case() {
    let (keycodes, unknown) = translate("Borked");
    assert!(keycodes.is_empty());
    assert_eq!(unknown, vec!["Borked".to_string()]);
}

#[test]
fn unicode_whitespace_separates_tokens() {
    let em_space = lines_to_keycodes("a\u{2003}b".to_string());
    let no_break_space = lines_to_keycodes("a\u{00A0}b".to_string());
    assert_eq!(em_space, vec!["KC_A".to_string(), "KC_B".to_string()]);
    assert_eq!(no_break_space, vec!["KC_A".to_string(), "KC_B".to_string()]);
}

#[test]
fn leading_and_trailing_whitespace_produce_no_tokens() {
    let tokens = tokenize("  a \t b  ");
    assert_eq!(tokens, vec!["a".to_string(), "b".to_string()]);
}

#[test]
fn tokenize_splits_on_maximal_runs() {
    let tokens = tokenize("ab!cd \n\t x");
    assert_eq!(tokens, vec!["ab!cd".to_string(), "x".to_string()]);
}

#[test]
fn render_joins_with_comma_space() {
    let keycodes = vec!["KC_A".to_string(), "KC_B".to_string()];
    let line = render_keycodes(&keycodes);
    assert_eq!(line, "const uint16_t keycodes[] = { KC_A, KC_B };");
}

#[test]
fn render_single_keycode() {
    let keycodes = vec!["KC_A".to_string()];
    let line = render_keycodes(&keycodes);
    assert_eq!(line, "const uint16_t keycodes[] = { KC_A };");
}

#[test]
fn lookup_folds_case_before_matching() {
    let keymap = get_keymap();
    assert_eq!(lookup_keycode(&keymap, "shift"), Some("KC_LSFT"));
    assert_eq!(lookup_keycode(&keymap, "z"), Some("KC_Z"));
    assert_eq!(lookup_keycode(&keymap, "Z"), Some("KC_Z"));
    assert_eq!(lookup_keycode(&keymap, "zz"), None);
}

#[test]
fn keymap_holds_every_category() {
    let keymap = get_keymap();
    assert_eq!(keymap.len(), 57);
    assert_eq!(lookup_keycode(&keymap, "!"), Some("KC_EXCLAIM"));
    assert_eq!(lookup_keycode(&keymap, "CTRL"), Some("KC_LCTL"));
    assert_eq!(lookup_keycode(&keymap, "TRANS"), Some("KC_TRNS"));
    assert_eq!(lookup_keycode(&keymap, "7"), Some("KC_7"));
}

#[test]
fn full_pipeline_matches_example() {
    let (keycodes, unknown) = translate("SHIFT a b c GUI NO");
    assert!(unknown.is_empty());
    let line = render_keycodes(&keycodes);
    assert_eq!(
        line,
        "const uint16_t keycodes[] = { KC_LSFT, KC_A, KC_B, KC_C, KC_LGUI, KC_NO };"
    );
}
