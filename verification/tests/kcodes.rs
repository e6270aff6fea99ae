use kcodes::resolve::lines_to_keycodes;

fn vec_to_string(vec: Vec<String>) -> String {
    vec.iter().fold("vec: ".to_string(), |a, b| a + b + "; ")
}

#[test]
fn kcodes_test1() {
    let input: String = "a b c".to_string();
    let keycodes: Vec<String> = lines_to_keycodes(input);
    assert_eq!(vec_to_string(keycodes), "vec: KC_A; KC_B; KC_C; ");
}

#[test]
fn kcodes_test2() {
    let input: String = "a\nb\nc".to_string();
    let keycodes: Vec<String> = lines_to_keycodes(input);
    assert_eq!(vec_to_string(keycodes), "vec: KC_A; KC_B; KC_C; ");
}

#[test]
fn kcodes_test3() {
    let input: String = "a\n\tb\n\t\tc".to_string();
    let keycodes: Vec<String> = lines_to_keycodes(input);
    assert_eq!(vec_to_string(keycodes), "vec: KC_A; KC_B; KC_C; ");
}

#[test]
fn kcodes_test4() {
    let input: String = "SHIFT a b c GUI NO".to_string();
    let keycodes: Vec<String> = lines_to_keycodes(input);
    assert_eq!(
        vec_to_string(keycodes),
        "vec: KC_LSFT; KC_A; KC_B; KC_C; KC_LGUI; KC_NO; "
    );
}
