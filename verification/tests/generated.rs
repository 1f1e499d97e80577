use codegen::generated_code::GeneratedCodeManager;

#[test]
fn new_file_holds_each_block_and_an_empty_line() {
    let mut manager = GeneratedCodeManager::new();
    assert_eq!(manager.embed(None), "");
    manager.set_section("tool", "init", "int a;".to_string());
    manager.set_section("tool", "exit", "int b;\n".to_string());
    assert_eq!(
        manager.embed(None),
        "/* GENERATED CODE BEGIN tool init */\nint a;\n/* GENERATED CODE END tool init */\n\n/* GENERATED CODE BEGIN tool exit */\nint b;\n\n/* GENERATED CODE END tool exit */\n\n"
    );
}

#[test]
fn setting_a_block_again_replaces_it_in_place() {
    let mut manager = GeneratedCodeManager::new();
    manager.set_section("t", "a", "1".to_string());
    manager.set_section("t", "b", "2".to_string());
    manager.set_section("u", "a", "3".to_string());
    manager.set_section("t", "a", "4".to_string());
    assert_eq!(
        manager.embed(None),
        "/* GENERATED CODE BEGIN t a */\n4\n/* GENERATED CODE END t a */\n\n/* GENERATED CODE BEGIN t b */\n2\n/* GENERATED CODE END t b */\n\n/* GENERATED CODE BEGIN u a */\n3\n/* GENERATED CODE END u a */\n\n"
    );
}

#[test]
fn block_is_replaced_between_its_markers() {
    let mut manager = GeneratedCodeManager::new();
    manager.set_section("tool", "init", "new();\n".to_string());
    let existing = "head\n/* GENERATED CODE BEGIN tool init */\nold();\n/* GENERATED CODE END tool init */\ntail\n";
    assert_eq!(
        manager.embed(Some(existing)),
        "head\n/* GENERATED CODE BEGIN tool init */\nnew();\n/* GENERATED CODE END tool init */\ntail\n"
    );
}

#[test]
fn replacement_reaches_from_first_begin_to_last_end() {
    let mut manager = GeneratedCodeManager::new();
    manager.set_section("t", "p", "x".to_string());
    let existing = "a/* GENERATED CODE BEGIN t p */b/* GENERATED CODE END t p */c/* GENERATED CODE BEGIN t p */d/* GENERATED CODE END t p */e";
    assert_eq!(
        manager.embed(Some(existing)),
        "a/* GENERATED CODE BEGIN t p */\nx/* GENERATED CODE END t p */e"
    );
}

#[test]
fn missing_block_is_added_at_the_end() {
    let mut manager = GeneratedCodeManager::new();
    manager.set_section("t", "p", "x".to_string());
    assert_eq!(
        manager.embed(Some("int main;")),
        "int main;\n\n/* GENERATED CODE BEGIN t p */\nx\n/* GENERATED CODE END t p */\n"
    );
    assert_eq!(
        manager.embed(Some("int main;\n")),
        "int main;\n\n/* GENERATED CODE BEGIN t p */\nx\n/* GENERATED CODE END t p */\n"
    );
    assert_eq!(
        manager.embed(Some("")),
        "\n\n/* GENERATED CODE BEGIN t p */\nx\n/* GENERATED CODE END t p */\n"
    );
    assert_eq!(
        manager.embed(Some("/* GENERATED CODE BEGIN t p */")),
        "/* GENERATED CODE BEGIN t p */\n\n/* GENERATED CODE BEGIN t p */\nx\n/* GENERATED CODE END t p */\n"
    );
    assert_eq!(
        manager.embed(Some("/* GENERATED CODE BEGIN t q */\n/* GENERATED CODE END t q */\n")),
        "/* GENERATED CODE BEGIN t q */\n/* GENERATED CODE END t q */\n\n/* GENERATED CODE BEGIN t p */\nx\n/* GENERATED CODE END t p */\n"
    );
}

#[test]
fn end_marker_before_begin_marker_is_no_block() {
    let mut manager = GeneratedCodeManager::new();
    manager.set_section("t", "p", "x".to_string());
    let existing = "/* GENERATED CODE END t p */\n/* GENERATED CODE BEGIN t p */\n";
    assert_eq!(
        manager.embed(Some(existing)),
        "/* GENERATED CODE END t p */\n/* GENERATED CODE BEGIN t p */\n\n/* GENERATED CODE BEGIN t p */\nx\n/* GENERATED CODE END t p */\n"
    );
}

#[test]
fn blocks_are_embedded_one_after_the_other() {
    let mut manager = GeneratedCodeManager::new();
    manager.set_section("t", "a", "A".to_string());
    manager.set_section("t", "b", "B".to_string());
    let existing = "/* GENERATED CODE BEGIN t b */\nold\n/* GENERATED CODE END t b */";
    let once = manager.embed(Some(existing));
    assert_eq!(
        once,
        "/* GENERATED CODE BEGIN t b */\nB/* GENERATED CODE END t b */\n\n/* GENERATED CODE BEGIN t a */\nA\n/* GENERATED CODE END t a */\n"
    );
    let twice = manager.embed(Some(&once));
    assert_eq!(
        twice,
        "/* GENERATED CODE BEGIN t b */\nB/* GENERATED CODE END t b */\n\n/* GENERATED CODE BEGIN t a */\nA/* GENERATED CODE END t a */\n"
    );
}
