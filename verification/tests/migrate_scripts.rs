//! Conversions of Ren'Py scripts.
use akrs::migrate::convert_rpy_to_akrs;

#[test]
fn test_label_jump_call_return() {
    let rpy = r#"
label start:
    "Hello world."
    e "Hi there!"
    jump next_scene
    call subroutine
    return

label next_scene:
    "Next scene."
    return

label subroutine:
    "In subroutine."
    return
"#;
    let result = convert_rpy_to_akrs(rpy);
    assert!(result.akrs_script.contains("# start"));
    assert!(result.akrs_script.contains("# next_scene"));
    assert!(result.akrs_script.contains("# subroutine"));
    assert!(result.akrs_script.contains("-> next_scene"));
    assert!(result.akrs_script.contains("=> subroutine"));
    assert!(result.akrs_script.contains("<="));
    assert!(result.akrs_script.contains("\"Hello world.\""));
}

#[test]
fn test_scene_show_hide_menu() {
    let rpy = r#"
label scene1:
    scene bg school with fade
    show eileen happy at left with dissolve
    eileen "Welcome!"
    hide eileen with dissolve
    menu:
        "What do you want?"
        "Option A":
            jump ending_a
        "Option B":
            jump ending_b
"#;
    let result = convert_rpy_to_akrs(rpy);
    assert!(result.akrs_script.contains("@bg school with fade"));
    assert!(result.akrs_script.contains("+ eileen"));
    assert!(result.akrs_script.contains("enters"));
    assert!(result.akrs_script.contains("- eileen"));
    assert!(result.akrs_script.contains("? \"What do you want?\""));
    assert!(result.akrs_script.contains("| \"Option A\""));
    assert!(result.akrs_script.contains("| \"Option B\""));
    assert!(result.akrs_script.contains("-> ending_a"));
    assert!(result.akrs_script.contains("-> ending_b"));
    // Menu block should end with ?
    assert!(result.akrs_script.contains("?\n"));
}

#[test]
fn test_define_image_default_if() {
    let rpy = r#"
define e = Character("Eileen")
image bg_school = "images/school.png"
default affection = 0

label start:
    scene bg_school
    show eileen happy
    e "Hello!"
    $affection += 1
    if affection > 5:
        e "You like me!"
    else:
        e "Do you like me?"
    end
"#;
    let result = convert_rpy_to_akrs(rpy);

    // Character map
    assert!(result.character_map.iter().any(|(s, f)| s == "e" && f == "Eileen"));

    // Image map
    assert!(result.image_map.iter().any(|(n, f)| n == "bg_school" && f == "images/school.png"));

    // Default vars collected at top
    assert!(result.akrs_script.starts_with("-- Default variables"));
    assert!(result.akrs_script.contains("$affection = 0"));

    // Character name resolved
    assert!(result.akrs_script.contains("Eileen: \"Hello!\""));

    // Variable operation
    assert!(result.akrs_script.contains("$affection += 1"));

    // Conditional
    assert!(result.akrs_script.contains("if affection > 5"));
    assert!(result.akrs_script.contains("Eileen: \"You like me!\""));
    assert!(result.akrs_script.contains("else"));
    assert!(result.akrs_script.contains("Eileen: \"Do you like me?\""));
    assert!(result.akrs_script.contains("end"));
}

#[test]
fn test_comments_and_narration() {
    let rpy = r#"
# This is a comment
label start:
    "This is narration."
    e "This is dialogue."
    # Another comment
    return
"#;
    let result = convert_rpy_to_akrs(rpy);
    assert!(result.akrs_script.contains("-- This is a comment"));
    assert!(result.akrs_script.contains("\"This is narration.\""));
}

#[test]
fn test_skip_blocks() {
    let rpy = r#"
init python:
    config.developer = True

screen preferences():
    text "Settings"

label start:
    "Game starts."
    return
"#;
    let result = convert_rpy_to_akrs(rpy);
    // Should skip init python and screen blocks
    assert!(result.warnings.iter().any(|w| w.contains("init python")));
    assert!(result.warnings.iter().any(|w| w.contains("screen")));
    // But should still convert the label
    assert!(result.akrs_script.contains("# start"));
    assert!(result.akrs_script.contains("\"Game starts.\""));
}

#[test]
fn test_while_loop() {
    let rpy = r#"
label loop_test:
    $count = 0
    while count < 3:
        e "Count is increasing."
        $count += 1
    return
"#;
    let result = convert_rpy_to_akrs(rpy);
    // While is converted to label + if + jump pattern
    assert!(result.akrs_script.contains("if count < 3"));
    assert!(result.akrs_script.contains("$count += 1"));
    // Should have a jump back to the loop label
    assert!(result.akrs_script.contains("-> __loop_"));
}
