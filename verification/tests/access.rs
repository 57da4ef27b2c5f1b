use ouroboros_tui::access::{
    numbered, omitted, resolve, row_for_digit, row_number, Env, Label, Settings, PROMPT_END,
    PROMPT_START,
};

const OFF: Settings = Settings { screen_reader: false, reduced_motion: false };

fn env(screen_reader: Option<&str>, reduced_motion: Option<&str>) -> Env {
    Env {
        screen_reader: screen_reader.map(str::to_string),
        reduced_motion: reduced_motion.map(str::to_string),
    }
}

#[test]
fn nothing_set_is_nothing_on() {
    assert_eq!(resolve(OFF, false, &Env::default()), Settings::default());
}

#[test]
fn any_of_the_three_turns_screen_reader_mode_on() {
    let from_flag = resolve(OFF, true, &Env::default());
    let from_env = resolve(OFF, false, &env(Some("1"), None));
    let from_config = resolve(
        Settings { screen_reader: true, reduced_motion: false },
        false,
        &Env::default(),
    );

    for settings in [from_flag, from_env, from_config] {
        assert!(settings.screen_reader);
        assert!(settings.reduced_motion);
    }
}

#[test]
fn reduced_motion_does_not_imply_screen_reader_mode() {
    let settings = resolve(OFF, false, &env(None, Some("1")));
    assert!(settings.reduced_motion);
    assert!(!settings.screen_reader);
}

#[test]
fn a_variable_that_says_no_means_no() {
    for value in ["0", "false", "FALSE", "no", "", "   "] {
        let settings = resolve(OFF, false, &env(Some(value), Some(value)));
        assert_eq!(settings, Settings::default(), "{value:?} read as on");
    }
}

#[test]
fn every_label_is_a_word_with_a_colon() {
    for label in Label::ALL {
        let text = label.as_str();
        assert!(text.ends_with(':'), "{text:?}");
        assert!(
            text.chars().all(|c| c.is_ascii_lowercase() || c == ' ' || c == ':'),
            "{text:?} is not plain lowercase words"
        );
    }

    assert_eq!(Label::ToolError.as_str(), "tool error:");
    assert_eq!(Label::ApprovalNeeded.as_str(), "approval needed:");
}

#[test]
fn a_truncation_marker_is_a_sentence() {
    assert_eq!(
        omitted(12, "line", "ctrl+o"),
        "12 more lines not shown here; press ctrl+o to show all"
    );
    assert_eq!(
        omitted(1, "line", "ctrl+o"),
        "1 more line not shown here; press ctrl+o to show all"
    );
    assert!(!omitted(3, "line", "ctrl+o").contains('…'));
    assert!(!omitted(3, "line", "ctrl+o").contains('·'));
}

#[test]
fn rows_are_numbered_only_while_a_digit_can_select_them() {
    assert_eq!(numbered(0, "Yes"), "1. Yes");
    assert_eq!(numbered(8, "Ninth"), "9. Ninth");
    assert_eq!(numbered(9, "Tenth"), "   Tenth");

    assert_eq!(row_number(0), Some(1));
    assert_eq!(row_number(9), None);

    assert_eq!(row_for_digit('1'), Some(0));
    assert_eq!(row_for_digit('9'), Some(8));
    assert_eq!(row_for_digit('0'), None);
    assert_eq!(row_for_digit('a'), None);
}

#[test]
fn the_prompt_markers_are_the_osc_133_bytes() {
    assert_eq!(PROMPT_START, "\u{1b}]133;A\u{7}");
    assert_eq!(PROMPT_END, "\u{1b}]133;B\u{7}");
}
