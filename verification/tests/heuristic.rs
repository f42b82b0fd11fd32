use claude_overlay::heuristic::{detect_yn_prompt, YesNoFormat};

#[test]
fn detects_y_n_uppercase_n_default() {
    assert_eq!(detect_yn_prompt("Proceed? [y/N]"), Some(YesNoFormat::YN));
}

#[test]
fn detects_y_n_uppercase_y_default() {
    assert_eq!(detect_yn_prompt("Save [Y/n]?"), Some(YesNoFormat::YN));
}

#[test]
fn detects_parentheses_form() {
    assert_eq!(detect_yn_prompt("Continue (y/n)"), Some(YesNoFormat::YN));
}

#[test]
fn detects_yes_no_brackets() {
    assert_eq!(detect_yn_prompt("Confirm? [yes/no]"), Some(YesNoFormat::YesNo));
}

#[test]
fn detects_yes_no_parentheses() {
    assert_eq!(detect_yn_prompt("Really? (yes/no)"), Some(YesNoFormat::YesNo));
}

#[test]
fn ignores_unrelated_message() {
    assert_eq!(detect_yn_prompt("What is your name?"), None);
}

#[test]
fn ignores_free_text_containing_yes() {
    assert_eq!(detect_yn_prompt("Add 'yes' to the shopping list"), None);
}

#[test]
fn prefers_yes_no_over_yn_if_both_present() {
    assert_eq!(
        detect_yn_prompt("ambiguous [yes/no] and [y/n]"),
        Some(YesNoFormat::YesNo)
    );
}

#[test]
fn yes_text_short_format() {
    assert_eq!(YesNoFormat::YN.yes_text(), "y\n");
}

#[test]
fn no_text_long_format() {
    assert_eq!(YesNoFormat::YesNo.no_text(), "no\n");
}

#[test]
fn whitespace_tolerant() {
    assert_eq!(detect_yn_prompt("prompt [ y / N ] ?"), Some(YesNoFormat::YN));
}

#[test]
fn uppercase_yes_no_is_long_form() {
    assert_eq!(detect_yn_prompt("Overwrite? (YES / NO)"), Some(YesNoFormat::YesNo));
}

#[test]
fn mismatched_brackets_still_match() {
    assert_eq!(detect_yn_prompt("go [y/n)"), Some(YesNoFormat::YN));
}

#[test]
fn bare_slash_without_brackets_is_no_prompt() {
    assert_eq!(detect_yn_prompt("answer y/n please"), None);
}

#[test]
fn empty_message_is_no_prompt() {
    assert_eq!(detect_yn_prompt(""), None);
}
