use claude_overlay::input_spec::{Choice, Delivery, InputSpec, YesNoFormat};

#[test]
fn yes_no_format_keystrokes() {
    assert_eq!(YesNoFormat::YN.yes_text(), "y\n");
    assert_eq!(YesNoFormat::Numeric.no_text(), "\x1b");
}

#[test]
fn every_format_answers_yes_and_no_differently() {
    for f in [YesNoFormat::YN, YesNoFormat::YesNo, YesNoFormat::Numeric] {
        assert_ne!(f.yes_text(), f.no_text());
        assert!(f.yes_text().ends_with('\n'));
    }
    assert_eq!(YesNoFormat::YesNo.yes_text(), "yes\n");
    assert_eq!(YesNoFormat::YN.no_text(), "n\n");
    assert_eq!(YesNoFormat::Numeric.yes_text(), "1\n");
}

#[test]
fn default_input_asks_nothing() {
    let spec = InputSpec::default();
    assert!(matches!(spec, InputSpec::NoInput));
    assert!(!spec.needs_answer());
}

#[test]
fn every_other_input_needs_an_answer() {
    let yes_no = InputSpec::YesNo { format: YesNoFormat::YN, delivery: Delivery::Keystroke };
    let single = InputSpec::SingleChoice { options: vec![], allow_other: false, delivery: Delivery::BlockResponse };
    let multi = InputSpec::MultiChoice { options: vec![], allow_other: true, delivery: Delivery::BlockResponse };
    let text = InputSpec::TextInput { placeholder: None, delivery: Delivery::BlockResponse };
    assert!(yes_no.needs_answer());
    assert!(single.needs_answer());
    assert!(multi.needs_answer());
    assert!(text.needs_answer());
}

#[test]
fn clone_keeps_options() {
    let spec = InputSpec::SingleChoice {
        options: vec![
            Choice { label: "A".into(), description: None },
            Choice { label: "B".into(), description: Some("second".into()) },
        ],
        allow_other: true,
        delivery: Delivery::BlockResponse,
    };
    match spec.clone() {
        InputSpec::SingleChoice { options, allow_other, delivery } => {
            assert_eq!(options.len(), 2);
            assert_eq!(options[1].label, "B");
            assert_eq!(options[1].description.as_deref(), Some("second"));
            assert!(allow_other);
            assert_eq!(delivery, Delivery::BlockResponse);
        }
        _ => panic!("wrong variant"),
    }
}
