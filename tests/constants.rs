use rust_scripter::constant::parse_constant;
use rust_scripter::widget::FunctionWidget;

#[test]
fn parse_constant_reads_decimal_integers() {
    assert_eq!(parse_constant("0"), Some(0));
    assert_eq!(parse_constant("42"), Some(42));
    assert_eq!(parse_constant("+7"), Some(7));
    assert_eq!(parse_constant("-15"), Some(-15));
    assert_eq!(parse_constant("007"), Some(7));
    assert_eq!(parse_constant("9223372036854775807"), Some(i64::MAX));
    assert_eq!(parse_constant("-9223372036854775808"), Some(i64::MIN));
}

#[test]
fn parse_constant_rejects_what_is_not_an_integer() {
    assert_eq!(parse_constant(""), None);
    assert_eq!(parse_constant("-"), None);
    assert_eq!(parse_constant("+"), None);
    assert_eq!(parse_constant("12a"), None);
    assert_eq!(parse_constant(" 1"), None);
    assert_eq!(parse_constant("1.5"), None);
    assert_eq!(parse_constant("--1"), None);
    assert_eq!(parse_constant("٣"), None);
    assert_eq!(parse_constant("9223372036854775808"), None);
    assert_eq!(parse_constant("-9223372036854775809"), None);
    assert_eq!(parse_constant("99999999999999999999999x"), None);
}

#[test]
fn parse_constant_agrees_with_std() {
    for t in ["1", "-1", "+0", "-0", "123456789", "18446744073709551616", "a", "", "+-3"] {
        assert_eq!(parse_constant(t), t.parse::<i64>().ok(), "{}", t);
    }
}

#[test]
fn constant_session_sets_the_typed_value() {
    let mut w = FunctionWidget::default_with_pos(0, "F".to_string());
    assert!(w.begin_edit(1));
    assert_eq!(w.edit_options.as_ref().unwrap().edit_id, 1);
    w.edit_constant("-12".to_string());
    assert!(w.commit_edit());
    assert!(w.edit_options.is_none());
    let v = w.runnable.inputs.get(&1).unwrap().last_value.clone().unwrap();
    assert_eq!(v.as_int(), Ok(-12));
}

#[test]
fn constant_session_with_bad_text_changes_nothing() {
    let mut w = FunctionWidget::default_with_pos(0, "F".to_string());
    assert!(w.begin_edit(0));
    w.edit_constant("twelve".to_string());
    assert!(!w.commit_edit());
    assert!(w.edit_options.is_none());
    assert!(w.runnable.inputs.get(&0).unwrap().last_value.is_none());
}

#[test]
fn constant_session_only_opens_on_inputs() {
    let mut w = FunctionWidget::default_with_pos(0, "F".to_string());
    assert!(!w.begin_edit(3));
    assert!(!w.begin_edit(9));
    assert!(w.edit_options.is_none());
    assert!(!w.commit_edit());
}
