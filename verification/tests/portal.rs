//! The desktop's light or dark preference.

use usage_tray::portal::{concerns_scheme, dark_ui_from_scheme, read_scheme, scheme_from_value};
use zbus::zvariant::Value;

#[test]
fn one_is_dark_zero_and_two_are_light() {
    assert!(dark_ui_from_scheme(Some(1)));
    assert!(!dark_ui_from_scheme(Some(0)));
    assert!(!dark_ui_from_scheme(Some(2)));
}

#[test]
fn an_absent_or_failed_read_assumes_a_dark_ui() {
    assert!(dark_ui_from_scheme(None));
}

#[test]
fn an_unknown_scheme_value_is_treated_as_light() {
    assert!(!dark_ui_from_scheme(Some(3)));
    assert!(!dark_ui_from_scheme(Some(u32::MAX)));
}

fn variant(inner: Value<'static>) -> Value<'static> {
    Value::Value(Box::new(inner))
}

#[test]
fn reads_the_single_variant_readone_returns() {
    assert_eq!(scheme_from_value(&variant(Value::U32(1))), Some(1));
}

#[test]
fn reads_the_double_wrapped_variant_read_returns() {
    assert_eq!(scheme_from_value(&variant(variant(Value::U32(2)))), Some(2));
}

#[test]
fn reads_a_bare_unwrapped_integer() {
    assert_eq!(scheme_from_value(&Value::U32(0)), Some(0));
}

#[test]
fn accepts_other_integer_widths() {
    assert_eq!(scheme_from_value(&Value::U8(1)), Some(1));
    assert_eq!(scheme_from_value(&Value::I32(2)), Some(2));
    assert_eq!(scheme_from_value(&Value::U64(1)), Some(1));
}

#[test]
fn rejects_values_that_are_not_numbers_and_negative_ones() {
    assert_eq!(scheme_from_value(&Value::from("dark")), None);
    assert_eq!(scheme_from_value(&Value::Bool(true)), None);
    assert_eq!(scheme_from_value(&Value::I32(-1)), None);
    assert!(dark_ui_from_scheme(scheme_from_value(&Value::Bool(true))));
}

#[test]
fn a_number_that_is_too_large_or_too_deep_is_no_preference() {
    assert_eq!(scheme_from_value(&Value::U64(1 << 32)), None);
    let mut seven = Value::U32(1);
    for _ in 0..7 {
        seven = variant(seven);
    }
    assert_eq!(scheme_from_value(&seven), Some(1));
    assert_eq!(scheme_from_value(&variant(seven)), None);
}

#[test]
fn the_first_answer_that_is_one_counts() {
    let one = Value::U16(1);
    let two = Value::I16(2);
    let none = Value::Bool(true);
    assert_eq!(read_scheme(Some(&one), Some(&two)), Some(1));
    assert_eq!(read_scheme(Some(&none), Some(&two)), Some(2));
    assert_eq!(read_scheme(None, Some(&two)), Some(2));
    assert_eq!(read_scheme(Some(&none), None), None);
}

#[test]
fn only_one_setting_is_the_preference() {
    assert!(concerns_scheme("org.freedesktop.appearance", "color-scheme"));
    assert!(!concerns_scheme("org.freedesktop.appearance", "contrast"));
    assert!(!concerns_scheme("org.gnome.desktop", "color-scheme"));
}
