use csvser::formatter::{format_date, format_fixed, format_int, CellFormatter};
use csvser::models::{Date, DateToken, Fixed};

fn text(chars: Vec<char>) -> String {
    chars.into_iter().collect()
}

#[test]
fn decimal_separator_substitution() {
    let fr = CellFormatter::new_fr();
    let iso = CellFormatter::new_iso();
    let size = Fixed::new(false, 1, 790);
    assert_eq!("1,790", text(format_fixed(&size, fr.decimal_separator)));
    assert_eq!("1.790", text(format_fixed(&size, iso.decimal_separator)));
}

#[test]
fn always_three_decimal_digits() {
    assert_eq!("0.000", text(format_fixed(&Fixed { neg: false, milli: 0 }, '.')));
    assert_eq!("0.007", text(format_fixed(&Fixed { neg: false, milli: 7 }, '.')));
    assert_eq!("0.070", text(format_fixed(&Fixed { neg: false, milli: 70 }, '.')));
    assert_eq!("12.300", text(format_fixed(&Fixed { neg: false, milli: 12300 }, '.')));
}

#[test]
fn date_formats_per_locale() {
    let d = Date::new(2020, 1, 28);
    let fr = CellFormatter::new_fr();
    let iso = CellFormatter::new_iso();
    assert_eq!("28/01/2020", text(format_date(&fr.date_pattern, &d)));
    assert_eq!("2020-01-28", text(format_date(&iso.date_pattern, &d)));
}

#[test]
fn date_fields_are_zero_padded() {
    let d = Date::new(5, 2, 3);
    let iso = CellFormatter::new_iso();
    assert_eq!("0005-02-03", text(format_date(&iso.date_pattern, &d)));
}

#[test]
fn custom_date_pattern() {
    let fmt = CellFormatter::new_iso().with_date_pattern(vec![
        DateToken::Day,
        DateToken::Literal('.'),
        DateToken::Month,
        DateToken::Literal('.'),
        DateToken::Year,
    ]);
    let d = Date::new(1999, 12, 31);
    assert_eq!("31.12.1999", text(format_date(&fmt.date_pattern, &d)));
}

#[test]
fn custom_decimal_separator() {
    let fmt = CellFormatter::new_iso().with_decimal_separator(';');
    assert_eq!("1;000", text(format_fixed(&Fixed { neg: false, milli: 1000 }, fmt.decimal_separator)));
}

#[test]
fn integers_render_in_decimal() {
    assert_eq!("0", text(format_int(0)));
    assert_eq!("2147483647", text(format_int(i32::MAX)));
    assert_eq!("-2147483648", text(format_int(i32::MIN)));
}
