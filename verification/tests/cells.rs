use csv2tex::cell::{classify, render, ClassifiedCell};
use csv2tex::exponent::ExponentError;

fn plain(text: &str) -> ClassifiedCell {
    ClassifiedCell::PlainText(text.to_string())
}

fn scientific(mantissa: &str, exponent: &str) -> ClassifiedCell {
    ClassifiedCell::ScientificValue(mantissa.to_string(), exponent.to_string())
}

#[test]
fn scientific_cell_is_typeset_as_power_of_ten() {
    let cell = classify("1.23E-4");
    assert_eq!(cell, Ok(scientific("1.23", "-4")));
    assert_eq!(render(&cell.unwrap()), "$1.23 \\times 10^{-4}$");
}

#[test]
fn text_cell_is_passed_through() {
    let cell = classify("hello world");
    assert_eq!(cell, Ok(plain("hello world")));
    assert_eq!(render(&cell.unwrap()), "hello world");
}

#[test]
fn empty_mantissa_is_still_scientific() {
    let cell = classify("E5");
    assert_eq!(cell, Ok(scientific("", "5")));
    assert_eq!(render(&cell.unwrap()), "$ \\times 10^{5}$");
    assert_eq!(classify("  E5 "), Ok(scientific("", "5")));
    assert_eq!(classify("E05"), Ok(scientific("", "5")));
}

#[test]
fn classify_gives_the_same_answer_twice() {
    for raw in ["1.23E-4", "hello world", "E5", "", "  ", "1E", "6.02E23 mol", "\t-1.5E+03\n"] {
        assert_eq!(classify(raw), classify(raw));
    }
}

#[test]
fn text_without_the_shape_is_typeset_as_its_trimmed_self() {
    for raw in [
        "hello world",
        "  padded  ",
        "\t tab and newline \r\n",
        "",
        "   ",
        "1.23e-4",
        "1.23",
        "-7",
        "x1E5",
        "1 E5",
        "\u{3000}全角\u{3000}",
        "a&b",
        "$1 \\times 10^{2}$",
    ] {
        let cell = classify(raw).unwrap();
        assert_eq!(cell, plain(raw.trim()));
        assert_eq!(render(&cell), raw.trim());
    }
}

#[test]
fn whitespace_around_a_number_is_discarded() {
    assert_eq!(classify("  1.23E-4  "), Ok(scientific("1.23", "-4")));
    assert_eq!(classify("\t6.02E23\r\n"), Ok(scientific("6.02", "23")));
    assert_eq!(classify("\u{a0}3.0E+5\u{3000}"), Ok(scientific("3.0", "5")));
}

#[test]
fn whitespace_inside_a_number_makes_it_text() {
    assert_eq!(classify("1.23 E-4"), Ok(plain("1.23 E-4")));
    assert_eq!(classify("1.23E -4"), Err(ExponentError::Empty));
}

#[test]
fn marker_is_upper_case_only() {
    assert_eq!(classify("1.23e-4"), Ok(plain("1.23e-4")));
    assert_eq!(classify("1.23E-4"), Ok(scientific("1.23", "-4")));
}

#[test]
fn mantissa_is_kept_as_written() {
    assert_eq!(classify("+1.50E3"), Ok(scientific("+1.50", "3")));
    assert_eq!(classify("-.5E-03"), Ok(scientific("-.5", "-3")));
    assert_eq!(classify("1.2.3E4"), Ok(scientific("1.2.3", "4")));
    assert_eq!(classify("--E4"), Ok(scientific("--", "4")));
    assert_eq!(classify("007E1"), Ok(scientific("007", "1")));
}

#[test]
fn exponent_is_brought_to_canonical_form() {
    assert_eq!(classify("1E007"), Ok(scientific("1", "7")));
    assert_eq!(classify("1E-0"), Ok(scientific("1", "0")));
    assert_eq!(classify("1E+12"), Ok(scientific("1", "12")));
    assert_eq!(classify("3.0E+5"), Ok(scientific("3.0", "5")));
    assert_eq!(classify("1E2"), Ok(scientific("1", "2")));
}

#[test]
fn what_follows_the_exponent_is_left_out() {
    assert_eq!(classify("6.02E23 mol"), Ok(scientific("6.02", "23")));
    assert_eq!(classify("1E2abc"), Ok(scientific("1", "2")));
    assert_eq!(classify("1E2E3"), Ok(scientific("1", "2")));
    assert_eq!(classify("1E2.5"), Ok(scientific("1", "2")));
}

#[test]
fn exponent_without_canonical_form_is_an_error() {
    assert_eq!(classify("1E"), Err(ExponentError::Empty));
    assert_eq!(classify("E"), Err(ExponentError::Empty));
    assert_eq!(classify("Energy"), Err(ExponentError::Empty));
    assert_eq!(classify("1E+"), Err(ExponentError::Malformed));
    assert_eq!(classify("1E-"), Err(ExponentError::Malformed));
    assert_eq!(classify("1E+-3"), Err(ExponentError::Malformed));
    assert_eq!(classify("1E3-4"), Err(ExponentError::Malformed));
    assert_eq!(classify("1E2147483648"), Err(ExponentError::OutOfRange));
    assert_eq!(classify("1E-2147483649"), Err(ExponentError::OutOfRange));
    assert_eq!(classify("1E99999999999999999999999"), Err(ExponentError::OutOfRange));
}

#[test]
fn exponent_at_the_bounds_is_accepted() {
    assert_eq!(classify("1E2147483647"), Ok(scientific("1", "2147483647")));
    assert_eq!(classify("1E-2147483648"), Ok(scientific("1", "-2147483648")));
    assert_eq!(classify("1E+0002147483647"), Ok(scientific("1", "2147483647")));
}

#[test]
fn render_follows_the_template() {
    assert_eq!(render(&plain("")), "");
    assert_eq!(render(&plain("50% of $x_1$")), "50% of $x_1$");
    assert_eq!(render(&scientific("1", "2")), "$1 \\times 10^{2}$");
    assert_eq!(render(&scientific("", "")), "$ \\times 10^{}$");
    assert_eq!(render(&scientific("a_b", "{c}")), "$a_b \\times 10^{{c}}$");
}

#[test]
fn typeset_text_is_never_read_as_a_number_again() {
    for raw in ["1.23E-4", "E5", "hello world", "  1E2 ", "6.02E23 mol", " x ", ""] {
        let once = render(&classify(raw).unwrap());
        let again = classify(&once).unwrap();
        assert_eq!(again, plain(&once));
        assert_eq!(render(&again), once);
    }
    let odd = render(&scientific(" 1E5 ", "\t"));
    assert_eq!(classify(&odd), Ok(plain(&odd)));
}
