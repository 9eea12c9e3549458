use sb3_value::Index;
use sb3_value::Value;
use std::cmp::Ordering;

fn num(n: f64) -> Value {
    Value::Num(n.to_bits())
}

fn text(s: &str) -> Value {
    Value::String(s.to_string())
}

#[test]
fn bool_is_its_own_truth() {
    assert_eq!(Value::Bool(true).to_bool(), true);
    assert_eq!(Value::Bool(false).to_bool(), false);
}

#[test]
fn finite_numbers_coerce_to_themselves() {
    for n in [0.5, -3.25, 1e300, 5e-324, 12345.0] {
        assert_eq!(num(n).try_to_num(), Some(n.to_bits()));
    }
}

#[test]
fn nan_has_no_numeric_value_and_is_falsy() {
    assert_eq!(num(f64::NAN).try_to_num(), None);
    assert_eq!(num(f64::NAN).to_bool(), false);
    assert_eq!(text("NaN").try_to_num(), None);
    assert_eq!(text("nan").try_to_num(), None);
}

#[test]
fn numeric_truthiness() {
    assert_eq!(num(0.0).to_bool(), false);
    assert_eq!(num(-0.0).to_bool(), false);
    assert_eq!(num(2.5).to_bool(), true);
    assert_eq!(num(-1.0).to_bool(), true);
    assert_eq!(num(f64::INFINITY).to_bool(), true);
}

#[test]
fn string_truthiness() {
    assert_eq!(text("").to_bool(), false);
    assert_eq!(text("0").to_bool(), false);
    assert_eq!(text("FALSE").to_bool(), false);
    assert_eq!(text("false").to_bool(), false);
    assert_eq!(text("FaLsE").to_bool(), false);
    assert_eq!(text("0.0").to_bool(), true);
    assert_eq!(text("abc").to_bool(), true);
    assert_eq!(text(" ").to_bool(), true);
}

#[test]
fn infinity_literals_parse() {
    assert_eq!(text("Infinity").try_to_num(), Some(f64::INFINITY.to_bits()));
    assert_eq!(text("+Infinity").try_to_num(), Some(f64::INFINITY.to_bits()));
    assert_eq!(text("-Infinity").try_to_num(), Some(f64::NEG_INFINITY.to_bits()));
}

#[test]
fn bare_inf_forms_are_rejected() {
    assert_eq!(text("inf").try_to_num(), None);
    assert_eq!(text("+inf").try_to_num(), None);
    assert_eq!(text("-inf").try_to_num(), None);
}

#[test]
fn empty_and_junk_strings_fail_to_parse() {
    assert_eq!(text("").try_to_num(), None);
    assert_eq!(text("abc").try_to_num(), None);
    assert_eq!(text("0x10").try_to_num(), None);
    assert_eq!(text("1.2.3").try_to_num(), None);
}

#[test]
fn parsing_trims_whitespace() {
    assert_eq!(text("  3.5  ").try_to_num(), Some(3.5f64.to_bits()));
    assert_eq!(text("\u{a0}\t 7.5 \n").try_to_num(), Some(7.5f64.to_bits()));
    assert_eq!(text("\u{3000}42\u{2028}").try_to_num(), Some(42.0f64.to_bits()));
}

#[test]
fn ordinary_decimals_parse() {
    assert_eq!(text("3").try_to_num(), Some(3.0f64.to_bits()));
    assert_eq!(text("-2.5e2").try_to_num(), Some((-250.0f64).to_bits()));
    assert_eq!(text("1e5").try_to_num(), Some(100000.0f64.to_bits()));
}

#[test]
fn booleans_coerce_to_one_and_zero() {
    assert_eq!(Value::Bool(true).try_to_num(), Some(1.0f64.to_bits()));
    assert_eq!(Value::Bool(false).try_to_num(), Some(0.0f64.to_bits()));
}

#[test]
fn to_num_falls_back_to_zero() {
    assert_eq!(text("abc").to_num(), 0.0f64.to_bits());
    assert_eq!(num(f64::NAN).to_num(), 0.0f64.to_bits());
    assert_eq!(num(3.5).to_num(), 3.5f64.to_bits());
}

#[test]
fn numbers_format_like_the_runtime() {
    assert_eq!(num(1.0).to_cow_str(), "1");
    assert_eq!(num(1.5).to_cow_str(), "1.5");
    assert_eq!(num(-2.5).to_cow_str(), "-2.5");
    assert_eq!(num(100.0).to_cow_str(), "100");
    assert_eq!(num(1e21).to_cow_str(), "1e+21");
    assert_eq!(num(f64::INFINITY).to_cow_str(), "Infinity");
    assert_eq!(num(f64::NEG_INFINITY).to_cow_str(), "-Infinity");
}

#[test]
fn texts_and_booleans_format_as_themselves() {
    assert_eq!(text("hello").to_cow_str(), "hello");
    assert_eq!(Value::Bool(true).to_cow_str(), "true");
    assert_eq!(Value::Bool(false).to_cow_str(), "false");
}

#[test]
fn formatting_round_trips_through_parsing() {
    for n in [0.1, 0.3, 1.5, 123456.789, 1e300, 5e-324, 1e21, -7.25, 0.0] {
        let rendered = num(n).to_cow_str();
        assert_eq!(text(&rendered).try_to_num(), Some(n.to_bits()));
    }
}

#[test]
fn last_token_addresses_the_final_element() {
    assert_eq!(text("last").to_index(), Some(Index::Last));
    assert_eq!(text("Last").to_index(), None);
}

#[test]
fn one_based_positions_shift_down() {
    assert_eq!(num(1.0).to_index(), Some(Index::Nth(0)));
    assert_eq!(num(2.7).to_index(), Some(Index::Nth(1)));
    assert_eq!(num(4.9).to_index(), Some(Index::Nth(3)));
    assert_eq!(text("3").to_index(), Some(Index::Nth(2)));
    assert_eq!(Value::Bool(true).to_index(), Some(Index::Nth(0)));
}

#[test]
fn positions_below_one_do_not_index() {
    assert_eq!(num(0.0).to_index(), None);
    assert_eq!(num(0.9).to_index(), None);
    assert_eq!(num(-5.0).to_index(), None);
    assert_eq!(text("abc").to_index(), None);
    assert_eq!(Value::Bool(false).to_index(), None);
}

#[test]
fn huge_positions_saturate() {
    assert_eq!(num(f64::INFINITY).to_index(), Some(Index::Nth(usize::MAX - 1)));
    assert_eq!(num(1e300).to_index(), Some(Index::Nth(usize::MAX - 1)));
}

#[test]
fn number_like_operands_compare_numerically() {
    assert_eq!(num(2.0).compare(&text("10")), Ordering::Less);
    assert_eq!(text("10").compare(&num(2.0)), Ordering::Greater);
    assert_eq!(text("3").compare(&text("20")), Ordering::Less);
    assert_eq!(num(f64::NEG_INFINITY).compare(&num(5.0)), Ordering::Less);
    assert_eq!(num(f64::INFINITY).compare(&text("Infinity")), Ordering::Equal);
    assert_eq!(num(-0.0).compare(&num(0.0)), Ordering::Equal);
}

#[test]
fn text_operands_compare_case_insensitively() {
    assert_eq!(text("b").compare(&text("A")), Ordering::Greater);
    assert_eq!(text("B").compare(&text("a")), Ordering::Greater);
    assert_eq!(text("A").compare(&text("a")), Ordering::Equal);
    assert_eq!(text("abc").compare(&num(5.0)), Ordering::Greater);
}

#[test]
fn every_value_compares_equal_to_itself() {
    let samples = [num(1.5), num(-0.0), text("xY"), text(""), Value::Bool(true), Value::Bool(false)];
    for v in &samples {
        assert_eq!(v.compare(v), Ordering::Equal);
    }
}

#[test]
fn default_is_the_empty_text() {
    let v = Value::default();
    assert_eq!(v.to_cow_str(), "");
    assert_eq!(v.to_bool(), false);
}
