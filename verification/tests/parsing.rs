use mandelbrot::parse_pair;
use mandelbrot::parse_usize;
use mandelbrot::split_at_sep;

#[test]
fn pair_of_bounds() {
    assert_eq!(parse_pair::<usize>("400x600", 'x'), Some((400, 600)));
}

#[test]
fn pair_without_separator() {
    assert_eq!(parse_pair::<usize>("400600", 'x'), None);
}

#[test]
fn pair_with_bad_right_half() {
    assert_eq!(parse_pair::<usize>("400xabc", 'x'), None);
}

#[test]
fn pair_with_empty_left_half() {
    assert_eq!(parse_pair::<usize>("x600", 'x'), None);
}

#[test]
fn pair_with_empty_right_half() {
    assert_eq!(parse_pair::<usize>("400x", 'x'), None);
}

#[test]
fn pair_with_repeated_separator() {
    assert_eq!(parse_pair::<usize>("4x5x6", 'x'), None);
}

#[test]
fn pair_with_plus_signs() {
    assert_eq!(parse_pair::<usize>("+4x+2", 'x'), Some((4, 2)));
}

#[test]
fn pair_with_comma_separator() {
    assert_eq!(parse_pair::<usize>("1,2", ','), Some((1, 2)));
}

#[test]
fn pair_of_empty_string() {
    assert_eq!(parse_pair::<usize>("", 'x'), None);
}

#[test]
fn unsigned_zero() {
    assert_eq!(parse_usize("0"), Some(0));
}

#[test]
fn unsigned_with_plus_sign() {
    assert_eq!(parse_usize("+42"), Some(42));
}

#[test]
fn unsigned_empty() {
    assert_eq!(parse_usize(""), None);
}

#[test]
fn unsigned_plus_sign_alone() {
    assert_eq!(parse_usize("+"), None);
}

#[test]
fn unsigned_with_stray_character() {
    assert_eq!(parse_usize("4x2"), None);
    assert_eq!(parse_usize("-7"), None);
    assert_eq!(parse_usize(" 7"), None);
}

#[test]
fn unsigned_largest_value() {
    let largest = format!("{}", usize::MAX);
    assert_eq!(parse_usize(&largest), Some(usize::MAX));
}

#[test]
fn unsigned_too_large() {
    assert_eq!(parse_usize("99999999999999999999999999"), None);
}

#[test]
fn split_of_complex_text() {
    assert_eq!(
        split_at_sep("1.25,-0.0625", ','),
        Some(("1.25".to_string(), "-0.0625".to_string()))
    );
}

#[test]
fn split_without_separator() {
    assert_eq!(split_at_sep("1.25", ','), None);
}

#[test]
fn split_at_first_occurrence_only() {
    assert_eq!(
        split_at_sep("a,b,c", ','),
        Some(("a".to_string(), "b,c".to_string()))
    );
}

#[test]
fn split_with_leading_separator() {
    assert_eq!(
        split_at_sep(",right", ','),
        Some(("".to_string(), "right".to_string()))
    );
}
