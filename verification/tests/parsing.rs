use dirsift::ages::{
    extract_age, extract_first_suffix_letter, extract_string_parts, first_letter_of, read_age,
};
use dirsift::decimal::scale_decimal;
use dirsift::lists::{extract_extensions, extract_from_list, is_in_extensions, is_not_in_extensions};
use dirsift::sizes::{extract_size_val, extract_sizes, read_sizes, unit_multiplier};

const DAY: u64 = 86400;
const KIB: u64 = 1024;
const MIB: u64 = 1024 * 1024;
const GIB: u64 = 1024 * 1024 * 1024;

fn days(seconds: u64) -> f64 {
    seconds as f64 / 86400.0
}

fn strings(items: &[&str]) -> Vec<String> {
    items.iter().map(|s| s.to_string()).collect()
}

#[test]
fn age_in_days() {
    assert_eq!(days(extract_age("7d")), 7.0);
    assert_eq!(days(extract_age("2w")), 14.0);
    assert_eq!(days(extract_age("")), 0.0);
    assert_eq!(days(extract_age("3")), 3.0);
}

#[test]
fn age_units_in_seconds() {
    assert_eq!(extract_age("30s"), 30);
    assert_eq!(extract_age("10m"), 600);
    assert_eq!(extract_age("2h"), 7200);
    assert_eq!(extract_age("7d"), 7 * DAY);
    assert_eq!(extract_age("2w"), 14 * DAY);
    assert_eq!(extract_age("1y"), 31_557_600);
    assert_eq!(days(extract_age("1y")), 365.25);
}

#[test]
fn age_with_a_fraction() {
    assert_eq!(extract_age("1.5h"), 5400);
    assert_eq!(extract_age("0.5d"), 43200);
    assert_eq!(extract_age("7.d"), 7 * DAY);
    assert_eq!(extract_age("0.25w"), 151_200);
}

#[test]
fn age_is_rounded_up_to_the_second() {
    assert_eq!(extract_age("0.5s"), 1);
    assert_eq!(extract_age("1.0001s"), 2);
    assert_eq!(extract_age("0.0000000000000000000000000001s"), 1);
    assert_eq!(extract_age("0.000s"), 0);
}

#[test]
fn age_unit_is_the_first_character_after_the_number() {
    assert_eq!(extract_age("7dw"), 7 * DAY);
    assert_eq!(extract_age("7x"), 7 * DAY);
    assert_eq!(extract_age("3,w"), 21 * DAY);
    assert_eq!(extract_age("7D"), 7 * DAY);
    assert_eq!(extract_age("2H"), 7200);
    assert_eq!(extract_age("about 7d"), 7 * DAY);
}

#[test]
fn age_without_a_number_is_none() {
    assert_eq!(extract_age("d"), 0);
    assert_eq!(extract_age("abc"), 0);
    assert_eq!(extract_age(".5d"), 5 * DAY);
    assert_eq!(extract_age("1.2.3d"), 0);
}

#[test]
fn age_stops_at_the_largest_number() {
    assert_eq!(extract_age("99999999999999999999999999y"), u64::MAX);
    assert_eq!(extract_age("18446744073709551615s"), u64::MAX);
    assert_eq!(extract_age("18446744073709551614.5s"), u64::MAX);
    assert_eq!(extract_age("000000000000000000000000000007d"), 7 * DAY);
}

#[test]
fn range_parts_and_suffix_letter() {
    assert_eq!(extract_string_parts("3-2w"), strings(&["3", "2w"]));
    assert_eq!(extract_string_parts("7d"), strings(&["7d"]));
    assert_eq!(extract_string_parts(""), strings(&[""]));
    assert_eq!(extract_string_parts("a-b-"), strings(&["a", "b", ""]));
    assert_eq!(extract_first_suffix_letter("2w"), 'w');
    assert_eq!(extract_first_suffix_letter("12 Hours"), 'h');
    assert_eq!(extract_first_suffix_letter("123"), '-');
    assert_eq!(extract_first_suffix_letter(""), '-');
}

#[test]
fn size_range_with_units() {
    assert_eq!(extract_sizes("10k,5m"), (10 * KIB, 5 * MIB));
    assert_eq!(extract_sizes("10k"), (10 * KIB, 0));
    assert_eq!(extract_sizes("5m,1k"), (5 * MIB, 0));
}

#[test]
fn size_range_edges() {
    assert_eq!(extract_sizes(""), (0, 0));
    assert_eq!(extract_sizes("   "), (0, 0));
    assert_eq!(extract_sizes("100"), (100, 0));
    assert_eq!(extract_sizes(",5m"), (0, 5 * MIB));
    assert_eq!(extract_sizes(" ,5m "), (0, 5 * MIB));
    assert_eq!(extract_sizes("10 20"), (10, 20));
    assert_eq!(extract_sizes("10K,5M"), (10 * KIB, 5 * MIB));
    assert_eq!(extract_sizes("1g,2g"), (GIB, 2 * GIB));
    assert_eq!(extract_sizes("5,5"), (5, 0));
    assert_eq!(extract_sizes("x"), (0, 0));
}

#[test]
fn size_range_unit_goes_to_the_bound_without_one() {
    assert_eq!(extract_sizes("1,2g"), (GIB, 2 * GIB));
    assert_eq!(extract_sizes("10,5m"), (10 * MIB, 0));
    assert_eq!(extract_sizes("1k,2"), (KIB, 2 * KIB));
    assert_eq!(extract_sizes("10 k"), (10, 0));
    assert_eq!(extract_sizes("10kb,20kb"), (10 * KIB, 20 * KIB));
}

#[test]
fn size_with_a_fraction_is_rounded_down() {
    assert_eq!(extract_sizes("1.5k"), (1536, 0));
    assert_eq!(extract_sizes("0.5"), (0, 0));
    assert_eq!(extract_sizes("0.0009765625k"), (1, 0));
    assert_eq!(extract_sizes("0.00097656249999999999999999999k"), (0, 0));
    assert_eq!(extract_sizes("1.2.3k"), (0, 0));
}

#[test]
fn size_stops_at_the_largest_number() {
    assert_eq!(extract_sizes("99999999999999999999999"), (u64::MAX, 0));
    assert_eq!(extract_sizes("18014398509481984k"), (u64::MAX, 0));
    assert_eq!(extract_sizes("18014398509481983k"), (18014398509481983 * KIB, 0));
}

#[test]
fn size_of_one_token() {
    let digits: Vec<char> = "12".chars().collect();
    assert_eq!(extract_size_val(&digits, 'k'), 12 * KIB);
    assert_eq!(extract_size_val(&digits, 'm'), 12 * MIB);
    assert_eq!(extract_size_val(&digits, 'g'), 12 * GIB);
    assert_eq!(extract_size_val(&digits, 'b'), 12);
    assert_eq!(extract_size_val(&digits, 'z'), 12);
    assert_eq!(extract_size_val(&Vec::new(), 'k'), 0);
    let bad: Vec<char> = "1e3".chars().collect();
    assert_eq!(extract_size_val(&bad, 'k'), 0);
    assert_eq!(unit_multiplier('k'), 1024);
    assert_eq!(unit_multiplier('?'), 1);
}

#[test]
fn decimal_times_factor() {
    let tok = |s: &str| s.chars().collect::<Vec<char>>();
    assert_eq!(scale_decimal(&tok("2.5"), 10), Some((25, true)));
    assert_eq!(scale_decimal(&tok("2.55"), 10), Some((25, false)));
    assert_eq!(scale_decimal(&tok("7"), 3), Some((21, true)));
    assert_eq!(scale_decimal(&tok("7."), 3), Some((21, true)));
    assert_eq!(scale_decimal(&tok("0.125"), 8), Some((1, true)));
    assert_eq!(scale_decimal(&tok("5"), 0), Some((0, true)));
    assert_eq!(scale_decimal(&tok(""), 3), None);
    assert_eq!(scale_decimal(&tok("."), 3), None);
    assert_eq!(scale_decimal(&tok("1.2.3"), 3), None);
    assert_eq!(scale_decimal(&tok("12a"), 3), None);
    assert_eq!(scale_decimal(&tok("18446744073709551616"), 1), Some((u64::MAX, true)));
}

#[test]
fn list_items_are_trimmed_and_not_empty() {
    assert_eq!(extract_from_list("jpg, png ,gif"), strings(&["jpg", "png", "gif"]));
    assert_eq!(extract_from_list(""), Vec::<String>::new());
    assert_eq!(extract_from_list(" , ,"), Vec::<String>::new());
    assert_eq!(extract_from_list("a,,b"), strings(&["a", "b"]));
    assert_eq!(extract_extensions("txt"), strings(&["txt"]));
    assert_eq!(extract_from_list("node_modules, /build/out"), strings(&["node_modules", "/build/out"]));
}

#[test]
fn extension_lists() {
    let list = strings(&["jpg", "png"]);
    assert!(is_in_extensions("jpg", &list));
    assert!(!is_in_extensions("gif", &list));
    assert!(!is_in_extensions("", &list));
    assert!(is_in_extensions("anything", &Vec::new()));
    assert!(is_not_in_extensions("gif", &list));
    assert!(!is_not_in_extensions("png", &list));
    assert!(is_not_in_extensions("png", &Vec::new()));
}

#[test]
fn underscore_stands_for_no_extension() {
    let list = strings(&["_", "txt"]);
    assert!(is_in_extensions("", &list));
    assert!(is_in_extensions("txt", &list));
    assert!(is_in_extensions("_", &list));
    assert!(!is_in_extensions("log", &list));
    assert!(!is_not_in_extensions("", &list));
}

#[test]
fn capitals_are_read_in_lower_case() {
    assert_eq!(extract_sizes("10K,5M"), (10 * KIB, 5 * MIB));
    assert_eq!(extract_sizes("1G"), (GIB, 0));
    assert_eq!(extract_sizes("10\u{212A}"), (10 * KIB, 0));
    assert_eq!(extract_age("2W"), 14 * DAY);
    assert_eq!(extract_age("1Y"), 31_557_600);
    assert_eq!(extract_first_suffix_letter("3 Weeks"), 'w');
    assert_eq!(extract_first_suffix_letter("\u{212A}"), 'k');
    assert_eq!(extract_first_suffix_letter("\u{c4}h"), 'h');
}

#[test]
fn text_in_lower_case_is_read_as_it_is() {
    assert_eq!(read_sizes("10k,5m"), (10 * KIB, 5 * MIB));
    assert_eq!(read_sizes("5K,10M"), (5, 10));
    assert_eq!(read_sizes("10\u{212A}"), (10, 0));
    assert_eq!(read_age("2w"), 14 * DAY);
    assert_eq!(read_age("2W"), 2 * DAY);
    assert_eq!(first_letter_of("12 Hours"), 'H');
    assert_eq!(first_letter_of("12 hours"), 'h');
    assert_eq!(first_letter_of("\u{e4}"), '-');
}
