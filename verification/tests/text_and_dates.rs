use std::cmp::Ordering;

use gekijou::api_calls::{anilist_to_snake_case, ceiling_div, id_pages, list_statuses, score_format_text};
use gekijou::dates::order_of_dates;
use gekijou::text::{after_last_char, parse_i32, replace_str};
use gekijou::user_data::Date;

#[test]
fn parse_i32_reads_signed_numbers() {
    assert_eq!(parse_i32("42"), Some(42));
    assert_eq!(parse_i32("-17"), Some(-17));
    assert_eq!(parse_i32("+8"), Some(8));
    assert_eq!(parse_i32("2147483647"), Some(i32::MAX));
    assert_eq!(parse_i32("-2147483648"), Some(i32::MIN));
}

#[test]
fn parse_i32_refuses_what_str_parse_refuses() {
    assert_eq!(parse_i32(""), None);
    assert_eq!(parse_i32("-"), None);
    assert_eq!(parse_i32("12a"), None);
    assert_eq!(parse_i32("2147483648"), None);
    assert_eq!(parse_i32(" 1"), None);
}

#[test]
fn replace_str_replaces_every_occurrence() {
    assert_eq!(replace_str("a b c", " ", "+"), "a+b+c");
    assert_eq!(replace_str("aaa", "aa", "b"), "ba");
    assert_eq!(replace_str("abc", "x", "y"), "abc");
    assert_eq!(replace_str("abc", "", ""), "abc");
}

#[test]
fn after_last_char_takes_the_file_name() {
    assert_eq!(after_last_char("C:\\anime\\show\\ep01.mkv", '\\'), "ep01.mkv");
    assert_eq!(after_last_char("ep01.mkv", '\\'), "ep01.mkv");
    assert_eq!(after_last_char("dir\\", '\\'), "");
}

#[test]
fn ceiling_div_rounds_up() {
    assert_eq!(ceiling_div(10, 5), 2);
    assert_eq!(ceiling_div(11, 5), 3);
    assert_eq!(ceiling_div(0, 7), 0);
    assert_eq!(ceiling_div(1, 1), 1);
}

#[test]
fn id_pages_cover_the_ids_in_order() {
    let ids: Vec<i32> = (1..=120).collect();
    let pages = id_pages(&ids);
    assert_eq!(pages.len(), 3);
    assert_eq!(pages[0].len(), 50);
    assert_eq!(pages[1].len(), 50);
    assert_eq!(pages[2].len(), 20);
    let joined: Vec<i32> = pages.into_iter().flatten().collect();
    assert_eq!(joined, ids);
    assert!(id_pages(&Vec::new()).is_empty());
}

#[test]
fn snake_case_of_anilist_fields() {
    let out = anilist_to_snake_case(String::from("{\"averageScore\":80,\"coverImage\":{},\"seasonYear\":2020}"));
    assert!(out.contains("\"average_score\":80"));
    assert!(out.contains("\"cover_image\""));
    assert!(out.contains("\"season_year\":2020"));
    assert!(!out.contains("averageScore"));
}

#[test]
fn watching_list_also_asks_for_rewatching() {
    assert_eq!(list_statuses("CURRENT"), vec![String::from("CURRENT"), String::from("REPEATING")]);
    assert_eq!(list_statuses("COMPLETED"), vec![String::from("COMPLETED")]);
}

#[test]
fn score_format_text_strips_the_answer() {
    assert_eq!(score_format_text("\"POINT_10\""), "POINT_10");
    assert_eq!(score_format_text("POINT_100"), "POINT_100");
}

#[test]
fn dates_order_by_year_then_month_then_day() {
    assert_eq!(order_of_dates(Some(2020), Some(1), Some(1), Some(2021), Some(1), Some(1)), Ordering::Less);
    assert_eq!(order_of_dates(Some(2021), Some(5), Some(1), Some(2021), Some(4), Some(30)), Ordering::Greater);
    assert_eq!(order_of_dates(Some(2021), Some(5), Some(3), Some(2021), Some(5), Some(3)), Ordering::Equal);
    assert_eq!(order_of_dates(None, None, None, Some(1990), None, None), Ordering::Less);
    assert_eq!(order_of_dates(Some(1990), None, None, None, None, None), Ordering::Greater);
}

#[test]
fn known_month_against_unknown_decides_nothing() {
    // a month on the left against none on the right moves on to the day
    assert_eq!(order_of_dates(Some(2020), Some(3), None, Some(2020), None, None), Ordering::Equal);
    assert_eq!(order_of_dates(Some(2020), None, None, Some(2020), Some(3), None), Ordering::Less);
}

#[test]
fn date_cmp_matches_date_order() {
    let a = Date { year: Some(2019), month: Some(4), day: Some(9) };
    let b = Date { year: Some(2019), month: Some(4), day: Some(10) };
    assert_eq!(a.cmp(&b), Ordering::Less);
    assert_eq!(b.partial_cmp(&a), Some(Ordering::Greater));
    assert_eq!(a.cmp(&a), Ordering::Equal);
    let blank = Date::new();
    assert_eq!(blank.cmp(&a), Ordering::Less);
}

#[test]
fn dates_knowing_different_parts_can_each_sort_first() {
    // swapping these two dates does not flip their order
    assert_eq!(order_of_dates(Some(2020), None, Some(1), Some(2020), Some(3), None), Ordering::Less);
    assert_eq!(order_of_dates(Some(2020), Some(3), None, Some(2020), None, Some(1)), Ordering::Less);
    // where the years differ it always flips
    assert_eq!(order_of_dates(Some(2019), Some(3), None, Some(2020), None, Some(1)), Ordering::Less);
    assert_eq!(order_of_dates(Some(2020), None, Some(1), Some(2019), Some(3), None), Ordering::Greater);
}
