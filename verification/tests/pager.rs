use dios3::bucket_form::{
    blank, bucket_form_result, check_bucket_form, white_space, BucketFormError,
};
use dios3::pager::{has_next_page, last_page, page_count, page_window, shown_range};

#[test]
fn shown_range_counts_entries_from_one() {
    assert_eq!(shown_range(0, 20, 45), (1, 20));
    assert_eq!(shown_range(1, 20, 45), (21, 40));
    assert_eq!(shown_range(2, 20, 45), (41, 45));
}

#[test]
fn shown_range_of_an_empty_table_is_zero() {
    assert_eq!(shown_range(0, 20, 0), (0, 0));
    assert_eq!(shown_range(5, 20, 0), (0, 0));
}

#[test]
fn shown_range_with_pages_of_no_entries() {
    assert_eq!(shown_range(3, 0, 10), (1, 0));
    assert_eq!(shown_range(usize::MAX, 0, 10), (1, 0));
}

#[test]
fn shown_range_ends_at_the_total_where_the_page_would_go_past_it() {
    assert_eq!(shown_range(0, usize::MAX, 10), (1, 10));
    assert_eq!(shown_range(1, usize::MAX / 2, 10), (usize::MAX / 2 + 1, 10));
}

#[test]
fn last_page_is_counted_from_zero() {
    assert_eq!(last_page(0, 10), 0);
    assert_eq!(last_page(1, 10), 0);
    assert_eq!(last_page(10, 10), 0);
    assert_eq!(last_page(11, 10), 1);
    assert_eq!(last_page(25, 10), 2);
}

#[test]
fn page_count_is_at_least_one() {
    assert_eq!(page_count(0, 10), 1);
    assert_eq!(page_count(1, 10), 1);
    assert_eq!(page_count(10, 10), 1);
    assert_eq!(page_count(11, 10), 2);
    assert_eq!(page_count(25, 10), 3);
    assert_eq!(page_count(usize::MAX, 1), usize::MAX);
}

#[test]
fn page_count_agrees_with_rounding_up() {
    for total in 0usize..60 {
        for size in 1usize..9 {
            let expected = ((total as f64 / size as f64).ceil() as usize).max(1);
            assert_eq!(page_count(total, size), expected);
        }
    }
}

#[test]
fn next_page_exists_before_the_last() {
    assert!(has_next_page(0, 25, 10));
    assert!(has_next_page(1, 25, 10));
    assert!(!has_next_page(2, 25, 10));
    assert!(!has_next_page(0, 0, 10));
}

#[test]
fn few_pages_are_all_visible() {
    assert_eq!(page_window(0, 1), (0, 1));
    assert_eq!(page_window(3, 7), (0, 7));
    assert_eq!(page_window(0, 0), (0, 0));
}

#[test]
fn many_pages_show_seven_around_the_current_one() {
    assert_eq!(page_window(0, 20), (0, 7));
    assert_eq!(page_window(2, 20), (0, 7));
    assert_eq!(page_window(3, 20), (0, 7));
    assert_eq!(page_window(4, 20), (1, 8));
    assert_eq!(page_window(10, 20), (7, 14));
    assert_eq!(page_window(16, 20), (13, 20));
    assert_eq!(page_window(17, 20), (13, 20));
    assert_eq!(page_window(19, 20), (13, 20));
    assert_eq!(page_window(usize::MAX, 8), (1, 8));
}

#[test]
fn form_asks_for_the_name_first() {
    assert_eq!(check_bucket_form("", ""), Err(BucketFormError::NameRequired));
    assert_eq!(check_bucket_form("   ", "eu-west-1"), Err(BucketFormError::NameRequired));
    assert_eq!(check_bucket_form("\t\n", ""), Err(BucketFormError::NameRequired));
}

#[test]
fn form_asks_for_the_region_second() {
    assert_eq!(check_bucket_form("demo", ""), Err(BucketFormError::RegionRequired));
    assert_eq!(check_bucket_form("demo", " \u{3000} "), Err(BucketFormError::RegionRequired));
}

#[test]
fn form_with_name_and_region_is_accepted() {
    assert_eq!(check_bucket_form("demo", "eu-west-1"), Ok(()));
    assert_eq!(check_bucket_form(" demo ", " eu-west-1 "), Ok(()));
}

#[test]
fn form_messages_are_shown_as_they_are() {
    assert_eq!(BucketFormError::NameRequired.message(), "Bucket name is required");
    assert_eq!(BucketFormError::RegionRequired.message(), "Region is required");
}

#[test]
fn form_outcome_follows_what_is_blank() {
    assert_eq!(bucket_form_result(true, true), Err(BucketFormError::NameRequired));
    assert_eq!(bucket_form_result(true, false), Err(BucketFormError::NameRequired));
    assert_eq!(bucket_form_result(false, true), Err(BucketFormError::RegionRequired));
    assert_eq!(bucket_form_result(false, false), Ok(()));
}

#[test]
fn blank_text_is_white_space_alone() {
    assert!(blank(""));
    assert!(blank(" \t\r\n"));
    assert!(blank("\u{a0}\u{2003}"));
    assert!(!blank(" a "));
    assert!(!blank("_"));
    for text in ["", " ", "x", " x", "\u{85}", "\u{200b}", "a b"] {
        assert_eq!(blank(text), text.trim().is_empty());
    }
}

#[test]
fn page_count_of_pages_without_entries() {
    assert_eq!(page_count(0, 0), 1);
    assert_eq!(page_count(1, 0), usize::MAX);
    assert_eq!(page_count(25, 0), usize::MAX);
    for total in 0usize..5 {
        let expected = ((total as f64 / 0 as f64).ceil() as usize).max(1);
        assert_eq!(page_count(total, 0), expected);
    }
}

#[test]
fn white_space_is_what_the_standard_library_counts_as_such() {
    for code in 0u32..=0x10ffff {
        if let Some(c) = char::from_u32(code) {
            assert_eq!(white_space(c), c.is_whitespace(), "for the character {:?}", c);
        }
    }
}

#[test]
fn white_space_holds_the_common_blanks() {
    for c in [' ', '\t', '\n', '\r', '\u{b}', '\u{c}', '\u{85}', '\u{a0}', '\u{3000}'] {
        assert!(white_space(c));
    }
    for c in ['a', '_', '\u{8}', '\u{e}', '\u{200b}', '\u{180e}', '\u{feff}'] {
        assert!(!white_space(c));
    }
}
