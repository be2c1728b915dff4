use dnguyen_blog::error::DBError;
use dnguyen_blog::routes::blog::{
    check_page, page_window, paginate, parse_i32, total_pages, PageWindow, PostRef,
};
use dnguyen_blog::routes::tipjar::intent_id_from_client_secret;
use dnguyen_blog::routes::HttpStatus;

#[test]
fn pages_start_at_one() {
    assert_eq!(Err(HttpStatus::NotFound), check_page(0));
    assert_eq!(Err(HttpStatus::NotFound), check_page(-3));
    assert_eq!(Ok(()), check_page(1));
}

#[test]
fn page_window_reads_five_posts() {
    assert_eq!(Ok(PageWindow { offset: 0, limit: 5 }), page_window(1, 12));
    assert_eq!(Ok(PageWindow { offset: 10, limit: 5 }), page_window(3, 12));
    assert_eq!(Err(HttpStatus::NotFound), page_window(13, 12));
    assert_eq!(Err(HttpStatus::NotFound), page_window(1, -1));
}

#[test]
fn page_count_rounds_up() {
    assert_eq!(1, total_pages(-1));
    assert_eq!(1, total_pages(0));
    assert_eq!(1, total_pages(5));
    assert_eq!(2, total_pages(6));
    assert_eq!(3, total_pages(12));
    assert_eq!(i64::MAX / 5 + 1, total_pages(i64::MAX));
}

#[test]
fn paginator_links() {
    let p = paginate(2, 12, vec!["a", "b"]);
    assert_eq!(2, p.index);
    assert!(p.has_next);
    assert_eq!(3, p.next_index);
    assert!(p.has_prev);
    assert_eq!(1, p.prev_index);
    assert_eq!(3, p.total_pages);
    assert_eq!(vec!["a", "b"], p.objects);

    let last = paginate(3, 12, vec!["c"]);
    assert!(!last.has_next);
    let first = paginate(1, 3, Vec::<u8>::new());
    assert!(!first.has_prev);
    assert!(!first.has_next);
    assert_eq!(1, first.total_pages);
}

#[test]
fn pages_past_the_last_but_within_count_are_empty_pages() {
    // 6 posts make 2 pages, yet page 3 is accepted because 3 <= 6.
    assert_eq!(Ok(PageWindow { offset: 10, limit: 5 }), page_window(3, 6));
    let p = paginate(3, 6, Vec::<u8>::new());
    assert!(!p.has_next);
    assert_eq!(2, p.total_pages);
}

fn id_of(s: &str) -> Option<i32> {
    match PostRef::from_id_or_slug(s.to_string()) {
        PostRef::Id(i) => Some(i),
        PostRef::Slug(slug) => {
            assert_eq!(s, slug);
            None
        }
    }
}

#[test]
fn numeric_segments_name_ids() {
    assert_eq!(Some(42), id_of("42"));
    assert_eq!(Some(-7), id_of("-7"));
    assert_eq!(Some(5), id_of("+5"));
    assert_eq!(Some(7), id_of("007"));
    assert_eq!(Some(i32::MAX), id_of("2147483647"));
    assert_eq!(Some(i32::MIN), id_of("-2147483648"));
}

#[test]
fn other_segments_name_slugs() {
    assert_eq!(None, id_of("hello-world"));
    assert_eq!(None, id_of("2147483648"));
    assert_eq!(None, id_of("-2147483649"));
    assert_eq!(None, id_of(""));
    assert_eq!(None, id_of("+"));
    assert_eq!(None, id_of("-"));
    assert_eq!(None, id_of("12a"));
    assert_eq!(None, id_of(" 12"));
    assert_eq!(None, id_of("٣"));
    assert_eq!(None, id_of("99999999999999999999999"));
}

#[test]
fn parse_agrees_with_std() {
    for s in ["0", "-0", "+0", "123", "-123", "1e3", "2147483647", "2147483648", "--1", "+-1", "1 "] {
        assert_eq!(s.parse::<i32>().ok(), parse_i32(s));
    }
}

#[test]
fn ids_round_trip_through_decimal() {
    for id in [0, 1, -1, 2021, i32::MAX, i32::MIN] {
        assert_eq!(Some(id), id_of(&id.to_string()));
    }
}

#[test]
fn intent_id_is_first_two_parts() {
    assert_eq!("pi_123", intent_id_from_client_secret("pi_123_secret_456"));
    assert_eq!("pi_123", intent_id_from_client_secret("pi_123"));
    assert_eq!("_x", intent_id_from_client_secret("_x_y"));
    assert_eq!("a_", intent_id_from_client_secret("a__b"));
}

#[test]
fn statuses() {
    assert_eq!(404, HttpStatus::NotFound.code());
    assert_eq!(400, HttpStatus::BadRequest.code());
    assert_eq!(HttpStatus::BadRequest, DBError.status());
    assert_eq!("DBError.", DBError.describe());
}
