//! Blog listing pages and post lookups.

use vstd::prelude::*;

use super::{HttpStatus, PaginatorPage};
use crate::text::{decimal, digit_char, signed_decimal};

verus! {

/// Posts per listing page.
pub const PAGINATE_BY: i64 = 5;

/// The rows a listing page reads: skip `offset` posts, take `limit`.
#[derive(Clone, Copy, Debug, PartialEq, Eq)]
pub struct PageWindow {
    pub offset: i64,
    pub limit: i64,
}

/// The number of posts before page `page`.
pub open spec fn spec_page_offset(page: int) -> int {
    PAGINATE_BY * (page - 1)
}

/// Number of listing pages for `count` posts: enough pages of `PAGINATE_BY`
/// to hold them all, and at least one.
pub open spec fn spec_total_pages(count: int) -> int {
    if count <= 0 {
        1
    } else {
        (count + PAGINATE_BY - 1) / PAGINATE_BY as int
    }
}

/// The inputs on which the offset of page `page` can be computed in `i64`.
pub open spec fn page_offset_fits(page: int) -> bool {
    PAGINATE_BY * (page - 1) <= i64::MAX
}

/// Answers a listing request for page `page` before anything is read:
/// pages are numbered from 1, anything else is not found.
pub fn check_page(page: i64) -> (res: Result<(), HttpStatus>)
    ensures
        res is Ok <==> page > 0,
        res is Err ==> res == Err::<(), HttpStatus>(HttpStatus::NotFound),
{
    if page <= 0 {
        return Err(HttpStatus::NotFound);
    }
    Ok(())
}

/// Once the number of posts is known: a page past `count` is not found,
/// otherwise the page reads `PAGINATE_BY` posts after those of the pages before it.
pub fn page_window(page: i64, count: i64) -> (res: Result<PageWindow, HttpStatus>)
    requires
        page > 0,
        page <= count ==> page_offset_fits(page as int),
    ensures
        res is Err <==> page > count,
        res is Err ==> res == Err::<PageWindow, HttpStatus>(HttpStatus::NotFound),
        res matches Ok(w) ==> w.offset == spec_page_offset(page as int) && w.limit == PAGINATE_BY,
{
    if page > count {
        return Err(HttpStatus::NotFound);
    }
    Ok(PageWindow { offset: PAGINATE_BY * (page - 1), limit: PAGINATE_BY })
}

/// Number of listing pages for `count` posts (at least one).
pub fn total_pages(count: i64) -> (pages: i64)
    ensures
        pages == spec_total_pages(count as int),
{
    if count <= 0 {
        return 1;
    }
    let whole: i64 = count / PAGINATE_BY;
    if count % PAGINATE_BY == 0 {
        whole
    } else {
        whole + 1
    }
}

/// Page `page` of a listing of `count` posts, holding `objects`.
pub fn paginate<T>(page: i64, count: i64, objects: Vec<T>) -> (p: PaginatorPage<T>)
    requires
        1 <= page <= count,
        page_offset_fits(page as int),
    ensures
        p.index == page,
        p.total_pages == spec_total_pages(count as int),
        p.has_next == (spec_total_pages(count as int) > page),
        p.next_index == page + 1,
        p.has_prev == (page > 1),
        p.prev_index == page - 1,
        p.objects@ == objects@,
{
    let pages = total_pages(count);
    let pages = if pages > 0 {
        pages
    } else {
        1
    };
    PaginatorPage {
        index: page,
        has_next: pages > page,
        next_index: page + 1,
        has_prev: page > 1,
        prev_index: page - 1,
        total_pages: pages,
        objects,
    }
}

/// Of `count` posts, page `page` starts on a post exactly when it is one of
/// the `total_pages` pages; and each page starts where the one before it ends.
pub proof fn lemma_pages_hold_the_posts(count: int, page: int)
    requires
        count >= 1,
        page >= 1,
    ensures
        spec_page_offset(page) < count <==> page <= spec_total_pages(count),
        spec_page_offset(page + 1) == spec_page_offset(page) + PAGINATE_BY,
{
    let t = spec_total_pages(count);
    assert(t == (count + 4) / 5);
    assert(5 * (t - 1) < count <= 5 * t) by (nonlinear_arith)
        requires
            t == (count + 4) / 5,
            count >= 1,
    ;
}

/// What a post path segment names: a post id when the segment reads as an
/// `i32`, otherwise a slug.
#[derive(Debug)]
pub enum PostRef {
    Id(i32),
    Slug(String),
}

pub open spec fn is_ascii_digit(c: char) -> bool {
    '0' <= c <= '9'
}

/// The value of a string of decimal digits.
pub open spec fn digits_value(digits: Seq<char>) -> int
    decreases digits.len(),
{
    if digits.len() == 0 {
        0
    } else {
        digits_value(digits.drop_last()) * 10 + (digits.last() as int - 48)
    }
}

/// `s` without its leading sign, if it has one.
pub open spec fn unsigned_part(s: Seq<char>) -> Seq<char> {
    if s.len() > 0 && (s[0] == '-' || s[0] == '+') {
        s.drop_first()
    } else {
        s
    }
}

/// Whether every character of `s` is an ASCII digit.
pub open spec fn all_ascii_digits(s: Seq<char>) -> bool {
    forall|i: int| 0 <= i < s.len() ==> is_ascii_digit(#[trigger] s[i])
}

/// How `str::parse::<i32>` reads `s`: an optional `+` or `-`, then one or
/// more ASCII digits, and the value must fit in `i32`; anything else fails.
pub open spec fn spec_parse_i32(s: Seq<char>) -> Option<i32> {
    let negative = s.len() > 0 && s[0] == '-';
    let digits = unsigned_part(s);
    let magnitude = digits_value(digits);
    let value = if negative {
        -magnitude
    } else {
        magnitude
    };
    if digits.len() == 0 || !all_ascii_digits(digits) {
        None
    } else if i32::MIN <= value <= i32::MAX {
        Some(value as i32)
    } else {
        None
    }
}

/// The post a path segment names.
pub open spec fn spec_post_ref(s: Seq<char>) -> PostRefView {
    match spec_parse_i32(s) {
        Some(id) => PostRefView::Id(id),
        None => PostRefView::Slug(s),
    }
}

/// `PostRef` as a value of the proofs, the slug as its characters.
pub ghost enum PostRefView {
    Id(i32),
    Slug(Seq<char>),
}

impl View for PostRef {
    type V = PostRefView;

    open spec fn view(&self) -> PostRefView {
        match self {
            PostRef::Id(id) => PostRefView::Id(*id),
            PostRef::Slug(s) => PostRefView::Slug(s@),
        }
    }
}

/// Reads `s` as an `i32` the way `str::parse::<i32>` does.
pub fn parse_i32(s: &str) -> (res: Option<i32>)
    ensures
        res == spec_parse_i32(s@),
{
    let n = s.unicode_len();
    if n == 0 {
        return None;
    }
    let first = s.get_char(0);
    let negative: bool = first == '-';
    let start: usize = if first == '-' || first == '+' {
        1
    } else {
        0
    };
    if start == n {
        return None;
    }
    let ghost digits = unsigned_part(s@);
    // magnitude of the digits read so far, while it stays at most 2^31
    let mut magnitude: i64 = 0;
    let mut too_large: bool = false;
    let mut i: usize = start;
    while i < n
        invariant
            n == s@.len(),
            start <= i <= n,
            start == 0 || start == 1,
            digits == s@.subrange(start as int, n as int),
            digits == unsigned_part(s@),
            negative == (s@[0] == '-'),
            forall|j: int| 0 <= j < i - start ==> is_ascii_digit(#[trigger] digits[j]),
            !too_large ==> magnitude == digits_value(digits.take(i - start)),
            !too_large ==> 0 <= magnitude <= 0x8000_0000,
            too_large ==> digits_value(digits.take(i - start)) > 0x8000_0000,
        decreases n - i,
    {
        let c = s.get_char(i);
        if !('0' <= c && c <= '9') {
            assert(digits[i - start] == c);
            assert(!is_ascii_digit(digits[i - start]));
            assert(digits.len() > 0);
            return None;
        }
        let d: i64 = (c as u32 - 48) as i64;
        assert(digits.take(i - start + 1).drop_last() =~= digits.take(i - start));
        assert(digits.take(i - start + 1).last() == c);
        if !too_large {
            let next: i64 = magnitude * 10 + d;
            if next > 0x8000_0000 {
                too_large = true;
            } else {
                magnitude = next;
            }
        } else {
            assert(digits_value(digits.take(i - start + 1)) > 0x8000_0000) by (nonlinear_arith)
                requires
                    digits_value(digits.take(i - start + 1)) == digits_value(digits.take(i - start)) * 10 + d,
                    digits_value(digits.take(i - start)) > 0x8000_0000,
                    0 <= d <= 9,
            ;
        }
        i = i + 1;
    }
    assert(digits.take(n - start) =~= digits);
    if too_large {
        return None;
    }
    if negative {
        Some((-magnitude) as i32)
    } else if magnitude <= 0x7fff_ffff {
        Some(magnitude as i32)
    } else {
        None
    }
}

impl PostRef {
    /// Reads a path segment: a post id when it parses as an `i32`, else a slug.
    pub fn from_id_or_slug(id_or_slug: String) -> (r: PostRef)
        ensures
            spec_parse_i32(id_or_slug@) matches Some(i) ==> r@ == PostRefView::Id(i),
            spec_parse_i32(id_or_slug@) is None ==> r@ == PostRefView::Slug(id_or_slug@),
            r@ == spec_post_ref(id_or_slug@),
    {
        match parse_i32(id_or_slug.as_str()) {
            Some(i) => PostRef::Id(i),
            None => PostRef::Slug(id_or_slug),
        }
    }
}

/// The decimal digits of `n` are ASCII digits worth `n`.
proof fn lemma_decimal_digits(n: nat)
    ensures
        decimal(n).len() > 0,
        all_ascii_digits(decimal(n)),
        digits_value(decimal(n)) == n,
    decreases n,
{
    assert(digit_char((n % 10) as int) as int == (n % 10) + 48);
    if n < 10 {
        assert(decimal(n).drop_last() =~= Seq::<char>::empty());
        assert(digits_value(Seq::<char>::empty()) == 0);
        assert(decimal(n).last() == digit_char(n as int));
        assert(digits_value(decimal(n)) == digits_value(decimal(n).drop_last()) * 10 + (
        decimal(n).last() as int - 48));
    } else {
        lemma_decimal_digits(n / 10);
        let d = decimal(n);
        assert(d.drop_last() =~= decimal(n / 10));
        assert(d.last() == digit_char((n % 10) as int));
        assert(digits_value(d) == digits_value(d.drop_last()) * 10 + (d.last() as int - 48));
        assert(n == (n / 10) * 10 + n % 10);
        assert forall|i: int| 0 <= i < d.len() implies is_ascii_digit(#[trigger] d[i]) by {
            if i < d.len() - 1 {
                assert(d[i] == decimal(n / 10)[i]);
            }
        }
    }
}

/// A post id written in decimal, as in a post's path, is read back as that
/// id and never taken for a slug.
pub proof fn lemma_id_round_trip(id: i32)
    ensures
        spec_parse_i32(signed_decimal(id as int)) == Some(id),
        spec_post_ref(signed_decimal(id as int)) == PostRefView::Id(id),
{
    let s = signed_decimal(id as int);
    if id < 0 {
        let m = (-id) as nat;
        lemma_decimal_digits(m);
        assert(s.drop_first() =~= decimal(m));
        assert(unsigned_part(s) == decimal(m));
    } else {
        lemma_decimal_digits(id as nat);
        assert(is_ascii_digit(s[0]));
        assert(unsigned_part(s) == s);
    }
}

/// A segment names a post id only when the whole of it is an integer: an
/// optional sign first, then nothing but the digits '0'..='9' (at least one).
pub proof fn law_id_segment_is_all_digits(s: Seq<char>)
    requires
        spec_parse_i32(s) is Some,
    ensures
        s.len() > 0,
        spec_post_ref(s) == PostRefView::Id(spec_parse_i32(s)->0),
        forall|i: int| 1 <= i < s.len() ==> '0' <= #[trigger] s[i] && s[i] <= '9',
        '0' <= s[0] && s[0] <= '9' || ((s[0] == '-' || s[0] == '+') && s.len() > 1),
{
    let digits = unsigned_part(s);
    if s[0] == '-' || s[0] == '+' {
        assert forall|i: int| 1 <= i < s.len() implies '0' <= #[trigger] s[i] && s[i] <= '9' by {
            assert(s[i] == digits[i - 1]);
            assert(is_ascii_digit(digits[i - 1]));
        }
    } else {
        assert(is_ascii_digit(digits[0]));
        assert forall|i: int| 1 <= i < s.len() implies '0' <= #[trigger] s[i] && s[i] <= '9' by {
            assert(is_ascii_digit(digits[i]));
        }
    }
}

/// A segment with any character other than '0'..='9' after its first one,
/// such as "2021-recap", names the post with that slug, never a post id,
/// whatever digits it starts with.
pub proof fn law_segment_with_non_digit_is_slug(s: Seq<char>, i: int)
    requires
        1 <= i < s.len(),
        !('0' <= s[i] && s[i] <= '9'),
    ensures
        spec_parse_i32(s) is None,
        spec_post_ref(s) == PostRefView::Slug(s),
{
    if spec_parse_i32(s) is Some {
        law_id_segment_is_all_digits(s);
        assert('0' <= s[i] && s[i] <= '9');
    }
}

} // verus!
