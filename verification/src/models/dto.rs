//! Listing previews of posts.

use vstd::prelude::*;

use crate::datetime::UtcDateTime;
use crate::htmlify::{month_abbrev, monthify, spec_monthify};
use crate::models::blog_post::{BlogPost, preview_defined, spec_content_preview};
use crate::text::{
    push_char,
    push_signed_decimal,
    push_zero_padded2,
    decimal,
    signed_decimal,
    zero_padded2,
};

verus! {

/// A post as shown in a listing: its date in words and its rendered preview.
pub struct BlogPostPreview {
    pub id: i32,
    pub title: String,
    pub date_repr: String,
    pub preview: String,
    pub slug: String,
}

/// The month's name in a date, or "ERR" for a month past December.
pub open spec fn month_name_or_err(month: int) -> Seq<char> {
    match spec_monthify(month) {
        Some(name) => name,
        None => seq!['E', 'R', 'R'],
    }
}

/// "DD, Mon YYYY": the day padded to two digits, the month's abbreviation, the year.
pub open spec fn spec_date_repr(date: UtcDateTime) -> Seq<char> {
    zero_padded2(date.spec_day() as nat) + seq![',', ' '] + month_name_or_err(date.spec_month())
        + seq![' '] + signed_decimal(date.spec_year())
}

/// The date a listing shows: when the post was published, else when it was created.
pub open spec fn spec_listing_date(post: BlogPost) -> UtcDateTime {
    match post.published_at {
        Some(d) => d,
        None => post.created_at,
    }
}

/// The Markdown a listing previews: the body's preview, or nothing.
pub open spec fn spec_preview_markdown(post: BlogPost) -> Seq<char> {
    match spec_content_preview(post.body.deep_view()) {
        Some(p) => p,
        None => Seq::empty(),
    }
}

/// Writes `date` as "DD, Mon YYYY", e.g. "05, Jan 2021".
pub fn date_repr(date: &UtcDateTime) -> (s: String)
    ensures
        s@ == seq![
            ((date.spec_day() / 10) + 48) as char,
            ((date.spec_day() % 10) + 48) as char,
            ',',
            ' ',
        ] + month_abbrev(date.spec_month()) + seq![' '] + signed_decimal(date.spec_year()),
        s@ == spec_date_repr(*date),
{
    let mut out = String::new();
    push_zero_padded2(&mut out, date.day());
    proof {
        reveal_strlit(", ");
        reveal_strlit("ERR");
    }
    out.append(", ");
    let month: u32 = date.month();
    let name: String = match monthify(month as usize) {
        Some(name) => name,
        None => "ERR".to_owned(),
    };
    out.append(name.as_str());
    push_char(&mut out, ' ');
    push_signed_decimal(&mut out, date.year());
    assert(out@ =~= spec_date_repr(*date));
    proof {
        law_date_repr_shape(*date);
    }
    out
}

impl BlogPost {
    /// The date a listing shows for this post.
    pub fn listing_date(&self) -> (d: &UtcDateTime)
        ensures
            *d == match self.published_at {
                Some(p) => p,
                None => self.created_at,
            },
            *d == spec_listing_date(*self),
    {
        match &self.published_at {
            Some(d) => d,
            None => &self.created_at,
        }
    }

    /// The Markdown a listing renders as this post's preview: the body's
    /// preview, or the empty string when there is no body.
    pub fn preview_markdown(&self) -> (md: String)
        requires
            preview_defined(self.body.deep_view()),
        ensures
            md@ == spec_preview_markdown(*self),
    {
        match self.content_preview() {
            Some(p) => p,
            None => String::new(),
        }
    }
}

impl BlogPostPreview {
    /// The listing entry of `blog_post`, given `preview_html`, its
    /// `preview_markdown` rendered to HTML.
    pub fn from_rendered(blog_post: &BlogPost, preview_html: String) -> (p: BlogPostPreview)
        ensures
            p.id == blog_post.id,
            p.title@ == blog_post.title@,
            p.slug@ == blog_post.slug@,
            p.date_repr@ == spec_date_repr(
                match blog_post.published_at {
                    Some(d) => d,
                    None => blog_post.created_at,
                },
            ),
            p.date_repr@ == spec_date_repr(spec_listing_date(*blog_post)),
            p.preview@ == preview_html@,
    {
        BlogPostPreview {
            id: blog_post.id,
            title: blog_post.title.clone(),
            slug: blog_post.slug.clone(),
            date_repr: date_repr(blog_post.listing_date()),
            preview: preview_html,
        }
    }
}

/// "DD, Mon YYYY" for a day of 1..=31 and a month of 1..=12: the day is
/// always two characters, a '0' first only for days below 10, and its two
/// digits read back as the day; then ", ", the month's three letters, a
/// space and the year.
pub proof fn law_date_repr_shape(date: UtcDateTime)
    requires
        1 <= date.spec_day() <= 31,
        1 <= date.spec_month() <= 12,
    ensures
        spec_date_repr(date) == seq![
            ((date.spec_day() / 10) + 48) as char,
            ((date.spec_day() % 10) + 48) as char,
            ',',
            ' ',
        ] + month_abbrev(date.spec_month()) + seq![' '] + signed_decimal(date.spec_year()),
        (spec_date_repr(date)[0] as int - 48) * 10 + (spec_date_repr(date)[1] as int - 48)
            == date.spec_day(),
        (spec_date_repr(date)[0] == '0') == (date.spec_day() < 10),
        spec_date_repr(date)[2] == ',',
{
    let day = date.spec_day();
    let n = day as nat;
    let head = zero_padded2(n);
    if n < 10 {
        assert(decimal(n) =~= seq![((n % 10) + 48) as char]);
        assert(head =~= seq![((day / 10) + 48) as char, ((day % 10) + 48) as char]);
    } else {
        assert(decimal(n / 10) =~= seq![((n / 10) + 48) as char]);
        assert(decimal(n) =~= seq![((n / 10) + 48) as char, ((n % 10) + 48) as char]);
        assert(head =~= seq![((day / 10) + 48) as char, ((day % 10) + 48) as char]);
    }
    assert(month_name_or_err(date.spec_month()) == month_abbrev(date.spec_month()));
    let r = spec_date_repr(date);
    assert(r =~= seq![
        ((day / 10) + 48) as char,
        ((day % 10) + 48) as char,
        ',',
        ' ',
    ] + month_abbrev(date.spec_month()) + seq![' '] + signed_decimal(date.spec_year()));
    assert(r[0] == ((day / 10) + 48) as char);
    assert(r[1] == ((day % 10) + 48) as char);
}

/// The date a listing shows is the publication date when there is one, else
/// the creation date; when the post was last updated plays no part, so two
/// posts that differ only in that get the same date in a listing.
pub proof fn law_listing_date_ignores_updates(a: BlogPost, b: BlogPost)
    requires
        a.published_at == b.published_at,
        a.created_at == b.created_at,
    ensures
        spec_listing_date(a) == spec_listing_date(b),
        spec_date_repr(spec_listing_date(a)) == spec_date_repr(spec_listing_date(b)),
        spec_listing_date(a) == match a.published_at {
            Some(d) => d,
            None => a.created_at,
        },
{
}

} // verus!
