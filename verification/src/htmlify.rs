//! Markdown rendering and month names.

use vstd::prelude::*;

verus! {

/// Bit of `pulldown_cmark::Options::ENABLE_TABLES` (1 << 1): GitHub-style tables.
pub const ENABLE_TABLES: u32 = 2;

/// Bit of `pulldown_cmark::Options::ENABLE_STRIKETHROUGH` (1 << 3): `~~text~~`.
pub const ENABLE_STRIKETHROUGH: u32 = 8;

/// The Markdown extensions the blog renders with: tables and strikethrough.
pub open spec fn blog_markdown_options() -> u32 {
    ENABLE_TABLES | ENABLE_STRIKETHROUGH
}

/// The HTML that pulldown-cmark renders for `markdown` with the options whose
/// bits are set in `options`.
pub uninterp spec fn commonmark_html(markdown: Seq<char>, options: u32) -> Seq<char>;

/// The HTML that ammonia's default cleaner keeps of `html`.
pub uninterp spec fn ammonia_clean(html: Seq<char>) -> Seq<char>;

/// Renders Markdown to HTML with pulldown-cmark: `Options::from_bits_truncate`
/// turns the bits into options, `Parser::new_ext` reads the text into events,
/// `html::push_html` appends their HTML to a fresh string. The contract only
/// names the result; it depends on nothing but the text and the options.
#[verifier::external_body]
fn markdown_to_html(markdown: &str, options: u32) -> (html: String)
    ensures
        html@ == commonmark_html(markdown@, options),
{
    let parser = pulldown_cmark::Parser::new_ext(
        markdown,
        pulldown_cmark::Options::from_bits_truncate(options),
    );
    let mut html = String::new();
    pulldown_cmark::html::push_html(&mut html, parser);
    html
}

/// Sanitizes HTML with `ammonia::clean` (ammonia's default builder: a fixed
/// allow-list of tags and attributes, scripts and comments removed, links
/// marked `noopener noreferrer`). The contract only names the result; it
/// depends on nothing but the input.
#[verifier::external_body]
fn sanitize_html(html: &str) -> (clean: String)
    ensures
        clean@ == ammonia_clean(html@),
{
    ammonia::clean(html)
}

/// What `transcribe` gives for `markdown`.
pub open spec fn spec_transcribe(markdown: Seq<char>) -> Seq<char> {
    ammonia_clean(commonmark_html(markdown, blog_markdown_options()))
}

/// Takes a string formatted in Markdown and returns it as sanitized HTML:
/// the whole text rendered with tables and strikethrough enabled (and no
/// other extension), then cleaned.
pub fn transcribe(markdown: &str) -> (html: String)
    ensures
        html@ == ammonia_clean(commonmark_html(markdown@, ENABLE_TABLES | ENABLE_STRIKETHROUGH)),
        html@ == spec_transcribe(markdown@),
{
    let options: u32 = ENABLE_TABLES | ENABLE_STRIKETHROUGH;
    let out = markdown_to_html(markdown, options);
    sanitize_html(out.as_str())
}

/// What `transcribe` gives is the sanitized rendering of the entire text,
/// with exactly the table and strikethrough extensions switched on.
pub proof fn law_transcribe_renders_whole_text(markdown: Seq<char>)
    ensures
        spec_transcribe(markdown) == ammonia_clean(
            commonmark_html(markdown, ENABLE_TABLES | ENABLE_STRIKETHROUGH),
        ),
        ENABLE_TABLES | ENABLE_STRIKETHROUGH == 10,
{
    assert(2u32 | 8u32 == 10u32) by (bit_vector);
}

/// The abbreviated English name of month `m` (1 = January).
pub open spec fn month_abbrev(m: int) -> Seq<char> {
    if m == 1 {
        seq!['J', 'a', 'n']
    } else if m == 2 {
        seq!['F', 'e', 'b']
    } else if m == 3 {
        seq!['M', 'a', 'r']
    } else if m == 4 {
        seq!['A', 'p', 'r']
    } else if m == 5 {
        seq!['M', 'a', 'y']
    } else if m == 6 {
        seq!['J', 'u', 'n']
    } else if m == 7 {
        seq!['J', 'u', 'l']
    } else if m == 8 {
        seq!['A', 'u', 'g']
    } else if m == 9 {
        seq!['S', 'e', 'p']
    } else if m == 10 {
        seq!['O', 'c', 't']
    } else if m == 11 {
        seq!['N', 'o', 'v']
    } else {
        seq!['D', 'e', 'c']
    }
}

/// What `monthify(num)` gives: the month's abbreviation for 1..=12, nothing above.
pub open spec fn spec_monthify(num: int) -> Option<Seq<char>> {
    if num > 12 {
        None
    } else {
        Some(month_abbrev(num))
    }
}

/// Returns the three-letter English abbreviation of month `num` (1 = "Jan"),
/// or `None` when `num` is past December.
pub fn monthify(num: usize) -> (res: Option<String>)
    requires
        num >= 1,
    ensures
        res.deep_view() == spec_monthify(num as int),
{
    let a: [&str; 12] = ["Jan", "Feb", "Mar", "Apr", "May", "Jun", "Jul", "Aug", "Sep", "Oct", "Nov", "Dec"];
    if num > a.len() {
        None
    } else {
        proof {
            reveal_strlit("Jan");
            reveal_strlit("Feb");
            reveal_strlit("Mar");
            reveal_strlit("Apr");
            reveal_strlit("May");
            reveal_strlit("Jun");
            reveal_strlit("Jul");
            reveal_strlit("Aug");
            reveal_strlit("Sep");
            reveal_strlit("Oct");
            reveal_strlit("Nov");
            reveal_strlit("Dec");
        }
        let name: &str = a[num - 1];
        Some(name.to_owned())
    }
}

} // verus!
