//! A stored blog post and the preview cut from its body.

use vstd::prelude::*;
use vstd::utf8::*;

use crate::datetime::UtcDateTime;
use crate::text::{lemma_char_boundary_after_prefix, lemma_char_boundary_prefix, lemma_encode_utf8_concat};

verus! {

/// A post as stored: its body is Markdown, absent for posts without content.
pub struct BlogPost {
    pub id: i32,
    pub created_at: UtcDateTime,
    pub updated_at: Option<UtcDateTime>,
    pub published_at: Option<UtcDateTime>,
    pub publish_state: String,
    pub body: Option<String>,
    pub title: String,
    pub slug: String,
}

/// Bodies of at most this many bytes are previewed whole.
pub const PREVIEW_MAX_BYTES: usize = 300;

/// Longer bodies are cut at the first word end found at or after this character index.
pub const PREVIEW_CUT_FROM: usize = 255;

/// Characters that end a word: space, line feed, carriage return.
pub open spec fn is_end_of_word(c: char) -> bool {
    c == ' ' || c == '\n' || c == '\r'
}

/// The first index at or after `from` that holds a word end or lies past the
/// last character of `s`.
pub open spec fn end_of_word_from(s: Seq<char>, from: int) -> int
    decreases s.len() - from,
{
    if from >= s.len() || from < 0 || is_end_of_word(s[from]) {
        from
    } else {
        end_of_word_from(s, from + 1)
    }
}

/// Where a long body is cut: read as a byte offset into its UTF-8 encoding.
pub open spec fn preview_cut(s: Seq<char>) -> int {
    end_of_word_from(s, PREVIEW_CUT_FROM as int)
}

/// Whether the body is previewed whole (at most `PREVIEW_MAX_BYTES` bytes of UTF-8).
pub open spec fn is_short_body(s: Seq<char>) -> bool {
    encode_utf8(s).len() <= PREVIEW_MAX_BYTES
}

/// The inputs `content_preview` accepts: no body, a short body, or a long body
/// whose cut falls between two characters of its UTF-8 encoding.
pub open spec fn preview_defined(body: Option<Seq<char>>) -> bool {
    match body {
        None => true,
        Some(s) => is_short_body(s) || is_char_boundary(encode_utf8(s), preview_cut(s)),
    }
}

pub open spec fn ellipsis() -> Seq<char> {
    seq!['.', '.', '.']
}

/// The preview of a post body.
pub open spec fn spec_content_preview(body: Option<Seq<char>>) -> Option<Seq<char>> {
    match body {
        None => None,
        Some(s) => if is_short_body(s) {
            Some(s)
        } else {
            Some(decode_utf8(encode_utf8(s).subrange(0, preview_cut(s))) + ellipsis())
        },
    }
}

impl BlogPost {
    /// Index of the first word end at or after `PREVIEW_CUT_FROM`, or of the
    /// first position past the text.
    fn preview_cut_index(text: &str) -> (k: usize)
        ensures
            k == preview_cut(text@),
    {
        let n = text.unicode_len();
        let mut k: usize = PREVIEW_CUT_FROM;
        loop
            invariant
                n == text@.len(),
                PREVIEW_CUT_FROM <= k,
                k <= n || k == PREVIEW_CUT_FROM,
                end_of_word_from(text@, k as int) == preview_cut(text@),
            ensures
                k == preview_cut(text@),
            decreases n - k,
        {
            if k >= n {
                assert(end_of_word_from(text@, k as int) == k);
                break;
            }
            let c = text.get_char(k);
            if c == ' ' || c == '\n' || c == '\r' {
                assert(end_of_word_from(text@, k as int) == k);
                break;
            }
            assert(end_of_word_from(text@, k as int) == end_of_word_from(text@, k + 1));
            k = k + 1;
        }
        k
    }

    /// The Markdown the post page renders: the body, or the empty string.
    pub fn render_source(&self) -> (md: String)
        ensures
            md@ == match self.body {
                Some(b) => b@,
                None => Seq::<char>::empty(),
            },
    {
        match &self.body {
            Some(b) => b.clone(),
            None => String::new(),
        }
    }

    /// Whether `content_preview` accepts this post (see `preview_defined`).
    pub fn can_preview(&self) -> (b: bool)
        ensures
            b == preview_defined(self.body.deep_view()),
    {
        match &self.body {
            None => true,
            Some(body) => {
                let text: &str = body.as_str();
                if text.as_bytes().len() <= PREVIEW_MAX_BYTES {
                    true
                } else {
                    let k = Self::preview_cut_index(text);
                    text.is_char_boundary(k)
                }
            },
        }
    }

    /// A preview of the body: `None` without a body; the whole body when it
    /// takes at most 300 bytes; otherwise the body up to the first word end at
    /// or after character 255 (that index taken as a byte offset), then "...".
    pub fn content_preview(&self) -> (res: Option<String>)
        requires
            preview_defined(self.body.deep_view()),
        ensures
            res.deep_view() == spec_content_preview(self.body.deep_view()),
    {
        let body: &String = match &self.body {
            Some(value) => value,
            None => return None,
        };
        let text: &str = body.as_str();
        if text.as_bytes().len() <= PREVIEW_MAX_BYTES {
            return Some(body.clone());
        }
        let cut = Self::preview_cut_index(text);
        let (head, _tail) = text.split_at(cut);
        proof {
            broadcast use vstd::utf8::encode_utf8_decode_utf8;
            assert(decode_utf8(encode_utf8(head@)) == head@);
            reveal_strlit("...");
        }
        let mut preview = String::new();
        preview.append(head);
        preview.append("...");
        Some(preview)
    }
}

/// `end_of_word_from(s, from)` is the first word end at or after `from`, or
/// the first index past `s` when there is none.
pub proof fn lemma_end_of_word_from(s: Seq<char>, from: int)
    requires
        0 <= from,
    ensures
        from <= end_of_word_from(s, from),
        from <= s.len() ==> end_of_word_from(s, from) <= s.len(),
        from > s.len() ==> end_of_word_from(s, from) == from,
        end_of_word_from(s, from) < s.len() ==> is_end_of_word(s[end_of_word_from(s, from)]),
        forall|i: int| from <= i < end_of_word_from(s, from) ==> !is_end_of_word(#[trigger] s[i]),
    decreases s.len() - from,
{
    if from >= s.len() || is_end_of_word(s[from]) {
    } else {
        lemma_end_of_word_from(s, from + 1);
    }
}

/// The preview of a body of more than 300 bytes is a prefix of the body,
/// the one whose UTF-8 encoding ends at the cut, followed by "...".
pub proof fn lemma_long_preview_is_prefix(body: Seq<char>)
    requires
        preview_defined(Some(body)),
        !is_short_body(body),
    ensures
        exists|j: int|
            0 <= j <= body.len() && encode_utf8(#[trigger] body.take(j)).len() == preview_cut(body)
                && spec_content_preview(Some(body)) == Some(body.take(j) + ellipsis()),
{
    let j = lemma_char_boundary_prefix(body, preview_cut(body));
    assert(spec_content_preview(Some(body)) == Some(body.take(j) + ellipsis()));
}

/// For a body of more than 300 bytes written in ASCII, the preview is always
/// defined: it is the body up to the first space, line feed or carriage return
/// at or after character 255 (or the whole body if there is none), then "...".
pub proof fn lemma_ascii_preview_cuts_at_word_end(body: Seq<char>)
    requires
        is_ascii_chars(body),
        !is_short_body(body),
    ensures
        preview_defined(Some(body)),
        spec_content_preview(Some(body)) == Some(body.take(preview_cut(body)) + ellipsis()),
        PREVIEW_CUT_FROM <= preview_cut(body) <= body.len(),
        preview_cut(body) == body.len() || is_end_of_word(body[preview_cut(body)]),
        forall|i: int|
            PREVIEW_CUT_FROM <= i < preview_cut(body) ==> !is_end_of_word(#[trigger] body[i]),
        255 <= preview_cut(body) <= body.len(),
        preview_cut(body) < body.len() ==> body[preview_cut(body)] == ' ' || body[preview_cut(body)]
            == '\n' || body[preview_cut(body)] == '\r',
        forall|i: int|
            255 <= i < preview_cut(body) ==> #[trigger] body[i] != ' ' && body[i] != '\n' && body[i]
                != '\r',
        spec_content_preview(Some(body)) == Some(body.take(preview_cut(body)) + seq!['.', '.', '.']),
{
    broadcast use vstd::utf8::encode_utf8_decode_utf8;

    is_ascii_chars_encode_utf8(body);
    let k = preview_cut(body);
    lemma_end_of_word_from(body, PREVIEW_CUT_FROM as int);
    let head = body.take(k);
    let tail = body.skip(k);
    assert(body =~= head + tail);
    assert(is_ascii_chars(head));
    is_ascii_chars_encode_utf8(head);
    lemma_char_boundary_after_prefix(head, tail);
    lemma_encode_utf8_concat(head, tail);
    assert(encode_utf8(body).subrange(0, k) =~= encode_utf8(head));
    assert forall|i: int| 255 <= i < k implies #[trigger] body[i] != ' ' && body[i] != '\n'
        && body[i] != '\r' by {
        assert(!is_end_of_word(body[i]));
    }
}

/// A post without a body has no preview, and a body of at most 300 bytes of
/// UTF-8 is its own preview.
pub proof fn law_short_preview_is_whole_body(body: Option<Seq<char>>)
    ensures
        body is None ==> spec_content_preview(body) is None,
        body matches Some(s) ==> (encode_utf8(s).len() <= 300 ==> spec_content_preview(body) == Some(s)),
{
}

/// A body of more than 300 bytes is cut at the first index `k` at or after
/// character 255 whose character is a space, a line feed or a carriage
/// return (or at the end of the body, or at 255 itself when the body has
/// fewer characters than that); no character from 255 up to the cut is one
/// of those three, so a letter never ends the preview's last word. The
/// preview is what the first `k` bytes of the body decode to, then "...".
pub proof fn law_long_preview_cuts_at_word_end(s: Seq<char>) -> (k: int)
    requires
        encode_utf8(s).len() > 300,
        preview_defined(Some(s)),
    ensures
        255 <= k,
        k <= s.len() || k == 255,
        k < s.len() ==> s[k] == ' ' || s[k] == '\n' || s[k] == '\r',
        forall|i: int|
            255 <= i < k ==> i < s.len() && #[trigger] s[i] != ' ' && s[i] != '\n' && s[i] != '\r',
        is_char_boundary(encode_utf8(s), k),
        spec_content_preview(Some(s)) == Some(
            decode_utf8(encode_utf8(s).subrange(0, k)) + seq!['.', '.', '.'],
        ),
{
    let k = preview_cut(s);
    lemma_end_of_word_from(s, 255);
    assert forall|i: int| 255 <= i < k implies i < s.len() && #[trigger] s[i] != ' ' && s[i]
        != '\n' && s[i] != '\r' by {
        assert(!is_end_of_word(s[i]));
    }
    k
}

} // verus!
