//! Shortening of text by Unicode scalar values, with an ellipsis marker.

use vstd::prelude::*;
use vstd::string::*;

verus! {

/// Longest title, in characters, that a listing shows unshortened.
pub const TITLE_CHAR_LIMIT: usize = 60;

/// Longest body, in characters, that a listing shows unshortened.
pub const CONTENT_CHAR_LIMIT: usize = 700;

/// The marker appended to text that was cut short.
pub open spec fn ellipsis() -> Seq<char> {
    seq!['.', '.', '.']
}

/// The first `limit` characters of `s`, or all of `s` when it is shorter.
pub open spec fn prefix_of(s: Seq<char>, limit: nat) -> Seq<char> {
    if s.len() <= limit {
        s
    } else {
        s.take(limit as int)
    }
}

/// `s` as shown under a limit of `limit` characters: unchanged when it fits,
/// otherwise its first `limit` characters followed by the ellipsis marker.
pub open spec fn shortened(s: Seq<char>, limit: nat) -> Seq<char> {
    if s.len() <= limit {
        s
    } else {
        s.take(limit as int) + ellipsis()
    }
}

/// Keeps the first `max_width` characters of `s` (all of it when shorter).
pub fn truncate_by_chars(s: String, max_width: usize) -> (r: String)
    ensures
        r@ == prefix_of(s@, max_width as nat),
{
    let n = s.as_str().unicode_len();
    if n <= max_width {
        s
    } else {
        let head = s.as_str().substring_char(0, max_width);
        head.to_string()
    }
}

/// Shortens `s` to `limit` characters plus the ellipsis marker when it is
/// longer than `limit`; the flag tells whether it was shortened.
pub fn shorten(s: String, limit: usize) -> (r: (String, bool))
    ensures
        r.0@ == shortened(s@, limit as nat),
        r.1 == (s@.len() > limit),
{
    let n = s.as_str().unicode_len();
    if n <= limit {
        (s, false)
    } else {
        let mut cut = truncate_by_chars(s, limit);
        proof {
            reveal_strlit("...");
        }
        cut.append("...");
        (cut, true)
    }
}

/// A title of at most the title limit is shown as it is, with no marker; a
/// longer one is shown as its first sixty characters and the marker, which
/// makes sixty-three characters.
pub proof fn title_shortening_law(title: Seq<char>)
    ensures
        title.len() <= TITLE_CHAR_LIMIT ==> shortened(title, TITLE_CHAR_LIMIT as nat) == title,
        title.len() > TITLE_CHAR_LIMIT ==> shortened(title, TITLE_CHAR_LIMIT as nat) == title.take(
            TITLE_CHAR_LIMIT as int,
        ) + ellipsis(),
        title.len() > TITLE_CHAR_LIMIT ==> shortened(title, TITLE_CHAR_LIMIT as nat).len() == 63,
{
}

/// A body of at most the body limit is shown as it is and not flagged; a
/// longer one is flagged and shown as its first seven hundred characters and
/// the marker.
pub proof fn content_shortening_law(content: Seq<char>)
    ensures
        content.len() <= CONTENT_CHAR_LIMIT ==> shortened(content, CONTENT_CHAR_LIMIT as nat)
            == content,
        content.len() > CONTENT_CHAR_LIMIT ==> shortened(content, CONTENT_CHAR_LIMIT as nat)
            == content.take(CONTENT_CHAR_LIMIT as int) + ellipsis(),
        content.len() > CONTENT_CHAR_LIMIT ==> shortened(content, CONTENT_CHAR_LIMIT as nat).len()
            == 703,
{
}

} // verus!
