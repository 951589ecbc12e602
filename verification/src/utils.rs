//! The clock, and the bearer secret in the `Authorization` header of a
//! request.

use vstd::prelude::*;
use vstd::string::*;
use crate::errors::UserError;

verus! {

/// `chrono::Utc::now` followed by `DateTime::timestamp`: the system clock,
/// in whole seconds since the Unix epoch.
///
/// Trusted, and nothing is claimed of the value: it is whatever the clock
/// says. The call panics where the clock stands before the epoch, or so far
/// after it that chrono has no date for the moment.
#[verifier::external_body]
pub(crate) fn unix_time() -> (now: i64) {
    chrono::Utc::now().timestamp()
}

/// Whether a header value may hold the character: a tab or a visible ASCII
/// character.
pub open spec fn is_header_char(c: char) -> bool {
    c == '\t' || ' ' <= c <= '~'
}

/// Whether a header value may hold the text.
pub open spec fn is_header_text(text: Seq<char>) -> bool {
    forall|i: int| 0 <= i < text.len() ==> is_header_char(#[trigger] text[i])
}

/// Whether the character is ASCII whitespace: space, tab, line feed, form
/// feed or carriage return.
pub open spec fn is_blank(c: char) -> bool {
    c == ' ' || c == '\t' || c == '\n' || c == '\x0C' || c == '\r'
}

/// The first position at or after `from` that holds no whitespace; the
/// length of the text if there is none.
pub open spec fn skip_blanks(text: Seq<char>, from: int) -> int
    decreases text.len() - from,
{
    if 0 <= from < text.len() && is_blank(text[from]) {
        skip_blanks(text, from + 1)
    } else {
        from
    }
}

/// The first position at or after `from` that holds whitespace; the length
/// of the text if there is none.
pub open spec fn skip_word(text: Seq<char>, from: int) -> int
    decreases text.len() - from,
{
    if 0 <= from < text.len() && !is_blank(text[from]) {
        skip_word(text, from + 1)
    } else {
        from
    }
}

/// The second of the words that whitespace separates in the text, if there
/// are two.
pub open spec fn second_word(text: Seq<char>) -> Option<Seq<char>> {
    let first = skip_blanks(text, 0);
    let gap = skip_word(text, first);
    let second = skip_blanks(text, gap);
    let end = skip_word(text, second);
    if second < text.len() {
        Some(text.subrange(second, end))
    } else {
        None
    }
}

/// The bearer secret that an `Authorization` header of the form
/// `<scheme> <secret>` carries. A request without the header is not
/// authenticated; a header that is no header text, or has no second word,
/// is a bad request.
pub open spec fn auth_token(header: Option<Seq<char>>) -> Result<Seq<char>, UserError> {
    match header {
        None => Err(UserError::Unauthorized),
        Some(text) => match second_word(text) {
            Some(secret) if is_header_text(text) => Ok(secret),
            _ => Err(UserError::BadRequest),
        },
    }
}

/// The positions that `skip_blanks` and `skip_word` give lie between `from`
/// and the end of the text, everything before them is whitespace, or none of
/// it is, and what stands at them is not, or is.
pub proof fn lemma_skips(text: Seq<char>, from: int)
    requires
        0 <= from <= text.len(),
    ensures
        from <= skip_blanks(text, from) <= text.len(),
        forall|i: int| from <= i < skip_blanks(text, from) ==> is_blank(#[trigger] text[i]),
        skip_blanks(text, from) < text.len() ==> !is_blank(text[skip_blanks(text, from)]),
        from <= skip_word(text, from) <= text.len(),
        forall|i: int| from <= i < skip_word(text, from) ==> !is_blank(#[trigger] text[i]),
        skip_word(text, from) < text.len() ==> is_blank(text[skip_word(text, from)]),
    decreases text.len() - from,
{
    if from < text.len() {
        lemma_skips(text, from + 1);
    }
}

/// The secret that `auth_token` finds in a header is a word: it is not
/// empty and holds no whitespace.
pub proof fn lemma_auth_token_is_word(header: Option<Seq<char>>)
    ensures
        auth_token(header) matches Ok(secret) ==> secret.len() > 0 && forall|i: int|
            0 <= i < secret.len() ==> !is_blank(#[trigger] secret[i]),
{
    if let Some(text) = header {
        lemma_skips(text, 0);
        let first = skip_blanks(text, 0);
        lemma_skips(text, first);
        let gap = skip_word(text, first);
        lemma_skips(text, gap);
        let second = skip_blanks(text, gap);
        lemma_skips(text, second);
    }
}

/// Whether the byte is ASCII whitespace.
fn is_blank_byte(b: u8) -> (blank: bool)
    ensures
        blank == is_blank(b as char),
{
    b == 32 || b == 9 || b == 10 || b == 12 || b == 13
}

/// Skips the whitespace at `from`.
fn skip_blanks_from(text: &str, from: usize) -> (to: usize)
    requires
        text.is_ascii(),
        from <= text@.len(),
    ensures
        to == skip_blanks(text@, from as int),
        from <= to <= text@.len(),
{
    let n = text.as_bytes().len();
    proof {
        is_ascii_spec_bytes(text);
    }
    let mut i = from;
    while i < n && is_blank_byte(text.get_ascii(i))
        invariant
            text.is_ascii(),
            n == text@.len(),
            from <= i <= n,
            skip_blanks(text@, from as int) == skip_blanks(text@, i as int),
        decreases n - i,
    {
        i += 1;
    }
    i
}

/// Skips the word at `from`.
fn skip_word_from(text: &str, from: usize) -> (to: usize)
    requires
        text.is_ascii(),
        from <= text@.len(),
    ensures
        to == skip_word(text@, from as int),
        from <= to <= text@.len(),
{
    let n = text.as_bytes().len();
    proof {
        is_ascii_spec_bytes(text);
    }
    let mut i = from;
    while i < n && !is_blank_byte(text.get_ascii(i))
        invariant
            text.is_ascii(),
            n == text@.len(),
            from <= i <= n,
            skip_word(text@, from as int) == skip_word(text@, i as int),
        decreases n - i,
    {
        i += 1;
    }
    i
}

/// Whether a header value may hold the text.
fn holds_header_text(text: &str) -> (fit: bool)
    ensures
        fit == is_header_text(text@),
{
    if !text.is_ascii() {
        return false;
    }
    let n = text.as_bytes().len();
    proof {
        is_ascii_spec_bytes(text);
    }
    let mut i: usize = 0;
    while i < n
        invariant
            text.is_ascii(),
            n == text@.len(),
            i <= n,
            forall|k: int| 0 <= k < i ==> is_header_char(#[trigger] text@[k]),
        decreases n - i,
    {
        let b = text.get_ascii(i);
        if !(b == 9 || (32 <= b && b <= 126)) {
            assert(!is_header_char(text@[i as int]));
            return false;
        }
        i += 1;
    }
    true
}

/// The view of a header value that may be missing.
pub open spec fn header_view(header: Option<&str>) -> Option<Seq<char>> {
    match header {
        Some(text) => Some(text@),
        None => None,
    }
}

/// Reads the bearer secret out of the value of the `Authorization` header,
/// which has the form `<scheme> <secret>`: the secret is the second of the
/// words that whitespace separates. `None` stands for a request without the
/// header.
pub fn get_auth_token(header: Option<&str>) -> (secret: Result<String, UserError>)
    ensures
        match secret {
            Ok(s) => auth_token(header_view(header)) == Ok::<Seq<char>, UserError>(s@),
            Err(e) => auth_token(header_view(header)) == Err::<Seq<char>, UserError>(e),
        },
{
    let text = match header {
        Some(text) => text,
        None => {
            return Err(UserError::Unauthorized);
        },
    };
    if !holds_header_text(text) {
        return Err(UserError::BadRequest);
    }
    let first = skip_blanks_from(text, 0);
    let gap = skip_word_from(text, first);
    let second = skip_blanks_from(text, gap);
    let end = skip_word_from(text, second);
    proof {
        is_ascii_spec_bytes(text);
    }
    if second < text.as_bytes().len() {
        Ok(String::from_str(text.substring_ascii(second, end)))
    } else {
        Err(UserError::BadRequest)
    }
}

} // verus!
