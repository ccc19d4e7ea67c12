//! Token decoding: the header is decoded by an outside collaborator, the
//! payload section is cut out of the token text here, then base64-decoded and
//! parsed by outside collaborators. The splitting and the assembled result
//! are verified.
use crate::error::DataError;
use crate::formats::from_json;
use crate::value::{Entry, EntryView, Val, ValView};
use vstd::prelude::*;

verus! {

broadcast use vstd::std_specs::vec::group_vec_axioms;

/// What jsonwebtoken::decode_header yields for a token, as a value; `None`
/// where the header is rejected.
pub uninterp spec fn header_json_of(token: Seq<char>) -> Option<ValView>;

/// What URL-safe unpadded base64 decoding yields; `None` where the text is
/// rejected.
pub uninterp spec fn b64url_bytes_of(s: Seq<char>) -> Option<Seq<u8>>;

/// What JSON parsing of raw bytes yields under the value model; `None` where
/// it fails.
pub uninterp spec fn json_bytes_parse_spec(b: Seq<u8>) -> Option<ValView>;

/// Relies on jsonwebtoken::decode_header and serde_json::to_value: the token's
/// decoded header as a value, deterministic in the token text.
#[verifier::external_body]
fn decode_header_value(token: &str) -> (r: Result<Val, String>)
    ensures
        match r {
            Ok(v) => header_json_of(token@) == Some(v@),
            Err(_) => header_json_of(token@) is None,
        },
{
    let h = jsonwebtoken::decode_header(token).map_err(|e| e.to_string())?;
    let j = serde_json::to_value(&h).map_err(|e| e.to_string())?;
    Ok(from_json(j))
}

/// Relies on base64's URL_SAFE_NO_PAD engine: the decoded bytes, deterministic
/// in the text.
#[verifier::external_body]
fn b64url_decode(s: &str) -> (r: Result<Vec<u8>, String>)
    ensures
        match r {
            Ok(b) => b64url_bytes_of(s@) == Some(b@),
            Err(_) => b64url_bytes_of(s@) is None,
        },
{
    base64::Engine::decode(&base64::prelude::BASE64_URL_SAFE_NO_PAD, s).map_err(
        |e| e.to_string(),
    )
}

/// Relies on serde_json::from_slice: deterministic in the bytes.
#[verifier::external_body]
fn parse_json_bytes(b: &Vec<u8>) -> (r: Result<Val, String>)
    ensures
        match r {
            Ok(v) => json_bytes_parse_spec(b@) == Some(v@),
            Err(_) => json_bytes_parse_spec(b@) is None,
        },
{
    match serde_json::from_slice::<serde_json::Value>(b) {
        Ok(j) => Ok(from_json(j)),
        Err(e) => Err(e.to_string()),
    }
}

/// The first index of `c` in `s` at or after `from`.
pub open spec fn find_from(s: Seq<char>, c: char, from: int) -> Option<int>
    decreases s.len() - from,
{
    if from < 0 || from >= s.len() {
        None
    } else if s[from] == c {
        Some(from)
    } else {
        find_from(s, c, from + 1)
    }
}

/// The token's second dot-separated part: the text between the first dot and
/// the next dot or the end; `None` where the token has no dot.
pub open spec fn second_part(s: Seq<char>) -> Option<Seq<char>> {
    match find_from(s, '.', 0) {
        None => None,
        Some(i) => match find_from(s, '.', i + 1) {
            Some(j) => Some(s.subrange(i + 1, j)),
            None => Some(s.subrange(i + 1, s.len() as int)),
        },
    }
}

/// Finds the first `c` in `s` at or after `from`.
fn find_char_from(s: &str, c: char, from: usize) -> (r: Option<usize>)
    requires
        from <= s@.len(),
    ensures
        match r {
            Some(i) => from <= i < s@.len() && find_from(s@, c, from as int) == Some(i as int),
            None => find_from(s@, c, from as int) is None,
        },
{
    let len = s.unicode_len();
    let mut idx = from;
    while idx < len
        invariant
            from <= idx <= len,
            len == s@.len(),
            find_from(s@, c, from as int) == find_from(s@, c, idx as int),
        decreases len - idx,
    {
        if s.get_char(idx) == c {
            return Some(idx);
        }
        idx += 1;
    }
    None
}

/// Cuts the second dot-separated part out of the token.
fn dot_part1(token: &str) -> (r: Option<String>)
    ensures
        match r {
            Some(p) => second_part(token@) == Some(p@),
            None => second_part(token@) is None,
        },
{
    let i = match find_char_from(token, '.', 0) {
        Some(i) => i,
        None => {
            return None;
        },
    };
    let len = token.unicode_len();
    let part = match find_char_from(token, '.', i + 1) {
        Some(j) => token.substring_char(i + 1, j),
        None => token.substring_char(i + 1, len),
    };
    Some(String::from_str(part))
}

/// Decodes a token into `{header, payload}`: the header as the outside
/// decoder reads it, the payload parsed from the base64 text between the
/// first and second dots. A malformed token fails with `TokenError`; a token
/// whose header decodes but which has no dot fails with the fixed message.
pub fn decode_jwt(token: &str) -> (r: Result<Val, DataError>)
    ensures
        header_json_of(token@) is None ==> (r matches Err(e) && e matches DataError::TokenError(
            _,
        )),
        header_json_of(token@) matches Some(h) ==> match second_part(token@) {
            None => r matches Err(e) && e matches DataError::TokenError(m) && m@
                == "Invalid JWT format"@,
            Some(p1) => match b64url_bytes_of(p1) {
                None => r matches Err(e) && e matches DataError::TokenError(_),
                Some(bytes) => match json_bytes_parse_spec(bytes) {
                    None => r matches Err(e) && e matches DataError::TokenError(_),
                    Some(payload) => r matches Ok(v) && v@ == ValView::Obj(
                        seq![
                            EntryView { key: "header"@, val: h },
                            EntryView { key: "payload"@, val: payload },
                        ],
                    ),
                },
            },
        },
{
    let header = match decode_header_value(token) {
        Ok(h) => h,
        Err(m) => {
            return Err(DataError::TokenError(m));
        },
    };
    let part = match dot_part1(token) {
        Some(p) => p,
        None => {
            return Err(DataError::TokenError(String::from_str("Invalid JWT format")));
        },
    };
    let bytes = match b64url_decode(part.as_str()) {
        Ok(b) => b,
        Err(m) => {
            return Err(DataError::TokenError(m));
        },
    };
    let payload = match parse_json_bytes(&bytes) {
        Ok(v) => v,
        Err(m) => {
            return Err(DataError::TokenError(m));
        },
    };
    let mut entries: Vec<Entry> = Vec::new();
    entries.push(Entry { key: String::from_str("header"), val: header });
    entries.push(Entry { key: String::from_str("payload"), val: payload });
    let r = Val::Obj(entries);
    proof {
        let rv = r@->Obj_0;
        assert(rv[0] == (r->Obj_0)[0]@);
        assert(rv[1] == (r->Obj_0)[1]@);
        assert(rv =~= seq![
            EntryView { key: "header"@, val: header@ },
            EntryView { key: "payload"@, val: payload@ },
        ]);
    }
    Ok(r)
}

} // verus!
