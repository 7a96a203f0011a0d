//! The account that an access token belongs to.
use vstd::prelude::*;
use crate::base64;
use crate::base64::decode_base64url;
use crate::json::{Json, JsonView};
use crate::json_text;
use crate::json_text::parse_json_bytes;
use crate::text;
use crate::text::{concat, split_at_char};
use crate::views;

verus! {

/// The account id in the claims of a token.
pub open spec fn account_id(claims: JsonView) -> Option<Seq<char>> {
    match claims.text2("https://api.openai.com/auth"@, "chatgpt_account_id"@) {
        Some(id) => if id.len() > 0 {
            Some(id)
        } else {
            None
        },
        None => None,
    }
}

/// The account id in the claims of a token.
pub fn account_id_in_claims(claims: &Json) -> (r: Option<String>)
    ensures
        views::opt(r) == account_id(claims@),
{
    match claims.str2("https://api.openai.com/auth", "chatgpt_account_id") {
        Some(id) => if id.is_empty() {
            None
        } else {
            Some(id.to_owned())
        },
        None => None,
    }
}

/// The account id of a token, or what is wrong with it. The claims are the
/// middle one of three parts.
pub open spec fn token_account_id(token: Seq<char>) -> Result<Seq<char>, Seq<char>> {
    let parts = text::split(token, '.');
    if parts.len() != 3 {
        Err("invalid token"@)
    } else {
        match base64::decoded(parts[1]) {
            Err(e) => Err("invalid base64: "@ + e),
            Ok(bytes) => match json_text::json_of_bytes(bytes) {
                Err(e) => Err("invalid payload JSON: "@ + e),
                Ok(claims) => match account_id(claims) {
                    Some(id) => Ok(id),
                    None => Err("no account ID in token"@),
                },
            },
        }
    }
}

/// Reads the account id out of an access token.
pub fn extract_account_id(token: &str) -> (r: Result<String, String>)
    ensures
        match r {
            Ok(id) => token_account_id(token@) == Ok::<Seq<char>, Seq<char>>(id@),
            Err(e) => token_account_id(token@) == Err::<Seq<char>, Seq<char>>(e@),
        },
{
    let parts: Vec<String> = split_at_char(token, '.');
    assert(views::all(parts@).len() == parts@.len());
    if parts.len() != 3 {
        return Err("invalid token".to_owned());
    }
    assert(views::all(parts@)[1] == parts@[1]@);
    let payload: Vec<u8> = match decode_base64url(parts[1].as_str()) {
        Ok(bytes) => bytes,
        Err(e) => {
            return Err(concat("invalid base64: ", e.as_str()));
        },
    };
    match parse_json_bytes(payload.as_slice()) {
        Ok(claims) => match account_id_in_claims(&claims) {
            Some(id) => Ok(id),
            None => Err("no account ID in token".to_owned()),
        },
        Err(e) => Err(concat("invalid payload JSON: ", e.as_str())),
    }
}

/// The account of a token is the one that the middle one of its three parts names; a token
/// without it, or with more or fewer parts, has none.
pub proof fn law_account_is_in_the_claims(
    head: Seq<char>,
    middle: Seq<char>,
    tail: Seq<char>,
    bytes: Seq<u8>,
    claims: JsonView,
)
    requires
        !head.contains('.'),
        !middle.contains('.'),
        !tail.contains('.'),
        base64::decoded(middle) == Ok::<Seq<u8>, Seq<char>>(bytes),
        json_text::json_of_bytes(bytes) == Ok::<JsonView, Seq<char>>(claims),
    ensures
        ({
            let token = head + seq!['.'] + (middle + seq!['.'] + tail);
            let named = claims.text2("https://api.openai.com/auth"@, "chatgpt_account_id"@);
            &&& named is Some && named->0.len() > 0 ==> token_account_id(token) == Ok::<
                Seq<char>,
                Seq<char>,
            >(named->0)
            &&& named is None || named->0.len() == 0 ==> token_account_id(token) is Err
        }),
        token_account_id(head) is Err,
        token_account_id(head + seq!['.'] + tail) is Err,
{
    text::law_text_is_parted_at_the_first(head, '.', middle + seq!['.'] + tail);
    text::law_text_is_parted_at_the_first(middle, '.', tail);
    text::law_text_is_parted_at_the_first(tail, '.', Seq::empty());
    text::law_text_is_parted_at_the_first(head, '.', tail);
    let token = head + seq!['.'] + (middle + seq!['.'] + tail);
    assert(text::split(token, '.') =~= seq![head, middle, tail]);
    assert(text::split(head + seq!['.'] + tail, '.') =~= seq![head, tail]);
}

} // verus!
