use vstd::prelude::*;

use crate::config::opt_str_view;

verus! {

/// A claim whose type the token does not fix: text, a number (as the JSON
/// writes it), or anything else.
#[derive(Debug)]
pub enum ClaimValue {
    Text(String),
    Number(String),
    Other,
}

/// The `aud` claim: one audience, a list (entries that are not text are
/// `None`), or anything else.
#[derive(Debug)]
pub enum AudienceClaim {
    Text(String),
    List(Vec<Option<String>>),
    Other,
}

/// The claims of a bearer token, as its JSON payload carries them; `extra`
/// holds every member that is not one of the registered claims.
#[derive(Debug)]
pub struct JwtClaims {
    pub sub: Option<String>,
    pub exp: Option<u64>,
    pub nbf: Option<u64>,
    pub iss: Option<String>,
    pub aud: Option<AudienceClaim>,
    pub client_id: Option<String>,
    pub scope: Option<String>,
    pub scopes: Option<Vec<String>>,
    pub extra: Vec<(String, ClaimValue)>,
}

/// The text of a claim that is text or a number.
pub open spec fn claim_text(v: ClaimValue) -> Option<Seq<char>> {
    match v {
        ClaimValue::Text(s) => Some(s@),
        ClaimValue::Number(n) => Some(n@),
        ClaimValue::Other => None,
    }
}

pub fn value_to_string(value: &ClaimValue) -> (r: Option<String>)
    ensures
        opt_str_view(r) == claim_text(*value),
{
    match value {
        ClaimValue::Text(s) => Some(s.clone()),
        ClaimValue::Number(n) => Some(n.clone()),
        ClaimValue::Other => None,
    }
}

/// Whether the `aud` claim names `expected`: it is that text, or a list
/// with that text among its entries.
pub open spec fn audience_accepts(aud: Option<AudienceClaim>, expected: Seq<char>) -> bool {
    match aud {
        Some(AudienceClaim::Text(single)) => single@ == expected,
        Some(AudienceClaim::List(list)) => exists|i: int|
            0 <= i < list@.len() && opt_str_view(#[trigger] list@[i]) == Some(expected),
        _ => false,
    }
}

pub fn aud_matches(aud: &Option<AudienceClaim>, expected: &String) -> (b: bool)
    ensures
        b == audience_accepts(*aud, expected@),
{
    match aud {
        Some(AudienceClaim::Text(single)) => *single == *expected,
        Some(AudienceClaim::List(list)) => {
            let mut i: usize = 0;
            while i < list.len()
                invariant
                    i <= list@.len(),
                    *aud == Some(AudienceClaim::List(*list)),
                    forall|j: int| 0 <= j < i ==> opt_str_view(#[trigger] list@[j]) != Some(expected@),
                decreases list@.len() - i,
            {
                match &list[i] {
                    Some(entry) => {
                        if *entry == *expected {
                            assert(opt_str_view(list@[i as int]) == Some(expected@));
                            assert(audience_accepts(*aud, expected@));
                            return true;
                        }
                    },
                    None => {},
                }
                i += 1;
            }
            false
        },
        _ => false,
    }
}

} // verus!
