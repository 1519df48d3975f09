use vstd::prelude::*;

use crate::lookup::{find_key, first_value, keys_of, string_keys};

verus! {

/// The decoded query of a URL as key/value pairs in order, or `None` where the
/// text does not parse as an absolute URL.
pub uninterp spec fn url_query(url: Seq<char>) -> Option<Seq<(Seq<char>, Seq<char>)>>;

/// The text of each pair of strings.
pub open spec fn pairs_view(pairs: Seq<(String, String)>) -> Seq<(Seq<char>, Seq<char>)> {
    pairs.map_values(|p: (String, String)| (p.0@, p.1@))
}

/// Relies on `url::Url::parse`, which accepts the text as an absolute URL or
/// refuses it, and on `Url::query_pairs`, which decodes the query into its
/// key/value pairs in order.
#[verifier::external_body]
fn query_pairs(url: &str) -> (r: Option<Vec<(String, String)>>)
    ensures
        r is Some <==> url_query(url@) is Some,
        r matches Some(p) ==> pairs_view(p@) == url_query(url@)->Some_0,
{
    match url::Url::parse(url) {
        Ok(parsed) => Some(parsed.query_pairs().into_owned().collect()),
        Err(_) => None,
    }
}

/// The decoded value of the first query parameter named `key`: `None` where
/// the URL does not parse, `Some(None)` where it has no such parameter.
pub fn query_param(url: &str, key: &str) -> (r: Option<Option<String>>)
    ensures
        match url_query(url@) {
            None => r is None,
            Some(pairs) => match first_value(pairs, key@) {
                None => r == Some(None::<String>),
                Some(v) => r matches Some(Some(s)) && s@ == v,
            },
        },
{
    match query_pairs(url) {
        None => None,
        Some(pairs) => {
            let k = key.to_string();
            let ghost decoded = url_query(url@)->Some_0;
            proof {
                assert(keys_of(decoded) =~= string_keys(pairs@));
            }
            match find_key(&pairs, &k) {
                Some(i) => {
                    assert(decoded[i as int].1 == pairs@[i as int].1@);
                    Some(Some(pairs[i].1.clone()))
                },
                None => Some(None),
            }
        },
    }
}

} // verus!
