//! The parts of a URL, by the type `Url` that the crate `worker` hands out.

use crate::text::text_view;
use vstd::prelude::*;

verus! {

/// The path of the URL that a text writes; none, if it writes no URL.
pub uninterp spec fn url_path(url: Seq<char>) -> Option<Seq<char>>;

/// The names and values in the query of the URL that a text writes, decoded and in order; none,
/// if it writes no URL.
pub uninterp spec fn url_query(url: Seq<char>) -> Option<Seq<(Seq<char>, Seq<char>)>>;

/// The host of the URL that a text writes, where that has one; none, if the text writes no URL.
pub uninterp spec fn url_host(url: Seq<char>) -> Option<Option<Seq<char>>>;

/// At most 20 letters from `a` to `z` and digits.
pub open spec fn is_plain(s: Seq<char>) -> bool {
    s.len() <= 20 && forall|i: int|
        0 <= i < s.len() ==> 'a' <= #[trigger] s[i] <= 'z' || '0' <= s[i] <= '9'
}

/// The URL of a path on the host that the durable object is reached by.
pub open spec fn object_url(path: Seq<char>) -> Seq<char> {
    "https://do"@ + path
}

/// The query that gives two names a value each.
pub open spec fn two_pairs(
    a: Seq<char>,
    x: Seq<char>,
    b: Seq<char>,
    y: Seq<char>,
) -> Seq<char> {
    "?"@ + a + "="@ + x + "&"@ + b + "="@ + y
}

/// A text that may be missing twice over, as a character sequence.
pub open spec fn host_view(host: Option<Option<String>>) -> Option<Option<Seq<char>>> {
    match host {
        Some(t) => Some(text_view(t)),
        None => None,
    }
}

/// Names and values, as character sequences.
pub open spec fn pairs_view(pairs: Seq<(String, String)>) -> Seq<(Seq<char>, Seq<char>)> {
    pairs.map_values(|p: (String, String)| (p.0@, p.1@))
}

/// Names and values that may be missing, as character sequences.
pub open spec fn query_view(pairs: Option<Vec<(String, String)>>) -> Option<
    Seq<(Seq<char>, Seq<char>)>,
> {
    match pairs {
        Some(q) => Some(pairs_view(q@)),
        None => None,
    }
}

/// A path of plain characters is what stands between the host and the query.
pub open spec fn plain_path_is_kept(url: Seq<char>, path: Option<Seq<char>>) -> bool {
    &&& forall|p: Seq<char>|
        is_plain(p) && url == #[trigger] object_url("/"@ + p) ==> path == Some("/"@ + p)
    &&& forall|p: Seq<char>, a: Seq<char>, x: Seq<char>, b: Seq<char>, y: Seq<char>|
        is_plain(p) && is_plain(a) && is_plain(x) && is_plain(b) && is_plain(y) && url
            == #[trigger] object_url("/"@ + p) + #[trigger] two_pairs(a, x, b, y) ==> path == Some(
            "/"@ + p,
        )
}

/// Names and values of plain characters are decoded to themselves.
pub open spec fn plain_query_is_kept(
    url: Seq<char>,
    pairs: Option<Seq<(Seq<char>, Seq<char>)>>,
) -> bool {
    forall|p: Seq<char>, a: Seq<char>, x: Seq<char>, b: Seq<char>, y: Seq<char>|
        is_plain(p) && is_plain(a) && is_plain(x) && is_plain(b) && is_plain(y) && url
            == #[trigger] object_url("/"@ + p) + #[trigger] two_pairs(a, x, b, y) ==> pairs == Some(
            seq![(a, x), (b, y)],
        )
}

/// `Url::path` of the URL that `Url::parse` reads from the text.
#[verifier::external_body]
pub(crate) fn path_of(url: &str) -> (path: Option<String>)
    ensures
        text_view(path) == url_path(url@),
        plain_path_is_kept(url@, text_view(path)),
{
    worker::Url::parse(url).ok().map(|u| u.path().to_owned())
}

/// `Url::host` of the URL that `Url::parse` reads from the text, with the host written by its
/// `to_string`.
#[verifier::external_body]
pub(crate) fn host_of(url: &str) -> (host: Option<Option<String>>)
    ensures
        host_view(host) == url_host(url@),
{
    worker::Url::parse(url).ok().map(|u| u.host().map(|h| h.to_string()))
}

/// `Url::query_pairs` of the URL that `Url::parse` reads from the text.
#[verifier::external_body]
pub(crate) fn query_of(url: &str) -> (pairs: Option<Vec<(String, String)>>)
    ensures
        query_view(pairs) == url_query(url@),
        plain_query_is_kept(url@, query_view(pairs)),
{
    worker::Url::parse(url).ok().map(|u| u.query_pairs().into_owned().collect())
}

/// Names and values are seen as their characters, in order, and what is missing as missing.
pub proof fn law_pairs_are_seen_whole(pairs: Vec<(String, String)>, host: String)
    ensures
        pairs_view(pairs@).len() == pairs@.len(),
        forall|i: int|
            0 <= i < pairs@.len() ==> #[trigger] pairs_view(pairs@)[i] == (
                pairs@[i].0@,
                pairs@[i].1@,
            ),
        query_view(Some(pairs)) == Some(pairs_view(pairs@)),
        query_view(None) is None,
        host_view(Some(Some(host))) == Some(Some(host@)),
        host_view(Some(None)) == Some(None::<Seq<char>>),
        host_view(None) is None,
{
}

} // verus!
