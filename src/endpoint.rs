use vstd::prelude::*;

verus! {

/// Base of the identity provider's API.
pub const API_BASE: &'static str = "https://discord.com/api/v10";

/// Page of the identity provider that asks the user for consent.
pub const AUTHORIZE_PAGE: &'static str = "https://discord.com/oauth2/authorize";

/// Credentials and callback address of this application at the identity
/// provider, and the seconds after which an unanswered state token ages out;
/// fixed at startup.
pub struct OAuthConfig {
    pub client_id: String,
    pub client_secret: String,
    pub redirect_uri: String,
    pub state_ttl: u64,
}

/// The text of `url` parsed as an absolute URL, with the pair `key`=`value`
/// form-encoded onto its query; `None` where `url` does not parse.
pub uninterp spec fn url_with_query_pair(url: Seq<char>, key: Seq<char>, value: Seq<char>) -> Option<Seq<char>>;

/// The text of `url` parsed as an absolute URL, with `segment` added to its
/// path; `None` where `url` does not parse or cannot be a base.
pub uninterp spec fn url_with_path_segment(url: Seq<char>, segment: Seq<char>) -> Option<Seq<char>>;

pub open spec fn opt_view(o: Option<String>) -> Option<Seq<char>> {
    match o {
        Some(s) => Some(s@),
        None => None,
    }
}

pub open spec fn pairs_view(pairs: Seq<(String, String)>) -> Seq<(Seq<char>, Seq<char>)> {
    pairs.map_values(|p: (String, String)| (p.0@, p.1@))
}

pub open spec fn strings_view(items: Seq<String>) -> Seq<Seq<char>> {
    items.map_values(|s: String| s@)
}

/// `url` with each pair appended to its query, in order.
pub open spec fn url_with_query(url: Seq<char>, pairs: Seq<(Seq<char>, Seq<char>)>) -> Option<Seq<char>>
    decreases pairs.len(),
{
    if pairs.len() == 0 {
        Some(url)
    } else {
        match url_with_query(url, pairs.drop_last()) {
            Some(u) => url_with_query_pair(u, pairs.last().0, pairs.last().1),
            None => None,
        }
    }
}

/// `url` with each segment added to its path, in order.
pub open spec fn url_with_path(url: Seq<char>, segments: Seq<Seq<char>>) -> Option<Seq<char>>
    decreases segments.len(),
{
    if segments.len() == 0 {
        Some(url)
    } else {
        match url_with_path(url, segments.drop_last()) {
            Some(u) => url_with_path_segment(u, segments.last()),
            None => None,
        }
    }
}

/// Relies on url::Url::parse, Url::query_pairs_mut and
/// form_urlencoded::Serializer::append_pair: the URL with one pair added to
/// its query, or `None` where it does not parse.
#[verifier::external_body]
fn append_query_pair(url: &str, key: &str, value: &str) -> (r: Option<String>)
    ensures
        opt_view(r) == url_with_query_pair(url@, key@, value@),
{
    let mut parsed = url::Url::parse(url).ok()?;
    parsed.query_pairs_mut().append_pair(key, value);
    Some(String::from(parsed))
}

/// Relies on url::Url::parse, Url::path_segments_mut and
/// url::PathSegmentsMut::push: the URL with one segment added to its path,
/// or `None` where it does not parse or cannot be a base.
#[verifier::external_body]
fn push_path_segment(url: &str, segment: &str) -> (r: Option<String>)
    ensures
        opt_view(r) == url_with_path_segment(url@, segment@),
{
    let mut parsed = url::Url::parse(url).ok()?;
    parsed.path_segments_mut().ok()?.push(segment);
    Some(String::from(parsed))
}

/// Appends each pair to the query of `url`, in order. With no pairs, `url`
/// comes back as it is, unparsed.
pub fn append_query_pairs(url: &str, pairs: &Vec<(String, String)>) -> (r: Option<String>)
    ensures
        opt_view(r) == url_with_query(url@, pairs_view(pairs@)),
{
    let ghost pv = pairs_view(pairs@);
    let mut current = url.to_owned();
    let mut i: usize = 0;
    assert(pv.subrange(0, 0) =~= Seq::<(Seq<char>, Seq<char>)>::empty());
    while i < pairs.len()
        invariant
            pv == pairs_view(pairs@),
            0 <= i <= pairs@.len(),
            url_with_query(url@, pv.subrange(0, i as int)) == Some(current@),
        decreases pairs@.len() - i,
    {
        assert(pv.subrange(0, i + 1).drop_last() =~= pv.subrange(0, i as int));
        match append_query_pair(current.as_str(), pairs[i].0.as_str(), pairs[i].1.as_str()) {
            Some(next) => {
                current = next;
            },
            None => {
                assert(pv.subrange(0, pairs@.len() as int) =~= pv);
                proof {
                    lemma_query_stays_none(url@, pv, i as int + 1);
                }
                return None;
            },
        }
        i += 1;
    }
    assert(pv.subrange(0, pairs@.len() as int) =~= pv);
    Some(current)
}

proof fn lemma_query_stays_none(url: Seq<char>, pairs: Seq<(Seq<char>, Seq<char>)>, k: int)
    requires
        0 <= k <= pairs.len(),
        url_with_query(url, pairs.subrange(0, k)) is None,
    ensures
        url_with_query(url, pairs) is None,
    decreases pairs.len() - k,
{
    if k < pairs.len() {
        assert(pairs.subrange(0, k + 1).drop_last() =~= pairs.subrange(0, k));
        lemma_query_stays_none(url, pairs, k + 1);
    } else {
        assert(pairs.subrange(0, k) =~= pairs);
    }
}

proof fn lemma_path_stays_none(url: Seq<char>, segments: Seq<Seq<char>>, k: int)
    requires
        0 <= k <= segments.len(),
        url_with_path(url, segments.subrange(0, k)) is None,
    ensures
        url_with_path(url, segments) is None,
    decreases segments.len() - k,
{
    if k < segments.len() {
        assert(segments.subrange(0, k + 1).drop_last() =~= segments.subrange(0, k));
        lemma_path_stays_none(url, segments, k + 1);
    } else {
        assert(segments.subrange(0, k) =~= segments);
    }
}

/// Adds each segment to the path of `url`, in order. With no segments,
/// `url` comes back as it is, unparsed.
pub fn append_path_segments(url: &str, segments: &Vec<String>) -> (r: Option<String>)
    ensures
        opt_view(r) == url_with_path(url@, strings_view(segments@)),
{
    let ghost sv = strings_view(segments@);
    let mut current = url.to_owned();
    let mut i: usize = 0;
    assert(sv.subrange(0, 0) =~= Seq::<Seq<char>>::empty());
    while i < segments.len()
        invariant
            sv == strings_view(segments@),
            0 <= i <= segments@.len(),
            url_with_path(url@, sv.subrange(0, i as int)) == Some(current@),
        decreases segments@.len() - i,
    {
        assert(sv.subrange(0, i + 1).drop_last() =~= sv.subrange(0, i as int));
        match push_path_segment(current.as_str(), segments[i].as_str()) {
            Some(next) => {
                current = next;
            },
            None => {
                proof {
                    lemma_path_stays_none(url@, sv, i as int + 1);
                }
                return None;
            },
        }
        i += 1;
    }
    assert(sv.subrange(0, segments@.len() as int) =~= sv);
    Some(current)
}

} // verus!
