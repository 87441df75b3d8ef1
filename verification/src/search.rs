//! Search: building the query-parameter list for the service's search
//! endpoint, and the shape of its response. The title filter is validated
//! before any network activity; a violation aborts the run.

use vstd::prelude::*;
use vstd::string::StringExecFns;
use crate::text::{dec_str, push_char, u32_to_string, u64_to_string};

verus! {

/// The search parameters as the service echoes them back.
pub struct Parameters {
    /// Title text search.
    pub title: Option<String>,
    /// Exact name of a map.
    pub map: Option<String>,
    /// Uploader, as a numeric 64-bit Steam ID.
    pub uploader: Option<u64>,
    /// Players, as numeric 64-bit Steam IDs.
    pub players: Option<Vec<u64>>,
    /// Limit on the number of results.
    pub limit: Option<u32>,
    /// Offset into the results.
    pub offset: Option<u32>,
}

/// One listing entry of a search response.
pub struct SearchResults {
    /// The log's ID.
    pub id: u32,
    /// The log's title.
    pub title: String,
    /// The map played.
    pub map: String,
    /// Upload date, as a Unix timestamp.
    pub date: u32,
    /// View count.
    pub views: u32,
    /// Number of players in the log.
    pub players: u8,
}

/// A whole search response.
pub struct SearchResponse {
    /// How many results this response holds.
    pub results: u32,
    /// How many results the query matched in total.
    pub total: u32,
    /// The parameters the service applied.
    pub parameters: Parameters,
    /// The matching logs.
    pub logs: Vec<SearchResults>,
}

/// A configuration error: reported before any network activity, and the run
/// aborts.
#[derive(Debug)]
pub enum SearchError {
    /// The title filter is under two characters.
    TitleTooShort,
}

/// Numeric IDs joined with commas, each in decimal.
pub open spec fn joined_ids(ids: Seq<u64>) -> Seq<char>
    decreases ids.len(),
{
    if ids.len() == 0 {
        Seq::empty()
    } else if ids.len() == 1 {
        dec_str(ids[0] as nat)
    } else {
        joined_ids(ids.drop_last()) + seq![','] + dec_str(ids.last() as nat)
    }
}

/// Joins numeric IDs with commas, matching `joined_ids`.
pub fn join_ids(ids: &Vec<u64>) -> (r: String)
    ensures
        r@ == joined_ids(ids@),
{
    let mut r = String::new();
    let mut i: usize = 0;
    while i < ids.len()
        invariant
            0 <= i <= ids@.len(),
            r@ == joined_ids(ids@.take(i as int)),
        decreases ids@.len() - i,
    {
        proof {
            assert(ids@.take(i + 1).drop_last() =~= ids@.take(i as int));
            assert(ids@.take(i + 1).last() == ids@[i as int]);
        }
        if i > 0 {
            push_char(&mut r, ',');
        }
        let d = u64_to_string(ids[i]);
        r.append(d.as_str());
        proof {
            if i == 0 {
                assert(r@ =~= joined_ids(ids@.take(1)));
            } else {
                assert(r@ =~= joined_ids(ids@.take(i + 1)));
            }
        }
        i = i + 1;
    }
    proof {
        assert(ids@.take(ids@.len() as int) =~= ids@);
    }
    r
}

/// The view of a built query list: each pair as character strings.
pub open spec fn query_view(pairs: Seq<(String, String)>) -> Seq<(Seq<char>, Seq<char>)> {
    pairs.map_values(|p: (String, String)| (p.0@, p.1@))
}

/// A query pair for a filter, when the filter is set.
pub open spec fn opt_pair(key: Seq<char>, v: Option<Seq<char>>) -> Seq<(Seq<char>, Seq<char>)> {
    match v {
        Some(s) => seq![(key, s)],
        None => Seq::empty(),
    }
}

/// The decimal rendering of a set numeric filter.
pub open spec fn opt_dec(v: Option<u64>) -> Option<Seq<char>> {
    match v {
        Some(n) => Some(dec_str(n as nat)),
        None => None,
    }
}

/// The query-parameter list for a search request: one pair per filter that
/// is set, in the service's expected order; players are comma-joined.
pub open spec fn search_query_view(
    title: Option<Seq<char>>,
    map: Option<Seq<char>>,
    uploader: Option<u64>,
    players: Option<Seq<u64>>,
    limit: Option<u32>,
    offset: Option<u32>,
) -> Seq<(Seq<char>, Seq<char>)> {
    opt_pair("title"@, title) + opt_pair("map"@, map) + opt_pair("uploader"@, opt_dec(uploader))
        + opt_pair(
        "player"@,
        match players {
            Some(ps) => Some(joined_ids(ps)),
            None => None,
        },
    ) + opt_pair(
        "limit"@,
        opt_dec(
            match limit {
                Some(v) => Some(v as u64),
                None => None,
            },
        ),
    ) + opt_pair(
        "offset"@,
        opt_dec(
            match offset {
                Some(v) => Some(v as u64),
                None => None,
            },
        ),
    )
}

/// Builds the query-parameter list for a search request, matching
/// `search_query_view`; a title filter under two characters is rejected
/// instead, and nothing else is ever rejected.
pub fn build_search_query(
    title: &Option<String>,
    map: &Option<String>,
    uploader: &Option<u64>,
    players: &Option<Vec<u64>>,
    limit: &Option<u32>,
    offset: &Option<u32>,
) -> (r: Result<Vec<(String, String)>, SearchError>)
    ensures
        r is Ok <==> (match title {
            Some(t) => t@.len() >= 2,
            None => true,
        }),
        r matches Ok(pairs) ==> query_view(pairs@) == search_query_view(
            title.deep_view(),
            map.deep_view(),
            *uploader,
            players.deep_view(),
            *limit,
            *offset,
        ),
{
    if let Some(t) = title {
        if t.unicode_len() < 2 {
            return Err(SearchError::TitleTooShort);
        }
    }
    let mut pairs: Vec<(String, String)> = Vec::new();
    if let Some(t) = title {
        pairs.push((String::from_str("title"), t.clone()));
    }
    proof {
        assert(query_view(pairs@) =~= opt_pair("title"@, title.deep_view()));
    }
    let ghost v1 = query_view(pairs@);
    if let Some(m) = map {
        pairs.push((String::from_str("map"), m.clone()));
    }
    proof {
        assert(query_view(pairs@) =~= v1 + opt_pair("map"@, map.deep_view()));
    }
    let ghost v2 = query_view(pairs@);
    if let Some(u) = uploader {
        pairs.push((String::from_str("uploader"), u64_to_string(*u)));
    }
    proof {
        assert(query_view(pairs@) =~= v2 + opt_pair("uploader"@, opt_dec(*uploader)));
    }
    let ghost v3 = query_view(pairs@);
    if let Some(ps) = players {
        pairs.push((String::from_str("player"), join_ids(ps)));
        proof {
            assert(ps.deep_view() =~= ps@);
        }
    }
    proof {
        assert(query_view(pairs@) =~= v3 + opt_pair(
            "player"@,
            match players.deep_view() {
                Some(ps) => Some(joined_ids(ps)),
                None => None,
            },
        ));
    }
    let ghost v4 = query_view(pairs@);
    if let Some(l) = limit {
        pairs.push((String::from_str("limit"), u32_to_string(*l)));
    }
    proof {
        assert(query_view(pairs@) =~= v4 + opt_pair(
            "limit"@,
            opt_dec(
                match *limit {
                    Some(v) => Some(v as u64),
                    None => None,
                },
            ),
        ));
    }
    let ghost v5 = query_view(pairs@);
    if let Some(o) = offset {
        pairs.push((String::from_str("offset"), u32_to_string(*o)));
    }
    proof {
        assert(query_view(pairs@) =~= v5 + opt_pair(
            "offset"@,
            opt_dec(
                match *offset {
                    Some(v) => Some(v as u64),
                    None => None,
                },
            ),
        ));
        assert(query_view(pairs@) == search_query_view(
            title.deep_view(),
            map.deep_view(),
            *uploader,
            players.deep_view(),
            *limit,
            *offset,
        ));
    }
    Ok(pairs)
}

/// The log IDs a search response lists, in order.
pub fn search_log_ids(resp: &SearchResponse) -> (r: Vec<u32>)
    ensures
        r@ == resp.logs@.map_values(|l: SearchResults| l.id),
{
    let mut r: Vec<u32> = Vec::new();
    let mut i: usize = 0;
    while i < resp.logs.len()
        invariant
            0 <= i <= resp.logs@.len(),
            r@ == resp.logs@.map_values(|l: SearchResults| l.id).take(i as int),
        decreases resp.logs@.len() - i,
    {
        r.push(resp.logs[i].id);
        proof {
            assert(r@ =~= resp.logs@.map_values(|l: SearchResults| l.id).take(i + 1));
        }
        i = i + 1;
    }
    proof {
        assert(resp.logs@.map_values(|l: SearchResults| l.id).take(resp.logs@.len() as int)
            =~= resp.logs@.map_values(|l: SearchResults| l.id));
    }
    r
}

} // verus!
