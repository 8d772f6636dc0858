//! The OAuth parameter set: collection, the canonical parameter string, the
//! signing key, and the `Authorization` header.
//!
//! Parameters are an explicit list of `(key, value)` pairs with the values
//! already percent-encoded; canonical order is always derived by sorting at
//! use time, never by the order of insertion.

use vstd::prelude::*;
use vstd::relations::sorted_by;
use vstd::string::StringExecFns;
use crate::encode::{pe_str, percent_encode};
use crate::order::{lex_leq, str_views, sort_strings, lemma_lex_total_ordering};

verus! {

/// `key=value`.
pub open spec fn kv_pair(k: Seq<char>, v: Seq<char>) -> Seq<char> {
    k + seq!['='] + v
}

/// `key="value"`.
pub open spec fn kv_quoted(k: Seq<char>, v: Seq<char>) -> Seq<char> {
    k + seq!['=', '"'] + v + seq!['"']
}

/// The parts joined with a separator between consecutive parts.
pub open spec fn join_with(parts: Seq<Seq<char>>, sep: Seq<char>) -> Seq<char>
    decreases parts.len(),
{
    if parts.len() == 0 {
        Seq::empty()
    } else if parts.len() == 1 {
        parts[0]
    } else {
        parts[0] + sep + join_with(parts.drop_first(), sep)
    }
}

proof fn lemma_join_push(parts: Seq<Seq<char>>, sep: Seq<char>, x: Seq<char>)
    requires
        parts.len() >= 1,
    ensures
        join_with(parts.push(x), sep) == join_with(parts, sep) + sep + x,
    decreases parts.len(),
{
    if parts.len() == 1 {
        assert(parts.push(x).drop_first() =~= seq![x]);
        assert(parts.push(x)[0] == parts[0]);
        assert(join_with(seq![x], sep) == seq![x][0]);
        assert(seq![x][0] == x);
        assert(join_with(parts.push(x), sep) == parts[0] + sep + x);
    } else {
        lemma_join_push(parts.drop_first(), sep, x);
        assert(parts.push(x).drop_first() =~= parts.drop_first().push(x));
        assert(parts.push(x)[0] == parts[0]);
        assert(parts[0] + sep + (join_with(parts.drop_first(), sep) + sep + x) =~= (parts[0]
            + sep + join_with(parts.drop_first(), sep)) + sep + x);
    }
}

/// Join strings with a separator.
pub fn join_strings(parts: &Vec<String>, sep: &str) -> (r: String)
    ensures
        r@ == join_with(str_views(parts@), sep@),
{
    let mut r = String::new();
    let mut i: usize = 0;
    proof {
        assert(str_views(parts@).take(0) =~= Seq::<Seq<char>>::empty());
    }
    while i < parts.len()
        invariant
            i <= parts@.len(),
            r@ == join_with(str_views(parts@).take(i as int), sep@),
        decreases parts@.len() - i,
    {
        let ghost pv = str_views(parts@);
        let ghost r0 = r@;
        if i > 0 {
            r.append(sep);
        }
        r.append(parts[i].as_str());
        proof {
            assert(pv[i as int] == parts@[i as int]@);
            assert(pv.take(i + 1) =~= pv.take(i as int).push(pv[i as int]));
            if i == 0 {
                assert(r@ =~= pv[0]);
                assert(pv.take(1)[0] == pv[0]);
                assert(join_with(pv.take(1), sep@) == pv.take(1)[0]);
            } else {
                lemma_join_push(pv.take(i as int), sep@, pv[i as int]);
                assert(r@ == (r0 + sep@) + pv[i as int]);
                assert((r0 + sep@) + pv[i as int] =~= r0 + sep@ + pv[i as int]);
            }
        }
        i = i + 1;
    }
    proof {
        assert(str_views(parts@).take(parts@.len() as int) =~= str_views(parts@));
    }
    r
}

/// Build `key=value`.
pub fn kv_string(k: &str, v: &str) -> (r: String)
    ensures
        r@ == kv_pair(k@, v@),
{
    let mut r = String::from_str(k);
    r.append("=");
    r.append(v);
    proof {
        reveal_strlit("=");
        assert("="@ =~= seq!['=']);
    }
    r
}

/// Build `key="value"`.
pub fn kv_quoted_string(k: &str, v: &str) -> (r: String)
    ensures
        r@ == kv_quoted(k@, v@),
{
    let mut r = String::from_str(k);
    r.append("=\"");
    r.append(v);
    r.append("\"");
    proof {
        reveal_strlit("=\"");
        reveal_strlit("\"");
        assert("=\""@ =~= seq!['=', '"']);
        assert("\""@ =~= seq!['"']);
    }
    r
}

/// The views of a list of string pairs.
pub open spec fn pair_views(pairs: Seq<(String, String)>) -> Seq<(Seq<char>, Seq<char>)> {
    pairs.map_values(|p: (String, String)| (p.0@, p.1@))
}

/// The six protocol parameters, every value percent-encoded.
pub open spec fn protocol_params(ck: Seq<char>, tok: Seq<char>, ts: Seq<char>, nonce: Seq<char>) -> Seq<
    (Seq<char>, Seq<char>),
> {
    seq![
        ("oauth_consumer_key"@, pe_str(ck)),
        ("oauth_nonce"@, pe_str(nonce)),
        ("oauth_signature_method"@, pe_str("HMAC-SHA1"@)),
        ("oauth_timestamp"@, pe_str(ts)),
        ("oauth_token"@, pe_str(tok)),
        ("oauth_version"@, pe_str("1.0"@)),
    ]
}

/// Gather the six protocol parameters for one request.
pub fn collect_params(consumer_key: &str, access_token: &str, timestamp: &str, nonce: &str) -> (r:
    Vec<(String, String)>)
    ensures
        pair_views(r@) == protocol_params(consumer_key@, access_token@, timestamp@, nonce@),
{
    let mut r: Vec<(String, String)> = Vec::new();
    r.push((String::from_str("oauth_consumer_key"), percent_encode(consumer_key)));
    r.push((String::from_str("oauth_nonce"), percent_encode(nonce)));
    r.push((String::from_str("oauth_signature_method"), percent_encode("HMAC-SHA1")));
    r.push((String::from_str("oauth_timestamp"), percent_encode(timestamp)));
    r.push((String::from_str("oauth_token"), percent_encode(access_token)));
    r.push((String::from_str("oauth_version"), percent_encode("1.0")));
    proof {
        assert(pair_views(r@) =~= protocol_params(
            consumer_key@,
            access_token@,
            timestamp@,
            nonce@,
        ));
    }
    r
}

/// The `key=value` strings of the pairs.
pub open spec fn kv_strings_of(pairs: Seq<(Seq<char>, Seq<char>)>) -> Seq<Seq<char>> {
    pairs.map_values(|p: (Seq<char>, Seq<char>)| kv_pair(p.0, p.1))
}

/// The canonical parameter string: the pairs' `key=value` strings plus
/// `status=<encoded status>`, sorted lexicographically, joined with `&`.
pub open spec fn param_string_spec(pairs: Seq<(Seq<char>, Seq<char>)>, status: Seq<char>) -> Seq<
    char,
> {
    join_with(
        kv_strings_of(pairs).push(kv_pair("status"@, pe_str(status))).sort_by(lex_leq()),
        seq!['&'],
    )
}

/// Build the canonical parameter string for the request.
pub fn param_string(params: &Vec<(String, String)>, status: &str) -> (r: String)
    ensures
        r@ == param_string_spec(pair_views(params@), status@),
{
    let mut kvs: Vec<String> = Vec::new();
    let mut i: usize = 0;
    while i < params.len()
        invariant
            i <= params@.len(),
            str_views(kvs@) == kv_strings_of(pair_views(params@)).take(i as int),
        decreases params@.len() - i,
    {
        let ghost pre = str_views(kvs@);
        let s = kv_string(params[i].0.as_str(), params[i].1.as_str());
        kvs.push(s);
        proof {
            let all = kv_strings_of(pair_views(params@));
            assert(all[i as int] == kv_pair(params@[i as int].0@, params@[i as int].1@));
            assert(str_views(kvs@) =~= pre.push(s@));
            assert(all.take(i + 1) =~= all.take(i as int).push(all[i as int]));
        }
        i = i + 1;
    }
    let enc_status = percent_encode(status);
    let sq = kv_string("status", enc_status.as_str());
    kvs.push(sq);
    proof {
        let all = kv_strings_of(pair_views(params@));
        assert(all.take(params@.len() as int) =~= all);
        assert(str_views(kvs@) =~= all.push(kv_pair("status"@, pe_str(status@))));
    }
    let sorted = sort_strings(&kvs);
    let r = join_strings(&sorted, "&");
    proof {
        reveal_strlit("&");
        assert("&"@ =~= seq!['&']);
    }
    r
}

/// The signing key: percent-encoded consumer secret and percent-encoded
/// token secret, joined with `&`.
pub open spec fn signing_key_spec(consumer_secret: Seq<char>, token_secret: Seq<char>) -> Seq<
    char,
> {
    pe_str(consumer_secret) + seq!['&'] + pe_str(token_secret)
}

/// Derive the signing key from the two secrets.
pub fn signing_key(consumer_secret: &str, token_secret: &str) -> (r: String)
    ensures
        r@ == signing_key_spec(consumer_secret@, token_secret@),
{
    let mut r = percent_encode(consumer_secret);
    r.append("&");
    let t = percent_encode(token_secret);
    r.append(t.as_str());
    proof {
        reveal_strlit("&");
        assert("&"@ =~= seq!['&']);
    }
    r
}

/// The `key="value"` strings of the pairs.
pub open spec fn quoted_strings_of(pairs: Seq<(Seq<char>, Seq<char>)>) -> Seq<Seq<char>> {
    pairs.map_values(|p: (Seq<char>, Seq<char>)| kv_quoted(p.0, p.1))
}

/// The `Authorization` value: the pairs plus `oauth_signature`, each as
/// `key="value"`, sorted by that full string, joined with `, `, after
/// `OAuth `. The request's own parameters (`status`) are not part of it.
pub open spec fn header_spec(pairs: Seq<(Seq<char>, Seq<char>)>, sig: Seq<char>) -> Seq<char> {
    "OAuth "@ + join_with(
        quoted_strings_of(pairs.push(("oauth_signature"@, sig))).sort_by(lex_leq()),
        ", "@,
    )
}

/// Law: the header lists exactly the given parameters plus the signature,
/// sorted lexicographically by the full `key="value"` string.
pub proof fn lemma_header_entries(pairs: Seq<(Seq<char>, Seq<char>)>, sig: Seq<char>)
    ensures
        ({
            let entries = quoted_strings_of(pairs.push(("oauth_signature"@, sig)));
            let sorted = entries.sort_by(lex_leq());
            sorted_by(sorted, lex_leq()) && sorted.to_multiset() == entries.to_multiset()
        }),
{
    let entries = quoted_strings_of(pairs.push(("oauth_signature"@, sig)));
    lemma_lex_total_ordering();
    entries.lemma_sort_by_ensures(lex_leq());
}

/// Assemble the `Authorization` header value from the protocol parameters
/// and the computed signature.
pub fn authorization_header(params: &Vec<(String, String)>, signature: &str) -> (r: String)
    ensures
        r@ == header_spec(pair_views(params@), signature@),
{
    let mut q: Vec<String> = Vec::new();
    let mut i: usize = 0;
    while i < params.len()
        invariant
            i <= params@.len(),
            str_views(q@) == quoted_strings_of(pair_views(params@)).take(i as int),
        decreases params@.len() - i,
    {
        let ghost pre = str_views(q@);
        let s = kv_quoted_string(params[i].0.as_str(), params[i].1.as_str());
        q.push(s);
        proof {
            let all = quoted_strings_of(pair_views(params@));
            assert(all[i as int] == kv_quoted(params@[i as int].0@, params@[i as int].1@));
            assert(str_views(q@) =~= pre.push(s@));
            assert(all.take(i + 1) =~= all.take(i as int).push(all[i as int]));
        }
        i = i + 1;
    }
    let sq = kv_quoted_string("oauth_signature", signature);
    q.push(sq);
    proof {
        let all = quoted_strings_of(pair_views(params@));
        assert(all.take(params@.len() as int) =~= all);
        assert(quoted_strings_of(pair_views(params@).push(("oauth_signature"@, signature@)))
            =~= all.push(kv_quoted("oauth_signature"@, signature@)));
        assert(str_views(q@) =~= all.push(kv_quoted("oauth_signature"@, signature@)));
    }
    let sorted = sort_strings(&q);
    let joined = join_strings(&sorted, ", ");
    let mut r = String::from_str("OAuth ");
    r.append(joined.as_str());
    r
}

} // verus!
