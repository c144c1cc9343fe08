//! The pure request/response half of the syndication client.
//!
//! A fetch is one round trip: build the request URL for an identifier, have
//! the transport perform a GET, then resolve the status and raw body into a
//! post-or-absent outcome or an error. The transport itself (HTTP, headers,
//! timeout) lives with the caller; everything on either side of it is here,
//! verified.

use vstd::prelude::*;
use vstd::string::*;

use crate::codec::{decode_outcome, decode_outcome_spec};
use crate::json::{json_of, parse_json, JsonV};
use crate::token::{calc_token, digit_char, digit_str, token_spec};
use crate::tweet::{
    outcome_view, DecodeError, FetchError, FetchOutcome, OutcomeV, TransportError,
};

verus! {

/// Decimal digits of `n`, most significant first (none for 0).
pub open spec fn dec_chars(n: nat) -> Seq<char>
    decreases n,
{
    if n == 0 {
        Seq::empty()
    } else {
        dec_chars(n / 10).push(digit_char(n % 10))
    }
}

/// The decimal form of `n` (`"0"` for 0).
pub open spec fn dec_str(n: nat) -> Seq<char> {
    if n == 0 {
        seq!['0']
    } else {
        dec_chars(n)
    }
}

/// Render `n` in decimal.
pub fn u64_to_dec(n: u64) -> (r: String)
    ensures
        r@ == dec_str(n as nat),
{
    if n == 0 {
        let z: String = String::from_str("0");
        proof {
            reveal_strlit("0");
            assert(z@ =~= seq!['0']);
        }
        return z;
    }
    let mut digs: Vec<u64> = Vec::new();
    let mut i: u64 = n;
    let ghost fm = |d: u64| digit_char(d as nat);
    proof {
        assert(Seq::<u64>::empty().map_values(fm) =~= Seq::<char>::empty());
        assert(dec_chars(n as nat) =~= dec_chars(i as nat) + digs@.map_values(fm));
    }
    while i > 0
        invariant
            dec_chars(n as nat) == dec_chars(i as nat) + digs@.map_values(fm),
            fm == (|d: u64| digit_char(d as nat)),
        decreases i,
    {
        let d: u64 = i % 10;
        let ghost before = digs@;
        digs.insert(0, d);
        let ghost iold: nat = i as nat;
        i = i / 10;
        proof {
            assert(dec_chars(iold) == dec_chars(iold / 10).push(digit_char(iold % 10)));
            assert(digs@ =~= seq![d] + before);
            assert(digs@.map_values(fm) =~= seq![digit_char(d as nat)] + before.map_values(fm));
            assert(dec_chars(iold / 10).push(digit_char(iold % 10)) =~= dec_chars(iold / 10)
                + seq![digit_char(iold % 10)]);
            assert(dec_chars(i as nat) + digs@.map_values(fm) =~= dec_chars(iold)
                + before.map_values(fm));
        }
    }
    let mut out: String = String::from_str("");
    proof {
        reveal_strlit("");
        assert(out@ =~= digs@.take(0).map_values(fm));
    }
    let mut j: usize = 0;
    let len: usize = digs.len();
    while j < len
        invariant
            len == digs@.len(),
            j <= len,
            out@ == digs@.take(j as int).map_values(fm),
            fm == (|d: u64| digit_char(d as nat)),
        decreases len - j,
    {
        let d: u64 = digs[j];
        let ghost prefix = digs@.take(j as int);
        out.append(digit_str(d));
        j = j + 1;
        proof {
            assert(digs@.take(j as int) =~= prefix.push(d));
            assert(digs@.take(j as int).map_values(fm) =~= prefix.map_values(fm) + seq![
                digit_char(d as nat),
            ]);
        }
    }
    proof {
        assert(digs@.take(len as int) =~= digs@);
        assert(dec_chars(0nat) =~= Seq::<char>::empty());
        assert(Seq::<char>::empty() + digs@.map_values(fm) =~= digs@.map_values(fm));
    }
    out
}

/// The full request URL for an identifier: the fixed endpoint with the
/// identifier (decimal) and its derived token as query parameters.
pub open spec fn url_spec(id: u64) -> Seq<char> {
    "https://cdn.syndication.twimg.com/tweet-result?id="@ + dec_str(id as nat) + "&token="@
        + token_spec(id)
}

/// Build the request URL. Both parameter values are digits and lowercase
/// letters, so the query needs no percent-encoding.
pub fn request_url(id: u64) -> (r: String)
    ensures
        r@ == url_spec(id),
{
    let mut out: String = String::from_str(
        "https://cdn.syndication.twimg.com/tweet-result?id=",
    );
    let dec: String = u64_to_dec(id);
    out.append(dec.as_str());
    out.append("&token=");
    let tok: String = calc_token(id);
    out.append(tok.as_str());
    proof {
        assert(out@ =~= url_spec(id));
    }
    out
}

/// How a status and a parsed body resolve: a non-success status is a
/// transport error whatever the body holds; then unparsable bytes are a
/// decode failure; then the decoded outcome or its decode error.
pub open spec fn response_spec(status: u16, jo: Option<JsonV>) -> Result<OutcomeV, FetchError> {
    if !(200 <= status && status < 300) {
        Err(FetchError::Transport(TransportError::Status(status)))
    } else {
        match jo {
            None => Err(FetchError::Decode(DecodeError::InvalidJson)),
            Some(v) => match decode_outcome_spec(v) {
                Ok(o) => Ok(o),
                Err(e) => Err(FetchError::Decode(e)),
            },
        }
    }
}

/// Resolve an HTTP status and raw response body into the fetch outcome.
///
/// A non-success status surfaces as a transport error before any look at
/// the body: no JSON parsing happens and the body cannot influence the
/// result. On a success status the body is parsed and decoded.
pub fn decode_response(status: u16, body: &[u8]) -> (r: Result<FetchOutcome, FetchError>)
    ensures
        match r {
            Ok(o) => response_spec(status, json_of(body@)) == Ok::<OutcomeV, FetchError>(
                outcome_view(o),
            ),
            Err(e) => response_spec(status, json_of(body@)) == Err::<OutcomeV, FetchError>(e),
        },
        !(200 <= status && status < 300) ==> r == Err::<FetchOutcome, FetchError>(
            FetchError::Transport(TransportError::Status(status)),
        ),
{
    if !(200 <= status && status < 300) {
        return Err(FetchError::Transport(TransportError::Status(status)));
    }
    match parse_json(body) {
        None => Err(FetchError::Decode(DecodeError::InvalidJson)),
        Some(v) => match decode_outcome(&v) {
            Ok(o) => Ok(o),
            Err(e) => Err(FetchError::Decode(e)),
        },
    }
}

} // verus!
