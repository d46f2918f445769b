//! Connection requests inside the addresses that clients connect to.

use vstd::prelude::*;
use vstd::string::StringExecFns;

use crate::percent::{decode_binary, encode_binary};

verus! {

/// Key for connection requests inserted as query pairs into HTTP connection requests.
pub const HTTP_CONNECT_REQ: &'static str = "creq";

/// Why there is no connection request in an address.
#[derive(Debug, Clone, Copy, PartialEq, Eq, Structural)]
pub enum RequestError {
    /// The address has no query.
    MissingQuery,
    /// The query has no connection request.
    MissingRequest,
    /// The connection request cannot be read.
    MalformedRequest,
}

/// The pattern is at position `i`.
pub open spec fn occurs_at(data: Seq<u8>, pattern: Seq<u8>, i: int) -> bool {
    &&& 0 <= i
    &&& i + pattern.len() <= data.len()
    &&& data.subrange(i, i + pattern.len()) == pattern
}

/// The pattern is at position `i` and nowhere before.
pub open spec fn first_at(data: Seq<u8>, pattern: Seq<u8>, i: int) -> bool {
    &&& occurs_at(data, pattern, i)
    &&& forall|j: int| 0 <= j < i ==> !#[trigger] occurs_at(data, pattern, j)
}

/// What is behind the first occurrence of the pattern, if there is one.
pub open spec fn after_first(data: Seq<u8>, pattern: Seq<u8>) -> Option<Seq<u8>> {
    if exists|i: int| first_at(data, pattern, i) {
        Some(data.skip((choose|i: int| first_at(data, pattern, i)) + pattern.len()))
    } else {
        None
    }
}

/// There is only one first occurrence.
proof fn lemma_after_first(data: Seq<u8>, pattern: Seq<u8>, i: int)
    requires
        first_at(data, pattern, i),
    ensures
        after_first(data, pattern) == Some(data.skip(i + pattern.len())),
{
    let k = choose|k: int| first_at(data, pattern, k);
    assert(occurs_at(data, pattern, k));
    assert(occurs_at(data, pattern, i));
}

/// Looks for the first occurrence of a pattern, and returns what is behind it.
pub fn split_after<'a>(data: &'a [u8], pattern: &[u8]) -> (r: Option<&'a [u8]>)
    ensures
        match r {
            Some(rest) => after_first(data@, pattern@) == Some(rest@),
            None => after_first(data@, pattern@) is None,
        },
{
    if pattern.len() > data.len() {
        assert forall|i: int| !first_at(data@, pattern@, i) by {}
        return None;
    }
    let len = data.len();
    let last = len - pattern.len();
    let mut i: usize = 0;
    while i <= last
        invariant
            len == data@.len(),
            last == len - pattern@.len(),
            i <= last + 1,
            forall|j: int| 0 <= j < i ==> !#[trigger] occurs_at(data@, pattern@, j),
        decreases last + 1 - i,
    {
        let mut k: usize = 0;
        while k < pattern.len() && data[i + k] == pattern[k]
            invariant
                len == data@.len(),
                last == len - pattern@.len(),
                i <= last,
                k <= pattern@.len(),
                data@.subrange(i as int, i + k) =~= pattern@.take(k as int),
            decreases pattern@.len() - k,
        {
            k = k + 1;
        }
        if k == pattern.len() {
            assert(pattern@.take(k as int) =~= pattern@);
            assert(occurs_at(data@, pattern@, i as int));
            proof {
                lemma_after_first(data@, pattern@, i as int);
            }
            let rest = vstd::slice::slice_subrange(data, i + k, len);
            assert(rest@ =~= data@.skip(i + k));
            return Some(rest);
        }
        assert(!occurs_at(data@, pattern@, i as int)) by {
            assert(data@.subrange(i as int, i + pattern@.len())[k as int] == data@[i + k]);
        }
        if i == last {
            assert forall|j: int| !first_at(data@, pattern@, j) by {
                if first_at(data@, pattern@, j) {
                    assert(occurs_at(data@, pattern@, j));
                }
            }
            return None;
        }
        i = i + 1;
    }
    None
}

/// The key of connection requests, as bytes.
pub open spec fn connect_key() -> Seq<u8> {
    seq![99u8, 114, 101, 113]
}

/// The connection request in a path, as it stands there: behind the first `creq` in the query and
/// the equals sign that follows it.
pub open spec fn encoded_request(path: Seq<u8>) -> Result<Seq<u8>, RequestError> {
    match after_first(path, seq![63u8]) {
        None => Err(RequestError::MissingQuery),
        Some(query) => match after_first(query, connect_key()) {
            None => Err(RequestError::MissingRequest),
            Some(rest) => if rest.len() > 0 && rest[0] == 61 {
                Ok(rest.skip(1))
            } else {
                Err(RequestError::MissingRequest)
            },
        },
    }
}

/// The connection request in a path.
pub open spec fn request_in_path(path: Seq<u8>) -> Result<Seq<u8>, RequestError> {
    match encoded_request(path) {
        Ok(encoded) => Ok(crate::percent::percent_decoded(encoded)),
        Err(e) => Err(e),
    }
}

/// Extracts the connection request of a client from the path that it connects to, where the
/// request is percent-encoded.
pub fn extract_client_connection_req(path: &str) -> (r: Result<Vec<u8>, RequestError>)
    ensures
        match r {
            Ok(request) => request_in_path(vstd::utf8::encode_utf8(path@)) == Ok::<Seq<u8>, RequestError>(
                request@,
            ),
            Err(e) => request_in_path(vstd::utf8::encode_utf8(path@)) == Err::<Seq<u8>, RequestError>(e),
        },
{
    let bytes = path.as_bytes();
    let mark: [u8; 1] = [63];
    assert(mark@ =~= seq![63u8]);
    let query = match split_after(bytes, mark.as_slice()) {
        Some(query) => query,
        None => {
            return Err(RequestError::MissingQuery);
        },
    };
    let key = HTTP_CONNECT_REQ.as_bytes();
    proof {
        lemma_connect_key();
    }
    let rest = match split_after(query, key) {
        Some(rest) => rest,
        None => {
            return Err(RequestError::MissingRequest);
        },
    };
    if rest.len() == 0 || rest[0] != 61 {
        return Err(RequestError::MissingRequest);
    }
    let encoded = vstd::slice::slice_subrange(rest, 1, rest.len());
    assert(encoded@ =~= rest@.skip(1));
    Ok(decode_binary(encoded))
}

/// The key is made of these ASCII characters.
proof fn lemma_connect_key()
    ensures
        vstd::utf8::encode_utf8(HTTP_CONNECT_REQ@) == connect_key(),
        HTTP_CONNECT_REQ@ == crate::percent::ascii_text(connect_key()),
{
    reveal_strlit("creq");
    assert(HTTP_CONNECT_REQ@ =~= crate::percent::ascii_text(connect_key()));
    crate::percent::lemma_ascii_bytes(connect_key());
}

/// The query that carries a connection request, as bytes.
pub open spec fn connect_query_bytes(request: Seq<u8>) -> Seq<u8> {
    connect_key() + seq![61u8] + crate::percent::percent_encoded(request)
}

/// Makes the query that carries a connection request.
pub fn connect_query(request: &[u8]) -> (r: String)
    ensures
        r@ == crate::percent::ascii_text(connect_query_bytes(request@)),
        vstd::utf8::encode_utf8(r@) == connect_query_bytes(request@),
{
    let mut query: String = HTTP_CONNECT_REQ.to_owned();
    query.append("=");
    let encoded = encode_binary(request);
    query.append(encoded.as_str());
    proof {
        reveal_strlit("=");
        lemma_connect_key();
        let bytes = connect_query_bytes(request@);
        assert(query@ =~= crate::percent::ascii_text(bytes));
        crate::percent::encoding_is_plain(request@);
        assert forall|i: int| 0 <= i < bytes.len() implies #[trigger] bytes[i] < 128 by {
            let encoded = crate::percent::percent_encoded(request@);
            if i >= 5 {
                assert(bytes[i] == encoded[i - 5]);
            }
        }
        crate::percent::lemma_ascii_bytes(bytes);
    }
    query
}

/// A server finds in the path of a client the very request that the client put there, whatever
/// page the client connects to.
pub proof fn requests_come_through(page: Seq<u8>, request: Seq<u8>)
    requires
        !page.contains(63),
    ensures
        request_in_path(page + seq![63u8] + connect_query_bytes(request)) == Ok::<
            Seq<u8>,
            RequestError,
        >(request),
{
    let query = connect_query_bytes(request);
    let path = page + seq![63u8] + query;
    let mark = seq![63u8];
    let at = page.len() as int;
    assert(path.subrange(at, at + 1) =~= mark);
    assert forall|j: int| 0 <= j < at implies !#[trigger] occurs_at(path, mark, j) by {
        if occurs_at(path, mark, j) {
            assert(path.subrange(j, j + 1)[0] == 63);
            assert(path[j] == page[j]);
            assert(page.contains(page[j]));
        }
    }
    lemma_after_first(path, mark, at);
    assert(path.skip(at + 1) =~= query);
    let key = connect_key();
    assert(query.subrange(0, 4) =~= key);
    assert(first_at(query, key, 0));
    lemma_after_first(query, key, 0);
    let rest = query.skip(4);
    assert(rest[0] == 61);
    assert(rest.skip(1) =~= crate::percent::percent_encoded(request));
    crate::percent::decoding_undoes_encoding(request);
}

/// The pattern is at a position exactly if its bytes are there.
proof fn lemma_occurs(data: Seq<u8>, i: int)
    ensures
        occurs_at(data, seq![63u8], i) <==> 0 <= i < data.len() && data[i] == 63,
        occurs_at(data, connect_key(), i) <==> 0 <= i && i + 4 <= data.len() && data[i] == 99 && data[i
            + 1] == 114 && data[i + 2] == 101 && data[i + 3] == 113,
{
    if 0 <= i < data.len() {
        let part = data.subrange(i, i + 1);
        assert(part.len() == 1 && part[0] == data[i]);
        if data[i] == 63 {
            assert(part =~= seq![63u8]);
        }
    }
    if 0 <= i && i + 4 <= data.len() {
        let part = data.subrange(i, i + 4);
        assert(part[0] == data[i] && part[1] == data[i + 1] && part[2] == data[i + 2] && part[3]
            == data[i + 3]);
        if data[i] == 99 && data[i + 1] == 114 && data[i + 2] == 101 && data[i + 3] == 113 {
            assert(part =~= connect_key());
        }
    }
}

/// Where there is an occurrence, there is a first one.
proof fn lemma_first_mark(data: Seq<u8>, i: int)
    requires
        0 <= i < data.len(),
        data[i] == 63,
    ensures
        exists|k: int| first_at(data, seq![63u8], k),
    decreases i,
{
    if exists|j: int| 0 <= j < i && data[j] == 63 {
        let j = choose|j: int| 0 <= j < i && data[j] == 63;
        lemma_first_mark(data, j);
    } else {
        lemma_occurs(data, i);
        assert forall|j: int| 0 <= j < i implies !#[trigger] occurs_at(data, seq![63u8], j) by {
            lemma_occurs(data, j);
        }
        assert(first_at(data, seq![63u8], i));
    }
}

/// A path has no query exactly if there is no question mark in it.
pub proof fn queries_begin_with_a_question_mark(path: &str, r: Result<Vec<u8>, RequestError>)
    requires
        call_ensures(extract_client_connection_req, (path,), r),
    ensures
        r is Err && r->Err_0 == RequestError::MissingQuery <==> !vstd::utf8::encode_utf8(
            path@,
        ).contains(63),
        r is Err ==> r->Err_0 != RequestError::MalformedRequest,
{
    let bytes = vstd::utf8::encode_utf8(path@);
    if bytes.contains(63) {
        let i = choose|i: int| 0 <= i < bytes.len() && bytes[i] == 63;
        lemma_first_mark(bytes, i);
    } else {
        assert forall|i: int| !first_at(bytes, seq![63u8], i) by {
            lemma_occurs(bytes, i);
        }
    }
}

/// The connection request is what stands, percent-encoded, behind the first `creq` in the query and the
/// equals sign that must follow it. The query is what stands behind the first question mark.
pub proof fn requests_stand_behind_their_key(
    path: &str,
    r: Result<Vec<u8>, RequestError>,
    mark: int,
    key: int,
)
    requires
        call_ensures(extract_client_connection_req, (path,), r),
        ({
            let bytes = vstd::utf8::encode_utf8(path@);
            &&& 0 <= mark < key
            &&& key + 4 <= bytes.len()
            &&& bytes[mark] == 63
            &&& forall|i: int| 0 <= i < mark ==> bytes[i] != 63
            &&& bytes[key] == 99 && bytes[key + 1] == 114 && bytes[key + 2] == 101 && bytes[key + 3]
                == 113
            &&& forall|i: int|
                mark < i < key ==> !(#[trigger] bytes[i] == 99 && bytes[i + 1] == 114 && bytes[i + 2]
                    == 101 && bytes[i + 3] == 113)
        }),
    ensures
        ({
            let bytes = vstd::utf8::encode_utf8(path@);
            let filled = key + 4 < bytes.len() && bytes[key + 4] == 61;
            &&& r is Ok <==> filled
            &&& r is Ok ==> r->Ok_0@ == crate::percent::percent_decoded(bytes.skip(key + 5))
            &&& r is Err ==> r->Err_0 == RequestError::MissingRequest
        }),
{
    let bytes = vstd::utf8::encode_utf8(path@);
    assert forall|j: int| 0 <= j < mark implies !#[trigger] occurs_at(bytes, seq![63u8], j) by {
        lemma_occurs(bytes, j);
    }
    lemma_occurs(bytes, mark);
    lemma_after_first(bytes, seq![63u8], mark);
    let query = bytes.skip(mark + 1);
    let at = key - mark - 1;
    lemma_occurs(query, at);
    assert forall|j: int| 0 <= j < at implies !#[trigger] occurs_at(query, connect_key(), j) by {
        lemma_occurs(query, j);
        assert(query[j] == bytes[mark + 1 + j]);
        assert(query[j + 1] == bytes[mark + 1 + j + 1]);
        assert(query[j + 2] == bytes[mark + 1 + j + 2]);
        assert(query[j + 3] == bytes[mark + 1 + j + 3]);
    }
    lemma_after_first(query, connect_key(), at);
    let rest = query.skip(at + 4);
    assert(rest =~= bytes.skip(key + 4));
    if rest.len() > 0 {
        assert(rest[0] == bytes[key + 4]);
        assert(rest.skip(1) =~= bytes.skip(key + 5));
    }
}

/// There is no request in a query without its key.
pub proof fn queries_without_key_hold_no_request(
    path: &str,
    r: Result<Vec<u8>, RequestError>,
    mark: int,
)
    requires
        call_ensures(extract_client_connection_req, (path,), r),
        ({
            let bytes = vstd::utf8::encode_utf8(path@);
            &&& 0 <= mark < bytes.len()
            &&& bytes[mark] == 63
            &&& forall|i: int| 0 <= i < mark ==> bytes[i] != 63
            &&& forall|i: int|
                mark < i && i + 4 <= bytes.len() ==> !(#[trigger] bytes[i] == 99 && bytes[i + 1] == 114
                    && bytes[i + 2] == 101 && bytes[i + 3] == 113)
        }),
    ensures
        r is Err,
        r->Err_0 == RequestError::MissingRequest,
{
    let bytes = vstd::utf8::encode_utf8(path@);
    assert forall|j: int| 0 <= j < mark implies !#[trigger] occurs_at(bytes, seq![63u8], j) by {
        lemma_occurs(bytes, j);
    }
    lemma_occurs(bytes, mark);
    lemma_after_first(bytes, seq![63u8], mark);
    let query = bytes.skip(mark + 1);
    assert forall|j: int| !first_at(query, connect_key(), j) by {
        lemma_occurs(query, j);
        if 0 <= j && j + 4 <= query.len() {
            assert(query[j] == bytes[mark + 1 + j]);
            assert(query[j + 1] == bytes[mark + 1 + j + 1]);
            assert(query[j + 2] == bytes[mark + 1 + j + 2]);
            assert(query[j + 3] == bytes[mark + 1 + j + 3]);
        }
    }
}

/// A server finds the very request for which a client made its query, on whatever page that stands.
pub proof fn servers_find_what_clients_send(
    request: &[u8],
    query: String,
    page: Seq<u8>,
    path: &str,
    r: Result<Vec<u8>, RequestError>,
)
    requires
        call_ensures(connect_query, (request,), query),
        !page.contains(63),
        vstd::utf8::encode_utf8(path@) == page + seq![63u8] + vstd::utf8::encode_utf8(query@),
        call_ensures(extract_client_connection_req, (path,), r),
    ensures
        r is Ok,
        r->Ok_0@ == request@,
{
    requests_come_through(page, request@);
}

/// What is returned stands behind the first place where the pattern is, up to the end. There is nothing
/// exactly if the pattern is nowhere.
pub proof fn splits_are_behind_the_first_place(
    data: &[u8],
    pattern: &[u8],
    r: Option<&[u8]>,
    i: int,
)
    requires
        call_ensures(split_after, (data, pattern), r),
        0 <= i,
        i + pattern@.len() <= data@.len(),
        data@.subrange(i, i + pattern@.len()) == pattern@,
    ensures
        r is Some,
        exists|at: int|
            {
                &&& 0 <= at <= i
                &&& #[trigger] data@.subrange(at, at + pattern@.len()) == pattern@
                &&& forall|j: int|
                    0 <= j < at ==> #[trigger] data@.subrange(j, j + pattern@.len()) != pattern@
                &&& r->0@ == data@.skip(at + pattern@.len())
            },
{
    lemma_first_place(data@, pattern@, i);
    let at = choose|at: int| first_at(data@, pattern@, at) && at <= i;
    lemma_after_first(data@, pattern@, at);
    assert(data@.subrange(at, at + pattern@.len()) == pattern@);
    assert forall|j: int| 0 <= j < at implies #[trigger] data@.subrange(j, j + pattern@.len())
        != pattern@ by {
        assert(!occurs_at(data@, pattern@, j));
    }
}

/// Where there is an occurrence, there is a first one.
proof fn lemma_first_place(data: Seq<u8>, pattern: Seq<u8>, i: int)
    requires
        occurs_at(data, pattern, i),
    ensures
        exists|at: int| first_at(data, pattern, at) && at <= i,
    decreases i,
{
    if exists|j: int| 0 <= j < i && occurs_at(data, pattern, j) {
        let j = choose|j: int| 0 <= j < i && occurs_at(data, pattern, j);
        lemma_first_place(data, pattern, j);
    } else {
        assert(first_at(data, pattern, i));
    }
}

} // verus!
