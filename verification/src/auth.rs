use vstd::prelude::*;

use crate::text::same_text;

verus! {

/// The claims of a session token: the user id and the expiry.
#[derive(Debug)]
pub struct Claims {
    pub sub: String,
    pub exp: usize,
}

/// The expiry every issued token carries.
pub const TOKEN_EXPIRY: u64 = 1000000000000000000;

impl Claims {
    /// Claims for user `sub`, with the fixed expiry; the expiry needs a 64-bit
    /// `usize`.
    pub fn new(sub: String) -> (c: Self)
        requires
            usize::MAX >= TOKEN_EXPIRY,
        ensures
            c.sub == sub,
            c.exp == TOKEN_EXPIRY,
    {
        Self { sub, exp: TOKEN_EXPIRY as usize }
    }
}

/// The answer to a sign-in: the session token.
#[derive(Debug)]
pub struct SignInResponse {
    pub token: String,
}

/// What the `/me` route tells about the signed-in user.
#[derive(Debug)]
pub struct GetUserResponse {
    pub username: String,
    pub email: String,
}

/// The claims of the token that authenticated a request.
#[derive(Debug)]
pub struct JwtClaims(pub Claims);

/// The first index at or after `i` where `q` holds `c`, or `q.len()`.
pub open spec fn index_of_from(q: Seq<char>, c: char, i: int) -> int
    decreases q.len() - i,
{
    if i >= q.len() {
        q.len() as int
    } else if q[i] == c {
        i
    } else {
        index_of_from(q, c, i + 1)
    }
}

pub proof fn lemma_index_of_from(q: Seq<char>, c: char, i: int)
    requires
        0 <= i <= q.len(),
    ensures
        i <= index_of_from(q, c, i) <= q.len(),
        index_of_from(q, c, i) < q.len() ==> q[index_of_from(q, c, i)] == c,
        forall|j: int| i <= j < index_of_from(q, c, i) ==> q[j] != c,
    decreases q.len() - i,
{
    if i < q.len() && q[i] != c {
        lemma_index_of_from(q, c, i + 1);
    }
}

/// The value of the first `token` parameter of query string `q` at or after
/// position `start`: the parameters are separated by `&`, and in each the
/// name runs up to the first `=` and the value is the rest; a parameter
/// without `=` has no value.
pub open spec fn query_token_from(q: Seq<char>, start: int) -> Option<Seq<char>>
    decreases q.len() - start,
{
    if start < 0 || start > q.len() {
        None
    } else {
        let end = index_of_from(q, '&', start);
        let eq = index_of_from(q, '=', start);
        proof {
            lemma_index_of_from(q, '&', start);
        }
        if eq < end && q.subrange(start, eq) == "token"@ {
            Some(q.subrange(eq + 1, end))
        } else if end < q.len() {
            query_token_from(q, end + 1)
        } else {
            None
        }
    }
}

/// The value of the first `token` parameter of query string `q`.
pub open spec fn query_token(q: Seq<char>) -> Option<Seq<char>> {
    query_token_from(q, 0)
}

/// The first index at or after `from` where `s` holds `c`, or `s`'s length.
fn index_of(s: &str, n: usize, c: char, from: usize) -> (r: usize)
    requires
        n == s@.len(),
        from <= n,
    ensures
        r == index_of_from(s@, c, from as int),
{
    let mut i = from;
    while i < n
        invariant
            from <= i <= n,
            n == s@.len(),
            index_of_from(s@, c, from as int) == index_of_from(s@, c, i as int),
        decreases n - i,
    {
        if s.get_char(i) == c {
            return i;
        }
        i = i + 1;
    }
    i
}

/// The value of the first `token` parameter of the query string `query`.
pub fn token_in_query(query: &str) -> (r: Option<String>)
    ensures
        match query_token(query@) {
            Some(t) => r matches Some(v) && v@ == t,
            None => r is None,
        },
{
    let n = query.unicode_len();
    let mut start: usize = 0;
    loop
        invariant
            start <= n,
            n == query@.len(),
            query_token(query@) == query_token_from(query@, start as int),
        decreases n - start,
    {
        let end = index_of(query, n, '&', start);
        let eq = index_of(query, n, '=', start);
        proof {
            lemma_index_of_from(query@, '&', start as int);
            lemma_index_of_from(query@, '=', start as int);
        }
        if eq < end {
            let name = query.substring_char(start, eq);
            if same_text(name, "token") {
                let value = query.substring_char(eq + 1, end);
                return Some(value.to_string());
            }
        }
        if end < n {
            start = end + 1;
        } else {
            return None;
        }
    }
}

/// The token a request presents: the `Authorization` header's value when
/// there is one, else the `token` parameter of the query string.
pub fn select_token(authorization: Option<String>, query: &str) -> (r: Option<String>)
    ensures
        match authorization {
            Some(h) => r == Some(h),
            None => match query_token(query@) {
                Some(t) => r matches Some(v) && v@ == t,
                None => r is None,
            },
        },
{
    match authorization {
        Some(h) => Some(h),
        None => token_in_query(query),
    }
}

/// `index_of_from` finds `c` at the first place at or after `i` that holds it.
proof fn lemma_index_of_is(q: Seq<char>, c: char, i: int, k: int)
    requires
        0 <= i <= k <= q.len(),
        k < q.len() ==> q[k] == c,
        forall|j: int| i <= j < k ==> q[j] != c,
    ensures
        index_of_from(q, c, i) == k,
{
    lemma_index_of_from(q, c, i);
    let r = index_of_from(q, c, i);
    if r < k {
        assert(q[r] == c);
    }
    if k < r {
        assert(q[k] != c);
    }
}

/// A query string that is the single parameter `token=` followed by a value
/// without `&` yields that whole value as the token, whatever characters
/// (`=`, `.`, ...) it holds.
pub proof fn sole_token_parameter_is_read_whole(v: Seq<char>)
    requires
        forall|j: int| 0 <= j < v.len() ==> v[j] != '&',
    ensures
        query_token("token="@ + v) == Some(v),
{
    reveal_strlit("token=");
    reveal_strlit("token");
    let q = "token="@ + v;
    assert forall|j: int| 0 <= j < q.len() implies q[j] != '&' by {
        if j >= 6 {
            assert(q[j] == v[j - 6]);
        }
    }
    lemma_index_of_is(q, '&', 0, q.len() as int);
    lemma_index_of_is(q, '=', 0, 5);
    assert(q.subrange(0, 5) =~= "token"@);
    assert(q.subrange(6, q.len() as int) =~= v);
}

/// A parameter that is not named `token` is skipped: after `name=value&`
/// with another name, the token is read from the rest of the query as if it
/// stood alone.
pub proof fn token_after_other_parameter(name: Seq<char>, value: Seq<char>, rest: Seq<char>)
    requires
        name != "token"@,
        forall|j: int| 0 <= j < name.len() ==> name[j] != '&' && name[j] != '=',
        forall|j: int| 0 <= j < value.len() ==> value[j] != '&',
    ensures
        query_token(name + "="@ + value + "&"@ + rest) == query_token(rest),
{
    reveal_strlit("=");
    reveal_strlit("&");
    let q = name + "="@ + value + "&"@ + rest;
    let n = name.len() as int;
    let amp = n + 1 + value.len();
    assert forall|j: int| 0 <= j < amp implies q[j] != '&' by {
        if j < n {
            assert(q[j] == name[j]);
        } else if j > n {
            assert(q[j] == value[j - n - 1]);
        }
    }
    assert(q[amp] == '&');
    lemma_index_of_is(q, '&', 0, amp);
    assert forall|j: int| 0 <= j < n implies q[j] != '=' by {
        assert(q[j] == name[j]);
    }
    assert(q[n] == '=');
    lemma_index_of_is(q, '=', 0, n);
    assert(q.subrange(0, n) =~= name);
    assert(q.subrange(amp + 1, q.len() as int) =~= rest) by {
        assert forall|j: int| 0 <= j < rest.len() implies q[amp + 1 + j] == rest[j] by {}
    }
    lemma_token_from_shift(q, rest, amp + 1);
}

/// Reading from position `d` of `q` is reading from the start of `rest` when
/// `rest` is what `q` holds from `d` on.
proof fn lemma_token_from_shift(q: Seq<char>, rest: Seq<char>, d: int)
    requires
        0 <= d <= q.len(),
        q.subrange(d, q.len() as int) == rest,
    ensures
        query_token_from(q, d) == query_token_from(rest, 0),
{
    lemma_token_from_shift_at(q, rest, d, 0);
}

proof fn lemma_index_shift(q: Seq<char>, rest: Seq<char>, d: int, c: char, t: int)
    requires
        0 <= d,
        0 <= t <= rest.len(),
        d + rest.len() == q.len(),
        forall|j: int| 0 <= j < rest.len() ==> rest[j] == q[d + j],
    ensures
        index_of_from(q, c, d + t) == d + index_of_from(rest, c, t),
    decreases rest.len() - t,
{
    if t < rest.len() && rest[t] != c {
        lemma_index_shift(q, rest, d, c, t + 1);
    }
}

proof fn lemma_token_from_shift_at(q: Seq<char>, rest: Seq<char>, d: int, t: int)
    requires
        0 <= d <= q.len(),
        q.subrange(d, q.len() as int) == rest,
        0 <= t <= rest.len(),
    ensures
        query_token_from(q, d + t) == query_token_from(rest, t),
    decreases rest.len() - t,
{
    assert forall|j: int| 0 <= j < rest.len() implies rest[j] == q[d + j] by {
        assert(rest[j] == q.subrange(d, q.len() as int)[j]);
    }
    lemma_index_shift(q, rest, d, '&', t);
    lemma_index_shift(q, rest, d, '=', t);
    lemma_index_of_from(rest, '&', t);
    lemma_index_of_from(rest, '=', t);
    let end = index_of_from(rest, '&', t);
    let eq = index_of_from(rest, '=', t);
    assert(q.subrange(d + t, d + eq) =~= rest.subrange(t, eq));
    if eq < end {
        assert(q.subrange(d + eq + 1, d + end) =~= rest.subrange(eq + 1, end));
    }
    if end < rest.len() {
        lemma_token_from_shift_at(q, rest, d, end + 1);
    }
}

} // verus!
