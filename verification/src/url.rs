//! URL assembly: joining a base URL and an endpoint path with exactly one
//! separating slash, and splitting a full URL into its base and last segment.

use vstd::prelude::*;
use vstd::string::StringExecFns;
use vstd::string::StrSliceExecFns;

verus! {

/// The input with every trailing `/` removed.
pub open spec fn strip_trailing_slashes(s: Seq<char>) -> Seq<char>
    decreases s.len(),
{
    if s.len() > 0 && s.last() == '/' {
        strip_trailing_slashes(s.drop_last())
    } else {
        s
    }
}

/// The input with every leading `/` removed.
pub open spec fn strip_leading_slashes(s: Seq<char>) -> Seq<char>
    decreases s.len(),
{
    if s.len() > 0 && s[0] == '/' {
        strip_leading_slashes(s.subrange(1, s.len() as int))
    } else {
        s
    }
}

/// What joining a base and an endpoint produces: the base without trailing
/// slashes, one `/`, then the endpoint without leading slashes.
pub open spec fn joined_url(base: Seq<char>, endpoint: Seq<char>) -> Seq<char> {
    strip_trailing_slashes(base) + seq!['/'] + strip_leading_slashes(endpoint)
}

proof fn lemma_strip_leading_is_subrange(s: Seq<char>, k: int)
    requires
        0 <= k <= s.len(),
        forall|j: int| 0 <= j < k ==> s[j] == '/',
        k == s.len() || s[k] != '/',
    ensures
        strip_leading_slashes(s) == s.subrange(k, s.len() as int),
    decreases k,
{
    if k == 0 {
        assert(s.subrange(0, s.len() as int) == s);
    } else {
        let t = s.subrange(1, s.len() as int);
        lemma_strip_leading_is_subrange(t, k - 1);
        assert(t.subrange(k - 1, t.len() as int) == s.subrange(k, s.len() as int));
    }
}

proof fn lemma_strip_trailing_is_subrange(s: Seq<char>, k: int)
    requires
        0 <= k <= s.len(),
        forall|j: int| k <= j < s.len() ==> s[j] == '/',
        k == 0 || s[k - 1] != '/',
    ensures
        strip_trailing_slashes(s) == s.subrange(0, k),
    decreases s.len(),
{
    if k == s.len() {
        assert(s.subrange(0, s.len() as int) == s);
    } else {
        let t = s.drop_last();
        lemma_strip_trailing_is_subrange(t, k);
        assert(t.subrange(0, k) == s.subrange(0, k));
    }
}

fn count_leading_slashes(s: &str) -> (k: usize)
    ensures
        k <= s@.len(),
        forall|j: int| 0 <= j < k ==> s@[j] == '/',
        k == s@.len() || s@[k as int] != '/',
{
    let n = s.unicode_len();
    let mut k: usize = 0;
    while k < n && s.get_char(k) == '/'
        invariant
            k <= n,
            n == s@.len(),
            forall|j: int| 0 <= j < k ==> s@[j] == '/',
        decreases n - k,
    {
        k = k + 1;
    }
    k
}

fn count_trailing_slashes(s: &str) -> (k: usize)
    ensures
        k <= s@.len(),
        forall|j: int| k <= j < s@.len() ==> s@[j] == '/',
        k == 0 || s@[k - 1] != '/',
{
    let n = s.unicode_len();
    let mut k: usize = n;
    while k > 0 && s.get_char(k - 1) == '/'
        invariant
            k <= n,
            n == s@.len(),
            forall|j: int| k <= j < s@.len() ==> s@[j] == '/',
        decreases k,
    {
        k = k - 1;
    }
    k
}

/// Join a base URL and an endpoint path. Trailing slashes of the base and
/// leading slashes of the endpoint are dropped, and one `/` stands between
/// what remains.
pub fn build_url(base: &str, endpoint: &str) -> (r: String)
    ensures
        r@ == joined_url(base@, endpoint@),
{
    let kb = count_trailing_slashes(base);
    let ke = count_leading_slashes(endpoint);
    proof {
        lemma_strip_trailing_is_subrange(base@, kb as int);
        lemma_strip_leading_is_subrange(endpoint@, ke as int);
        reveal_strlit("/");
    }
    let head = base.substring_char(0, kb);
    let tail = endpoint.substring_char(ke, endpoint.unicode_len());
    let mut out = String::from_str(head);
    out.append("/");
    out.append(tail);
    proof {
        assert("/"@ == seq!['/']);
    }
    out
}

/// `joined_url` always holds exactly one slash between the two parts: what
/// stands before it never ends in `/`, and what follows never starts with one.
pub proof fn lemma_one_separating_slash(base: Seq<char>, endpoint: Seq<char>)
    ensures
        ({
            let head = strip_trailing_slashes(base);
            let tail = strip_leading_slashes(endpoint);
            &&& joined_url(base, endpoint) == head + seq!['/'] + tail
            &&& (head.len() == 0 || head.last() != '/')
            &&& (tail.len() == 0 || tail[0] != '/')
            &&& joined_url(base, endpoint)[head.len() as int] == '/'
        }),
{
    let head = strip_trailing_slashes(base);
    let tail = strip_leading_slashes(endpoint);
    lemma_strip_trailing_no_tail_slash(base);
    lemma_strip_leading_no_head_slash(endpoint);
    assert((head + seq!['/'] + tail)[head.len() as int] == '/');
}

proof fn lemma_strip_trailing_no_tail_slash(s: Seq<char>)
    ensures
        strip_trailing_slashes(s).len() == 0 || strip_trailing_slashes(s).last() != '/',
    decreases s.len(),
{
    if s.len() > 0 && s.last() == '/' {
        lemma_strip_trailing_no_tail_slash(s.drop_last());
    }
}

proof fn lemma_strip_leading_no_head_slash(s: Seq<char>)
    ensures
        strip_leading_slashes(s).len() == 0 || strip_leading_slashes(s)[0] != '/',
    decreases s.len(),
{
    if s.len() > 0 && s[0] == '/' {
        lemma_strip_leading_no_head_slash(s.subrange(1, s.len() as int));
    }
}

/// The index of the last occurrence of `c`, or `-1` when it does not occur.
pub open spec fn last_index_of(s: Seq<char>, c: char) -> int
    decreases s.len(),
{
    if s.len() == 0 {
        -1
    } else if s.last() == c {
        s.len() - 1
    } else {
        last_index_of(s.drop_last(), c)
    }
}

proof fn lemma_last_index_of_found(s: Seq<char>, c: char, i: int)
    requires
        0 <= i < s.len(),
        s[i] == c,
        forall|j: int| i < j < s.len() ==> s[j] != c,
    ensures
        last_index_of(s, c) == i,
    decreases s.len(),
{
    if i == s.len() - 1 {
    } else {
        let t = s.drop_last();
        lemma_last_index_of_found(t, c, i);
    }
}

proof fn lemma_last_index_of_missing(s: Seq<char>, c: char)
    requires
        forall|j: int| 0 <= j < s.len() ==> s[j] != c,
    ensures
        last_index_of(s, c) == -1,
    decreases s.len(),
{
    if s.len() > 0 {
        lemma_last_index_of_missing(s.drop_last(), c);
    }
}

/// Split a URL at its last `/`: everything before the slash, and everything
/// after it. A URL without a slash comes back whole, with an empty path.
pub fn split_url(url: &str) -> (r: (String, String))
    ensures
        ({
            let i = last_index_of(url@, '/');
            if i >= 0 {
                r.0@ == url@.subrange(0, i) && r.1@ == url@.subrange(i + 1, url@.len() as int)
            } else {
                r.0@ == url@ && r.1@.len() == 0
            }
        }),
{
    let n = url.unicode_len();
    let mut k: usize = n;
    while k > 0 && url.get_char(k - 1) != '/'
        invariant
            k <= n,
            n == url@.len(),
            forall|j: int| k <= j < url@.len() ==> url@[j] != '/',
        decreases k,
    {
        k = k - 1;
    }
    if k == 0 {
        proof {
            lemma_last_index_of_missing(url@, '/');
        }
        (String::from_str(url), String::new())
    } else {
        proof {
            lemma_last_index_of_found(url@, '/', k - 1);
        }
        let head = url.substring_char(0, k - 1);
        let tail = url.substring_char(k, n);
        (String::from_str(head), String::from_str(tail))
    }
}

} // verus!
