//! Button labels derived from route names.

use vstd::prelude::*;
use vstd::string::*;

verus! {

/// Position of the first `/` in `s`, or `s.len()` when `s` holds none.
pub open spec fn first_slash(s: Seq<char>) -> int
    decreases s.len(),
{
    if s.len() == 0 || s[0] == '/' {
        0
    } else {
        1 + first_slash(s.skip(1))
    }
}

/// The label shown for a route without a leading `/`.
pub open spec fn unknown_route() -> Seq<char> {
    "<unknown route>"@
}

/// The label of a route: what stands between the leading `/` and the next
/// `/`, or between the leading `/` and the end where no second `/` follows.
/// A route that does not start with `/` has the label `<unknown route>`.
pub open spec fn cleaned_route(route: Seq<char>) -> Seq<char> {
    if route.len() > 0 && route[0] == '/' {
        let rest = route.skip(1);
        rest.take(first_slash(rest))
    } else {
        unknown_route()
    }
}

/// `first_slash` is within bounds, no `/` stands before it, and a `/` stands
/// at it unless it is the length of the sequence.
pub proof fn lemma_first_slash_is_first(s: Seq<char>)
    ensures
        0 <= first_slash(s) <= s.len(),
        forall|j: int| 0 <= j < first_slash(s) ==> s[j] != '/',
        first_slash(s) < s.len() ==> s[first_slash(s)] == '/',
    decreases s.len(),
{
    if s.len() == 0 || s[0] == '/' {
    } else {
        let tail = s.skip(1);
        lemma_first_slash_is_first(tail);
        assert forall|j: int| 0 <= j < first_slash(s) implies s[j] != '/' by {
            if j > 0 {
                assert(s[j] == tail[j - 1]);
            }
        }
        if first_slash(s) < s.len() {
            assert(s[first_slash(s)] == tail[first_slash(tail)]);
        }
    }
}

/// A position `k` with no `/` before it and a `/` at it (or at the end of
/// the sequence) is the position that `first_slash` names.
pub proof fn lemma_first_slash_unique(s: Seq<char>, k: int)
    requires
        0 <= k <= s.len(),
        forall|j: int| 0 <= j < k ==> s[j] != '/',
        k < s.len() ==> s[k] == '/',
    ensures
        first_slash(s) == k,
{
    lemma_first_slash_is_first(s);
    let f = first_slash(s);
    if f < k {
        assert(s[f] == '/');
    } else if k < f {
        assert(s[k] == '/');
    }
}

/// The label of a route that starts with `/` holds no `/`, and the route is
/// the `/`, then the label, then either nothing or a remainder that starts
/// with `/`.
pub proof fn lemma_cleaned_route_is_first_segment(route: Seq<char>)
    requires
        route.len() > 0,
        route[0] == '/',
    ensures
        !cleaned_route(route).contains('/'),
        cleaned_route(route).len() < route.len(),
        route.subrange(1, 1 + cleaned_route(route).len() as int) == cleaned_route(route),
        1 + cleaned_route(route).len() < route.len() ==> route[1 + cleaned_route(route).len() as int]
            == '/',
{
    let rest = route.skip(1);
    lemma_first_slash_is_first(rest);
    let label = cleaned_route(route);
    assert(label =~= route.subrange(1, 1 + label.len() as int));
    if label.contains('/') {
        let i = choose|i: int| 0 <= i < label.len() && label[i] == '/';
        assert(rest[i] == '/');
    }
    if 1 + label.len() < route.len() {
        assert(route[1 + label.len() as int] == rest[first_slash(rest)]);
    }
}

/// Derives the label of a button from the name of its route.
pub fn clean_route(route: &str) -> (label: String)
    ensures
        label@ == cleaned_route(route@),
{
    let n = route.unicode_len();
    if n == 0 || route.get_char(0) != '/' {
        return "<unknown route>".to_owned();
    }
    let mut end: usize = 1;
    while end < n && route.get_char(end) != '/'
        invariant
            1 <= end <= n,
            n == route@.len(),
            forall|k: int| 1 <= k < end ==> route@[k] != '/',
        decreases n - end,
    {
        end += 1;
    }
    proof {
        let rest = route@.skip(1);
        assert forall|j: int| 0 <= j < end - 1 implies rest[j] != '/' by {
            assert(rest[j] == route@[j + 1]);
        }
        lemma_first_slash_unique(rest, end - 1);
        assert(route@.subrange(1, end as int) =~= rest.take(end - 1));
    }
    route.substring_char(1, end).to_owned()
}

} // verus!
