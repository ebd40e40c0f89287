//! Listing pods: their order, and what a page that cannot be had is answered with.
use vstd::prelude::*;
use crate::collections::StringMap;
use crate::error::Error;
use crate::text::{
    chars_of, find, find_text, i64_text, opt_text, parse_i64, signed_decimal, signed_value,
};
use crate::watch::{param, param_copy};

verus! {

/// Whether text `a` comes before text `b`: at the first character in which
/// they differ it has the lower one, or it is the start of `b`.
pub open spec fn text_before(a: Seq<char>, b: Seq<char>) -> bool
    decreases a.len(),
{
    if b.len() == 0 {
        false
    } else if a.len() == 0 {
        true
    } else if a[0] != b[0] {
        a[0] < b[0]
    } else {
        text_before(a.skip(1), b.skip(1))
    }
}

/// By what a pod is ordered: its namespace, then its name. No namespace comes
/// before any.
pub struct ListKey {
    pub namespace: Option<String>,
    pub name: String,
}

/// Whether key `a` comes before key `b`.
pub open spec fn key_before(a: ListKey, b: ListKey) -> bool {
    match (a.namespace, b.namespace) {
        (None, Some(y)) => true,
        (Some(x), None) => false,
        (None, None) => text_before(a.name@, b.name@),
        (Some(x), Some(y)) => text_before(x@, y@) || (x@ == y@ && text_before(a.name@, b.name@)),
    }
}

proof fn lemma_text_total(a: Seq<char>, b: Seq<char>)
    ensures
        text_before(a, b) || text_before(b, a) || a == b,
    decreases a.len(),
{
    if a.len() > 0 && b.len() > 0 {
        if a[0] == b[0] {
            lemma_text_total(a.skip(1), b.skip(1));
            if a.skip(1) == b.skip(1) {
                assert(a =~= seq![a[0]] + a.skip(1));
                assert(b =~= seq![b[0]] + b.skip(1));
            }
        }
    } else if a.len() == 0 && b.len() == 0 {
        assert(a =~= b);
    }
}

proof fn lemma_text_irreflexive(a: Seq<char>)
    ensures
        !text_before(a, a),
    decreases a.len(),
{
    if a.len() > 0 {
        lemma_text_irreflexive(a.skip(1));
    }
}

proof fn lemma_text_transitive(a: Seq<char>, b: Seq<char>, c: Seq<char>)
    requires
        text_before(a, b),
        text_before(b, c),
    ensures
        text_before(a, c),
    decreases a.len(),
{
    if a.len() > 0 && b.len() > 0 && c.len() > 0 && a[0] == b[0] && b[0] == c[0] {
        lemma_text_transitive(a.skip(1), b.skip(1), c.skip(1));
    }
}

proof fn lemma_key_transitive(a: ListKey, b: ListKey, c: ListKey)
    requires
        !key_before(b, a),
        !key_before(c, b),
    ensures
        !key_before(c, a),
{
    lemma_le_text(a.name@, b.name@, c.name@);
    if a.namespace is Some && b.namespace is Some && c.namespace is Some {
        let x = a.namespace->0@;
        let y = b.namespace->0@;
        let z = c.namespace->0@;
        lemma_le_text(x, y, z);
        lemma_text_total(x, y);
        lemma_text_total(y, z);
        lemma_text_irreflexive(x);
        lemma_text_irreflexive(y);
        if text_before(x, y) && text_before(y, z) {
            lemma_text_transitive(x, y, z);
        }
        if text_before(z, x) && x == z {
            lemma_text_irreflexive(x);
        }
    }
}

proof fn lemma_le_text(a: Seq<char>, b: Seq<char>, c: Seq<char>)
    ensures
        !text_before(b, a) && !text_before(c, b) ==> !text_before(c, a),
{
    if !text_before(b, a) && !text_before(c, b) && text_before(c, a) {
        lemma_text_total(a, b);
        lemma_text_total(b, c);
        if a != b && b != c {
            lemma_text_transitive(a, b, c);
            lemma_text_transitive(a, c, a);
            lemma_text_irreflexive(a);
        } else if a == b && b == c {
            lemma_text_irreflexive(a);
        }
    }
}

fn is_text_before(a: &str, b: &str) -> (r: bool)
    ensures
        r == text_before(a@, b@),
{
    let x: Vec<char> = chars_of(a);
    let y: Vec<char> = chars_of(b);
    let mut i: usize = 0;
    assert(x@.skip(0) =~= x@);
    assert(y@.skip(0) =~= y@);
    loop
        invariant
            x@ == a@,
            y@ == b@,
            i <= x@.len(),
            i <= y@.len(),
            text_before(a@, b@) == text_before(x@.skip(i as int), y@.skip(i as int)),
        decreases x@.len() - i,
    {
        if i == y.len() {
            return false;
        }
        if i == x.len() {
            return true;
        }
        if x[i] != y[i] {
            return x[i] < y[i];
        }
        assert(x@.skip(i as int).skip(1) =~= x@.skip(i + 1));
        assert(y@.skip(i as int).skip(1) =~= y@.skip(i + 1));
        i = i + 1;
    }
}

fn is_key_before(a: &ListKey, b: &ListKey) -> (r: bool)
    ensures
        r == key_before(*a, *b),
{
    match (&a.namespace, &b.namespace) {
        (None, Some(_)) => true,
        (Some(_), None) => false,
        (None, None) => is_text_before(a.name.as_str(), b.name.as_str()),
        (Some(x), Some(y)) => is_text_before(x.as_str(), y.as_str()) || (crate::text::same(
            x.as_str(),
            y.as_str(),
        ) && is_text_before(a.name.as_str(), b.name.as_str())),
    }
}

/// Whether `order` walks the keys in order: each position once, no key after
/// a larger one, and equal keys as they came.
pub open spec fn is_list_order(keys: Seq<ListKey>, order: Seq<usize>) -> bool {
    &&& forall|a: int| 0 <= a < order.len() ==> (#[trigger] order[a]) < keys.len()
    &&& forall|a: int, b: int|
        0 <= a < b < order.len() ==> !key_before(
            keys[(#[trigger] order[b]) as int],
            keys[(#[trigger] order[a]) as int],
        )
    &&& forall|a: int, b: int|
        0 <= a < b < order.len() ==> (#[trigger] order[a]) != (#[trigger] order[b])
    &&& forall|a: int, b: int|
        0 <= a < b < order.len() && !key_before(
            keys[(#[trigger] order[a]) as int],
            keys[(#[trigger] order[b]) as int],
        ) ==> order[a] < order[b]
    &&& forall|v: usize| v < order.len() ==> #[trigger] order.contains(v)
}

/// Finds the order in which a list is walked, by namespace and name, so that
/// pages of it stay stable.
pub fn list_order(keys: &Vec<ListKey>) -> (order: Vec<usize>)
    ensures
        order@.len() == keys@.len(),
        is_list_order(keys@, order@),
{
    let mut order: Vec<usize> = Vec::new();
    let n: usize = keys.len();
    let mut i: usize = 0;
    while i < n
        invariant
            n == keys@.len(),
            i <= n,
            order@.len() == i,
            is_list_order(keys@, order@),
            forall|a: int| 0 <= a < order@.len() ==> (#[trigger] order@[a]) < i,
        decreases n - i,
    {
        let mut at: usize = order.len();
        while at > 0 && is_key_before(&keys[i], &keys[order[at - 1]])
            invariant
                n == keys@.len(),
                i < n,
                at <= order@.len(),
                order@.len() == i,
                forall|a: int| 0 <= a < order@.len() ==> (#[trigger] order@[a]) < i,
                forall|a: int|
                    at <= a < order@.len() ==> key_before(
                        keys@[i as int],
                        keys@[(#[trigger] order@[a]) as int],
                    ),
            decreases at,
        {
            at = at - 1;
        }
        let ghost before = order@;
        proof {
            if at > 0 {
                assert forall|a: int| 0 <= a < at implies !key_before(
                    keys@[i as int],
                    keys@[(#[trigger] before[a]) as int],
                ) by {
                    if a < at - 1 {
                        lemma_key_transitive(
                            keys@[before[a] as int],
                            keys@[before[at - 1] as int],
                            keys@[i as int],
                        );
                    }
                }
            }
            assert forall|a: int| at <= a < before.len() implies !key_before(
                keys@[(#[trigger] before[a]) as int],
                keys@[i as int],
            ) by {
                lemma_key_asymmetric(keys@[i as int], keys@[before[a] as int]);
            }
        }
        order.insert(at, i);
        proof {
            let after = order@;
            assert forall|a: int| 0 <= a < after.len() implies (#[trigger] after[a]) == if a < at {
                before[a]
            } else if a == at {
                i
            } else {
                before[a - 1]
            } by {}
            assert forall|v: usize| v < after.len() implies #[trigger] after.contains(v) by {
                if v == i {
                    assert(after[at as int] == i);
                } else {
                    assert(before.contains(v));
                    let a = choose|a: int| 0 <= a < before.len() && before[a] == v;
                    if a < at {
                        assert(after[a] == v);
                    } else {
                        assert(after[a + 1] == v);
                    }
                }
            }
            assert(is_list_order(keys@, after));
        }
        i = i + 1;
    }
    order
}

proof fn lemma_key_asymmetric(a: ListKey, b: ListKey)
    requires
        key_before(a, b),
    ensures
        !key_before(b, a),
{
    lemma_text_asymmetric(a.name@, b.name@);
    if a.namespace is Some && b.namespace is Some {
        lemma_text_asymmetric(a.namespace->0@, b.namespace->0@);
        lemma_text_asymmetric(b.namespace->0@, a.namespace->0@);
        lemma_text_irreflexive(a.namespace->0@);
    }
}

proof fn lemma_text_asymmetric(a: Seq<char>, b: Seq<char>)
    ensures
        text_before(a, b) ==> !text_before(b, a),
{
    if text_before(a, b) && text_before(b, a) {
        lemma_text_transitive(a, b, a);
        lemma_text_irreflexive(a);
    }
}

/// There is one order of a list only: two that both walk all the keys are the same.
pub proof fn law_list_order_is_determined(keys: Seq<ListKey>, a: Seq<usize>, b: Seq<usize>)
    requires
        a.len() == keys.len(),
        b.len() == keys.len(),
        is_list_order(keys, a),
        is_list_order(keys, b),
    ensures
        a == b,
{
    assert forall|n: int| 0 <= n < a.len() implies a[n] == b[n] by {
        lemma_same_position(keys, a, b, n);
    }
    assert(a =~= b);
}

proof fn lemma_same_position(keys: Seq<ListKey>, a: Seq<usize>, b: Seq<usize>, n: int)
    requires
        a.len() == keys.len(),
        b.len() == keys.len(),
        is_list_order(keys, a),
        is_list_order(keys, b),
        0 <= n < a.len(),
    ensures
        a[n] == b[n],
    decreases n,
{
    assert forall|k: int| 0 <= k < n implies (#[trigger] a[k]) == b[k] by {
        lemma_same_position(keys, a, b, k);
    }
    assert(b.contains(a[n]));
    assert(a.contains(b[n]));
    let j = choose|j: int| 0 <= j < b.len() && b[j] == a[n];
    let k = choose|k: int| 0 <= k < a.len() && a[k] == b[n];
    if a[n] != b[n] {
        if j < n {
            assert(a[j] == b[j]);
        }
        if k < n {
            assert(a[k] == b[k]);
        }
        assert(!key_before(keys[b[j] as int], keys[b[n] as int]));
        assert(!key_before(keys[a[k] as int], keys[a[n] as int]));
    }
}

/// The resource version of a list: the store's revision, or `fallback` where
/// the store could not say.
pub fn list_version(revision: Option<i64>, fallback: String) -> (r: String)
    ensures
        match revision {
            Some(n) => r@ == signed_decimal(n as int),
            None => r == fallback,
        },
{
    match revision {
        Some(n) => i64_text(n),
        None => fallback,
    }
}

/// Why a page cannot be had.
pub enum PageFailure {
    /// The continue token is too old. With it may come a resource version and
    /// a token to go on with.
    Expired { message: String, resume: Option<(String, String)> },
    Refused(Error),
}

/// Decides what a page that cannot be had is answered with.
pub fn page_failure(message: String, fresh_token: Option<String>, resource_version: String) -> (r:
    PageFailure)
    ensures
        r == if find_text(message@, "410 Gone"@) is Some {
            PageFailure::Expired {
                message,
                resume: match fresh_token {
                    Some(t) => Some((resource_version, t)),
                    None => None,
                },
            }
        } else {
            PageFailure::Refused(Error::InvalidResource(message))
        },
{
    if find(message.as_str(), "410 Gone").is_some() {
        let resume: Option<(String, String)> = match fresh_token {
            Some(t) => Some((resource_version, t)),
            None => None,
        };
        PageFailure::Expired { message, resume }
    } else {
        PageFailure::Refused(Error::InvalidResource(message))
    }
}

/// The page that is asked for.
pub struct PageRequest {
    pub limit: Option<i64>,
    pub continue_token: Option<String>,
}

/// Reads the page that the query parameters ask for. A limit that is no number
/// does not count.
pub fn page_request(params: &StringMap) -> (r: PageRequest)
    ensures
        match param(params@, "limit"@) {
            Some(v) => match signed_value(v) {
                Some(n) => r.limit matches Some(x) && x == n,
                None => r.limit is None,
            },
            None => r.limit is None,
        },
        opt_text(r.continue_token) == param(params@, "continue"@),
{
    let limit: Option<i64> = match params.get("limit") {
        Some(v) => parse_i64(v.as_str()),
        None => None,
    };
    PageRequest { limit, continue_token: param_copy(params, "continue") }
}

} // verus!
