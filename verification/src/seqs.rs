//! Small sequence predicates shared by the filter chain and the
//! supervisor's session map.

use vstd::prelude::*;

verus! {

/// No value occurs twice in the sequence.
pub open spec fn distinct_seq<T>(s: Seq<T>) -> bool {
    forall|i: int, j: int| 0 <= i < j < s.len() ==> s[i] != s[j]
}

/// Appending a value not yet present keeps a sequence distinct.
pub proof fn lemma_distinct_push<T>(s: Seq<T>, x: T)
    requires
        distinct_seq(s),
        !s.contains(x),
    ensures
        distinct_seq(s.push(x)),
{
    assert forall|i: int, j: int| 0 <= i < j < s.push(x).len() implies s.push(x)[i] != s.push(x)[j] by {
        if j < s.len() {
        } else {
            assert(s.push(x)[j] == x);
            assert(s.push(x)[i] == s[i]);
        }
    }
}

/// Removing the sole occurrence of `x`, sitting at index `at`, from a
/// distinct sequence: the result is `remove_value(x)`, is still
/// distinct, no longer holds `x`, and holds every other value exactly
/// as before.
pub proof fn lemma_distinct_remove_at<T>(pre: Seq<T>, at: int, x: T)
    requires
        distinct_seq(pre),
        0 <= at < pre.len(),
        pre[at] == x,
        forall|j: int| 0 <= j < at ==> pre[j] != x,
    ensures
        pre.remove(at) == pre.remove_value(x),
        distinct_seq(pre.remove(at)),
        !pre.remove(at).contains(x),
        forall|y: T| y != x ==> (pre.remove(at).contains(y) == pre.contains(y)),
        pre.remove(at).len() == pre.len() - 1,
{
    let post = pre.remove(at);
    pre.index_of_first_ensures(x);
    match pre.index_of_first(x) {
        Option::Some(idx) => {
            assert(idx == at);
        },
        Option::None => {
            assert(pre.contains(x));
        },
    }
    pre.remove_ensures(at);
    assert forall|i: int, j: int| 0 <= i < j < post.len() implies post[i] != post[j] by {
        let pi = if i < at {
            i
        } else {
            i + 1
        };
        let pj = if j < at {
            j
        } else {
            j + 1
        };
        assert(post[i] == pre[pi]);
        assert(post[j] == pre[pj]);
    }
    assert forall|k: int| 0 <= k < post.len() implies post[k] != x by {
        let pk = if k < at {
            k
        } else {
            k + 1
        };
        assert(post[k] == pre[pk]);
    }
    assert forall|y: T| y != x implies (post.contains(y) == pre.contains(y)) by {
        if post.contains(y) {
            let k = choose|k: int| 0 <= k < post.len() && post[k] == y;
            let pk = if k < at {
                k
            } else {
                k + 1
            };
            assert(pre[pk] == y);
        }
        if pre.contains(y) {
            let k = choose|k: int| 0 <= k < pre.len() && pre[k] == y;
            let sk = if k < at {
                k
            } else {
                k - 1
            };
            assert(k != at);
            assert(post[sk] == pre[k]);
        }
    }
}

} // verus!
