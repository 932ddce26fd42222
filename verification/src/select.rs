//! Choosing among the findings of the lines of a text.

use vstd::prelude::*;

verus! {

/// The first finding in `s`, if there is any.
pub open spec fn first_some<T>(s: Seq<Option<T>>) -> Option<T>
    decreases s.len(),
{
    if s.len() == 0 {
        None
    } else if s[0] is Some {
        s[0]
    } else {
        first_some(s.drop_first())
    }
}

/// The last finding in `s`, if there is any.
pub open spec fn last_some<T>(s: Seq<Option<T>>) -> Option<T>
    decreases s.len(),
{
    if s.len() == 0 {
        None
    } else if s.last() is Some {
        s.last()
    } else {
        last_some(s.drop_last())
    }
}

/// The first finding is the one before which there is none.
pub proof fn lemma_first_some_at<T>(s: Seq<Option<T>>, k: int)
    requires
        0 <= k < s.len(),
        s[k] is Some,
        forall|j: int| 0 <= j < k ==> s[j] is None,
    ensures
        first_some(s) == s[k],
    decreases k,
{
    if k > 0 {
        let t = s.drop_first();
        assert(s[0] is None);
        assert forall|j: int| 0 <= j < k - 1 implies t[j] is None by {
            assert(t[j] == s[j + 1]);
        }
        lemma_first_some_at(t, k - 1);
    }
}

/// Where nothing is found, there is no first finding.
pub proof fn lemma_first_some_none<T>(s: Seq<Option<T>>)
    requires
        forall|j: int| 0 <= j < s.len() ==> s[j] is None,
    ensures
        first_some(s) is None,
    decreases s.len(),
{
    if s.len() > 0 {
        let t = s.drop_first();
        assert(s[0] is None);
        assert forall|j: int| 0 <= j < t.len() implies t[j] is None by {
            assert(t[j] == s[j + 1]);
        }
        lemma_first_some_none(t);
    }
}

/// The first finding is one of the findings.
pub proof fn lemma_first_some_is_member<T>(s: Seq<Option<T>>)
    ensures
        first_some(s) is Some ==> exists|k: int| 0 <= k < s.len() && s[k] == first_some(s),
    decreases s.len(),
{
    if s.len() > 0 {
        if s[0] is Some {
            assert(s[0] == first_some(s));
        } else {
            let t = s.drop_first();
            lemma_first_some_is_member(t);
            if first_some(t) is Some {
                let k = choose|k: int| 0 <= k < t.len() && t[k] == first_some(t);
                assert(s[k + 1] == first_some(s));
            }
        }
    }
}

/// One more item either brings the last finding or leaves it as it was.
pub proof fn lemma_last_some_step<T>(s: Seq<Option<T>>, k: int)
    requires
        0 <= k < s.len(),
    ensures
        last_some(s.take(k + 1)) == (if s[k] is Some {
            s[k]
        } else {
            last_some(s.take(k))
        }),
{
    assert(s.take(k + 1).drop_last() =~= s.take(k));
}

} // verus!
