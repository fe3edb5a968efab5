//! Resolution of a batch of digests from the answers the store gave for each.
use vstd::prelude::*;
use crate::digest::Record;

verus! {

/// What the store answered when asked for one digest.
#[derive(Debug, Clone, Copy, PartialEq, Eq, Structural)]
pub enum Lookup {
    /// A record holds the digest; this is its value.
    Found(i64),
    /// No record holds the digest.
    Absent,
    /// The store could not answer.
    Failed,
}

/// One digest of a batch, with the store's answer for it.
#[derive(Debug, Clone, PartialEq, Eq)]
pub struct Answer {
    pub digest: String,
    pub outcome: Lookup,
}

/// The whole batch is refused because the store failed on one of its digests.
#[derive(Debug, Clone, Copy, PartialEq, Eq, Structural)]
pub enum ResolveError {
    StoreFailure,
}

pub open spec fn answers_view(a: Seq<Answer>) -> Seq<(Seq<char>, Lookup)> {
    a.map_values(|x: Answer| (x.digest@, x.outcome))
}

pub open spec fn records_view(r: Seq<Record>) -> Seq<(Seq<char>, i64)> {
    r.map_values(|x: Record| (x.digest@, x.value))
}

/// The matched pairs of a batch, in the order of the batch; absent digests are left out
/// and a digest that occurs twice is matched twice.
pub open spec fn resolved(a: Seq<(Seq<char>, Lookup)>) -> Seq<(Seq<char>, i64)>
    decreases a.len(),
{
    if a.len() == 0 {
        Seq::empty()
    } else {
        let rest = resolved(a.drop_last());
        match a.last().1 {
            Lookup::Found(v) => rest.push((a.last().0, v)),
            _ => rest,
        }
    }
}

/// Whether the store failed on some digest of the batch.
pub open spec fn batch_failed(a: Seq<(Seq<char>, Lookup)>) -> bool {
    exists|i: int| 0 <= i < a.len() && (#[trigger] a[i]).1 is Failed
}

/// The matched pairs of the batch, or one failure for the whole batch when the store
/// failed on any of its digests. An absent digest is no failure.
pub fn resolve_batch(answers: &Vec<Answer>) -> (res: Result<Vec<Record>, ResolveError>)
    ensures
        res is Err <==> batch_failed(answers_view(answers@)),
        res is Err ==> res == Err::<Vec<Record>, ResolveError>(ResolveError::StoreFailure),
        res matches Ok(v) ==> records_view(v@) == resolved(answers_view(answers@)),
{
    let ghost a = answers_view(answers@);
    let mut out: Vec<Record> = Vec::new();
    let mut i: usize = 0;
    while i < answers.len()
        invariant
            a == answers_view(answers@),
            i <= answers@.len(),
            records_view(out@) == resolved(a.subrange(0, i as int)),
            !batch_failed(a.subrange(0, i as int)),
        decreases answers@.len() - i,
    {
        let ghost pre = a.subrange(0, i as int);
        let ghost next = a.subrange(0, i + 1);
        assert(next.drop_last() == pre);
        assert(next.last() == a[i as int]);
        match answers[i].outcome {
            Lookup::Failed => {
                assert(a[i as int].1 is Failed);
                return Err(ResolveError::StoreFailure);
            },
            Lookup::Found(v) => {
                let rec = Record { digest: answers[i].digest.clone(), value: v };
                out.push(rec);
                assert(records_view(out@) == records_view(out@.drop_last()).push((rec.digest@, v)));
            },
            Lookup::Absent => {},
        }
        assert(!batch_failed(next)) by {
            if batch_failed(next) {
                let j = choose|j: int| 0 <= j < next.len() && (#[trigger] next[j]).1 is Failed;
                if j < i {
                    assert(pre[j] == next[j]);
                }
            }
        }
        i = i + 1;
    }
    assert(a.subrange(0, answers@.len() as int) == a);
    Ok(out)
}

/// Batches are resolved digest by digest: resolving two batches one after the other gives
/// the same pairs as resolving them joined, and the joined batch fails exactly when one
/// of them does.
pub proof fn lemma_resolved_concat(a: Seq<(Seq<char>, Lookup)>, b: Seq<(Seq<char>, Lookup)>)
    ensures
        resolved(a + b) == resolved(a) + resolved(b),
        batch_failed(a + b) <==> batch_failed(a) || batch_failed(b),
    decreases b.len(),
{
    if b.len() == 0 {
        assert(a + b == a);
    } else {
        assert((a + b).drop_last() == a + b.drop_last());
        lemma_resolved_concat(a, b.drop_last());
    }
    if batch_failed(a + b) {
        let j = choose|j: int| 0 <= j < (a + b).len() && (#[trigger] (a + b)[j]).1 is Failed;
        if j < a.len() {
            assert(a[j] == (a + b)[j]);
        } else {
            assert(b[j - a.len()] == (a + b)[j]);
        }
    }
    if batch_failed(a) {
        let j = choose|j: int| 0 <= j < a.len() && (#[trigger] a[j]).1 is Failed;
        assert(a[j] == (a + b)[j]);
    }
    if batch_failed(b) {
        let j = choose|j: int| 0 <= j < b.len() && (#[trigger] b[j]).1 is Failed;
        assert(b[j] == (a + b)[j + a.len()]);
    }
}

/// A digest that no record holds is omitted, not reported: removing it from a batch
/// changes neither the pairs returned nor whether the batch fails.
pub proof fn lemma_absent_omitted(a: Seq<(Seq<char>, Lookup)>, i: int)
    requires
        0 <= i < a.len(),
        a[i].1 is Absent,
    ensures
        resolved(a.remove(i)) == resolved(a),
        batch_failed(a.remove(i)) <==> batch_failed(a),
{
    let l = a.subrange(0, i);
    let r = a.subrange(i + 1, a.len() as int);
    let mid = seq![a[i]];
    assert(a == l + mid + r);
    assert(a.remove(i) == l + r);
    lemma_resolved_concat(l, r);
    lemma_resolved_concat(l + mid, r);
    lemma_resolved_concat(l, mid);
    assert(mid.drop_last() == Seq::<(Seq<char>, Lookup)>::empty());
    assert(resolved(mid) == resolved(Seq::<(Seq<char>, Lookup)>::empty()));
    assert(resolved(l) + resolved(mid) == resolved(l));
    assert(!batch_failed(mid)) by {
        if batch_failed(mid) {
            let j = choose|j: int| 0 <= j < mid.len() && (#[trigger] mid[j]).1 is Failed;
        }
    }
}

} // verus!
