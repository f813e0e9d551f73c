//! The batch flusher's core algorithm: drain the ingestion queue,
//! deduplicate within the batch by nickname — first arrival wins, later
//! duplicates are silently dropped, not requeued — and render the one bulk
//! insert statement that a single transaction executes and commits.
//! Nicknames not duplicated within the batch but already durable are left
//! to the store's uniqueness constraint, which the statement's
//! conflict-skipping clause turns into silent drops.
use vstd::prelude::*;

use crate::dto::CreationEvent;
use crate::dto::CreationEventView;
use crate::dto::event_views;
use crate::queue::IngestQueue;
use crate::queue::drain_all;
use crate::queue::queue_events;
use crate::sqlgen::batch_sql;
use crate::sqlgen::batch_sql_spec;

verus! {

/// Whether some element of `seen` is the string `n`.
pub open spec fn contains_str(seen: Seq<Seq<char>>, n: Seq<char>) -> bool {
    exists|k: int| 0 <= k < seen.len() && seen[k] == n
}

/// First-arrival-wins deduplication by nickname: an event is kept when its
/// nickname is neither in `seen` nor on an earlier event of the batch.
pub open spec fn dedup_from(evs: Seq<CreationEventView>, seen: Seq<Seq<char>>) -> Seq<
    CreationEventView,
>
    decreases evs.len(),
{
    if evs.len() == 0 {
        Seq::empty()
    } else if contains_str(seen, evs[0].payload.apelido) {
        dedup_from(evs.drop_first(), seen)
    } else {
        seq![evs[0]] + dedup_from(evs.drop_first(), seen.push(evs[0].payload.apelido))
    }
}

/// The events surviving one batch's deduplication, in arrival order.
pub open spec fn dedup_events_spec(evs: Seq<CreationEventView>) -> Seq<CreationEventView> {
    dedup_from(evs, Seq::empty())
}

/// Whether some event of `evs` bears nickname `n`.
pub open spec fn has_nick(evs: Seq<CreationEventView>, n: Seq<char>) -> bool {
    exists|i: int| 0 <= i < evs.len() && evs[i].payload.apelido == n
}

/// The index of the first event of `evs` bearing nickname `n`.
pub open spec fn first_idx(evs: Seq<CreationEventView>, n: Seq<char>) -> int
    decreases evs.len(),
{
    if evs.len() == 0 {
        0
    } else if evs[0].payload.apelido == n {
        0
    } else {
        1 + first_idx(evs.drop_first(), n)
    }
}

proof fn lemma_contains_str_push(seen: Seq<Seq<char>>, y: Seq<char>, x: Seq<char>)
    requires
        contains_str(seen, x),
    ensures
        contains_str(seen.push(y), x),
{
    let w = choose|k: int| 0 <= k < seen.len() && seen[k] == x;
    assert(seen.push(y)[w] == x);
}

proof fn lemma_dedup_from_unique(evs: Seq<CreationEventView>, seen: Seq<Seq<char>>)
    ensures
        ({
            let d = dedup_from(evs, seen);
            &&& forall|i: int|
                0 <= i < d.len() ==> !contains_str(seen, (#[trigger] d[i]).payload.apelido)
            &&& forall|i: int, j: int|
                0 <= i < d.len() && 0 <= j < d.len() && i != j ==> (#[trigger] d[i]).payload.apelido
                    != (#[trigger] d[j]).payload.apelido
        }),
    decreases evs.len(),
{
    if evs.len() == 0 {
    } else {
        let n0 = evs[0].payload.apelido;
        if contains_str(seen, n0) {
            lemma_dedup_from_unique(evs.drop_first(), seen);
        } else {
            lemma_dedup_from_unique(evs.drop_first(), seen.push(n0));
            let d = dedup_from(evs, seen);
            let rest = dedup_from(evs.drop_first(), seen.push(n0));
            assert(d == seq![evs[0]] + rest);
            assert(forall|i: int| 0 <= i < rest.len() ==> d[i + 1] == rest[i]);
            assert(d[0] == evs[0]);
            assert(forall|k: int|
                0 <= k < rest.len() ==> !contains_str(
                    seen.push(n0),
                    (#[trigger] rest[k]).payload.apelido,
                ));
            assert forall|k: int|
                0 <= k < rest.len() implies (#[trigger] rest[k]).payload.apelido != n0 by {
                assert(seen.push(n0)[seen.len() as int] == n0);
            }
            assert forall|i: int|
                0 <= i < d.len() implies !contains_str(
                seen,
                (#[trigger] d[i]).payload.apelido,
            ) by {
                if i == 0 {
                } else {
                    assert(d[i] == rest[i - 1]);
                    if contains_str(seen, d[i].payload.apelido) {
                        lemma_contains_str_push(seen, n0, d[i].payload.apelido);
                    }
                }
            }
            assert forall|i: int, j: int|
                0 <= i < d.len() && 0 <= j < d.len() && i != j implies (
            #[trigger] d[i]).payload.apelido != (#[trigger] d[j]).payload.apelido by {
                if i >= 1 && j >= 1 {
                    assert(d[i] == rest[i - 1] && d[j] == rest[j - 1]);
                } else if i == 0 {
                    assert(d[j] == rest[j - 1]);
                } else {
                    assert(d[i] == rest[i - 1]);
                }
            }
        }
    }
}

/// Within one batch, nicknames of the surviving events are pairwise
/// distinct: at most one durable row can arise per nickname per flush.
pub proof fn lemma_dedup_unique_nicknames(evs: Seq<CreationEventView>)
    ensures
        ({
            let d = dedup_events_spec(evs);
            forall|i: int, j: int|
                0 <= i < d.len() && 0 <= j < d.len() && i != j ==> (#[trigger] d[i]).payload.apelido
                    != (#[trigger] d[j]).payload.apelido
        }),
{
    lemma_dedup_from_unique(evs, Seq::empty());
}

proof fn lemma_dedup_from_keeps_first(evs: Seq<CreationEventView>, seen: Seq<Seq<char>>, n: Seq<char>)
    requires
        has_nick(evs, n),
        !contains_str(seen, n),
    ensures
        ({
            let d = dedup_from(evs, seen);
            exists|i: int| 0 <= i < d.len() && #[trigger] d[i] == evs[first_idx(evs, n)]
                && evs[first_idx(evs, n)].payload.apelido == n
        }),
    decreases evs.len(),
{
    let n0 = evs[0].payload.apelido;
    let d = dedup_from(evs, seen);
    if n0 == n {
        assert(first_idx(evs, n) == 0);
        assert(!contains_str(seen, n0));
        assert(d[0] == evs[0]);
    } else {
        assert(has_nick(evs.drop_first(), n)) by {
            let w = choose|i: int| 0 <= i < evs.len() && evs[i].payload.apelido == n;
            assert(evs.drop_first()[w - 1] == evs[w]);
        }
        lemma_first_idx_bounds(evs.drop_first(), n);
        assert(evs[first_idx(evs, n)] == evs.drop_first()[first_idx(evs.drop_first(), n)]);
        if contains_str(seen, n0) {
            lemma_dedup_from_keeps_first(evs.drop_first(), seen, n);
        } else {
            assert(!contains_str(seen.push(n0), n)) by {
                assert(forall|k: int|
                    0 <= k < seen.len() ==> seen.push(n0)[k] == seen[k]);
                assert(seen.push(n0)[seen.len() as int] == n0);
            }
            lemma_dedup_from_keeps_first(evs.drop_first(), seen.push(n0), n);
            let rest = dedup_from(evs.drop_first(), seen.push(n0));
            let w = choose|i: int|
                0 <= i < rest.len() && #[trigger] rest[i] == evs.drop_first()[first_idx(
                    evs.drop_first(),
                    n,
                )] && evs.drop_first()[first_idx(evs.drop_first(), n)].payload.apelido == n;
            assert(d[w + 1] == rest[w]);
        }
    }
}

/// The first event of `evs` bearing `n` lies at a valid index when any does.
pub proof fn lemma_first_idx_bounds(evs: Seq<CreationEventView>, n: Seq<char>)
    requires
        has_nick(evs, n),
    ensures
        0 <= first_idx(evs, n) < evs.len(),
        evs[first_idx(evs, n)].payload.apelido == n,
        forall|k: int| 0 <= k < first_idx(evs, n) ==> (#[trigger] evs[k]).payload.apelido != n,
    decreases evs.len(),
{
    if evs[0].payload.apelido == n {
    } else {
        assert(has_nick(evs.drop_first(), n)) by {
            let w = choose|i: int| 0 <= i < evs.len() && evs[i].payload.apelido == n;
            assert(evs.drop_first()[w - 1] == evs[w]);
        }
        lemma_first_idx_bounds(evs.drop_first(), n);
        assert(forall|k: int|
            1 <= k < first_idx(evs, n) ==> evs[k] == evs.drop_first()[k - 1]);
    }
}

/// First-writer-wins, scoped to one flush cycle: of all events of a batch
/// bearing nickname `n`, exactly the first-arrival one survives
/// deduplication, as that very event.
pub proof fn lemma_dedup_first_wins(evs: Seq<CreationEventView>, n: Seq<char>)
    requires
        has_nick(evs, n),
    ensures
        ({
            let d = dedup_events_spec(evs);
            exists|i: int| 0 <= i < d.len() && #[trigger] d[i] == evs[first_idx(evs, n)]
                && evs[first_idx(evs, n)].payload.apelido == n
        }),
{
    lemma_first_idx_bounds(evs, n);
    lemma_dedup_from_keeps_first(evs, Seq::empty(), n);
    let d0 = dedup_from(evs, Seq::empty());
    let w = choose|i: int|
        0 <= i < d0.len() && #[trigger] d0[i] == evs[first_idx(evs, n)] && evs[first_idx(
            evs,
            n,
        )].payload.apelido == n;
    assert(dedup_events_spec(evs)[w] == evs[first_idx(evs, n)]);
}

/// Whether `seen` holds the string `n`, by character comparison.
fn contains_nick(seen: &Vec<String>, n: &String) -> (r: bool)
    ensures
        r == contains_str(seen.deep_view(), n@),
{
    let mut k: usize = 0;
    while k < seen.len()
        invariant
            k <= seen@.len(),
            forall|j: int| 0 <= j < k ==> seen.deep_view()[j] != n@,
        decreases seen@.len() - k,
    {
        if seen[k] == *n {
            assert(seen.deep_view()[k as int] == n@);
            return true;
        }
        k = k + 1;
    }
    false
}

/// Deduplicates one batch by nickname, keeping the first arrival of each
/// nickname, in arrival order; later duplicates are dropped.
pub fn dedup_events(evs: &Vec<CreationEvent>) -> (r: Vec<CreationEvent>)
    ensures
        event_views(r@) == dedup_events_spec(event_views(evs@)),
{
    let ghost all = event_views(evs@);
    let mut out: Vec<CreationEvent> = Vec::new();
    let mut seen: Vec<String> = Vec::new();
    let mut i: usize = 0;
    proof {
        assert(all.skip(0) =~= all);
        assert(seen.deep_view() =~= Seq::<Seq<char>>::empty());
        assert(event_views(out@) + dedup_from(all.skip(0), seen.deep_view()) =~= dedup_events_spec(
            all,
        ));
    }
    while i < evs.len()
        invariant
            all == event_views(evs@),
            all.len() == evs@.len(),
            i <= evs@.len(),
            seen@.len() <= i,
            out@.len() <= i,
            dedup_events_spec(all) == event_views(out@) + dedup_from(
                all.skip(i as int),
                seen.deep_view(),
            ),
        decreases evs@.len() - i,
    {
        let ghost tail = all.skip(i as int);
        proof {
            assert(tail[0] == all[i as int]);
            assert(all[i as int] == evs@[i as int]@);
            assert(tail.drop_first() =~= all.skip(i + 1));
        }
        let nick = &evs[i].payload.apelido;
        if !contains_nick(&seen, nick) {
            let ghost old_out = out@;
            let ghost old_seen = seen.deep_view();
            out.push(evs[i].duplicate());
            seen.push(nick.clone());
            proof {
                assert(seen@.len() == old_seen.len() + 1);
                assert forall|k: int| 0 <= k < seen@.len() implies seen.deep_view()[k]
                    == old_seen.push(evs@[i as int]@.payload.apelido)[k] by {
                    if k < old_seen.len() {
                        assert(seen@[k] == seen@.subrange(0, seen@.len() - 1)[k]);
                    }
                }
                assert(seen.deep_view() =~= old_seen.push(evs@[i as int]@.payload.apelido));
                assert forall|k: int| 0 <= k < out@.len() implies event_views(out@)[k]
                    == event_views(old_out).push(evs@[i as int]@)[k] by {}
                assert(event_views(out@) =~= event_views(old_out).push(evs@[i as int]@));
                assert(dedup_from(tail, old_seen) == seq![tail[0]] + dedup_from(
                    all.skip(i + 1),
                    old_seen.push(tail[0].payload.apelido),
                ));
                assert(event_views(out@) + dedup_from(all.skip(i + 1), seen.deep_view())
                    =~= event_views(old_out) + dedup_from(tail, old_seen));
            }
        } else {
            proof {
                assert(dedup_from(tail, seen.deep_view()) == dedup_from(
                    all.skip(i + 1),
                    seen.deep_view(),
                ));
            }
        }
        i = i + 1;
    }
    proof {
        assert(all.skip(all.len() as int).len() == 0);
        assert(event_views(out@) + dedup_from(all.skip(i as int), seen.deep_view())
            =~= event_views(out@));
    }
    out
}

/// One flush cycle. A queue reporting zero length skips the cycle: no
/// drain, no statement, no transaction — the idle wait of the flusher.
/// Otherwise every currently queued event is drained, the batch is
/// deduplicated by nickname (first arrival wins), and the returned bulk
/// statement is for the caller to execute and commit inside one
/// transaction. If connecting, opening the transaction or executing fails,
/// the caller abandons the whole cycle: the drained events are lost by
/// design, with no requeue and no retry.
pub fn flush_cycle(q: &mut IngestQueue) -> (r: Option<String>)
    ensures
        r is None <==> queue_events(*old(q)).len() == 0,
        queue_events(*old(q)).len() == 0 ==> *final(q) == *old(q),
        queue_events(*final(q)).len() == 0,
        r matches Some(sql) ==> sql@ == batch_sql_spec(
            dedup_events_spec(event_views(queue_events(*old(q)))),
        ),
{
    if q.len() == 0 {
        return None;
    }
    let evs = drain_all(q);
    let kept = dedup_events(&evs);
    Some(batch_sql(&kept))
}

} // verus!
