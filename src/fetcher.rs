use vstd::prelude::*;

verus! {

/// The batches laid end to end.
pub open spec fn flatten(batches: Seq<Seq<i32>>) -> Seq<i32>
    decreases batches.len(),
{
    if batches.len() == 0 {
        Seq::empty()
    } else {
        flatten(batches.drop_last()) + batches.last()
    }
}

/// The views of the batches.
pub open spec fn batch_views(batches: Seq<Vec<i32>>) -> Seq<Seq<i32>> {
    batches.map_values(|b: Vec<i32>| b@)
}

/// Every batch holds between one and `limit` items.
pub open spec fn batches_bounded(batches: Seq<Seq<i32>>, limit: nat) -> bool {
    forall|i: int| 0 <= i < batches.len() ==> 0 < #[trigger] batches[i].len() <= limit
}

/// Splits `items` into consecutive batches of at most `limit` items each; a
/// batch is run with all of its fetches in flight together, and the next batch
/// starts only when it is done, so no more than `limit` fetches are ever in flight.
pub fn plan_batches(items: &Vec<i32>, limit: usize) -> (r: Vec<Vec<i32>>)
    requires
        limit > 0,
    ensures
        flatten(batch_views(r@)) == items@,
        batches_bounded(batch_views(r@), limit as nat),
        r@.len() == (items@.len() + limit - 1) / limit as int,
{
    let mut r: Vec<Vec<i32>> = Vec::new();
    let mut i: usize = 0;
    assert((limit - 1) / limit as int == 0) by (nonlinear_arith)
        requires limit > 0;
    assert(r@ =~= Seq::<Vec<i32>>::empty());
    assert(batch_views(r@) =~= Seq::<Seq<i32>>::empty());
    while i < items.len()
        invariant
            i <= items@.len(),
            flatten(batch_views(r@)) == items@.take(i as int),
            batches_bounded(batch_views(r@), limit as nat),
            limit > 0,
            i < items@.len() ==> i == r@.len() * limit,
            i == items@.len() ==> r@.len() == (items@.len() + limit - 1) / limit as int,
        decreases items@.len() - i,
    {
        let mut batch: Vec<i32> = Vec::new();
        let start = i;
        while i < items.len() && batch.len() < limit
            invariant
                start <= i <= items@.len(),
                batch@ == items@.subrange(start as int, i as int),
                batch@.len() <= limit,
            decreases items@.len() - i,
        {
            batch.push(items[i]);
            i = i + 1;
            assert(batch@ =~= items@.subrange(start as int, i as int));
        }
        let ghost old_r = r@;
        r.push(batch);
        proof {
            assert(batch_views(r@).drop_last() =~= batch_views(old_r));
            assert(items@.take(i as int) =~= items@.take(start as int) + items@.subrange(start as int, i as int));
            assert forall|k: int| 0 <= k < batch_views(r@).len() implies 0 < #[trigger] batch_views(r@)[k].len() <= limit by {
                if k < old_r.len() {
                    assert(batch_views(r@)[k] == batch_views(old_r)[k]);
                }
            }
            if i < items@.len() {
                assert(batch@.len() == limit);
                assert(i == r@.len() * limit) by (nonlinear_arith)
                    requires start == old_r.len() * limit, i == start + limit, r@.len() == old_r.len() + 1;
            } else {
                assert(r@.len() == (items@.len() + limit - 1) / limit as int) by (nonlinear_arith)
                    requires start == old_r.len() * limit, i == items@.len(), 0 < i - start <= limit,
                        r@.len() == old_r.len() + 1, limit > 0;
            }
        }
    }
    proof {
        assert(items@.take(i as int) =~= items@);
    }
    r
}

/// A copy of a batch of ids.
pub fn copy_ids(v: &Vec<i32>) -> (r: Vec<i32>)
    ensures
        r@ == v@,
{
    let mut r: Vec<i32> = Vec::new();
    let mut i: usize = 0;
    while i < v.len()
        invariant
            i <= v@.len(),
            r@ == v@.take(i as int),
        decreases v@.len() - i,
    {
        r.push(v[i]);
        i = i + 1;
        assert(r@ =~= v@.take(i as int));
    }
    assert(r@ =~= v@);
    r
}

/// The first `i + 1` batches laid end to end are the first `i` followed by batch `i`.
pub proof fn lemma_flatten_take_step(s: Seq<Seq<i32>>, i: int)
    requires
        0 <= i < s.len(),
    ensures
        flatten(s.take(i + 1)) == flatten(s.take(i)) + s[i],
{
    assert(s.take(i + 1).drop_last() =~= s.take(i));
}

/// A prefix of the batches holds no more items than all of them.
pub proof fn lemma_flatten_take_len(s: Seq<Seq<i32>>, i: int)
    requires
        0 <= i <= s.len(),
    ensures
        flatten(s.take(i)).len() <= flatten(s).len(),
    decreases s.len() - i,
{
    if i < s.len() {
        lemma_flatten_take_len(s, i + 1);
        lemma_flatten_take_step(s, i);
    } else {
        assert(s.take(i) =~= s);
    }
}

} // verus!
