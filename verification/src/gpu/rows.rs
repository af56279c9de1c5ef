//! The rows of a matrix in chunks that fit into one binding each.

use vstd::prelude::*;

verus! {

/// A run of rows.
#[derive(Clone, Copy, Debug, PartialEq, Eq, Structural)]
pub struct GpuRows {
    pub out_offset: usize,
    pub out_features: usize,
}

/// The most rows of `row_bytes` bytes that a binding of `limit` bytes holds.
pub open spec fn rows_per_chunk(limit: u64, row_bytes: u64) -> usize
    recommends
        row_bytes > 0,
{
    if limit / row_bytes > usize::MAX {
        usize::MAX
    } else {
        (limit / row_bytes) as usize
    }
}

/// The rows from `from` up to `out`, at most `most` at a time.
pub open spec fn planned(most: usize, out: usize, from: usize) -> Seq<GpuRows>
    decreases out - from,
{
    if from >= out || most == 0 {
        Seq::empty()
    } else if out - from <= most {
        seq![GpuRows { out_offset: from, out_features: (out - from) as usize }]
    } else {
        seq![GpuRows { out_offset: from, out_features: most }] + planned(
            most,
            out,
            (from + most) as usize,
        )
    }
}

/// Whether the runs follow one another from row 0 up to row `upto`.
pub open spec fn covers(rows: Seq<GpuRows>, upto: int) -> bool
    decreases rows.len(),
{
    if rows.len() == 0 {
        upto == 0
    } else {
        &&& rows.last().out_offset + rows.last().out_features == upto
        &&& covers(rows.drop_last(), rows.last().out_offset as int)
    }
}

/// Law: a plan takes every row once, in order, in runs that are not empty and none of which is
/// larger than allowed.
pub proof fn law_plan_covers(most: usize, out: usize)
    requires
        most > 0,
    ensures
        covers(planned(most, out, 0), out as int),
        forall|k: int|
            0 <= k < planned(most, out, 0).len() ==> 0 < (#[trigger] planned(
                most,
                out,
                0,
            )[k]).out_features <= most,
{
    lemma_planned_covers(Seq::empty(), most, out, 0);
}

/// Law: no run of a plan needs more bytes than a binding has.
pub proof fn law_chunk_fits(limit: u64, row_bytes: u64, rows: int)
    requires
        0 < row_bytes <= limit,
        0 <= rows <= rows_per_chunk(limit, row_bytes),
    ensures
        rows * row_bytes <= limit,
        rows_per_chunk(limit, row_bytes) > 0,
{
    let q = limit / row_bytes;
    assert(q * row_bytes <= limit && q >= 1) by (nonlinear_arith)
        requires
            0 < row_bytes <= limit,
            q == limit / row_bytes,
    ;
    assert(rows * row_bytes <= q * row_bytes) by (nonlinear_arith)
        requires
            0 <= rows <= q,
            row_bytes > 0,
    ;
}

proof fn lemma_planned_covers(before: Seq<GpuRows>, most: usize, out: usize, from: usize)
    requires
        most > 0,
        from <= out,
        covers(before, from as int),
    ensures
        covers(before + planned(most, out, from), out as int),
        forall|k: int|
            0 <= k < planned(most, out, from).len() ==> 0 < (#[trigger] planned(
                most,
                out,
                from,
            )[k]).out_features <= most,
    decreases out - from,
{
    if from >= out {
        assert(before + planned(most, out, from) =~= before);
    } else if out - from <= most {
        let last = GpuRows { out_offset: from, out_features: (out - from) as usize };
        assert(planned(most, out, from) =~= seq![last]);
        let all = before + planned(most, out, from);
        assert(all.drop_last() =~= before);
        assert(all.last() == last);
    } else {
        let first = GpuRows { out_offset: from, out_features: most };
        let next = (from + most) as usize;
        let more = before.push(first);
        assert(more.drop_last() =~= before);
        lemma_planned_covers(more, most, out, next);
        assert(before + planned(most, out, from) =~= more + planned(most, out, next));
        let p = planned(most, out, from);
        assert(p =~= seq![first] + planned(most, out, next));
        assert forall|k: int| 0 <= k < p.len() implies 0 < (#[trigger] p[k]).out_features <= most by {
            if k > 0 {
                assert(p[k] == planned(most, out, next)[k - 1]);
            }
        }
    }
}

/// The most rows that a binding holds.
pub fn rows_for_chunk(limit: u64, row_bytes: u64) -> (r: usize)
    requires
        row_bytes > 0,
    ensures
        r == rows_per_chunk(limit, row_bytes),
{
    let n: u64 = limit / row_bytes;
    if n > usize::MAX as u64 {
        usize::MAX
    } else {
        n as usize
    }
}

/// The rows of a matrix, at most `most` at a time.
pub fn plan_rows(most: usize, out: usize) -> (r: Vec<GpuRows>)
    requires
        most > 0,
    ensures
        r@ == planned(most, out, 0),
        covers(r@, out as int),
{
    let mut plan: Vec<GpuRows> = Vec::new();
    let mut from: usize = 0;
    assert(plan@ + planned(most, out, 0) =~= planned(most, out, 0));
    while from < out
        invariant
            from <= out,
            most > 0,
            plan@ + planned(most, out, from) == planned(most, out, 0),
        decreases out - from,
    {
        let left: usize = out - from;
        let n: usize = if left <= most {
            left
        } else {
            most
        };
        let ghost before = plan@;
        plan.push(GpuRows { out_offset: from, out_features: n });
        proof {
            let first = GpuRows { out_offset: from, out_features: n };
            let rest = planned(most, out, (from + n) as usize);
            assert(planned(most, out, from) =~= seq![first] + rest);
            assert(before + planned(most, out, from) =~= before.push(first) + rest);
        }
        from += n;
    }
    assert(plan@ + planned(most, out, from) =~= plan@);
    proof {
        law_plan_covers(most, out);
    }
    plan
}

/// Lists one behind the other.
pub open spec fn concat(parts: Seq<Seq<u32>>) -> Seq<u32>
    decreases parts.len(),
{
    if parts.len() == 0 {
        Seq::empty()
    } else {
        concat(parts.drop_last()) + parts.last()
    }
}

/// The values of a list of word lists.
pub open spec fn word_lists(v: Seq<Vec<u32>>) -> Seq<Seq<u32>> {
    v.map_values(|w: Vec<u32>| w@)
}

/// Each part has as many words as its run has rows.
pub open spec fn parts_fit(rows: Seq<GpuRows>, parts: Seq<Seq<u32>>) -> bool {
    &&& parts.len() == rows.len()
    &&& forall|k: int|
        0 <= k < rows.len() ==> (#[trigger] parts[k]).len() == rows[k].out_features
}

/// Law: what a device computed for a run stands at the rows of that run, and there is a value
/// for every row.
pub proof fn law_parts_land(rows: Seq<GpuRows>, parts: Seq<Seq<u32>>, upto: int)
    requires
        covers(rows, upto),
        parts_fit(rows, parts),
    ensures
        concat(parts).len() == upto,
        forall|k: int, j: int|
            0 <= k < rows.len() && 0 <= j < rows[k].out_features ==> concat(
                parts,
            )[rows[k].out_offset + j] == #[trigger] parts[k][j],
    decreases rows.len(),
{
    if rows.len() > 0 {
        let r = rows.drop_last();
        let p = parts.drop_last();
        let at = rows.last().out_offset as int;
        assert forall|k: int| 0 <= k < r.len() implies (#[trigger] p[k]).len()
            == r[k].out_features by {
            assert(p[k] == parts[k]);
        }
        law_parts_land(r, p, at);
        assert(parts[parts.len() - 1].len() == rows[rows.len() - 1].out_features);
        assert forall|k: int, j: int|
            0 <= k < rows.len() && 0 <= j < rows[k].out_features implies concat(
            parts,
        )[rows[k].out_offset + j] == #[trigger] parts[k][j] by {
            if k < r.len() {
                assert(r[k] == rows[k] && p[k] == parts[k]);
                assert(p[k][j] == parts[k][j]);
                lemma_covers_bound(r, at, k);
            }
        }
    }
}

/// A run stays within the rows that its list takes.
pub proof fn lemma_covers_bound(rows: Seq<GpuRows>, upto: int, k: int)
    requires
        covers(rows, upto),
        0 <= k < rows.len(),
    ensures
        rows[k].out_offset + rows[k].out_features <= upto,
    decreases rows.len(),
{
    if k < rows.len() - 1 {
        lemma_covers_bound(rows.drop_last(), rows.last().out_offset as int, k);
    }
}

/// The parts from `start` up to `end`, one behind the other.
pub fn gather(parts: &[Vec<u32>], start: usize, end: usize) -> (r: Vec<u32>)
    requires
        start <= end <= parts@.len(),
    ensures
        r@ == concat(word_lists(parts@).subrange(start as int, end as int)),
{
    let mut out: Vec<u32> = Vec::new();
    let mut i: usize = start;
    let ghost all = word_lists(parts@);
    assert(all.subrange(start as int, start as int) =~= Seq::<Seq<u32>>::empty());
    while i < end
        invariant
            start <= i <= end <= parts@.len(),
            all == word_lists(parts@),
            out@ == concat(all.subrange(start as int, i as int)),
        decreases end - i,
    {
        let mut j: usize = 0;
        let ghost before = out@;
        assert(before + parts@[i as int]@.take(0) =~= before);
        while j < parts[i].len()
            invariant
                i < parts@.len(),
                j <= parts@[i as int]@.len(),
                out@ == before + parts@[i as int]@.take(j as int),
            decreases parts@[i as int]@.len() - j,
        {
            out.push(parts[i][j]);
            j += 1;
            assert(out@ =~= before + parts@[i as int]@.take(j as int));
        }
        proof {
            let more = all.subrange(start as int, i + 1);
            assert(more.drop_last() =~= all.subrange(start as int, i as int));
            assert(more.last() == parts@[i as int]@);
            assert(parts@[i as int]@.take(parts@[i as int]@.len() as int) =~= parts@[i as int]@);
        }
        i += 1;
    }
    out
}

} // verus!
