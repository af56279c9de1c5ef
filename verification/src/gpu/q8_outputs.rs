//! The products of some matrices in eight bits, from what was read.

use vstd::prelude::*;

use crate::gpu::context::tensor_from_words;
use crate::gpu::matvec;
use crate::gpu::q8;
use crate::gpu::rows;
use crate::gpu::rows::gather;
use crate::gpu::GpuQ8MatVec;
use crate::tensor::Tensor;

verus! {

/// The number of chunks of some matrices.
pub open spec fn q8_chunk_count(m: Seq<&GpuQ8MatVec>) -> nat
    decreases m.len(),
{
    if m.len() == 0 {
        0
    } else {
        q8_chunk_count(m.drop_last()) + m.last().chunks@.len()
    }
}

/// What was read for the matrix with number `i`.
pub open spec fn q8_own_parts(m: Seq<&GpuQ8MatVec>, parts: Seq<Seq<u32>>, i: int) -> Seq<Seq<u32>> {
    let start = q8_chunk_count(m.take(i)) as int;
    parts.subrange(start, start + m[i].chunks@.len())
}

/// Whether a tensor holds the products of a matrix, read in the given parts.
pub open spec fn is_q8_output(m: GpuQ8MatVec, parts: Seq<Seq<u32>>, t: Tensor) -> bool {
    &&& matvec::output_failure(m.out_features) is None
    &&& t.dims() == seq![1usize, m.out_features]
    &&& t.values() == rows::concat(parts)
}

/// Whether as much was read as the matrices have products.
pub open spec fn q8_all_read(m: Seq<&GpuQ8MatVec>, parts: Seq<Seq<u32>>) -> bool {
    &&& parts.len() == q8_chunk_count(m)
    &&& forall|i: int|
        0 <= i < m.len() ==> {
            &&& (#[trigger] m[i]).well_formed()
            &&& rows::parts_fit(q8::q8_rows_of(m[i].chunks@), q8_own_parts(m, parts, i))
        }
}

proof fn lemma_q8_chunk_count(m: Seq<&GpuQ8MatVec>, i: int)
    requires
        0 <= i <= m.len(),
    ensures
        q8_chunk_count(m.take(i)) <= q8_chunk_count(m),
    decreases m.len() - i,
{
    if i == m.len() {
        assert(m.take(i) =~= m);
    } else {
        lemma_q8_chunk_count(m, i + 1);
        assert(m.take(i + 1).drop_last() =~= m.take(i));
    }
}

/// Law: as many buffers are read as the matrices have chunks.
pub proof fn law_one_read_for_each_chunk(m: Seq<&GpuQ8MatVec>)
    ensures
        q8::q8_many_readbacks(m).len() == q8_chunk_count(m),
    decreases m.len(),
{
    if m.len() > 0 {
        law_one_read_for_each_chunk(m.drop_last());
    }
}

impl GpuQ8MatVec {
    /// The products of some matrices, from what was read.
    pub fn forward_many_raw_outputs(matvecs: &[&GpuQ8MatVec], parts: &[Vec<u32>]) -> (r: Vec<
        Vec<u32>,
    >)
        requires
            q8_all_read(matvecs@, rows::word_lists(parts@)),
        ensures
            r@.len() == matvecs@.len(),
            forall|i: int|
                0 <= i < matvecs@.len() ==> {
                    &&& (#[trigger] r@[i])@ == rows::concat(
                        q8_own_parts(matvecs@, rows::word_lists(parts@), i),
                    )
                    &&& r@[i]@.len() == matvecs@[i].out_features
                },
    {
        let mut out: Vec<Vec<u32>> = Vec::new();
        let ghost all = rows::word_lists(parts@);
        let ghost m = matvecs@;
        let total: usize = parts.len();
        let mut at: usize = 0;
        let mut i: usize = 0;
        assert(m.take(0) =~= Seq::<&GpuQ8MatVec>::empty());
        while i < matvecs.len()
            invariant
                i <= matvecs@.len(),
                m == matvecs@,
                all == rows::word_lists(parts@),
                total == parts@.len(),
                total == q8_chunk_count(m),
                q8_all_read(m, all),
                at == q8_chunk_count(m.take(i as int)),
                out@.len() == i,
                forall|k: int|
                    0 <= k < i ==> {
                        &&& (#[trigger] out@[k])@ == rows::concat(q8_own_parts(m, all, k))
                        &&& out@[k]@.len() == m[k].out_features
                    },
            decreases matvecs@.len() - i,
        {
            let n: usize = matvecs[i].chunks.len();
            proof {
                assert(m.take(i + 1).drop_last() =~= m.take(i as int));
                assert(m.take(i + 1).last() == m[i as int]);
                lemma_q8_chunk_count(m, i + 1);
                assert(m[i as int].well_formed());
                rows::law_parts_land(
                    q8::q8_rows_of(m[i as int].chunks@),
                    q8_own_parts(m, all, i as int),
                    m[i as int].out_features as int,
                );
            }
            out.push(gather(parts, at, at + n));
            at += n;
            i += 1;
        }
        out
    }

    /// The products of some matrices as rows, from what was read.
    pub fn forward_many_outputs(matvecs: &[&GpuQ8MatVec], parts: &[Vec<u32>]) -> (r: Result<
        Vec<Tensor>,
        String,
    >)
        requires
            q8_all_read(matvecs@, rows::word_lists(parts@)),
        ensures
            match r {
                Ok(tensors) => {
                    &&& tensors@.len() == matvecs@.len()
                    &&& forall|i: int|
                        0 <= i < matvecs@.len() ==> is_q8_output(
                            *matvecs@[i],
                            q8_own_parts(matvecs@, rows::word_lists(parts@), i),
                            #[trigger] tensors@[i],
                        )
                },
                Err(e) => exists|i: int|
                    {
                        &&& 0 <= i < matvecs@.len()
                        &&& matvec::output_failure((#[trigger] matvecs@[i]).out_features) == Some(
                            e@,
                        )
                        &&& forall|j: int|
                            0 <= j < i ==> matvec::output_failure(
                                (#[trigger] matvecs@[j]).out_features,
                            ) is None
                    },
            },
    {
        let mut left = GpuQ8MatVec::forward_many_raw_outputs(matvecs, parts);
        let ghost words = left@;
        let ghost all = rows::word_lists(parts@);
        let ghost m = matvecs@;
        let mut tensors: Vec<Tensor> = Vec::new();
        let mut i: usize = 0;
        while i < matvecs.len()
            invariant
                i <= matvecs@.len(),
                m == matvecs@,
                all == rows::word_lists(parts@),
                words.len() == m.len(),
                left@ == words.skip(i as int),
                tensors@.len() == i,
                forall|k: int|
                    0 <= k < m.len() ==> {
                        &&& (#[trigger] words[k])@ == rows::concat(q8_own_parts(m, all, k))
                        &&& words[k]@.len() == m[k].out_features
                    },
                forall|k: int|
                    0 <= k < i ==> is_q8_output(
                        *m[k],
                        q8_own_parts(m, all, k),
                        #[trigger] tensors@[k],
                    ),
                forall|k: int|
                    0 <= k < i ==> matvec::output_failure((#[trigger] m[k]).out_features) is None,
            decreases matvecs@.len() - i,
        {
            let one = left.remove(0);
            assert(one == words[i as int]);
            assert(left@ =~= words.skip(i + 1));
            let shape: Vec<usize> = vec![1, matvecs[i].out_features];
            assert(shape@ =~= seq![1usize, m[i as int].out_features]);
            match tensor_from_words(&shape, one) {
                Ok(t) => {
                    assert(is_q8_output(*m[i as int], q8_own_parts(m, all, i as int), t));
                    tensors.push(t);
                },
                Err(e) => {
                    assert(matvec::output_failure(m[i as int].out_features) == Some(e@));
                    return Err(e);
                },
            }
            i += 1;
        }
        Ok(tensors)
    }
}

} // verus!
