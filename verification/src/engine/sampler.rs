//! The choice of the next token from the logits.

use vstd::prelude::*;

use crate::tensor::dtypes;
use crate::tensor::laws;
use crate::tensor::order;
use crate::tensor::Tensor;

verus! {

/// A way to choose a token from a vector of logits.
pub trait Sampler {
    /// The token that is chosen.
    fn sample(&self, logits: &Tensor) -> u32;

    /// Whether the choice is always that of the greatest logit.
    fn is_greedy(&self) -> bool {
        false
    }
}

/// Chooses the greatest logit.
pub struct GreedySampler;

/// The position of the greatest of the first `n` numbers, the last of those that are equal.  A
/// number that cannot be compared counts as equal.
pub open spec fn best_of(data: Seq<u32>, n: nat) -> int
    decreases n,
{
    if n <= 1 {
        0
    } else {
        let b = best_of(data, (n - 1) as nat);
        if order::greater(data[b], data[n - 1]) {
            b
        } else {
            n - 1
        }
    }
}

/// The position of the greatest number; zero where there is none.
pub fn argmax(data: &[u32]) -> (r: u32)
    ensures
        r == best_of(data@, data@.len()) as u32,
{
    if data.len() == 0 {
        return 0;
    }
    let mut best: usize = 0;
    let mut i: usize = 1;
    while i < data.len()
        invariant
            1 <= i <= data.len(),
            best < i,
            best == best_of(data@, i as nat),
        decreases data.len() - i,
    {
        if !order::is_greater(data[best], data[i]) {
            best = i;
        }
        i += 1;
    }
    best as u32
}

impl Sampler for GreedySampler {
    fn sample(&self, logits: &Tensor) -> (r: u32)
        ensures
            logits.row_major() ==> r == best_of(logits.values(), logits.values().len()) as u32,
            !logits.row_major() ==> r == 0,
    {
        argmax(logits.as_slice())
    }

    fn is_greedy(&self) -> (r: bool)
        ensures
            r,
    {
        true
    }
}

/// Temperature, then the `top_k` greatest logits, then those that make up `top_p` of the
/// probability, then a draw.  The two numbers are single-precision bit patterns.
#[derive(Clone, Copy, Debug)]
pub struct CombinedSampler {
    pub temperature: u32,
    pub top_k: usize,
    pub top_p: u32,
}

/// What is left to draw from.
#[derive(Debug)]
pub enum Selection {
    /// Nothing: the token is chosen.
    Token(u32),
    /// These positions, the greatest logit first.
    Ordered(Vec<usize>),
    /// Every position.
    All,
}

impl CombinedSampler {
    pub fn new(temperature: u32, top_k: usize, top_p: u32) -> (r: CombinedSampler)
        ensures
            r.temperature == temperature,
            r.top_k == top_k,
            r.top_p == top_p,
    {
        CombinedSampler { temperature, top_k, top_p }
    }

    /// Whether the temperature is at most zero.
    pub open spec fn greedy(&self) -> bool {
        !dtypes::single_is_nan(self.temperature) && order::rank(self.temperature) <= 0
    }

    /// Whether the choice is always that of the greatest logit.
    pub fn is_greedy(&self) -> (r: bool)
        ensures
            r == self.greedy(),
    {
        order::is_at_most_zero(self.temperature)
    }

    /// What is left to draw from before probabilities are looked at.
    pub fn select(&self, logits: &Tensor) -> (r: Selection)
        ensures
            ({
                let data = if logits.row_major() {
                    logits.values()
                } else {
                    Seq::<u32>::empty()
                };
                if self.greedy() {
                    r matches Selection::Token(t) && t == best_of(data, data.len()) as u32
                } else if 0 < self.top_k && self.top_k < data.len() {
                    r matches Selection::Ordered(c) && c@ == kept(
                        data,
                        self.top_k as nat,
                        data.len(),
                    )
                } else {
                    r is All
                }
            }),
    {
        let data = logits.as_slice();
        if self.is_greedy() {
            return Selection::Token(argmax(data));
        }
        if self.top_k > 0 && self.top_k < data.len() {
            return Selection::Ordered(top_k_indices(data, self.top_k));
        }
        Selection::All
    }
}

/// The sampler that the model's authors recommend: temperature 0.6, the 20 greatest logits,
/// 0.95 of the probability.
pub fn default_sampler() -> (r: CombinedSampler)
    ensures
        r.temperature == 0x3F19_999A,
        r.top_k == 20,
        r.top_p == 0x3F73_3333,
{
    CombinedSampler::new(0x3F19_999A, 20, 0x3F73_3333)
}

/// Where position `i` goes among the positions `c`, from the `p`-th on: before the first with a
/// smaller number.
pub open spec fn place(data: Seq<u32>, c: Seq<usize>, i: int, p: int) -> int
    decreases c.len() - p,
{
    if p >= c.len() || order::greater(data[i], data[c[p] as int]) {
        p
    } else {
        place(data, c, i, p + 1)
    }
}

/// The positions of the `k` greatest of the first `n` numbers, in falling order.  Each number
/// goes behind those that it does not exceed.
pub open spec fn kept(data: Seq<u32>, k: nat, n: nat) -> Seq<usize>
    decreases n,
{
    if n == 0 || k == 0 {
        Seq::<usize>::empty()
    } else {
        let c = kept(data, k, (n - 1) as nat);
        let i = n - 1;
        if c.len() < k {
            c.insert(place(data, c, i, 0), i as usize)
        } else if order::greater(data[i], data[c.last() as int]) {
            c.insert(place(data, c, i, 0), i as usize).drop_last()
        } else {
            c
        }
    }
}

proof fn lemma_place(data: Seq<u32>, c: Seq<usize>, i: int, p: int)
    requires
        0 <= p <= c.len(),
    ensures
        p <= place(data, c, i, p) <= c.len(),
        forall|q: int|
            p <= q < place(data, c, i, p) ==> !order::greater(data[i], data[#[trigger] c[q] as int]),
        place(data, c, i, p) < c.len() ==> order::greater(
            data[i],
            data[c[place(data, c, i, p)] as int],
        ),
    decreases c.len() - p,
{
    if p < c.len() && !order::greater(data[i], data[c[p] as int]) {
        lemma_place(data, c, i, p + 1);
    }
}

proof fn lemma_kept_range(data: Seq<u32>, k: nat, n: nat)
    requires
        n <= data.len(),
        data.len() <= usize::MAX,
    ensures
        kept(data, k, n).len() == (if k < n {
            k
        } else {
            n
        }),
        forall|p: int| 0 <= p < kept(data, k, n).len() ==> (#[trigger] kept(data, k, n)[p]) < n,
    decreases n,
{
    if n > 0 && k > 0 {
        lemma_kept_range(data, k, (n - 1) as nat);
        lemma_place(data, kept(data, k, (n - 1) as nat), n - 1, 0);
    }
}

fn insert_desc(candidates: &mut Vec<usize>, idx: usize, data: &[u32])
    requires
        idx < data@.len(),
        old(candidates)@.len() < usize::MAX,
        forall|p: int| 0 <= p < old(candidates)@.len() ==> (#[trigger] old(candidates)@[p])
            < data@.len(),
    ensures
        final(candidates)@ == old(candidates)@.insert(
            place(data@, old(candidates)@, idx as int, 0),
            idx,
        ),
{
    let mut p: usize = 0;
    while p < candidates.len() && !order::is_greater(data[idx], data[candidates[p]])
        invariant
            p <= candidates.len(),
            idx < data@.len(),
            candidates@ == old(candidates)@,
            forall|q: int| 0 <= q < candidates@.len() ==> (#[trigger] candidates@[q]) < data@.len(),
            place(data@, candidates@, idx as int, 0) == place(
                data@,
                candidates@,
                idx as int,
                p as int,
            ),
        decreases candidates.len() - p,
    {
        p += 1;
    }
    candidates.insert(p, idx);
}

/// The positions of the `top_k` greatest numbers, the greatest first.
pub fn top_k_indices(data: &[u32], top_k: usize) -> (r: Vec<usize>)
    ensures
        r@ == kept(data@, top_k as nat, data@.len()),
{
    let mut candidates: Vec<usize> = Vec::new();
    if top_k == 0 {
        return candidates;
    }
    let mut i: usize = 0;
    while i < data.len()
        invariant
            i <= data.len(),
            top_k > 0,
            candidates@ == kept(data@, top_k as nat, i as nat),
        decreases data.len() - i,
    {
        proof {
            lemma_kept_range(data@, top_k as nat, i as nat);
        }
        if candidates.len() < top_k {
            insert_desc(&mut candidates, i, data);
        } else if order::is_greater(data[i], data[candidates[candidates.len() - 1]]) {
            proof {
                lemma_place(data@, candidates@, i as int, 0);
            }
            insert_desc(&mut candidates, i, data);
            candidates.pop();
        }
        i += 1;
    }
    candidates
}

/// Whether position `a` comes before position `b`: its number is greater, or as great and
/// earlier.
pub open spec fn ahead(data: Seq<u32>, a: int, b: int) -> bool {
    order::rank(data[a]) > order::rank(data[b]) || (order::rank(data[a]) == order::rank(data[b])
        && a < b)
}

/// Whether `c` holds the `k` foremost of the first `n` positions, in their order.
pub open spec fn foremost(data: Seq<u32>, k: nat, n: nat, c: Seq<usize>) -> bool {
    &&& c.len() == (if k < n {
        k
    } else {
        n
    })
    &&& forall|p: int| 0 <= p < c.len() ==> (#[trigger] c[p]) < n
    &&& in_order(data, c)
    &&& forall|p: int, j: int|
        #![trigger c[p], data[j]]
        0 <= p < c.len() && 0 <= j < n && !c.contains(j as usize) ==> ahead(data, c[p] as int, j)
}

/// Whether the positions `c` stand in their order.
pub open spec fn in_order(data: Seq<u32>, c: Seq<usize>) -> bool {
    forall|p: int, q: int|
        0 <= p < q < c.len() ==> ahead(data, #[trigger] c[p] as int, #[trigger] c[q] as int)
}

proof fn lemma_insert_in_order(data: Seq<u32>, c: Seq<usize>, i: int)
    requires
        0 <= i < data.len() <= usize::MAX,
        in_order(data, c),
        forall|p: int| 0 <= p < c.len() ==> (#[trigger] c[p]) < i,
        forall|j: int| 0 <= j < data.len() ==> !dtypes::single_is_nan(#[trigger] data[j]),
    ensures
        in_order(data, c.insert(place(data, c, i, 0), i as usize)),
        place(data, c, i, 0) <= c.len(),
{
    let at = place(data, c, i, 0);
    lemma_place(data, c, i, 0);
    let full = c.insert(at, i as usize);
    assert forall|p: int, q: int| 0 <= p < q < full.len() implies ahead(
        data,
        #[trigger] full[p] as int,
        #[trigger] full[q] as int,
    ) by {
        let x = if p < at {
            p
        } else {
            p - 1
        };
        let y = if q < at {
            q
        } else {
            q - 1
        };
        if p != at {
            assert(full[p] == c[x]);
            assert(!dtypes::single_is_nan(data[c[x] as int]));
        }
        if q != at {
            assert(full[q] == c[y]);
            assert(!dtypes::single_is_nan(data[c[y] as int]));
        }
        if p < at && q == at {
            assert(!order::greater(data[i], data[c[p] as int]));
        } else if p == at {
            assert(order::greater(data[i], data[c[at] as int]));
            if y > at {
                assert(ahead(data, c[at] as int, c[y] as int));
            }
        } else {
            assert(ahead(data, c[x] as int, c[y] as int));
        }
    }
}

proof fn lemma_insert_contains(c: Seq<usize>, at: int, v: usize, w: usize)
    requires
        0 <= at <= c.len(),
    ensures
        c.insert(at, v).contains(w) <==> c.contains(w) || w == v,
{
    let full = c.insert(at, v);
    assert(full[at] == v);
    if c.contains(w) {
        let x = choose|x: int| 0 <= x < c.len() && c[x] == w;
        if x < at {
            assert(full[x] == w);
        } else {
            assert(full[x + 1] == w);
        }
    }
    if full.contains(w) && w != v {
        let x = choose|x: int| 0 <= x < full.len() && full[x] == w;
        if x < at {
            assert(c[x] == w);
        } else {
            assert(c[x - 1] == w);
        }
    }
}

/// Law: of numbers that can all be compared, the greatest are kept, the greatest first and the
/// earlier first where two are equal.
pub proof fn law_top_k_keeps_greatest(data: Seq<u32>, k: nat, n: nat)
    requires
        n <= data.len(),
        data.len() <= usize::MAX,
        forall|i: int| 0 <= i < data.len() ==> !dtypes::single_is_nan(#[trigger] data[i]),
    ensures
        foremost(data, k, n, kept(data, k, n)),
    decreases n,
{
    lemma_kept_range(data, k, n);
    if n > 0 && k > 0 {
        law_top_k_keeps_greatest(data, k, (n - 1) as nat);
        let c = kept(data, k, (n - 1) as nat);
        let d = kept(data, k, n);
        let i = n - 1;
        let full = c.insert(place(data, c, i, 0), i as usize);
        lemma_insert_in_order(data, c, i);
        assert(in_order(data, d)) by {
            if c.len() >= k {
                assert forall|p: int, q: int| 0 <= p < q < d.len() implies ahead(
                    data,
                    #[trigger] d[p] as int,
                    #[trigger] d[q] as int,
                ) by {
                    if order::greater(data[i], data[c.last() as int]) {
                        assert(d[p] == full[p] && d[q] == full[q]);
                    }
                }
            }
        }
        assert forall|p: int, j: int|
            #![trigger d[p], data[j]]
            0 <= p < d.len() && 0 <= j < n && !d.contains(j as usize) implies ahead(
            data,
            d[p] as int,
            j,
        ) by {
            lemma_foremost_step(data, k, n, p, j);
        }
    }
}

proof fn lemma_foremost_step(data: Seq<u32>, k: nat, n: nat, p: int, j: int)
    requires
        0 < n <= data.len(),
        data.len() <= usize::MAX,
        k > 0,
        forall|i: int| 0 <= i < data.len() ==> !dtypes::single_is_nan(#[trigger] data[i]),
        foremost(data, k, (n - 1) as nat, kept(data, k, (n - 1) as nat)),
        in_order(
            data,
            kept(data, k, (n - 1) as nat).insert(
                place(data, kept(data, k, (n - 1) as nat), n - 1, 0),
                (n - 1) as usize,
            ),
        ),
        0 <= p < kept(data, k, n).len(),
        0 <= j < n,
        !kept(data, k, n).contains(j as usize),
    ensures
        ahead(data, kept(data, k, n)[p] as int, j),
{
    let c = kept(data, k, (n - 1) as nat);
    let d = kept(data, k, n);
    let i = n - 1;
    let at = place(data, c, i, 0);
    lemma_place(data, c, i, 0);
    let full = c.insert(at, i as usize);
    lemma_insert_contains(c, at, i as usize, j as usize);
    assert(!dtypes::single_is_nan(data[i]));
    if c.len() < k {
        assert forall|x: int, y: int| 0 <= x < y < c.len() implies #[trigger] c[x]
            != #[trigger] c[y] by {
            assert(ahead(data, c[x] as int, c[y] as int));
        }
        if j < n - 1 {
            lemma_all_kept(c, (n - 1) as nat, j);
        }
    } else {
        let last = c.len() - 1;
        assert(!dtypes::single_is_nan(data[c[last] as int]));
        if order::greater(data[i], data[c.last() as int]) {
            assert(d[p] == full[p]);
            if at == c.len() {
                assert(!order::greater(data[i], data[c[last] as int]));
            }
            assert(full[full.len() - 1] == c[last]);
            assert(ahead(data, full[p] as int, full[full.len() - 1] as int));
            if full.contains(j as usize) {
                let w = choose|w: int| 0 <= w < full.len() && full[w] == j as usize;
                if w < d.len() {
                    assert(d[w] == j as usize);
                }
                assert(w == full.len() - 1);
            } else {
                assert(ahead(data, c[last] as int, j));
            }
        } else if j == i {
            if p < last {
                assert(ahead(data, c[p] as int, c[last] as int));
            }
        } else {
            assert(ahead(data, c[p] as int, j));
        }
    }
}

/// As many different positions below `n` as there are make up all of them.
proof fn lemma_all_kept(c: Seq<usize>, n: nat, j: int)
    requires
        c.len() == n,
        0 <= j < n,
        n <= usize::MAX,
        forall|p: int| 0 <= p < c.len() ==> (#[trigger] c[p]) < n,
        forall|p: int, q: int| 0 <= p < q < c.len() ==> #[trigger] c[p] != #[trigger] c[q],
    ensures
        c.contains(j as usize),
{
    let s = c.to_set();
    let all = Set::<usize>::new(|x: usize| x < n);
    assert(c.no_duplicates());
    c.unique_seq_to_set();
    assert forall|x: usize| s.contains(x) implies all.contains(x) by {
        let w = choose|w: int| 0 <= w < c.len() && c[w] == x;
        assert(c[w] < n);
    }
    lemma_size_of_range(n);
    vstd::set_lib::lemma_subset_equality(s, all);
    assert(all.contains(j as usize));
    assert(s.contains(j as usize));
}

proof fn lemma_size_of_range(n: nat)
    requires
        n <= usize::MAX,
    ensures
        Set::<usize>::new(|x: usize| x < n).finite(),
        Set::<usize>::new(|x: usize| x < n).len() == n,
    decreases n,
{
    let s = Set::<usize>::new(|x: usize| x < n);
    if n == 0 {
        assert(s =~= Set::<usize>::empty());
    } else {
        lemma_size_of_range((n - 1) as nat);
        let t = Set::<usize>::new(|x: usize| x < (n - 1) as nat);
        assert(s =~= t.insert((n - 1) as usize));
    }
}

/// Law: of numbers that can all be compared, the greatest is chosen, the last where several are
/// as great.
pub proof fn law_argmax_is_greatest(data: Seq<u32>, n: nat)
    requires
        0 < n <= data.len(),
        forall|i: int| 0 <= i < data.len() ==> !dtypes::single_is_nan(#[trigger] data[i]),
    ensures
        0 <= best_of(data, n) < n,
        forall|j: int|
            0 <= j < n ==> order::rank(#[trigger] data[j]) <= order::rank(data[best_of(data, n)]),
        forall|j: int|
            best_of(data, n) < j < n ==> order::rank(#[trigger] data[j]) < order::rank(
                data[best_of(data, n)],
            ),
    decreases n,
{
    if n > 1 {
        law_argmax_is_greatest(data, (n - 1) as nat);
        let b = best_of(data, (n - 1) as nat);
        assert(!dtypes::single_is_nan(data[b]) && !dtypes::single_is_nan(data[n - 1]));
    }
}

/// Law: a temperature is greedy where the number that it stands for is at most zero.
pub proof fn law_greedy_is_at_most_zero(s: CombinedSampler)
    ensures
        s.greedy() <==> s.temperature % 0x8000_0000 <= 0x7F80_0000 && laws::single_value(
            s.temperature,
        ) <= 0,
{
    laws::law_order_is_that_of_the_numbers(s.temperature, s.temperature);
}

/// Law: of numbers that can all be compared, the one that is chosen stands for the greatest, and the
/// greatest come first among those that are kept; what is not kept stands for no greater number.
pub proof fn law_choice_is_by_the_numbers(data: Seq<u32>, k: nat, p: int, j: int)
    requires
        0 < data.len() <= usize::MAX,
        forall|i: int| 0 <= i < data.len() ==> (#[trigger] data[i]) % 0x8000_0000 <= 0x7F80_0000,
        0 <= p < kept(data, k, data.len()).len(),
        0 <= j < data.len(),
    ensures
        ({
            let best = best_of(data, data.len());
            let c = kept(data, k, data.len());
            &&& 0 <= best < data.len()
            &&& laws::single_value(data[j]) <= laws::single_value(data[best])
            &&& j > best ==> laws::single_value(data[j]) < laws::single_value(data[best])
            &&& c.len() == (if k < data.len() {
                k
            } else {
                data.len()
            })
            &&& c[p] < data.len()
            &&& !c.contains(j as usize) ==> laws::single_value(data[j]) <= laws::single_value(
                data[c[p] as int],
            )
            &&& p > 0 ==> c[p - 1] != c[p] && laws::single_value(data[c[p] as int])
                <= laws::single_value(data[c[p - 1] as int])
        }),
{
    let n = data.len();
    let best = best_of(data, n);
    let c = kept(data, k, n);
    law_argmax_is_greatest(data, n);
    law_top_k_keeps_greatest(data, k, n);
    lemma_ranks(data[best], data[j]);
    lemma_ranks(data[j], data[best]);
    lemma_ranks(data[c[p] as int], data[j]);
    lemma_ranks(data[j], data[c[p] as int]);
    if p > 0 {
        lemma_ranks(data[c[p] as int], data[c[p - 1] as int]);
        lemma_ranks(data[c[p - 1] as int], data[c[p] as int]);
        assert(ahead(data, c[p - 1] as int, c[p] as int));
    }
    if !c.contains(j as usize) {
        assert(ahead(data, c[p] as int, j));
    }
}

proof fn lemma_ranks(a: u32, b: u32)
    requires
        a % 0x8000_0000 <= 0x7F80_0000,
        b % 0x8000_0000 <= 0x7F80_0000,
    ensures
        order::rank(a) > order::rank(b) <==> laws::single_value(a) > laws::single_value(b),
{
    laws::law_order_is_that_of_the_numbers(a, b);
}

/// Law: where numbers cannot all be compared, each in turn takes the place of the one that was chosen
/// so far, unless that one is greater.
pub proof fn law_choice_step_by_step(data: Seq<u32>, n: nat)
    requires
        0 < n < data.len(),
    ensures
        best_of(data, 1) == 0,
        best_of(data, n + 1) == (if order::greater(data[best_of(data, n)], data[n as int]) {
            best_of(data, n)
        } else {
            n as int
        }),
{
}

} // verus!
