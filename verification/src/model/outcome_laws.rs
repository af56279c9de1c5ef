//! What holds of a model behind a call that runs on a device: what was sent there, what can be read of
//! it, and what stays as it was.

use vstd::prelude::*;
use vstd::string::*;

use crate::engine::cache;
use crate::engine::CachedKV;
use crate::error::{ErrorView, RsinferError};
use crate::gpu::context;
use crate::gpu::context::{ContextView, OpView};
use crate::gpu::outcomes;
use crate::gpu::resident;
use crate::gpu::{GpuBufferInfo, GpuCommand, GpuEncoder, GpuResidentBuffer, GpuUsage};
use crate::model::attention_once;
use crate::model::attention_state;
use crate::model::block;
use crate::model::block_once;
use crate::model::block_once::BlockOnce;
use crate::model::block_state;
use crate::model::linear;
use crate::model::qwen3::ResidentQwen3RuntimeState;
use crate::model::qwen3_decode;
use crate::model::{Attention, Linear, Qwen3Model, RmsNorm, TransformerBlock};
use crate::tensor::array;
use crate::tensor::Tensor;

verus! {

/// Whether some commands are sent and the value that they wrote is asked for: it is copied whole to a
/// buffer made for it, which is then asked for and waited for.
pub open spec fn is_told(
    c: ContextView,
    after: ContextView,
    e: Seq<GpuCommand>,
    v: GpuResidentBuffer,
    id: usize,
) -> bool {
    let n = c.ops.len() as int;
    &&& id == c.buffers.len() as usize
    &&& after.buffers == c.buffers.push(GpuBufferInfo { words: v.len, usage: GpuUsage::Readback })
    &&& after.ops.take(n) == c.ops
    &&& after.ops[n] == OpView::Submit(e)
    &&& outcomes::is_read(
        after.ops,
        n + 1,
        seq![GpuCommand::Copy { src: v.buffer, dst: id, dst_offset: 0, words: v.len }],
        seq![id],
    )
}

/// Whether the last thing that a device did is to hand back a value: it was copied whole to the newest
/// buffer, and that was asked for and waited for.
pub open spec fn ends_with(after: ContextView, v: GpuResidentBuffer, id: usize) -> bool {
    let n = after.ops.len() as int;
    &&& n >= 4
    &&& after.ops[n - 4] is Submit
    &&& after.ops[n - 3] == OpView::Submit(
        seq![GpuCommand::Copy { src: v.buffer, dst: id, dst_offset: 0, words: v.len }],
    )
    &&& after.ops[n - 2] == OpView::MapRead(id)
    &&& after.ops[n - 1] == OpView::PollWait
    &&& after.buffers.len() > 0
    &&& after.buffers.last() == (GpuBufferInfo { words: v.len, usage: GpuUsage::Readback })
    &&& id == (after.buffers.len() - 1) as usize
}

proof fn lemma_told(
    c: ContextView,
    after: ContextView,
    e: Seq<GpuCommand>,
    v: GpuResidentBuffer,
    id: usize,
)
    requires
        id == c.buffers.len() as usize,
        ({
            let told = context::submitted(c, e);
            after == context::read_back(
                context::made(told, v.len, GpuUsage::Readback),
                seq![GpuCommand::Copy { src: v.buffer, dst: id, dst_offset: 0, words: v.len }],
                seq![id],
            )
        }),
    ensures
        is_told(c, after, e, v, id),
        ends_with(after, v, id),
{
    let told = context::submitted(c, e);
    let made = context::made(told, v.len, GpuUsage::Readback);
    let n = c.ops.len() as int;
    let copies = seq![GpuCommand::Copy { src: v.buffer, dst: id, dst_offset: 0, words: v.len }];
    outcomes::law_read_back_is_read(made, copies, seq![id]);
    assert(after.ops.take(n + 1)[n] == made.ops[n]);
    assert(after.ops.take(n) =~= after.ops.take(n + 1).take(n));
    assert(made.ops.take(n) =~= c.ops);
    assert(after.ops[n + 2 + 0] == OpView::MapRead(seq![id][0]));
}

/// Law: a token alone that went through a block is handed back in the value that the block wrote; where
/// the block fails nothing is sent, and the error is its own.
pub proof fn law_block_hands_back_its_output(
    b: TransformerBlock,
    c: ContextView,
    after: ContextView,
    x: Tensor,
    cached: Option<CachedKV<'_>>,
    position: usize,
    r: Result<(GpuResidentBuffer, usize), RsinferError>,
    s: BlockOnce,
    mid: ContextView,
    c3: ContextView,
    e: Seq<GpuCommand>,
    f: Seq<GpuCommand>,
    ran: Result<(), RsinferError>,
    fed: Result<(), RsinferError>,
    done: Result<(), RsinferError>,
)
    requires
        block_once::is_block_outcome(
            b,
            c,
            after,
            x,
            cached,
            position,
            r,
            s,
            mid,
            c3,
            e,
            f,
            ran,
            fed,
            done,
        ),
    ensures
        r is Ok <==> done is Ok,
        done matches Err(y) ==> after == c3 && (r matches Err(z) && z@ == y@),
        r matches Ok(p) ==> p.0 == s.output && is_told(c3, after, f, s.output, p.1),
        block_once::is_block_once(c, b.input_layernorm, b.post_attention_layernorm, x, s),
        exists|ready: ContextView| #[trigger]
            block_once::is_block_run(
                b,
                s,
                ready,
                mid,
                c3,
                e,
                f,
                cached,
                position,
                ran,
                fed,
                done,
            ) && ready.id == c.id && ready.ops.len() > c.ops.len() && ready.ops[c.ops.len() as int]
                == (OpView::Write { buffer: s.input.buffer, words: x.values() }),
{
    let put = block_once::token_put(c, x, 6);
    let ready = block_state::kernels_made(
        put,
        b.input_layernorm,
        b.post_attention_layernorm,
        x.dims()[1],
        3,
    );
    reveal_with_fuel(block_state::rows_made, 8);
    assert(put.ops == c.ops.push(
        OpView::Write { buffer: s.input.buffer, words: x.values() },
    ));
    assert(block_once::is_block_run(
        b,
        s,
        ready,
        mid,
        c3,
        e,
        f,
        cached,
        position,
        ran,
        fed,
        done,
    ));
    if done is Ok {
        lemma_told(c3, after, f, s.output, context::fresh(context::submitted(c3, f)));
    }
}

/// Law: a token can go alone through a block only where it has a width, its numbers stand in order, and
/// the norms have that width; else the error tells which, and of the device only what was made stays.
pub proof fn law_when_a_block_takes_a_token(
    c: ContextView,
    first: RmsNorm,
    second: RmsNorm,
    x: Tensor,
)
    ensures
        ({
            let n = x.dims()[1];
            let why = block_once::block_once_error(c, first, second, x);
            &&& why is None <==> {
                &&& n > 0 && x.row_major()
                &&& crate::gpu::norm::norm_error(first.weight, seq![1usize, n]) is None
                &&& crate::gpu::norm::norm_error(second.weight, seq![1usize, n]) is None
            }
            &&& n == 0 ==> (why matches Some(p) && p.1 == c && p.0
                == "GPU resident buffer requires non-empty shape"@)
            &&& n > 0 && !x.row_major() ==> (why matches Some(p) && p.1.ops == c.ops
                && p.1.buffers.len() == c.buffers.len() + 1)
            &&& n > 0 && x.row_major() ==> (why matches Some(p) ==> p.1.buffers.len()
                >= c.buffers.len() + 7 && (p.0 == crate::gpu::norm::norm_error(
                first.weight,
                seq![1usize, n],
            )->0 || p.0 == crate::gpu::norm::norm_error(second.weight, seq![1usize, n])->0))
        }),
{
    reveal_with_fuel(block_state::rows_made, 8);
}

/// Law: what is told of a token that is sent through a block is the last thing that the device did; a
/// token that cannot be taken gives an error of the block, and leaves all that the device did before.
pub proof fn law_token_comes_back_from_a_block(
    b: TransformerBlock,
    c: ContextView,
    after: ContextView,
    x: Tensor,
    cached: Option<CachedKV<'_>>,
    position: usize,
    r: Result<(GpuResidentBuffer, usize), RsinferError>,
)
    requires
        block_once::is_block_sent(b, c, after, x, cached, position, r),
    ensures
        r matches Ok(p) ==> ends_with(after, p.0, p.1) && p.0.shape@ == seq![1usize, x.dims()[1]],
        r is Ok ==> x.dims()[1] > 0 && x.row_major(),
        x.dims()[1] == 0 ==> after == c && (r matches Err(e) && e@ == ErrorView::DimensionError(
            "GPU resident transformer block prototype failed: "@
                + "GPU resident buffer requires non-empty shape"@,
        )),
        block_once::block_once_error(
            c,
            b.input_layernorm,
            b.post_attention_layernorm,
            x,
        ) is Some ==> r is Err,
        block_once::block_once_error(
            c,
            b.input_layernorm,
            b.post_attention_layernorm,
            x,
        ) is None ==> exists|
            s: BlockOnce,
            mid: ContextView,
            c3: ContextView,
            e: Seq<GpuCommand>,
            f: Seq<GpuCommand>,
            ran: Result<(), RsinferError>,
            fed: Result<(), RsinferError>,
            done: Result<(), RsinferError>,
        | #[trigger]
            block_once::is_block_outcome(
                b,
                c,
                after,
                x,
                cached,
                position,
                r,
                s,
                mid,
                c3,
                e,
                f,
                ran,
                fed,
                done,
            ),
{
    law_when_a_block_takes_a_token(c, b.input_layernorm, b.post_attention_layernorm, x);
    if block_once::block_once_error(
        c,
        b.input_layernorm,
        b.post_attention_layernorm,
        x,
    ) is None {
        let (s, mid, c3, e, f, ran, fed, done) = choose|
            s: BlockOnce,
            mid: ContextView,
            c3: ContextView,
            e: Seq<GpuCommand>,
            f: Seq<GpuCommand>,
            ran: Result<(), RsinferError>,
            fed: Result<(), RsinferError>,
            done: Result<(), RsinferError>,
        | #[trigger]
            block_once::is_block_outcome(
                b,
                c,
                after,
                x,
                cached,
                position,
                r,
                s,
                mid,
                c3,
                e,
                f,
                ran,
                fed,
                done,
            );
        if done is Ok {
            lemma_told(c3, after, f, s.output, context::fresh(context::submitted(c3, f)));
        }
    }
}

/// Law: a token alone that went through an attention is handed back in the value made for its result;
/// its own numbers are written behind that, and nothing is sent where the attention fails.
pub proof fn law_attention_hands_back_its_output(
    a: Attention,
    c: ContextView,
    after: ContextView,
    hidden: Tensor,
    cached: Option<CachedKV<'_>>,
    position: usize,
    r: Result<(GpuResidentBuffer, usize), RsinferError>,
    input: GpuResidentBuffer,
    output: GpuResidentBuffer,
    c3: ContextView,
    f: Seq<GpuCommand>,
    done: Result<(), RsinferError>,
)
    requires
        c.buffers.len() + 1 <= usize::MAX,
        attention_once::is_outcome_once(
            a,
            c,
            after,
            hidden,
            cached,
            position,
            r,
            input,
            output,
            c3,
            f,
            done,
        ),
    ensures
        r is Ok <==> done is Ok,
        done matches Err(e) ==> after == c3 && (r matches Err(x) && x@ == e@),
        r matches Ok(p) ==> p.0 == output && is_told(c3, after, f, output, p.1),
        output.buffer == c.buffers.len() && input.buffer == c.buffers.len() + 1,
        output.shape@ == hidden.dims() && input.shape@ == hidden.dims(),
        exists|c2: ContextView| #[trigger]
            attention_once::is_run_once(
                a,
                c2,
                c3,
                input,
                output,
                cached,
                position,
                Seq::empty(),
                f,
                done,
            ) && c2.buffers.len() == c.buffers.len() + 2 && c2.ops == c.ops.push(
                OpView::Write { buffer: input.buffer, words: hidden.values() },
            ),
{
    let c1 = attention_state::with_buffer(c, hidden.dims());
    let c2 = attention_once::with_value(c1, hidden.dims(), hidden.values());
    assert(attention_once::is_run_once(
        a,
        c2,
        c3,
        input,
        output,
        cached,
        position,
        Seq::empty(),
        f,
        done,
    ));
    if done is Ok {
        lemma_told(c3, after, f, output, context::fresh(context::submitted(c3, f)));
    }
}

/// Law: what is told of a token that is sent through an attention is the last thing that the device did,
/// in the shape of the token; a token with no numbers, or with numbers out of order, is refused.
pub proof fn law_token_comes_back_from_an_attention(
    a: Attention,
    c: ContextView,
    after: ContextView,
    hidden: Tensor,
    cached: Option<CachedKV<'_>>,
    position: usize,
    r: Result<(GpuResidentBuffer, usize), RsinferError>,
)
    requires
        attention_once::is_sent_once(a, c, after, hidden, cached, position, r),
    ensures
        attention_once::ends_error(c, hidden) is None <==> array::numel(hidden.dims()) > 0
            && hidden.row_major(),
        r matches Ok(p) ==> ends_with(after, p.0, p.1) && p.0.shape@ == hidden.dims(),
        r is Ok ==> array::numel(hidden.dims()) > 0 && hidden.row_major(),
        array::numel(hidden.dims()) == 0 ==> after == c && (r matches Err(e) && e@
            == ErrorView::DimensionError(
            "GPU resident attention prototype failed: "@
                + "GPU resident buffer requires non-empty shape"@,
        )),
        array::numel(hidden.dims()) > 0 && !hidden.row_major() ==> after.ops == c.ops
            && after.buffers.len() == c.buffers.len() + 2,
        array::numel(hidden.dims()) > 0 && hidden.row_major() ==> exists|
            input: GpuResidentBuffer,
            output: GpuResidentBuffer,
            c3: ContextView,
            f: Seq<GpuCommand>,
            done: Result<(), RsinferError>,
        | #[trigger]
            attention_once::is_outcome_once(
                a,
                c,
                after,
                hidden,
                cached,
                position,
                r,
                input,
                output,
                c3,
                f,
                done,
            ),
{
    if attention_once::ends_error(c, hidden) is None {
        let (input, output, c3, f, done) = choose|
            input: GpuResidentBuffer,
            output: GpuResidentBuffer,
            c3: ContextView,
            f: Seq<GpuCommand>,
            done: Result<(), RsinferError>,
        | #[trigger]
            attention_once::is_outcome_once(
                a,
                c,
                after,
                hidden,
                cached,
                position,
                r,
                input,
                output,
                c3,
                f,
                done,
            );
        if done is Ok {
            lemma_told(c3, after, f, output, context::fresh(context::submitted(c3, f)));
        }
    }
}

/// Law: blocks that run on a device run from the state that they are given and from no commands, as many
/// as are asked for; the others stay as they are. Where one fails, those before it ran, and it alone
/// gives the error.
pub proof fn law_blocks_run_from_nothing(
    ls: Seq<TransformerBlock>,
    ms: Seq<TransformerBlock>,
    s: ResidentQwen3RuntimeState,
    c: ContextView,
    after: ContextView,
    kv: cache::CacheView,
    cache_id: u64,
    revision: u64,
    position: usize,
    n: nat,
    r: Result<GpuEncoder, RsinferError>,
)
    requires
        qwen3_decode::is_run(ls, ms, s, c, after, kv, cache_id, revision, position, n, r),
    ensures
        ms.len() == ls.len(),
        r is Ok ==> n <= ls.len() && forall|i: int| n <= i < ls.len() ==> #[trigger] ms[i] == ls[i],
        r matches Ok(e) ==> exists|cs: Seq<ContextView>, es: Seq<Seq<GpuCommand>>| #[trigger]
            qwen3_decode::blocks_ran(ls, ms, s, cs, es, kv, cache_id, revision, position, n)
                && cs[0] == c && cs[n as int] == after && es[0] == Seq::<GpuCommand>::empty()
                && es[n as int] == e.commands@,
        r matches Err(e) ==> exists|
            k: nat,
            cs: Seq<ContextView>,
            es: Seq<Seq<GpuCommand>>,
            end: Seq<GpuCommand>,
            f: RsinferError,
        |
            {
                &&& k < n && k < ls.len()
                &&& #[trigger] qwen3_decode::blocks_ran(
                    ls,
                    ms,
                    s,
                    cs,
                    es,
                    kv,
                    cache_id,
                    revision,
                    position,
                    k,
                )
                &&& cs[0] == c && es[0] == Seq::<GpuCommand>::empty()
                &&& #[trigger] qwen3_decode::block_ran(
                    ls[k as int],
                    ms[k as int],
                    s,
                    cs[k as int],
                    after,
                    es[k as int],
                    end,
                    kv,
                    cache_id,
                    revision,
                    k as usize,
                    position,
                    Err(f),
                )
                &&& f@ == e@
                &&& forall|i: int| k < i < ls.len() ==> #[trigger] ms[i] == ls[i]
            },
{
    match r {
        Ok(e) => {
            let (cs, es) = choose|cs: Seq<ContextView>, es: Seq<Seq<GpuCommand>>| #[trigger]
                qwen3_decode::blocks_ran(ls, ms, s, cs, es, kv, cache_id, revision, position, n)
                    && cs[0] == c && cs.last() == after && es[0].len() == 0 && es.last() == e@
                    && forall|i: int| n <= i < ls.len() ==> #[trigger] ms[i] == ls[i];
            assert(es[0] =~= Seq::<GpuCommand>::empty());
            assert(cs[n as int] == after && es[n as int] == e.commands@);
        },
        Err(e) => {
            let (k, cs, es, end) = choose|
                k: nat,
                cs: Seq<ContextView>,
                es: Seq<Seq<GpuCommand>>,
                end: Seq<GpuCommand>,
            | #[trigger]
                qwen3_decode::blocks_failed(
                    ls,
                    ms,
                    s,
                    cs,
                    es,
                    kv,
                    cache_id,
                    revision,
                    position,
                    k,
                    end,
                    after,
                    e@,
                ) && k < n && cs[0] == c && es[0].len() == 0;
            let q = choose|q: Result<(), RsinferError>| #[trigger]
                qwen3_decode::block_ran(
                    ls[k as int],
                    ms[k as int],
                    s,
                    cs[k as int],
                    after,
                    es[k as int],
                    end,
                    kv,
                    cache_id,
                    revision,
                    k as usize,
                    position,
                    q,
                ) && q is Err && q->Err_0@ == e@;
            let f = q->Err_0;
            assert(q == Err::<(), RsinferError>(f));
            assert(es[0] =~= Seq::<GpuCommand>::empty());
            assert(qwen3_decode::blocks_ran(
                ls,
                ms,
                s,
                cs,
                es,
                kv,
                cache_id,
                revision,
                position,
                k,
            ));
            assert(qwen3_decode::block_ran(
                ls[k as int],
                ms[k as int],
                s,
                cs[k as int],
                after,
                es[k as int],
                end,
                kv,
                cache_id,
                revision,
                k as usize,
                position,
                Err::<(), RsinferError>(f),
            ));
        },
    }
}

/// Law: a token that is sent through some blocks comes back from the value that the last of them wrote,
/// and the cache then counts its position; a token that does not fit is refused with nothing changed,
/// and no error changes the cache.
pub proof fn law_token_comes_back_from_the_blocks(
    ls: Seq<TransformerBlock>,
    ms: Seq<TransformerBlock>,
    s: ResidentQwen3RuntimeState,
    c: ContextView,
    after: ContextView,
    kv: cache::CacheView,
    kv_after: cache::CacheView,
    hidden: Tensor,
    cache_id: u64,
    revision: u64,
    position: usize,
    n: int,
    r: Result<usize, RsinferError>,
)
    requires
        n >= 0,
        qwen3_decode::is_sent(
            ls,
            ms,
            s,
            c,
            after,
            kv,
            kv_after,
            hidden,
            cache_id,
            revision,
            position,
            n,
            r,
        ),
    ensures
        r matches Ok(id) ==> {
            &&& ends_with(
                after,
                if n % 2 == 0 {
                    s.resident_hidden_a
                } else {
                    s.resident_hidden_b
                },
                id,
            )
            &&& position + 1 <= kv.max_len && kv_after.current_len == position + 1
            &&& kv_after.layers == kv.layers && kv_after.max_len == kv.max_len
            &&& hidden.dims() == s.resident_hidden_a.shape@
            &&& forall|i: int| n <= i < ls.len() ==> #[trigger] ms[i] == ls[i]
        },
        r is Err ==> kv_after == kv,
        hidden.dims() != s.resident_hidden_a.shape@ ==> r is Err && after == c && ms == ls,
        resident::upload_error(
            s.resident_hidden_a.shape@,
            s.resident_hidden_a.len,
            hidden,
        ) is None ==> exists|d: ContextView, c3: ContextView, run: Result<GpuEncoder, RsinferError>|
            {
                &&& #[trigger] qwen3_decode::is_run(
                    ls,
                    ms,
                    s,
                    d,
                    c3,
                    kv,
                    cache_id,
                    revision,
                    position,
                    n as nat,
                    run,
                )
                &&& d == qwen3_decode::handed_over(c, s, hidden, position)
                &&& run matches Err(e) ==> after == c3 && (r matches Err(f) && f@ == e@)
                &&& run matches Ok(e) ==> qwen3_decode::is_asked(
                    s,
                    c3,
                    after,
                    kv,
                    kv_after,
                    e.commands@,
                    position,
                    n,
                    r,
                )
            },
{
    if resident::upload_error(
        s.resident_hidden_a.shape@,
        s.resident_hidden_a.len,
        hidden,
    ) is None {
        let d = qwen3_decode::handed_over(c, s, hidden, position);
        let (c3, run) = choose|c3: ContextView, run: Result<GpuEncoder, RsinferError>| #[trigger]
            qwen3_decode::is_outcome(
                ls,
                ms,
                s,
                d,
                c3,
                after,
                kv,
                kv_after,
                cache_id,
                revision,
                position,
                n,
                run,
                r,
            );
        assert(qwen3_decode::is_run(
            ls,
            ms,
            s,
            d,
            c3,
            kv,
            cache_id,
            revision,
            position,
            n as nat,
            run,
        ));
        law_blocks_run_from_nothing(
            ls,
            ms,
            s,
            d,
            c3,
            kv,
            cache_id,
            revision,
            position,
            n as nat,
            run,
        );
        if let Ok(e) = run {
            if r is Ok {
                let out = if n % 2 == 0 {
                    s.resident_hidden_a
                } else {
                    s.resident_hidden_b
                };
                lemma_told(c3, after, e@, out, r->Ok_0);
            }
        }
    }
}

/// Law: a model that starts to decode on a device keeps all but its layers and what it made there. It
/// needs its first layer there; a model that cannot start changes neither its layers nor the cache.
pub proof fn law_decoding_starts(
    a: Qwen3Model,
    b: Qwen3Model,
    c: ContextView,
    after: ContextView,
    kv: cache::CacheView,
    kv_after: cache::CacheView,
    hidden: Tensor,
    cache_id: u64,
    revision: u64,
    position: usize,
    r: Result<usize, RsinferError>,
)
    requires
        qwen3_decode::is_started(
            a,
            b,
            c,
            after,
            kv,
            kv_after,
            hidden,
            cache_id,
            revision,
            position,
            r,
        ),
        qwen3_decode::prefix_len(a, 1) >= 0,
    ensures
        b.embed_tokens == a.embed_tokens && b.norm == a.norm && b.lm_head == a.lm_head && b.config
            == a.config && b.runtime_plan == a.runtime_plan,
        a.layers@[0].attention.q_proj.q8_gpu_matvec is None ==> b == a && after == c && kv_after
            == kv && (r matches Err(e) && e@ == ErrorView::DimensionError(
            "missing first resident q_proj Q8 GPU matvec"@,
        )),
        r is Err ==> kv_after == kv,
        r matches Ok(id) ==> {
            let n = qwen3_decode::prefix_len(a, 1);
            let s = b.resident_runtime_state->0;
            &&& b.resident_runtime_state is Some
            &&& s.hidden_size == hidden.dims()[1]
            &&& kv_after.current_len == position + 1 && position + 1 <= kv.max_len
            &&& kv_after.layers == kv.layers
            &&& ends_with(
                after,
                if n % 2 == 0 {
                    s.resident_hidden_a
                } else {
                    s.resident_hidden_b
                },
                id,
            )
            &&& forall|i: int| n <= i < a.layers@.len() ==> #[trigger] b.layers@[i] == a.layers@[i]
        },
        a.resident_runtime_state matches Some(s) ==> s.hidden_size == hidden.dims()[1]
            ==> b.resident_runtime_state == Some(s),
        a.resident_runtime_state is None && hidden.dims()[1] == 0 ==> r is Err && b.layers@
            == a.layers@ && after == c,
{
    let n = qwen3_decode::prefix_len(a, 1);
    if a.layers@[0].attention.q_proj.q8_gpu_matvec is Some {
        let (c1, r1) = choose|c1: ContextView, r1: Result<(), RsinferError>| #[trigger]
            qwen3_decode::is_ready(
                a.resident_runtime_state,
                b.resident_runtime_state,
                c,
                c1,
                hidden.dims()[1],
                r1,
            ) && match r1 {
                Err(e) => {
                    &&& r matches Err(f) && f@ == e@
                    &&& b.layers@ == a.layers@ && after == c1 && kv_after == kv
                },
                Ok(()) => qwen3_decode::is_sent(
                    a.layers@,
                    b.layers@,
                    b.resident_runtime_state->0,
                    c1,
                    after,
                    kv,
                    kv_after,
                    hidden,
                    cache_id,
                    revision,
                    position,
                    n,
                    r,
                ),
            };
        if r1 is Ok {
            law_token_comes_back_from_the_blocks(
                a.layers@,
                b.layers@,
                b.resident_runtime_state->0,
                c1,
                after,
                kv,
                kv_after,
                hidden,
                cache_id,
                revision,
                position,
                n,
                r,
            );
        }
    }
}

/// Law: a block that runs in its turn keeps its norms and its gated layer. It needs its projections on
/// the device, and from the second position on what is cached of it; without them it stays as it is and
/// writes nothing. One that ran well was made ready, then brought up to the cache, then written.
pub proof fn law_block_runs_in_its_turn(
    a: TransformerBlock,
    b: TransformerBlock,
    c: ContextView,
    after: ContextView,
    start: Seq<GpuCommand>,
    end: Seq<GpuCommand>,
    input: GpuResidentBuffer,
    output: GpuResidentBuffer,
    slot0: GpuResidentBuffer,
    slot1: GpuResidentBuffer,
    kv: cache::CacheView,
    cache_id: u64,
    revision: u64,
    layer: usize,
    position: usize,
    position_buffer: usize,
    r: Result<(), RsinferError>,
)
    requires
        block::is_layer_run(
            a,
            b,
            c,
            after,
            start,
            end,
            input,
            output,
            slot0,
            slot1,
            kv,
            cache_id,
            revision,
            layer,
            position,
            position_buffer,
            r,
        ),
    ensures
        b.input_layernorm == a.input_layernorm,
        b.post_attention_layernorm == a.post_attention_layernorm,
        b.mlp == a.mlp,
        a.attention.q_proj.q8_gpu_matvec is None ==> r is Err && b == a && after == c && end == start,
        position > 0 && layer >= kv.layers.len() ==> r is Err && b == a && after == c && end
            == start,
        position > 0 && layer < kv.layers.len() && kv.layers[layer as int] is None ==> r is Err && b
            == a && after == c && end == start,
        r is Ok ==> exists|
            b1: TransformerBlock,
            c1: ContextView,
            r1: Result<(), RsinferError>,
            b2: TransformerBlock,
            c2: ContextView,
            r2: Result<(), RsinferError>,
            cached: Option<CachedKV<'_>>,
        |
            r1 is Ok && r2 is Ok && #[trigger] block::is_prepared(
                a,
                b1,
                c,
                c1,
                input.len,
                slot0,
                slot1,
                r1,
            ) && #[trigger] block::is_updated(
                b1,
                b2,
                c1,
                c2,
                kv,
                cache_id,
                revision,
                cached,
                layer,
                position,
                position_buffer,
                r2,
            ) && block::is_encoded(
                b2,
                b,
                c2,
                after,
                start,
                end,
                input,
                output,
                layer,
                position,
                r,
            ),
{
}

/// Law: a block is made ready once; the state that it has then is used again, with the device as it was.
pub proof fn law_block_is_made_ready_once(
    a: TransformerBlock,
    b: TransformerBlock,
    c: ContextView,
    after: ContextView,
    hidden: usize,
    slot0: GpuResidentBuffer,
    slot1: GpuResidentBuffer,
    r: Result<(), RsinferError>,
)
    requires
        block::is_prepared(a, b, c, after, hidden, slot0, slot1, r),
    ensures
        b.attention == a.attention && b.mlp == a.mlp && b.input_layernorm == a.input_layernorm,
        b.post_attention_layernorm == a.post_attention_layernorm,
        a.resident_runtime_state matches Some(s) ==> after == c && block_state::is_slotted(
            s,
            b.resident_runtime_state->0,
            slot0,
            slot1,
            r,
        ),
        a.resident_runtime_state is Some || r is Ok ==> b.resident_runtime_state is Some,
        a.resident_runtime_state is None && b.resident_runtime_state is None ==> r is Err,
{
}

/// Law: a layer finds its greatest product by itself when it has no bias and is on the device in eight
/// bits, each of its chunks with a place for that.
pub proof fn law_when_a_layer_finds_its_greatest(l: Linear)
    ensures
        l.finds_greatest() <==> l.bias is None && (l.q8_gpu_matvec matches Some(m) && forall|i: int|
            0 <= i < m.chunks@.len() ==> (#[trigger] m.chunks@[i]).argmax is Some),
{
}

/// Law: a bare layer has its bias, and nothing on a device nor in eight bits.
pub proof fn law_what_is_bare(l: Linear, bias: Option<Tensor>)
    ensures
        linear::is_bare(l, bias) <==> l.bias == bias && l.gpu_matvec is None && l.q8_gpu_matvec is None
            && l.q8_weight is None && l.source_name is None,
{
}

/// Law: of what cannot be restored the first layer is told: every layer before it has room for what was
/// kept of it.
pub proof fn law_first_layer_without_room_is_told(c: cache::CacheView, s: cache::SnapshotView, n: int)
    requires
        cache::first_restore_failure(c, s, n),
    ensures
        0 <= n < c.layers.len(),
        s.lengths[n] matches Some(k) && (c.layers[n] matches Some(l) ==> k > l.capacity) && (
        c.layers[n] is None ==> k > 0),
        forall|i: int|
            0 <= i < n ==> (s.lengths[i] matches Some(k) ==> match #[trigger] c.layers[i] {
                Some(l) => k <= l.capacity,
                None => k == 0,
            }),
{
}

} // verus!
