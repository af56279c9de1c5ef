//! Keys and values kept on the device, and the attention of one token over them.

use vstd::prelude::*;
use vstd::string::*;

use crate::gpu::context;
use crate::gpu::context::{
    tensor_from_words, GpuBindGroup, GpuCommand, GpuContext, GpuEncoder, GpuPipeline, GpuUsage,
    GpuWrite,
};
use crate::gpu::resident::{
    same_shape, three_shapes, three_sizes, two_sizes, GpuResidentBuffer,
};
use crate::tensor::grid;
use crate::tensor::grid::compact_heads;
use crate::tensor::Tensor;
use crate::text;

verus! {

/// The longest sequence that the parallel attention kernel holds.
pub const DECODE_GQA_ATTENTION_PARALLEL_MAX_SEQ_LEN: usize = 2048;

/// The buffers with which keys and values are kept apart from resident values.
#[derive(Clone, Copy, Debug)]
pub struct GpuKvStandalone {
    pub key_cache: usize,
    pub value_cache: usize,
    pub key_readback: usize,
    pub value_readback: usize,
}

/// Keys and values kept on the device.
#[derive(Debug)]
pub struct GpuKvAppend {
    pub context: u64,
    pub key_input_buffer: usize,
    pub value_input_buffer: usize,
    pub params_buffer: usize,
    pub position_buffer: usize,
    pub standalone: Option<GpuKvStandalone>,
    pub num_heads: usize,
    pub head_dim: usize,
    pub max_len: usize,
    pub current_len: usize,
}

/// The buffers with which resident keys or values are appended.
#[derive(Clone, Copy, Debug)]
pub struct GpuKvBinds {
    pub input: usize,
    pub cache: usize,
    pub params: usize,
    pub position: usize,
}

/// The buffers with which resident keys and values are appended.
#[derive(Clone, Copy, Debug)]
pub struct GpuKvAppendResidentCache {
    pub key: GpuKvBinds,
    pub value: GpuKvBinds,
    pub position_buffer: usize,
}

/// The buffers of an append, for the kernel.
pub open spec fn kv_group(b: GpuKvBinds) -> GpuBindGroup {
    GpuBindGroup::KvAppend {
        input: b.input,
        cache: b.cache,
        params: b.params,
        position: b.position,
    }
}

/// Sizes whose products can be held.
pub open spec fn kv_fits(num_heads: usize, head_dim: usize, max_len: usize) -> bool {
    num_heads > 0 && head_dim > 0 && max_len > 0 ==> num_heads * (max_len * head_dim) <= usize::MAX
}

/// Making what keys and values need.
pub open spec fn kv_made(
    c: context::ContextView,
    num_heads: usize,
    head_dim: usize,
    max_len: usize,
    resident_only: bool,
) -> context::ContextView {
    let row = (num_heads * head_dim) as usize;
    let all = (num_heads * (max_len * head_dim)) as usize;
    let c1 = context::made(c, row, GpuUsage::Input);
    let c2 = context::made(c1, row, GpuUsage::Input);
    let c3 = context::filled(
        c2,
        seq![head_dim as u32, num_heads as u32, max_len as u32, 0],
        GpuUsage::MutableParams,
    );
    let c4 = context::filled(c3, context::position_words(0), GpuUsage::MutableParams);
    if resident_only {
        c4
    } else {
        let c5 = context::made(c4, all, GpuUsage::Output);
        let c6 = context::made(c5, all, GpuUsage::Output);
        let c7 = context::made(c6, all, GpuUsage::Readback);
        context::made(c7, all, GpuUsage::Readback)
    }
}

/// The greater of two numbers.
pub open spec fn at_least(a: usize, b: int) -> usize {
    if a < b {
        b as usize
    } else {
        a
    }
}

/// What `append` leaves: the length reaches the position.
pub open spec fn reached(k: GpuKvAppend, position: usize) -> GpuKvAppend {
    GpuKvAppend { current_len: at_least(k.current_len, position + 1), ..k }
}

/// The message for a position behind the end.
pub open spec fn kv_position_error(position: usize, max_len: usize) -> Seq<char> {
    "GPU KV append position "@ + text::dec(position as nat) + " exceeds max_len "@ + text::dec(
        max_len as nat,
    )
}

/// Why a key and a value cannot be appended.
pub open spec fn kv_row_error(k: GpuKvAppend, position: usize, key: nat, value: nat) -> Option<
    Seq<char>,
> {
    let expected = k.num_heads * k.head_dim;
    if position >= k.max_len {
        Some(kv_position_error(position, k.max_len))
    } else if key != expected || value != expected {
        Some(
            "GPU KV append expects "@ + text::dec(expected as nat) + " values per K/V row, got "@
                + text::dec(key) + "/"@ + text::dec(value),
        )
    } else {
        None
    }
}

/// The buffers of the keys, or of the values, that are kept apart.
pub open spec fn kv_own_binds(k: GpuKvAppend, input: usize, cache: usize) -> GpuKvBinds {
    GpuKvBinds { input, cache, params: k.params_buffer, position: k.position_buffer }
}

/// Handing a key, a value and their position over.
pub open spec fn kv_row_written(
    c: context::ContextView,
    k: GpuKvAppend,
    position: usize,
    key: Seq<u32>,
    value: Seq<u32>,
) -> context::ContextView {
    let c1 = context::written(c, k.key_input_buffer, key, GpuWrite::Host);
    let c2 = context::written(c1, k.value_input_buffer, value, GpuWrite::Host);
    context::positioned(c2, k.position_buffer, position)
}

/// The commands that append a key and a value.
pub open spec fn kv_row_commands(k: GpuKvAppend, s: GpuKvStandalone) -> Seq<GpuCommand> {
    seq![
        GpuCommand::BeginPass,
        context::run(
            GpuPipeline::KvAppend,
            kv_group(kv_own_binds(k, k.key_input_buffer, s.key_cache)),
            k.num_heads as u32,
        ),
        GpuCommand::BeginPass,
        context::run(
            GpuPipeline::KvAppend,
            kv_group(kv_own_binds(k, k.value_input_buffer, s.value_cache)),
            k.num_heads as u32,
        ),
    ]
}

/// The commands that copy all keys and values out.
pub open spec fn kv_copies(k: GpuKvAppend, s: GpuKvStandalone) -> Seq<GpuCommand> {
    let all = (k.num_heads * (k.max_len * k.head_dim)) as usize;
    seq![
        context::copy(s.key_cache, s.key_readback, 0, all),
        context::copy(s.value_cache, s.value_readback, 0, all),
    ]
}

/// Whether four values are on the device of the keys and values.
pub open spec fn kv_shared(
    k: GpuKvAppend,
    key_input: GpuResidentBuffer,
    value_input: GpuResidentBuffer,
    key_cache: GpuResidentBuffer,
    value_cache: GpuResidentBuffer,
) -> bool {
    &&& k.context == key_input.context
    &&& k.context == value_input.context
    &&& k.context == key_cache.context
    &&& k.context == value_cache.context
}

/// Why resident keys and values cannot be appended to resident caches.
pub open spec fn kv_cache_error(
    k: GpuKvAppend,
    key_input: GpuResidentBuffer,
    value_input: GpuResidentBuffer,
    key_cache: GpuResidentBuffer,
    value_cache: GpuResidentBuffer,
) -> Option<Seq<char>> {
    let shape = seq![k.num_heads, k.max_len, k.head_dim];
    let row = k.num_heads * k.head_dim;
    if !kv_shared(k, key_input, value_input, key_cache, value_cache) {
        Some("GPU KV append resident path requires shared GpuContext"@)
    } else if key_input.len != row || value_input.len != row {
        Some(
            "GPU KV append resident row length mismatch: key="@ + text::dec(key_input.len as nat)
                + ", value="@ + text::dec(value_input.len as nat) + ", expected "@ + text::dec(
                row as nat,
            ),
        )
    } else if key_cache.shape@ != shape || value_cache.shape@ != shape {
        Some(
            "GPU KV append resident cache shape mismatch: key="@ + text::bracketed(key_cache.shape@)
                + ", value="@ + text::bracketed(value_cache.shape@) + ", expected "@
                + text::bracketed(shape),
        )
    } else {
        None
    }
}

/// The buffers with which resident keys and values are appended.
pub open spec fn kv_cache(
    k: GpuKvAppend,
    key_input: GpuResidentBuffer,
    value_input: GpuResidentBuffer,
    key_cache: GpuResidentBuffer,
    value_cache: GpuResidentBuffer,
    position: usize,
) -> GpuKvAppendResidentCache {
    GpuKvAppendResidentCache {
        key: GpuKvBinds {
            input: key_input.buffer,
            cache: key_cache.buffer,
            params: k.params_buffer,
            position,
        },
        value: GpuKvBinds {
            input: value_input.buffer,
            cache: value_cache.buffer,
            params: k.params_buffer,
            position,
        },
        position_buffer: position,
    }
}

/// Why a key and a value cannot be appended with prepared buffers.
pub open spec fn kv_encode_error(
    k: GpuKvAppend,
    position: usize,
    key_input: GpuResidentBuffer,
    value_input: GpuResidentBuffer,
    key_cache: GpuResidentBuffer,
    value_cache: GpuResidentBuffer,
) -> Option<Seq<char>> {
    if position >= k.max_len {
        Some(kv_position_error(position, k.max_len))
    } else if !kv_shared(k, key_input, value_input, key_cache, value_cache) {
        Some("GPU KV append resident path requires shared GpuContext"@)
    } else {
        None
    }
}

/// The runs that append a key and a value.
pub open spec fn kv_commands(k: GpuKvAppend, c: GpuKvAppendResidentCache) -> Seq<GpuCommand> {
    seq![
        context::run(GpuPipeline::KvAppend, kv_group(c.key), k.num_heads as u32),
        context::run(GpuPipeline::KvAppend, kv_group(c.value), k.num_heads as u32),
    ]
}

/// Law: a length can be taken back to any earlier one, and appending at that length leads on
/// from it; the sizes never change.
pub proof fn law_kv_length(k: GpuKvAppend, position: usize)
    requires
        k.well_formed(),
        position < k.max_len,
    ensures
        reached(k, position).well_formed(),
        reached(k, position).current_len >= k.current_len,
        reached(k, position).current_len > position,
        position == k.current_len ==> reached(k, position).current_len == k.current_len + 1,
        position < k.current_len ==> reached(k, position) == k,
{
}

fn dispatch_kv(pass: &mut GpuEncoder, b: GpuKvBinds, heads: usize)
    ensures
        final(pass)@ == old(pass)@.push(
            context::run(GpuPipeline::KvAppend, kv_group(b), heads as u32),
        ),
{
    pass.dispatch(
        GpuPipeline::KvAppend,
        GpuBindGroup::KvAppend {
            input: b.input,
            cache: b.cache,
            params: b.params,
            position: b.position,
        },
        heads as u32,
    );
}

fn position_message(head: &str, position: usize, max_len: usize) -> (r: String)
    ensures
        r@ == head@ + text::dec(position as nat) + " exceeds max_len "@ + text::dec(max_len as nat),
{
    two_sizes(head, position, " exceeds max_len ", max_len)
}

impl GpuKvAppend {
    /// The sizes are not zero, their product can be held, and no more positions are in use than
    /// there are.
    pub open spec fn well_formed(&self) -> bool {
        &&& self.num_heads > 0 && self.head_dim > 0 && self.max_len > 0
        &&& self.num_heads * (self.max_len * self.head_dim) <= usize::MAX
        &&& self.num_heads * self.head_dim <= usize::MAX
        &&& self.current_len <= self.max_len
    }

    /// Makes keys and values with buffers of their own.
    pub fn with_context(
        context: &mut GpuContext,
        num_heads: usize,
        head_dim: usize,
        max_len: usize,
    ) -> (r: Result<GpuKvAppend, String>)
        requires
            kv_fits(num_heads, head_dim, max_len),
        ensures
            kv_new(*old(context), *final(context), num_heads, head_dim, max_len, false, r),
    {
        GpuKvAppend::with_context_inner(context, num_heads, head_dim, max_len, false)
    }

    /// Makes keys and values that only live in resident values.
    pub fn with_context_resident_only(
        context: &mut GpuContext,
        num_heads: usize,
        head_dim: usize,
        max_len: usize,
    ) -> (r: Result<GpuKvAppend, String>)
        requires
            kv_fits(num_heads, head_dim, max_len),
        ensures
            kv_new(*old(context), *final(context), num_heads, head_dim, max_len, true, r),
    {
        GpuKvAppend::with_context_inner(context, num_heads, head_dim, max_len, true)
    }

    fn with_context_inner(
        context: &mut GpuContext,
        num_heads: usize,
        head_dim: usize,
        max_len: usize,
        resident_only: bool,
    ) -> (r: Result<GpuKvAppend, String>)
        requires
            kv_fits(num_heads, head_dim, max_len),
        ensures
            kv_new(*old(context), *final(context), num_heads, head_dim, max_len, resident_only, r),
    {
        if num_heads == 0 || head_dim == 0 || max_len == 0 {
            return Err("GPU KV append requires num_heads/head_dim/max_len > 0".to_owned());
        }
        proof {
            lemma_kv_sizes(num_heads as int, head_dim as int, max_len as int);
        }
        let row_len: usize = num_heads * head_dim;
        let cache_len: usize = num_heads * (max_len * head_dim);
        let key_input_buffer: usize = context.create_buffer(row_len, GpuUsage::Input);
        let value_input_buffer: usize = context.create_buffer(row_len, GpuUsage::Input);
        let params: Vec<u32> = vec![head_dim as u32, num_heads as u32, max_len as u32, 0];
        assert(params@ =~= seq![head_dim as u32, num_heads as u32, max_len as u32, 0]);
        let params_buffer: usize = context.create_buffer_init(params, GpuUsage::MutableParams);
        let position: Vec<u32> = vec![0, 0, 0, 0];
        assert(position@ =~= context::position_words(0));
        let position_buffer: usize = context.create_buffer_init(position, GpuUsage::MutableParams);
        let standalone: Option<GpuKvStandalone> = if resident_only {
            None
        } else {
            let key_cache: usize = context.create_buffer(cache_len, GpuUsage::Output);
            let value_cache: usize = context.create_buffer(cache_len, GpuUsage::Output);
            let key_readback: usize = context.create_buffer(cache_len, GpuUsage::Readback);
            let value_readback: usize = context.create_buffer(cache_len, GpuUsage::Readback);
            Some(GpuKvStandalone { key_cache, value_cache, key_readback, value_readback })
        };
        Ok(
            GpuKvAppend {
                context: context.id,
                key_input_buffer,
                value_input_buffer,
                params_buffer,
                position_buffer,
                standalone,
                num_heads,
                head_dim,
                max_len,
                current_len: 0,
            },
        )
    }

    /// The positions in use.
    pub fn current_len(&self) -> (r: usize)
        ensures
            r == self.current_len,
    {
        self.current_len
    }

    /// The positions in use, to come back to.
    pub fn snapshot_len(&self) -> (r: usize)
        ensures
            r == self.current_len,
    {
        self.current_len
    }

    /// Sets the number of positions in use.
    pub fn restore_len(&mut self, len: usize) -> (r: Result<(), String>)
        ensures
            match r {
                Ok(()) => {
                    &&& len <= old(self).max_len
                    &&& *final(self) == (GpuKvAppend { current_len: len, ..*old(self) })
                },
                Err(e) => {
                    &&& len > old(self).max_len
                    &&& e@ == "GPU KV restore length "@ + text::dec(len as nat)
                        + " exceeds max_len "@ + text::dec(old(self).max_len as nat)
                    &&& *final(self) == *old(self)
                },
            },
    {
        if len > self.max_len {
            return Err(position_message("GPU KV restore length ", len, self.max_len));
        }
        self.current_len = len;
        Ok(())
    }

    /// Appends a key and a value.
    pub fn append_decode_one_raw(
        &mut self,
        context: &mut GpuContext,
        position: usize,
        new_k: &[u32],
        new_v: &[u32],
    ) -> (r: Result<(), String>)
        requires
            old(context)@.id == old(self).context,
            old(self).well_formed(),
        ensures
            ({
                let k = *old(self);
                let given = kv_row_written(old(context)@, k, position, new_k@, new_v@);
                match r {
                    Ok(()) => {
                        &&& kv_row_error(k, position, new_k@.len(), new_v@.len()) is None
                        &&& k.standalone is Some
                        &&& *final(self) == reached(k, position)
                        &&& final(context)@ == context::submitted(
                            given,
                            kv_row_commands(k, k.standalone->0),
                        )
                    },
                    Err(e) => {
                        &&& *final(self) == k
                        &&& match kv_row_error(k, position, new_k@.len(), new_v@.len()) {
                            Some(m) => e@ == m && final(context)@ == old(context)@,
                            None => {
                                &&& k.standalone is None
                                &&& e@
                                    == "GPU KV append standalone buffers are unavailable in resident-only mode"@
                                &&& final(context)@ == given
                            },
                        }
                    },
                }
            }),
    {
        if position >= self.max_len {
            return Err(position_message("GPU KV append position ", position, self.max_len));
        }
        let expected: usize = self.num_heads * self.head_dim;
        if new_k.len() != expected || new_v.len() != expected {
            return Err(
                three_sizes(
                    "GPU KV append expects ",
                    expected,
                    " values per K/V row, got ",
                    new_k.len(),
                    "/",
                    new_v.len(),
                ),
            );
        }
        context.write_buffer(
            self.key_input_buffer,
            vstd::slice::slice_to_vec(new_k),
            GpuWrite::Host,
        );
        context.write_buffer(
            self.value_input_buffer,
            vstd::slice::slice_to_vec(new_v),
            GpuWrite::Host,
        );
        context.write_position(self.position_buffer, position);
        let s = match self.standalone {
            Some(s) => s,
            None => {
                return Err(
                    "GPU KV append standalone buffers are unavailable in resident-only mode".to_owned(),
                );
            },
        };
        let mut encoder = context.create_command_encoder();
        encoder.begin_compute_pass();
        dispatch_kv(
            &mut encoder,
            GpuKvBinds {
                input: self.key_input_buffer,
                cache: s.key_cache,
                params: self.params_buffer,
                position: self.position_buffer,
            },
            self.num_heads,
        );
        encoder.begin_compute_pass();
        dispatch_kv(
            &mut encoder,
            GpuKvBinds {
                input: self.value_input_buffer,
                cache: s.value_cache,
                params: self.params_buffer,
                position: self.position_buffer,
            },
            self.num_heads,
        );
        assert(encoder@ =~= kv_row_commands(*self, s));
        context.submit(encoder);
        self.reach(position);
        Ok(())
    }

    fn reach(&mut self, position: usize)
        requires
            position < old(self).max_len,
        ensures
            *final(self) == reached(*old(self), position),
    {
        if self.current_len < position + 1 {
            self.current_len = position + 1;
        }
    }

    /// Has all keys and values copied out; they are read from the buffers returned.
    pub fn read_compact(&self, context: &mut GpuContext) -> (r: Result<(usize, usize), String>)
        requires
            old(context)@.id == self.context,
            self.well_formed(),
        ensures
            match r {
                Ok(b) => {
                    &&& self.standalone is Some
                    &&& {
                        let s = self.standalone->0;
                        &&& b == (s.key_readback, s.value_readback)
                        &&& final(context)@ == context::read_back(
                            old(context)@,
                            kv_copies(*self, s),
                            seq![s.key_readback, s.value_readback],
                        )
                    }
                },
                Err(e) => {
                    &&& self.standalone is None
                    &&& e@ == "GPU KV compact readback is unavailable in resident-only mode"@
                    &&& final(context)@ == old(context)@
                },
            },
    {
        let s = match self.standalone {
            Some(s) => s,
            None => {
                return Err(
                    "GPU KV compact readback is unavailable in resident-only mode".to_owned(),
                );
            },
        };
        proof {
            lemma_kv_sizes(self.num_heads as int, self.head_dim as int, self.max_len as int);
        }
        let total: usize = self.num_heads * (self.max_len * self.head_dim);
        let mut encoder = context.create_command_encoder();
        encoder.copy_buffer(s.key_cache, s.key_readback, 0, total);
        encoder.copy_buffer(s.value_cache, s.value_readback, 0, total);
        let list: Vec<usize> = vec![s.key_readback, s.value_readback];
        proof {
            assert(list@ =~= seq![s.key_readback, s.value_readback]);
            assert(encoder@ =~= kv_copies(*self, s));
        }
        context.submit_and_map(encoder, &list);
        Ok((s.key_readback, s.value_readback))
    }

    /// The keys and values in use, from what was read.
    pub fn read_compact_outputs(&self, raw_key: &[u32], raw_value: &[u32]) -> (r: Result<
        (Tensor, Tensor),
        String,
    >)
        requires
            self.well_formed(),
            raw_key@.len() == self.num_heads * (self.max_len * self.head_dim),
            raw_value@.len() == self.num_heads * (self.max_len * self.head_dim),
        ensures
            match r {
                Ok(t) => {
                    let shape = seq![self.num_heads, self.current_len, self.head_dim];
                    &&& t.0.dims() == shape
                    &&& t.1.dims() == shape
                    &&& t.0.values() == kv_in_use(*self, raw_key@)
                    &&& t.1.values() == kv_in_use(*self, raw_value@)
                    &&& context::tensor_failure(shape, kv_in_use(*self, raw_key@).len()) is None
                },
                Err(e) => context::tensor_failure(
                    seq![self.num_heads, self.current_len, self.head_dim],
                    kv_in_use(*self, raw_key@).len(),
                ) == Some(e@),
            },
    {
        let key = compact_heads(
            raw_key,
            self.num_heads,
            self.current_len,
            self.max_len,
            self.head_dim,
        );
        let value = compact_heads(
            raw_value,
            self.num_heads,
            self.current_len,
            self.max_len,
            self.head_dim,
        );
        let shape: Vec<usize> = vec![self.num_heads, self.current_len, self.head_dim];
        assert(shape@ =~= seq![self.num_heads, self.current_len, self.head_dim]);
        match tensor_from_words(&shape, key) {
            Ok(a) => match tensor_from_words(&shape, value) {
                Ok(b) => Ok((a, b)),
                Err(e) => Err(e),
            },
            Err(e) => Err(e),
        }
    }

    fn on_device(
        &self,
        key_input: &GpuResidentBuffer,
        value_input: &GpuResidentBuffer,
        key_cache: &GpuResidentBuffer,
        value_cache: &GpuResidentBuffer,
    ) -> (r: bool)
        ensures
            r == kv_shared(*self, *key_input, *value_input, *key_cache, *value_cache),
    {
        self.context == key_input.context && self.context == value_input.context && self.context
            == key_cache.context && self.context == value_cache.context
    }

    /// The buffers to append resident keys and values at the layer's own position.
    pub fn prepare_resident_cache(
        &self,
        key_input: &GpuResidentBuffer,
        value_input: &GpuResidentBuffer,
        key_cache: &GpuResidentBuffer,
        value_cache: &GpuResidentBuffer,
    ) -> (r: Result<GpuKvAppendResidentCache, String>)
        requires
            self.well_formed(),
        ensures
            match r {
                Ok(c) => {
                    &&& kv_cache_error(*self, *key_input, *value_input, *key_cache, *value_cache) is None
                    &&& c == kv_cache(
                        *self,
                        *key_input,
                        *value_input,
                        *key_cache,
                        *value_cache,
                        self.position_buffer,
                    )
                },
                Err(e) => kv_cache_error(*self, *key_input, *value_input, *key_cache, *value_cache)
                    == Some(e@),
            },
    {
        self.prepare_resident_cache_with_position_buffer(
            key_input,
            value_input,
            key_cache,
            value_cache,
            self.position_buffer,
        )
    }

    /// The buffers to append resident keys and values at the position in the given uniform.
    pub fn prepare_resident_cache_with_position_buffer(
        &self,
        key_input: &GpuResidentBuffer,
        value_input: &GpuResidentBuffer,
        key_cache: &GpuResidentBuffer,
        value_cache: &GpuResidentBuffer,
        position_buffer: usize,
    ) -> (r: Result<GpuKvAppendResidentCache, String>)
        requires
            self.well_formed(),
        ensures
            match r {
                Ok(c) => {
                    &&& kv_cache_error(*self, *key_input, *value_input, *key_cache, *value_cache) is None
                    &&& c == kv_cache(
                        *self,
                        *key_input,
                        *value_input,
                        *key_cache,
                        *value_cache,
                        position_buffer,
                    )
                },
                Err(e) => kv_cache_error(*self, *key_input, *value_input, *key_cache, *value_cache)
                    == Some(e@),
            },
    {
        if !self.on_device(key_input, value_input, key_cache, value_cache) {
            return Err("GPU KV append resident path requires shared GpuContext".to_owned());
        }
        let shape: Vec<usize> = vec![self.num_heads, self.max_len, self.head_dim];
        assert(shape@ =~= seq![self.num_heads, self.max_len, self.head_dim]);
        let row_len: usize = self.num_heads * self.head_dim;
        if key_input.len != row_len || value_input.len != row_len {
            return Err(
                three_sizes(
                    "GPU KV append resident row length mismatch: key=",
                    key_input.len,
                    ", value=",
                    value_input.len,
                    ", expected ",
                    row_len,
                ),
            );
        }
        if !same_shape(&key_cache.shape, &shape) || !same_shape(&value_cache.shape, &shape) {
            return Err(
                three_shapes(
                    "GPU KV append resident cache shape mismatch: key=",
                    &key_cache.shape,
                    ", value=",
                    &value_cache.shape,
                    ", expected ",
                    &shape,
                ),
            );
        }
        Ok(
            GpuKvAppendResidentCache {
                key: GpuKvBinds {
                    input: key_input.buffer,
                    cache: key_cache.buffer,
                    params: self.params_buffer,
                    position: position_buffer,
                },
                value: GpuKvBinds {
                    input: value_input.buffer,
                    cache: value_cache.buffer,
                    params: self.params_buffer,
                    position: position_buffer,
                },
                position_buffer,
            },
        )
    }

    /// Appends resident keys and values, in a pass of its own.
    pub fn encode_resident(
        &mut self,
        context: &mut GpuContext,
        encoder: &mut GpuEncoder,
        position: usize,
        key_input: &GpuResidentBuffer,
        value_input: &GpuResidentBuffer,
        key_cache: &GpuResidentBuffer,
        value_cache: &GpuResidentBuffer,
    ) -> (r: Result<(), String>)
        requires
            old(context)@.id == old(self).context,
            old(self).well_formed(),
        ensures
            ({
                let k = *old(self);
                let c = kv_cache(
                    k,
                    *key_input,
                    *value_input,
                    *key_cache,
                    *value_cache,
                    k.position_buffer,
                );
                let no_cache = kv_cache_error(
                    k,
                    *key_input,
                    *value_input,
                    *key_cache,
                    *value_cache,
                );
                match r {
                    Ok(()) => {
                        &&& no_cache is None && position < k.max_len
                        &&& *final(self) == reached(k, position)
                        &&& final(context)@ == context::positioned(
                            old(context)@,
                            k.position_buffer,
                            position,
                        )
                        &&& final(encoder)@ == old(encoder)@.push(GpuCommand::BeginPass)
                            + kv_commands(k, c)
                    },
                    Err(e) => {
                        &&& match no_cache {
                            Some(m) => e@ == m,
                            None => position >= k.max_len && e@ == kv_position_error(
                                position,
                                k.max_len,
                            ),
                        }
                        &&& *final(self) == k
                        &&& final(context)@ == old(context)@
                        &&& final(encoder)@ == old(encoder)@
                    },
                }
            }),
    {
        match self.prepare_resident_cache(key_input, value_input, key_cache, value_cache) {
            Ok(cache) => self.encode_resident_with_cache(
                context,
                encoder,
                position,
                key_input,
                value_input,
                key_cache,
                value_cache,
                &cache,
            ),
            Err(e) => Err(e),
        }
    }

    /// Stores the position and appends with prepared buffers, in a pass of its own.
    pub fn encode_resident_with_cache(
        &mut self,
        context: &mut GpuContext,
        encoder: &mut GpuEncoder,
        position: usize,
        key_input: &GpuResidentBuffer,
        value_input: &GpuResidentBuffer,
        key_cache: &GpuResidentBuffer,
        value_cache: &GpuResidentBuffer,
        cache: &GpuKvAppendResidentCache,
    ) -> (r: Result<(), String>)
        requires
            old(context)@.id == old(self).context,
        ensures
            ({
                let k = *old(self);
                let why = kv_encode_error(
                    k,
                    position,
                    *key_input,
                    *value_input,
                    *key_cache,
                    *value_cache,
                );
                match r {
                    Ok(()) => {
                        &&& why is None
                        &&& *final(self) == reached(k, position)
                        &&& final(context)@ == context::positioned(
                            old(context)@,
                            cache.position_buffer,
                            position,
                        )
                        &&& final(encoder)@ == old(encoder)@.push(GpuCommand::BeginPass)
                            + kv_commands(k, *cache)
                    },
                    Err(e) => {
                        &&& why == Some(e@)
                        &&& *final(self) == k
                        &&& final(context)@ == old(context)@
                        &&& final(encoder)@ == old(encoder)@
                    },
                }
            }),
    {
        if position >= self.max_len {
            return Err(position_message("GPU KV append position ", position, self.max_len));
        }
        if !self.on_device(key_input, value_input, key_cache, value_cache) {
            return Err("GPU KV append resident path requires shared GpuContext".to_owned());
        }
        context.write_position(cache.position_buffer, position);
        self.encode_resident_with_cache_current_position(
            encoder,
            position,
            key_input,
            value_input,
            key_cache,
            value_cache,
            cache,
        )
    }

    /// Appends with prepared buffers at the position that was stored, in a pass of its own.
    pub fn encode_resident_with_cache_current_position(
        &mut self,
        encoder: &mut GpuEncoder,
        position: usize,
        key_input: &GpuResidentBuffer,
        value_input: &GpuResidentBuffer,
        key_cache: &GpuResidentBuffer,
        value_cache: &GpuResidentBuffer,
        cache: &GpuKvAppendResidentCache,
    ) -> (r: Result<(), String>)
        ensures
            ({
                let k = *old(self);
                let why = kv_encode_error(
                    k,
                    position,
                    *key_input,
                    *value_input,
                    *key_cache,
                    *value_cache,
                );
                match r {
                    Ok(()) => {
                        &&& why is None
                        &&& *final(self) == reached(k, position)
                        &&& final(encoder)@ == old(encoder)@.push(GpuCommand::BeginPass)
                            + kv_commands(k, *cache)
                    },
                    Err(e) => {
                        &&& why == Some(e@)
                        &&& *final(self) == k
                        &&& final(encoder)@ == old(encoder)@
                    },
                }
            }),
    {
        if position >= self.max_len {
            return Err(position_message("GPU KV append position ", position, self.max_len));
        }
        if !self.on_device(key_input, value_input, key_cache, value_cache) {
            return Err("GPU KV append resident path requires shared GpuContext".to_owned());
        }
        encoder.begin_compute_pass();
        self.encode_resident_in_pass_current_position(
            encoder,
            position,
            key_input,
            value_input,
            key_cache,
            value_cache,
            cache,
        )
    }

    /// Stores a position where prepared buffers look for it.
    pub fn write_resident_position_with_cache(
        &self,
        context: &mut GpuContext,
        position: usize,
        cache: &GpuKvAppendResidentCache,
    )
        requires
            old(context)@.id == self.context,
        ensures
            final(context)@ == context::positioned(old(context)@, cache.position_buffer, position),
    {
        context.write_position(cache.position_buffer, position);
    }

    /// Stores the position and appends with prepared buffers, in the pass that was started.
    pub fn encode_resident_with_cache_in_pass(
        &mut self,
        context: &mut GpuContext,
        pass: &mut GpuEncoder,
        position: usize,
        key_input: &GpuResidentBuffer,
        value_input: &GpuResidentBuffer,
        key_cache: &GpuResidentBuffer,
        value_cache: &GpuResidentBuffer,
        cache: &GpuKvAppendResidentCache,
    ) -> (r: Result<(), String>)
        requires
            old(context)@.id == old(self).context,
        ensures
            final(context)@ == context::positioned(old(context)@, cache.position_buffer, position),
            ({
                let k = *old(self);
                let why = kv_encode_error(
                    k,
                    position,
                    *key_input,
                    *value_input,
                    *key_cache,
                    *value_cache,
                );
                match r {
                    Ok(()) => {
                        &&& why is None
                        &&& *final(self) == reached(k, position)
                        &&& final(pass)@ == old(pass)@ + kv_commands(k, *cache)
                    },
                    Err(e) => {
                        &&& why == Some(e@)
                        &&& *final(self) == k
                        &&& final(pass)@ == old(pass)@
                    },
                }
            }),
    {
        context.write_position(cache.position_buffer, position);
        self.encode_resident_in_pass_current_position(
            pass,
            position,
            key_input,
            value_input,
            key_cache,
            value_cache,
            cache,
        )
    }

    /// Appends with prepared buffers at the position that was stored, in the pass that was
    /// started.
    pub fn encode_resident_in_pass_current_position(
        &mut self,
        pass: &mut GpuEncoder,
        position: usize,
        key_input: &GpuResidentBuffer,
        value_input: &GpuResidentBuffer,
        key_cache: &GpuResidentBuffer,
        value_cache: &GpuResidentBuffer,
        cache: &GpuKvAppendResidentCache,
    ) -> (r: Result<(), String>)
        ensures
            ({
                let k = *old(self);
                let why = kv_encode_error(
                    k,
                    position,
                    *key_input,
                    *value_input,
                    *key_cache,
                    *value_cache,
                );
                match r {
                    Ok(()) => {
                        &&& why is None
                        &&& *final(self) == reached(k, position)
                        &&& final(pass)@ == old(pass)@ + kv_commands(k, *cache)
                    },
                    Err(e) => {
                        &&& why == Some(e@)
                        &&& *final(self) == k
                        &&& final(pass)@ == old(pass)@
                    },
                }
            }),
    {
        if position >= self.max_len {
            return Err(position_message("GPU KV append position ", position, self.max_len));
        }
        if !self.on_device(key_input, value_input, key_cache, value_cache) {
            return Err("GPU KV append resident path requires shared GpuContext".to_owned());
        }
        dispatch_kv(pass, cache.key, self.num_heads);
        dispatch_kv(pass, cache.value, self.num_heads);
        assert(pass@ =~= old(pass)@ + kv_commands(*self, *cache));
        self.reach(position);
        Ok(())
    }
}

/// The keys, or values, in use out of all that there is room for.
pub open spec fn kv_in_use(k: GpuKvAppend, raw: Seq<u32>) -> Seq<u32> {
    grid::compacted(
        raw,
        k.num_heads as nat,
        k.current_len as nat,
        k.max_len as nat,
        k.head_dim as nat,
    )
}

/// What making keys and values gives.
pub open spec fn kv_new(
    before: GpuContext,
    after: GpuContext,
    num_heads: usize,
    head_dim: usize,
    max_len: usize,
    resident_only: bool,
    r: Result<GpuKvAppend, String>,
) -> bool {
    let first = before@.buffers.len();
    match r {
        Ok(k) => {
            &&& num_heads > 0 && head_dim > 0 && max_len > 0
            &&& k.context == before@.id
            &&& k.num_heads == num_heads && k.head_dim == head_dim && k.max_len == max_len
            &&& k.current_len == 0
            &&& k.key_input_buffer == first && k.value_input_buffer == first + 1
            &&& k.params_buffer == first + 2 && k.position_buffer == first + 3
            &&& k.standalone is None <==> resident_only
            &&& !resident_only ==> {
                let s = k.standalone->0;
                &&& s.key_cache == first + 4 && s.value_cache == first + 5
                &&& s.key_readback == first + 6 && s.value_readback == first + 7
            }
            &&& k.well_formed()
            &&& after@ == kv_made(before@, num_heads, head_dim, max_len, resident_only)
        },
        Err(e) => {
            &&& num_heads == 0 || head_dim == 0 || max_len == 0
            &&& e@ == "GPU KV append requires num_heads/head_dim/max_len > 0"@
            &&& after@ == before@
        },
    }
}

proof fn lemma_kv_sizes(h: int, d: int, m: int)
    requires
        h > 0,
        d > 0,
        m > 0,
    ensures
        0 < d <= m * d,
        0 < h * d <= h * (m * d),
        m * d <= h * (m * d),
{
    assert(0 < d <= m * d) by (nonlinear_arith)
        requires
            m >= 1,
            d > 0,
    ;
    let s = m * d;
    assert(0 < h * d <= h * s && s <= h * s) by (nonlinear_arith)
        requires
            h >= 1,
            0 < d <= s,
    ;
}

/// What the attention of one token is made from.
pub struct GpuDecodeGqaAttentionConfig {
    pub num_heads: usize,
    pub num_kv_heads: usize,
    pub head_dim: usize,
    pub max_len: usize,
    pub scale: u32,
}

/// The attention of one token over the keys and values on the device.
#[derive(Debug)]
pub struct GpuDecodeGqaAttention {
    pub context: u64,
    pub q_buffer: usize,
    pub key_buffer: usize,
    pub value_buffer: usize,
    pub output_buffer: usize,
    pub readback_buffer: usize,
    pub params_buffer: usize,
    pub position_buffer: usize,
    pub num_heads: usize,
    pub num_kv_heads: usize,
    pub head_dim: usize,
    pub max_len: usize,
}

/// The buffers of the attention over resident keys and values.
#[derive(Clone, Copy, Debug)]
pub struct GpuDecodeGqaAttentionResidentCache {
    pub q: usize,
    pub key: usize,
    pub value: usize,
    pub output: usize,
    pub params: usize,
    pub position_buffer: usize,
}

/// The buffers of an attention, for the kernel.
pub open spec fn attention_group(c: GpuDecodeGqaAttentionResidentCache) -> GpuBindGroup {
    GpuBindGroup::DecodeGqaAttention {
        q: c.q,
        key: c.key,
        value: c.value,
        output: c.output,
        params: c.params,
        position: c.position_buffer,
    }
}

/// The buffers of an attention over its own inputs.
pub open spec fn attention_own(a: GpuDecodeGqaAttention) -> GpuDecodeGqaAttentionResidentCache {
    GpuDecodeGqaAttentionResidentCache {
        q: a.q_buffer,
        key: a.key_buffer,
        value: a.value_buffer,
        output: a.output_buffer,
        params: a.params_buffer,
        position_buffer: a.position_buffer,
    }
}

/// The kernel for a position: the parallel one as long as it can hold the scores.
pub open spec fn attention_kernel(position: int) -> GpuPipeline {
    if position < DECODE_GQA_ATTENTION_PARALLEL_MAX_SEQ_LEN {
        GpuPipeline::DecodeGqaAttention
    } else {
        GpuPipeline::DecodeGqaAttentionSerial
    }
}

/// Why an attention cannot be made.
pub open spec fn attention_error(f: GpuDecodeGqaAttentionConfig) -> Option<Seq<char>> {
    if f.num_heads == 0 || f.num_kv_heads == 0 || f.head_dim == 0 || f.max_len == 0 {
        Some("GPU decode GQA attention requires non-zero heads/head_dim/max_len"@)
    } else if f.num_heads % f.num_kv_heads != 0 {
        Some(
            "GPU decode GQA attention requires num_heads "@ + text::dec(f.num_heads as nat)
                + " divisible by num_kv_heads "@ + text::dec(f.num_kv_heads as nat),
        )
    } else {
        None
    }
}

/// Making what an attention needs.
pub open spec fn attention_made(c: context::ContextView, f: GpuDecodeGqaAttentionConfig)
    -> context::ContextView {
    let q = (f.num_heads * f.head_dim) as usize;
    let kv = (f.num_kv_heads * (f.max_len * f.head_dim)) as usize;
    let c1 = context::made(c, q, GpuUsage::Input);
    let c2 = context::made(c1, kv, GpuUsage::Input);
    let c3 = context::made(c2, kv, GpuUsage::Input);
    let c4 = context::made(c3, q, GpuUsage::Output);
    let c5 = context::made(c4, q, GpuUsage::Readback);
    let c6 = context::filled(
        c5,
        seq![
            f.num_heads as u32,
            f.num_kv_heads as u32,
            f.head_dim as u32,
            f.max_len as u32,
            (f.num_heads / f.num_kv_heads) as u32,
            f.scale,
            0,
        ],
        GpuUsage::MutableParams,
    );
    context::filled(c6, context::position_words(0), GpuUsage::MutableParams)
}

/// Why an attention cannot be run.
pub open spec fn attention_input_error(
    a: GpuDecodeGqaAttention,
    q: nat,
    key: nat,
    value: nat,
    seq_len_k: usize,
) -> Option<Seq<char>> {
    let want = a.num_heads * a.head_dim;
    let kv = a.num_kv_heads * (a.max_len * a.head_dim);
    if seq_len_k == 0 || seq_len_k > a.max_len {
        Some(
            "GPU decode GQA attention seq_len_k "@ + text::dec(seq_len_k as nat)
                + " exceeds max_len "@ + text::dec(a.max_len as nat),
        )
    } else if q != want {
        Some(
            "GPU decode GQA attention q length mismatch: got "@ + text::dec(q) + ", expected "@
                + text::dec(want as nat),
        )
    } else if key != kv || value != kv {
        Some(
            "GPU decode GQA attention cache length mismatch: got key="@ + text::dec(key)
                + ", value="@ + text::dec(value) + ", expected "@ + text::dec(kv as nat),
        )
    } else {
        None
    }
}

/// What a device does to run an attention.
pub open spec fn attention_run(
    c: context::ContextView,
    a: GpuDecodeGqaAttention,
    q: Seq<u32>,
    key: Seq<u32>,
    value: Seq<u32>,
    seq_len_k: usize,
) -> context::ContextView {
    let c1 = context::written(c, a.q_buffer, q, GpuWrite::Host);
    let c2 = context::written(c1, a.key_buffer, key, GpuWrite::Host);
    let c3 = context::written(c2, a.value_buffer, value, GpuWrite::Host);
    let c4 = context::positioned(c3, a.position_buffer, (seq_len_k - 1) as usize);
    context::read_back(
        c4,
        seq![
            GpuCommand::BeginPass,
            context::run(
                attention_kernel(seq_len_k - 1),
                attention_group(attention_own(a)),
                a.num_heads as u32,
            ),
            context::copy(
                a.output_buffer,
                a.readback_buffer,
                0,
                (a.num_heads * a.head_dim) as usize,
            ),
        ],
        seq![a.readback_buffer],
    )
}

/// Whether four values are on the device of an attention.
pub open spec fn attention_shared(
    a: GpuDecodeGqaAttention,
    q: GpuResidentBuffer,
    key: GpuResidentBuffer,
    value: GpuResidentBuffer,
    output: GpuResidentBuffer,
) -> bool {
    &&& a.context == q.context
    &&& a.context == key.context
    &&& a.context == value.context
    &&& a.context == output.context
}

/// Why an attention cannot run over resident values.
pub open spec fn attention_cache_error(
    a: GpuDecodeGqaAttention,
    q: GpuResidentBuffer,
    key: GpuResidentBuffer,
    value: GpuResidentBuffer,
    output: GpuResidentBuffer,
) -> Option<Seq<char>> {
    let want = a.num_heads * a.head_dim;
    let kv = a.num_kv_heads * (a.max_len * a.head_dim);
    if !attention_shared(a, q, key, value, output) {
        Some("GPU decode GQA attention resident path requires shared GpuContext"@)
    } else if q.len != want || output.len != want {
        Some(
            "GPU decode GQA attention resident q/output length mismatch: q="@ + text::dec(
                q.len as nat,
            ) + ", output="@ + text::dec(output.len as nat) + ", expected "@ + text::dec(
                want as nat,
            ),
        )
    } else if key.len != kv || value.len != kv {
        Some(
            "GPU decode GQA attention resident cache length mismatch: key="@ + text::dec(
                key.len as nat,
            ) + ", value="@ + text::dec(value.len as nat) + ", expected "@ + text::dec(kv as nat),
        )
    } else {
        None
    }
}

/// The buffers of an attention over resident values.
pub open spec fn attention_cache(
    a: GpuDecodeGqaAttention,
    q: GpuResidentBuffer,
    key: GpuResidentBuffer,
    value: GpuResidentBuffer,
    output: GpuResidentBuffer,
    position: usize,
) -> GpuDecodeGqaAttentionResidentCache {
    GpuDecodeGqaAttentionResidentCache {
        q: q.buffer,
        key: key.buffer,
        value: value.buffer,
        output: output.buffer,
        params: a.params_buffer,
        position_buffer: position,
    }
}

/// Why an attention cannot run with prepared buffers.
pub open spec fn attention_encode_error(
    a: GpuDecodeGqaAttention,
    q: GpuResidentBuffer,
    key: GpuResidentBuffer,
    value: GpuResidentBuffer,
    output: GpuResidentBuffer,
    position: usize,
) -> Option<Seq<char>> {
    if position >= a.max_len {
        Some(
            "GPU decode GQA attention position "@ + text::dec(position as nat)
                + " exceeds max_len "@ + text::dec(a.max_len as nat),
        )
    } else if !attention_shared(a, q, key, value, output) {
        Some("GPU decode GQA attention resident path requires shared GpuContext"@)
    } else {
        None
    }
}

/// The run of an attention over resident values.
pub open spec fn attention_command(
    a: GpuDecodeGqaAttention,
    c: GpuDecodeGqaAttentionResidentCache,
    position: usize,
) -> GpuCommand {
    context::run(attention_kernel(position as int), attention_group(c), a.num_heads as u32)
}

fn kernel_for(position: usize) -> (r: GpuPipeline)
    ensures
        r == attention_kernel(position as int),
{
    if position < DECODE_GQA_ATTENTION_PARALLEL_MAX_SEQ_LEN {
        GpuPipeline::DecodeGqaAttention
    } else {
        GpuPipeline::DecodeGqaAttentionSerial
    }
}

impl GpuDecodeGqaAttention {
    /// The sizes can be multiplied, and the heads share their keys evenly.
    pub open spec fn well_formed(&self) -> bool {
        &&& self.num_heads > 0 && self.num_kv_heads > 0 && self.head_dim > 0 && self.max_len > 0
        &&& self.num_heads % self.num_kv_heads == 0
        &&& self.num_heads * self.head_dim <= usize::MAX
        &&& self.max_len * self.head_dim <= usize::MAX
        &&& self.num_kv_heads * (self.max_len * self.head_dim) <= usize::MAX
    }

    /// Makes what the attention of one token needs.
    pub fn with_context(context: &mut GpuContext, config: GpuDecodeGqaAttentionConfig) -> (r: Result<
        GpuDecodeGqaAttention,
        String,
    >)
        requires
            attention_error(config) is None ==> {
                &&& config.num_heads * config.head_dim <= usize::MAX
                &&& config.num_kv_heads * (config.max_len * config.head_dim) <= usize::MAX
            },
        ensures
            match r {
                Ok(a) => {
                    let first = old(context)@.buffers.len();
                    &&& attention_error(config) is None
                    &&& a.context == old(context)@.id
                    &&& a.num_heads == config.num_heads && a.num_kv_heads == config.num_kv_heads
                    &&& a.head_dim == config.head_dim && a.max_len == config.max_len
                    &&& a.q_buffer == first && a.key_buffer == first + 1
                    &&& a.value_buffer == first + 2 && a.output_buffer == first + 3
                    &&& a.readback_buffer == first + 4 && a.params_buffer == first + 5
                    &&& a.position_buffer == first + 6
                    &&& a.well_formed()
                    &&& final(context)@ == attention_made(old(context)@, config)
                },
                Err(e) => {
                    &&& attention_error(config) == Some(e@)
                    &&& final(context)@ == old(context)@
                },
            },
    {
        let num_heads: usize = config.num_heads;
        let num_kv_heads: usize = config.num_kv_heads;
        let head_dim: usize = config.head_dim;
        let max_len: usize = config.max_len;
        if num_heads == 0 || num_kv_heads == 0 || head_dim == 0 || max_len == 0 {
            return Err(
                "GPU decode GQA attention requires non-zero heads/head_dim/max_len".to_owned(),
            );
        }
        if num_heads % num_kv_heads != 0 {
            return Err(
                two_sizes(
                    "GPU decode GQA attention requires num_heads ",
                    num_heads,
                    " divisible by num_kv_heads ",
                    num_kv_heads,
                ),
            );
        }
        proof {
            lemma_kv_sizes(num_kv_heads as int, head_dim as int, max_len as int);
        }
        let q_len: usize = num_heads * head_dim;
        let kv_len: usize = num_kv_heads * (max_len * head_dim);
        let q_buffer: usize = context.create_buffer(q_len, GpuUsage::Input);
        let key_buffer: usize = context.create_buffer(kv_len, GpuUsage::Input);
        let value_buffer: usize = context.create_buffer(kv_len, GpuUsage::Input);
        let output_buffer: usize = context.create_buffer(q_len, GpuUsage::Output);
        let readback_buffer: usize = context.create_buffer(q_len, GpuUsage::Readback);
        let params: Vec<u32> = vec![
            num_heads as u32,
            num_kv_heads as u32,
            head_dim as u32,
            max_len as u32,
            (num_heads / num_kv_heads) as u32,
            config.scale,
            0,
        ];
        assert(params@ =~= seq![
            num_heads as u32,
            num_kv_heads as u32,
            head_dim as u32,
            max_len as u32,
            (num_heads / num_kv_heads) as u32,
            config.scale,
            0,
        ]);
        let params_buffer: usize = context.create_buffer_init(params, GpuUsage::MutableParams);
        let position: Vec<u32> = vec![0, 0, 0, 0];
        assert(position@ =~= context::position_words(0));
        let position_buffer: usize = context.create_buffer_init(position, GpuUsage::MutableParams);
        Ok(
            GpuDecodeGqaAttention {
                context: context.id,
                q_buffer,
                key_buffer,
                value_buffer,
                output_buffer,
                readback_buffer,
                params_buffer,
                position_buffer,
                num_heads,
                num_kv_heads,
                head_dim,
                max_len,
            },
        )
    }

    /// Runs the attention over keys and values from the host; the result is read from the buffer
    /// returned.
    pub fn forward_raw(
        &self,
        context: &mut GpuContext,
        q: &[u32],
        key: &[u32],
        value: &[u32],
        seq_len_k: usize,
    ) -> (r: Result<usize, String>)
        requires
            old(context)@.id == self.context,
            self.well_formed(),
        ensures
            ({
                let why = attention_input_error(
                    *self,
                    q@.len(),
                    key@.len(),
                    value@.len(),
                    seq_len_k,
                );
                match r {
                    Ok(b) => {
                        &&& why is None
                        &&& b == self.readback_buffer
                        &&& final(context)@ == attention_run(
                            old(context)@,
                            *self,
                            q@,
                            key@,
                            value@,
                            seq_len_k,
                        )
                    },
                    Err(e) => why == Some(e@) && final(context)@ == old(context)@,
                }
            }),
    {
        if seq_len_k == 0 || seq_len_k > self.max_len {
            return Err(
                position_message("GPU decode GQA attention seq_len_k ", seq_len_k, self.max_len),
            );
        }
        let q_expected: usize = self.num_heads * self.head_dim;
        let kv_expected: usize = self.num_kv_heads * (self.max_len * self.head_dim);
        if q.len() != q_expected {
            return Err(
                two_sizes(
                    "GPU decode GQA attention q length mismatch: got ",
                    q.len(),
                    ", expected ",
                    q_expected,
                ),
            );
        }
        if key.len() != kv_expected || value.len() != kv_expected {
            return Err(
                three_sizes(
                    "GPU decode GQA attention cache length mismatch: got key=",
                    key.len(),
                    ", value=",
                    value.len(),
                    ", expected ",
                    kv_expected,
                ),
            );
        }
        context.write_buffer(self.q_buffer, vstd::slice::slice_to_vec(q), GpuWrite::Host);
        context.write_buffer(self.key_buffer, vstd::slice::slice_to_vec(key), GpuWrite::Host);
        context.write_buffer(self.value_buffer, vstd::slice::slice_to_vec(value), GpuWrite::Host);
        context.write_position(self.position_buffer, seq_len_k - 1);
        let mut encoder = context.create_command_encoder();
        encoder.begin_compute_pass();
        encoder.dispatch(
            kernel_for(seq_len_k - 1),
            GpuBindGroup::DecodeGqaAttention {
                q: self.q_buffer,
                key: self.key_buffer,
                value: self.value_buffer,
                output: self.output_buffer,
                params: self.params_buffer,
                position: self.position_buffer,
            },
            self.num_heads as u32,
        );
        encoder.copy_buffer(self.output_buffer, self.readback_buffer, 0, q_expected);
        let list: Vec<usize> = vec![self.readback_buffer];
        proof {
            assert(list@ =~= seq![self.readback_buffer]);
            assert(encoder@ =~= seq![
                GpuCommand::BeginPass,
                context::run(
                    attention_kernel(seq_len_k - 1),
                    attention_group(attention_own(*self)),
                    self.num_heads as u32,
                ),
                context::copy(self.output_buffer, self.readback_buffer, 0, q_expected),
            ]);
        }
        context.submit_and_map(encoder, &list);
        Ok(self.readback_buffer)
    }

    fn on_device(
        &self,
        q: &GpuResidentBuffer,
        key: &GpuResidentBuffer,
        value: &GpuResidentBuffer,
        output: &GpuResidentBuffer,
    ) -> (r: bool)
        ensures
            r == attention_shared(*self, *q, *key, *value, *output),
    {
        self.context == q.context && self.context == key.context && self.context == value.context
            && self.context == output.context
    }

    /// Stores the position and runs the attention over resident values, in a pass of its own.
    pub fn encode_resident(
        &self,
        context: &mut GpuContext,
        encoder: &mut GpuEncoder,
        q: &GpuResidentBuffer,
        key: &GpuResidentBuffer,
        value: &GpuResidentBuffer,
        output: &GpuResidentBuffer,
        position: usize,
    ) -> (r: Result<(), String>)
        requires
            old(context)@.id == self.context,
            self.well_formed(),
        ensures
            ({
                let why = match attention_cache_error(*self, *q, *key, *value, *output) {
                    Some(m) => Some(m),
                    None => attention_encode_error(*self, *q, *key, *value, *output, position),
                };
                let c = attention_cache(*self, *q, *key, *value, *output, self.position_buffer);
                match r {
                    Ok(()) => {
                        &&& why is None
                        &&& final(context)@ == context::positioned(
                            old(context)@,
                            self.position_buffer,
                            position,
                        )
                        &&& final(encoder)@ == old(encoder)@.push(GpuCommand::BeginPass).push(
                            attention_command(*self, c, position),
                        )
                    },
                    Err(e) => {
                        &&& why == Some(e@)
                        &&& final(context)@ == old(context)@
                        &&& final(encoder)@ == old(encoder)@
                    },
                }
            }),
    {
        match self.prepare_resident_cache(q, key, value, output) {
            Ok(cache) => self.encode_resident_with_cache(
                context,
                encoder,
                q,
                key,
                value,
                output,
                position,
                &cache,
            ),
            Err(e) => Err(e),
        }
    }

    /// The buffers for an attention at the layer's own position.
    pub fn prepare_resident_cache(
        &self,
        q: &GpuResidentBuffer,
        key: &GpuResidentBuffer,
        value: &GpuResidentBuffer,
        output: &GpuResidentBuffer,
    ) -> (r: Result<GpuDecodeGqaAttentionResidentCache, String>)
        requires
            self.well_formed(),
        ensures
            match r {
                Ok(c) => {
                    &&& attention_cache_error(*self, *q, *key, *value, *output) is None
                    &&& c == attention_cache(
                        *self,
                        *q,
                        *key,
                        *value,
                        *output,
                        self.position_buffer,
                    )
                },
                Err(e) => attention_cache_error(*self, *q, *key, *value, *output) == Some(e@),
            },
    {
        self.prepare_resident_cache_with_position_buffer(q, key, value, output, self.position_buffer)
    }

    /// The buffers for an attention at the position in the given uniform.
    pub fn prepare_resident_cache_with_position_buffer(
        &self,
        q: &GpuResidentBuffer,
        key: &GpuResidentBuffer,
        value: &GpuResidentBuffer,
        output: &GpuResidentBuffer,
        position_buffer: usize,
    ) -> (r: Result<GpuDecodeGqaAttentionResidentCache, String>)
        requires
            self.well_formed(),
        ensures
            match r {
                Ok(c) => {
                    &&& attention_cache_error(*self, *q, *key, *value, *output) is None
                    &&& c == attention_cache(*self, *q, *key, *value, *output, position_buffer)
                },
                Err(e) => attention_cache_error(*self, *q, *key, *value, *output) == Some(e@),
            },
    {
        if !self.on_device(q, key, value, output) {
            return Err(
                "GPU decode GQA attention resident path requires shared GpuContext".to_owned(),
            );
        }
        let q_expected: usize = self.num_heads * self.head_dim;
        let kv_expected: usize = self.num_kv_heads * (self.max_len * self.head_dim);
        if q.len != q_expected || output.len != q_expected {
            return Err(
                three_sizes(
                    "GPU decode GQA attention resident q/output length mismatch: q=",
                    q.len,
                    ", output=",
                    output.len,
                    ", expected ",
                    q_expected,
                ),
            );
        }
        if key.len != kv_expected || value.len != kv_expected {
            return Err(
                three_sizes(
                    "GPU decode GQA attention resident cache length mismatch: key=",
                    key.len,
                    ", value=",
                    value.len,
                    ", expected ",
                    kv_expected,
                ),
            );
        }
        Ok(
            GpuDecodeGqaAttentionResidentCache {
                q: q.buffer,
                key: key.buffer,
                value: value.buffer,
                output: output.buffer,
                params: self.params_buffer,
                position_buffer,
            },
        )
    }

    /// Stores the position and runs with prepared buffers, in a pass of its own.
    pub fn encode_resident_with_cache(
        &self,
        context: &mut GpuContext,
        encoder: &mut GpuEncoder,
        q: &GpuResidentBuffer,
        key: &GpuResidentBuffer,
        value: &GpuResidentBuffer,
        output: &GpuResidentBuffer,
        position: usize,
        cache: &GpuDecodeGqaAttentionResidentCache,
    ) -> (r: Result<(), String>)
        requires
            old(context)@.id == self.context,
        ensures
            ({
                let why = attention_encode_error(*self, *q, *key, *value, *output, position);
                match r {
                    Ok(()) => {
                        &&& why is None
                        &&& final(context)@ == context::positioned(
                            old(context)@,
                            cache.position_buffer,
                            position,
                        )
                        &&& final(encoder)@ == old(encoder)@.push(GpuCommand::BeginPass).push(
                            attention_command(*self, *cache, position),
                        )
                    },
                    Err(e) => {
                        &&& why == Some(e@)
                        &&& final(context)@ == old(context)@
                        &&& final(encoder)@ == old(encoder)@
                    },
                }
            }),
    {
        if position >= self.max_len {
            return Err(
                position_message("GPU decode GQA attention position ", position, self.max_len),
            );
        }
        if !self.on_device(q, key, value, output) {
            return Err(
                "GPU decode GQA attention resident path requires shared GpuContext".to_owned(),
            );
        }
        context.write_position(cache.position_buffer, position);
        self.encode_resident_with_cache_current_position(
            encoder,
            q,
            key,
            value,
            output,
            position,
            cache,
        )
    }

    /// Runs with prepared buffers at the position that was stored, in a pass of its own.
    pub fn encode_resident_with_cache_current_position(
        &self,
        encoder: &mut GpuEncoder,
        q: &GpuResidentBuffer,
        key: &GpuResidentBuffer,
        value: &GpuResidentBuffer,
        output: &GpuResidentBuffer,
        position: usize,
        cache: &GpuDecodeGqaAttentionResidentCache,
    ) -> (r: Result<(), String>)
        ensures
            ({
                let why = attention_encode_error(*self, *q, *key, *value, *output, position);
                match r {
                    Ok(()) => {
                        &&& why is None
                        &&& final(encoder)@ == old(encoder)@.push(GpuCommand::BeginPass).push(
                            attention_command(*self, *cache, position),
                        )
                    },
                    Err(e) => why == Some(e@) && final(encoder)@ == old(encoder)@,
                }
            }),
    {
        if position >= self.max_len {
            return Err(
                position_message("GPU decode GQA attention position ", position, self.max_len),
            );
        }
        if !self.on_device(q, key, value, output) {
            return Err(
                "GPU decode GQA attention resident path requires shared GpuContext".to_owned(),
            );
        }
        encoder.begin_compute_pass();
        self.encode_resident_in_pass_current_position(
            encoder,
            q,
            key,
            value,
            output,
            position,
            cache,
        )
    }

    /// Stores a position where prepared buffers look for it.
    pub fn write_resident_position_with_cache(
        &self,
        context: &mut GpuContext,
        position: usize,
        cache: &GpuDecodeGqaAttentionResidentCache,
    )
        requires
            old(context)@.id == self.context,
        ensures
            final(context)@ == context::positioned(old(context)@, cache.position_buffer, position),
    {
        context.write_position(cache.position_buffer, position);
    }

    /// Stores the position and runs with prepared buffers, in the pass that was started.
    pub fn encode_resident_with_cache_in_pass(
        &self,
        context: &mut GpuContext,
        pass: &mut GpuEncoder,
        q: &GpuResidentBuffer,
        key: &GpuResidentBuffer,
        value: &GpuResidentBuffer,
        output: &GpuResidentBuffer,
        position: usize,
        cache: &GpuDecodeGqaAttentionResidentCache,
    ) -> (r: Result<(), String>)
        requires
            old(context)@.id == self.context,
        ensures
            final(context)@ == context::positioned(old(context)@, cache.position_buffer, position),
            ({
                let why = attention_encode_error(*self, *q, *key, *value, *output, position);
                match r {
                    Ok(()) => {
                        &&& why is None
                        &&& final(pass)@ == old(pass)@.push(
                            attention_command(*self, *cache, position),
                        )
                    },
                    Err(e) => why == Some(e@) && final(pass)@ == old(pass)@,
                }
            }),
    {
        context.write_position(cache.position_buffer, position);
        self.encode_resident_in_pass_current_position(pass, q, key, value, output, position, cache)
    }

    /// Runs with prepared buffers at the position that was stored, in the pass that was started.
    pub fn encode_resident_in_pass_current_position(
        &self,
        pass: &mut GpuEncoder,
        q: &GpuResidentBuffer,
        key: &GpuResidentBuffer,
        value: &GpuResidentBuffer,
        output: &GpuResidentBuffer,
        position: usize,
        cache: &GpuDecodeGqaAttentionResidentCache,
    ) -> (r: Result<(), String>)
        ensures
            ({
                let why = attention_encode_error(*self, *q, *key, *value, *output, position);
                match r {
                    Ok(()) => {
                        &&& why is None
                        &&& final(pass)@ == old(pass)@.push(
                            attention_command(*self, *cache, position),
                        )
                    },
                    Err(e) => why == Some(e@) && final(pass)@ == old(pass)@,
                }
            }),
    {
        if position >= self.max_len {
            return Err(
                position_message("GPU decode GQA attention position ", position, self.max_len),
            );
        }
        if !self.on_device(q, key, value, output) {
            return Err(
                "GPU decode GQA attention resident path requires shared GpuContext".to_owned(),
            );
        }
        pass.dispatch(
            kernel_for(position),
            GpuBindGroup::DecodeGqaAttention {
                q: cache.q,
                key: cache.key,
                value: cache.value,
                output: cache.output,
                params: cache.params,
                position: cache.position_buffer,
            },
            self.num_heads as u32,
        );
        Ok(())
    }
}

} // verus!
