//! What holds of a model and its weights: what is read from which file, what a stored tensor becomes,
//! and which weight each part of the model bears.

use vstd::prelude::*;
use vstd::string::*;

use crate::error::ErrorView;
use crate::model::block_build;
use crate::model::heads;
use crate::model::qwen3;
use crate::model::weights;
use crate::model::weights::{LoadedView, SafetensorsHeaderEntry, StoredView};
use crate::model::{BlockQ8Weights, Linear, Qwen3Config};
use crate::tensor::array;
use crate::tensor::dtypes;
use crate::tensor::laws;
use crate::tensor::tensor;
use crate::tensor::Q8LinearWeight;
use crate::text;
use crate::text_laws;

verus! {

/// Law: a head is as wide as the file says, or else takes an equal share of the hidden state.
pub proof fn law_heads_share_the_hidden_state(c: Qwen3Config)
    requires
        c.has_head_width(),
    ensures
        c.explicit_head_dim matches Some(d) ==> c.head_width() == d,
        c.explicit_head_dim is None ==> c.head_width() * c.num_attention_heads <= c.hidden_size < (
        c.head_width() + 1) * c.num_attention_heads,
{
    if c.explicit_head_dim is None {
        let h = c.hidden_size as int;
        let n = c.num_attention_heads as int;
        vstd::arithmetic::div_mod::lemma_fundamental_div_mod(h, n);
        vstd::arithmetic::div_mod::lemma_mod_bound(h, n);
        let w = h / n;
        assert(w * n <= h < (w + 1) * n) by (nonlinear_arith)
            requires
                h == n * w + h % n,
                0 <= h % n < n,
        ;
    }
}

/// Law: turning heads and positions round moves each number of a head to the place that its position
/// and its head have exchanged.
pub proof fn law_turned_exchanges(
    s: Seq<u32>,
    t: Seq<u32>,
    m: nat,
    n: nat,
    b: nat,
    c: nat,
    i: int,
    j: int,
    k: int,
)
    requires
        heads::is_turned(s, t, m, n, b, c),
        0 <= i < n,
        0 <= j < m,
        0 <= k < c,
    ensures
        t.len() == n * m * c,
        t[(i * m + j) * c + k] == s[(j * b + i) * c + k],
{
    assert(heads::at(t, m, c, i, j, k) == heads::at(s, b, c, j, i, k));
}

/// Law: the formats that are read are those of half, single and brain precision, by their names.
pub proof fn law_formats_by_name(name: Seq<char>)
    ensures
        weights::dtype_named("F16"@) is F16,
        weights::dtype_named("F32"@) is F32,
        weights::dtype_named("BF16"@) is BF16,
        weights::dtype_named(name) is Other <==> name != "F16"@ && name != "F32"@ && name != "BF16"@,
        weights::dtype_named(name) is Other ==> weights::dtype_named(name)->Other_0 == name,
{
    reveal_strlit("F16");
    reveal_strlit("F32");
    reveal_strlit("BF16");
    assert("F16"@[1] == '1' && "F32"@[1] == '3' && "BF16"@.len() == 4 && "F16"@.len() == 3
        && "F32"@.len() == 3);
}

/// Law: a stored tensor keeps its shape and has one number for each two or four bytes, the low byte
/// first; half precision stays as it is, single precision too, and brain precision becomes the front
/// half of single precision.  No other format is taken.
pub proof fn law_stored_tensor_is_converted(
    shape: Seq<usize>,
    data: Seq<u8>,
    name: Seq<char>,
    other: Seq<char>,
    i: int,
)
    ensures
        ({
            let half = weights::converted(shape, StoredView::F16, data, name);
            &&& half is Ok && half->Ok_0 is F16
            &&& half->Ok_0->F16_shape == shape
            &&& half->Ok_0->F16_data.len() == data.len() / 2
            &&& 0 <= i < data.len() / 2 ==> half->Ok_0->F16_data[i] % 256 == data[2 * i]
                && half->Ok_0->F16_data[i] / 256 == data[2 * i + 1]
        }),
        ({
            let single = weights::converted(shape, StoredView::F32, data, name);
            &&& single is Ok <==> tensor::build_error(shape, data.len() / 4) is None
            &&& single is Ok ==> {
                let t = single->Ok_0;
                &&& t is Tensor && t->dims == shape && t->row_major
                &&& t->values.len() == data.len() / 4
                &&& 0 <= i < data.len() / 4 ==> {
                    let x = t->values[i];
                    &&& x % 256 == data[4 * i] && (x / 256) % 256 == data[4 * i + 1]
                    &&& (x / 65536) % 256 == data[4 * i + 2] && x / 16777216 == data[4 * i + 3]
                }
            }
        }),
        ({
            let brain = weights::converted(shape, StoredView::BF16, data, name);
            &&& brain is Ok <==> tensor::build_error(shape, data.len() / 2) is None
            &&& brain is Ok ==> {
                let t = brain->Ok_0;
                &&& t is Tensor && t->dims == shape && t->row_major
                &&& t->values.len() == data.len() / 2
                &&& 0 <= i < data.len() / 2 ==> {
                    let x = t->values[i];
                    let b = data[2 * i] + 256 * data[2 * i + 1];
                    &&& x % 65536 == 0
                    &&& b % 0x8000 <= 0x7F80 ==> x / 65536 == b
                }
            }
        }),
        weights::converted(shape, StoredView::Other(other), data, name) is Err,
{
    laws::law_low_bytes_come_first(data, i);
    laws::law_bf16_is_the_front_half(dtypes::word16(data, i));
    assert(dtypes::word16(data, i) == data[2 * i] + 256 * data[2 * i + 1]);
}

/// Law: a weight can be had where it is there and has as many numbers as its shape has places; its
/// numbers are those that are stored, widened from half precision one by one.
pub proof fn law_weight_is_what_is_stored(w: Map<Seq<char>, LoadedView>, name: Seq<char>, i: int)
    ensures
        weights::get_error(w, name) is None <==> {
            &&& w.contains_key(name)
            &&& match w[name] {
                LoadedView::Tensor { .. } => true,
                LoadedView::F16 { shape, data } => array::numel(shape) == data.len()
                    && array::extent(shape) <= isize::MAX,
            }
        },
        !w.contains_key(name) ==> weights::get_error(w, name) == Some(
            ErrorView::WeightError("Weight '"@ + name + "' not found"@),
        ),
        match w[name] {
            LoadedView::Tensor { dims, values, .. } => weights::shape_of(w[name]) == dims
                && weights::numbers_of(w[name]) == values,
            LoadedView::F16 { shape, data } => {
                &&& weights::shape_of(w[name]) == shape
                &&& weights::numbers_of(w[name]).len() == data.len()
                &&& 0 <= i < data.len() ==> weights::numbers_of(w[name])[i] == dtypes::widened(
                    data[i],
                )
            },
        },
{
}

/// Law: a matrix in half precision is taken as it is stored; one in single precision, whose numbers
/// lie in order, is narrowed one by one.
pub proof fn law_linear_weight_is_narrowed(w: Map<Seq<char>, LoadedView>, name: Seq<char>, i: int)
    requires
        w.contains_key(name),
    ensures
        match w[name] {
            LoadedView::F16 { shape, data } => shape.len() == 2 ==> weights::linear_weight(w, name)
                == Ok::<(Seq<usize>, Seq<u16>), ErrorView>((shape, data)),
            LoadedView::Tensor { dims, values, row_major } => {
                let r = weights::linear_weight(w, name);
                &&& r is Ok && r->Ok_0.0 == dims
                &&& row_major ==> r->Ok_0.1.len() == values.len()
                &&& row_major && 0 <= i < values.len() ==> r->Ok_0.1[i] == dtypes::narrowed(
                    values[i],
                )
            },
        },
{
}

/// Law: the length of a header is written with its lowest byte first.
pub proof fn law_header_length(b: Seq<u8>)
    ensures
        weights::word64(b) == b[0] + 256 * (b[1] + 256 * (b[2] + 256 * (b[3] + 256 * (b[4] + 256 * (
        b[5] + 256 * (b[6] + 256 * b[7])))))),
{
}

/// Law: the entry of a name is the first that bears it, if any does.
pub proof fn law_entry_bears_its_name(h: Seq<SafetensorsHeaderEntry>, name: Seq<char>, i: int)
    requires
        0 <= i,
    ensures
        match weights::entry_named(h, name, i) {
            Some(k) => {
                &&& i <= k < h.len()
                &&& h[k].name@ == name
                &&& forall|j: int| i <= j < k ==> (#[trigger] h[j]).name@ != name
            },
            None => forall|j: int| i <= j < h.len() ==> (#[trigger] h[j]).name@ != name,
        },
    decreases h.len() - i,
{
    if i < h.len() && h[i].name@ != name {
        law_entry_bears_its_name(h, name, i + 1);
    }
}

/// Whether some entry of a header bears a name.
pub open spec fn header_names(h: Seq<SafetensorsHeaderEntry>, name: Seq<char>) -> bool {
    exists|k: int| 0 <= k < h.len() && (#[trigger] h[k]).name@ == name
}

/// Whether some of the entries that are read bears a name.
pub open spec fn reads_name(
    h: Seq<SafetensorsHeaderEntry>,
    order: Seq<usize>,
    name: Seq<char>,
) -> bool {
    exists|p: int|
        0 <= p < order.len() && (#[trigger] order[p]) < h.len() && h[order[p] as int].name@ == name
}

/// Whether a name is among the first `n` of those that were selected.
pub open spec fn is_selected(names: Seq<String>, n: nat, name: Seq<char>) -> bool {
    exists|a: int| 0 <= a < n && (#[trigger] names[a])@ == name
}

/// Law: what is read of a file are the entries of the names that were selected, each of them and no
/// others, in the order of their data; where a name has no entry, the first such name is reported.
pub proof fn law_selected_tensors_are_read(
    h: Seq<SafetensorsHeaderEntry>,
    names: Seq<String>,
    n: nat,
)
    requires
        n <= names.len(),
        h.len() <= usize::MAX,
    ensures
        match weights::reading_order(h, names, n) {
            Ok(order) => {
                &&& order.len() == n
                &&& forall|a: int| 0 <= a < n ==> reads_name(h, order, (#[trigger] names[a])@)
                &&& forall|p: int|
                    0 <= p < order.len() ==> (#[trigger] order[p]) < h.len() && is_selected(
                        names,
                        n,
                        h[order[p] as int].name@,
                    )
                &&& forall|p: int, q: int|
                    0 <= p < q < order.len() ==> h[#[trigger] order[p] as int].start
                        <= h[#[trigger] order[q] as int].start
            },
            Err(e) => exists|a: int|
                0 <= a < n && (#[trigger] names[a])@ == e && !header_names(h, e) && forall|b: int|
                    0 <= b < a ==> header_names(h, (#[trigger] names[b])@),
        },
    decreases n,
{
    if n > 0 {
        let m = (n - 1) as nat;
        law_selected_tensors_are_read(h, names, m);
        weights::law_reading_order(h, names, n);
        let name = names[n - 1]@;
        law_entry_bears_its_name(h, name, 0);
        match weights::reading_order(h, names, m) {
            Err(e) => {},
            Ok(order) => match weights::entry_named(h, name, 0) {
                None => {
                    assert(names[n - 1]@ == name);
                    assert forall|b: int| 0 <= b < n - 1 implies header_names(
                        h,
                        (#[trigger] names[b])@,
                    ) by {
                        assert(reads_name(h, order, names[b]@));
                    }
                },
                Some(i) => {
                    lemma_one_more_read(h, names, n, order, i);
                },
            },
        }
    }
}

proof fn lemma_one_more_read(
    h: Seq<SafetensorsHeaderEntry>,
    names: Seq<String>,
    n: nat,
    order: Seq<usize>,
    i: int,
)
    requires
        0 < n <= names.len(),
        h.len() <= usize::MAX,
        weights::reading_order(h, names, (n - 1) as nat) == Ok::<Seq<usize>, Seq<char>>(order),
        weights::entry_named(h, names[n - 1]@, 0) == Some(i),
        0 <= i < h.len(),
        h[i].name@ == names[n - 1]@,
        forall|a: int| 0 <= a < n - 1 ==> reads_name(h, order, (#[trigger] names[a])@),
        forall|p: int|
            0 <= p < order.len() ==> (#[trigger] order[p]) < h.len() && is_selected(
                names,
                (n - 1) as nat,
                h[order[p] as int].name@,
            ),
    ensures
        ({
            let next = weights::reading_order(h, names, n)->Ok_0;
            &&& forall|a: int| 0 <= a < n ==> reads_name(h, next, (#[trigger] names[a])@)
            &&& forall|p: int|
                0 <= p < next.len() ==> (#[trigger] next[p]) < h.len() && is_selected(
                    names,
                    n,
                    h[next[p] as int].name@,
                )
        }),
{
    weights::law_reading_order(h, names, (n - 1) as nat);
    let at = weights::slot(h, order, h[i].start);
    weights::lemma_slot(h, order, h[i].start);
    let next = order.insert(at, i as usize);
    assert(weights::reading_order(h, names, n) == Ok::<Seq<usize>, Seq<char>>(next));
    assert(next[at] == i as usize);
    assert forall|a: int| 0 <= a < n implies reads_name(h, next, (#[trigger] names[a])@) by {
        if a < n - 1 {
            assert(reads_name(h, order, names[a]@));
            let p = choose|p: int|
                0 <= p < order.len() && (#[trigger] order[p]) < h.len() && h[order[p] as int].name@
                    == names[a]@;
            if p < at {
                assert(next[p] == order[p]);
            } else {
                assert(next[p + 1] == order[p]);
            }
        } else {
            assert(h[next[at] as int].name@ == names[a]@);
        }
    }
    assert forall|p: int| 0 <= p < next.len() implies (#[trigger] next[p]) < h.len()
        && is_selected(names, n, h[next[p] as int].name@) by {
        if p == at {
            assert(names[n - 1]@ == h[next[p] as int].name@);
        } else {
            let q = if p < at {
                p
            } else {
                p - 1
            };
            assert(next[p] == order[q]);
            assert(is_selected(names, (n - 1) as nat, h[order[q] as int].name@));
            let a = choose|a: int|
                0 <= a < n - 1 && (#[trigger] names[a])@ == h[order[q] as int].name@;
            assert(names[a]@ == h[next[p] as int].name@);
        }
    }
}

/// Law: what is left out where weights in eight bits are kept is the output layer and the seven
/// matrices of every block, and nothing else.
pub proof fn law_what_a_warm_load_leaves_out(name: Seq<char>, front: Seq<char>)
    ensures
        weights::skipped_when_warm("lm_head.weight"@),
        weights::skipped_when_warm(front + "self_attn.q_proj.weight"@),
        weights::skipped_when_warm(front + "self_attn.k_proj.weight"@),
        weights::skipped_when_warm(front + "self_attn.v_proj.weight"@),
        weights::skipped_when_warm(front + "self_attn.o_proj.weight"@),
        weights::skipped_when_warm(front + "mlp.gate_proj.weight"@),
        weights::skipped_when_warm(front + "mlp.up_proj.weight"@),
        weights::skipped_when_warm(front + "mlp.down_proj.weight"@),
        weights::skipped_when_warm(name) ==> name == "lm_head.weight"@ || exists|t: Seq<char>|
            name == #[trigger] (t + "self_attn.q_proj.weight"@) || name == t
                + "self_attn.k_proj.weight"@ || name == t + "self_attn.v_proj.weight"@ || name == t
                + "self_attn.o_proj.weight"@ || name == t + "mlp.gate_proj.weight"@ || name == t
                + "mlp.up_proj.weight"@ || name == t + "mlp.down_proj.weight"@,
{
    text_laws::law_ends_of_texts(name, front, "self_attn.q_proj.weight"@);
    text_laws::law_ends_of_texts(name, front, "self_attn.k_proj.weight"@);
    text_laws::law_ends_of_texts(name, front, "self_attn.v_proj.weight"@);
    text_laws::law_ends_of_texts(name, front, "self_attn.o_proj.weight"@);
    text_laws::law_ends_of_texts(name, front, "mlp.gate_proj.weight"@);
    text_laws::law_ends_of_texts(name, front, "mlp.up_proj.weight"@);
    text_laws::law_ends_of_texts(name, front, "mlp.down_proj.weight"@);
    if weights::skipped_when_warm(name) && name != "lm_head.weight"@ {
        let p = if text::has_suffix(name, "self_attn.q_proj.weight"@) {
            "self_attn.q_proj.weight"@
        } else if text::has_suffix(name, "self_attn.k_proj.weight"@) {
            "self_attn.k_proj.weight"@
        } else if text::has_suffix(name, "self_attn.v_proj.weight"@) {
            "self_attn.v_proj.weight"@
        } else if text::has_suffix(name, "self_attn.o_proj.weight"@) {
            "self_attn.o_proj.weight"@
        } else if text::has_suffix(name, "mlp.gate_proj.weight"@) {
            "mlp.gate_proj.weight"@
        } else if text::has_suffix(name, "mlp.up_proj.weight"@) {
            "mlp.up_proj.weight"@
        } else {
            "mlp.down_proj.weight"@
        };
        let t = name.take(name.len() - p.len());
        assert(name == t + p);
        assert(t + "self_attn.q_proj.weight"@ == t + "self_attn.q_proj.weight"@);
    }
}

/// Law: where weights in eight bits are kept, all other names of a header are read, in their order.
pub proof fn law_all_other_names_are_read(header: Seq<SafetensorsHeaderEntry>)
    ensures
        weights::warm_names_of(header) == header.filter(
            |e: SafetensorsHeaderEntry| !weights::skipped_when_warm(e.name@),
        ).map_values(|e: SafetensorsHeaderEntry| e.name@),
    decreases header.len(),
{
    reveal(Seq::filter);
    let keep = |e: SafetensorsHeaderEntry| !weights::skipped_when_warm(e.name@);
    let name = |e: SafetensorsHeaderEntry| e.name@;
    if header.len() == 0 {
        assert(header.filter(keep).map_values(name) =~= Seq::<Seq<char>>::empty());
    } else {
        law_all_other_names_are_read(header.drop_last());
        let before = header.drop_last().filter(keep);
        if keep(header.last()) {
            assert(header.filter(keep) == before.push(header.last()));
            assert(header.filter(keep).map_values(name) =~= before.map_values(name).push(
                header.last().name@,
            ));
        } else {
            assert(header.filter(keep) == before);
        }
    }
}

/// Law: the output layer bears its own weight where it has one, or one in eight bits was found for
/// it; only where it has none, and the model shares it, that of the embedding; without either there
/// is no model.
pub proof fn law_output_layer_bears_its_weight(
    w: Map<Seq<char>, LoadedView>,
    tie: bool,
    head: Option<Q8LinearWeight>,
    embed: Option<Q8LinearWeight>,
    l: Linear,
)
    requires
        qwen3::is_head(w, tie, head, embed, l),
    ensures
        block_build::holds_weight(w, "lm_head.weight"@, head, l) || (tie && head is None
            && block_build::holds_weight(w, "model.embed_tokens.weight"@, embed, l)),
        head is Some ==> l.q8_weight == head,
        head is None && !tie ==> w.contains_key("lm_head.weight"@),
        head is None && (w["lm_head.weight"@] matches LoadedView::F16 { shape, data } && shape.len()
            == 2 && data.len() == shape[0] * shape[1]) && w.contains_key("lm_head.weight"@) ==> {
            &&& l.source_name->0@ == "lm_head.weight"@
            &&& l.weight@ == w["lm_head.weight"@]->F16_data
        },
{
    if qwen3::head_tied(w, tie, head) {
        block_build::lemma_part_holds(w, "model.embed_tokens.weight"@, embed, l);
    } else {
        block_build::lemma_part_holds(w, "lm_head.weight"@, head, l);
    }
}

/// Law: there is an output layer where one of its own can be had, or, where the model shares it, that
/// of the embedding.
pub proof fn law_when_there_is_an_output_layer(
    w: Map<Seq<char>, LoadedView>,
    tie: bool,
    head: Option<Q8LinearWeight>,
    embed: Option<Q8LinearWeight>,
)
    ensures
        ({
            let own = head is Some || crate::model::linear::load_error(w, "lm_head.weight"@) is None;
            let shared = embed is Some || crate::model::linear::load_error(
                w,
                "model.embed_tokens.weight"@,
            ) is None;
            qwen3::head_error(w, tie, head, embed) is None <==> own || (tie && shared)
        }),
{
}

/// Law: a matrix makes a linear layer where it is there, has two axes and as many numbers as they
/// have places.
pub proof fn law_when_a_layer_can_be_loaded(w: Map<Seq<char>, LoadedView>, name: Seq<char>)
    ensures
        crate::model::linear::load_error(w, name) is None <==> match weights::linear_weight(w, name) {
            Ok(p) => p.0.len() == 2 && p.1.len() == p.0[0] * p.0[1],
            Err(_) => false,
        },
{
}

/// Law: a block can be built where each of its seven matrices was found in eight bits or can be
/// loaded, and each of its four normalizations can be had.
pub proof fn law_when_a_block_can_be_built(
    w: Map<Seq<char>, LoadedView>,
    layer: usize,
    x: BlockQ8Weights,
)
    ensures
        block_build::first_error(block_build::block_errors(w, layer, x), 0) is None <==> {
            let p = "model.layers."@ + text::dec(layer as nat) + "."@;
            &&& can_load(w, p + "self_attn.q_proj.weight"@, x.q_proj)
            &&& can_load(w, p + "self_attn.k_proj.weight"@, x.k_proj)
            &&& can_load(w, p + "self_attn.v_proj.weight"@, x.v_proj)
            &&& can_load(w, p + "self_attn.o_proj.weight"@, x.o_proj)
            &&& can_load(w, p + "mlp.gate_proj.weight"@, x.gate_proj)
            &&& can_load(w, p + "mlp.up_proj.weight"@, x.up_proj)
            &&& can_load(w, p + "mlp.down_proj.weight"@, x.down_proj)
            &&& weights::get_error(w, p + "self_attn.q_norm.weight"@) is None
            &&& weights::get_error(w, p + "self_attn.k_norm.weight"@) is None
            &&& weights::get_error(w, p + "input_layernorm.weight"@) is None
            &&& weights::get_error(w, p + "post_attention_layernorm.weight"@) is None
        },
{
    reveal_with_fuel(block_build::first_error, 12);
    let e = block_build::block_errors(w, layer, x);
    assert(e.len() == 11);
}

/// Whether a matrix was found in eight bits or can be loaded.
pub open spec fn can_load(
    w: Map<Seq<char>, LoadedView>,
    name: Seq<char>,
    found: Option<Q8LinearWeight>,
) -> bool {
    found is Some || crate::model::linear::load_error(w, name) is None
}

/// Law: a model can be built where its embedding, its last normalization and its output layer can be
/// had and every block can be built.
pub proof fn law_when_a_model_can_be_built(
    w: Map<Seq<char>, LoadedView>,
    tie: bool,
    x: Seq<BlockQ8Weights>,
    head: Option<Q8LinearWeight>,
    embed: Option<Q8LinearWeight>,
)
    ensures
        qwen3::model_error(w, tie, x, head, embed) is None <==> {
            &&& weights::get_error(w, "model.embed_tokens.weight"@) is None
            &&& weights::get_error(w, "model.norm.weight"@) is None
            &&& qwen3::head_error(w, tie, head, embed) is None
            &&& forall|i: int|
                0 <= i < x.len() ==> block_build::first_error(
                    block_build::block_errors(w, i as usize, #[trigger] x[i]),
                    0,
                ) is None
        },
{
    lemma_layers_error(w, x, 0);
}

proof fn lemma_layers_error(w: Map<Seq<char>, LoadedView>, x: Seq<BlockQ8Weights>, i: int)
    requires
        0 <= i,
    ensures
        qwen3::layers_error(w, x, i) is None <==> forall|k: int|
            i <= k < x.len() ==> block_build::first_error(
                block_build::block_errors(w, k as usize, #[trigger] x[k]),
                0,
            ) is None,
    decreases x.len() - i,
{
    if i < x.len() {
        lemma_layers_error(w, x, i + 1);
        if block_build::first_error(block_build::block_errors(w, i as usize, x[i]), 0) is None {
            assert(qwen3::layers_error(w, x, i) == qwen3::layers_error(w, x, i + 1));
        } else {
            assert(!(forall|k: int|
                i <= k < x.len() ==> block_build::first_error(
                    block_build::block_errors(w, k as usize, #[trigger] x[k]),
                    0,
                ) is None));
        }
    }
}

} // verus!
