//! Weights in eight bits that are kept beside a model: their file format, the manifest that lists
//! them, and the fingerprint that ties them to the model.

use vstd::prelude::*;
use vstd::string::*;

use crate::error::{shape_mismatch, ErrorView, RsinferError};
use crate::gpu::pack;
use crate::model::weights;
use crate::model::weights::le64;
use crate::runtime;
use crate::tensor::dtypes;
use crate::tensor::dtypes::le32;
use crate::tensor::Q8LinearWeight;
use crate::text;

verus! {

/// The bytes with which a file starts, `RSQ8W001`.
pub open spec fn magic() -> Seq<u8> {
    seq![82u8, 83, 81, 56, 87, 48, 48, 49]
}

/// Byte `i` of a number, the lowest first.
pub open spec fn byte_of(n: int, i: int) -> u8
    decreases i,
{
    if i <= 0 {
        (n % 256) as u8
    } else {
        byte_of(n / 256, i - 1)
    }
}

/// The eight bytes of a number, the lowest first.
pub open spec fn bytes64(n: int) -> Seq<u8> {
    Seq::new(8, |i: int| byte_of(n, i))
}

/// The bytes of some scales.
pub open spec fn scale_bytes(s: Seq<u32>) -> Seq<u8> {
    Seq::new(4 * s.len(), |i: int| byte_of(s[i / 4] as int, i % 4))
}

/// The bytes of some signed bytes.
pub open spec fn weight_bytes(q: Seq<i8>) -> Seq<u8> {
    Seq::new(q.len(), |i: int| pack::bits_of(q[i]) as u8)
}

/// The file of a weight.
pub open spec fn encoded(w: Q8LinearWeight) -> Seq<u8> {
    magic() + bytes64(w.out_features as int) + bytes64(w.in_features as int) + scale_bytes(
        w.scales@,
    ) + weight_bytes(w.qweight@)
}

/// The message of a file that ends too early.
pub open spec fn too_short() -> ErrorView {
    ErrorView::Io("failed to fill whole buffer"@)
}

/// The scales and the signed bytes that a file holds, or why it holds none of the given shape.
pub open spec fn decoded(b: Seq<u8>, out: usize, width: usize, path: Seq<char>) -> Result<
    (Seq<u32>, Seq<i8>),
    ErrorView,
> {
    let stored_out = weights::word64(b.subrange(8, 16)) as usize;
    let stored_in = weights::word64(b.subrange(16, 24)) as usize;
    let end = 24 + 4 * out;
    if b.len() < 8 {
        Err(too_short())
    } else if b.take(8) != magic() {
        Err(ErrorView::WeightError("Invalid Q8 sidecar magic in "@ + path))
    } else if b.len() < 24 {
        Err(too_short())
    } else if stored_out != out || stored_in != width {
        Err(
            ErrorView::ShapeMismatch {
                expected: seq![out, width],
                actual: seq![stored_out, stored_in],
            },
        )
    } else if b.len() < end + out * width {
        Err(too_short())
    } else {
        Ok(
            (
                Seq::new(out as nat, |i: int| dtypes::word32(b.subrange(24, end), i)),
                Seq::new((out * width) as nat, |i: int| pack::signed(b[end + i] as int) as i8),
            ),
        )
    }
}

proof fn lemma_bytes64(n: int)
    requires
        0 <= n <= u64::MAX,
    ensures
        weights::word64(bytes64(n)) == n,
{
    reveal_with_fuel(byte_of, 9);
    let b = bytes64(n);
    let n1 = n / 256;
    let n2 = n1 / 256;
    let n3 = n2 / 256;
    let n4 = n3 / 256;
    let n5 = n4 / 256;
    let n6 = n5 / 256;
    let n7 = n6 / 256;
    assert(b[0] as int == n % 256 && b[1] as int == n1 % 256 && b[2] as int == n2 % 256);
    assert(b[3] as int == n3 % 256 && b[4] as int == n4 % 256 && b[5] as int == n5 % 256);
    assert(b[6] as int == n6 % 256 && b[7] as int == n7 % 256);
    assert(n7 < 256);
}

proof fn lemma_bytes32(w: u32)
    ensures
        byte_of(w as int, 0) + 256 * byte_of(w as int, 1) + 65536 * byte_of(w as int, 2) + 16777216
            * byte_of(w as int, 3) == w,
{
    reveal_with_fuel(byte_of, 5);
    let n = w as int;
    let n1 = n / 256;
    let n2 = n1 / 256;
    let n3 = n2 / 256;
    assert(n3 < 256);
}

/// The file of a weight starts with the magic bytes and its shape.
pub proof fn lemma_header(w: Q8LinearWeight)
    ensures
        ({
            let b = encoded(w);
            &&& b.len() >= 24
            &&& b.take(8) == magic()
            &&& weights::word64(b.subrange(8, 16)) == w.out_features
            &&& weights::word64(b.subrange(16, 24)) == w.in_features
        }),
{
    let b = encoded(w);
    assert(b.take(8) =~= magic());
    assert(b.subrange(8, 16) =~= bytes64(w.out_features as int));
    assert(b.subrange(16, 24) =~= bytes64(w.in_features as int));
    lemma_bytes64(w.out_features as int);
    lemma_bytes64(w.in_features as int);
}

/// Law: a weight that was written is read back, number for number.
pub proof fn law_read_gives_back_written(w: Q8LinearWeight, path: Seq<char>)
    requires
        w.well_formed(),
    ensures
        decoded(encoded(w), w.out_features, w.in_features, path) == Ok::<
            (Seq<u32>, Seq<i8>),
            ErrorView,
        >((w.scales@, w.qweight@)),
{
    let b = encoded(w);
    let out = w.out_features;
    let width = w.in_features;
    let end = 24 + 4 * out;
    lemma_header(w);
    assert(b.subrange(24, end) =~= scale_bytes(w.scales@));
    assert(out * width >= 0) by (nonlinear_arith)
        requires
            out >= 0,
            width >= 0,
    ;
    assert(b.len() == end + out * width);
    let scales = Seq::new(out as nat, |i: int| dtypes::word32(b.subrange(24, end), i));
    assert forall|i: int| 0 <= i < out implies scales[i] == w.scales@[i] by {
        lemma_bytes32(w.scales@[i]);
        let s = scale_bytes(w.scales@);
        assert(s[4 * i] == byte_of(w.scales@[i] as int, 0));
        assert(s[4 * i + 1] == byte_of(w.scales@[i] as int, 1));
        assert(s[4 * i + 2] == byte_of(w.scales@[i] as int, 2));
        assert(s[4 * i + 3] == byte_of(w.scales@[i] as int, 3));
    }
    assert(scales =~= w.scales@);
    let q = Seq::new((out * width) as nat, |i: int| pack::signed(b[end + i] as int) as i8);
    assert forall|i: int| 0 <= i < out * width implies q[i] == w.qweight@[i] by {
        assert(b[end + i] == weight_bytes(w.qweight@)[i]);
    }
    assert(q =~= w.qweight@);
}

fn push_bytes(out: &mut Vec<u8>, n: u64, count: usize)
    requires
        count <= 8,
    ensures
        final(out)@ == old(out)@ + Seq::new(count as nat, |i: int| byte_of(n as int, i)),
{
    let ghost before = out@;
    let mut rest: u64 = n;
    let mut i: usize = 0;
    assert(before + Seq::new(0, |i: int| byte_of(n as int, i)) =~= before);
    while i < count
        invariant
            i <= count,
            count <= 8,
            forall|k: int| k >= i ==> #[trigger] byte_of(n as int, k) == byte_of(
                rest as int,
                k - i,
            ),
            out@ == before + Seq::new(i as nat, |k: int| byte_of(n as int, k)),
        decreases count - i,
    {
        let ghost last = rest as int;
        out.push((rest % 256) as u8);
        rest = rest / 256;
        proof {
            assert(byte_of(n as int, i as int) == byte_of(last, 0));
            assert forall|k: int| k >= i + 1 implies #[trigger] byte_of(n as int, k) == byte_of(
                rest as int,
                k - (i + 1),
            ) by {
                assert(byte_of(n as int, k) == byte_of(last, k - i));
            }
            assert(out@ =~= before + Seq::new((i + 1) as nat, |k: int| byte_of(n as int, k)));
        }
        i += 1;
    }
}

/// The file of a weight.
pub fn encode_q8_weight(weight: &Q8LinearWeight) -> (r: Vec<u8>)
    ensures
        r@ == encoded(*weight),
{
    let mut out: Vec<u8> = vec![82, 83, 81, 56, 87, 48, 48, 49];
    assert(out@ =~= magic());
    push_bytes(&mut out, weight.out_features as u64, 8);
    push_bytes(&mut out, weight.in_features as u64, 8);
    let ghost head = out@;
    assert(head =~= magic() + bytes64(weight.out_features as int) + bytes64(
        weight.in_features as int,
    ));
    let mut i: usize = 0;
    assert(head + scale_bytes(weight.scales@).take(0) =~= head);
    while i < weight.scales.len()
        invariant
            i <= weight.scales@.len(),
            out@ == head + scale_bytes(weight.scales@).take(4 * i),
        decreases weight.scales@.len() - i,
    {
        push_bytes(&mut out, weight.scales[i] as u64, 4);
        i += 1;
        assert(out@ =~= head + scale_bytes(weight.scales@).take(4 * i));
    }
    let ghost body = out@;
    assert(body =~= head + scale_bytes(weight.scales@));
    let mut i: usize = 0;
    assert(body + weight_bytes(weight.qweight@).take(0) =~= body);
    while i < weight.qweight.len()
        invariant
            i <= weight.qweight@.len(),
            out@ == body + weight_bytes(weight.qweight@).take(i as int),
        decreases weight.qweight@.len() - i,
    {
        out.push(pack::bits(weight.qweight[i]) as u8);
        i += 1;
        assert(out@ =~= body + weight_bytes(weight.qweight@).take(i as int));
    }
    assert(out@ =~= encoded(*weight));
    out
}

fn short() -> (e: RsinferError)
    ensures
        e@ == too_short(),
{
    RsinferError::Io("failed to fill whole buffer".to_owned())
}

fn has_magic(bytes: &[u8]) -> (r: bool)
    requires
        bytes@.len() >= 8,
    ensures
        r == (bytes@.take(8) == magic()),
{
    let r = bytes[0] == 82 && bytes[1] == 83 && bytes[2] == 81 && bytes[3] == 56 && bytes[4] == 87
        && bytes[5] == 48 && bytes[6] == 48 && bytes[7] == 49;
    proof {
        if r {
            assert(bytes@.take(8) =~= magic());
        } else {
            let t = bytes@.take(8);
            let m = magic();
            assert(t[0] != m[0] || t[1] != m[1] || t[2] != m[2] || t[3] != m[3] || t[4] != m[4]
                || t[5] != m[5] || t[6] != m[6] || t[7] != m[7]);
        }
    }
    r
}

/// The weight that a file holds.
pub fn decode_q8_weight(bytes: &[u8], out_features: usize, in_features: usize, path: &str) -> (r:
    Result<Q8LinearWeight, RsinferError>)
    ensures
        match r {
            Ok(w) => {
                &&& w.out_features == out_features && w.in_features == in_features
                &&& w.well_formed()
                &&& decoded(bytes@, out_features, in_features, path@) == Ok::<
                    (Seq<u32>, Seq<i8>),
                    ErrorView,
                >((w.scales@, w.qweight@))
            },
            Err(e) => decoded(bytes@, out_features, in_features, path@) == Err::<
                (Seq<u32>, Seq<i8>),
                ErrorView,
            >(e@),
        },
{
    let n: usize = bytes.len();
    if n < 8 {
        return Err(short());
    }
    if !has_magic(bytes) {
        return Err(RsinferError::WeightError(text::joined("Invalid Q8 sidecar magic in ", path)));
    }
    if n < 24 {
        return Err(short());
    }
    let stored_out: usize = le64(bytes, 8) as usize;
    let stored_in: usize = le64(bytes, 16) as usize;
    if stored_out != out_features || stored_in != in_features {
        let expected: Vec<usize> = vec![out_features, in_features];
        let actual: Vec<usize> = vec![stored_out, stored_in];
        assert(expected@ =~= seq![out_features, in_features]);
        assert(actual@ =~= seq![stored_out, stored_in]);
        return Err(shape_mismatch(expected, actual));
    }
    assert(out_features * in_features >= 0) by (nonlinear_arith)
        requires
            out_features >= 0,
            in_features >= 0,
    ;
    if (n - 24) / 4 < out_features {
        return Err(short());
    }
    let end: usize = 24 + 4 * out_features;
    let total: usize = match out_features.checked_mul(in_features) {
        Some(t) => t,
        None => {
            return Err(short());
        },
    };
    if n - end < total {
        return Err(short());
    }
    let part = vstd::slice::slice_subrange(bytes, 24, end);
    let ghost result = decoded(bytes@, out_features, in_features, path@)->Ok_0;
    let mut scales: Vec<u32> = Vec::new();
    let mut i: usize = 0;
    while i < out_features
        invariant
            i <= out_features,
            part@.len() == 4 * out_features,
            scales@ == Seq::new(i as nat, |k: int| dtypes::word32(part@, k)),
        decreases out_features - i,
    {
        scales.push(le32(part, i));
        i += 1;
        assert(scales@ =~= Seq::new(i as nat, |k: int| dtypes::word32(part@, k)));
    }
    let mut qweight: Vec<i8> = Vec::new();
    let mut i: usize = 0;
    while i < total
        invariant
            i <= total,
            n == bytes@.len(),
            end + total <= n,
            qweight@ == Seq::new(i as nat, |k: int| pack::signed(bytes@[end + k] as int) as i8),
        decreases total - i,
    {
        let b: u8 = bytes[end + i];
        let v: i16 = if b >= 128 {
            b as i16 - 256
        } else {
            b as i16
        };
        qweight.push(v as i8);
        i += 1;
        assert(qweight@ =~= Seq::new(
            i as nat,
            |k: int| pack::signed(bytes@[end + k] as int) as i8,
        ));
    }
    assert(scales@ =~= result.0);
    assert(qweight@ =~= result.1);
    Ok(Q8LinearWeight { qweight, scales, out_features, in_features })
}

/// A hash of bytes after FNV-1a.
pub open spec fn fnv1a(bytes: Seq<u8>) -> u64
    decreases bytes.len(),
{
    if bytes.len() == 0 {
        0xcbf29ce484222325u64
    } else {
        (fnv1a(bytes.drop_last()) ^ (bytes.last() as u64)).wrapping_mul(0x100000001b3u64)
    }
}

/// A hash of bytes after FNV-1a.
pub fn fnv1a64(bytes: &[u8]) -> (r: u64)
    ensures
        r == fnv1a(bytes@),
{
    let mut hash: u64 = 0xcbf29ce484222325;
    let mut i: usize = 0;
    assert(bytes@.take(0) =~= Seq::<u8>::empty());
    while i < bytes.len()
        invariant
            i <= bytes@.len(),
            hash == fnv1a(bytes@.take(i as int)),
        decreases bytes@.len() - i,
    {
        assert(bytes@.take(i + 1).drop_last() =~= bytes@.take(i as int));
        hash = (hash ^ (bytes[i] as u64)).wrapping_mul(0x100000001b3);
        i += 1;
    }
    assert(bytes@.take(bytes@.len() as int) =~= bytes@);
    hash
}

/// The hash of a text, in sixteen hexadecimal digits.
pub open spec fn text_hash(s: Seq<char>) -> Seq<char> {
    text::hex(fnv1a(vstd::utf8::encode_utf8(s)) as nat, 16)
}

fn hash_text(s: &str) -> (r: String)
    ensures
        r@ == text_hash(s@),
{
    let mut out = "".to_owned();
    text::push_hex(&mut out, fnv1a64(s.as_bytes()), 16);
    proof {
        reveal_strlit("");
        assert(out@ =~= text_hash(s@));
    }
    out
}

/// The file in which the weight of the given name is kept.
pub open spec fn file_of(name: Seq<char>) -> Seq<char> {
    text_hash(name) + ".q8bin"@
}

/// The file in which the weight of the given name is kept.
pub fn sidecar_file(name: &str) -> (r: String)
    ensures
        r@ == file_of(name@),
{
    let mut s = hash_text(name);
    s.append(".q8bin");
    s
}

/// The directory beside a model that is named for it; `name` and `parent` are what the path of the
/// model gives, where it gives any.
pub fn default_sidecar_name(has_parent: bool, name: Option<&str>, model_dir: &str) -> (r: Result<
    String,
    RsinferError,
>)
    ensures
        match r {
            Ok(s) => has_parent && name is Some && s@ == name->0@ + ".rsinfer-q8"@,
            Err(e) => if !has_parent {
                e@ == ErrorView::WeightError(
                    "Cannot derive sidecar parent for model dir "@ + model_dir@,
                )
            } else {
                &&& name is None
                &&& e@ == ErrorView::WeightError(
                    "Cannot derive sidecar name for model dir "@ + model_dir@,
                )
            },
        },
{
    if !has_parent {
        return Err(
            RsinferError::WeightError(
                text::joined("Cannot derive sidecar parent for model dir ", model_dir),
            ),
        );
    }
    match name {
        Some(n) => Ok(text::joined(n, ".rsinfer-q8")),
        None => Err(
            RsinferError::WeightError(
                text::joined("Cannot derive sidecar name for model dir ", model_dir),
            ),
        ),
    }
}

/// Whether a file tells one model from another.
pub open spec fn model_file(name: Seq<char>) -> bool {
    ||| name == "config.json"@
    ||| name == "model.safetensors"@
    ||| name == "model.safetensors.index.json"@
    ||| text::has_prefix(name, "model-"@) && text::has_suffix(name, ".safetensors"@)
}

/// Whether a file tells one model from another.
pub fn is_model_file(name: &str) -> (r: bool)
    ensures
        r == model_file(name@),
{
    text::same_text(name, "config.json") || text::same_text(name, "model.safetensors")
        || text::same_text(name, "model.safetensors.index.json") || (text::starts_with(
        name,
        "model-",
    ) && text::ends_with(name, ".safetensors"))
}

/// What is known of a file: its name, its length and when it was changed.
pub open spec fn file_stamp(name: Seq<char>, len: u64, secs: u64, nanos: u32) -> Seq<char> {
    name + ":"@ + text::dec(len as nat) + ":"@ + text::dec(secs as nat) + ":"@ + text::dec(
        nanos as nat,
    )
}

/// What is known of a file.
pub fn fingerprint_part(name: &str, len: u64, secs: u64, nanos: u32) -> (r: String)
    ensures
        r@ == file_stamp(name@, len, secs, nanos),
{
    let mut s = text::joined(name, ":");
    text::push_dec(&mut s, len as u128);
    s.append(":");
    text::push_dec(&mut s, secs as u128);
    s.append(":");
    text::push_dec(&mut s, nanos as u128);
    s
}

/// Whether a text comes before another or is the same, compared from place `i` on.
pub open spec fn in_text_order(a: Seq<char>, b: Seq<char>, i: int) -> bool
    decreases a.len() - i,
{
    if i < 0 || i >= a.len() {
        true
    } else if i >= b.len() {
        false
    } else if a[i] as u32 != b[i] as u32 {
        (a[i] as u32) < (b[i] as u32)
    } else {
        in_text_order(a, b, i + 1)
    }
}

fn text_in_order(a: &[char], b: &[char]) -> (r: bool)
    ensures
        r == in_text_order(a@, b@, 0),
{
    let mut i: usize = 0;
    while i < a.len()
        invariant
            i <= a@.len(),
            in_text_order(a@, b@, 0) == in_text_order(a@, b@, i as int),
        decreases a@.len() - i,
    {
        if i >= b.len() {
            return false;
        }
        let x: u32 = a[i] as u32;
        let y: u32 = b[i] as u32;
        if x != y {
            return x < y;
        }
        i += 1;
    }
    true
}

/// Where a text goes in a list in order: behind all that come before it or are the same.
pub open spec fn text_slot(list: Seq<Seq<char>>, s: Seq<char>) -> int
    decreases list.len(),
{
    if list.len() == 0 || in_text_order(list.last(), s, 0) {
        list.len() as int
    } else {
        text_slot(list.drop_last(), s)
    }
}

/// Some texts in order.
pub open spec fn sorted_texts(list: Seq<Seq<char>>) -> Seq<Seq<char>>
    decreases list.len(),
{
    if list.len() == 0 {
        Seq::empty()
    } else {
        let before = sorted_texts(list.drop_last());
        before.insert(text_slot(before, list.last()), list.last())
    }
}

/// Whether a list of texts is in order.
pub open spec fn texts_in_order(list: Seq<Seq<char>>) -> bool {
    forall|a: int, b: int|
        0 <= a < b < list.len() ==> in_text_order(#[trigger] list[a], #[trigger] list[b], 0)
}

proof fn lemma_text_order_total(a: Seq<char>, b: Seq<char>, i: int)
    requires
        0 <= i,
    ensures
        in_text_order(a, b, i) || in_text_order(b, a, i),
    decreases a.len() - i,
{
    if i < a.len() && i < b.len() && a[i] as u32 == b[i] as u32 {
        lemma_text_order_total(a, b, i + 1);
    }
}

proof fn lemma_text_order_chain(a: Seq<char>, b: Seq<char>, c: Seq<char>, i: int)
    requires
        0 <= i,
        in_text_order(a, b, i),
        in_text_order(b, c, i),
    ensures
        in_text_order(a, c, i),
    decreases a.len() - i,
{
    if i < a.len() && i < b.len() && i < c.len() && a[i] as u32 == b[i] as u32 && b[i] as u32 == c[i] as u32 {
        lemma_text_order_chain(a, b, c, i + 1);
    }
}

proof fn lemma_text_slot(list: Seq<Seq<char>>, s: Seq<char>)
    requires
        texts_in_order(list),
    ensures
        0 <= text_slot(list, s) <= list.len(),
        forall|a: int| 0 <= a < text_slot(list, s) ==> in_text_order(#[trigger] list[a], s, 0),
        forall|a: int|
            text_slot(list, s) <= a < list.len() ==> in_text_order(s, #[trigger] list[a], 0),
    decreases list.len(),
{
    if list.len() > 0 {
        let t = list.drop_last();
        assert(texts_in_order(t)) by {
            assert forall|a: int, b: int| 0 <= a < b < t.len() implies in_text_order(
                #[trigger] t[a],
                #[trigger] t[b],
                0,
            ) by {
                assert(t[a] == list[a] && t[b] == list[b]);
            }
        }
        if in_text_order(list.last(), s, 0) {
            assert forall|a: int| 0 <= a < list.len() implies in_text_order(
                #[trigger] list[a],
                s,
                0,
            ) by {
                if a < list.len() - 1 {
                    assert(in_text_order(list[a], list[list.len() - 1], 0));
                    lemma_text_order_chain(list[a], list.last(), s, 0);
                }
            }
        } else {
            lemma_text_slot(t, s);
            lemma_text_order_total(list.last(), s, 0);
            assert forall|a: int| 0 <= a < text_slot(list, s) implies in_text_order(
                #[trigger] list[a],
                s,
                0,
            ) by {
                assert(t[a] == list[a]);
            }
            assert forall|a: int| text_slot(list, s) <= a < list.len() implies in_text_order(
                s,
                #[trigger] list[a],
                0,
            ) by {
                if a < t.len() {
                    assert(t[a] == list[a]);
                }
            }
        }
    }
}

/// Law: the texts come out in order, each as often as it went in.
pub proof fn law_sorted(list: Seq<Seq<char>>)
    ensures
        texts_in_order(sorted_texts(list)),
        sorted_texts(list).len() == list.len(),
        sorted_texts(list).to_multiset() == list.to_multiset(),
    decreases list.len(),
{
    if list.len() == 0 {
        assert(sorted_texts(list) =~= list);
    } else {
        law_sorted(list.drop_last());
        let before = sorted_texts(list.drop_last());
        let s = list.last();
        lemma_text_slot(before, s);
        assert(list =~= list.drop_last().push(s));
        list.drop_last().to_multiset_ensures();
        before.to_multiset_ensures();
        vstd::seq_lib::to_multiset_insert(before, text_slot(before, s), s);
        let p = text_slot(before, s);
        let after = before.insert(p, s);
        assert forall|a: int, b: int| 0 <= a < b < after.len() implies in_text_order(
            #[trigger] after[a],
            #[trigger] after[b],
            0,
        ) by {
            if a < p && b > p {
                assert(in_text_order(before[a], before[b - 1], 0));
            } else if a > p {
                assert(in_text_order(before[a - 1], before[b - 1], 0));
            } else if b < p {
                assert(in_text_order(before[a], before[b], 0));
            } else if a == p {
                assert(in_text_order(s, before[b - 1], 0));
            } else {
                assert(in_text_order(before[a], s, 0));
            }
        }
    }
}

/// The fingerprint of a model, from what is known of its files, in whatever order they come.
pub open spec fn fingerprint_of(parts: Seq<Seq<char>>) -> Seq<char> {
    text_hash(text::listed(sorted_texts(parts), "|"@))
}

/// The fingerprint of a model, from what is known of its files.
pub fn fingerprint(parts: &[String]) -> (r: String)
    ensures
        r@ == fingerprint_of(runtime::texts(parts@)),
{
    let ghost all = runtime::texts(parts@);
    let mut order: Vec<Vec<char>> = Vec::new();
    let ghost mut views: Seq<Seq<char>> = Seq::empty();
    let mut i: usize = 0;
    assert(all.take(0) =~= Seq::<Seq<char>>::empty());
    while i < parts.len()
        invariant
            i <= parts@.len(),
            all == runtime::texts(parts@),
            views == sorted_texts(all.take(i as int)),
            order@.len() == views.len(),
            forall|k: int| 0 <= k < views.len() ==> (#[trigger] order@[k])@ == views[k],
        decreases parts@.len() - i,
    {
        let s = text::chars_of(parts[i].as_str());
        proof {
            assert(all.take(i + 1).drop_last() =~= all.take(i as int));
            assert(all.take(i + 1).last() == s@);
            law_sorted(all.take(i as int));
        }
        let mut p: usize = order.len();
        assert(views.take(views.len() as int) =~= views);
        let mut moving = true;
        while moving && p > 0
            invariant
                p <= order@.len(),
                order@.len() == views.len(),
                forall|k: int| 0 <= k < views.len() ==> (#[trigger] order@[k])@ == views[k],
                moving ==> text_slot(views, s@) == text_slot(views.take(p as int), s@),
                !moving ==> text_slot(views, s@) == p,
            decreases p + (if moving { 1int } else { 0int }),
        {
            assert(views.take(p as int).last() == views[p - 1]);
            assert(order@[p - 1]@ == views[p - 1]);
            if text_in_order(&order[p - 1], &s) {
                moving = false;
            } else {
                assert(views.take(p as int).drop_last() =~= views.take(p - 1));
                p -= 1;
            }
        }
        let ghost before = order@;
        let ghost sv = s@;
        order.insert(p, s);
        proof {
            let next = views.insert(p as int, sv);
            assert forall|k: int| 0 <= k < next.len() implies (#[trigger] order@[k])@ == next[k] by {
                if k < p {
                    assert(before[k]@ == views[k]);
                } else if k > p {
                    assert(before[k - 1]@ == views[k - 1]);
                }
            }
            views = next;
        }
        i += 1;
    }
    assert(all.take(all.len() as int) =~= all);
    let mut strings: Vec<String> = Vec::new();
    let mut i: usize = 0;
    while i < order.len()
        invariant
            i <= order@.len(),
            order@.len() == views.len(),
            forall|k: int| 0 <= k < views.len() ==> (#[trigger] order@[k])@ == views[k],
            strings@.len() == i,
            forall|k: int| 0 <= k < i ==> (#[trigger] strings@[k])@ == views[k],
        decreases order@.len() - i,
    {
        assert(order@[i as int]@ == views[i as int]);
        strings.push(text::string_of(&order[i]));
        i += 1;
    }
    assert(strings@.map_values(|s: String| s@) =~= views);
    let joined = text::join_texts(&strings, "|");
    hash_text(joined.as_str())
}

/// One weight that is kept.
#[derive(Debug, Clone)]
pub struct Q8SidecarEntry {
    pub name: String,
    pub file: String,
    pub out_features: usize,
    pub in_features: usize,
}

/// The mathematical value of a weight that is kept.
pub struct EntryView {
    pub name: Seq<char>,
    pub file: Seq<char>,
    pub out_features: usize,
    pub in_features: usize,
}

impl View for Q8SidecarEntry {
    type V = EntryView;

    open spec fn view(&self) -> EntryView {
        EntryView {
            name: self.name@,
            file: self.file@,
            out_features: self.out_features,
            in_features: self.in_features,
        }
    }
}

/// The list of the weights that are kept for a model.
#[derive(Debug)]
pub struct Q8SidecarManifest {
    pub format: String,
    pub model_fingerprint: String,
    pub entries: Vec<Q8SidecarEntry>,
}

/// The weights that are kept, and what became of them.
#[derive(Debug)]
pub struct Q8SidecarCache {
    pub dir: String,
    pub manifest: Q8SidecarManifest,
    pub hits: usize,
    pub writes: usize,
    pub fallbacks: Vec<String>,
}

/// What became of the weights that are kept.
#[derive(Clone, Debug)]
pub struct Q8SidecarReport {
    pub dir: String,
    pub hits: usize,
    pub writes: usize,
    pub fallbacks: Vec<String>,
}

/// The mathematical value of the weights that are kept.
#[verifier::ext_equal]
pub struct SidecarView {
    pub dir: Seq<char>,
    pub format: Seq<char>,
    pub fingerprint: Seq<char>,
    pub entries: Seq<EntryView>,
    pub hits: usize,
    pub writes: usize,
    pub fallbacks: Seq<Seq<char>>,
}

/// The values of a list of entries.
pub open spec fn entry_views(s: Seq<Q8SidecarEntry>) -> Seq<EntryView> {
    s.map_values(|e: Q8SidecarEntry| e@)
}

impl View for Q8SidecarCache {
    type V = SidecarView;

    open spec fn view(&self) -> SidecarView {
        SidecarView {
            dir: self.dir@,
            format: self.manifest.format@,
            fingerprint: self.manifest.model_fingerprint@,
            entries: entry_views(self.manifest.entries@),
            hits: self.hits,
            writes: self.writes,
            fallbacks: runtime::texts(self.fallbacks@),
        }
    }
}

/// The place of the entry with the given name, from `i` on.
pub open spec fn entry_place(s: Seq<EntryView>, name: Seq<char>, i: int) -> Option<int>
    decreases s.len() - i,
{
    if i < 0 || i >= s.len() {
        None
    } else if s[i].name == name {
        Some(i)
    } else {
        entry_place(s, name, i + 1)
    }
}

/// The entries with one more, in place of one that had its name.
pub open spec fn with_entry(s: Seq<EntryView>, e: EntryView) -> Seq<EntryView> {
    match entry_place(s, e.name, 0) {
        Some(i) => s.update(i, e),
        None => s.push(e),
    }
}

/// A cache without entries.
pub open spec fn empty_sidecar(dir: Seq<char>, fingerprint: Seq<char>) -> SidecarView {
    SidecarView {
        dir,
        format: "rsinfer-q8-sidecar-v1"@,
        fingerprint,
        entries: Seq::empty(),
        hits: 0,
        writes: 0,
        fallbacks: Seq::empty(),
    }
}

/// A cache with one more fallback.
pub open spec fn fallen_back(c: SidecarView, name: Seq<char>, err: Seq<char>) -> SidecarView {
    SidecarView { fallbacks: c.fallbacks.push(name + ": "@ + err), ..c }
}

proof fn lemma_entry_place(s: Seq<EntryView>, name: Seq<char>, i: int)
    requires
        0 <= i,
    ensures
        entry_place(s, name, i) matches Some(k) ==> i <= k < s.len() && s[k].name == name,
        entry_place(s, name, i) is None ==> forall|k: int|
            i <= k < s.len() ==> (#[trigger] s[k]).name != name,
    decreases s.len() - i,
{
    if i < s.len() && s[i].name != name {
        lemma_entry_place(s, name, i + 1);
    }
}

/// Law: a weight that was stored is found again under its name, with its shape and its file, and
/// no other entry is lost.
pub proof fn law_stored_is_found(s: Seq<EntryView>, e: EntryView, other: Seq<char>)
    ensures
        ({
            let t = with_entry(s, e);
            &&& entry_place(t, e.name, 0) is Some
            &&& t[entry_place(t, e.name, 0)->0] == e
            &&& other != e.name ==> match entry_place(s, other, 0) {
                Some(k) => entry_place(t, other, 0) == Some(k) && t[k] == s[k],
                None => entry_place(t, other, 0) is None,
            }
        }),
{
    let t = with_entry(s, e);
    lemma_entry_place(s, e.name, 0);
    match entry_place(s, e.name, 0) {
        Some(i) => {
            lemma_place_kept(s, t, e.name, 0);
            if other != e.name {
                lemma_place_kept(s, t, other, 0);
                lemma_entry_place(s, other, 0);
            }
        },
        None => {
            lemma_place_pushed(s, e, e.name, 0);
            if other != e.name {
                lemma_place_pushed(s, e, other, 0);
                lemma_entry_place(s, other, 0);
            }
        },
    }
}

proof fn lemma_place_kept(s: Seq<EntryView>, t: Seq<EntryView>, name: Seq<char>, i: int)
    requires
        0 <= i,
        s.len() == t.len(),
        forall|k: int| 0 <= k < s.len() ==> (#[trigger] s[k]).name == (#[trigger] t[k]).name,
    ensures
        entry_place(s, name, i) == entry_place(t, name, i),
    decreases s.len() - i,
{
    if i < s.len() {
        assert(s[i].name == t[i].name);
        lemma_place_kept(s, t, name, i + 1);
    }
}

proof fn lemma_place_pushed(s: Seq<EntryView>, e: EntryView, name: Seq<char>, i: int)
    requires
        0 <= i <= s.len(),
    ensures
        entry_place(s.push(e), name, i) == (match entry_place(s, name, i) {
            Some(k) => Some(k),
            None => if e.name == name {
                Some(s.len() as int)
            } else {
                None
            },
        }),
    decreases s.len() - i,
{
    if i < s.len() {
        assert(s.push(e)[i] == s[i]);
        lemma_place_pushed(s, e, name, i + 1);
    } else {
        assert(s.push(e)[i] == e);
        assert(entry_place(s.push(e), name, i + 1) is None);
    }
}

impl Q8SidecarManifest {
    /// A manifest without entries.
    pub fn new(fingerprint: &str) -> (r: Q8SidecarManifest)
        ensures
            r.format@ == "rsinfer-q8-sidecar-v1"@,
            r.model_fingerprint@ == fingerprint@,
            r.entries@.len() == 0,
    {
        Q8SidecarManifest {
            format: "rsinfer-q8-sidecar-v1".to_owned(),
            model_fingerprint: fingerprint.to_owned(),
            entries: Vec::new(),
        }
    }
}

impl Q8SidecarCache {
    /// Opens a cache: with the manifest that was found where it is that of the model, and an empty
    /// one where it is not.
    pub fn open(dir: &str, found: Option<Q8SidecarManifest>, fingerprint: &str) -> (r: Q8SidecarCache)
        ensures
            r@ == (match found {
                Some(m) if m.model_fingerprint@ == fingerprint@ => SidecarView {
                    format: m.format@,
                    entries: entry_views(m.entries@),
                    ..empty_sidecar(dir@, fingerprint@)
                },
                _ => empty_sidecar(dir@, fingerprint@),
            }),
    {
        let fallbacks: Vec<String> = Vec::new();
        assert(runtime::texts(fallbacks@) =~= Seq::<Seq<char>>::empty());
        match found {
            Some(m) => {
                if text::same_text(m.model_fingerprint.as_str(), fingerprint) {
                    return Q8SidecarCache {
                        dir: dir.to_owned(),
                        manifest: m,
                        hits: 0,
                        writes: 0,
                        fallbacks,
                    };
                }
            },
            None => {},
        }
        let manifest = Q8SidecarManifest::new(fingerprint);
        assert(entry_views(manifest.entries@) =~= Seq::<EntryView>::empty());
        Q8SidecarCache { dir: dir.to_owned(), manifest, hits: 0, writes: 0, fallbacks }
    }

    fn place(&self, name: &str) -> (r: Option<usize>)
        ensures
            match r {
                Some(i) => i < self.manifest.entries@.len() && entry_place(
                    self@.entries,
                    name@,
                    0,
                ) == Some(i as int),
                None => entry_place(self@.entries, name@, 0) is None,
            },
    {
        let ghost v = self@.entries;
        let mut i: usize = 0;
        while i < self.manifest.entries.len()
            invariant
                i <= self.manifest.entries@.len(),
                v == entry_views(self.manifest.entries@),
                entry_place(v, name@, 0) == entry_place(v, name@, i as int),
            decreases self.manifest.entries@.len() - i,
        {
            assert(v[i as int] == self.manifest.entries@[i as int]@);
            if text::same_text(self.manifest.entries[i].name.as_str(), name) {
                return Some(i);
            }
            i += 1;
        }
        None
    }

    /// The entry of a weight, whatever its shape.
    pub fn load_existing(&self, name: &str) -> (r: Option<&Q8SidecarEntry>)
        ensures
            match r {
                Some(e) => {
                    &&& entry_place(self@.entries, name@, 0) is Some
                    &&& e@ == self@.entries[entry_place(self@.entries, name@, 0)->0]
                },
                None => entry_place(self@.entries, name@, 0) is None,
            },
    {
        match self.place(name) {
            Some(i) => Some(&self.manifest.entries[i]),
            None => None,
        }
    }

    /// The file to read a weight of the given shape from, if it is kept.
    pub fn file_to_load(&self, name: &str, out_features: usize, in_features: usize) -> (r: Option<
        String,
    >)
        ensures
            ({
                let p = entry_place(self@.entries, name@, 0);
                match r {
                    Some(f) => {
                        &&& p is Some
                        &&& {
                            let e = self@.entries[p->0];
                            e.out_features == out_features && e.in_features == in_features && f@
                                == e.file
                        }
                    },
                    None => p is None || self@.entries[p->0].out_features != out_features
                        || self@.entries[p->0].in_features != in_features,
                }
            }),
    {
        match self.place(name) {
            Some(i) => {
                let e = &self.manifest.entries[i];
                assert(self@.entries[i as int] == e@);
                if e.out_features != out_features || e.in_features != in_features {
                    None
                } else {
                    Some(e.file.clone())
                }
            },
            None => None,
        }
    }

    /// Takes what was read of a weight: the bytes of its file, or the words of the error.  A weight
    /// counts as a hit, anything else as a fallback.
    pub fn accept(
        &mut self,
        name: &str,
        out_features: usize,
        in_features: usize,
        read: Result<Vec<u8>, String>,
        path: &str,
    ) -> (r: Option<Q8LinearWeight>)
        requires
            old(self)@.hits < usize::MAX,
        ensures
            ({
                let result: Result<(Seq<u32>, Seq<i8>), ErrorView> = match read {
                    Ok(b) => decoded(b@, out_features, in_features, path@),
                    Err(e) => Err(ErrorView::Io(e@)),
                };
                match r {
                    Some(w) => {
                        &&& result == Ok::<(Seq<u32>, Seq<i8>), ErrorView>(
                            (w.scales@, w.qweight@),
                        )
                        &&& w.out_features == out_features && w.in_features == in_features
                        &&& final(self)@ == (SidecarView {
                            hits: (old(self)@.hits + 1) as usize,
                            ..old(self)@
                        })
                    },
                    None => {
                        &&& result is Err
                        &&& final(self)@ == fallen_back(
                            old(self)@,
                            name@,
                            "sidecar read failed: "@ + crate::error::error_text(result->Err_0),
                        )
                    },
                }
            }),
    {
        let loaded = match read {
            Ok(bytes) => decode_q8_weight(&bytes, out_features, in_features, path),
            Err(e) => Err(RsinferError::Io(e)),
        };
        match loaded {
            Ok(w) => {
                self.hits += 1;
                Some(w)
            },
            Err(e) => {
                let words = text::joined("sidecar read failed: ", e.message().as_str());
                self.record_fallback(name, words.as_str());
                None
            },
        }
    }

    /// Lists a weight whose file was written.
    pub fn store(&mut self, name: &str, weight: &Q8LinearWeight)
        ensures
            final(self)@ == (SidecarView {
                entries: with_entry(
                    old(self)@.entries,
                    EntryView {
                        name: name@,
                        file: file_of(name@),
                        out_features: weight.out_features,
                        in_features: weight.in_features,
                    },
                ),
                ..old(self)@
            }),
    {
        let entry = Q8SidecarEntry {
            name: name.to_owned(),
            file: sidecar_file(name),
            out_features: weight.out_features,
            in_features: weight.in_features,
        };
        let ghost before = self@.entries;
        let ghost v = entry@;
        match self.place(name) {
            Some(i) => {
                self.manifest.entries.set(i, entry);
                assert(self@.entries =~= before.update(i as int, v));
            },
            None => {
                self.manifest.entries.push(entry);
                assert(self@.entries =~= before.push(v));
            },
        }
    }

    /// Counts a weight that was written and listed.
    pub fn count_write(&mut self)
        requires
            old(self)@.writes < usize::MAX,
        ensures
            final(self)@ == (SidecarView {
                writes: (old(self)@.writes + 1) as usize,
                ..old(self)@
            }),
    {
        self.writes += 1;
    }

    /// Notes that a weight could not be kept or read.
    pub fn record_fallback(&mut self, name: &str, err: &str)
        ensures
            final(self)@ == fallen_back(old(self)@, name@, err@),
    {
        let mut s = text::joined(name, ": ");
        s.append(err);
        let ghost before = self@.fallbacks;
        let ghost words = s@;
        self.fallbacks.push(s);
        assert(self@.fallbacks =~= before.push(words));
    }

    /// What became of the weights that are kept.
    pub fn report(&self) -> (r: Q8SidecarReport)
        ensures
            r.dir@ == self@.dir,
            r.hits == self@.hits,
            r.writes == self@.writes,
            runtime::texts(r.fallbacks@) == self@.fallbacks,
    {
        let mut fallbacks: Vec<String> = Vec::new();
        let mut i: usize = 0;
        while i < self.fallbacks.len()
            invariant
                i <= self.fallbacks@.len(),
                fallbacks@.len() == i,
                forall|j: int| 0 <= j < i ==> (#[trigger] fallbacks@[j])@ == self.fallbacks@[j]@,
            decreases self.fallbacks@.len() - i,
        {
            fallbacks.push(self.fallbacks[i].clone());
            i += 1;
        }
        assert(runtime::texts(fallbacks@) =~= self@.fallbacks);
        Q8SidecarReport { dir: self.dir.clone(), hits: self.hits, writes: self.writes, fallbacks }
    }
}

} // verus!
