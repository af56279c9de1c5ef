//! What holds of the weights in eight bits that are kept beside a model: how their files are laid
//! out and named, and how they are found, listed and counted.

use vstd::prelude::*;
use vstd::string::*;

use crate::error;
use crate::error::ErrorView;
use crate::model::q8_load;
use crate::model::q8_load::LoadEvents;
use crate::model::q8_sidecar;
use crate::model::q8_sidecar::{EntryView, SidecarView};
use crate::tensor::Q8LinearWeight;
use crate::text;

verus! {

/// The number in the eight bytes from place `i` on, the lowest first.
pub open spec fn number_at(b: Seq<u8>, i: int) -> int {
    b[i] + 256 * (b[i + 1] + 256 * (b[i + 2] + 256 * (b[i + 3] + 256 * (b[i + 4] + 256 * (b[i + 5]
        + 256 * (b[i + 6] + 256 * b[i + 7]))))))
}

/// Law: the file of a weight is the eight letters of its kind, the number of its rows and their
/// width in eight bytes each, the scales of the rows in four bytes each, and one byte for each
/// number in the order of the rows, negative ones in two's complement; and nothing else.
pub proof fn law_file_layout(w: Q8LinearWeight, r: int, k: int)
    requires
        w.well_formed(),
        0 <= r < w.out_features,
        0 <= k < w.out_features * w.in_features,
    ensures
        ({
            let b = q8_sidecar::encoded(w);
            let s = 24 + 4 * r;
            let q = 24 + 4 * w.out_features + k;
            &&& b.len() == 24 + 4 * w.out_features + w.out_features * w.in_features
            &&& b[0] == 'R' as u8 && b[1] == 'S' as u8 && b[2] == 'Q' as u8 && b[3] == '8' as u8
            &&& b[4] == 'W' as u8 && b[5] == '0' as u8 && b[6] == '0' as u8 && b[7] == '1' as u8
            &&& number_at(b, 8) == w.out_features
            &&& number_at(b, 16) == w.in_features
            &&& b[s] + 256 * (b[s + 1] + 256 * (b[s + 2] + 256 * b[s + 3])) == w.scales@[r]
            &&& w.qweight@[k] >= 0 ==> b[q] == w.qweight@[k]
            &&& w.qweight@[k] < 0 ==> b[q] == 256 + w.qweight@[k]
        }),
{
    lemma_layout_head(w);
    lemma_layout_body(w, r, k);
}

proof fn lemma_layout_head(w: Q8LinearWeight)
    ensures
        ({
            let b = q8_sidecar::encoded(w);
            &&& b.len() >= 24
            &&& b[0] == 'R' as u8 && b[1] == 'S' as u8 && b[2] == 'Q' as u8 && b[3] == '8' as u8
            &&& b[4] == 'W' as u8 && b[5] == '0' as u8 && b[6] == '0' as u8 && b[7] == '1' as u8
            &&& number_at(b, 8) == w.out_features
            &&& number_at(b, 16) == w.in_features
        }),
{
    q8_sidecar::lemma_header(w);
    let b = q8_sidecar::encoded(w);
    let h = b.take(8);
    let m = q8_sidecar::magic();
    assert(h[0] == m[0] && h[1] == m[1] && h[2] == m[2] && h[3] == m[3]);
    assert(h[4] == m[4] && h[5] == m[5] && h[6] == m[6] && h[7] == m[7]);
    let x = b.subrange(8, 16);
    let y = b.subrange(16, 24);
    assert(x[0] == b[8] && x[1] == b[9] && x[2] == b[10] && x[3] == b[11]);
    assert(x[4] == b[12] && x[5] == b[13] && x[6] == b[14] && x[7] == b[15]);
    assert(y[0] == b[16] && y[1] == b[17] && y[2] == b[18] && y[3] == b[19]);
    assert(y[4] == b[20] && y[5] == b[21] && y[6] == b[22] && y[7] == b[23]);
}

proof fn lemma_layout_body(w: Q8LinearWeight, r: int, k: int)
    requires
        w.well_formed(),
        0 <= r < w.out_features,
        0 <= k < w.out_features * w.in_features,
    ensures
        ({
            let b = q8_sidecar::encoded(w);
            let s = 24 + 4 * r;
            let q = 24 + 4 * w.out_features + k;
            &&& b.len() == 24 + 4 * w.out_features + w.out_features * w.in_features
            &&& b[s] + 256 * (b[s + 1] + 256 * (b[s + 2] + 256 * b[s + 3])) == w.scales@[r]
            &&& w.qweight@[k] >= 0 ==> b[q] == w.qweight@[k]
            &&& w.qweight@[k] < 0 ==> b[q] == 256 + w.qweight@[k]
        }),
{
    let b = q8_sidecar::encoded(w);
    let n = w.scales@[r] as int;
    let front = q8_sidecar::magic() + q8_sidecar::bytes64(w.out_features as int)
        + q8_sidecar::bytes64(w.in_features as int);
    let mid = q8_sidecar::scale_bytes(w.scales@);
    let back = q8_sidecar::weight_bytes(w.qweight@);
    assert(front.len() == 24);
    assert(b == front + mid + back);
    let s = 24 + 4 * r;
    reveal_with_fuel(q8_sidecar::byte_of, 5);
    assert(b[s] == mid[4 * r] && b[s + 1] == mid[4 * r + 1]);
    assert(b[s + 2] == mid[4 * r + 2] && b[s + 3] == mid[4 * r + 3]);
    assert(mid[4 * r] == q8_sidecar::byte_of(n, 0) && mid[4 * r + 1] == q8_sidecar::byte_of(n, 1));
    assert(mid[4 * r + 2] == q8_sidecar::byte_of(n, 2) && mid[4 * r + 3] == q8_sidecar::byte_of(
        n,
        3,
    ));
    let n1 = n / 256;
    let n2 = n1 / 256;
    let n3 = n2 / 256;
    assert(n3 < 256);
    assert(b[24 + 4 * w.out_features + k] == back[k]);
}

/// Whether a file starts with the eight letters of its kind.
pub open spec fn starts_as_q8(b: Seq<u8>) -> bool {
    &&& b.len() >= 8
    &&& b[0] == 'R' as u8 && b[1] == 'S' as u8 && b[2] == 'Q' as u8 && b[3] == '8' as u8
    &&& b[4] == 'W' as u8 && b[5] == '0' as u8 && b[6] == '0' as u8 && b[7] == '1' as u8
}

/// Law: a file holds a weight of the given shape if and only if it starts with the eight letters and
/// that shape and is long enough; and it then holds for each row the scale in its four bytes, and
/// for each place the number in its byte.  A file of another kind is refused by name, one of another
/// shape by both shapes, and one that ends too early as such.
pub proof fn law_file_is_read(b: Seq<u8>, out: usize, width: usize, path: Seq<char>, r: int, k: int)
    requires
        0 <= r < out,
        0 <= k < out * width,
        b.len() >= 24 ==> number_at(b, 8) <= usize::MAX && number_at(b, 16) <= usize::MAX,
    ensures
        ({
            let end = 24 + 4 * out;
            let s = 24 + 4 * r;
            let d = q8_sidecar::decoded(b, out, width, path);
            &&& d is Ok <==> starts_as_q8(b) && b.len() >= end + out * width && number_at(b, 8)
                == out && number_at(b, 16) == width
            &&& d matches Ok(p) ==> {
                &&& p.0.len() == out && p.1.len() == out * width
                &&& p.0[r] == b[s] + 256 * (b[s + 1] + 256 * (b[s + 2] + 256 * b[s + 3]))
                &&& b[end + k] < 128 ==> p.1[k] == b[end + k]
                &&& b[end + k] >= 128 ==> p.1[k] == b[end + k] - 256
            }
            &&& b.len() >= 8 && !starts_as_q8(b) ==> d == Err::<(Seq<u32>, Seq<i8>), ErrorView>(
                ErrorView::WeightError("Invalid Q8 sidecar magic in "@ + path),
            )
            &&& b.len() < 8 || (starts_as_q8(b) && b.len() < 24) ==> d == Err::<
                (Seq<u32>, Seq<i8>),
                ErrorView,
            >(ErrorView::Io("failed to fill whole buffer"@))
            &&& starts_as_q8(b) && b.len() >= 24 && (number_at(b, 8) != out || number_at(b, 16)
                != width) ==> (d matches Err(ErrorView::ShapeMismatch { expected, actual })
                && expected == seq![out, width] && actual == seq![
                number_at(b, 8) as usize,
                number_at(b, 16) as usize,
            ])
            &&& starts_as_q8(b) && 24 <= b.len() < end + out * width && number_at(b, 8) == out
                && number_at(b, 16) == width ==> d == Err::<(Seq<u32>, Seq<i8>), ErrorView>(
                ErrorView::Io("failed to fill whole buffer"@),
            )
        }),
{
    assert(out * width >= 0) by (nonlinear_arith)
        requires
            out >= 0,
            width >= 0,
    ;
    if b.len() >= 8 {
        let h = b.take(8);
        assert(forall|i: int| 0 <= i < 8 ==> #[trigger] h[i] == b[i]);
        assert(starts_as_q8(b) <==> h =~= q8_sidecar::magic()) by {
            let m = q8_sidecar::magic();
            if h =~= m {
                assert(h[0] == m[0] && h[1] == m[1] && h[2] == m[2] && h[3] == m[3]);
                assert(h[4] == m[4] && h[5] == m[5] && h[6] == m[6] && h[7] == m[7]);
            }
        }
    }
    if b.len() >= 24 {
        let x = b.subrange(8, 16);
        let y = b.subrange(16, 24);
        assert(forall|i: int| 0 <= i < 8 ==> #[trigger] x[i] == b[8 + i]);
        assert(forall|i: int| 0 <= i < 8 ==> #[trigger] y[i] == b[16 + i]);
    }
    if b.len() >= 24 + 4 * out {
        let z = b.subrange(24, 24 + 4 * out);
        assert(z[4 * r] == b[24 + 4 * r] && z[4 * r + 1] == b[24 + 4 * r + 1]);
        assert(z[4 * r + 2] == b[24 + 4 * r + 2] && z[4 * r + 3] == b[24 + 4 * r + 3]);
    }
}

/// Law: a hash starts from a fixed number and takes one byte after the other: the byte is mixed into
/// the low bits, and the whole is multiplied by a fixed prime, without what no longer fits.
pub proof fn law_hash_takes_bytes(bytes: Seq<u8>, b: u8)
    ensures
        q8_sidecar::fnv1a(Seq::empty()) == 14695981039346656037u64,
        q8_sidecar::fnv1a(bytes.push(b)) == ((q8_sidecar::fnv1a(bytes) ^ (b as u64)) as int
            * 1099511628211) % 0x1_0000_0000_0000_0000,
{
    assert(bytes.push(b).drop_last() =~= bytes);
}

/// Law: a weight is kept in a file that is named by the sixteen digits of the hash of its name in
/// UTF-8.
pub proof fn law_files_are_named_by_hash(name: Seq<char>)
    ensures
        q8_sidecar::file_of(name) == text::hex(
            q8_sidecar::fnv1a(vstd::utf8::encode_utf8(name)) as nat,
            16,
        ) + ".q8bin"@,
{
}

/// Law: the files that tell one model from another are its configuration, its weights in one file,
/// the index of its shards and the shards; and no others.
pub proof fn law_model_files(middle: Seq<char>, name: Seq<char>)
    ensures
        q8_sidecar::model_file("config.json"@),
        q8_sidecar::model_file("model.safetensors"@),
        q8_sidecar::model_file("model.safetensors.index.json"@),
        q8_sidecar::model_file("model-"@ + middle + ".safetensors"@),
        q8_sidecar::model_file(name) && name != "config.json"@ && name != "model.safetensors"@
            && name != "model.safetensors.index.json"@ ==> name.len() >= 12 && name.take(6)
            == "model-"@ && name.skip(name.len() - 12) == ".safetensors"@,
{
    reveal_strlit("model-");
    reveal_strlit(".safetensors");
    let s = "model-"@ + middle + ".safetensors"@;
    assert(s.take(6) =~= "model-"@);
    assert(s.skip(s.len() - 12) =~= ".safetensors"@);
    assert(s.subrange(0, 6) =~= "model-"@);
    assert(s.subrange(s.len() - 12, s.len() as int) =~= ".safetensors"@);
    if text::has_prefix(name, "model-"@) && text::has_suffix(name, ".safetensors"@) {
        assert(name.take(6) =~= name.subrange(0, 6));
        assert(name.skip(name.len() - 12) =~= name.subrange(name.len() - 12, name.len() as int));
    }
}

/// Law: what is known of a file names it, its length and when it was changed, with colons between.
pub proof fn law_stamp_tells_all(name: Seq<char>, len: u64, secs: u64, nanos: u32)
    ensures
        q8_sidecar::file_stamp(name, len, secs, nanos) == name + (":"@ + text::dec(len as nat) + (
        ":"@ + text::dec(secs as nat) + (":"@ + text::dec(nanos as nat)))),
{
    assert(q8_sidecar::file_stamp(name, len, secs, nanos) =~= name + (":"@ + text::dec(len as nat)
        + (":"@ + text::dec(secs as nat) + (":"@ + text::dec(nanos as nat)))));
}

/// Law: a text comes before another, or is the same, if and only if it ends where the two still
/// agree, or has the lesser character where they first differ.
pub proof fn law_text_order_is_by_the_first_difference(a: Seq<char>, b: Seq<char>, k: int)
    requires
        0 <= k <= a.len(),
        k <= b.len(),
        a.take(k) == b.take(k),
        k == a.len() || k == b.len() || a[k] != b[k],
    ensures
        q8_sidecar::in_text_order(a, b, 0) <==> (k == a.len() || (k < b.len() && (a[k] as u32) < (
        b[k] as u32))),
{
    lemma_order_from(a, b, k, 0);
}

proof fn lemma_char_number(c: char)
    ensures
        c as int == c as u32,
{
}

proof fn lemma_order_from(a: Seq<char>, b: Seq<char>, k: int, i: int)
    requires
        0 <= i <= k <= a.len(),
        k <= b.len(),
        a.take(k) == b.take(k),
        k == a.len() || k == b.len() || a[k] != b[k],
    ensures
        q8_sidecar::in_text_order(a, b, i) <==> (k == a.len() || (k < b.len() && (a[k] as u32) < (
        b[k] as u32))),
    decreases k - i,
{
    if i < k {
        assert(a[i] == a.take(k)[i] && b[i] == b.take(k)[i]);
        lemma_order_from(a, b, k, i + 1);
    } else if k < a.len() && k < b.len() {
        lemma_char_number(a[k]);
        lemma_char_number(b[k]);
    }
}

/// Law: the fingerprint of a model is the hash of what is known of its files, in the order of the
/// texts and with bars between, so that two lists of the same files give the same.
pub proof fn law_fingerprint_is_of_the_sorted_parts(parts: Seq<Seq<char>>, list: Seq<Seq<char>>)
    requires
        list == q8_sidecar::sorted_texts(parts),
    ensures
        q8_sidecar::texts_in_order(list),
        list.to_multiset() == parts.to_multiset(),
        q8_sidecar::fingerprint_of(parts) == text::hex(
            q8_sidecar::fnv1a(vstd::utf8::encode_utf8(text::listed(list, "|"@))) as nat,
            16,
        ),
{
    q8_sidecar::law_sorted(parts);
}

/// Law: the entry of a name is the first that bears it, and a list has none of a name that no entry
/// bears.
pub proof fn law_entry_is_found_by_name(s: Seq<EntryView>, name: Seq<char>, i: int)
    requires
        0 <= i,
    ensures
        match q8_sidecar::entry_place(s, name, i) {
            Some(k) => {
                &&& i <= k < s.len()
                &&& s[k].name == name
                &&& forall|j: int| i <= j < k ==> (#[trigger] s[j]).name != name
            },
            None => forall|j: int| i <= j < s.len() ==> (#[trigger] s[j]).name != name,
        },
    decreases s.len() - i,
{
    if i < s.len() && s[i].name != name {
        law_entry_is_found_by_name(s, name, i + 1);
    }
}

/// Law: a kept weight is read from the file of its entry, and only where that entry has the shape.
pub proof fn law_only_the_right_shape_is_read(
    c: SidecarView,
    name: Seq<char>,
    out: usize,
    width: usize,
    k: int,
)
    requires
        0 <= k < c.entries.len(),
        c.entries[k].name == name,
        forall|j: int| 0 <= j < k ==> (#[trigger] c.entries[j]).name != name,
    ensures
        c.entries[k].out_features == out && c.entries[k].in_features == width ==> q8_load::to_load(
            c,
            name,
            out,
            width,
        ) == Some(c.entries[k].file),
        c.entries[k].out_features != out || c.entries[k].in_features != width ==> q8_load::to_load(
            c,
            name,
            out,
            width,
        ) is None,
{
    law_entry_is_found_by_name(c.entries, name, 0);
}

/// Law: what is read of a file is the weight that it holds, with one more hit; or there is none, and
/// the name of the weight and the reason are noted.  Nothing else of the cache changes.
pub proof fn law_read_is_a_hit_or_a_fallback(
    c: SidecarView,
    name: Seq<char>,
    out: usize,
    width: usize,
    read: Result<Seq<u8>, Seq<char>>,
    path: Seq<char>,
)
    requires
        c.hits < usize::MAX,
    ensures
        ({
            let (w, d) = q8_load::read_outcome(c, name, out, width, read, path);
            &&& d.dir == c.dir && d.format == c.format && d.fingerprint == c.fingerprint
            &&& d.entries == c.entries && d.writes == c.writes
            &&& match w {
                Some(v) => {
                    &&& read is Ok
                    &&& q8_sidecar::decoded(read->Ok_0, out, width, path) == Ok::<
                        (Seq<u32>, Seq<i8>),
                        ErrorView,
                    >((v.scales, v.qweight))
                    &&& v.out_features == out && v.in_features == width
                    &&& d.hits == c.hits + 1 && d.fallbacks == c.fallbacks
                },
                None => {
                    &&& d.hits == c.hits
                    &&& d.fallbacks.len() == c.fallbacks.len() + 1
                    &&& d.fallbacks.drop_last() == c.fallbacks
                    &&& read matches Err(e) ==> d.fallbacks.last() == name
                        + ": sidecar read failed: "@ + error::error_text(ErrorView::Io(e))
                    &&& read matches Ok(b) ==> q8_sidecar::decoded(b, out, width, path) is Err
                        && d.fallbacks.last() == name + ": sidecar read failed: "@
                        + error::error_text(q8_sidecar::decoded(b, out, width, path)->Err_0)
                },
            }
        }),
{
    reveal_strlit(": ");
    reveal_strlit("sidecar read failed: ");
    reveal_strlit(": sidecar read failed: ");
    let (w, d) = q8_load::read_outcome(c, name, out, width, read, path);
    assert(": sidecar read failed: "@ =~= ": "@ + "sidecar read failed: "@);
    if w is None {
        let e: ErrorView = match read {
            Err(e) => ErrorView::Io(e),
            Ok(b) => q8_sidecar::decoded(b, out, width, path)->Err_0,
        };
        let words = error::error_text(e);
        assert(name + ": "@ + ("sidecar read failed: "@ + words) =~= name
            + ": sidecar read failed: "@ + words);
        assert(d.fallbacks.drop_last() =~= c.fallbacks);
    }
}

/// Law: a weight that is created is listed with its shape once its file is written, and counted
/// once the list is; where one of these fails, that is the result, and what comes behind it is left
/// undone.
pub proof fn law_created_is_kept(c: SidecarView, name: Seq<char>, ev: LoadEvents)
    requires
        c.writes < usize::MAX,
    ensures
        ({
            let (made, d) = q8_load::create_outcome(c, name, ev);
            let put = ev.created is Ok && ev.unwritten is None;
            &&& d.dir == c.dir && d.format == c.format && d.fingerprint == c.fingerprint
            &&& d.hits == c.hits && d.fallbacks == c.fallbacks
            &&& !put ==> d.entries == c.entries
            &&& put ==> exists|k: int|
                0 <= k < d.entries.len() && (#[trigger] d.entries[k]).name == name
                    && d.entries[k].file == q8_sidecar::file_of(name) && d.entries[k].out_features
                    == ev.created->Ok_0.out_features && d.entries[k].in_features
                    == ev.created->Ok_0.in_features
            &&& d.writes == c.writes + (if put && ev.unlisted is None {
                1int
            } else {
                0int
            })
            &&& made is Ok <==> put && ev.unlisted is None
            &&& made matches Err(e) ==> e == (if ev.created is Err {
                ev.created->Err_0
            } else if ev.unwritten is Some {
                ev.unwritten->0
            } else {
                ev.unlisted->0
            })
        }),
{
    let (made, d) = q8_load::create_outcome(c, name, ev);
    if ev.created is Ok && ev.unwritten is None {
        let e = EntryView {
            name,
            file: q8_sidecar::file_of(name),
            out_features: ev.created->Ok_0.out_features,
            in_features: ev.created->Ok_0.in_features,
        };
        q8_sidecar::law_stored_is_found(c.entries, e, name);
        law_entry_is_found_by_name(d.entries, name, 0);
        let k = q8_sidecar::entry_place(d.entries, name, 0)->0;
        assert(d.entries[k] == e);
    }
}

/// Law: a cache without entries is empty and of the only format there is.
pub proof fn law_empty_cache(dir: Seq<char>, fingerprint: Seq<char>)
    ensures
        ({
            let c = q8_sidecar::empty_sidecar(dir, fingerprint);
            &&& c.dir == dir && c.fingerprint == fingerprint
            &&& c.format == "rsinfer-q8-sidecar-v1"@
            &&& c.entries.len() == 0 && c.fallbacks.len() == 0
            &&& c.hits == 0 && c.writes == 0
        }),
{
}

} // verus!
