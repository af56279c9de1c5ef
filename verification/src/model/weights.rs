//! The weights of a model: what a safetensors file holds, and how tensors are taken out of it.

use vstd::prelude::*;
use vstd::string::*;

use crate::error::{ErrorView, RsinferError};
use crate::gpu::resident;
use crate::tensor::dtypes;
use crate::tensor::dtypes::{f16_bytes_to_f16, f16_slice_to_f32, f32_slice_to_f16};
use crate::tensor::tensor;
use crate::tensor::Tensor;
use crate::text;

verus! {

/// A weight: a tensor in single precision, or half-precision bit patterns as they were stored.
#[derive(Clone, Debug)]
pub enum LoadedTensor {
    Tensor(Tensor),
    F16 { shape: Vec<usize>, data: Vec<u16> },
}

/// The mathematical value of a weight.
pub enum LoadedView {
    Tensor { dims: Seq<usize>, values: Seq<u32>, row_major: bool },
    F16 { shape: Seq<usize>, data: Seq<u16> },
}

impl View for LoadedTensor {
    type V = LoadedView;

    open spec fn view(&self) -> LoadedView {
        match self {
            LoadedTensor::Tensor(t) => LoadedView::Tensor {
                dims: t.dims(),
                values: t.values(),
                row_major: t.row_major(),
            },
            LoadedTensor::F16 { shape, data } => LoadedView::F16 { shape: shape@, data: data@ },
        }
    }
}

/// The numbers of a weight in single precision, in their order in memory; none where a
/// transposed tensor keeps them in another order.
pub open spec fn in_memory(v: LoadedView) -> Seq<u32> {
    match v {
        LoadedView::Tensor { values, row_major, .. } => if row_major {
            values
        } else {
            Seq::empty()
        },
        LoadedView::F16 { data, .. } => data.map_values(|h: u16| dtypes::widened(h)),
    }
}

/// The shape of a weight.
pub open spec fn shape_of(v: LoadedView) -> Seq<usize> {
    match v {
        LoadedView::Tensor { dims, .. } => dims,
        LoadedView::F16 { shape, .. } => shape,
    }
}

/// The numbers of a weight in single precision.
pub open spec fn numbers_of(v: LoadedView) -> Seq<u32> {
    match v {
        LoadedView::Tensor { values, .. } => values,
        LoadedView::F16 { data, .. } => data.map_values(|h: u16| dtypes::widened(h)),
    }
}

/// Why a weight cannot be a tensor.
pub open spec fn tensor_error(v: LoadedView) -> Option<ErrorView> {
    match v {
        LoadedView::Tensor { .. } => None,
        LoadedView::F16 { shape, data } => tensor::build_error(shape, data.len()),
    }
}

impl LoadedTensor {
    /// The weight as a tensor in single precision.
    pub fn to_tensor(&self) -> (r: Result<Tensor, RsinferError>)
        ensures
            match r {
                Ok(t) => {
                    &&& tensor_error(self@) is None
                    &&& t.dims() == shape_of(self@)
                    &&& t.values() == numbers_of(self@)
                    &&& resident::contiguous(t) == in_memory(self@)
                },
                Err(e) => tensor_error(self@) == Some(e@),
            },
    {
        match self {
            LoadedTensor::Tensor(t) => Ok(t.clone()),
            LoadedTensor::F16 { shape, data } => {
                let words = f16_slice_to_f32(data);
                Tensor::from_f32_slice(shape, &words)
            },
        }
    }
}

/// The number format of a stored tensor.
#[derive(Debug)]
pub enum StoredDtype {
    F16,
    F32,
    BF16,
    Other(String),
}

/// The mathematical value of a number format.
pub enum StoredView {
    F16,
    F32,
    BF16,
    Other(Seq<char>),
}

impl View for StoredDtype {
    type V = StoredView;

    open spec fn view(&self) -> StoredView {
        match self {
            StoredDtype::F16 => StoredView::F16,
            StoredDtype::F32 => StoredView::F32,
            StoredDtype::BF16 => StoredView::BF16,
            StoredDtype::Other(s) => StoredView::Other(s@),
        }
    }
}

/// The number format with the given name.
pub open spec fn dtype_named(name: Seq<char>) -> StoredView {
    if name == "F16"@ {
        StoredView::F16
    } else if name == "F32"@ {
        StoredView::F32
    } else if name == "BF16"@ {
        StoredView::BF16
    } else {
        StoredView::Other(name)
    }
}

fn dtype_by_name(name: &str) -> (r: StoredDtype)
    ensures
        r@ == dtype_named(name@),
{
    if text::same_text(name, "F16") {
        StoredDtype::F16
    } else if text::same_text(name, "F32") {
        StoredDtype::F32
    } else if text::same_text(name, "BF16") {
        StoredDtype::BF16
    } else {
        StoredDtype::Other(name.to_owned())
    }
}

/// The weight that stored bytes stand for, or why they stand for none.
pub open spec fn converted(shape: Seq<usize>, dtype: StoredView, data: Seq<u8>, name: Seq<char>)
    -> Result<LoadedView, ErrorView> {
    match dtype {
        StoredView::F16 => Ok(
            LoadedView::F16 {
                shape,
                data: Seq::new(data.len() / 2, |i: int| dtypes::word16(data, i)),
            },
        ),
        StoredView::F32 => match tensor::build_error(shape, data.len() / 4) {
            Some(e) => Err(e),
            None => Ok(
                LoadedView::Tensor {
                    dims: shape,
                    values: Seq::new(data.len() / 4, |i: int| dtypes::word32(data, i)),
                    row_major: true,
                },
            ),
        },
        StoredView::BF16 => match tensor::build_error(shape, data.len() / 2) {
            Some(e) => Err(e),
            None => Ok(
                LoadedView::Tensor {
                    dims: shape,
                    values: Seq::new(
                        data.len() / 2,
                        |i: int| dtypes::bf16_widened(dtypes::word16(data, i)),
                    ),
                    row_major: true,
                },
            ),
        },
        StoredView::Other(d) => Err(
            ErrorView::Unsupported(
                "Unsupported dtype "@ + d + " for tensor '"@ + name + "'"@,
            ),
        ),
    }
}

/// The weight that stored bytes stand for.
pub fn convert_tensor(shape: &[usize], dtype: &StoredDtype, data: &[u8], name: &str) -> (r: Result<
    LoadedTensor,
    RsinferError,
>)
    ensures
        match r {
            Ok(t) => converted(shape@, dtype@, data@, name@) == Ok::<LoadedView, ErrorView>(t@),
            Err(e) => converted(shape@, dtype@, data@, name@) == Err::<LoadedView, ErrorView>(e@),
        },
{
    match dtype {
        StoredDtype::F32 => match Tensor::from_f32_bytes(shape, data) {
            Ok(t) => Ok(LoadedTensor::Tensor(t)),
            Err(e) => Err(e),
        },
        StoredDtype::F16 => Ok(
            LoadedTensor::F16 {
                shape: vstd::slice::slice_to_vec(shape),
                data: f16_bytes_to_f16(data),
            },
        ),
        StoredDtype::BF16 => match Tensor::from_bf16_bytes(shape, data) {
            Ok(t) => Ok(LoadedTensor::Tensor(t)),
            Err(e) => Err(e),
        },
        StoredDtype::Other(d) => {
            let mut s = text::joined("Unsupported dtype ", d.as_str());
            s.append(" for tensor '");
            s.append(name);
            s.append("'");
            Err(RsinferError::Unsupported(s))
        },
    }
}

/// Reads the name of a number format that a header gives.
pub fn parse_safetensors_dtype(dtype: &str, name: &str) -> (r: Result<StoredDtype, RsinferError>)
    ensures
        match r {
            Ok(d) => d@ == dtype_named(dtype@) && !(d@ is Other),
            Err(e) => {
                &&& dtype_named(dtype@) is Other
                &&& e@ == ErrorView::Unsupported(
                    "Unsupported dtype '"@ + dtype@ + "' for tensor '"@ + name@ + "'"@,
                )
            },
        },
{
    match dtype_by_name(dtype) {
        StoredDtype::Other(d) => {
            let mut s = text::joined("Unsupported dtype '", d.as_str());
            s.append("' for tensor '");
            s.append(name);
            s.append("'");
            Err(RsinferError::Unsupported(s))
        },
        known => Ok(known),
    }
}

/// The weights of a model by their names.  No name occurs twice.
#[derive(Debug)]
pub struct WeightMap {
    entries: Vec<(String, LoadedTensor)>,
}

/// The weights that a list of pairs gives; a later pair replaces an earlier one.
pub open spec fn folded(s: Seq<(String, LoadedTensor)>) -> Map<Seq<char>, LoadedView>
    decreases s.len(),
{
    if s.len() == 0 {
        Map::empty()
    } else {
        folded(s.drop_last()).insert(s.last().0@, s.last().1@)
    }
}

/// No name occurs twice.
pub open spec fn distinct_names(s: Seq<(String, LoadedTensor)>) -> bool {
    forall|i: int, j: int|
        0 <= i < j < s.len() ==> (#[trigger] s[i]).0@ != (#[trigger] s[j]).0@
}

proof fn lemma_folded_has(s: Seq<(String, LoadedTensor)>, i: int)
    requires
        distinct_names(s),
        0 <= i < s.len(),
    ensures
        folded(s).contains_pair(s[i].0@, s[i].1@),
    decreases s.len(),
{
    if i < s.len() - 1 {
        let t = s.drop_last();
        assert(distinct_names(t)) by {
            assert forall|a: int, b: int| 0 <= a < b < t.len() implies (#[trigger] t[a]).0@
                != (#[trigger] t[b]).0@ by {
                assert(t[a] == s[a] && t[b] == s[b]);
            }
        }
        lemma_folded_has(t, i);
        assert(t[i] == s[i]);
        assert(s[i].0@ != s[s.len() - 1].0@);
    }
}

proof fn lemma_folded_dom(s: Seq<(String, LoadedTensor)>, k: Seq<char>)
    ensures
        folded(s).contains_key(k) <==> exists|i: int| 0 <= i < s.len() && (#[trigger] s[i]).0@ == k,
    decreases s.len(),
{
    if s.len() > 0 {
        let t = s.drop_last();
        lemma_folded_dom(t, k);
        if folded(t).contains_key(k) {
            let i = choose|i: int| 0 <= i < t.len() && (#[trigger] t[i]).0@ == k;
            assert(s[i].0@ == k);
        }
        if s.last().0@ == k {
            assert(s[s.len() - 1].0@ == k);
        }
        if exists|i: int| 0 <= i < s.len() && (#[trigger] s[i]).0@ == k {
            let i = choose|i: int| 0 <= i < s.len() && (#[trigger] s[i]).0@ == k;
            if i < t.len() {
                assert(t[i].0@ == k);
            }
        }
    }
}

impl View for WeightMap {
    type V = Map<Seq<char>, LoadedView>;

    closed spec fn view(&self) -> Map<Seq<char>, LoadedView> {
        folded(self.entries@)
    }
}

impl WeightMap {
    #[verifier::type_invariant]
    spec fn unique(self) -> bool {
        distinct_names(self.entries@)
    }

    /// No weights.
    pub fn new() -> (r: WeightMap)
        ensures
            r@ == Map::<Seq<char>, LoadedView>::empty(),
    {
        WeightMap { entries: Vec::new() }
    }

    /// The weight with the given name.
    pub fn get(&self, name: &str) -> (r: Option<&LoadedTensor>)
        ensures
            match r {
                Some(t) => self@.contains_pair(name@, t@),
                None => !self@.contains_key(name@),
            },
    {
        proof {
            use_type_invariant(self);
        }
        let mut i: usize = 0;
        while i < self.entries.len()
            invariant
                i <= self.entries@.len(),
                distinct_names(self.entries@),
                forall|j: int| 0 <= j < i ==> (#[trigger] self.entries@[j]).0@ != name@,
            decreases self.entries@.len() - i,
        {
            if text::same_text(self.entries[i].0.as_str(), name) {
                proof {
                    lemma_folded_has(self.entries@, i as int);
                }
                return Some(&self.entries[i].1);
            }
            i += 1;
        }
        proof {
            lemma_folded_dom(self.entries@, name@);
        }
        None
    }

    /// The weights with one more, in place of one that had its name.
    pub fn with(self, name: String, tensor: LoadedTensor) -> (r: WeightMap)
        ensures
            r@ == self@.insert(name@, tensor@),
    {
        proof {
            use_type_invariant(&self);
        }
        let mut entries = self.entries;
        let ghost before = entries@;
        let mut i: usize = 0;
        while i < entries.len()
            invariant
                i <= entries@.len(),
                entries@ == before,
                before == self.entries@,
                distinct_names(before),
                forall|j: int| 0 <= j < i ==> (#[trigger] before[j]).0@ != name@,
            decreases entries@.len() - i,
        {
            if text::same_text(entries[i].0.as_str(), name.as_str()) {
                let ghost view = tensor@;
                entries.set(i, (name, tensor));
                proof {
                    let after = entries@;
                    assert forall|a: int, b: int| 0 <= a < b < after.len() implies (
                    #[trigger] after[a]).0@ != (#[trigger] after[b]).0@ by {
                        assert(before[a].0@ != before[b].0@);
                    }
                    assert forall|k: Seq<char>| #[trigger] folded(after).contains_key(k) <==> folded(
                        before,
                    ).insert(name@, view).contains_key(k) by {
                        lemma_same_names(before, after, k);
                        lemma_folded_dom(before, k);
                        if k == name@ {
                            assert(before[i as int].0@ == k);
                        }
                    }
                    assert forall|k: Seq<char>| #[trigger] folded(after).contains_key(k) implies folded(
                        after,
                    )[k] == folded(before).insert(name@, view)[k] by {
                        lemma_folded_dom(after, k);
                        let j = choose|j: int| 0 <= j < after.len() && (#[trigger] after[j]).0@ == k;
                        lemma_folded_has(after, j);
                        if j != i {
                            lemma_folded_has(before, j);
                            assert(before[i as int].0@ == name@);
                            if j < i {
                                assert(before[j].0@ != before[i as int].0@);
                            } else {
                                assert(before[i as int].0@ != before[j].0@);
                            }
                        }
                    }
                    assert(folded(after) =~= folded(before).insert(name@, view));
                }
                return WeightMap { entries };
            }
            i += 1;
        }
        entries.push((name, tensor));
        proof {
            let after = entries@;
            assert forall|a: int, b: int| 0 <= a < b < after.len() implies (#[trigger] after[a]).0@
                != (#[trigger] after[b]).0@ by {
                if b < before.len() {
                    assert(before[a].0@ != before[b].0@);
                } else {
                    assert(before[a].0@ != name@);
                }
            }
            assert(after.drop_last() =~= before);
        }
        WeightMap { entries }
    }
}

proof fn lemma_same_names(
    a: Seq<(String, LoadedTensor)>,
    b: Seq<(String, LoadedTensor)>,
    k: Seq<char>,
)
    requires
        a.len() == b.len(),
        forall|i: int| 0 <= i < a.len() ==> (#[trigger] a[i]).0@ == (#[trigger] b[i]).0@,
    ensures
        folded(a).contains_key(k) <==> folded(b).contains_key(k),
{
    lemma_folded_dom(a, k);
    lemma_folded_dom(b, k);
    if folded(a).contains_key(k) {
        let i = choose|i: int| 0 <= i < a.len() && (#[trigger] a[i]).0@ == k;
        assert(b[i].0@ == k);
    }
    if folded(b).contains_key(k) {
        let i = choose|i: int| 0 <= i < b.len() && (#[trigger] b[i]).0@ == k;
        assert(a[i].0@ == k);
    }
}

/// The error that names a missing weight.
pub open spec fn missing_weight(name: Seq<char>) -> ErrorView {
    ErrorView::WeightError("Weight '"@ + name + "' not found"@)
}

/// Why a weight cannot be had as a tensor.
pub open spec fn get_error(w: Map<Seq<char>, LoadedView>, name: Seq<char>) -> Option<ErrorView> {
    if !w.contains_key(name) {
        Some(missing_weight(name))
    } else {
        tensor_error(w[name])
    }
}

fn missing(name: &str) -> (e: RsinferError)
    ensures
        e@ == missing_weight(name@),
{
    let mut s = text::joined("Weight '", name);
    s.append("' not found");
    RsinferError::WeightError(s)
}

/// The weight with the given name as a tensor.
pub fn get_weight(weights: &WeightMap, name: &str) -> (r: Result<Tensor, RsinferError>)
    ensures
        match r {
            Ok(t) => {
                &&& get_error(weights@, name@) is None
                &&& t.dims() == shape_of(weights@[name@])
                &&& t.values() == numbers_of(weights@[name@])
                &&& resident::contiguous(t) == in_memory(weights@[name@])
            },
            Err(e) => get_error(weights@, name@) == Some(e@),
        },
{
    match weights.get(name) {
        Some(w) => w.to_tensor(),
        None => Err(missing(name)),
    }
}

/// A weight in half precision, and why there is none.
pub open spec fn linear_weight(w: Map<Seq<char>, LoadedView>, name: Seq<char>) -> Result<
    (Seq<usize>, Seq<u16>),
    ErrorView,
> {
    match w[name] {
        LoadedView::F16 { shape, data } if w.contains_key(name) && shape.len() == 2 => Ok(
            (shape, data),
        ),
        v => match get_error(w, name) {
            Some(e) => Err(e),
            None => Ok((shape_of(v), in_memory(v).map_values(|s: u32| dtypes::narrowed(s)))),
        },
    }
}

/// The weight with the given name in half precision, with its shape.
pub fn get_linear_weight_f16(weights: &WeightMap, name: &str) -> (r: Result<
    (Vec<usize>, Vec<u16>),
    RsinferError,
>)
    ensures
        match r {
            Ok(p) => linear_weight(weights@, name@) == Ok::<(Seq<usize>, Seq<u16>), ErrorView>(
                (p.0@, p.1@),
            ),
            Err(e) => linear_weight(weights@, name@) == Err::<(Seq<usize>, Seq<u16>), ErrorView>(
                e@,
            ),
        },
{
    let weight = match weights.get(name) {
        Some(w) => w,
        None => {
            return Err(missing(name));
        },
    };
    match weight {
        LoadedTensor::F16 { shape, data } => {
            if shape.len() == 2 {
                return Ok(
                    (vstd::slice::slice_to_vec(shape), vstd::slice::slice_to_vec(data)),
                );
            }
        },
        LoadedTensor::Tensor(_) => {},
    }
    match weight.to_tensor() {
        Ok(t) => Ok((vstd::slice::slice_to_vec(t.shape()), f32_slice_to_f16(t.as_slice()))),
        Err(e) => Err(e),
    }
}

/// Law: a matrix that was stored in half precision comes back bit for bit.
pub proof fn law_half_weights_come_back(
    w: Map<Seq<char>, LoadedView>,
    name: Seq<char>,
    shape: Seq<usize>,
    bytes: Seq<u8>,
)
    requires
        shape.len() == 2,
    ensures
        ({
            let stored = converted(shape, StoredView::F16, bytes, name);
            &&& stored is Ok
            &&& linear_weight(w.insert(name, stored->Ok_0), name) == Ok::<
                (Seq<usize>, Seq<u16>),
                ErrorView,
            >((shape, Seq::new(bytes.len() / 2, |i: int| dtypes::word16(bytes, i))))
        }),
{
}

/// A tensor as a safetensors file holds it.
#[derive(Debug)]
pub struct RawTensor {
    pub name: String,
    pub shape: Vec<usize>,
    pub dtype: String,
    pub data: Vec<u8>,
}

/// The mathematical value of what is stored under a name.
pub struct RawView {
    pub shape: Seq<usize>,
    pub dtype: Seq<char>,
    pub data: Seq<u8>,
}

impl RawTensor {
    /// What is stored under the name.
    pub open spec fn stored(self) -> RawView {
        RawView { shape: self.shape@, dtype: self.dtype@, data: self.data@ }
    }
}

/// The tensors that a safetensors file holds, by their names; nothing where the bytes are no such
/// file.
pub uninterp spec fn safetensors_contents(bytes: Seq<u8>) -> Option<Map<Seq<char>, RawView>>;

/// Whether a list holds each tensor of a file once, under its name, and nothing else.
pub open spec fn lists(l: Seq<RawTensor>, m: Map<Seq<char>, RawView>) -> bool {
    &&& forall|i: int, j: int|
        0 <= i < j < l.len() ==> (#[trigger] l[i]).name@ != (#[trigger] l[j]).name@
    &&& forall|i: int| 0 <= i < l.len() ==> m.contains_pair((#[trigger] l[i]).name@, l[i].stored())
    &&& forall|k: Seq<char>| #[trigger]
        m.contains_key(k) ==> exists|i: int| 0 <= i < l.len() && (#[trigger] l[i]).name@ == k
}

/// `safetensors::SafeTensors::deserialize` with `SafeTensors::tensors`: the tensors of a file,
/// each with its shape, the name of its number format and its bytes.  They come in the order in
/// which a hash map is walked, so the order is left open, and so are the words of an error.
#[verifier::external_body]
fn parse_safetensors(data: &[u8]) -> (r: Result<Vec<RawTensor>, String>)
    ensures
        match r {
            Ok(l) => {
                &&& safetensors_contents(data@) is Some
                &&& lists(l@, safetensors_contents(data@)->0)
            },
            Err(_) => safetensors_contents(data@) is None,
        },
{
    match safetensors::SafeTensors::deserialize(data) {
        Ok(file) => Ok(
            file.tensors().into_iter().map(|(name, view)| RawTensor {
                name,
                shape: view.shape().to_vec(),
                dtype: format!("{:?}", view.dtype()),
                data: view.data().to_vec(),
            }).collect(),
        ),
        Err(e) => Err(e.to_string()),
    }
}

/// The weight that a stored tensor stands for.
pub open spec fn raw_converted(name: Seq<char>, r: RawView) -> Result<LoadedView, ErrorView> {
    converted(r.shape, dtype_named(r.dtype), r.data, name)
}

/// The weights with the first `n` tensors of a list, or the error of the first that cannot be
/// converted.
pub open spec fn with_tensors(w: Map<Seq<char>, LoadedView>, l: Seq<RawTensor>, n: nat) -> Result<
    Map<Seq<char>, LoadedView>,
    ErrorView,
>
    decreases n,
{
    if n == 0 {
        Ok(w)
    } else {
        let t = l[n - 1];
        match with_tensors(w, l, (n - 1) as nat) {
            Err(e) => Err(e),
            Ok(m) => match raw_converted(t.name@, t.stored()) {
                Err(e) => Err(e),
                Ok(v) => Ok(m.insert(t.name@, v)),
            },
        }
    }
}

proof fn lemma_with_tensors_error(w: Map<Seq<char>, LoadedView>, l: Seq<RawTensor>, i: nat, n: nat)
    requires
        i <= n,
        with_tensors(w, l, i) is Err,
    ensures
        with_tensors(w, l, n) == with_tensors(w, l, i),
    decreases n - i,
{
    if i < n {
        lemma_with_tensors_error(w, l, i, (n - 1) as nat);
    }
}

/// Adds stored tensors to the weights.
pub fn add_tensors(weights: WeightMap, list: Vec<RawTensor>) -> (r: Result<WeightMap, RsinferError>)
    ensures
        match r {
            Ok(w) => with_tensors(weights@, list@, list@.len()) == Ok::<
                Map<Seq<char>, LoadedView>,
                ErrorView,
            >(w@),
            Err(e) => with_tensors(weights@, list@, list@.len()) == Err::<
                Map<Seq<char>, LoadedView>,
                ErrorView,
            >(e@),
        },
{
    let ghost start = weights@;
    let mut all = weights;
    let mut i: usize = 0;
    while i < list.len()
        invariant
            i <= list@.len(),
            start == weights@,
            with_tensors(start, list@, i as nat) == Ok::<Map<Seq<char>, LoadedView>, ErrorView>(
                all@,
            ),
        decreases list@.len() - i,
    {
        let t = &list[i];
        let dtype = dtype_by_name(t.dtype.as_str());
        match convert_tensor(&t.shape, &dtype, &t.data, t.name.as_str()) {
            Ok(v) => {
                all = all.with(t.name.clone(), v);
            },
            Err(e) => {
                proof {
                    lemma_with_tensors_error(start, list@, (i + 1) as nat, list@.len());
                }
                return Err(e);
            },
        }
        i += 1;
    }
    Ok(all)
}

/// Adds the tensors of a safetensors file to the weights.  The file's name stands before the
/// words of an error where it is one of several.
pub fn load_safetensors(weights: WeightMap, data: &[u8], shard: Option<&str>) -> (r: Result<
    WeightMap,
    RsinferError,
>)
    ensures
        match r {
            Ok(w) => {
                &&& safetensors_contents(data@) is Some
                &&& {
                    let m = safetensors_contents(data@)->0;
                    &&& forall|k: Seq<char>| #[trigger]
                        m.contains_key(k) ==> raw_converted(k, m[k]) == Ok::<LoadedView, ErrorView>(
                            w@[k],
                        ) && w@.contains_key(k)
                    &&& forall|k: Seq<char>| #[trigger]
                        w@.contains_key(k) ==> m.contains_key(k) || weights@.contains_pair(k, w@[k])
                    &&& forall|k: Seq<char>| #[trigger]
                        weights@.contains_key(k) ==> w@.contains_key(k)
                }
            },
            Err(e) => match safetensors_contents(data@) {
                None => e@ is SafeTensors && (shard matches Some(s) ==> text::has_prefix(
                    e@->SafeTensors_0,
                    s@ + ": "@,
                )),
                Some(m) => exists|k: Seq<char>|
                    m.contains_key(k) && #[trigger] raw_converted(k, m[k]) == Err::<
                        LoadedView,
                        ErrorView,
                    >(e@),
            },
        },
{
    let list = match parse_safetensors(data) {
        Ok(l) => l,
        Err(e) => {
            let words = match shard {
                Some(s) => {
                    let mut m = text::joined(s, ": ");
                    m.append(e.as_str());
                    proof {
                        let p = s@ + ": "@;
                        assert(m@ =~= p + e@);
                        assert(m@.take(p.len() as int) =~= p);
                    }
                    m
                },
                None => e,
            };
            return Err(RsinferError::SafeTensors(words));
        },
    };
    let ghost m = safetensors_contents(data@)->0;
    let ghost l = list@;
    let r = add_tensors(weights, list);
    proof {
        lemma_listed(weights@, l, l.len(), m);
        if r is Ok {
            assert forall|k: Seq<char>| #[trigger] m.contains_key(k) implies raw_converted(k, m[k])
                == Ok::<LoadedView, ErrorView>(r->Ok_0@[k]) && r->Ok_0@.contains_key(k) by {
                let i = choose|i: int| 0 <= i < l.len() && (#[trigger] l[i]).name@ == k;
                assert(m.contains_pair(l[i].name@, l[i].stored()));
            }
        }
    }
    r
}

proof fn lemma_listed(
    w: Map<Seq<char>, LoadedView>,
    l: Seq<RawTensor>,
    n: nat,
    m: Map<Seq<char>, RawView>,
)
    requires
        lists(l, m),
        n <= l.len(),
    ensures
        match with_tensors(w, l, n) {
            Err(e) => exists|k: Seq<char>|
                m.contains_key(k) && #[trigger] raw_converted(k, m[k]) == Err::<
                    LoadedView,
                    ErrorView,
                >(e),
            Ok(all) => {
                &&& forall|i: int|
                    0 <= i < n ==> all.contains_key((#[trigger] l[i]).name@) && raw_converted(
                        l[i].name@,
                        l[i].stored(),
                    ) == Ok::<LoadedView, ErrorView>(all[l[i].name@])
                &&& forall|k: Seq<char>| #[trigger]
                    all.contains_key(k) ==> m.contains_key(k) || w.contains_pair(k, all[k])
                &&& forall|k: Seq<char>| #[trigger] w.contains_key(k) ==> all.contains_key(k)
            },
        },
    decreases n,
{
    if n > 0 {
        let k0 = (n - 1) as nat;
        lemma_listed(w, l, k0, m);
        let t = l[n - 1];
        assert(m.contains_pair(t.name@, t.stored()));
        match with_tensors(w, l, n) {
            Err(e) => {
                if with_tensors(w, l, k0) is Ok {
                    assert(raw_converted(t.name@, m[t.name@]) == Err::<LoadedView, ErrorView>(e));
                }
            },
            Ok(all) => {
                assert forall|i: int| 0 <= i < n implies all.contains_key((#[trigger] l[i]).name@)
                    && raw_converted(l[i].name@, l[i].stored()) == Ok::<LoadedView, ErrorView>(
                    all[l[i].name@],
                ) by {
                    if i < n - 1 {
                        assert(l[i].name@ != l[n - 1].name@);
                    }
                }
            },
        }
    }
}

/// What a safetensors header says of a tensor.
#[derive(Debug, Clone)]
pub struct SafetensorsHeaderEntry {
    pub name: String,
    pub dtype: String,
    pub shape: Vec<usize>,
    pub start: u64,
    pub end: u64,
}

/// Whether a name in a header is that of a tensor.
pub fn is_tensor_name(name: &str) -> (r: bool)
    ensures
        r == (name@ != "__metadata__"@),
{
    !text::same_text(name, "__metadata__")
}

/// The length of a header, in the first eight bytes of a file.
pub open spec fn word64(b: Seq<u8>) -> int {
    b[0] + 256 * b[1] + 65536 * b[2] + 16777216 * b[3] + 4294967296 * b[4] + 1099511627776 * b[5]
        + 281474976710656 * b[6] + 72057594037927936 * b[7]
}

/// The number in eight bytes, the lowest first.
pub fn le64(bytes: &[u8], at: usize) -> (r: u64)
    requires
        at + 8 <= bytes@.len(),
    ensures
        r == word64(bytes@.subrange(at as int, at + 8)),
{
    bytes[at] as u64 + 256 * bytes[at + 1] as u64 + 65536 * bytes[at + 2] as u64 + 16777216
        * bytes[at + 3] as u64 + 4294967296 * bytes[at + 4] as u64 + 1099511627776 * bytes[at
        + 5] as u64 + 281474976710656 * bytes[at + 6] as u64 + 72057594037927936 * bytes[at
        + 7] as u64
}

/// The length of the header of a file, and where the data behind it starts.
pub fn header_span(first: &[u8], path: &str) -> (r: Result<(usize, u64), RsinferError>)
    requires
        first@.len() == 8,
        word64(first@) + 8 <= u64::MAX,
    ensures
        match r {
            Ok(p) => p.0 == word64(first@) && p.1 == word64(first@) + 8,
            Err(e) => {
                &&& word64(first@) > usize::MAX
                &&& e@ == ErrorView::WeightError("Safetensors header too large in "@ + path@)
            },
        },
{
    assert(first@.subrange(0, 8) =~= first@);
    let n: u64 = le64(first, 0);
    if n > usize::MAX as u64 {
        return Err(
            RsinferError::WeightError(text::joined("Safetensors header too large in ", path)),
        );
    }
    Ok((n as usize, n + 8))
}

/// The entries from `i` on whose name is the given one: the first of them.
pub open spec fn entry_named(h: Seq<SafetensorsHeaderEntry>, name: Seq<char>, i: int) -> Option<int>
    decreases h.len() - i,
{
    if i < 0 || i >= h.len() {
        None
    } else if h[i].name@ == name {
        Some(i)
    } else {
        entry_named(h, name, i + 1)
    }
}

fn find_entry(header: &[SafetensorsHeaderEntry], name: &str) -> (r: Option<usize>)
    ensures
        match r {
            Some(i) => i < header@.len() && entry_named(header@, name@, 0) == Some(i as int),
            None => entry_named(header@, name@, 0) is None,
        },
{
    let mut i: usize = 0;
    while i < header.len()
        invariant
            i <= header@.len(),
            entry_named(header@, name@, 0) == entry_named(header@, name@, i as int),
        decreases header@.len() - i,
    {
        if text::same_text(header[i].name.as_str(), name) {
            return Some(i);
        }
        i += 1;
    }
    None
}

/// Where an entry that starts at `start` goes in a list of entries in order: behind all that do
/// not start later.
pub open spec fn slot(h: Seq<SafetensorsHeaderEntry>, order: Seq<usize>, start: u64) -> int
    decreases order.len(),
{
    if order.len() == 0 || h[order.last() as int].start <= start {
        order.len() as int
    } else {
        slot(h, order.drop_last(), start)
    }
}

/// The entries of the first `n` names in the order in which they stand in the file, or the first
/// name that has none.
pub open spec fn reading_order(h: Seq<SafetensorsHeaderEntry>, names: Seq<String>, n: nat) -> Result<
    Seq<usize>,
    Seq<char>,
>
    decreases n,
{
    if n == 0 {
        Ok(Seq::empty())
    } else {
        let name = names[n - 1]@;
        match reading_order(h, names, (n - 1) as nat) {
            Err(e) => Err(e),
            Ok(order) => match entry_named(h, name, 0) {
                None => Err(name),
                Some(i) => Ok(order.insert(slot(h, order, h[i].start), i as usize)),
            },
        }
    }
}

/// Whether entries stand in the order of their data.
pub open spec fn in_order(h: Seq<SafetensorsHeaderEntry>, order: Seq<usize>) -> bool {
    forall|a: int, b: int|
        0 <= a < b < order.len() ==> h[#[trigger] order[a] as int].start <= h[#[trigger] order[b] as int].start
}

pub proof fn lemma_slot(h: Seq<SafetensorsHeaderEntry>, order: Seq<usize>, start: u64)
    requires
        in_order(h, order),
    ensures
        0 <= slot(h, order, start) <= order.len(),
        forall|a: int|
            0 <= a < slot(h, order, start) ==> h[#[trigger] order[a] as int].start <= start,
        forall|a: int|
            slot(h, order, start) <= a < order.len() ==> h[#[trigger] order[a] as int].start
                > start,
    decreases order.len(),
{
    if order.len() > 0 && h[order.last() as int].start > start {
        let t = order.drop_last();
        assert(in_order(h, t)) by {
            assert forall|a: int, b: int| 0 <= a < b < t.len() implies h[#[trigger] t[a] as int].start
                <= h[#[trigger] t[b] as int].start by {
                assert(t[a] == order[a] && t[b] == order[b]);
            }
        }
        lemma_slot(h, t, start);
        assert forall|a: int| 0 <= a < slot(h, order, start) implies h[#[trigger] order[a] as int].start
            <= start by {
            assert(t[a] == order[a]);
        }
        assert forall|a: int| slot(h, order, start) <= a < order.len() implies h[#[trigger] order[a] as int].start
            > start by {
            if a < t.len() {
                assert(t[a] == order[a]);
            }
        }
    } else if order.len() > 0 {
        assert forall|a: int| 0 <= a < order.len() implies h[#[trigger] order[a] as int].start
            <= start by {
            if a < order.len() - 1 {
                assert(h[order[a] as int].start <= h[order[order.len() - 1] as int].start);
            }
        }
    }
}

/// Law: the selected tensors are read in the order in which they stand in the file, one for each
/// name that was selected.
pub proof fn law_reading_order(h: Seq<SafetensorsHeaderEntry>, names: Seq<String>, n: nat)
    requires
        n <= names.len(),
        h.len() <= usize::MAX,
    ensures
        match reading_order(h, names, n) {
            Ok(order) => {
                &&& order.len() == n
                &&& in_order(h, order)
                &&& forall|a: int| 0 <= a < order.len() ==> (#[trigger] order[a]) < h.len()
            },
            Err(_) => true,
        },
    decreases n,
{
    if n > 0 {
        law_reading_order(h, names, (n - 1) as nat);
        match reading_order(h, names, (n - 1) as nat) {
            Ok(order) => {
                let name = names[n - 1]@;
                lemma_entry(h, name, 0);
                if entry_named(h, name, 0) is Some {
                    let i = entry_named(h, name, 0)->0;
                    let p = slot(h, order, h[i].start);
                    lemma_slot(h, order, h[i].start);
                    let next = order.insert(p, i as usize);
                    assert forall|a: int, b: int| 0 <= a < b < next.len() implies h[
                        #[trigger] next[a] as int].start <= h[#[trigger] next[b] as int].start by {
                        if a < p && b > p {
                            assert(h[order[a] as int].start <= h[order[b - 1] as int].start);
                        } else if a > p {
                            assert(h[order[a - 1] as int].start <= h[order[b - 1] as int].start);
                        } else if b < p {
                            assert(h[order[a] as int].start <= h[order[b] as int].start);
                        } else if a == p {
                            assert(h[order[b - 1] as int].start > h[i].start);
                        } else {
                            assert(h[order[a] as int].start <= h[i].start);
                        }
                    }
                }
            },
            Err(_) => {},
        }
    }
}

proof fn lemma_entry(h: Seq<SafetensorsHeaderEntry>, name: Seq<char>, i: int)
    requires
        0 <= i,
    ensures
        entry_named(h, name, i) matches Some(k) ==> i <= k < h.len() && h[k].name@ == name,
    decreases h.len() - i,
{
    if i < h.len() && h[i].name@ != name {
        lemma_entry(h, name, i + 1);
    }
}

/// The entries of the selected tensors, in the order in which they are read.
pub fn select_entries(header: &[SafetensorsHeaderEntry], names: &[String], path: &str) -> (r: Result<
    Vec<usize>,
    RsinferError,
>)
    ensures
        match r {
            Ok(order) => reading_order(header@, names@, names@.len()) == Ok::<
                Seq<usize>,
                Seq<char>,
            >(order@),
            Err(e) => {
                let why = reading_order(header@, names@, names@.len());
                &&& why is Err
                &&& e@ == ErrorView::WeightError(
                    "Tensor '"@ + why->Err_0 + "' not found in safetensors header "@ + path@,
                )
            },
        },
{
    let mut order: Vec<usize> = Vec::new();
    let n: usize = header.len();
    let mut i: usize = 0;
    while i < names.len()
        invariant
            i <= names@.len(),
            n == header@.len(),
            reading_order(header@, names@, i as nat) == Ok::<Seq<usize>, Seq<char>>(order@),
        decreases names@.len() - i,
    {
        match find_entry(header, names[i].as_str()) {
            Some(k) => {
                let start: u64 = header[k].start;
                let mut p: usize = order.len();
                proof {
                    law_reading_order(header@, names@, i as nat);
                    assert(order@.take(order@.len() as int) =~= order@);
                }
                while p > 0 && header[order[p - 1]].start > start
                    invariant
                        p <= order@.len(),
                        forall|a: int|
                            0 <= a < order@.len() ==> (#[trigger] order@[a]) < header@.len(),
                        slot(header@, order@, start) == slot(
                            header@,
                            order@.take(p as int),
                            start,
                        ),
                    decreases p,
                {
                    assert(order@.take(p as int).drop_last() =~= order@.take(p - 1));
                    p -= 1;
                }
                assert(slot(header@, order@.take(p as int), start) == p) by {
                    if p > 0 {
                        assert(order@.take(p as int).last() == order@[p - 1]);
                    }
                }
                order.insert(p, k);
            },
            None => {
                proof {
                    lemma_order_error(header@, names@, (i + 1) as nat, names@.len());
                }
                let mut s = text::joined("Tensor '", names[i].as_str());
                s.append("' not found in safetensors header ");
                s.append(path);
                return Err(RsinferError::WeightError(s));
            },
        }
        i += 1;
    }
    Ok(order)
}

proof fn lemma_order_error(h: Seq<SafetensorsHeaderEntry>, names: Seq<String>, i: nat, n: nat)
    requires
        i <= n,
        reading_order(h, names, i) is Err,
    ensures
        reading_order(h, names, n) == reading_order(h, names, i),
    decreases n - i,
{
    if i < n {
        lemma_order_error(h, names, i, (n - 1) as nat);
    }
}

/// Where the bytes of a tensor stand in a file, and how many there are.
pub fn entry_span(entry: &SafetensorsHeaderEntry, data_start: u64, path: &str) -> (r: Result<
    (u64, usize),
    RsinferError,
>)
    requires
        data_start + entry.start <= u64::MAX,
    ensures
        match r {
            Ok(p) => {
                &&& entry.start <= entry.end
                &&& p.0 == data_start + entry.start
                &&& p.1 == entry.end - entry.start
            },
            Err(e) => if entry.end < entry.start {
                e@ == ErrorView::SafeTensors(
                    "Invalid data offsets for tensor '"@ + entry.name@ + "' in "@ + path@,
                )
            } else {
                &&& entry.end - entry.start > usize::MAX
                &&& e@ == ErrorView::WeightError(
                    "Tensor '"@ + entry.name@ + "' is too large to load on this platform"@,
                )
            },
        },
{
    if entry.end < entry.start {
        let mut s = text::joined("Invalid data offsets for tensor '", entry.name.as_str());
        s.append("' in ");
        s.append(path);
        return Err(RsinferError::SafeTensors(s));
    }
    let len: u64 = entry.end - entry.start;
    if len > usize::MAX as u64 {
        let mut s = text::joined("Tensor '", entry.name.as_str());
        s.append("' is too large to load on this platform");
        return Err(RsinferError::WeightError(s));
    }
    Ok((data_start + entry.start, len as usize))
}

/// Adds a tensor of which a header speaks to the weights.
pub fn add_entry(weights: WeightMap, entry: &SafetensorsHeaderEntry, data: &[u8]) -> (r: Result<
    WeightMap,
    RsinferError,
>)
    ensures
        ({
            let made = converted(
                entry.shape@,
                dtype_named(entry.dtype@),
                data@,
                entry.name@,
            );
            if dtype_named(entry.dtype@) is Other {
                &&& r is Err
                &&& r->Err_0@ == ErrorView::Unsupported(
                    "Unsupported dtype '"@ + entry.dtype@ + "' for tensor '"@ + entry.name@
                        + "'"@,
                )
            } else {
                match r {
                    Ok(w) => made is Ok && w@ == weights@.insert(entry.name@, made->Ok_0),
                    Err(e) => made == Err::<LoadedView, ErrorView>(e@),
                }
            }
        }),
{
    let dtype = match parse_safetensors_dtype(entry.dtype.as_str(), entry.name.as_str()) {
        Ok(d) => d,
        Err(e) => {
            return Err(e);
        },
    };
    match convert_tensor(&entry.shape, &dtype, data, entry.name.as_str()) {
        Ok(t) => Ok(weights.with(entry.name.clone(), t)),
        Err(e) => Err(e),
    }
}

/// Whether a weight is left out where it is kept in eight bits beside the model.
pub open spec fn skipped_when_warm(name: Seq<char>) -> bool {
    ||| name == "lm_head.weight"@
    ||| text::has_suffix(name, "self_attn.q_proj.weight"@)
    ||| text::has_suffix(name, "self_attn.k_proj.weight"@)
    ||| text::has_suffix(name, "self_attn.v_proj.weight"@)
    ||| text::has_suffix(name, "self_attn.o_proj.weight"@)
    ||| text::has_suffix(name, "mlp.gate_proj.weight"@)
    ||| text::has_suffix(name, "mlp.up_proj.weight"@)
    ||| text::has_suffix(name, "mlp.down_proj.weight"@)
}

/// Whether a weight is left out where it is kept in eight bits beside the model.
pub fn should_skip_warm_q8_linear_weight(name: &str) -> (r: bool)
    ensures
        r == skipped_when_warm(name@),
{
    text::same_text(name, "lm_head.weight") || text::ends_with(name, "self_attn.q_proj.weight")
        || text::ends_with(name, "self_attn.k_proj.weight") || text::ends_with(
        name,
        "self_attn.v_proj.weight",
    ) || text::ends_with(name, "self_attn.o_proj.weight") || text::ends_with(
        name,
        "mlp.gate_proj.weight",
    ) || text::ends_with(name, "mlp.up_proj.weight") || text::ends_with(
        name,
        "mlp.down_proj.weight",
    )
}

/// The names in a header that are read where the others are kept in eight bits.
pub open spec fn warm_names_of(header: Seq<SafetensorsHeaderEntry>) -> Seq<Seq<char>>
    decreases header.len(),
{
    if header.len() == 0 {
        Seq::empty()
    } else {
        let before = warm_names_of(header.drop_last());
        if skipped_when_warm(header.last().name@) {
            before
        } else {
            before.push(header.last().name@)
        }
    }
}

/// The names in a header that are read where the others are kept in eight bits.
pub fn warm_names(header: &[SafetensorsHeaderEntry]) -> (r: Vec<String>)
    ensures
        crate::runtime::texts(r@) == warm_names_of(header@),
{
    let mut names: Vec<String> = Vec::new();
    let mut i: usize = 0;
    assert(header@.take(0) =~= Seq::<SafetensorsHeaderEntry>::empty());
    assert(crate::runtime::texts(names@) =~= Seq::<Seq<char>>::empty());
    while i < header.len()
        invariant
            i <= header@.len(),
            crate::runtime::texts(names@) == warm_names_of(header@.take(i as int)),
        decreases header@.len() - i,
    {
        assert(header@.take(i + 1).drop_last() =~= header@.take(i as int));
        let ghost before = crate::runtime::texts(names@);
        if !should_skip_warm_q8_linear_weight(header[i].name.as_str()) {
            names.push(header[i].name.clone());
            assert(crate::runtime::texts(names@) =~= before.push(header@[i as int].name@));
        }
        i += 1;
    }
    assert(header@.take(header@.len() as int) =~= header@);
    names
}

/// Where the weights of a model are.
#[derive(Clone, Copy, Debug, PartialEq, Eq, Structural)]
pub enum WeightSource {
    /// In the files that an index lists.
    Sharded,
    /// In one file.
    Single,
}

/// Where the weights of a model are: an index comes first, one file second.  The directory is given
/// as it is to stand in the message.
pub fn weight_source(has_index: bool, has_single: bool, model_dir: &str) -> (r: Result<
    WeightSource,
    RsinferError,
>)
    ensures
        match r {
            Ok(s) => s == (if has_index {
                WeightSource::Sharded
            } else {
                WeightSource::Single
            }) && (has_index || has_single),
            Err(e) => !has_index && !has_single && e@ == ErrorView::WeightError(
                "No safetensors file found in "@ + model_dir@,
            ),
        },
{
    if has_index {
        Ok(WeightSource::Sharded)
    } else if has_single {
        Ok(WeightSource::Single)
    } else {
        Err(RsinferError::WeightError(text::joined("No safetensors file found in ", model_dir)))
    }
}

/// A file of a model, and the tensors that are read from it.
#[derive(Debug)]
pub struct Shard {
    pub file: String,
    pub names: Vec<String>,
}

/// The mathematical value of a file and its tensors.
#[verifier::ext_equal]
pub struct ShardView {
    pub file: Seq<char>,
    pub names: Seq<Seq<char>>,
}

impl View for Shard {
    type V = ShardView;

    open spec fn view(&self) -> ShardView {
        ShardView { file: self.file@, names: self.names@.map_values(|s: String| s@) }
    }
}

/// The values of a list of files.
pub open spec fn shard_views(s: Seq<Shard>) -> Seq<ShardView> {
    s.map_values(|x: Shard| x@)
}

/// The place of a file in a list, from `i` on.
pub open spec fn shard_at(s: Seq<ShardView>, file: Seq<char>, i: int) -> Option<int>
    decreases s.len() - i,
{
    if i < 0 || i >= s.len() {
        None
    } else if s[i].file == file {
        Some(i)
    } else {
        shard_at(s, file, i + 1)
    }
}

/// The files of the first `n` entries of an index, each with the tensors that are kept.
pub open spec fn grouped(index: Seq<(String, String)>, warm: bool, n: nat) -> Seq<ShardView>
    decreases n,
{
    if n == 0 {
        Seq::empty()
    } else {
        let before = grouped(index, warm, (n - 1) as nat);
        let name = index[n - 1].0@;
        let file = index[n - 1].1@;
        if warm && skipped_when_warm(name) {
            before
        } else {
            match shard_at(before, file, 0) {
                Some(i) => before.update(
                    i,
                    ShardView { file, names: before[i].names.push(name) },
                ),
                None => before.push(ShardView { file, names: seq![name] }),
            }
        }
    }
}

fn find_shard(shards: &[Shard], file: &str) -> (r: Option<usize>)
    ensures
        match r {
            Some(i) => {
                &&& i < shards@.len()
                &&& shard_at(shard_views(shards@), file@, 0) == Some(i as int)
                &&& shards@[i as int].file@ == file@
            },
            None => shard_at(shard_views(shards@), file@, 0) is None,
        },
{
    let ghost v = shard_views(shards@);
    let mut i: usize = 0;
    while i < shards.len()
        invariant
            i <= shards@.len(),
            v == shard_views(shards@),
            shard_at(v, file@, 0) == shard_at(v, file@, i as int),
        decreases shards@.len() - i,
    {
        assert(v[i as int].file == shards@[i as int].file@);
        if text::same_text(shards[i].file.as_str(), file) {
            return Some(i);
        }
        i += 1;
    }
    None
}

/// The files that an index names, each once, with the tensors that are read from it; where
/// `warm`, without those that are kept in eight bits.
pub fn group_shards(index: &[(String, String)], warm: bool) -> (r: Vec<Shard>)
    ensures
        shard_views(r@) == grouped(index@, warm, index@.len()),
{
    let mut shards: Vec<Shard> = Vec::new();
    let mut i: usize = 0;
    assert(shard_views(shards@) =~= Seq::<ShardView>::empty());
    while i < index.len()
        invariant
            i <= index@.len(),
            shard_views(shards@) == grouped(index@, warm, i as nat),
        decreases index@.len() - i,
    {
        let name = &index[i].0;
        let file = &index[i].1;
        let ghost before = shard_views(shards@);
        let skip = warm && should_skip_warm_q8_linear_weight(name.as_str());
        if !skip {
            match find_shard(&shards, file.as_str()) {
                Some(k) => {
                    let mut names = clone_texts(&shards[k].names);
                    names.push(name.clone());
                    let ghost old_names = before[k as int].names;
                    shards.set(k, Shard { file: file.clone(), names });
                    proof {
                        assert(shards@[k as int]@.names =~= old_names.push(name@));
                        assert(shard_views(shards@) =~= before.update(
                            k as int,
                            ShardView { file: file@, names: old_names.push(name@) },
                        ));
                    }
                },
                None => {
                    let names: Vec<String> = vec![name.clone()];
                    shards.push(Shard { file: file.clone(), names });
                    proof {
                        assert(shards@.last()@.names =~= seq![name@]);
                        assert(shard_views(shards@) =~= before.push(
                            ShardView { file: file@, names: seq![name@] },
                        ));
                    }
                },
            }
        }
        i += 1;
    }
    shards
}

fn clone_texts(list: &[String]) -> (r: Vec<String>)
    ensures
        r@.map_values(|s: String| s@) == list@.map_values(|s: String| s@),
{
    let mut out: Vec<String> = Vec::new();
    let mut i: usize = 0;
    while i < list.len()
        invariant
            i <= list@.len(),
            out@.len() == i,
            forall|j: int| 0 <= j < i ==> (#[trigger] out@[j])@ == list@[j]@,
        decreases list@.len() - i,
    {
        out.push(list[i].clone());
        i += 1;
    }
    assert(out@.map_values(|s: String| s@) =~= list@.map_values(|s: String| s@));
    out
}

/// Whether an entry of an index names a tensor that is read from the given file.
pub open spec fn read_from(e: (String, String), file: Seq<char>, warm: bool) -> bool {
    e.1@ == file && !(warm && skipped_when_warm(e.0@))
}

/// The names that an index places in a file and that are read, in the order of the index.
pub open spec fn names_in(index: Seq<(String, String)>, file: Seq<char>, warm: bool) -> Seq<Seq<char>> {
    index.filter(|e: (String, String)| read_from(e, file, warm)).map_values(
        |e: (String, String)| e.0@,
    )
}

proof fn lemma_names_in_last(index: Seq<(String, String)>, file: Seq<char>, warm: bool)
    requires
        index.len() > 0,
    ensures
        names_in(index, file, warm) == (if read_from(index.last(), file, warm) {
            names_in(index.drop_last(), file, warm).push(index.last().0@)
        } else {
            names_in(index.drop_last(), file, warm)
        }),
{
    reveal(Seq::filter);
    let keep = |e: (String, String)| read_from(e, file, warm);
    let name = |e: (String, String)| e.0@;
    let before = index.drop_last().filter(keep);
    assert(index.filter(keep) == if keep(index.last()) {
        before.push(index.last())
    } else {
        before
    });
    if read_from(index.last(), file, warm) {
        assert(names_in(index, file, warm) =~= before.map_values(name).push(index.last().0@));
    }
}

proof fn lemma_shard_at(s: Seq<ShardView>, file: Seq<char>, i: int)
    requires
        0 <= i,
    ensures
        match shard_at(s, file, i) {
            Some(k) => i <= k < s.len() && s[k].file == file,
            None => forall|k: int| i <= k < s.len() ==> (#[trigger] s[k]).file != file,
        },
    decreases s.len() - i,
{
    if i < s.len() && s[i].file != file {
        lemma_shard_at(s, file, i + 1);
    }
}

proof fn lemma_grouped(index: Seq<(String, String)>, warm: bool, n: nat)
    requires
        n <= index.len(),
    ensures
        ({
            let g = grouped(index, warm, n);
            let part = index.take(n as int);
            &&& forall|i: int, j: int|
                0 <= i < j < g.len() ==> (#[trigger] g[i]).file != (#[trigger] g[j]).file
            &&& forall|k: int|
                0 <= k < g.len() ==> (#[trigger] g[k]).names == names_in(part, g[k].file, warm)
                    && g[k].names.len() > 0
            &&& forall|i: int|
                0 <= i < n && read_from(#[trigger] index[i], index[i].1@, warm) ==> exists|k: int|
                    0 <= k < g.len() && (#[trigger] g[k]).file == index[i].1@
        }),
    decreases n,
{
    if n == 0 {
        reveal(Seq::filter);
    } else {
        let m = (n - 1) as nat;
        lemma_grouped(index, warm, m);
        let before = grouped(index, warm, m);
        let g = grouped(index, warm, n);
        let part = index.take(n as int);
        assert(part.drop_last() =~= index.take(m as int));
        assert(part.last() == index[n - 1]);
        let file = index[n - 1].1@;
        let name = index[n - 1].0@;
        lemma_shard_at(before, file, 0);
        assert forall|k: int| 0 <= k < g.len() implies (#[trigger] g[k]).names == names_in(
            part,
            g[k].file,
            warm,
        ) && g[k].names.len() > 0 by {
            lemma_names_in_last(part, g[k].file, warm);
            if k < before.len() {
                assert(before[k].names == names_in(index.take(m as int), before[k].file, warm));
            } else {
                lemma_no_names(index, file, warm, m);
                assert(g[k].names =~= names_in(part, file, warm));
            }
        }
        assert forall|i: int|
            0 <= i < n && read_from(#[trigger] index[i], index[i].1@, warm) implies exists|k: int|
            0 <= k < g.len() && (#[trigger] g[k]).file == index[i].1@ by {
            if i < m {
                let k = choose|k: int| 0 <= k < before.len() && (#[trigger] before[k]).file
                    == index[i].1@;
                assert(g[k].file == index[i].1@);
            } else {
                match shard_at(before, file, 0) {
                    Some(k) => {
                        assert(g[k].file == file);
                    },
                    None => {
                        assert(g[before.len() as int].file == file);
                    },
                }
            }
        }
    }
}

proof fn lemma_no_names(index: Seq<(String, String)>, file: Seq<char>, warm: bool, n: nat)
    requires
        n <= index.len(),
        shard_at(grouped(index, warm, n), file, 0) is None,
    ensures
        names_in(index.take(n as int), file, warm) == Seq::<Seq<char>>::empty(),
    decreases n,
{
    let part = index.take(n as int);
    if n == 0 {
        reveal(Seq::filter);
        assert(names_in(part, file, warm) =~= Seq::<Seq<char>>::empty());
    } else {
        let m = (n - 1) as nat;
        let before = grouped(index, warm, m);
        let g = grouped(index, warm, n);
        lemma_shard_at(g, file, 0);
        lemma_shard_at(before, file, 0);
        lemma_shard_at(before, index[n - 1].1@, 0);
        lemma_names_in_last(part, file, warm);
        assert(part.drop_last() =~= index.take(m as int));
        if shard_at(before, file, 0) is Some {
            let k = shard_at(before, file, 0)->0;
            assert(g[k].file == file);
        }
        lemma_no_names(index, file, warm, m);
        if read_from(index[n - 1], file, warm) {
            match shard_at(before, file, 0) {
                Some(k) => {},
                None => {
                    assert(g[before.len() as int].file == file);
                },
            }
        }
    }
}

/// Law: every tensor of an index that is not left out is read from the file in which the index
/// places it; no file is read twice; and from each file the tensors are read that the index places
/// in it, each as often as it is placed there, in the order of the index, and no others.
pub proof fn law_index_is_read_whole(index: Seq<(String, String)>, warm: bool)
    ensures
        ({
            let g = grouped(index, warm, index.len());
            &&& forall|i: int|
                0 <= i < index.len() && !(warm && skipped_when_warm((#[trigger] index[i]).0@))
                    ==> exists|k: int|
                    0 <= k < g.len() && (#[trigger] g[k]).file == index[i].1@
                        && g[k].names.contains(index[i].0@)
            &&& forall|i: int, j: int|
                0 <= i < j < g.len() ==> (#[trigger] g[i]).file != (#[trigger] g[j]).file
            &&& forall|k: int|
                0 <= k < g.len() ==> g[k].names.len() > 0 && (#[trigger] g[k]).names == names_in(
                    index,
                    g[k].file,
                    warm,
                )
        }),
{
    let n = index.len();
    let g = grouped(index, warm, n);
    lemma_grouped(index, warm, n);
    assert(index.take(n as int) =~= index);
    assert forall|i: int|
        0 <= i < n && !(warm && skipped_when_warm((#[trigger] index[i]).0@)) implies exists|k: int|
        0 <= k < g.len() && (#[trigger] g[k]).file == index[i].1@ && g[k].names.contains(
            index[i].0@,
        ) by {
        assert(read_from(index[i], index[i].1@, warm));
        let k = choose|k: int| 0 <= k < g.len() && (#[trigger] g[k]).file == index[i].1@;
        lemma_name_is_in(index, index[i].1@, warm, i);
        assert(g[k].names.contains(index[i].0@));
    }
}

proof fn lemma_name_is_in(index: Seq<(String, String)>, file: Seq<char>, warm: bool, i: int)
    requires
        0 <= i < index.len(),
        read_from(index[i], file, warm),
    ensures
        names_in(index, file, warm).contains(index[i].0@),
    decreases index.len(),
{
    lemma_names_in_last(index, file, warm);
    let all = names_in(index, file, warm);
    if i == index.len() - 1 {
        assert(all[all.len() - 1] == index[i].0@);
    } else {
        let before = index.drop_last();
        lemma_name_is_in(before, file, warm, i);
        let k = choose|k: int|
            0 <= k < names_in(before, file, warm).len() && names_in(before, file, warm)[k]
                == before[i].0@;
        assert(all[k] == index[i].0@);
    }
}

} // verus!
