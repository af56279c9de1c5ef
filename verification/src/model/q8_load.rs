//! How a weight in eight bits is loaded from those that are kept, or created and kept: what has to
//! be done next, step by step.

use vstd::prelude::*;

use crate::error;
use crate::error::{ErrorView, RsinferError};
use crate::model::q8_sidecar;
use crate::model::q8_sidecar::{encode_q8_weight, sidecar_file, Q8SidecarCache};
use crate::model::q8_sidecar::{EntryView, SidecarView};
use crate::tensor::Q8LinearWeight;

verus! {

/// What has to be done next.
#[derive(Debug)]
pub enum Q8Step {
    /// Read the given file.
    Read(String),
    /// Create the weight.
    Create,
    /// Write the bytes of the weight to the given file.
    Write { file: String, bytes: Vec<u8>, weight: Q8LinearWeight },
    /// Write the list of the weights that are kept.
    List(Q8LinearWeight),
    /// Nothing: here is the weight.
    Done(Q8LinearWeight),
    /// Nothing: there is no weight.
    Failed(RsinferError),
}

/// The mathematical value of a weight.
#[verifier::ext_equal]
pub struct Q8View {
    pub out_features: usize,
    pub in_features: usize,
    pub scales: Seq<u32>,
    pub qweight: Seq<i8>,
}

/// The value of a weight.
pub open spec fn weight_view(w: Q8LinearWeight) -> Q8View {
    Q8View {
        out_features: w.out_features,
        in_features: w.in_features,
        scales: w.scales@,
        qweight: w.qweight@,
    }
}

/// The file that is read for a weight of the given shape, if it is kept.
pub open spec fn to_load(c: SidecarView, name: Seq<char>, out: usize, width: usize) -> Option<
    Seq<char>,
> {
    match q8_sidecar::entry_place(c.entries, name, 0) {
        Some(i) => if c.entries[i].out_features == out && c.entries[i].in_features == width {
            Some(c.entries[i].file)
        } else {
            None
        },
        None => None,
    }
}

/// A cache with one more hit.
pub open spec fn hit(c: SidecarView) -> SidecarView {
    SidecarView { hits: (c.hits + 1) as usize, ..c }
}

/// The value of what was read of a file.
pub open spec fn read_view(read: Result<Vec<u8>, String>) -> Result<Seq<u8>, Seq<char>> {
    match read {
        Ok(b) => Ok(b@),
        Err(e) => Err(e@),
    }
}

/// What comes of a file that was read: the weight, and the cache with a hit, or no weight, and the
/// cache with a fallback.
pub open spec fn read_outcome(
    c: SidecarView,
    name: Seq<char>,
    out: usize,
    width: usize,
    read: Result<Seq<u8>, Seq<char>>,
    path: Seq<char>,
) -> (Option<Q8View>, SidecarView) {
    let result: Result<(Seq<u32>, Seq<i8>), ErrorView> = match read {
        Ok(b) => q8_sidecar::decoded(b, out, width, path),
        Err(e) => Err(ErrorView::Io(e)),
    };
    match result {
        Ok(p) => (
            Some(Q8View { out_features: out, in_features: width, scales: p.0, qweight: p.1 }),
            hit(c),
        ),
        Err(e) => (
            None,
            q8_sidecar::fallen_back(c, name, "sidecar read failed: "@ + error::error_text(e)),
        ),
    }
}

/// A cache that lists a weight whose file was written.
pub open spec fn listed(c: SidecarView, name: Seq<char>, w: Q8LinearWeight) -> SidecarView {
    let e = EntryView {
        name,
        file: q8_sidecar::file_of(name),
        out_features: w.out_features,
        in_features: w.in_features,
    };
    SidecarView { entries: q8_sidecar::with_entry(c.entries, e), ..c }
}

/// A cache with one more weight that was kept.
pub open spec fn counted(c: SidecarView) -> SidecarView {
    SidecarView { writes: (c.writes + 1) as usize, ..c }
}

/// What happens outside while a weight is loaded or created: what the file holds and where it is,
/// what the creation gives, and how writing the file and writing the list fail, if they do.
pub struct LoadEvents {
    pub read: Result<Seq<u8>, Seq<char>>,
    pub path: Seq<char>,
    pub created: Result<Q8LinearWeight, ErrorView>,
    pub unwritten: Option<ErrorView>,
    pub unlisted: Option<ErrorView>,
}

/// What comes of creating a weight and keeping it.
pub open spec fn create_outcome(c: SidecarView, name: Seq<char>, ev: LoadEvents) -> (
    Result<Q8View, ErrorView>,
    SidecarView,
) {
    match (ev.created, ev.unwritten, ev.unlisted) {
        (Err(e), _, _) => (Err(e), c),
        (Ok(_), Some(e), _) => (Err(e), c),
        (Ok(w), None, Some(e)) => (Err(e), listed(c, name, w)),
        (Ok(w), None, None) => (Ok(weight_view(w)), counted(listed(c, name, w))),
    }
}

/// What comes of loading a weight, or else creating and keeping it.
pub open spec fn load_outcome(
    c: SidecarView,
    name: Seq<char>,
    out: usize,
    width: usize,
    ev: LoadEvents,
) -> (Result<Q8View, ErrorView>, SidecarView) {
    match to_load(c, name, out, width) {
        Some(_) => {
            let (found, after) = read_outcome(c, name, out, width, ev.read, ev.path);
            match found {
                Some(w) => (Ok(w), after),
                None => create_outcome(after, name, ev),
            }
        },
        None => create_outcome(c, name, ev),
    }
}

impl Q8SidecarCache {
    /// The first step towards a weight of the given shape.
    pub fn load_or_create(&self, name: &str, out_features: usize, in_features: usize) -> (r: Q8Step)
        ensures
            match to_load(self@, name@, out_features, in_features) {
                Some(file) => r matches Q8Step::Read(f) && f@ == file,
                None => r is Create,
            },
    {
        match self.file_to_load(name, out_features, in_features) {
            Some(file) => Q8Step::Read(file),
            None => Q8Step::Create,
        }
    }

    /// The step behind the reading of a file.
    pub fn load_read(
        &mut self,
        name: &str,
        out_features: usize,
        in_features: usize,
        read: Result<Vec<u8>, String>,
        path: &str,
    ) -> (r: Q8Step)
        requires
            old(self)@.hits < usize::MAX,
        ensures
            ({
                let o = read_outcome(
                    old(self)@,
                    name@,
                    out_features,
                    in_features,
                    read_view(read),
                    path@,
                );
                &&& final(self)@ == o.1
                &&& match o.0 {
                    Some(w) => r matches Q8Step::Done(x) && weight_view(x) == w,
                    None => r is Create,
                }
            }),
    {
        match self.accept(name, out_features, in_features, read, path) {
            Some(w) => Q8Step::Done(w),
            None => Q8Step::Create,
        }
    }

    /// The step behind the creation of a weight.
    pub fn load_created(&self, name: &str, created: Result<Q8LinearWeight, RsinferError>) -> (r:
        Q8Step)
        ensures
            match created {
                Ok(w) => {
                    &&& r matches Q8Step::Write { file, bytes, weight }
                    &&& file@ == q8_sidecar::file_of(name@)
                    &&& bytes@ == q8_sidecar::encoded(w)
                    &&& weight == w
                },
                Err(e) => r == Q8Step::Failed(e),
            },
    {
        match created {
            Ok(weight) => {
                let bytes = encode_q8_weight(&weight);
                Q8Step::Write { file: sidecar_file(name), bytes, weight }
            },
            Err(e) => Q8Step::Failed(e),
        }
    }

    /// The step behind the writing of the file.
    pub fn load_written(
        &mut self,
        name: &str,
        weight: Q8LinearWeight,
        written: Result<(), RsinferError>,
    ) -> (r: Q8Step)
        ensures
            match written {
                Ok(()) => r == Q8Step::List(weight) && final(self)@ == listed(
                    old(self)@,
                    name@,
                    weight,
                ),
                Err(e) => r == Q8Step::Failed(e) && final(self)@ == old(self)@,
            },
    {
        match written {
            Ok(()) => {
                self.store(name, &weight);
                Q8Step::List(weight)
            },
            Err(e) => Q8Step::Failed(e),
        }
    }

    /// The last step, behind the writing of the list.
    pub fn load_listed(&mut self, weight: Q8LinearWeight, written: Result<(), RsinferError>) -> (r:
        Q8Step)
        requires
            old(self)@.writes < usize::MAX,
        ensures
            match written {
                Ok(()) => r == Q8Step::Done(weight) && final(self)@ == counted(old(self)@),
                Err(e) => r == Q8Step::Failed(e) && final(self)@ == old(self)@,
            },
    {
        match written {
            Ok(()) => {
                self.count_write();
                Q8Step::Done(weight)
            },
            Err(e) => Q8Step::Failed(e),
        }
    }
}

/// Law: a weight that was created and kept is the hit of the next load: the file that was written
/// is read, the same weight comes back whatever a creation would give, and but for one more hit
/// the cache stays as it was.  The weights of other names are found where they were.
pub proof fn law_kept_is_the_next_hit(
    c: SidecarView,
    name: Seq<char>,
    first: LoadEvents,
    second: LoadEvents,
    other: Seq<char>,
    out: usize,
    width: usize,
)
    requires
        first.created is Ok,
        first.created->Ok_0.well_formed(),
        first.unwritten is None,
        first.unlisted is None,
        second.read == Ok::<Seq<u8>, Seq<char>>(q8_sidecar::encoded(first.created->Ok_0)),
    ensures
        ({
            let w = first.created->Ok_0;
            let (kept, d) = create_outcome(c, name, first);
            &&& kept == Ok::<Q8View, ErrorView>(weight_view(w))
            &&& to_load(d, name, w.out_features, w.in_features) == Some(q8_sidecar::file_of(name))
            &&& load_outcome(d, name, w.out_features, w.in_features, second) == (kept, hit(d))
            &&& other != name ==> to_load(d, other, out, width) == to_load(c, other, out, width)
        }),
{
    let w = first.created->Ok_0;
    let e = EntryView {
        name,
        file: q8_sidecar::file_of(name),
        out_features: w.out_features,
        in_features: w.in_features,
    };
    q8_sidecar::law_stored_is_found(c.entries, e, other);
    q8_sidecar::law_read_gives_back_written(w, second.path);
    let d = create_outcome(c, name, first).1;
    assert(load_outcome(d, name, w.out_features, w.in_features, second).0 =~= Ok::<
        Q8View,
        ErrorView,
    >(weight_view(w)));
}

/// Law: a load that gave a weight is followed by a hit with the same weight and the same shape,
/// as long as its file holds what was read, or written, then.
pub proof fn law_load_repeats(
    c: SidecarView,
    name: Seq<char>,
    out: usize,
    width: usize,
    first: LoadEvents,
    second: LoadEvents,
)
    requires
        load_outcome(c, name, out, width, first).0 is Ok,
        first.created matches Ok(w) ==> w.well_formed() && w.out_features == out && w.in_features
            == width,
        ({
            let hits = to_load(c, name, out, width) is Some && read_outcome(
                c,
                name,
                out,
                width,
                first.read,
                first.path,
            ).0 is Some;
            &&& hits ==> second.read == first.read
            &&& !hits ==> second.read == Ok::<Seq<u8>, Seq<char>>(
                q8_sidecar::encoded(first.created->Ok_0),
            )
        }),
    ensures
        ({
            let (kept, d) = load_outcome(c, name, out, width, first);
            load_outcome(d, name, out, width, second) == (kept, hit(d))
        }),
{
    let read = read_outcome(c, name, out, width, first.read, first.path);
    if to_load(c, name, out, width) is Some && read.0 is Some {
        assert(to_load(read.1, name, out, width) == to_load(c, name, out, width));
    } else {
        let before = if to_load(c, name, out, width) is Some {
            read.1
        } else {
            c
        };
        law_kept_is_the_next_hit(before, name, first, second, name, out, width);
    }
}

/// Law: where nothing that is kept can be used, the weight is created. Its error is the result,
/// with the hits and the writes as they were; a weight that is then kept adds one write and no
/// hit.
pub proof fn law_nothing_kept_creates(
    c: SidecarView,
    name: Seq<char>,
    out: usize,
    width: usize,
    ev: LoadEvents,
)
    requires
        to_load(c, name, out, width) is None || read_outcome(
            c,
            name,
            out,
            width,
            ev.read,
            ev.path,
        ).0 is None,
        c.writes < usize::MAX,
    ensures
        ({
            let (made, d) = load_outcome(c, name, out, width, ev);
            &&& d.hits == c.hits
            &&& ev.created matches Err(e) ==> made == Err::<Q8View, ErrorView>(e) && d.writes
                == c.writes && d.entries == c.entries
            &&& (ev.created is Ok && ev.unwritten is None && ev.unlisted is None) ==> made == Ok::<
                Q8View,
                ErrorView,
            >(weight_view(ev.created->Ok_0)) && d.writes == c.writes + 1
            &&& made is Err ==> d.writes == c.writes
            &&& to_load(c, name, out, width) is None ==> d.fallbacks == c.fallbacks
        }),
{
}

/// Law: the file of a weight is refused for any other shape, by name of both shapes.
pub proof fn law_other_shape_is_refused(
    w: Q8LinearWeight,
    out: usize,
    width: usize,
    path: Seq<char>,
)
    requires
        w.well_formed(),
        out != w.out_features || width != w.in_features,
    ensures
        q8_sidecar::decoded(q8_sidecar::encoded(w), out, width, path) == Err::<
            (Seq<u32>, Seq<i8>),
            ErrorView,
        >(
            ErrorView::ShapeMismatch {
                expected: seq![out, width],
                actual: seq![w.out_features, w.in_features],
            },
        ),
{
    q8_sidecar::lemma_header(w);
}

} // verus!
