//! The interchange format of a run: a run written out as bytes, and read
//! back from them.
//!
//! The format is binary. It opens with a signature and a version, and then
//! holds the parts of the run in a fixed order: integers as little-endian
//! bytes, texts as UTF-8 behind their length in bytes, lists behind the
//! number of their items, and optional values behind a byte that says
//! whether they are there.

use crate::comparison::{CustomComparison, CustomComparisonView};
use crate::run::{
    Attempt, AttemptView, Image, ImageView, Run, RunView, Segment, SegmentView,
};
use vstd::prelude::*;

pub mod basic;
pub mod list;
pub mod records;

verus! {

/// A type whose values can be written out as bytes and read back.
pub trait Codec: Sized {
    /// What a value stands for in contracts.
    type Model;

    /// What `self` stands for in contracts.
    spec fn model(&self) -> Self::Model;

    /// Whether `model` can be written out: its lengths fit the format.
    spec fn encodable(model: Self::Model) -> bool;

    /// The bytes that `model` is written out as.
    spec fn encoding(model: Self::Model) -> Seq<u8>;

    /// Reads a value from the front of `bytes`: the value and the bytes
    /// that follow it, or nothing where `bytes` does not begin with a value.
    spec fn parse(bytes: Seq<u8>) -> Option<(Self::Model, Seq<u8>)>;

    /// What was written out is read back as it was, whatever follows it.
    proof fn lemma_round_trip(model: Self::Model, rest: Seq<u8>)
        requires
            Self::encodable(model),
        ensures
            Self::parse(Self::encoding(model) + rest) == Some((model, rest)),
    ;

    /// Writes `self` behind what `out` holds.
    fn write(&self, out: &mut Vec<u8>)
        ensures
            Self::encodable(self.model()),
            final(out)@ == old(out)@ + Self::encoding(self.model()),
    ;

    /// Reads a value from `data` at `pos`, and says where the value ends.
    fn read(data: &[u8], pos: usize) -> (r: Option<(Self, usize)>)
        requires
            pos <= data@.len(),
        ensures
            match Self::parse(data@.skip(pos as int)) {
                Some((model, rest)) => {
                    &&& r matches Some((value, next))
                    &&& value.model() == model
                    &&& pos <= next <= data@.len()
                    &&& data@.skip(next as int) == rest
                },
                None => r.is_none(),
            },
    ;
}

/// Why bytes could not be read as a run.
#[derive(Clone, Copy, Debug, PartialEq, Eq, Structural)]
pub enum ImportError {
    /// The bytes are not a run in this format: the signature or the version
    /// is another, a part is cut short or holds what the format does not
    /// know, or bytes are left over behind the run.
    Malformed,
    /// The bytes hold a run in which a custom comparison bears the name of
    /// a built-in comparison or of another custom comparison.
    ClashingComparisonNames,
}

/// The parts of a run, in the order in which they are written out.
pub type RunFields = (
    Image,
    (String, (String, (u32, (Vec<Segment>, (Vec<Attempt>, Vec<CustomComparison>))))),
);

/// The parts of a run as they are written out.
pub open spec fn run_fields(run: RunView) -> (
    ImageView,
    (
        Seq<char>,
        (Seq<char>, (u32, (Seq<SegmentView>, (Seq<AttemptView>, Seq<CustomComparisonView>)))),
    ),
) {
    (
        run.game_icon,
        (
            run.game_name,
            (
                run.category_name,
                (
                    run.attempt_count,
                    (run.segments, (run.attempt_history, run.custom_comparisons)),
                ),
            ),
        ),
    )
}

/// The run that is made of `fields`.
pub open spec fn run_of_fields(
    fields: (
        ImageView,
        (
            Seq<char>,
            (Seq<char>, (u32, (Seq<SegmentView>, (Seq<AttemptView>, Seq<CustomComparisonView>)))),
        ),
    ),
) -> RunView {
    RunView {
        game_icon: fields.0,
        game_name: fields.1.0,
        category_name: fields.1.1.0,
        attempt_count: fields.1.1.1.0,
        segments: fields.1.1.1.1.0,
        attempt_history: fields.1.1.1.1.1.0,
        custom_comparisons: fields.1.1.1.1.1.1,
    }
}

/// The bytes that open every run in this format: the signature `LSRN` and
/// the version, 1.
pub open spec fn header() -> Seq<u8> {
    seq![0x4cu8, 0x53u8, 0x52u8, 0x4eu8, 1u8]
}

/// Whether `run` can be written out: the lengths of its texts and lists fit
/// the format. Every run that the machine holds can.
#[verifier::opaque]
pub open spec fn is_exportable(run: RunView) -> bool {
    RunFields::encodable(run_fields(run))
}

/// The bytes that the parts of `run` are written out as.
#[verifier::opaque]
pub open spec fn body_of(run: RunView) -> Seq<u8> {
    RunFields::encoding(run_fields(run))
}

/// Reads the parts of a run from the front of `bytes`: the run and the
/// bytes that follow it.
#[verifier::opaque]
pub open spec fn parse_body(bytes: Seq<u8>) -> Option<(RunView, Seq<u8>)> {
    match RunFields::parse(bytes) {
        Some((fields, rest)) => Some((run_of_fields(fields), rest)),
        None => None,
    }
}

/// The bytes that `run` is written out as.
pub open spec fn export_of(run: RunView) -> Seq<u8> {
    header() + body_of(run)
}

/// The run that `data` is read as, or why it is not read.
pub open spec fn import_of(data: Seq<u8>) -> Result<RunView, ImportError> {
    if data.len() >= 5 && data.subrange(0, 5) == header() {
        match parse_body(data.skip(5)) {
            Some((run, rest)) => {
                if rest.len() != 0 {
                    Err(ImportError::Malformed)
                } else if !run.wf() {
                    Err(ImportError::ClashingComparisonNames)
                } else {
                    Ok(run)
                }
            },
            None => Err(ImportError::Malformed),
        }
    } else {
        Err(ImportError::Malformed)
    }
}

/// The parts of a run are read back as they were written out, whatever
/// follows them.
pub proof fn lemma_body_round_trip(run: RunView, rest: Seq<u8>)
    requires
        is_exportable(run),
    ensures
        parse_body(body_of(run) + rest) == Some((run, rest)),
{
    reveal(is_exportable);
    reveal(body_of);
    reveal(parse_body);
    RunFields::lemma_round_trip(run_fields(run), rest);
}

/// A run that was written out is read back as it was. So writing out what
/// was read back gives the same bytes again.
pub proof fn law_import_inverts_export(run: RunView)
    requires
        run.wf(),
        is_exportable(run),
    ensures
        import_of(export_of(run)) == Ok::<RunView, ImportError>(run),
        import_of(export_of(run)) matches Ok(back) && export_of(back) == export_of(run),
{
    let body = body_of(run);
    lemma_body_round_trip(run, Seq::empty());
    assert(body + Seq::<u8>::empty() =~= body);
    assert(export_of(run).subrange(0, 5) =~= header());
    assert(export_of(run).skip(5) =~= body);
}

/// The parts of a run are written out one after the other.
proof fn lemma_body_is_parts_in_order(run: RunView)
    ensures
        body_of(run) == Image::encoding(run.game_icon) + String::encoding(run.game_name)
            + String::encoding(run.category_name) + u32::encoding(run.attempt_count) + Vec::<
            Segment,
        >::encoding(run.segments) + Vec::<Attempt>::encoding(run.attempt_history) + Vec::<
            CustomComparison,
        >::encoding(run.custom_comparisons),
        is_exportable(run) == (Image::encodable(run.game_icon) && String::encodable(run.game_name)
            && String::encodable(run.category_name) && Vec::<Segment>::encodable(run.segments)
            && Vec::<Attempt>::encodable(run.attempt_history) && Vec::<
            CustomComparison,
        >::encodable(run.custom_comparisons)),
{
    reveal(body_of);
    reveal(is_exportable);
    let icon = Image::encoding(run.game_icon);
    let game = String::encoding(run.game_name);
    let category = String::encoding(run.category_name);
    let count = u32::encoding(run.attempt_count);
    let segments = Vec::<Segment>::encoding(run.segments);
    let history = Vec::<Attempt>::encoding(run.attempt_history);
    let comparisons = Vec::<CustomComparison>::encoding(run.custom_comparisons);
    assert(icon + (game + (category + (count + (segments + (history + comparisons))))) =~= icon
        + game + category + count + segments + history + comparisons);
}

/// Writes `run` out as bytes.
pub fn export(run: &Run) -> (r: Vec<u8>)
    ensures
        r@ == export_of(run@),
        is_exportable(run@),
{
    let mut out: Vec<u8> = Vec::new();
    out.push(0x4c);
    out.push(0x53);
    out.push(0x52);
    out.push(0x4e);
    out.push(1);
    assert(out@ =~= header());
    let segments = run.segments();
    let attempt_history = run.attempt_history();
    let custom_comparisons = run.custom_comparisons();
    proof {
        records::lemma_models_are_views(segments@, attempt_history@, custom_comparisons@);
        lemma_body_is_parts_in_order(run@);
    }
    run.game_icon().write(&mut out);
    run.game_name().write(&mut out);
    run.category_name().write(&mut out);
    run.attempt_count().write(&mut out);
    segments.write(&mut out);
    attempt_history.write(&mut out);
    custom_comparisons.write(&mut out);
    assert(out@ =~= header() + body_of(run@));
    out
}

/// Reads a run from bytes. Either the whole of `data` is a run, which is
/// handed out, or no run is made at all.
pub fn import(data: &[u8]) -> (r: Result<Run, ImportError>)
    ensures
        match import_of(data@) {
            Ok(run) => r matches Ok(read) && read@ == run && read@.wf(),
            Err(error) => r matches Err(found) && found == error,
        },
{
    if data.len() < 5 {
        return Err(ImportError::Malformed);
    }
    if data[0] != 0x4c || data[1] != 0x53 || data[2] != 0x52 || data[3] != 0x4e || data[4] != 1 {
        assert(data@.subrange(0, 5)[0] == data@[0]);
        assert(data@.subrange(0, 5)[1] == data@[1]);
        assert(data@.subrange(0, 5)[2] == data@[2]);
        assert(data@.subrange(0, 5)[3] == data@[3]);
        assert(data@.subrange(0, 5)[4] == data@[4]);
        return Err(ImportError::Malformed);
    }
    assert(data@.subrange(0, 5) =~= header());
    proof {
        reveal(parse_body);
    }
    match RunFields::read(data, 5) {
        Some((fields, next)) => {
            if next != data.len() {
                return Err(ImportError::Malformed);
            }
            let (
                game_icon,
                (
                    game_name,
                    (category_name, (attempt_count, (segments, (attempt_history, custom_comparisons)))),
                ),
            ) = fields;
            proof {
                records::lemma_models_are_views(segments@, attempt_history@, custom_comparisons@);
            }
            match Run::from_parts(
                game_icon,
                game_name,
                category_name,
                segments,
                attempt_count,
                attempt_history,
                custom_comparisons,
            ) {
                Some(run) => Ok(run),
                None => Err(ImportError::ClashingComparisonNames),
            }
        },
        None => Err(ImportError::Malformed),
    }
}

} // verus!
