//! How the parts of a run are written out: each as its fields, one after
//! the other.

use crate::comparison::{CustomComparison, CustomComparisonView};
use crate::run::codec::list::models;
use crate::run::codec::Codec;
use crate::run::{
    views, Attempt, AttemptView, Image, ImageView, Segment, SegmentTimes, SegmentView,
};
use crate::timing::{TimeSpan, TimeStamp, TimingMethod};
use vstd::prelude::*;

verus! {

/// A pair is written out as its first part and then its second.
impl<A: Codec, B: Codec> Codec for (A, B) {
    type Model = (A::Model, B::Model);

    open spec fn model(&self) -> (A::Model, B::Model) {
        (self.0.model(), self.1.model())
    }

    open spec fn encodable(model: (A::Model, B::Model)) -> bool {
        A::encodable(model.0) && B::encodable(model.1)
    }

    open spec fn encoding(model: (A::Model, B::Model)) -> Seq<u8> {
        A::encoding(model.0) + B::encoding(model.1)
    }

    open spec fn parse(bytes: Seq<u8>) -> Option<((A::Model, B::Model), Seq<u8>)> {
        match A::parse(bytes) {
            Some((first, rest)) => match B::parse(rest) {
                Some((second, left)) => Some(((first, second), left)),
                None => None,
            },
            None => None,
        }
    }

    proof fn lemma_round_trip(model: (A::Model, B::Model), rest: Seq<u8>) {
        A::lemma_round_trip(model.0, B::encoding(model.1) + rest);
        B::lemma_round_trip(model.1, rest);
        assert(A::encoding(model.0) + B::encoding(model.1) + rest =~= A::encoding(model.0) + (
        B::encoding(model.1) + rest));
    }

    fn write(&self, out: &mut Vec<u8>) {
        self.0.write(out);
        self.1.write(out);
        assert(out@ =~= old(out)@ + Self::encoding(self.model()));
    }

    fn read(data: &[u8], pos: usize) -> (r: Option<((A, B), usize)>) {
        match A::read(data, pos) {
            Some((first, next)) => match B::read(data, next) {
                Some((second, end)) => Some(((first, second), end)),
                None => None,
            },
            None => None,
        }
    }
}

/// The times of a vector stand for themselves.
pub proof fn lemma_times_are_their_models(times: Seq<Option<TimeSpan>>)
    ensures
        models(times) == times,
{
    assert(models(times) =~= times);
}

/// The fields of an image, in the order in which they are written out.
pub type ImageFields = (usize, String);

impl Codec for Image {
    type Model = ImageView;

    open spec fn model(&self) -> ImageView {
        self@
    }

    open spec fn encodable(model: ImageView) -> bool {
        ImageFields::encodable((model.id, model.url))
    }

    open spec fn encoding(model: ImageView) -> Seq<u8> {
        ImageFields::encoding((model.id, model.url))
    }

    open spec fn parse(bytes: Seq<u8>) -> Option<(ImageView, Seq<u8>)> {
        match ImageFields::parse(bytes) {
            Some(((id, url), rest)) => Some((ImageView { id, url }, rest)),
            None => None,
        }
    }

    proof fn lemma_round_trip(model: ImageView, rest: Seq<u8>) {
        ImageFields::lemma_round_trip((model.id, model.url), rest);
    }

    fn write(&self, out: &mut Vec<u8>) {
        self.id().write(out);
        self.url().write(out);
        assert(out@ =~= old(out)@ + Self::encoding(self@));
    }

    fn read(data: &[u8], pos: usize) -> (r: Option<(Image, usize)>) {
        match ImageFields::read(data, pos) {
            Some(((id, url), next)) => Some((Image::from_parts(id, url), next)),
            None => None,
        }
    }
}

/// The fields of the times of a segment, in the order in which they are
/// written out.
pub type SegmentTimesFields = (Option<TimeSpan>, Option<TimeSpan>);

impl Codec for SegmentTimes {
    type Model = SegmentTimes;

    open spec fn model(&self) -> SegmentTimes {
        *self
    }

    open spec fn encodable(model: SegmentTimes) -> bool {
        true
    }

    open spec fn encoding(model: SegmentTimes) -> Seq<u8> {
        SegmentTimesFields::encoding((model.split_time, model.best_segment_time))
    }

    open spec fn parse(bytes: Seq<u8>) -> Option<(SegmentTimes, Seq<u8>)> {
        match SegmentTimesFields::parse(bytes) {
            Some(((split_time, best_segment_time), rest)) => Some(
                (SegmentTimes { split_time, best_segment_time }, rest),
            ),
            None => None,
        }
    }

    proof fn lemma_round_trip(model: SegmentTimes, rest: Seq<u8>) {
        SegmentTimesFields::lemma_round_trip((model.split_time, model.best_segment_time), rest);
    }

    fn write(&self, out: &mut Vec<u8>) {
        self.split_time.write(out);
        self.best_segment_time.write(out);
        assert(out@ =~= old(out)@ + Self::encoding(*self));
    }

    fn read(data: &[u8], pos: usize) -> (r: Option<(SegmentTimes, usize)>) {
        match SegmentTimesFields::read(data, pos) {
            Some(((split_time, best_segment_time), next)) => Some(
                (SegmentTimes { split_time, best_segment_time }, next),
            ),
            None => None,
        }
    }
}

/// The fields of a segment, in the order in which they are written out.
pub type SegmentFields = (String, (Image, (SegmentTimes, SegmentTimes)));

/// The fields of a segment as they are written out.
pub open spec fn segment_fields(segment: SegmentView) -> (
    Seq<char>,
    (ImageView, (SegmentTimes, SegmentTimes)),
) {
    (segment.name, (segment.icon, (segment.real_time, segment.game_time)))
}

impl Codec for Segment {
    type Model = SegmentView;

    open spec fn model(&self) -> SegmentView {
        self@
    }

    open spec fn encodable(model: SegmentView) -> bool {
        SegmentFields::encodable(segment_fields(model))
    }

    open spec fn encoding(model: SegmentView) -> Seq<u8> {
        SegmentFields::encoding(segment_fields(model))
    }

    open spec fn parse(bytes: Seq<u8>) -> Option<(SegmentView, Seq<u8>)> {
        match SegmentFields::parse(bytes) {
            Some(((name, (icon, (real_time, game_time))), rest)) => Some(
                (SegmentView { name, icon, real_time, game_time }, rest),
            ),
            None => None,
        }
    }

    proof fn lemma_round_trip(model: SegmentView, rest: Seq<u8>) {
        SegmentFields::lemma_round_trip(segment_fields(model), rest);
    }

    fn write(&self, out: &mut Vec<u8>) {
        self.name().write(out);
        self.icon().write(out);
        self.times(TimingMethod::RealTime).write(out);
        self.times(TimingMethod::GameTime).write(out);
        assert(out@ =~= old(out)@ + Self::encoding(self@));
    }

    fn read(data: &[u8], pos: usize) -> (r: Option<(Segment, usize)>) {
        match SegmentFields::read(data, pos) {
            Some(((name, (icon, (real_time, game_time))), next)) => Some(
                (Segment::from_parts(name, icon, real_time, game_time), next),
            ),
            None => None,
        }
    }
}

/// The fields of an attempt, in the order in which they are written out.
pub type AttemptFields = (
    u32,
    (TimeStamp, (Option<TimeStamp>, (TimingMethod, Vec<Option<TimeSpan>>))),
);

/// The fields of an attempt as they are written out.
pub open spec fn attempt_fields(attempt: AttemptView) -> (
    u32,
    (TimeStamp, (Option<TimeStamp>, (TimingMethod, Seq<Option<TimeSpan>>))),
) {
    (
        attempt.index,
        (attempt.started, (attempt.ended, (attempt.timing_method, attempt.segment_times))),
    )
}

impl Codec for Attempt {
    type Model = AttemptView;

    open spec fn model(&self) -> AttemptView {
        self@
    }

    open spec fn encodable(model: AttemptView) -> bool {
        AttemptFields::encodable(attempt_fields(model))
    }

    open spec fn encoding(model: AttemptView) -> Seq<u8> {
        AttemptFields::encoding(attempt_fields(model))
    }

    open spec fn parse(bytes: Seq<u8>) -> Option<(AttemptView, Seq<u8>)> {
        match AttemptFields::parse(bytes) {
            Some(((index, (started, (ended, (timing_method, segment_times)))), rest)) => Some(
                (AttemptView { index, started, ended, segment_times, timing_method }, rest),
            ),
            None => None,
        }
    }

    proof fn lemma_round_trip(model: AttemptView, rest: Seq<u8>) {
        AttemptFields::lemma_round_trip(attempt_fields(model), rest);
    }

    fn write(&self, out: &mut Vec<u8>) {
        proof {
            lemma_times_are_their_models(self.segment_times@);
        }
        self.index.write(out);
        self.started.write(out);
        self.ended.write(out);
        self.timing_method.write(out);
        self.segment_times.write(out);
        assert(out@ =~= old(out)@ + Self::encoding(self@));
    }

    fn read(data: &[u8], pos: usize) -> (r: Option<(Attempt, usize)>) {
        match AttemptFields::read(data, pos) {
            Some(((index, (started, (ended, (timing_method, segment_times)))), next)) => {
                proof {
                    lemma_times_are_their_models(segment_times@);
                }
                Some((Attempt { index, started, ended, segment_times, timing_method }, next))
            },
            None => None,
        }
    }
}

/// The fields of a custom comparison, in the order in which they are
/// written out.
pub type CustomComparisonFields = (String, (Vec<Option<TimeSpan>>, Vec<Option<TimeSpan>>));

/// The fields of a custom comparison as they are written out.
pub open spec fn custom_comparison_fields(comparison: CustomComparisonView) -> (
    Seq<char>,
    (Seq<Option<TimeSpan>>, Seq<Option<TimeSpan>>),
) {
    (comparison.name, (comparison.real_time, comparison.game_time))
}

impl Codec for CustomComparison {
    type Model = CustomComparisonView;

    open spec fn model(&self) -> CustomComparisonView {
        self@
    }

    open spec fn encodable(model: CustomComparisonView) -> bool {
        CustomComparisonFields::encodable(custom_comparison_fields(model))
    }

    open spec fn encoding(model: CustomComparisonView) -> Seq<u8> {
        CustomComparisonFields::encoding(custom_comparison_fields(model))
    }

    open spec fn parse(bytes: Seq<u8>) -> Option<(CustomComparisonView, Seq<u8>)> {
        match CustomComparisonFields::parse(bytes) {
            Some(((name, (real_time, game_time)), rest)) => Some(
                (CustomComparisonView { name, real_time, game_time }, rest),
            ),
            None => None,
        }
    }

    proof fn lemma_round_trip(model: CustomComparisonView, rest: Seq<u8>) {
        CustomComparisonFields::lemma_round_trip(custom_comparison_fields(model), rest);
    }

    fn write(&self, out: &mut Vec<u8>) {
        proof {
            lemma_times_are_their_models(self.real_time@);
            lemma_times_are_their_models(self.game_time@);
        }
        self.name.write(out);
        self.real_time.write(out);
        self.game_time.write(out);
        assert(out@ =~= old(out)@ + Self::encoding(self@));
    }

    fn read(data: &[u8], pos: usize) -> (r: Option<(CustomComparison, usize)>) {
        match CustomComparisonFields::read(data, pos) {
            Some(((name, (real_time, game_time)), next)) => {
                proof {
                    lemma_times_are_their_models(real_time@);
                    lemma_times_are_their_models(game_time@);
                }
                Some((CustomComparison { name, real_time, game_time }, next))
            },
            None => None,
        }
    }
}

/// The models of segments, attempts and custom comparisons are their views.
pub proof fn lemma_models_are_views(
    segments: Seq<Segment>,
    attempts: Seq<Attempt>,
    comparisons: Seq<CustomComparison>,
)
    ensures
        models(segments) == views(segments),
        models(attempts) == views(attempts),
        models(comparisons) == views(comparisons),
{
    assert(models(segments) =~= views(segments));
    assert(models(attempts) =~= views(attempts));
    assert(models(comparisons) =~= views(comparisons));
}

} // verus!
