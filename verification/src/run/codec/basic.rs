//! How numbers, times, texts and optional values are written out.

use crate::run::codec::Codec;
use crate::timing::{TimeSpan, TimeStamp, TimingMethod};
use vstd::bytes::{
    lemma_auto_spec_u32_to_from_le_bytes, lemma_auto_spec_u64_to_from_le_bytes,
    spec_u32_from_le_bytes, spec_u32_to_le_bytes, spec_u64_from_le_bytes, spec_u64_to_le_bytes,
    u32_from_le_bytes, u32_to_le_bytes, u64_from_le_bytes, u64_to_le_bytes,
};
use vstd::prelude::*;
use vstd::slice::slice_subrange;

verus! {

/// Reading from position `pos` and then skipping `n` bytes is reading from
/// position `pos + n`.
pub proof fn lemma_skip_twice(bytes: Seq<u8>, pos: int, n: int)
    requires
        0 <= pos,
        0 <= n,
        pos + n <= bytes.len(),
    ensures
        bytes.skip(pos).skip(n) == bytes.skip(pos + n),
        bytes.skip(pos).subrange(0, n) == bytes.subrange(pos, pos + n),
{
    assert(bytes.skip(pos).skip(n) =~= bytes.skip(pos + n));
    assert(bytes.skip(pos).subrange(0, n) =~= bytes.subrange(pos, pos + n));
}

/// The first bytes of a concatenation are its first part, and what follows
/// them is its second part.
pub proof fn lemma_split_concat(first: Seq<u8>, second: Seq<u8>)
    ensures
        (first + second).subrange(0, first.len() as int) == first,
        (first + second).skip(first.len() as int) == second,
{
    assert((first + second).subrange(0, first.len() as int) =~= first);
    assert((first + second).skip(first.len() as int) =~= second);
}

impl Codec for u64 {
    type Model = u64;

    open spec fn model(&self) -> u64 {
        *self
    }

    open spec fn encodable(model: u64) -> bool {
        true
    }

    open spec fn encoding(model: u64) -> Seq<u8> {
        spec_u64_to_le_bytes(model)
    }

    open spec fn parse(bytes: Seq<u8>) -> Option<(u64, Seq<u8>)> {
        if bytes.len() >= 8 {
            Some((spec_u64_from_le_bytes(bytes.subrange(0, 8)), bytes.skip(8)))
        } else {
            None
        }
    }

    proof fn lemma_round_trip(model: u64, rest: Seq<u8>) {
        lemma_auto_spec_u64_to_from_le_bytes();
        lemma_split_concat(spec_u64_to_le_bytes(model), rest);
    }

    fn write(&self, out: &mut Vec<u8>) {
        let mut bytes = u64_to_le_bytes(*self);
        out.append(&mut bytes);
    }

    fn read(data: &[u8], pos: usize) -> (r: Option<(u64, usize)>) {
        if data.len() - pos < 8 {
            return None;
        }
        proof {
            lemma_skip_twice(data@, pos as int, 8);
        }
        let value = u64_from_le_bytes(slice_subrange(data, pos, pos + 8));
        Some((value, pos + 8))
    }
}

impl Codec for u32 {
    type Model = u32;

    open spec fn model(&self) -> u32 {
        *self
    }

    open spec fn encodable(model: u32) -> bool {
        true
    }

    open spec fn encoding(model: u32) -> Seq<u8> {
        spec_u32_to_le_bytes(model)
    }

    open spec fn parse(bytes: Seq<u8>) -> Option<(u32, Seq<u8>)> {
        if bytes.len() >= 4 {
            Some((spec_u32_from_le_bytes(bytes.subrange(0, 4)), bytes.skip(4)))
        } else {
            None
        }
    }

    proof fn lemma_round_trip(model: u32, rest: Seq<u8>) {
        lemma_auto_spec_u32_to_from_le_bytes();
        lemma_split_concat(spec_u32_to_le_bytes(model), rest);
    }

    fn write(&self, out: &mut Vec<u8>) {
        let mut bytes = u32_to_le_bytes(*self);
        out.append(&mut bytes);
    }

    fn read(data: &[u8], pos: usize) -> (r: Option<(u32, usize)>) {
        if data.len() - pos < 4 {
            return None;
        }
        proof {
            lemma_skip_twice(data@, pos as int, 4);
        }
        let value = u32_from_le_bytes(slice_subrange(data, pos, pos + 4));
        Some((value, pos + 4))
    }
}

/// A version or a place is written out as a 64-bit number. A number that
/// the machine cannot hold as a place is not read.
impl Codec for usize {
    type Model = usize;

    open spec fn model(&self) -> usize {
        *self
    }

    open spec fn encodable(model: usize) -> bool {
        true
    }

    open spec fn encoding(model: usize) -> Seq<u8> {
        u64::encoding(model as u64)
    }

    open spec fn parse(bytes: Seq<u8>) -> Option<(usize, Seq<u8>)> {
        match u64::parse(bytes) {
            Some((value, rest)) => if value <= usize::MAX {
                Some((value as usize, rest))
            } else {
                None
            },
            None => None,
        }
    }

    proof fn lemma_round_trip(model: usize, rest: Seq<u8>) {
        u64::lemma_round_trip(model as u64, rest);
    }

    fn write(&self, out: &mut Vec<u8>) {
        (*self as u64).write(out);
    }

    fn read(data: &[u8], pos: usize) -> (r: Option<(usize, usize)>) {
        match u64::read(data, pos) {
            Some((value, next)) => if value <= usize::MAX as u64 {
                Some((value as usize, next))
            } else {
                None
            },
            None => None,
        }
    }
}

/// The number that stands for a duration of `nanos` nanoseconds: the
/// nanoseconds raised by 2 to the 63rd, so that it is never negative.
pub open spec fn raised(nanos: i64) -> u64 {
    (nanos + 0x8000_0000_0000_0000) as u64
}

/// The nanoseconds that the number `value` stands for.
pub open spec fn lowered(value: u64) -> i64 {
    (value - 0x8000_0000_0000_0000) as i64
}

impl Codec for TimeSpan {
    type Model = TimeSpan;

    open spec fn model(&self) -> TimeSpan {
        *self
    }

    open spec fn encodable(model: TimeSpan) -> bool {
        true
    }

    open spec fn encoding(model: TimeSpan) -> Seq<u8> {
        u64::encoding(raised(model.nanos))
    }

    open spec fn parse(bytes: Seq<u8>) -> Option<(TimeSpan, Seq<u8>)> {
        match u64::parse(bytes) {
            Some((value, rest)) => Some((TimeSpan { nanos: lowered(value) }, rest)),
            None => None,
        }
    }

    proof fn lemma_round_trip(model: TimeSpan, rest: Seq<u8>) {
        u64::lemma_round_trip(raised(model.nanos), rest);
    }

    fn write(&self, out: &mut Vec<u8>) {
        let value = (self.nanos as i128 + 0x8000_0000_0000_0000) as u64;
        value.write(out);
    }

    fn read(data: &[u8], pos: usize) -> (r: Option<(TimeSpan, usize)>) {
        match u64::read(data, pos) {
            Some((value, next)) => {
                let nanos = (value as i128 - 0x8000_0000_0000_0000) as i64;
                Some((TimeSpan::from_nanos(nanos), next))
            },
            None => None,
        }
    }
}

impl Codec for TimeStamp {
    type Model = TimeStamp;

    open spec fn model(&self) -> TimeStamp {
        *self
    }

    open spec fn encodable(model: TimeStamp) -> bool {
        true
    }

    open spec fn encoding(model: TimeStamp) -> Seq<u8> {
        u64::encoding(model.nanos)
    }

    open spec fn parse(bytes: Seq<u8>) -> Option<(TimeStamp, Seq<u8>)> {
        match u64::parse(bytes) {
            Some((nanos, rest)) => Some((TimeStamp { nanos }, rest)),
            None => None,
        }
    }

    proof fn lemma_round_trip(model: TimeStamp, rest: Seq<u8>) {
        u64::lemma_round_trip(model.nanos, rest);
    }

    fn write(&self, out: &mut Vec<u8>) {
        self.nanos.write(out);
    }

    fn read(data: &[u8], pos: usize) -> (r: Option<(TimeStamp, usize)>) {
        match u64::read(data, pos) {
            Some((nanos, next)) => Some((TimeStamp::from_nanos(nanos), next)),
            None => None,
        }
    }
}

/// The byte that stands for a timing method.
pub open spec fn method_tag(method: TimingMethod) -> u8 {
    match method {
        TimingMethod::RealTime => 0,
        TimingMethod::GameTime => 1,
    }
}

impl Codec for TimingMethod {
    type Model = TimingMethod;

    open spec fn model(&self) -> TimingMethod {
        *self
    }

    open spec fn encodable(model: TimingMethod) -> bool {
        true
    }

    open spec fn encoding(model: TimingMethod) -> Seq<u8> {
        seq![method_tag(model)]
    }

    open spec fn parse(bytes: Seq<u8>) -> Option<(TimingMethod, Seq<u8>)> {
        if bytes.len() >= 1 && bytes[0] == 0 {
            Some((TimingMethod::RealTime, bytes.skip(1)))
        } else if bytes.len() >= 1 && bytes[0] == 1 {
            Some((TimingMethod::GameTime, bytes.skip(1)))
        } else {
            None
        }
    }

    proof fn lemma_round_trip(model: TimingMethod, rest: Seq<u8>) {
        lemma_split_concat(seq![method_tag(model)], rest);
    }

    fn write(&self, out: &mut Vec<u8>) {
        let tag: u8 = match self {
            TimingMethod::RealTime => 0,
            TimingMethod::GameTime => 1,
        };
        out.push(tag);
        assert(out@ =~= old(out)@ + seq![method_tag(*self)]);
    }

    fn read(data: &[u8], pos: usize) -> (r: Option<(TimingMethod, usize)>) {
        if pos >= data.len() {
            return None;
        }
        proof {
            lemma_skip_twice(data@, pos as int, 1);
        }
        let tag = data[pos];
        if tag == 0 {
            Some((TimingMethod::RealTime, pos + 1))
        } else if tag == 1 {
            Some((TimingMethod::GameTime, pos + 1))
        } else {
            None
        }
    }
}

/// An optional value is written out as a byte that says whether it is
/// there, 1 or 0, and behind a 1 the value.
impl<T: Codec> Codec for Option<T> {
    type Model = Option<T::Model>;

    open spec fn model(&self) -> Option<T::Model> {
        match self {
            Some(value) => Some(value.model()),
            None => None,
        }
    }

    open spec fn encodable(model: Option<T::Model>) -> bool {
        match model {
            Some(value) => T::encodable(value),
            None => true,
        }
    }

    open spec fn encoding(model: Option<T::Model>) -> Seq<u8> {
        match model {
            Some(value) => seq![1u8] + T::encoding(value),
            None => seq![0u8],
        }
    }

    open spec fn parse(bytes: Seq<u8>) -> Option<(Option<T::Model>, Seq<u8>)> {
        if bytes.len() >= 1 && bytes[0] == 0 {
            Some((None, bytes.skip(1)))
        } else if bytes.len() >= 1 && bytes[0] == 1 {
            match T::parse(bytes.skip(1)) {
                Some((value, rest)) => Some((Some(value), rest)),
                None => None,
            }
        } else {
            None
        }
    }

    proof fn lemma_round_trip(model: Option<T::Model>, rest: Seq<u8>) {
        match model {
            Some(value) => {
                T::lemma_round_trip(value, rest);
                assert((seq![1u8] + T::encoding(value) + rest).skip(1) =~= T::encoding(value)
                    + rest);
            },
            None => {
                lemma_split_concat(seq![0u8], rest);
            },
        }
    }

    fn write(&self, out: &mut Vec<u8>) {
        match self {
            Some(value) => {
                out.push(1);
                value.write(out);
                assert(out@ =~= old(out)@ + (seq![1u8] + T::encoding(value.model())));
            },
            None => {
                out.push(0);
                assert(out@ =~= old(out)@ + seq![0u8]);
            },
        }
    }

    fn read(data: &[u8], pos: usize) -> (r: Option<(Option<T>, usize)>) {
        if pos >= data.len() {
            return None;
        }
        proof {
            lemma_skip_twice(data@, pos as int, 1);
        }
        let tag = data[pos];
        if tag == 0 {
            Some((None, pos + 1))
        } else if tag == 1 {
            match T::read(data, pos + 1) {
                Some((value, next)) => Some((Some(value), next)),
                None => None,
            }
        } else {
            None
        }
    }
}

} // verus!
