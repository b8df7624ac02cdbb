//! How texts and lists are written out: a text as its UTF-8 bytes behind
//! their number, a list as its items behind their number.

use crate::run::codec::basic::{lemma_skip_twice, lemma_split_concat};
use crate::run::codec::Codec;
use vstd::prelude::*;
use vstd::slice::{slice_subrange, slice_to_vec};
use vstd::utf8::{decode_utf8, encode_utf8, valid_utf8};

verus! {

/// Turns bytes into the text that they encode in UTF-8.
///
/// This is `String::from_utf8` of the standard library. It is trusted to
/// give back a text exactly where the bytes are valid UTF-8, and then the
/// text that they encode.
#[verifier::external_body]
fn text_from_utf8(bytes: Vec<u8>) -> (r: Option<String>)
    ensures
        match r {
            Some(text) => valid_utf8(bytes@) && text@ == decode_utf8(bytes@),
            None => !valid_utf8(bytes@),
        },
{
    match String::from_utf8(bytes) {
        Ok(text) => Some(text),
        Err(_) => None,
    }
}

impl Codec for String {
    type Model = Seq<char>;

    open spec fn model(&self) -> Seq<char> {
        self@
    }

    open spec fn encodable(model: Seq<char>) -> bool {
        encode_utf8(model).len() <= u64::MAX
    }

    open spec fn encoding(model: Seq<char>) -> Seq<u8> {
        u64::encoding(encode_utf8(model).len() as u64) + encode_utf8(model)
    }

    open spec fn parse(bytes: Seq<u8>) -> Option<(Seq<char>, Seq<u8>)> {
        match u64::parse(bytes) {
            Some((length, rest)) => {
                if length <= rest.len() && valid_utf8(rest.subrange(0, length as int)) {
                    Some((decode_utf8(rest.subrange(0, length as int)), rest.skip(length as int)))
                } else {
                    None
                }
            },
            None => None,
        }
    }

    proof fn lemma_round_trip(model: Seq<char>, rest: Seq<u8>) {
        let text = encode_utf8(model);
        u64::lemma_round_trip(text.len() as u64, text + rest);
        assert(u64::encoding(text.len() as u64) + text + rest =~= u64::encoding(text.len() as u64)
            + (text + rest));
        lemma_split_concat(text, rest);
        vstd::utf8::encode_utf8_valid_utf8(model);
        vstd::utf8::encode_utf8_decode_utf8(model);
    }

    fn write(&self, out: &mut Vec<u8>) {
        let bytes = self.as_str().as_bytes();
        let length = bytes.len() as u64;
        length.write(out);
        let mut copy = slice_to_vec(bytes);
        out.append(&mut copy);
        assert(out@ =~= old(out)@ + Self::encoding(self@));
    }

    fn read(data: &[u8], pos: usize) -> (r: Option<(String, usize)>) {
        match u64::read(data, pos) {
            Some((length, next)) => {
                if length > (data.len() - next) as u64 {
                    return None;
                }
                let end = next + length as usize;
                proof {
                    lemma_skip_twice(data@, next as int, length as int);
                }
                match text_from_utf8(slice_to_vec(slice_subrange(data, next, end))) {
                    Some(text) => Some((text, end)),
                    None => None,
                }
            },
            None => None,
        }
    }
}

/// The bytes that the items of a list are written out as, one item after
/// the other.
pub open spec fn items_encoding<T: Codec>(items: Seq<T::Model>) -> Seq<u8>
    decreases items.len(),
{
    if items.len() == 0 {
        Seq::empty()
    } else {
        items_encoding::<T>(items.drop_last()) + T::encoding(items.last())
    }
}

/// Reads `count` items from the front of `bytes`.
pub open spec fn parse_items<T: Codec>(bytes: Seq<u8>, count: nat) -> Option<
    (Seq<T::Model>, Seq<u8>),
>
    decreases count,
{
    if count == 0 {
        Some((Seq::empty(), bytes))
    } else {
        match T::parse(bytes) {
            Some((first, rest)) => match parse_items::<T>(rest, (count - 1) as nat) {
                Some((others, left)) => Some((seq![first] + others, left)),
                None => None,
            },
            None => None,
        }
    }
}

/// Whether every item can be written out.
pub open spec fn all_encodable<T: Codec>(items: Seq<T::Model>) -> bool {
    forall|i: int| 0 <= i < items.len() ==> T::encodable(#[trigger] items[i])
}

/// The models of the items of a vector, in the same order.
pub open spec fn models<T: Codec>(items: Seq<T>) -> Seq<T::Model> {
    Seq::new(items.len(), |i: int| items[i].model())
}

/// The items of a list are written out as the first item and then the
/// others.
pub proof fn lemma_items_encoding_from_front<T: Codec>(items: Seq<T::Model>)
    requires
        items.len() > 0,
    ensures
        items_encoding::<T>(items) == T::encoding(items[0]) + items_encoding::<T>(
            items.drop_first(),
        ),
    decreases items.len(),
{
    if items.len() == 1 {
        assert(items.drop_last() =~= Seq::empty());
        assert(items.drop_first() =~= Seq::empty());
        assert(items_encoding::<T>(items) =~= T::encoding(items[0]) + items_encoding::<T>(
            items.drop_first(),
        ));
    } else {
        lemma_items_encoding_from_front::<T>(items.drop_last());
        assert(items.drop_last().drop_first() =~= items.drop_first().drop_last());
        assert(items.drop_first().last() == items.last());
        assert(items.drop_last()[0] == items[0]);
        assert(items_encoding::<T>(items) =~= T::encoding(items[0]) + items_encoding::<T>(
            items.drop_first(),
        ));
    }
}

/// The items of a list are read back as they were written out.
pub proof fn lemma_items_round_trip<T: Codec>(items: Seq<T::Model>, rest: Seq<u8>)
    requires
        all_encodable::<T>(items),
    ensures
        parse_items::<T>(items_encoding::<T>(items) + rest, items.len()) == Some((items, rest)),
    decreases items.len(),
{
    if items.len() == 0 {
        assert(items_encoding::<T>(items) + rest =~= rest);
        assert(items =~= Seq::empty());
    } else {
        let others = items.drop_first();
        lemma_items_encoding_from_front::<T>(items);
        assert(items_encoding::<T>(items) + rest =~= T::encoding(items[0]) + (items_encoding::<T>(
            others,
        ) + rest));
        T::lemma_round_trip(items[0], items_encoding::<T>(others) + rest);
        assert forall|i: int| 0 <= i < others.len() implies T::encodable(#[trigger] others[i]) by {
            assert(others[i] == items[i + 1]);
        }
        lemma_items_round_trip::<T>(others, rest);
        assert(seq![items[0]] + others =~= items);
    }
}

impl<T: Codec> Codec for Vec<T> {
    type Model = Seq<T::Model>;

    open spec fn model(&self) -> Seq<T::Model> {
        models(self@)
    }

    open spec fn encodable(model: Seq<T::Model>) -> bool {
        model.len() <= u64::MAX && all_encodable::<T>(model)
    }

    open spec fn encoding(model: Seq<T::Model>) -> Seq<u8> {
        u64::encoding(model.len() as u64) + items_encoding::<T>(model)
    }

    open spec fn parse(bytes: Seq<u8>) -> Option<(Seq<T::Model>, Seq<u8>)> {
        match u64::parse(bytes) {
            Some((count, rest)) => parse_items::<T>(rest, count as nat),
            None => None,
        }
    }

    proof fn lemma_round_trip(model: Seq<T::Model>, rest: Seq<u8>) {
        let items = items_encoding::<T>(model);
        u64::lemma_round_trip(model.len() as u64, items + rest);
        assert(u64::encoding(model.len() as u64) + items + rest =~= u64::encoding(
            model.len() as u64,
        ) + (items + rest));
        lemma_items_round_trip::<T>(model, rest);
    }

    fn write(&self, out: &mut Vec<u8>) {
        let count = self.len();
        (count as u64).write(out);
        let ghost all = models(self@);
        let mut i: usize = 0;
        assert(all.take(0) =~= Seq::empty());
        assert(out@ =~= old(out)@ + u64::encoding(count as u64) + items_encoding::<T>(all.take(0)));
        while i < count
            invariant
                i <= count,
                count == self@.len(),
                all == models(self@),
                all_encodable::<T>(all.take(i as int)),
                out@ == old(out)@ + u64::encoding(count as u64) + items_encoding::<T>(
                    all.take(i as int),
                ),
            decreases count - i,
        {
            let ghost before = out@;
            self[i].write(out);
            proof {
                let longer = all.take(i + 1);
                assert(longer.drop_last() =~= all.take(i as int));
                assert(longer.last() == self@[i as int].model());
                assert(out@ =~= old(out)@ + u64::encoding(count as u64) + items_encoding::<T>(
                    longer,
                ));
                assert forall|j: int| 0 <= j < longer.len() implies T::encodable(
                    #[trigger] longer[j],
                ) by {
                    if j < i {
                        assert(longer[j] == all.take(i as int)[j]);
                    }
                }
            }
            i += 1;
        }
        assert(all.take(count as int) =~= all);
        assert(out@ =~= old(out)@ + Self::encoding(all));
    }

    fn read(data: &[u8], pos: usize) -> (r: Option<(Vec<T>, usize)>) {
        match u64::read(data, pos) {
            Some((count, start)) => {
                let ghost whole = parse_items::<T>(data@.skip(start as int), count as nat);
                let mut items: Vec<T> = Vec::new();
                let mut next = start;
                let mut k: u64 = 0;
                assert(models(items@) =~= Seq::empty());
                assert(forall|others: Seq<T::Model>|
                    #![auto]
                    Seq::<T::Model>::empty() + others =~= others);
                while k < count
                    invariant
                        k <= count,
                        start <= next <= data@.len(),
                        whole == Self::parse(data@.skip(pos as int)),
                        whole == match parse_items::<T>(
                            data@.skip(next as int),
                            (count - k) as nat,
                        ) {
                            Some((others, left)) => Some((models(items@) + others, left)),
                            None => None,
                        },
                    decreases count - k,
                {
                    match T::read(data, next) {
                        Some((item, end)) => {
                            proof {
                                let found = models(items@);
                                let longer = models(items@.push(item));
                                assert(longer =~= found.push(item.model()));
                                match parse_items::<T>(
                                    data@.skip(end as int),
                                    (count - k - 1) as nat,
                                ) {
                                    Some((others, left)) => {
                                        assert(found + (seq![item.model()] + others) =~= longer
                                            + others);
                                    },
                                    None => {},
                                }
                            }
                            items.push(item);
                            next = end;
                            k += 1;
                        },
                        None => {
                            assert(T::parse(data@.skip(next as int)).is_none());
                            assert(parse_items::<T>(
                                data@.skip(next as int),
                                (count - k) as nat,
                            ).is_none());
                            return None;
                        },
                    }
                }
                assert(models(items@) + Seq::<T::Model>::empty() =~= models(items@));
                Some((items, next))
            },
            None => None,
        }
    }
}

} // verus!
