//! Bounded rolling windows: the buffers of prices, returns and predictions
//! that the engines keep, appended at the back and trimmed at the front.
use vstd::prelude::*;

verus! {

/// The last `n` items of `s`.
pub open spec fn last_n<T>(s: Seq<T>, n: int) -> Seq<T> {
    s.subrange(s.len() - n, s.len() as int)
}

/// Appends `item`; when the buffer then holds more than `limit` items, keeps
/// only the newest `keep` of them.
pub fn push_keep_last<T>(buf: &mut Vec<T>, item: T, limit: usize, keep: usize)
    requires
        keep <= limit,
    ensures
        ({
            let grown = old(buf)@.push(item);
            final(buf)@ == if grown.len() > limit {
                last_n(grown, keep as int)
            } else {
                grown
            }
        }),
{
    buf.push(item);
    let len = buf.len();
    if len > limit {
        let tail = buf.split_off(len - keep);
        *buf = tail;
    }
}

/// Appends `item`; when the buffer then holds more than `limit` items, drops
/// the oldest `count` of them.
pub fn push_drop_oldest<T>(buf: &mut Vec<T>, item: T, limit: usize, count: usize)
    requires
        count <= limit + 1,
    ensures
        ({
            let grown = old(buf)@.push(item);
            final(buf)@ == if grown.len() > limit {
                grown.subrange(count as int, grown.len() as int)
            } else {
                grown
            }
        }),
{
    buf.push(item);
    let len = buf.len();
    if len > limit {
        let tail = buf.split_off(count);
        *buf = tail;
    }
}

/// A window trimmed to keep the newest items never holds more than the
/// limit: appending to a buffer of at most `limit` items leaves at most
/// `limit`.
pub proof fn lemma_keep_last_bounded<T>(before: Seq<T>, item: T, limit: int, keep: int)
    requires
        0 <= keep <= limit,
        before.len() <= limit,
    ensures
        ({
            let grown = before.push(item);
            let after = if grown.len() > limit {
                last_n(grown, keep)
            } else {
                grown
            };
            &&& after.len() <= limit
            &&& after.len() > 0 ==> after.last() == item
        }),
{
}

/// A window that drops at least one of its oldest items whenever it
/// outgrows the limit never holds more than the limit: appending to a buffer
/// of at most `limit` items leaves at most `limit`.
pub proof fn lemma_drop_oldest_bounded<T>(before: Seq<T>, item: T, limit: int, count: int)
    requires
        1 <= count <= limit + 1,
        before.len() <= limit,
    ensures
        ({
            let grown = before.push(item);
            let after = if grown.len() > limit {
                grown.subrange(count, grown.len() as int)
            } else {
                grown
            };
            after.len() <= limit
        }),
{
}

} // verus!
