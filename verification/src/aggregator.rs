//! Frame aggregation: a per-participant, per-channel "latest value wins"
//! table, the incrementally built one-shot game start payload, and the
//! length-prefixed packing shared by both.
//!
//! Snapshot data arrives faster than the simulation tick, so only the most
//! recently received payload per (participant, channel) pair is retained;
//! older payloads are overwritten, never queued. Packing concatenates, in
//! first-submission order, a 2-byte little-endian length prefix followed
//! by the payload bytes of every entry.

use crate::message::MsgServerFrameData;
use crate::message::MsgServerGameStart;
use vstd::bytes::lemma_auto_spec_u16_to_from_le_bytes;
use vstd::bytes::spec_u16_from_le_bytes;
use vstd::bytes::spec_u16_to_le_bytes;
use vstd::bytes::u16_from_le_bytes;
use vstd::bytes::u16_to_le_bytes;
use vstd::prelude::*;
use vstd::slice::slice_subrange;

verus! {

/// Largest payload a single entry may carry: its length must fit the
/// 2-byte prefix written in front of it.
pub const MAX_ENTRY_PAYLOAD: usize = 0xFFFF;

// ---------------------------------------------------------------------
// Mathematical model: association lists of plain values.
// ---------------------------------------------------------------------

/// The payload stored for `(identity, channel_type)`, reading the first
/// matching entry.
pub open spec fn channel_lookup(
    m: Seq<(u64, u32, Seq<u8>)>,
    identity: u64,
    channel_type: u32,
) -> Option<Seq<u8>>
    decreases m.len(),
{
    if m.len() == 0 {
        None
    } else if m[0].0 == identity && m[0].1 == channel_type {
        Some(m[0].2)
    } else {
        channel_lookup(m.skip(1), identity, channel_type)
    }
}

/// The table after a channel submission: the first entry for the pair is
/// overwritten in place, a missing pair is appended at the end.
pub open spec fn spec_submit_channel(
    m: Seq<(u64, u32, Seq<u8>)>,
    identity: u64,
    channel_type: u32,
    payload: Seq<u8>,
) -> Seq<(u64, u32, Seq<u8>)>
    decreases m.len(),
{
    if m.len() == 0 {
        seq![(identity, channel_type, payload)]
    } else if m[0].0 == identity && m[0].1 == channel_type {
        seq![(identity, channel_type, payload)] + m.skip(1)
    } else {
        seq![m[0]] + spec_submit_channel(m.skip(1), identity, channel_type, payload)
    }
}

/// Bytes the table will occupy once packed: a 2-byte prefix plus the
/// payload, per entry.
pub open spec fn table_bytes(m: Seq<(u64, u32, Seq<u8>)>) -> int
    decreases m.len(),
{
    if m.len() == 0 {
        0
    } else {
        2 + m[0].2.len() + table_bytes(m.skip(1))
    }
}

/// The payload stored for `identity` in a start-payload buffer.
pub open spec fn start_lookup(m: Seq<(u64, Seq<u8>)>, identity: u64) -> Option<Seq<u8>>
    decreases m.len(),
{
    if m.len() == 0 {
        None
    } else if m[0].0 == identity {
        Some(m[0].1)
    } else {
        start_lookup(m.skip(1), identity)
    }
}

/// The start-payload buffer after a submission: the first entry for the
/// identity is overwritten in place, a missing identity is appended.
pub open spec fn spec_submit_start(
    m: Seq<(u64, Seq<u8>)>,
    identity: u64,
    payload: Seq<u8>,
) -> Seq<(u64, Seq<u8>)>
    decreases m.len(),
{
    if m.len() == 0 {
        seq![(identity, payload)]
    } else if m[0].0 == identity {
        seq![(identity, payload)] + m.skip(1)
    } else {
        seq![m[0]] + spec_submit_start(m.skip(1), identity, payload)
    }
}

/// Sum of the payload lengths of a start-payload buffer.
pub open spec fn start_bytes(m: Seq<(u64, Seq<u8>)>) -> int
    decreases m.len(),
{
    if m.len() == 0 {
        0
    } else {
        m[0].1.len() + start_bytes(m.skip(1))
    }
}

/// Sum of the lengths of a list of payloads.
pub open spec fn sum_lens(ps: Seq<Seq<u8>>) -> int
    decreases ps.len(),
{
    if ps.len() == 0 {
        0
    } else {
        ps[0].len() + sum_lens(ps.skip(1))
    }
}

/// The packed form of a list of payloads: for each payload in order, a
/// 2-byte little-endian length prefix followed by the payload bytes.
pub open spec fn pack_bytes(ps: Seq<Seq<u8>>) -> Seq<u8>
    decreases ps.len(),
{
    if ps.len() == 0 {
        Seq::<u8>::empty()
    } else {
        spec_u16_to_le_bytes(ps[0].len() as u16) + ps[0] + pack_bytes(ps.skip(1))
    }
}

/// The payloads recovered from a packed buffer, or `None` when the buffer
/// is not a whole number of length-prefixed segments.
pub open spec fn unpack_bytes(b: Seq<u8>) -> Option<Seq<Seq<u8>>>
    decreases b.len(),
{
    if b.len() == 0 {
        Some(Seq::<Seq<u8>>::empty())
    } else if b.len() < 2 {
        None
    } else {
        let n = spec_u16_from_le_bytes(b.subrange(0, 2)) as int;
        if b.len() < 2 + n {
            None
        } else {
            match unpack_bytes(b.skip(2 + n)) {
                Some(rest) => Some(seq![b.subrange(2, 2 + n)] + rest),
                None => None,
            }
        }
    }
}

/// A received frame list agrees with its advertised payload size and can
/// be packed: the advertised size is the exact payload sum, every payload
/// fits its 2-byte prefix, and the packed buffer fits in 32 bits.
pub open spec fn frames_consistent(ps: Seq<Seq<u8>>, expected_bytes: u32) -> bool {
    &&& sum_lens(ps) == expected_bytes as int
    &&& forall|i: int| 0 <= i < ps.len() ==> #[trigger] ps[i].len() <= MAX_ENTRY_PAYLOAD as int
    &&& expected_bytes as int + 2 * ps.len() <= u32::MAX as int
}

// ---------------------------------------------------------------------
// Lemmas about the model.
// ---------------------------------------------------------------------

/// A packed table occupies at least two bytes per entry and never a
/// negative amount.
pub proof fn lemma_table_bytes_bounds(m: Seq<(u64, u32, Seq<u8>)>)
    ensures
        2 * m.len() <= table_bytes(m),
    decreases m.len(),
{
    if m.len() > 0 {
        lemma_table_bytes_bounds(m.skip(1));
    }
}

/// Appending an entry grows the packed size by the entry's footprint.
pub proof fn lemma_table_bytes_push(m: Seq<(u64, u32, Seq<u8>)>, e: (u64, u32, Seq<u8>))
    ensures
        table_bytes(m.push(e)) == table_bytes(m) + 2 + e.2.len(),
    decreases m.len(),
{
    if m.len() == 0 {
        assert(m.push(e).skip(1) =~= Seq::<(u64, u32, Seq<u8>)>::empty());
        assert(m.push(e)[0] == e);
        assert(table_bytes(m.push(e)) == 2 + e.2.len() + table_bytes(m.push(e).skip(1)));
        assert(table_bytes(Seq::<(u64, u32, Seq<u8>)>::empty()) == 0);
    } else {
        assert(m.push(e).skip(1) =~= m.skip(1).push(e));
        lemma_table_bytes_push(m.skip(1), e);
        assert(m.push(e)[0] == m[0]);
        assert(table_bytes(m.push(e)) == 2 + m[0].2.len() + table_bytes(m.push(e).skip(1)));
        assert(table_bytes(m) == 2 + m[0].2.len() + table_bytes(m.skip(1)));
    }
}

/// Replacing an entry shifts the packed size by the payload length
/// difference.
pub proof fn lemma_table_bytes_update(m: Seq<(u64, u32, Seq<u8>)>, i: int, e: (u64, u32, Seq<u8>))
    requires
        0 <= i < m.len(),
    ensures
        table_bytes(m.update(i, e)) == table_bytes(m) - m[i].2.len() + e.2.len(),
    decreases m.len(),
{
    if i == 0 {
        assert(m.update(0, e).skip(1) =~= m.skip(1));
    } else {
        assert(m.update(i, e).skip(1) =~= m.skip(1).update(i - 1, e));
        lemma_table_bytes_update(m.skip(1), i - 1, e);
    }
}

/// An entry's own footprint is part of the packed size.
pub proof fn lemma_table_bytes_elem(m: Seq<(u64, u32, Seq<u8>)>, i: int)
    requires
        0 <= i < m.len(),
    ensures
        2 + m[i].2.len() <= table_bytes(m),
    decreases m.len(),
{
    if i == 0 {
        lemma_table_bytes_bounds(m.skip(1));
    } else {
        lemma_table_bytes_elem(m.skip(1), i - 1);
    }
}

/// A submission left of the first match leaves the prefix untouched.
pub proof fn lemma_submit_channel_prefix(
    m: Seq<(u64, u32, Seq<u8>)>,
    identity: u64,
    channel_type: u32,
    payload: Seq<u8>,
    k: int,
)
    requires
        0 <= k <= m.len(),
        forall|j: int|
            0 <= j < k ==> !(#[trigger] m[j].0 == identity && m[j].1 == channel_type),
    ensures
        spec_submit_channel(m, identity, channel_type, payload) == m.take(k) + spec_submit_channel(
            m.skip(k),
            identity,
            channel_type,
            payload,
        ),
    decreases k,
{
    if k == 0 {
        assert(m.take(0) =~= Seq::<(u64, u32, Seq<u8>)>::empty());
        assert(m.skip(0) =~= m);
        assert(m.take(0) + spec_submit_channel(m, identity, channel_type, payload)
            =~= spec_submit_channel(m, identity, channel_type, payload));
    } else {
        lemma_submit_channel_prefix(m.skip(1), identity, channel_type, payload, k - 1);
        assert(m.skip(1).take(k - 1) =~= m.take(k).skip(1));
        assert(m.skip(1).skip(k - 1) =~= m.skip(k));
        assert(seq![m[0]] + (m.skip(1).take(k - 1) + spec_submit_channel(
            m.skip(k),
            identity,
            channel_type,
            payload,
        )) =~= m.take(k) + spec_submit_channel(m.skip(k), identity, channel_type, payload));
    }
}

/// What a channel submission does to every lookup: the submitted pair now
/// holds the payload, every other pair is untouched.
pub proof fn lemma_submit_channel_lookup(
    m: Seq<(u64, u32, Seq<u8>)>,
    identity: u64,
    channel_type: u32,
    payload: Seq<u8>,
)
    ensures
        channel_lookup(
            spec_submit_channel(m, identity, channel_type, payload),
            identity,
            channel_type,
        ) == Some(payload),
        forall|id2: u64, ty2: u32|
            !(id2 == identity && ty2 == channel_type) ==> #[trigger] channel_lookup(
                spec_submit_channel(m, identity, channel_type, payload),
                id2,
                ty2,
            ) == channel_lookup(m, id2, ty2),
    decreases m.len(),
{
    let r = spec_submit_channel(m, identity, channel_type, payload);
    if m.len() == 0 {
        assert(r.skip(1) =~= Seq::<(u64, u32, Seq<u8>)>::empty());
        assert(r[0] == (identity, channel_type, payload));
        assert(channel_lookup(r, identity, channel_type) == Some(payload));
        assert forall|id2: u64, ty2: u32| !(id2 == identity && ty2 == channel_type) implies
            #[trigger] channel_lookup(r, id2, ty2) == channel_lookup(m, id2, ty2) by {
            assert(channel_lookup(r, id2, ty2) == channel_lookup(r.skip(1), id2, ty2));
        }
    } else if m[0].0 == identity && m[0].1 == channel_type {
        assert(r.skip(1) =~= m.skip(1));
        assert(r[0] == (identity, channel_type, payload));
        assert(channel_lookup(r, identity, channel_type) == Some(payload));
        assert forall|id2: u64, ty2: u32| !(id2 == identity && ty2 == channel_type) implies
            #[trigger] channel_lookup(r, id2, ty2) == channel_lookup(m, id2, ty2) by {
            assert(channel_lookup(r, id2, ty2) == channel_lookup(m.skip(1), id2, ty2));
            assert(channel_lookup(m, id2, ty2) == channel_lookup(m.skip(1), id2, ty2));
        }
    } else {
        lemma_submit_channel_lookup(m.skip(1), identity, channel_type, payload);
        assert(r.skip(1) =~= spec_submit_channel(m.skip(1), identity, channel_type, payload));
        assert(r[0] == m[0]);
        assert(channel_lookup(r, identity, channel_type) == channel_lookup(
            r.skip(1),
            identity,
            channel_type,
        ));
        assert forall|id2: u64, ty2: u32| !(id2 == identity && ty2 == channel_type) implies
            #[trigger] channel_lookup(r, id2, ty2) == channel_lookup(m, id2, ty2) by {
            if m[0].0 == id2 && m[0].1 == ty2 {
                assert(channel_lookup(r, id2, ty2) == Some(m[0].2));
                assert(channel_lookup(m, id2, ty2) == Some(m[0].2));
            } else {
                assert(channel_lookup(r, id2, ty2) == channel_lookup(r.skip(1), id2, ty2));
                assert(channel_lookup(m, id2, ty2) == channel_lookup(m.skip(1), id2, ty2));
            }
        }
    }
}

/// Two submissions to the same pair collapse to the last one: the table
/// keeps no history.
pub proof fn lemma_submit_channel_latest_wins(
    m: Seq<(u64, u32, Seq<u8>)>,
    identity: u64,
    channel_type: u32,
    p1: Seq<u8>,
    p2: Seq<u8>,
)
    ensures
        spec_submit_channel(
            spec_submit_channel(m, identity, channel_type, p1),
            identity,
            channel_type,
            p2,
        ) == spec_submit_channel(m, identity, channel_type, p2),
    decreases m.len(),
{
    let once = spec_submit_channel(m, identity, channel_type, p1);
    if m.len() == 0 {
        assert(spec_submit_channel(once, identity, channel_type, p2)
            =~= spec_submit_channel(m, identity, channel_type, p2));
    } else if m[0].0 == identity && m[0].1 == channel_type {
        assert(once.skip(1) =~= m.skip(1));
        assert(spec_submit_channel(once, identity, channel_type, p2)
            =~= spec_submit_channel(m, identity, channel_type, p2));
    } else {
        lemma_submit_channel_latest_wins(m.skip(1), identity, channel_type, p1, p2);
        assert(once.skip(1) =~= spec_submit_channel(m.skip(1), identity, channel_type, p1));
        assert(once[0] == m[0]);
        assert(spec_submit_channel(once, identity, channel_type, p2)
            =~= spec_submit_channel(m, identity, channel_type, p2));
    }
}

/// A submission left of the first match leaves the prefix of a
/// start-payload buffer untouched.
pub proof fn lemma_submit_start_prefix(
    m: Seq<(u64, Seq<u8>)>,
    identity: u64,
    payload: Seq<u8>,
    k: int,
)
    requires
        0 <= k <= m.len(),
        forall|j: int| 0 <= j < k ==> #[trigger] m[j].0 != identity,
    ensures
        spec_submit_start(m, identity, payload) == m.take(k) + spec_submit_start(
            m.skip(k),
            identity,
            payload,
        ),
    decreases k,
{
    if k == 0 {
        assert(m.skip(0) =~= m);
        assert(m.take(0) + spec_submit_start(m, identity, payload) =~= spec_submit_start(
            m,
            identity,
            payload,
        ));
    } else {
        lemma_submit_start_prefix(m.skip(1), identity, payload, k - 1);
        assert(m.skip(1).take(k - 1) =~= m.take(k).skip(1));
        assert(m.skip(1).skip(k - 1) =~= m.skip(k));
        assert(seq![m[0]] + (m.skip(1).take(k - 1) + spec_submit_start(
            m.skip(k),
            identity,
            payload,
        )) =~= m.take(k) + spec_submit_start(m.skip(k), identity, payload));
    }
}

/// What a start submission does to every lookup.
pub proof fn lemma_submit_start_lookup(m: Seq<(u64, Seq<u8>)>, identity: u64, payload: Seq<u8>)
    ensures
        start_lookup(spec_submit_start(m, identity, payload), identity) == Some(payload),
        forall|id2: u64|
            id2 != identity ==> #[trigger] start_lookup(
                spec_submit_start(m, identity, payload),
                id2,
            ) == start_lookup(m, id2),
    decreases m.len(),
{
    let r = spec_submit_start(m, identity, payload);
    if m.len() == 0 {
        assert(r.skip(1) =~= Seq::<(u64, Seq<u8>)>::empty());
        assert(r[0] == (identity, payload));
        assert forall|id2: u64| id2 != identity implies #[trigger] start_lookup(r, id2)
            == start_lookup(m, id2) by {
            assert(start_lookup(r, id2) == start_lookup(r.skip(1), id2));
        }
    } else if m[0].0 == identity {
        assert(r.skip(1) =~= m.skip(1));
        assert(r[0] == (identity, payload));
        assert forall|id2: u64| id2 != identity implies #[trigger] start_lookup(r, id2)
            == start_lookup(m, id2) by {
            assert(start_lookup(r, id2) == start_lookup(m.skip(1), id2));
            assert(start_lookup(m, id2) == start_lookup(m.skip(1), id2));
        }
    } else {
        lemma_submit_start_lookup(m.skip(1), identity, payload);
        assert(r.skip(1) =~= spec_submit_start(m.skip(1), identity, payload));
        assert(r[0] == m[0]);
        assert(start_lookup(r, identity) == start_lookup(r.skip(1), identity));
        assert forall|id2: u64| id2 != identity implies #[trigger] start_lookup(r, id2)
            == start_lookup(m, id2) by {
            if m[0].0 == id2 {
                assert(start_lookup(r, id2) == Some(m[0].1));
                assert(start_lookup(m, id2) == Some(m[0].1));
            } else {
                assert(start_lookup(r, id2) == start_lookup(r.skip(1), id2));
                assert(start_lookup(m, id2) == start_lookup(m.skip(1), id2));
            }
        }
    }
}

/// Appending an entry grows the payload sum by its length.
pub proof fn lemma_start_bytes_push(m: Seq<(u64, Seq<u8>)>, e: (u64, Seq<u8>))
    ensures
        start_bytes(m.push(e)) == start_bytes(m) + e.1.len(),
    decreases m.len(),
{
    if m.len() == 0 {
        assert(m.push(e).skip(1) =~= Seq::<(u64, Seq<u8>)>::empty());
        assert(m.push(e)[0] == e);
        assert(start_bytes(m.push(e)) == e.1.len() + start_bytes(m.push(e).skip(1)));
        assert(start_bytes(Seq::<(u64, Seq<u8>)>::empty()) == 0);
    } else {
        assert(m.push(e).skip(1) =~= m.skip(1).push(e));
        lemma_start_bytes_push(m.skip(1), e);
        assert(m.push(e)[0] == m[0]);
        assert(start_bytes(m.push(e)) == m[0].1.len() + start_bytes(m.push(e).skip(1)));
        assert(start_bytes(m) == m[0].1.len() + start_bytes(m.skip(1)));
    }
}

/// Replacing an entry shifts the payload sum by the length difference.
pub proof fn lemma_start_bytes_update(m: Seq<(u64, Seq<u8>)>, i: int, e: (u64, Seq<u8>))
    requires
        0 <= i < m.len(),
    ensures
        start_bytes(m.update(i, e)) == start_bytes(m) - m[i].1.len() + e.1.len(),
    decreases m.len(),
{
    if i == 0 {
        assert(m.update(0, e).skip(1) =~= m.skip(1));
    } else {
        assert(m.update(i, e).skip(1) =~= m.skip(1).update(i - 1, e));
        lemma_start_bytes_update(m.skip(1), i - 1, e);
    }
}

/// The payload sum is never negative and each entry's length is part of
/// it.
pub proof fn lemma_start_bytes_elem(m: Seq<(u64, Seq<u8>)>, i: int)
    requires
        0 <= i < m.len(),
    ensures
        m[i].1.len() <= start_bytes(m),
        0 <= start_bytes(m),
    decreases m.len(),
{
    if i == 0 {
        lemma_start_bytes_nonneg(m.skip(1));
    } else {
        lemma_start_bytes_elem(m.skip(1), i - 1);
    }
}

/// The payload sum is never negative.
pub proof fn lemma_start_bytes_nonneg(m: Seq<(u64, Seq<u8>)>)
    ensures
        0 <= start_bytes(m),
    decreases m.len(),
{
    if m.len() > 0 {
        lemma_start_bytes_nonneg(m.skip(1));
    }
}

/// Appending a payload appends its prefixed bytes to the packed buffer.
pub proof fn lemma_pack_bytes_push(ps: Seq<Seq<u8>>, p: Seq<u8>)
    ensures
        pack_bytes(ps.push(p)) == pack_bytes(ps) + spec_u16_to_le_bytes(p.len() as u16) + p,
    decreases ps.len(),
{
    lemma_auto_spec_u16_to_from_le_bytes();
    if ps.len() == 0 {
        assert(ps.push(p).skip(1) =~= Seq::<Seq<u8>>::empty());
        assert(ps.push(p)[0] == p);
        assert(pack_bytes(ps.push(p)) == spec_u16_to_le_bytes(p.len() as u16) + p + pack_bytes(
            ps.push(p).skip(1),
        ));
        assert(pack_bytes(Seq::<Seq<u8>>::empty()) == Seq::<u8>::empty());
        assert(pack_bytes(ps.push(p)) =~= pack_bytes(ps) + spec_u16_to_le_bytes(p.len() as u16)
            + p);
    } else {
        assert(ps.push(p).skip(1) =~= ps.skip(1).push(p));
        lemma_pack_bytes_push(ps.skip(1), p);
        assert(ps.push(p)[0] == ps[0]);
        assert(pack_bytes(ps.push(p)) == spec_u16_to_le_bytes(ps[0].len() as u16) + ps[0]
            + pack_bytes(ps.skip(1).push(p)));
        assert(pack_bytes(ps.skip(1).push(p)) == pack_bytes(ps.skip(1)) + spec_u16_to_le_bytes(
            p.len() as u16,
        ) + p);
        assert(pack_bytes(ps) == spec_u16_to_le_bytes(ps[0].len() as u16) + ps[0] + pack_bytes(
            ps.skip(1),
        ));
        assert(pack_bytes(ps.push(p)) =~= pack_bytes(ps) + spec_u16_to_le_bytes(p.len() as u16)
            + p);
    }
}

/// Appending a payload grows the sum by its length.
pub proof fn lemma_sum_lens_push(ps: Seq<Seq<u8>>, p: Seq<u8>)
    ensures
        sum_lens(ps.push(p)) == sum_lens(ps) + p.len(),
    decreases ps.len(),
{
    if ps.len() == 0 {
        assert(ps.push(p).skip(1) =~= Seq::<Seq<u8>>::empty());
        assert(ps.push(p)[0] == p);
        assert(sum_lens(ps.push(p)) == p.len() + sum_lens(ps.push(p).skip(1)));
        assert(sum_lens(Seq::<Seq<u8>>::empty()) == 0);
        assert(sum_lens(ps) == 0);
    } else {
        assert(ps.push(p).skip(1) =~= ps.skip(1).push(p));
        lemma_sum_lens_push(ps.skip(1), p);
        assert(sum_lens(ps.skip(1).push(p)) == sum_lens(ps.skip(1)) + p.len());
        assert(ps.push(p)[0] == ps[0]);
        assert(sum_lens(ps.push(p)) == ps[0].len() + sum_lens(ps.push(p).skip(1)));
        assert(sum_lens(ps) == ps[0].len() + sum_lens(ps.skip(1)));
    }
}

/// The packed buffer is exactly two bytes per payload plus the payload
/// sum.
pub proof fn lemma_pack_bytes_len(ps: Seq<Seq<u8>>)
    ensures
        pack_bytes(ps).len() == 2 * ps.len() + sum_lens(ps),
    decreases ps.len(),
{
    lemma_auto_spec_u16_to_from_le_bytes();
    if ps.len() > 0 {
        lemma_pack_bytes_len(ps.skip(1));
    }
}

/// Packing loses nothing: unpacking a packed buffer yields exactly the
/// payloads that were packed, in order.
pub proof fn lemma_pack_round_trip(ps: Seq<Seq<u8>>)
    requires
        forall|i: int| 0 <= i < ps.len() ==> #[trigger] ps[i].len() <= MAX_ENTRY_PAYLOAD as int,
    ensures
        unpack_bytes(pack_bytes(ps)) == Some(ps),
    decreases ps.len(),
{
    lemma_auto_spec_u16_to_from_le_bytes();
    if ps.len() == 0 {
        assert(unpack_bytes(pack_bytes(ps)) == Some(ps));
    } else {
        let p0 = ps[0];
        let b = pack_bytes(ps);
        let n = p0.len() as int;
        lemma_pack_bytes_len(ps);
        lemma_pack_bytes_len(ps.skip(1));
        lemma_sum_lens_nonneg(ps.skip(1));
        assert(b.subrange(0, 2) =~= spec_u16_to_le_bytes(p0.len() as u16));
        assert(spec_u16_from_le_bytes(b.subrange(0, 2)) == p0.len() as u16);
        assert(b.len() >= 2 + n);
        assert(b.subrange(2, 2 + n) =~= p0);
        assert(b.skip(2 + n) =~= pack_bytes(ps.skip(1)));
        lemma_pack_round_trip(ps.skip(1));
        assert(seq![p0] + ps.skip(1) =~= ps);
    }
}

/// The payload sum is never negative.
pub proof fn lemma_sum_lens_nonneg(ps: Seq<Seq<u8>>)
    ensures
        0 <= sum_lens(ps),
    decreases ps.len(),
{
    if ps.len() > 0 {
        lemma_sum_lens_nonneg(ps.skip(1));
    }
}

/// The payload sum splits at any point.
pub proof fn lemma_sum_lens_split(ps: Seq<Seq<u8>>, k: int)
    requires
        0 <= k <= ps.len(),
    ensures
        sum_lens(ps) == sum_lens(ps.take(k)) + sum_lens(ps.skip(k)),
    decreases k,
{
    if k == 0 {
        assert(ps.take(0) =~= Seq::<Seq<u8>>::empty());
        assert(ps.skip(0) =~= ps);
    } else {
        lemma_sum_lens_split(ps.skip(1), k - 1);
        assert(ps.skip(1).take(k - 1) =~= ps.take(k).skip(1));
        assert(ps.skip(1).skip(k - 1) =~= ps.skip(k));
        assert(sum_lens(ps) == ps[0].len() + sum_lens(ps.skip(1)));
        assert(sum_lens(ps.take(k)) == ps.take(k)[0].len() + sum_lens(ps.take(k).skip(1)));
    }
}

/// The payload sum of a start buffer is the sum over its payload list.
pub proof fn lemma_start_bytes_is_sum(m: Seq<(u64, Seq<u8>)>)
    ensures
        sum_lens(m.map(|i: int, e: (u64, Seq<u8>)| e.1)) == start_bytes(m),
    decreases m.len(),
{
    let ps = m.map(|i: int, e: (u64, Seq<u8>)| e.1);
    if m.len() == 0 {
    } else {
        lemma_start_bytes_is_sum(m.skip(1));
        assert(ps.skip(1) =~= m.skip(1).map(|i: int, e: (u64, Seq<u8>)| e.1));
        assert(ps[0] == m[0].1);
    }
}

// ---------------------------------------------------------------------
// Executable state.
// ---------------------------------------------------------------------

/// How a slot sequence maps to the model commutes with appending.
proof fn lemma_slot_map_push(v: Seq<FrameSlot>, s: FrameSlot)
    ensures
        v.push(s).map(|i: int, s: FrameSlot| (s.identity, s.channel_type, s.payload@)) == v.map(
            |i: int, s: FrameSlot| (s.identity, s.channel_type, s.payload@),
        ).push((s.identity, s.channel_type, s.payload@)),
{
    let f = |i: int, s: FrameSlot| (s.identity, s.channel_type, s.payload@);
    assert forall|i: int| 0 <= i < v.len() + 1 implies v.push(s).map(f)[i] == v.map(f).push(
        (s.identity, s.channel_type, s.payload@),
    )[i] by {
        if i < v.len() {
            assert(v.map(f)[i] == f(i, v[i]));
        }
    }
    assert(v.push(s).map(f) =~= v.map(f).push((s.identity, s.channel_type, s.payload@)));
}

/// How a slot sequence maps to the model commutes with dropping the
/// head.
proof fn lemma_slot_map_tail(pre: Seq<FrameSlot>)
    requires
        pre.len() > 0,
    ensures
        pre.skip(1).map(|i: int, s: FrameSlot| (s.identity, s.channel_type, s.payload@)) == pre.map(
            |i: int, s: FrameSlot| (s.identity, s.channel_type, s.payload@),
        ).skip(1),
        pre.map(|i: int, s: FrameSlot| (s.identity, s.channel_type, s.payload@))[0] == (
            pre[0].identity,
            pre[0].channel_type,
            pre[0].payload@,
        ),
{
    let f = |i: int, s: FrameSlot| (s.identity, s.channel_type, s.payload@);
    assert forall|i: int| 0 <= i < pre.len() - 1 implies pre.skip(1).map(f)[i] == pre.map(f).skip(
        1,
    )[i] by {
        assert(pre.map(f)[i + 1] == f(i + 1, pre[i + 1]));
    }
    assert(pre.skip(1).map(f) =~= pre.map(f).skip(1));
}

/// How a channel frame list maps to pairs commutes with appending.
proof fn lemma_frame_map_push(v: Seq<ChannelFrame>, c: ChannelFrame)
    ensures
        v.push(c).map(|i: int, f: ChannelFrame| (f.channel_type, f.payload@)) == v.map(
            |i: int, f: ChannelFrame| (f.channel_type, f.payload@),
        ).push((c.channel_type, c.payload@)),
{
    let f = |i: int, f: ChannelFrame| (f.channel_type, f.payload@);
    assert forall|i: int| 0 <= i < v.len() + 1 implies v.push(c).map(f)[i] == v.map(f).push(
        (c.channel_type, c.payload@),
    )[i] by {
        if i < v.len() {
            assert(v.map(f)[i] == f(i, v[i]));
        }
    }
    assert(v.push(c).map(f) =~= v.map(f).push((c.channel_type, c.payload@)));
}

/// Mapping model entries to (channel, payload) pairs commutes with
/// appending.
proof fn lemma_pair_map_push(v: Seq<(u64, u32, Seq<u8>)>, e: (u64, u32, Seq<u8>))
    ensures
        v.push(e).map(|i: int, e: (u64, u32, Seq<u8>)| (e.1, e.2)) == v.map(
            |i: int, e: (u64, u32, Seq<u8>)| (e.1, e.2),
        ).push((e.1, e.2)),
{
    let f = |i: int, e: (u64, u32, Seq<u8>)| (e.1, e.2);
    assert forall|i: int| 0 <= i < v.len() + 1 implies v.push(e).map(f)[i] == v.map(f).push(
        (e.1, e.2),
    )[i] by {
        if i < v.len() {
            assert(v.map(f)[i] == f(i, v[i]));
        }
    }
    assert(v.push(e).map(f) =~= v.map(f).push((e.1, e.2)));
}

/// How a re-broadcast frame list maps to the model commutes with
/// appending.
proof fn lemma_msg_map_push(v: Seq<MsgServerFrameData>, d: MsgServerFrameData)
    ensures
        v.push(d).map(|i: int, f: MsgServerFrameData| (f.local_steam_id, f.types, f.data@))
            == v.map(|i: int, f: MsgServerFrameData| (f.local_steam_id, f.types, f.data@)).push(
            (d.local_steam_id, d.types, d.data@),
        ),
{
    let f = |i: int, f: MsgServerFrameData| (f.local_steam_id, f.types, f.data@);
    assert forall|i: int| 0 <= i < v.len() + 1 implies v.push(d).map(f)[i] == v.map(f).push(
        (d.local_steam_id, d.types, d.data@),
    )[i] by {
        if i < v.len() {
            assert(v.map(f)[i] == f(i, v[i]));
        }
    }
    assert(v.push(d).map(f) =~= v.map(f).push((d.local_steam_id, d.types, d.data@)));
}

/// One logical update stream: a channel and its most recent payload.
#[derive(Clone, Debug, PartialEq)]
pub struct ChannelFrame {
    pub channel_type: u32,
    pub payload: Vec<u8>,
}

/// A packed, length-prefixed buffer and the number of entries in it.
#[derive(Clone, Debug, PartialEq)]
pub struct AggregatedBuffer {
    pub bytes: Vec<u8>,
    pub entry_count: u32,
}

/// One row of the frame table: the latest payload received for a
/// (participant, channel) pair.
#[derive(Clone, Debug, PartialEq)]
pub struct FrameSlot {
    pub identity: u64,
    pub channel_type: u32,
    pub payload: Vec<u8>,
}

/// The per-participant, per-channel "latest value wins" table, in
/// first-submission order.
#[derive(Debug)]
pub struct FrameTable {
    pub slots: Vec<FrameSlot>,
    pub total_bytes: u32,
}

impl FrameTable {
    /// The table as an association list of (identity, channel, payload).
    pub open spec fn model(self) -> Seq<(u64, u32, Seq<u8>)> {
        self.slots@.map(|i: int, s: FrameSlot| (s.identity, s.channel_type, s.payload@))
    }

    /// Internal consistency: the cached byte count is the packed size and
    /// every payload fits its 2-byte prefix.
    pub open spec fn wf(self) -> bool {
        &&& table_bytes(self.model()) == self.total_bytes as int
        &&& forall|i: int|
            0 <= i < self.model().len() ==> #[trigger] self.model()[i].2.len()
                <= MAX_ENTRY_PAYLOAD as int
    }

    /// An empty table.
    pub fn new() -> (t: FrameTable)
        ensures
            t.wf(),
            t.model() == Seq::<(u64, u32, Seq<u8>)>::empty(),
    {
        let t = FrameTable { slots: Vec::new(), total_bytes: 0 };
        proof {
            assert(t.model() =~= Seq::<(u64, u32, Seq<u8>)>::empty());
        }
        t
    }

    /// Index of the first slot for the pair, scanning in submission
    /// order.
    fn find_slot(&self, identity: u64, channel_type: u32) -> (r: Option<usize>)
        ensures
            match r {
                Some(i) => i < self.slots@.len() && self.model()[i as int].0 == identity
                    && self.model()[i as int].1 == channel_type && forall|j: int|
                    0 <= j < i ==> !(#[trigger] self.model()[j].0 == identity
                        && self.model()[j].1 == channel_type),
                None => forall|j: int|
                    0 <= j < self.model().len() ==> !(#[trigger] self.model()[j].0 == identity
                        && self.model()[j].1 == channel_type),
            },
    {
        let mut i: usize = 0;
        while i < self.slots.len()
            invariant
                i <= self.slots@.len(),
                forall|j: int|
                    0 <= j < i ==> !(#[trigger] self.model()[j].0 == identity
                        && self.model()[j].1 == channel_type),
            decreases self.slots@.len() - i,
        {
            if self.slots[i].identity == identity && self.slots[i].channel_type == channel_type {
                return Some(i);
            }
            i = i + 1;
        }
        None
    }

    /// Stores `payload` as the latest value for the pair: an existing slot
    /// is overwritten in place, a new pair is appended. The submission is
    /// refused - and nothing changes - exactly when the payload does not
    /// fit its 2-byte length prefix or the packed table would outgrow 32
    /// bits.
    pub fn submit_channel(&mut self, identity: u64, channel_type: u32, payload: Vec<u8>) -> (accepted:
        bool)
        requires
            old(self).wf(),
        ensures
            final(self).wf(),
            accepted <==> (payload@.len() <= MAX_ENTRY_PAYLOAD as int && table_bytes(
                spec_submit_channel(old(self).model(), identity, channel_type, payload@),
            ) <= u32::MAX as int),
            accepted ==> final(self).model() == spec_submit_channel(
                old(self).model(),
                identity,
                channel_type,
                payload@,
            ),
            !accepted ==> *final(self) == *old(self),
    {
        let ghost m = self.model();
        let ghost e = (identity, channel_type, payload@);
        let found = self.find_slot(identity, channel_type);
        proof {
            match found {
                Some(i) => {
                    let k = i as int;
                    lemma_submit_channel_prefix(m, identity, channel_type, payload@, k);
                    assert(m.skip(k)[0] == m[k]);
                    assert(m.skip(k).skip(1) =~= m.skip(k + 1));
                    assert(spec_submit_channel(m.skip(k), identity, channel_type, payload@)
                        == seq![e] + m.skip(k + 1));
                    assert(spec_submit_channel(m, identity, channel_type, payload@) =~= m.update(
                        k,
                        e,
                    ));
                    lemma_table_bytes_update(m, k, e);
                    lemma_table_bytes_elem(m, k);
                },
                None => {
                    lemma_submit_channel_prefix(m, identity, channel_type, payload@, m.len() as int);
                    assert(m.skip(m.len() as int) =~= Seq::<(u64, u32, Seq<u8>)>::empty());
                    assert(m.take(m.len() as int) =~= m);
                    assert(spec_submit_channel(m, identity, channel_type, payload@) =~= m.push(e));
                    lemma_table_bytes_push(m, e);
                },
            }
        }
        if payload.len() > MAX_ENTRY_PAYLOAD {
            return false;
        }
        match found {
            Some(i) => {
                let old_len = self.slots[i].payload.len();
                let new_total: u64 = self.total_bytes as u64 + payload.len() as u64
                    - old_len as u64;
                if new_total > u32::MAX as u64 {
                    return false;
                }
                let mut slot = self.slots.remove(i);
                slot.payload = payload;
                self.slots.insert(i, slot);
                self.total_bytes = new_total as u32;
                proof {
                    assert(self.model() =~= m.update(i as int, e));
                }
                true
            },
            None => {
                let new_total: u64 = self.total_bytes as u64 + 2 + payload.len() as u64;
                if new_total > u32::MAX as u64 {
                    return false;
                }
                self.slots.push(FrameSlot { identity, channel_type, payload });
                self.total_bytes = new_total as u32;
                proof {
                    assert(self.model() =~= m.push(e));
                }
                true
            },
        }
    }

    /// The latest payload stored for the pair, if any.
    pub fn channel_payload(&self, identity: u64, channel_type: u32) -> (r: Option<&Vec<u8>>)
        ensures
            match r {
                Some(p) => channel_lookup(self.model(), identity, channel_type) == Some(p@),
                None => channel_lookup(self.model(), identity, channel_type) is None,
            },
    {
        proof {
            lemma_channel_lookup_index(self.model(), identity, channel_type);
        }
        match self.find_slot(identity, channel_type) {
            Some(i) => Some(&self.slots[i].payload),
            None => None,
        }
    }

    /// Drains every channel entry of one participant, in first-submission
    /// order, leaving the other participants' entries untouched.
    pub fn flush_channels(&mut self, identity: u64) -> (out: Vec<ChannelFrame>)
        requires
            old(self).wf(),
        ensures
            final(self).wf(),
            final(self).model() == old(self).model().filter(
                |e: (u64, u32, Seq<u8>)| e.0 != identity,
            ),
            out@.map(|i: int, f: ChannelFrame| (f.channel_type, f.payload@)) == old(self).model()
                .filter(|e: (u64, u32, Seq<u8>)| e.0 == identity).map(
                |i: int, e: (u64, u32, Seq<u8>)| (e.1, e.2),
            ),
    {
        let ghost m = self.model();
        let mut rest: Vec<FrameSlot> = Vec::new();
        core::mem::swap(&mut rest, &mut self.slots);
        let ghost keep_pred = |e: (u64, u32, Seq<u8>)| e.0 != identity;
        let ghost flush_pred = |e: (u64, u32, Seq<u8>)| e.0 == identity;
        let mut kept: Vec<FrameSlot> = Vec::new();
        let mut out: Vec<ChannelFrame> = Vec::new();
        let mut cur_bytes: u32 = self.total_bytes;
        let ghost mut k: int = 0;
        proof {
            assert(rest@.map(|i: int, s: FrameSlot| (s.identity, s.channel_type, s.payload@))
                =~= m.skip(0));
            assert(m.take(0).filter(keep_pred) =~= Seq::<(u64, u32, Seq<u8>)>::empty());
            assert(m.take(0).filter(flush_pred) =~= Seq::<(u64, u32, Seq<u8>)>::empty());
            assert(kept@.map(|i: int, s: FrameSlot| (s.identity, s.channel_type, s.payload@))
                =~= Seq::<(u64, u32, Seq<u8>)>::empty());
            assert(out@.map(|i: int, f: ChannelFrame| (f.channel_type, f.payload@))
                =~= Seq::<(u32, Seq<u8>)>::empty());
            reveal(Seq::filter);
        }
        while rest.len() > 0
            invariant
                0 <= k <= m.len(),
                k + rest@.len() == m.len(),
                rest@.map(|i: int, s: FrameSlot| (s.identity, s.channel_type, s.payload@))
                    == m.skip(k),
                kept@.map(|i: int, s: FrameSlot| (s.identity, s.channel_type, s.payload@))
                    == m.take(k).filter(keep_pred),
                out@.map(|i: int, f: ChannelFrame| (f.channel_type, f.payload@)) == m.take(
                    k,
                ).filter(flush_pred).map(|i: int, e: (u64, u32, Seq<u8>)| (e.1, e.2)),
                keep_pred == (|e: (u64, u32, Seq<u8>)| e.0 != identity),
                flush_pred == (|e: (u64, u32, Seq<u8>)| e.0 == identity),
                cur_bytes as int == table_bytes(m.take(k).filter(keep_pred)) + table_bytes(
                    m.skip(k),
                ),
            decreases rest@.len(),
        {
            let ghost kept_m = kept@.map(
                |i: int, s: FrameSlot| (s.identity, s.channel_type, s.payload@),
            );
            let ghost out_m = out@.map(|i: int, f: ChannelFrame| (f.channel_type, f.payload@));
            let ghost rest_pre = rest@;
            let slot = rest.remove(0);
            proof {
                reveal(Seq::filter);
                lemma_slot_map_tail(rest_pre);
                assert(m.skip(k)[0] == m[k]);
                assert(m[k] == (slot.identity, slot.channel_type, slot.payload@));
                assert(rest@ =~= rest_pre.skip(1));
                assert(m.skip(k).skip(1) =~= m.skip(k + 1));
                assert(rest@.map(|i: int, s: FrameSlot| (s.identity, s.channel_type, s.payload@))
                    == m.skip(k + 1));
                assert(m.take(k + 1).drop_last() =~= m.take(k));
                assert(m.take(k + 1).last() == m[k]);
                assert(table_bytes(m.skip(k)) == 2 + m.skip(k)[0].2.len() + table_bytes(
                    m.skip(k).skip(1),
                ));
                lemma_table_bytes_bounds(m.skip(k + 1));
                lemma_table_bytes_bounds(m.take(k).filter(keep_pred));
            }
            if slot.identity == identity {
                proof {
                    assert(m.take(k + 1).filter(keep_pred) =~= m.take(k).filter(keep_pred));
                    assert(m.take(k + 1).filter(flush_pred) =~= m.take(k).filter(flush_pred).push(
                        m[k],
                    ));
                }
                let flushed_len = slot.payload.len();
                cur_bytes = cur_bytes - 2 - flushed_len as u32;
                let frame = ChannelFrame { channel_type: slot.channel_type, payload: slot.payload };
                proof {
                    lemma_frame_map_push(out@, frame);
                }
                out.push(frame);
                proof {
                    lemma_pair_map_push(m.take(k).filter(flush_pred), m[k]);
                }
            } else {
                proof {
                    assert(m.take(k + 1).filter(flush_pred) =~= m.take(k).filter(flush_pred));
                    assert(m.take(k + 1).filter(keep_pred) =~= m.take(k).filter(keep_pred).push(
                        m[k],
                    ));
                    lemma_table_bytes_push(m.take(k).filter(keep_pred), m[k]);
                    lemma_slot_map_push(kept@, slot);
                }
                kept.push(slot);
            }
            proof {
                k = k + 1;
            }
        }
        proof {
            assert(m.take(k) =~= m);
            assert(m.skip(k) =~= Seq::<(u64, u32, Seq<u8>)>::empty());
            assert(table_bytes(Seq::<(u64, u32, Seq<u8>)>::empty()) == 0);
        }
        self.slots = kept;
        self.total_bytes = cur_bytes;
        proof {
            let fm = self.model();
            assert(fm == m.filter(keep_pred));
            assert forall|i: int| 0 <= i < fm.len() implies #[trigger] fm[i].2.len()
                <= MAX_ENTRY_PAYLOAD as int by {
                assert(0 <= i < m.filter(keep_pred).len());
                assert(m.filter(keep_pred).contains(fm[i]));
                m.lemma_filter_contains_rev(keep_pred, fm[i]);
                assert(m.contains(fm[i]));
                let j = choose|j: int| 0 <= j < m.len() && m[j] == fm[i];
                assert(m[j].2.len() <= MAX_ENTRY_PAYLOAD as int);
            }
        }
        out
    }

    /// Drains the whole table into re-broadcast frames, in submission
    /// order, and reports the total payload size; the table is empty
    /// afterwards.
    pub fn take_all(&mut self) -> (r: (Vec<MsgServerFrameData>, u32))
        requires
            old(self).wf(),
        ensures
            final(self).wf(),
            final(self).model() == Seq::<(u64, u32, Seq<u8>)>::empty(),
            r.0@.map(|i: int, f: MsgServerFrameData| (f.local_steam_id, f.types, f.data@)) == old(
                self,
            ).model(),
            r.1 as int == table_bytes(old(self).model()) - 2 * old(self).model().len(),
    {
        let ghost m = self.model();
        proof {
            lemma_table_bytes_bounds(m);
        }
        let mut rest: Vec<FrameSlot> = Vec::new();
        core::mem::swap(&mut rest, &mut self.slots);
        let count = rest.len();
        let buffer_size: u32 = self.total_bytes - 2 * (count as u32);
        let mut out: Vec<MsgServerFrameData> = Vec::new();
        let ghost mut k: int = 0;
        proof {
            assert(rest@.map(|i: int, s: FrameSlot| (s.identity, s.channel_type, s.payload@))
                =~= m.skip(0));
            assert(out@.map(|i: int, f: MsgServerFrameData| (f.local_steam_id, f.types, f.data@))
                =~= m.take(0));
        }
        while rest.len() > 0
            invariant
                0 <= k <= m.len(),
                k + rest@.len() == m.len(),
                rest@.map(|i: int, s: FrameSlot| (s.identity, s.channel_type, s.payload@))
                    == m.skip(k),
                out@.map(|i: int, f: MsgServerFrameData| (f.local_steam_id, f.types, f.data@))
                    == m.take(k),
            decreases rest@.len(),
        {
            let ghost rest_pre = rest@;
            let slot = rest.remove(0);
            proof {
                lemma_slot_map_tail(rest_pre);
                assert(m.skip(k)[0] == m[k]);
                assert(m[k] == (slot.identity, slot.channel_type, slot.payload@));
                assert(rest@ =~= rest_pre.skip(1));
                assert(m.skip(k).skip(1) =~= m.skip(k + 1));
                assert(rest@.map(|i: int, s: FrameSlot| (s.identity, s.channel_type, s.payload@))
                    == m.skip(k + 1));
            }
            let frame = MsgServerFrameData {
                types: slot.channel_type,
                data: slot.payload,
                local_steam_id: slot.identity,
            };
            proof {
                lemma_msg_map_push(out@, frame);
            }
            out.push(frame);
            proof {
                assert(m.take(k + 1) =~= m.take(k).push(m[k]));
                k = k + 1;
            }
        }
        self.total_bytes = 0;
        proof {
            assert(m.take(k) =~= m);
            assert(self.model() =~= Seq::<(u64, u32, Seq<u8>)>::empty());
        }
        (out, buffer_size)
    }
}

/// Mapping a start-payload entry list to the model commutes with
/// appending.
proof fn lemma_entry_map_push(v: Seq<MsgServerFrameData>, d: MsgServerFrameData)
    ensures
        v.push(d).map(|i: int, f: MsgServerFrameData| (f.local_steam_id, f.data@)) == v.map(
            |i: int, f: MsgServerFrameData| (f.local_steam_id, f.data@),
        ).push((d.local_steam_id, d.data@)),
{
    let f = |i: int, f: MsgServerFrameData| (f.local_steam_id, f.data@);
    assert forall|i: int| 0 <= i < v.len() + 1 implies v.push(d).map(f)[i] == v.map(f).push(
        (d.local_steam_id, d.data@),
    )[i] by {
        if i < v.len() {
            assert(v.map(f)[i] == f(i, v[i]));
        }
    }
    assert(v.push(d).map(f) =~= v.map(f).push((d.local_steam_id, d.data@)));
}

/// The payload list of a frame list.
pub open spec fn frame_payloads(frames: Seq<MsgServerFrameData>) -> Seq<Seq<u8>> {
    frames.map(|i: int, f: MsgServerFrameData| f.data@)
}

/// The one-shot game start payload, built incrementally as each
/// participant submits its initial snapshot: one entry per identity,
/// latest submission wins, in first-submission order.
#[derive(Debug)]
pub struct GameStartBuffer {
    pub entries: Vec<MsgServerFrameData>,
    pub payload_bytes: u32,
}

impl GameStartBuffer {
    /// The buffer as an association list of (identity, payload).
    pub open spec fn model(self) -> Seq<(u64, Seq<u8>)> {
        self.entries@.map(|i: int, f: MsgServerFrameData| (f.local_steam_id, f.data@))
    }

    /// Internal consistency: the cached sum is the payload sum, every
    /// payload fits its 2-byte prefix, and the packed buffer fits in 32
    /// bits.
    pub open spec fn wf(self) -> bool {
        &&& start_bytes(self.model()) == self.payload_bytes as int
        &&& forall|i: int|
            0 <= i < self.model().len() ==> #[trigger] self.model()[i].1.len()
                <= MAX_ENTRY_PAYLOAD as int
        &&& self.payload_bytes as int + 2 * self.model().len() <= u32::MAX as int
    }

    /// The size the packed buffer will have: the payload sum plus a
    /// 2-byte prefix per entry.
    pub open spec fn spec_total_size(self) -> int {
        self.payload_bytes as int + 2 * self.model().len()
    }

    /// An empty buffer.
    pub fn new() -> (b: GameStartBuffer)
        ensures
            b.wf(),
            b.model() == Seq::<(u64, Seq<u8>)>::empty(),
    {
        let b = GameStartBuffer { entries: Vec::new(), payload_bytes: 0 };
        proof {
            assert(b.model() =~= Seq::<(u64, Seq<u8>)>::empty());
        }
        b
    }

    /// Index of the first entry for the identity.
    fn find_entry(&self, identity: u64) -> (r: Option<usize>)
        ensures
            match r {
                Some(i) => i < self.entries@.len() && self.model()[i as int].0 == identity
                    && forall|j: int| 0 <= j < i ==> #[trigger] self.model()[j].0 != identity,
                None => forall|j: int|
                    0 <= j < self.model().len() ==> #[trigger] self.model()[j].0 != identity,
            },
    {
        let mut i: usize = 0;
        while i < self.entries.len()
            invariant
                i <= self.entries@.len(),
                forall|j: int| 0 <= j < i ==> #[trigger] self.model()[j].0 != identity,
            decreases self.entries@.len() - i,
        {
            if self.entries[i].local_steam_id == identity {
                return Some(i);
            }
            i = i + 1;
        }
        None
    }

    /// Stores `payload` as the identity's initial snapshot: an existing
    /// entry is replaced, adjusting the size by the length difference; a
    /// new identity is appended, adding its length plus two prefix bytes.
    /// The submission is refused - and nothing changes - exactly when the
    /// payload does not fit its 2-byte prefix or the packed buffer would
    /// outgrow 32 bits.
    pub fn submit_start(&mut self, identity: u64, payload: Vec<u8>) -> (accepted: bool)
        requires
            old(self).wf(),
        ensures
            final(self).wf(),
            accepted <==> (payload@.len() <= MAX_ENTRY_PAYLOAD as int && start_bytes(
                spec_submit_start(old(self).model(), identity, payload@),
            ) + 2 * spec_submit_start(old(self).model(), identity, payload@).len()
                <= u32::MAX as int),
            accepted ==> final(self).model() == spec_submit_start(
                old(self).model(),
                identity,
                payload@,
            ),
            accepted ==> final(self).payload_bytes as int == start_bytes(
                spec_submit_start(old(self).model(), identity, payload@),
            ),
            !accepted ==> *final(self) == *old(self),
    {
        let ghost m = self.model();
        let ghost e = (identity, payload@);
        let found = self.find_entry(identity);
        proof {
            match found {
                Some(i) => {
                    let k = i as int;
                    lemma_submit_start_prefix(m, identity, payload@, k);
                    assert(m.skip(k)[0] == m[k]);
                    assert(m.skip(k).skip(1) =~= m.skip(k + 1));
                    assert(spec_submit_start(m.skip(k), identity, payload@) == seq![e] + m.skip(
                        k + 1,
                    ));
                    assert(spec_submit_start(m, identity, payload@) =~= m.update(k, e));
                    lemma_start_bytes_update(m, k, e);
                    lemma_start_bytes_elem(m, k);
                },
                None => {
                    lemma_submit_start_prefix(m, identity, payload@, m.len() as int);
                    assert(m.skip(m.len() as int) =~= Seq::<(u64, Seq<u8>)>::empty());
                    assert(m.take(m.len() as int) =~= m);
                    assert(spec_submit_start(m, identity, payload@) =~= m.push(e));
                    lemma_start_bytes_push(m, e);
                },
            }
        }
        if payload.len() > MAX_ENTRY_PAYLOAD {
            return false;
        }
        match found {
            Some(i) => {
                let old_len = self.entries[i].data.len();
                let new_sum: u64 = self.payload_bytes as u64 + payload.len() as u64
                    - old_len as u64;
                if new_sum + 2 * (self.entries.len() as u64) > u32::MAX as u64 {
                    return false;
                }
                let mut entry = self.entries.remove(i);
                entry.data = payload;
                self.entries.insert(i, entry);
                self.payload_bytes = new_sum as u32;
                proof {
                    assert(self.model() =~= m.update(i as int, e));
                }
                true
            },
            None => {
                let new_sum: u64 = self.payload_bytes as u64 + payload.len() as u64;
                if new_sum + 2 * (self.entries.len() as u64 + 1) > u32::MAX as u64 {
                    return false;
                }
                let entry = MsgServerFrameData {
                    types: 0,
                    data: payload,
                    local_steam_id: identity,
                };
                proof {
                    lemma_entry_map_push(self.entries@, entry);
                }
                self.entries.push(entry);
                self.payload_bytes = new_sum as u32;
                proof {
                    assert(self.model() =~= m.push(e));
                }
                true
            },
        }
    }

    /// How many identities have submitted a snapshot.
    pub fn entry_count(&self) -> (n: usize)
        ensures
            n == self.model().len(),
    {
        self.entries.len()
    }

    /// The size the packed buffer will have.
    pub fn total_size(&self) -> (s: u32)
        requires
            self.wf(),
        ensures
            s as int == self.spec_total_size(),
    {
        self.payload_bytes + 2 * (self.entries.len() as u32)
    }

    /// Consumes the buffer into the wire message carrying every entry,
    /// leaving the buffer empty: the start payload is sent exactly once.
    pub fn take_message(&mut self) -> (msg: MsgServerGameStart)
        requires
            old(self).wf(),
        ensures
            final(self).wf(),
            final(self).model() == Seq::<(u64, Seq<u8>)>::empty(),
            msg.game_data@.map(|i: int, f: MsgServerFrameData| (f.local_steam_id, f.data@)) == old(
                self,
            ).model(),
            msg.buffer_size == old(self).payload_bytes,
    {
        let mut entries: Vec<MsgServerFrameData> = Vec::new();
        core::mem::swap(&mut entries, &mut self.entries);
        let buffer_size = self.payload_bytes;
        self.payload_bytes = 0;
        proof {
            assert(self.model() =~= Seq::<(u64, Seq<u8>)>::empty());
        }
        MsgServerGameStart { game_data: entries, buffer_size }
    }

    /// Packs every entry, in first-submission order, into one
    /// length-prefixed buffer; its size is exactly the tracked total.
    pub fn pack(&self) -> (ab: AggregatedBuffer)
        requires
            self.wf(),
        ensures
            ab.bytes@ == pack_bytes(self.model().map(|i: int, e: (u64, Seq<u8>)| e.1)),
            ab.bytes@.len() == self.spec_total_size(),
            ab.entry_count as int == self.model().len(),
    {
        let ghost m = self.model();
        let ghost ps = frame_payloads(self.entries@);
        proof {
            lemma_start_bytes_is_sum(m);
            assert(m.map(|i: int, e: (u64, Seq<u8>)| e.1) =~= ps);
            assert forall|i: int| 0 <= i < ps.len() implies #[trigger] ps[i].len()
                <= MAX_ENTRY_PAYLOAD as int by {
                assert(m[i].1 == ps[i]);
            }
            assert(sum_lens(ps) == start_bytes(m));
        }
        pack_frame_list(&self.entries, self.payload_bytes)
    }
}

/// Packs a received frame list against its advertised payload size. When
/// the list is consistent the result is the packed, length-prefixed
/// buffer of every payload in order; any inconsistency - a size mismatch,
/// a payload too long for its prefix, or a total beyond 32 bits - is
/// treated as corruption and yields an empty buffer with a zero count, so
/// the caller skips the frame instead of forwarding a malformed one.
pub fn pack_frame_list(frames: &Vec<MsgServerFrameData>, expected_bytes: u32) -> (ab:
    AggregatedBuffer)
    ensures
        frames_consistent(frame_payloads(frames@), expected_bytes) ==> ab.bytes@ == pack_bytes(
            frame_payloads(frames@),
        ) && ab.bytes@.len() == expected_bytes as int + 2 * frames@.len() && ab.entry_count as int
            == frames@.len(),
        !frames_consistent(frame_payloads(frames@), expected_bytes) ==> ab.bytes@.len() == 0
            && ab.entry_count == 0,
{
    let ghost ps = frame_payloads(frames@);
    let mut sum: u64 = 0;
    let mut i: usize = 0;
    proof {
        assert(ps.take(0) =~= Seq::<Seq<u8>>::empty());
    }
    while i < frames.len()
        invariant
            i <= frames@.len(),
            ps == frame_payloads(frames@),
            ps.len() == frames@.len(),
            sum as int == sum_lens(ps.take(i as int)),
            sum <= u32::MAX as u64,
            forall|j: int| 0 <= j < i ==> #[trigger] ps[j].len() <= MAX_ENTRY_PAYLOAD as int,
        decreases frames@.len() - i,
    {
        let l = frames[i].data.len();
        proof {
            assert(ps[i as int] == frames@[i as int].data@);
        }
        if l > MAX_ENTRY_PAYLOAD {
            return AggregatedBuffer { bytes: Vec::new(), entry_count: 0 };
        }
        proof {
            lemma_sum_lens_push(ps.take(i as int), ps[i as int]);
            assert(ps.take(i as int).push(ps[i as int]) =~= ps.take(i as int + 1));
        }
        let new_sum: u64 = sum + l as u64;
        if new_sum > u32::MAX as u64 {
            proof {
                lemma_sum_lens_split(ps, i as int + 1);
                lemma_sum_lens_nonneg(ps.skip(i as int + 1));
            }
            return AggregatedBuffer { bytes: Vec::new(), entry_count: 0 };
        }
        sum = new_sum;
        i = i + 1;
    }
    proof {
        assert(ps.take(frames@.len() as int) =~= ps);
    }
    if sum != expected_bytes as u64 {
        return AggregatedBuffer { bytes: Vec::new(), entry_count: 0 };
    }
    if frames.len() as u64 > u32::MAX as u64 {
        return AggregatedBuffer { bytes: Vec::new(), entry_count: 0 };
    }
    if 2 * (frames.len() as u64) + expected_bytes as u64 > u32::MAX as u64 {
        return AggregatedBuffer { bytes: Vec::new(), entry_count: 0 };
    }
    let mut bytes: Vec<u8> = Vec::new();
    let mut i: usize = 0;
    proof {
        assert(ps.take(0) =~= Seq::<Seq<u8>>::empty());
    }
    while i < frames.len()
        invariant
            i <= frames@.len(),
            ps == frame_payloads(frames@),
            ps.len() == frames@.len(),
            forall|j: int| 0 <= j < ps.len() ==> #[trigger] ps[j].len() <= MAX_ENTRY_PAYLOAD as int,
            bytes@ == pack_bytes(ps.take(i as int)),
        decreases frames@.len() - i,
    {
        proof {
            assert(ps[i as int] == frames@[i as int].data@);
        }
        let l = frames[i].data.len();
        let mut prefix = u16_to_le_bytes(l as u16);
        bytes.append(&mut prefix);
        bytes.extend_from_slice(frames[i].data.as_slice());
        proof {
            lemma_pack_bytes_push(ps.take(i as int), ps[i as int]);
            assert(ps.take(i as int).push(ps[i as int]) =~= ps.take(i as int + 1));
        }
        i = i + 1;
    }
    proof {
        assert(ps.take(frames@.len() as int) =~= ps);
        lemma_pack_bytes_len(ps);
    }
    AggregatedBuffer { bytes, entry_count: frames.len() as u32 }
}

/// Recovers the length-prefixed payloads packed after `off`.
fn unpack_from(bytes: &Vec<u8>, off: usize) -> (r: Option<Vec<Vec<u8>>>)
    requires
        off <= bytes@.len(),
    ensures
        match r {
            Some(v) => unpack_bytes(bytes@.skip(off as int)) == Some(
                v@.map(|i: int, p: Vec<u8>| p@),
            ),
            None => unpack_bytes(bytes@.skip(off as int)) is None,
        },
    decreases bytes@.len() - off,
{
    let ghost b = bytes@.skip(off as int);
    let rem = bytes.len() - off;
    if rem == 0 {
        let v: Vec<Vec<u8>> = Vec::new();
        proof {
            assert(b =~= Seq::<u8>::empty());
            assert(v@.map(|i: int, p: Vec<u8>| p@) =~= Seq::<Seq<u8>>::empty());
        }
        return Some(v);
    }
    if rem == 1 {
        return None;
    }
    let n = u16_from_le_bytes(slice_subrange(bytes.as_slice(), off, off + 2)) as usize;
    proof {
        assert(bytes@.subrange(off as int, off as int + 2) =~= b.subrange(0, 2));
    }
    if rem - 2 < n {
        return None;
    }
    let seg = vstd::slice::slice_to_vec(slice_subrange(bytes.as_slice(), off + 2, off + 2 + n));
    proof {
        assert(seg@ =~= b.subrange(2, 2 + n as int));
        assert(bytes@.skip(off as int + 2 + n as int) =~= b.skip(2 + n as int));
    }
    match unpack_from(bytes, off + 2 + n) {
        Some(rest) => {
            let ghost rest_m = rest@.map(|i: int, p: Vec<u8>| p@);
            let mut rest = rest;
            rest.insert(0, seg);
            proof {
                let vf = |i: int, p: Vec<u8>| p@;
                assert forall|i: int| 0 <= i < rest@.len() implies rest@.map(vf)[i] == (
                seq![b.subrange(2, 2 + n as int)] + rest_m)[i] by {
                    if i > 0 {
                        assert(rest@[i] == rest@.skip(1)[i - 1]);
                        assert(rest_m[i - 1] == vf(i - 1, rest@.skip(1)[i - 1]));
                    }
                }
                assert(rest@.map(vf) =~= seq![b.subrange(2, 2 + n as int)] + rest_m);
            }
            Some(rest)
        },
        None => None,
    }
}

/// Recovers the payloads of a packed buffer, or `None` when the buffer
/// is not a whole number of length-prefixed segments.
pub fn unpack_payloads(bytes: &Vec<u8>) -> (r: Option<Vec<Vec<u8>>>)
    ensures
        match r {
            Some(v) => unpack_bytes(bytes@) == Some(v@.map(|i: int, p: Vec<u8>| p@)),
            None => unpack_bytes(bytes@) is None,
        },
{
    proof {
        assert(bytes@.skip(0) =~= bytes@);
    }
    unpack_from(bytes, 0)
}

/// A well-formed start payload round-trips: unpacking what `pack`
/// produces gives back exactly the submitted payloads, in
/// first-submission order.
pub proof fn lemma_start_buffer_round_trip(b: GameStartBuffer)
    requires
        b.wf(),
    ensures
        unpack_bytes(pack_bytes(b.model().map(|i: int, e: (u64, Seq<u8>)| e.1))) == Some(
            b.model().map(|i: int, e: (u64, Seq<u8>)| e.1),
        ),
{
    let ps = b.model().map(|i: int, e: (u64, Seq<u8>)| e.1);
    assert forall|i: int| 0 <= i < ps.len() implies #[trigger] ps[i].len()
        <= MAX_ENTRY_PAYLOAD as int by {
        assert(ps[i] == b.model()[i].1);
    }
    lemma_pack_round_trip(ps);
}

/// The first matching index decides a lookup: scanning and the recursive
/// lookup agree.
pub proof fn lemma_channel_lookup_index(m: Seq<(u64, u32, Seq<u8>)>, identity: u64, channel_type: u32)
    ensures
        forall|i: int|
            0 <= i < m.len() && (#[trigger] m[i].0 == identity && m[i].1 == channel_type) && (
            forall|j: int|
                0 <= j < i ==> !(#[trigger] m[j].0 == identity && m[j].1 == channel_type))
                ==> channel_lookup(m, identity, channel_type) == Some(m[i].2),
        (forall|j: int|
            0 <= j < m.len() ==> !(#[trigger] m[j].0 == identity && m[j].1 == channel_type))
            ==> channel_lookup(m, identity, channel_type) is None,
    decreases m.len(),
{
    if m.len() > 0 {
        lemma_channel_lookup_index(m.skip(1), identity, channel_type);
        assert forall|i: int|
            0 <= i < m.len() && (#[trigger] m[i].0 == identity && m[i].1 == channel_type) && (
            forall|j: int|
                0 <= j < i ==> !(#[trigger] m[j].0 == identity && m[j].1 == channel_type))
                implies channel_lookup(m, identity, channel_type) == Some(m[i].2) by {
            if i > 0 {
                assert(!(m[0].0 == identity && m[0].1 == channel_type));
                assert(m.skip(1)[i - 1] == m[i]);
                assert forall|j: int|
                    0 <= j < i - 1 implies !(#[trigger] m.skip(1)[j].0 == identity
                    && m.skip(1)[j].1 == channel_type) by {
                    assert(m.skip(1)[j] == m[j + 1]);
                }
            }
        }
        if forall|j: int|
            0 <= j < m.len() ==> !(#[trigger] m[j].0 == identity && m[j].1 == channel_type) {
            assert forall|j: int|
                0 <= j < m.skip(1).len() implies !(#[trigger] m.skip(1)[j].0 == identity
                && m.skip(1)[j].1 == channel_type) by {
                assert(m.skip(1)[j] == m[j + 1]);
            }
        }
    }
}

} // verus!
