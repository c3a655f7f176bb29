//! What every successful volatile allocation keeps: no receiver is filled
//! past its capacity, all the sand is placed, and every mud item goes to
//! exactly one receiver, in order.

use vstd::prelude::*;
use crate::grid::EntityId;
use crate::recovery::{
    increment_plan, min_int, mud_plan, room, sand_plan, transfer_plan, MixerCandidate,
    MixerIncrement, MudTransfer,
};

verus! {

/// The sum of a sequence of counts.
pub open spec fn total(a: Seq<u32>) -> int
    decreases a.len(),
{
    if a.len() == 0 {
        0
    } else {
        a[0] + total(a.drop_first())
    }
}

proof fn lemma_total_nonneg(a: Seq<u32>)
    ensures
        total(a) >= 0,
    decreases a.len(),
{
    if a.len() > 0 {
        lemma_total_nonneg(a.drop_first());
    }
}

proof fn lemma_sand_plan(c: Seq<MixerCandidate>, rem: int, cap: u32)
    requires
        rem >= 0,
    ensures
        sand_plan(c, rem, cap).0.len() == c.len(),
        total(sand_plan(c, rem, cap).0) + sand_plan(c, rem, cap).1 == rem,
        forall|i: int| 0 <= i < c.len() ==> #[trigger] sand_plan(c, rem, cap).0[i] <= room(cap, c[i].storage.sand),
    decreases c.len(),
{
    if c.len() > 0 {
        let a = min_int(rem, room(cap, c[0].storage.sand));
        lemma_sand_plan(c.drop_first(), rem - a, cap);
        let rest = sand_plan(c.drop_first(), rem - a, cap).0;
        let s = sand_plan(c, rem, cap).0;
        assert(s == seq![a as u32] + rest);
        assert(s.drop_first() =~= rest);
        assert forall|i: int| 0 <= i < c.len() implies #[trigger] s[i] <= room(cap, c[i].storage.sand) by {
            if i > 0 {
                assert(s[i] == rest[i - 1]);
                assert(c.drop_first()[i - 1] == c[i]);
            }
        }
    }
}

proof fn lemma_mud_plan(c: Seq<MixerCandidate>, rem: int, cap: u32)
    requires
        0 <= rem < 0x1_0000_0000,
    ensures
        mud_plan(c, rem, cap).0.len() == c.len(),
        total(mud_plan(c, rem, cap).0) + mud_plan(c, rem, cap).1 == rem,
        forall|i: int| 0 <= i < c.len() ==> #[trigger] mud_plan(c, rem, cap).0[i] <= room(cap, c[i].storage.mud),
    decreases c.len(),
{
    if c.len() > 0 {
        assert(rem % 0x1_0000_0000 == rem);
        let a = min_int(rem, room(cap, c[0].storage.mud));
        lemma_mud_plan(c.drop_first(), rem - a, cap);
        let rest = mud_plan(c.drop_first(), rem - a, cap).0;
        let s = mud_plan(c, rem, cap).0;
        assert(s == seq![a as u32] + rest);
        assert(s.drop_first() =~= rest);
        assert forall|i: int| 0 <= i < c.len() implies #[trigger] s[i] <= room(cap, c[i].storage.mud) by {
            if i > 0 {
                assert(s[i] == rest[i - 1]);
                assert(c.drop_first()[i - 1] == c[i]);
            }
        }
    }
}

proof fn lemma_transfer_entities(c: Seq<MixerCandidate>, amounts: Seq<u32>, m: Seq<EntityId>, start: int)
    requires
        amounts.len() == c.len(),
        0 <= start,
        start + total(amounts) <= m.len(),
    ensures
        transfer_plan(c, amounts, m, start).map_values(|t: MudTransfer| t.entity)
            == m.subrange(start, start + total(amounts)),
    decreases c.len(),
{
    if c.len() == 0 {
        assert(m.subrange(start, start) =~= Seq::<EntityId>::empty());
        assert(transfer_plan(c, amounts, m, start).map_values(|t: MudTransfer| t.entity) =~= Seq::<EntityId>::empty());
    } else {
        let n = amounts[0] as int;
        lemma_total_nonneg(amounts.drop_first());
        lemma_transfer_entities(c.drop_first(), amounts.drop_first(), m, start + n);
        let head = Seq::new(n as nat, |k: int| MudTransfer { entity: m[start + k], receiver: c[0].entity });
        let tail = transfer_plan(c.drop_first(), amounts.drop_first(), m, start + n);
        assert(transfer_plan(c, amounts, m, start) == head + tail);
        let f = |t: MudTransfer| t.entity;
        assert((head + tail).map_values(f) =~= head.map_values(f) + tail.map_values(f));
        assert(head.map_values(f) =~= m.subrange(start, start + n));
        assert(m.subrange(start, start + total(amounts))
            =~= m.subrange(start, start + n) + m.subrange(start + n, start + total(amounts)));
    }
}

proof fn lemma_increments_bounded(c: Seq<MixerCandidate>, sa: Seq<u32>, ma: Seq<u32>, sand_cap: u32, mud_cap: u32)
    requires
        sa.len() == c.len(),
        ma.len() == c.len(),
        forall|i: int| 0 <= i < c.len() ==> #[trigger] sa[i] <= room(sand_cap, c[i].storage.sand),
        forall|i: int| 0 <= i < c.len() ==> #[trigger] ma[i] <= room(mud_cap, c[i].storage.mud),
    ensures
        forall|k: int| 0 <= k < increment_plan(c, sa, ma).len() ==> {
            let inc = #[trigger] increment_plan(c, sa, ma)[k];
            &&& inc.sand <= room(sand_cap, inc.expected.sand)
            &&& inc.mud <= room(mud_cap, inc.expected.mud)
            &&& (inc.sand > 0 || inc.mud > 0)
        },
    decreases c.len(),
{
    if c.len() > 0 {
        assert forall|i: int| 0 <= i < c.len() - 1 implies #[trigger] sa.drop_first()[i] <= room(sand_cap, c.drop_first()[i].storage.sand) by {
            assert(sa.drop_first()[i] == sa[i + 1]);
            assert(c.drop_first()[i] == c[i + 1]);
        }
        assert forall|i: int| 0 <= i < c.len() - 1 implies #[trigger] ma.drop_first()[i] <= room(mud_cap, c.drop_first()[i].storage.mud) by {
            assert(ma.drop_first()[i] == ma[i + 1]);
            assert(c.drop_first()[i] == c[i + 1]);
        }
        lemma_increments_bounded(c.drop_first(), sa.drop_first(), ma.drop_first(), sand_cap, mud_cap);
        assert(sa[0] <= room(sand_cap, c[0].storage.sand));
        assert(ma[0] <= room(mud_cap, c[0].storage.mud));
        let rest = increment_plan(c.drop_first(), sa.drop_first(), ma.drop_first());
        let all = increment_plan(c, sa, ma);
        if sa[0] > 0 || ma[0] > 0 {
            let head = MixerIncrement { receiver: c[0].entity, expected: c[0].storage, sand: sa[0], mud: ma[0] };
            assert(all == seq![head] + rest);
            assert forall|k: int| 0 <= k < all.len() implies {
                let inc = #[trigger] all[k];
                &&& inc.sand <= room(sand_cap, inc.expected.sand)
                &&& inc.mud <= room(mud_cap, inc.expected.mud)
                &&& (inc.sand > 0 || inc.mud > 0)
            } by {
                if k > 0 {
                    assert(all[k] == rest[k - 1]);
                }
            }
        } else {
            assert(all == rest);
        }
    }
}

/// A successful volatile allocation fills no receiver past its capacity,
/// places all the sand, and hands every mud item to exactly one receiver,
/// in the order the mud items were given. (A count of mud items that does
/// not fit in `u32` is read truncated and is left out.)
pub proof fn law_allocation_respects_capacity_and_moves_each_item_once(
    c: Seq<MixerCandidate>,
    sand_total: u32,
    mud: Seq<EntityId>,
    sand_cap: u32,
    mud_cap: u32,
)
    requires
        mud.len() <= u32::MAX,
    ensures
        ({
            let (sa, sand_left) = sand_plan(c, sand_total as int, sand_cap);
            let (ma, mud_left) = mud_plan(c, mud.len() as int, mud_cap);
            &&& forall|k: int| 0 <= k < increment_plan(c, sa, ma).len() ==> {
                let inc = #[trigger] increment_plan(c, sa, ma)[k];
                &&& inc.sand <= room(sand_cap, inc.expected.sand)
                &&& inc.mud <= room(mud_cap, inc.expected.mud)
                &&& (inc.sand > 0 || inc.mud > 0)
            }
            &&& sand_left == 0 ==> total(sa) == sand_total
            &&& mud_left == 0 ==> transfer_plan(c, ma, mud, 0).map_values(|t: MudTransfer| t.entity) == mud
        }),
{
    lemma_sand_plan(c, sand_total as int, sand_cap);
    lemma_mud_plan(c, mud.len() as int, mud_cap);
    let (sa, sand_left) = sand_plan(c, sand_total as int, sand_cap);
    let (ma, mud_left) = mud_plan(c, mud.len() as int, mud_cap);
    lemma_increments_bounded(c, sa, ma, sand_cap, mud_cap);
    if mud_left == 0 {
        lemma_transfer_entities(c, ma, mud, 0);
        assert(mud.subrange(0, mud.len() as int) =~= mud);
    }
}

} // verus!
