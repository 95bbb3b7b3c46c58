//! Broadcasting a change of a canteen's meal plan to the chats that follow the canteen.
use std::collections::BTreeMap;
use vstd::laws_cmp::obeys_cmp;
use vstd::prelude::*;
use vstd::std_specs::btree::{increasing_seq, key_obeys_cmp_spec, spec_btree_map_iter};
use vstd::std_specs::cmp::OrdSpec;
use vstd::std_specs::iter::IteratorSpec;

use crate::clock::local_time_of_day;
use crate::registrations::unscheduled_entry;
use crate::types::{JobHandlerTask, MealsDiff, RegistrationEntry};

verus! {

broadcast use vstd::std_specs::btree::group_btree_axioms, vstd::laws_cmp::group_laws_cmp;

/// A meal plan update to send to one chat: as a diff or as the whole menu, with or
/// without allergens.
#[derive(Clone, Copy, Debug, PartialEq, Eq)]
pub struct UpdateNotice {
    pub chat_id: i64,
    pub send_diff: bool,
    pub show_allergens: bool,
}

/// Whether the change holds more than changed allergens.
pub open spec fn changes_more_than_allergens(diff: MealsDiff) -> bool {
    diff.has_new_meals || diff.has_removed_meals || diff.has_modified_meals_ignoring_allergens
}

/// Whether a registration gets the update at all, whatever the time: it has a daily time,
/// follows the canteen, and shows allergens unless the change holds more than allergens.
pub open spec fn subscribed_to_update(reg: RegistrationEntry, diff: MealsDiff) -> bool {
    &&& reg.hour is Some
    &&& reg.minute is Some
    &&& reg.mensa_id == diff.canteen_id
    &&& (reg.allergens || changes_more_than_allergens(diff))
}

/// Whether the daily message of a registration was due at `now_hour:now_minute` or before.
pub open spec fn daily_message_sent(reg: RegistrationEntry, now_hour: u32, now_minute: u32) -> bool {
    reg.hour->0 < now_hour || (reg.hour->0 == now_hour && reg.minute->0 <= now_minute)
}

/// The update that chat `chat_id` gets at `now_hour:now_minute`: only once its daily
/// message has gone out, and only if it is subscribed to the update.
pub open spec fn notice_at(
    chat_id: i64,
    reg: RegistrationEntry,
    diff: MealsDiff,
    now_hour: u32,
    now_minute: u32,
) -> Option<UpdateNotice> {
    if subscribed_to_update(reg, diff) && daily_message_sent(reg, now_hour, now_minute) {
        Some(UpdateNotice { chat_id, send_diff: reg.senddiff, show_allergens: reg.allergens })
    } else {
        None
    }
}

/// Decides, at the time of day `now_hour:now_minute`, whether and how chat `chat_id`
/// gets the meal plan update `diff`.
pub fn update_notice(
    chat_id: i64,
    reg: &RegistrationEntry,
    diff: &MealsDiff,
    now_hour: u32,
    now_minute: u32,
) -> (res: Option<UpdateNotice>)
    ensures
        res == notice_at(chat_id, *reg, *diff, now_hour, now_minute),
        res matches Some(n) ==> n.chat_id == chat_id && n.send_diff == reg.senddiff
            && n.show_allergens == reg.allergens,
        res is Some <==> {
            &&& reg.hour is Some
            &&& reg.minute is Some
            &&& reg.mensa_id == diff.canteen_id
            &&& (reg.hour->0 < now_hour || (reg.hour->0 == now_hour && reg.minute->0 <= now_minute))
            &&& (reg.allergens || diff.has_new_meals || diff.has_removed_meals
                || diff.has_modified_meals_ignoring_allergens)
        },
{
    match (reg.hour, reg.minute) {
        (Some(job_hour), Some(job_minute)) => {
            if reg.mensa_id == diff.canteen_id && (job_hour < now_hour || job_hour == now_hour
                && job_minute <= now_minute) {
                if !reg.allergens && !diff.has_new_meals && !diff.has_removed_meals
                    && !diff.has_modified_meals_ignoring_allergens {
                    None
                } else {
                    Some(UpdateNotice { chat_id, send_diff: reg.senddiff, show_allergens: reg.allergens })
                }
            } else {
                None
            }
        },
        _ => None,
    }
}

/// Whether `keys` are the chats of `regs`, each once, in increasing order.
pub open spec fn chats_in_order(regs: Map<i64, RegistrationEntry>, keys: Seq<i64>) -> bool {
    &&& forall|i: int, j: int| 0 <= i < j < keys.len() ==> keys[i] < keys[j]
    &&& forall|i: int| 0 <= i < keys.len() ==> regs.contains_key(#[trigger] keys[i])
    &&& forall|c: i64| #[trigger] regs.contains_key(c) ==> keys.contains(c)
}

/// A registration book has one order of its chats: two sequences that both list its chats
/// once each in increasing order are the same.
pub proof fn lemma_chat_order_unique(regs: Map<i64, RegistrationEntry>, a: Seq<i64>, b: Seq<i64>)
    requires
        chats_in_order(regs, a),
        chats_in_order(regs, b),
    ensures
        a == b,
    decreases a.len(),
{
    if a.len() == 0 {
        if b.len() > 0 {
            assert(regs.contains_key(b[0]));
            assert(a.contains(b[0]));
        }
        assert(a =~= b);
    } else {
        assert(regs.contains_key(a[0]));
        assert(b.contains(a[0]));
        let j = choose|j: int| 0 <= j < b.len() && b[j] == a[0];
        assert(regs.contains_key(b[0]));
        assert(a.contains(b[0]));
        let i = choose|i: int| 0 <= i < a.len() && a[i] == b[0];
        if i > 0 {
            assert(a[0] < a[i]);
        }
        if j > 0 {
            assert(b[0] < b[j]);
        }
        assert(a[0] == b[0]);
        let r = regs.remove(a[0]);
        let a1 = a.drop_first();
        let b1 = b.drop_first();
        assert forall|k: int| 0 <= k < a1.len() implies r.contains_key(#[trigger] a1[k]) by {
            assert(a1[k] == a[k + 1]);
            assert(a[0] < a[k + 1]);
        }
        assert forall|k: int| 0 <= k < b1.len() implies r.contains_key(#[trigger] b1[k]) by {
            assert(b1[k] == b[k + 1]);
            assert(b[0] < b[k + 1]);
        }
        assert forall|c: i64| #[trigger] r.contains_key(c) implies a1.contains(c) by {
            assert(a.contains(c));
            let k = choose|k: int| 0 <= k < a.len() && a[k] == c;
            assert(k != 0);
            assert(a1[k - 1] == c);
        }
        assert forall|c: i64| #[trigger] r.contains_key(c) implies b1.contains(c) by {
            assert(b.contains(c));
            let k = choose|k: int| 0 <= k < b.len() && b[k] == c;
            assert(k != 0);
            assert(b1[k - 1] == c);
        }
        assert forall|x: int, y: int| 0 <= x < y < a1.len() implies a1[x] < a1[y] by {
            assert(a1[x] == a[x + 1] && a1[y] == a[y + 1]);
        }
        assert forall|x: int, y: int| 0 <= x < y < b1.len() implies b1[x] < b1[y] by {
            assert(b1[x] == b[x + 1] && b1[y] == b[y + 1]);
        }
        lemma_chat_order_unique(r, a1, b1);
        assert(a =~= seq![a[0]] + a1);
        assert(b =~= seq![b[0]] + b1);
    }
}

/// The notices for the chats `keys` in order, chat `keys[i]` decided at the time of day
/// `times[i]` (hour, minute).
pub open spec fn notices_over(
    regs: Map<i64, RegistrationEntry>,
    diff: MealsDiff,
    keys: Seq<i64>,
    times: Seq<(u32, u32)>,
) -> Seq<UpdateNotice>
    decreases keys.len(),
{
    if keys.len() == 0 {
        Seq::empty()
    } else {
        notices_over(regs, diff, keys.drop_last(), times.drop_last()) + match notice_at(
            keys.last(),
            regs[keys.last()],
            diff,
            times.last().0,
            times.last().1,
        ) {
            Some(n) => seq![n],
            None => Seq::empty(),
        }
    }
}

/// Every notice of a broadcast over chats in increasing order goes to one of those chats,
/// as that chat's preferences say (a diff exactly when it wants diffs, allergens exactly
/// when it wants allergens), and the notices come in increasing chat order.
pub proof fn lemma_broadcast_notices_follow_preferences(
    regs: Map<i64, RegistrationEntry>,
    diff: MealsDiff,
    ks: Seq<i64>,
    ts: Seq<(u32, u32)>,
)
    requires
        forall|i: int, j: int| 0 <= i < j < ks.len() ==> ks[i] < ks[j],
        forall|i: int| 0 <= i < ks.len() ==> regs.contains_key(#[trigger] ks[i]),
    ensures
        forall|k: int|
            0 <= k < notices_over(regs, diff, ks, ts).len() ==> ks.contains(
                #[trigger] notices_over(regs, diff, ks, ts)[k].chat_id,
            ) && regs.contains_key(notices_over(regs, diff, ks, ts)[k].chat_id)
                && notices_over(regs, diff, ks, ts)[k].send_diff == regs[notices_over(
                regs,
                diff,
                ks,
                ts,
            )[k].chat_id].senddiff && notices_over(regs, diff, ks, ts)[k].show_allergens
                == regs[notices_over(regs, diff, ks, ts)[k].chat_id].allergens,
        forall|k: int, l: int|
            0 <= k < l < notices_over(regs, diff, ks, ts).len() ==> notices_over(regs, diff, ks, ts)[k].chat_id
                < notices_over(regs, diff, ks, ts)[l].chat_id,
    decreases ks.len(),
{
    if ks.len() > 0 {
        let k0 = ks.drop_last();
        let t0 = ts.drop_last();
        assert forall|i: int, j: int| 0 <= i < j < k0.len() implies k0[i] < k0[j] by {
            assert(k0[i] == ks[i] && k0[j] == ks[j]);
        }
        assert forall|i: int| 0 <= i < k0.len() implies regs.contains_key(#[trigger] k0[i]) by {
            assert(k0[i] == ks[i]);
        }
        lemma_broadcast_notices_follow_preferences(regs, diff, k0, t0);
        let p = notices_over(regs, diff, k0, t0);
        let c = ks.last();
        assert(regs.contains_key(ks[ks.len() - 1]));
        let e = notice_at(c, regs[c], diff, ts.last().0, ts.last().1);
        let t: Seq<UpdateNotice> = match e {
            Some(n) => seq![n],
            None => Seq::empty(),
        };
        let all = notices_over(regs, diff, ks, ts);
        assert(all == p + t);
        assert forall|k: int| 0 <= k < all.len() implies ks.contains(#[trigger] all[k].chat_id)
            && regs.contains_key(all[k].chat_id) && all[k].send_diff == regs[all[k].chat_id].senddiff
            && all[k].show_allergens == regs[all[k].chat_id].allergens by {
            if k < p.len() {
                assert(all[k] == p[k]);
                assert(k0.contains(p[k].chat_id));
                let j = choose|j: int| 0 <= j < k0.len() && k0[j] == p[k].chat_id;
                assert(ks[j] == k0[j]);
            } else {
                assert(all[k].chat_id == c);
                assert(ks[ks.len() - 1] == c);
            }
        }
        assert forall|k: int, l: int| 0 <= k < l < all.len() implies all[k].chat_id < all[l].chat_id by {
            if l < p.len() {
                assert(all[k] == p[k] && all[l] == p[l]);
            } else {
                assert(all[k] == p[k]);
                assert(k0.contains(p[k].chat_id));
                let j = choose|j: int| 0 <= j < k0.len() && k0[j] == p[k].chat_id;
                assert(ks[j] == k0[j]);
                assert(ks[j] < ks[ks.len() - 1]);
            }
        }
    }
}

/// A broadcast gives, for each chat `keys[i]`, exactly the notice that chat is due at its
/// reading `times[i]`: every due chat gets its notice, and every notice is one of them.
pub proof fn lemma_broadcast_gives_due_notices(
    regs: Map<i64, RegistrationEntry>,
    diff: MealsDiff,
    keys: Seq<i64>,
    times: Seq<(u32, u32)>,
)
    requires
        times.len() == keys.len(),
    ensures
        forall|i: int|
            #![trigger keys[i]]
            0 <= i < keys.len() ==> (notice_at(keys[i], regs[keys[i]], diff, times[i].0, times[i].1)
                matches Some(n) ==> notices_over(regs, diff, keys, times).contains(n)),
        forall|k: int|
            0 <= k < notices_over(regs, diff, keys, times).len() ==> exists|i: int|
                0 <= i < keys.len() && notice_at(keys[i], regs[keys[i]], diff, times[i].0, times[i].1)
                    == Some(#[trigger] notices_over(regs, diff, keys, times)[k]),
    decreases keys.len(),
{
    if keys.len() > 0 {
        let ks = keys.drop_last();
        let ts = times.drop_last();
        lemma_broadcast_gives_due_notices(regs, diff, ks, ts);
        let p = notices_over(regs, diff, ks, ts);
        let last = keys.len() - 1;
        let e = notice_at(keys[last], regs[keys[last]], diff, times[last].0, times[last].1);
        let t: Seq<UpdateNotice> = match e {
            Some(n) => seq![n],
            None => Seq::empty(),
        };
        let all = notices_over(regs, diff, keys, times);
        assert(keys.last() == keys[last] && times.last() == times[last]);
        assert(all == p + t);
        assert forall|i: int|
            #![trigger keys[i]]
            0 <= i < keys.len() implies (notice_at(
            keys[i],
            regs[keys[i]],
            diff,
            times[i].0,
            times[i].1,
        ) matches Some(n) ==> all.contains(n)) by {
            if i < last {
                assert(ks[i] == keys[i] && ts[i] == times[i]);
                if let Some(n) = notice_at(keys[i], regs[keys[i]], diff, times[i].0, times[i].1) {
                    assert(p.contains(n));
                    let k = choose|k: int| 0 <= k < p.len() && p[k] == n;
                    assert(all[k] == p[k]);
                }
            } else {
                if let Some(n) = e {
                    assert(all[p.len() as int] == n);
                }
            }
        }
        assert forall|k: int| 0 <= k < all.len() implies exists|i: int|
            0 <= i < keys.len() && notice_at(keys[i], regs[keys[i]], diff, times[i].0, times[i].1)
                == Some(#[trigger] all[k]) by {
            if k < p.len() {
                assert(all[k] == p[k]);
                let i = choose|i: int|
                    0 <= i < ks.len() && notice_at(ks[i], regs[ks[i]], diff, ts[i].0, ts[i].1)
                        == Some(p[k]);
                assert(ks[i] == keys[i] && ts[i] == times[i]);
            } else {
                assert(all[k] == t[0]);
            }
        }
    }
}

/// The chats of the iterator's pairs.
pub open spec fn pair_keys(pairs: Seq<(&i64, &RegistrationEntry)>) -> Seq<i64> {
    pairs.map_values(|kv: (&i64, &RegistrationEntry)| *kv.0)
}

/// The chats come out of a registration book's iterator in increasing order.
proof fn lemma_iterated_chats_increase(pending: Seq<(&i64, &RegistrationEntry)>)
    requires
        key_obeys_cmp_spec::<i64>() ==> increasing_seq(pair_keys(pending)),
    ensures
        forall|i: int, j: int| 0 <= i < j < pending.len() ==> *pending[i].0 < *pending[j].0,
{
    let keys = pair_keys(pending);
    assert(obeys_cmp::<i64>());
    assert(key_obeys_cmp_spec::<i64>());
    assert forall|i: int, j: int| 0 <= i < j < pending.len() implies *pending[i].0
        < *pending[j].0 by {
        assert(keys[i] == *pending[i].0 && keys[j] == *pending[j].0);
        assert(keys[i].cmp_spec(&keys[j]) is Less);
    }
}

/// Decides a broadcast chat by chat in increasing order, chat number `i` at the time of day
/// `times[i]` (hour, minute): the notices are exactly those that `notice_at` gives.
pub fn updates_at(
    regs: &BTreeMap<i64, RegistrationEntry>,
    task: &JobHandlerTask,
    times: &Vec<(u32, u32)>,
) -> (notices: Vec<UpdateNotice>)
    requires
        task.meals_diff is Some,
        times@.len() == regs@.len(),
    ensures
        exists|keys: Seq<i64>|
            chats_in_order(regs@, keys) && notices@ == notices_over(
                regs@,
                task.meals_diff->0,
                keys,
                times@,
            ),
        forall|k: int|
            0 <= k < notices.len() ==> {
                let n = #[trigger] notices@[k];
                &&& regs@.contains_key(n.chat_id)
                &&& n.send_diff == regs@[n.chat_id].senddiff
                &&& n.show_allergens == regs@[n.chat_id].allergens
            },
        forall|k: int, l: int|
            0 <= k < l < notices.len() ==> notices@[k].chat_id < notices@[l].chat_id,
{
    let diff = task.meals_diff.unwrap();
    let mut notices: Vec<UpdateNotice> = Vec::new();
    let iter = regs.iter();
    let ghost pending = iter.remaining();
    proof {
        lemma_iterated_chats_increase(pending);
    }
    let mut i: usize = 0;
    for entry in it: iter
        invariant
            it.seq() == pending,
            pending == spec_btree_map_iter(regs).remaining(),
            pending.len() == times@.len(),
            i == it.index(),
            notices@ == notices_over(
                regs@,
                diff,
                pair_keys(pending).take(i as int),
                times@.take(i as int),
            ),
    {
        let (chat_id, reg) = entry;
        assert(0 <= it.index() < it.seq().len());
        assert(entry == it.seq()[it.index()]);
        assert(regs@.contains_key(*chat_id) && regs@[*chat_id] == *reg);
        let ghost before = notices@;
        let (now_hour, now_minute) = times[i];
        let ghost ks = pair_keys(pending).take(i + 1);
        let ghost ts = times@.take(i + 1);
        assert(ks.drop_last() =~= pair_keys(pending).take(i as int));
        assert(ts.drop_last() =~= times@.take(i as int));
        assert(ks.last() == *chat_id);
        assert(ts.last() == (now_hour, now_minute));
        match update_notice(*chat_id, reg, &diff, now_hour, now_minute) {
            Some(n) => {
                notices.push(n);
            },
            None => {},
        }
        assert(notices@ =~= notices_over(regs@, diff, ks, ts));
        assert(i < times.len());
        i = i + 1;
    }
    let ghost keys = pair_keys(pending);
    proof {
        assert(keys.take(keys.len() as int) =~= keys);
        assert(times@.take(times@.len() as int) =~= times@);
        assert forall|c: i64| #[trigger] regs@.contains_key(c) implies keys.contains(c) by {
            assert(pending.contains((&c, &regs@[c])));
            let j = choose|j: int| 0 <= j < pending.len() && pending[j] == (&c, &regs@[c]);
            assert(keys[j] == c);
        }
        assert forall|j: int| 0 <= j < keys.len() implies regs@.contains_key(#[trigger] keys[j]) by {
            assert(keys[j] == *pending[j].0);
            assert(regs@.contains_key(*pending[j].0));
        }
        assert(chats_in_order(regs@, keys));
        lemma_broadcast_notices_follow_preferences(regs@, diff, keys, times@);
    }
    notices
}

/// The updates to send for a broadcast task: the local time of day is read once for each
/// registration, and chat number `i`, in increasing order, is decided at reading `i`.
/// Every reading is a time of day (hour below 24, minute below 60); which times came back
/// depends on the clock.
pub fn handle_broadcast_update_task(
    regs: &BTreeMap<i64, RegistrationEntry>,
    task: &JobHandlerTask,
) -> (notices: Vec<UpdateNotice>)
    requires
        task.meals_diff is Some,
    ensures
        exists|keys: Seq<i64>, times: Seq<(u32, u32)>|
            {
                &&& times.len() == regs@.len()
                &&& forall|j: int| 0 <= j < times.len() ==> (#[trigger] times[j]).0 < 24 && times[j].1 < 60
                &&& chats_in_order(regs@, keys)
                &&& notices@ == notices_over(regs@, task.meals_diff->0, keys, times)
            },
        forall|k: int|
            0 <= k < notices.len() ==> {
                let n = #[trigger] notices@[k];
                &&& regs@.contains_key(n.chat_id)
                &&& n.send_diff == regs@[n.chat_id].senddiff
                &&& n.show_allergens == regs@[n.chat_id].allergens
            },
        forall|k: int, l: int|
            0 <= k < l < notices.len() ==> notices@[k].chat_id < notices@[l].chat_id,
{
    let count = regs.len();
    let mut times: Vec<(u32, u32)> = Vec::new();
    for j in 0..count
        invariant
            times@.len() == j,
            forall|k: int| 0 <= k < times@.len() ==> (#[trigger] times@[k]).0 < 24 && times@[k].1 < 60,
    {
        times.push(local_time_of_day());
    }
    let notices = updates_at(regs, task, &times);
    assert(times@.len() == regs@.len());
    notices
}

/// Whether the time of day `a` is not later than `b`.
pub open spec fn not_later(a: (u32, u32), b: (u32, u32)) -> bool {
    a.0 < b.0 || (a.0 == b.0 && a.1 <= b.1)
}

/// A chat that gets an update at one time of day gets the same update at any later time.
pub proof fn lemma_notice_stays_later(
    chat_id: i64,
    reg: RegistrationEntry,
    diff: MealsDiff,
    earlier: (u32, u32),
    later: (u32, u32),
)
    requires
        not_later(earlier, later),
        notice_at(chat_id, reg, diff, earlier.0, earlier.1) is Some,
    ensures
        notice_at(chat_id, reg, diff, later.0, later.1) == notice_at(
            chat_id,
            reg,
            diff,
            earlier.0,
            earlier.1,
        ),
{
}

/// The recipients of a broadcast grow with the time of day: decided at readings that are
/// each no earlier, every notice given before is given again.
pub proof fn lemma_recipients_grow_with_time(
    regs: Map<i64, RegistrationEntry>,
    diff: MealsDiff,
    keys: Seq<i64>,
    earlier: Seq<(u32, u32)>,
    later: Seq<(u32, u32)>,
)
    requires
        earlier.len() == keys.len(),
        later.len() == keys.len(),
        forall|i: int| 0 <= i < keys.len() ==> not_later(#[trigger] earlier[i], later[i]),
    ensures
        forall|n: UpdateNotice|
            notices_over(regs, diff, keys, earlier).contains(n) ==> #[trigger] notices_over(
                regs,
                diff,
                keys,
                later,
            ).contains(n),
    decreases keys.len(),
{
    if keys.len() > 0 {
        let k = keys.len() - 1;
        assert forall|i: int| 0 <= i < keys.drop_last().len() implies not_later(
            #[trigger] earlier.drop_last()[i],
            later.drop_last()[i],
        ) by {
            assert(earlier.drop_last()[i] == earlier[i] && later.drop_last()[i] == later[i]);
        }
        lemma_recipients_grow_with_time(regs, diff, keys.drop_last(), earlier.drop_last(), later.drop_last());
        assert(not_later(earlier[k], later[k]));
        let p1 = notices_over(regs, diff, keys.drop_last(), earlier.drop_last());
        let p2 = notices_over(regs, diff, keys.drop_last(), later.drop_last());
        let e1 = notice_at(keys.last(), regs[keys.last()], diff, earlier.last().0, earlier.last().1);
        let e2 = notice_at(keys.last(), regs[keys.last()], diff, later.last().0, later.last().1);
        if e1 is Some {
            lemma_notice_stays_later(keys.last(), regs[keys.last()], diff, earlier.last(), later.last());
        }
        let t1: Seq<UpdateNotice> = match e1 { Some(n) => seq![n], None => Seq::empty() };
        let t2: Seq<UpdateNotice> = match e2 { Some(n) => seq![n], None => Seq::empty() };
        assert(notices_over(regs, diff, keys, earlier) == p1 + t1);
        assert(notices_over(regs, diff, keys, later) == p2 + t2);
        assert forall|n: UpdateNotice| (p1 + t1).contains(n) implies #[trigger] (p2 + t2).contains(n) by {
            let j = choose|j: int| 0 <= j < (p1 + t1).len() && (p1 + t1)[j] == n;
            if j < p1.len() {
                assert(p1[j] == n);
                assert(p1.contains(n));
                assert(p2.contains(n));
                let j2 = choose|j2: int| 0 <= j2 < p2.len() && p2[j2] == n;
                assert((p2 + t2)[j2] == n);
            } else {
                assert(t1[j - p1.len()] == n);
                assert((p2 + t2)[p2.len() as int] == n);
            }
        }
    }
}

/// An update goes to the chat it is decided for, as that chat's preferences say: a diff
/// exactly when the chat wants diffs, allergens exactly when it wants allergens, whatever
/// the change.
pub proof fn lemma_notice_follows_preferences(
    chat_id: i64,
    reg: RegistrationEntry,
    diff: MealsDiff,
    now_hour: u32,
    now_minute: u32,
)
    ensures
        notice_at(chat_id, reg, diff, now_hour, now_minute) matches Some(n) ==> {
            &&& n.chat_id == chat_id
            &&& n.send_diff == reg.senddiff
            &&& n.show_allergens == reg.allergens
        },
{
}

/// A chat gets an update exactly when it has a daily time that has passed, follows the
/// changed canteen, and either shows allergens or the change is more than allergens.
pub proof fn lemma_notice_exactly_when_due(
    chat_id: i64,
    reg: RegistrationEntry,
    diff: MealsDiff,
    now_hour: u32,
    now_minute: u32,
)
    ensures
        notice_at(chat_id, reg, diff, now_hour, now_minute) is Some <==> {
            &&& reg.hour is Some
            &&& reg.minute is Some
            &&& reg.mensa_id == diff.canteen_id
            &&& (reg.hour->0 < now_hour || (reg.hour->0 == now_hour && reg.minute->0 <= now_minute))
            &&& (reg.allergens || diff.has_new_meals || diff.has_removed_meals
                || diff.has_modified_meals_ignoring_allergens)
        },
{
}

/// An unregistered daily job stops the meal plan updates of the chat.
pub proof fn lemma_unscheduled_chat_gets_no_update(
    chat_id: i64,
    e: RegistrationEntry,
    diff: MealsDiff,
    now_hour: u32,
    now_minute: u32,
)
    ensures
        notice_at(chat_id, unscheduled_entry(e), diff, now_hour, now_minute) is None,
{
}

/// A chat that hides allergens gets no update that only changes allergens, and no chat gets
/// the update of another canteen.
pub proof fn lemma_updates_reach_only_interested_chats(
    chat_id: i64,
    reg: RegistrationEntry,
    diff: MealsDiff,
    now_hour: u32,
    now_minute: u32,
)
    ensures
        !reg.allergens && !changes_more_than_allergens(diff) ==> notice_at(
            chat_id,
            reg,
            diff,
            now_hour,
            now_minute,
        ) is None,
        reg.mensa_id != diff.canteen_id ==> notice_at(chat_id, reg, diff, now_hour, now_minute) is None,
{
}

} // verus!
