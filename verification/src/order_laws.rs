//! What rearranging the notes keeps.

use crate::docs;
use crate::store;
use vstd::prelude::*;

verus! {

/// Whether no two notes have the same id.
pub open spec fn distinct(notes: Seq<docs::NoteView>) -> bool {
    forall|i: int, j: int|
        0 <= i < j < notes.len() ==> (#[trigger] notes[i]).id != (#[trigger] notes[j]).id
}

/// The notes that an order does not mention, as they stand.
pub open spec fn unmentioned(notes: Seq<docs::NoteView>, order: Seq<Seq<char>>) -> Seq<
    docs::NoteView,
>
    decreases notes.len(),
{
    if notes.len() == 0 {
        seq![]
    } else if order.contains(notes.last().id) {
        unmentioned(notes.drop_last(), order)
    } else {
        unmentioned(notes.drop_last(), order).push(notes.last())
    }
}

/// A note is found by its id where no other has it.
pub proof fn own_position(notes: Seq<docs::NoteView>, i: int)
    requires
        distinct(notes),
        0 <= i < notes.len(),
    ensures
        store::seek(notes, notes[i].id) == Some(i),
{
    store::seek_finds(notes, notes[i].id);
}

/// Notes with the same ids are found at the same positions.
pub proof fn same_ids_same_positions(
    a: Seq<docs::NoteView>,
    b: Seq<docs::NoteView>,
    id: Seq<char>,
)
    requires
        a.len() == b.len(),
        forall|i: int| 0 <= i < a.len() ==> (#[trigger] a[i]).id == (#[trigger] b[i]).id,
    ensures
        store::seek(a, id) == store::seek(b, id),
{
    store::seek_finds(a, id);
    store::seek_finds(b, id);
    match (store::seek(a, id), store::seek(b, id)) {
        (Some(i), Some(j)) => {
            if i < j {
                assert(a[i].id == b[i].id);
            } else if j < i {
                assert(a[j].id == b[j].id);
            }
        },
        (Some(i), None) => {
            assert(a[i].id == b[i].id);
        },
        (None, Some(j)) => {
            assert(a[j].id == b[j].id);
        },
        (None, None) => {},
    }
}

/// Taking the notes of an id out leaves exactly the others.
pub proof fn without_keeps_the_others(notes: Seq<docs::NoteView>, id: Seq<char>)
    ensures
        forall|n: docs::NoteView|
            #![trigger store::without(notes, id).contains(n)]
            #![trigger notes.contains(n)]
            store::without(notes, id).contains(n) <==> notes.contains(n) && n.id != id,
        distinct(notes) ==> distinct(store::without(notes, id)),
    decreases notes.len(),
{
    if notes.len() > 0 {
        let rest = notes.drop_last();
        let left = store::without(rest, id);
        without_keeps_the_others(rest, id);
        assert(notes =~= rest.push(notes.last()));
        assert forall|n: docs::NoteView| #[trigger] notes.contains(n) <==> rest.contains(n) || n
            == notes.last() by {
            contains_push(rest, notes.last(), n);
        }
        assert forall|n: docs::NoteView|
            #[trigger] left.push(notes.last()).contains(n) <==> left.contains(n) || n == notes.last() by {
            contains_push(left, notes.last(), n);
        }
        if distinct(notes) {
            assert(distinct(rest)) by {
                assert forall|i: int, j: int| 0 <= i < j < rest.len() implies (
                #[trigger] rest[i]).id != (#[trigger] rest[j]).id by {
                    assert(rest[i] == notes[i] && rest[j] == notes[j]);
                }
            }
            if notes.last().id != id {
                let all = left.push(notes.last());
                assert forall|i: int, j: int| 0 <= i < j < all.len() implies (
                #[trigger] all[i]).id != (#[trigger] all[j]).id by {
                    if j == left.len() {
                        assert(left.contains(left[i]));
                        let k = choose|k: int| 0 <= k < rest.len() && rest[k] == left[i];
                        assert(notes[k].id != notes[notes.len() - 1].id);
                    }
                }
            }
        }
    }
}

proof fn contains_push(s: Seq<docs::NoteView>, last: docs::NoteView, n: docs::NoteView)
    ensures
        s.push(last).contains(n) <==> s.contains(n) || n == last,
{
    let t = s.push(last);
    if s.contains(n) {
        let i = choose|i: int| 0 <= i < s.len() && s[i] == n;
        assert(t[i] == n);
    }
    assert(t[s.len() as int] == last);
    if t.contains(n) && n != last {
        let i = choose|i: int| 0 <= i < t.len() && t[i] == n;
        assert(s[i] == n);
    }
}

proof fn contains_add(a: Seq<docs::NoteView>, b: Seq<docs::NoteView>, n: docs::NoteView)
    ensures
        (a + b).contains(n) <==> a.contains(n) || b.contains(n),
{
    if a.contains(n) {
        let i = choose|i: int| 0 <= i < a.len() && a[i] == n;
        assert((a + b)[i] == n);
    }
    if b.contains(n) {
        let i = choose|i: int| 0 <= i < b.len() && b[i] == n;
        assert((a + b)[a.len() + i] == n);
    }
    if (a + b).contains(n) {
        let i = choose|i: int| 0 <= i < (a + b).len() && (a + b)[i] == n;
        if i < a.len() {
            assert(a[i] == n);
        } else {
            assert(b[i - a.len()] == n);
        }
    }
}

/// Picking the notes of an id gives exactly those.
pub proof fn picked_are_those(notes: Seq<docs::NoteView>, id: Seq<char>)
    ensures
        forall|n: docs::NoteView|
            #![trigger store::picked(notes, id).contains(n)]
            #![trigger notes.contains(n)]
            store::picked(notes, id).contains(n) <==> notes.contains(n) && n.id == id,
        distinct(notes) ==> store::picked(notes, id).len() <= 1,
    decreases notes.len(),
{
    if notes.len() > 0 {
        let rest = notes.drop_last();
        let got = store::picked(rest, id);
        picked_are_those(rest, id);
        assert(notes =~= rest.push(notes.last()));
        assert forall|n: docs::NoteView| #[trigger] notes.contains(n) <==> rest.contains(n) || n
            == notes.last() by {
            contains_push(rest, notes.last(), n);
        }
        assert forall|n: docs::NoteView|
            #[trigger] got.push(notes.last()).contains(n) <==> got.contains(n) || n == notes.last() by {
            contains_push(got, notes.last(), n);
        }
        if distinct(notes) {
            assert(distinct(rest)) by {
                assert forall|i: int, j: int| 0 <= i < j < rest.len() implies (
                #[trigger] rest[i]).id != (#[trigger] rest[j]).id by {
                    assert(rest[i] == notes[i] && rest[j] == notes[j]);
                }
            }
            if notes.last().id == id && got.len() > 0 {
                assert(got.contains(got[0]));
                let k = choose|k: int| 0 <= k < rest.len() && rest[k] == got[0];
                assert(notes[k].id != notes[notes.len() - 1].id);
            }
        }
    }
}

/// A reorder is a permutation: no note is lost and none is doubled, and notes with
/// distinct ids still have distinct ids.
pub proof fn reorder_keeps_every_note(notes: Seq<docs::NoteView>, order: Seq<Seq<char>>)
    ensures
        store::arranged(notes, order).to_multiset() == notes.to_multiset(),
        store::arranged(notes, order).len() == notes.len(),
        distinct(notes) ==> distinct(store::arranged(notes, order)),
        forall|n: docs::NoteView|
            #![trigger store::arranged(notes, order).contains(n)]
            #![trigger notes.contains(n)]
            store::arranged(notes, order).contains(n) <==> notes.contains(n),
    decreases order.len(),
{
    broadcast use vstd::seq_lib::group_to_multiset_ensures;

    if order.len() > 0 {
        let got = store::picked(notes, order[0]);
        let left = store::without(notes, order[0]);
        let tail = store::arranged(left, order.skip(1));
        reorder_keeps_every_note(left, order.skip(1));
        parted(notes, order[0]);
        picked_are_those(notes, order[0]);
        without_keeps_the_others(notes, order[0]);
        vstd::seq_lib::lemma_multiset_commutative(got, tail);
        vstd::seq_lib::lemma_multiset_commutative(got, left);
        assert((got + tail).to_multiset() =~= notes.to_multiset());
        assert forall|n: docs::NoteView| #[trigger] (got + tail).contains(n) <==> notes.contains(
            n,
        ) by {
            contains_add(got, tail, n);
        }
        if distinct(notes) {
            let all = got + tail;
            assert forall|i: int, j: int| 0 <= i < j < all.len() implies (#[trigger] all[i]).id
                != (#[trigger] all[j]).id by {
                if i < got.len() {
                    assert(got.contains(got[i]));
                    assert(tail.contains(tail[j - got.len()]));
                } else {
                    assert(tail[i - got.len()].id != tail[j - got.len()].id);
                }
            }
        }
    }
}

/// The notes of an id and the others together are all the notes.
proof fn parted(notes: Seq<docs::NoteView>, id: Seq<char>)
    ensures
        store::picked(notes, id).to_multiset().add(store::without(notes, id).to_multiset())
            == notes.to_multiset(),
        store::picked(notes, id).len() + store::without(notes, id).len() == notes.len(),
    decreases notes.len(),
{
    broadcast use vstd::seq_lib::group_to_multiset_ensures;

    if notes.len() > 0 {
        let rest = notes.drop_last();
        parted(rest, id);
        assert(notes =~= rest.push(notes.last()));
        assert(store::picked(notes, id).to_multiset().add(
            store::without(notes, id).to_multiset(),
        ) =~= notes.to_multiset());
    } else {
        assert(store::picked(notes, id) =~= notes);
        assert(store::picked(notes, id).to_multiset().add(
            store::without(notes, id).to_multiset(),
        ) =~= notes.to_multiset());
    }
}

proof fn nothing_to_take(notes: Seq<docs::NoteView>, id: Seq<char>)
    requires
        forall|i: int| 0 <= i < notes.len() ==> (#[trigger] notes[i]).id != id,
    ensures
        store::picked(notes, id) == Seq::<docs::NoteView>::empty(),
        store::without(notes, id) == notes,
    decreases notes.len(),
{
    if notes.len() > 0 {
        let rest = notes.drop_last();
        assert forall|i: int| 0 <= i < rest.len() implies (#[trigger] rest[i]).id != id by {
            assert(rest[i] == notes[i]);
        }
        nothing_to_take(rest, id);
        assert(notes[notes.len() - 1].id != id);
        assert(rest.push(notes.last()) =~= notes);
    } else {
        assert(notes =~= Seq::<docs::NoteView>::empty());
    }
}

proof fn all_to_take(notes: Seq<docs::NoteView>, id: Seq<char>)
    requires
        forall|i: int| 0 <= i < notes.len() ==> (#[trigger] notes[i]).id == id,
    ensures
        store::picked(notes, id) == notes,
        store::without(notes, id) == Seq::<docs::NoteView>::empty(),
    decreases notes.len(),
{
    if notes.len() > 0 {
        let rest = notes.drop_last();
        assert forall|i: int| 0 <= i < rest.len() implies (#[trigger] rest[i]).id == id by {
            assert(rest[i] == notes[i]);
        }
        all_to_take(rest, id);
        assert(notes[notes.len() - 1].id == id);
        assert(rest.push(notes.last()) =~= notes);
    } else {
        assert(notes =~= Seq::<docs::NoteView>::empty());
    }
}

/// Notes are taken out part by part, so that they keep their order, and a single
/// note is taken out if it has the id, and else left.
pub proof fn taken_in_parts(a: Seq<docs::NoteView>, b: Seq<docs::NoteView>, id: Seq<char>)
    ensures
        store::picked(a + b, id) == store::picked(a, id) + store::picked(b, id),
        store::without(a + b, id) == store::without(a, id) + store::without(b, id),
        a.len() == 1 ==> store::picked(a, id) == (if a[0].id == id {
            a
        } else {
            Seq::<docs::NoteView>::empty()
        }),
        a.len() == 1 ==> store::without(a, id) == (if a[0].id == id {
            Seq::<docs::NoteView>::empty()
        } else {
            a
        }),
    decreases b.len(),
{
    if a.len() == 1 {
        if a[0].id == id {
            all_to_take(a, id);
        } else {
            nothing_to_take(a, id);
        }
    }
    if b.len() == 0 {
        assert(a + b =~= a);
        assert(store::picked(a, id) + store::picked(b, id) =~= store::picked(a, id));
        assert(store::without(a, id) + store::without(b, id) =~= store::without(a, id));
    } else {
        assert((a + b).drop_last() =~= a + b.drop_last());
        assert((a + b).last() == b.last());
        taken_in_parts(a, b.drop_last(), id);
        assert(store::picked(a + b, id) =~= store::picked(a, id) + store::picked(b, id));
        assert(store::without(a + b, id) =~= store::without(a, id) + store::without(b, id));
    }
}

/// A reorder that has settled stays: the same order again moves nothing.
pub proof fn reorder_settles(notes: Seq<docs::NoteView>, order: Seq<Seq<char>>)
    ensures
        store::arranged(store::arranged(notes, order), order) == store::arranged(notes, order),
    decreases order.len(),
{
    if order.len() > 0 {
        let id = order[0];
        let got = store::picked(notes, id);
        let left = store::without(notes, id);
        let tail = store::arranged(left, order.skip(1));
        reorder_settles(left, order.skip(1));
        picked_are_those(notes, id);
        without_keeps_the_others(notes, id);
        reorder_keeps_every_note(left, order.skip(1));
        assert forall|i: int| 0 <= i < got.len() implies (#[trigger] got[i]).id == id by {
            assert(got.contains(got[i]));
        }
        assert forall|i: int| 0 <= i < tail.len() implies (#[trigger] tail[i]).id != id by {
            assert(tail.contains(tail[i]));
        }
        all_to_take(got, id);
        nothing_to_take(tail, id);
        taken_in_parts(got, tail, id);
        assert(store::picked(got + tail, id) =~= got);
        assert(store::without(got + tail, id) =~= tail);
    }
}

/// An empty order is ignored.
pub proof fn empty_order_moves_nothing(notes: Seq<docs::NoteView>)
    ensures
        store::arranged(notes, seq![]) == notes,
{
}

/// The notes that an order does not mention stand behind the others, in the order
/// that they had.
pub proof fn reorder_keeps_the_unmentioned_behind(
    notes: Seq<docs::NoteView>,
    order: Seq<Seq<char>>,
)
    ensures
        ({
            let tail = unmentioned(notes, order);
            let all = store::arranged(notes, order);
            &&& tail.len() <= all.len()
            &&& all.skip(all.len() - tail.len()) == tail
            &&& forall|i: int|
                0 <= i < all.len() - tail.len() ==> order.contains((#[trigger] all[i]).id)
        }),
    decreases order.len(),
{
    let all = store::arranged(notes, order);
    if order.len() == 0 {
        none_mentioned(notes, order);
        assert(all.skip(0) =~= all);
    } else {
        let id = order[0];
        let rest = order.skip(1);
        let got = store::picked(notes, id);
        let left = store::without(notes, id);
        let behind = store::arranged(left, rest);
        let tail = unmentioned(left, rest);
        reorder_keeps_the_unmentioned_behind(left, rest);
        mentioned_first(notes, order);
        picked_are_those(notes, id);
        assert(all == got + behind);
        assert(all.skip(all.len() - tail.len()) =~= behind.skip(behind.len() - tail.len()));
        assert forall|i: int| 0 <= i < all.len() - tail.len() implies order.contains(
            (#[trigger] all[i]).id,
        ) by {
            if i < got.len() {
                assert(got.contains(got[i]));
                assert(order[0] == all[i].id);
            } else {
                let j = i - got.len();
                assert(rest.contains(behind[j].id));
                let k = choose|k: int| 0 <= k < rest.len() && rest[k] == behind[j].id;
                assert(order[k + 1] == all[i].id);
            }
        }
    }
}

proof fn none_mentioned(notes: Seq<docs::NoteView>, order: Seq<Seq<char>>)
    requires
        order.len() == 0,
    ensures
        unmentioned(notes, order) == notes,
    decreases notes.len(),
{
    if notes.len() > 0 {
        none_mentioned(notes.drop_last(), order);
        assert(notes.drop_last().push(notes.last()) =~= notes);
    } else {
        assert(notes =~= seq![]);
    }
}

proof fn mentioned_first(notes: Seq<docs::NoteView>, order: Seq<Seq<char>>)
    requires
        order.len() > 0,
    ensures
        unmentioned(store::without(notes, order[0]), order.skip(1)) == unmentioned(notes, order),
    decreases notes.len(),
{
    if notes.len() > 0 {
        let last = notes.last().id;
        let left = store::without(notes.drop_last(), order[0]);
        mentioned_first(notes.drop_last(), order);
        assert(left.push(notes.last()).drop_last() =~= left);
        if last == order[0] {
            assert(order.contains(last));
        } else {
            if order.contains(last) {
                let k = choose|k: int| 0 <= k < order.len() && order[k] == last;
                assert(order.skip(1)[k - 1] == last);
            }
            if order.skip(1).contains(last) {
                let k = choose|k: int| 0 <= k < order.skip(1).len() && order.skip(1)[k] == last;
                assert(order[k + 1] == last);
            }
        }
    }
}

/// Taking out a note that is there removes it from its place and nothing else.
pub proof fn without_removes_the_one(notes: Seq<docs::NoteView>, k: int)
    requires
        distinct(notes),
        0 <= k < notes.len(),
    ensures
        store::without(notes, notes[k].id) == notes.remove(k),
{
    let id = notes[k].id;
    let a = notes.take(k);
    let b = notes.skip(k + 1);
    let one = seq![notes[k]];
    assert forall|i: int| 0 <= i < a.len() implies (#[trigger] a[i]).id != id by {
        assert(a[i] == notes[i]);
    }
    assert forall|i: int| 0 <= i < b.len() implies (#[trigger] b[i]).id != id by {
        assert(b[i] == notes[i + k + 1]);
    }
    nothing_to_take(a, id);
    nothing_to_take(b, id);
    all_to_take(one, id);
    taken_in_parts(a, one, id);
    taken_in_parts(a + one, b, id);
    assert(notes =~= a + one + b);
    assert(a + Seq::<docs::NoteView>::empty() + b =~= notes.remove(k));
}

/// Taking out an id that no note has leaves the notes.
pub proof fn without_nobody_removes_nothing(notes: Seq<docs::NoteView>, id: Seq<char>)
    requires
        store::seek(notes, id) is None,
    ensures
        store::without(notes, id) == notes,
{
    store::seek_finds(notes, id);
    nothing_to_take(notes, id);
}

/// A reorder follows the order: of two notes that it mentions, the one that it
/// mentions first stands first.
pub proof fn reorder_follows_the_order(
    notes: Seq<docs::NoteView>,
    order: Seq<Seq<char>>,
    i: int,
    j: int,
)
    requires
        distinct(notes),
        0 <= i < j < order.len(),
        forall|a: int, b: int| 0 <= a < b < order.len() ==> #[trigger] order[a] != #[trigger] order[b],
        store::seek(notes, order[i]) is Some,
        store::seek(notes, order[j]) is Some,
    ensures
        match (
            store::seek(store::arranged(notes, order), order[i]),
            store::seek(store::arranged(notes, order), order[j]),
        ) {
            (Some(a), Some(b)) => a < b,
            _ => false,
        },
    decreases order.len(),
{
    let id = order[0];
    let rest = order.skip(1);
    let got = store::picked(notes, id);
    let left = store::without(notes, id);
    let behind = store::arranged(left, rest);
    let all = store::arranged(notes, order);
    reorder_keeps_every_note(notes, order);
    reorder_keeps_every_note(left, rest);
    picked_are_those(notes, id);
    without_keeps_the_others(notes, id);
    store::seek_finds(notes, order[i]);
    store::seek_finds(notes, order[j]);
    let m = store::seek(notes, order[i])->0;
    let n = store::seek(notes, order[j])->0;
    assert(notes.contains(notes[m]) && notes.contains(notes[n]));
    assert(order[0] != order[j]);
    assert(left.contains(notes[n]));
    if i == 0 {
        assert(got.contains(notes[m]));
        let k = choose|k: int| 0 <= k < got.len() && got[k] == notes[m];
        assert(all[0].id == order[i]);
        own_position(all, 0);
        assert(behind.contains(notes[n]));
        let h = choose|h: int| 0 <= h < behind.len() && behind[h] == notes[n];
        assert(all[got.len() + h] == notes[n]);
        own_position(all, got.len() + h);
    } else {
        assert(order[0] != order[i]);
        assert(left.contains(notes[m]));
        let a = choose|a: int| 0 <= a < left.len() && left[a] == notes[m];
        let b = choose|b: int| 0 <= b < left.len() && left[b] == notes[n];
        own_position(left, a);
        own_position(left, b);
        assert forall|x: int, y: int| 0 <= x < y < rest.len() implies #[trigger] rest[x]
            != #[trigger] rest[y] by {
            assert(rest[x] == order[x + 1] && rest[y] == order[y + 1]);
        }
        assert(rest[i - 1] == order[i] && rest[j - 1] == order[j]);
        reorder_follows_the_order(left, rest, i - 1, j - 1);
        let x = store::seek(behind, order[i])->0;
        let y = store::seek(behind, order[j])->0;
        store::seek_finds(behind, order[i]);
        store::seek_finds(behind, order[j]);
        assert(all[got.len() + x] == behind[x] && all[got.len() + y] == behind[y]);
        own_position(all, got.len() + x);
        own_position(all, got.len() + y);
    }
}

/// The ids and the paths of notes are theirs, one for one and in their order.
pub proof fn ids_and_paths_are_those_of_the_notes(notes: Seq<docs::NoteView>)
    ensures
        store::note_ids(notes).len() == notes.len(),
        store::note_paths(notes).len() == notes.len(),
        forall|i: int|
            0 <= i < notes.len() ==> #[trigger] store::note_ids(notes)[i] == notes[i].id,
        forall|i: int|
            0 <= i < notes.len() ==> #[trigger] store::note_paths(notes)[i] == notes[i].path,
{
}

/// An order is followed id by id: the notes of its first id come first, and the others
/// behind them as the rest of the order has them.
pub proof fn order_is_followed_one_by_one(
    notes: Seq<docs::NoteView>,
    id: Seq<char>,
    rest: Seq<Seq<char>>,
)
    ensures
        store::arranged(notes, seq![id] + rest) == store::picked(notes, id) + store::arranged(
            store::without(notes, id),
            rest,
        ),
{
    assert((seq![id] + rest).skip(1) =~= rest);
}

} // verus!
