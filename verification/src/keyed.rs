//! Lists of entities that are found by their session identity.

use vstd::prelude::*;

use crate::session_id::SessionId;

verus! {

/// An entity that carries a session identity: a chat, a download, a session.
pub trait Keyed: View + Sized {
    /// The identity of the entity with the given model.
    spec fn key_of(model: Self::V) -> SessionId;

    /// The identity of the entity.
    fn key(&self) -> (id: SessionId)
        ensures
            id == Self::key_of(self@),
    ;
}

/// The models of the entities, in order.
pub open spec fn models<T: View>(items: Seq<T>) -> Seq<T::V> {
    items.map_values(|item: T| item@)
}

/// The place of the first entity with the identity `id`, or the length of the
/// list where none has it.
pub open spec fn position<T: Keyed>(list: Seq<T::V>, id: SessionId) -> nat
    decreases list.len(),
{
    if list.len() == 0 || T::key_of(list[0]) == id {
        0
    } else {
        1 + position::<T>(list.drop_first(), id)
    }
}

/// Whether some entity of the list has the identity `id`.
pub open spec fn holds<T: Keyed>(list: Seq<T::V>, id: SessionId) -> bool {
    position::<T>(list, id) < list.len()
}

/// The list without the entities that have the identity `id`; the others keep
/// their order.
pub open spec fn without<T: Keyed>(list: Seq<T::V>, id: SessionId) -> Seq<T::V>
    decreases list.len(),
{
    if list.len() == 0 {
        Seq::empty()
    } else if T::key_of(list.last()) == id {
        without::<T>(list.drop_last(), id)
    } else {
        without::<T>(list.drop_last(), id).push(list.last())
    }
}

/// Whether no two entities of the list share an identity.
pub open spec fn distinct<T: Keyed>(list: Seq<T::V>) -> bool {
    forall|i: int, j: int|
        0 <= i < j < list.len() ==> T::key_of(#[trigger] list[i]) != T::key_of(#[trigger] list[j])
}

/// `position` is the place `at` where no entity before `at` has the identity
/// and the one at `at` has it, or the list ends there.
pub proof fn lemma_position<T: Keyed>(list: Seq<T::V>, id: SessionId, at: int)
    requires
        0 <= at <= list.len(),
        forall|j: int| 0 <= j < at ==> T::key_of(#[trigger] list[j]) != id,
        at == list.len() || T::key_of(list[at]) == id,
    ensures
        position::<T>(list, id) == at,
    decreases at,
{
    if at > 0 {
        assert(T::key_of(list[0]) != id);
        let rest = list.drop_first();
        assert forall|j: int| 0 <= j < at - 1 implies T::key_of(#[trigger] rest[j]) != id by {
            assert(rest[j] == list[j + 1]);
        }
        lemma_position::<T>(rest, id, at - 1);
    }
}

/// `position` stays within the list; no entity before it has the identity, and
/// the entity at it has.
pub proof fn lemma_position_bounds<T: Keyed>(list: Seq<T::V>, id: SessionId)
    ensures
        position::<T>(list, id) <= list.len(),
        forall|j: int|
            0 <= j < position::<T>(list, id) ==> T::key_of(#[trigger] list[j]) != id,
        position::<T>(list, id) < list.len() ==> T::key_of(list[position::<T>(list, id) as int])
            == id,
    decreases list.len(),
{
    if list.len() == 0 || T::key_of(list[0]) == id {
    } else {
        let rest = list.drop_first();
        lemma_position_bounds::<T>(rest, id);
        assert forall|j: int| 0 <= j < position::<T>(list, id) implies T::key_of(
            #[trigger] list[j],
        ) != id by {
            if j > 0 {
                assert(list[j] == rest[j - 1]);
            }
        }
    }
}

/// What is left without `id` holds no entity with that identity, and every
/// entity left was in the list.
pub proof fn lemma_without<T: Keyed>(list: Seq<T::V>, id: SessionId)
    ensures
        without::<T>(list, id).len() <= list.len(),
        forall|j: int|
            0 <= j < without::<T>(list, id).len() ==> T::key_of(
                #[trigger] without::<T>(list, id)[j],
            ) != id && list.contains(without::<T>(list, id)[j]),
        !holds::<T>(without::<T>(list, id), id),
    decreases list.len(),
{
    let left = without::<T>(list, id);
    if list.len() > 0 {
        let front = list.drop_last();
        lemma_without::<T>(front, id);
        assert forall|j: int| 0 <= j < left.len() implies T::key_of(#[trigger] left[j]) != id
            && list.contains(left[j]) by {
            if j < without::<T>(front, id).len() {
                let item = without::<T>(front, id)[j];
                assert(front.contains(item));
                let k: int = choose|k: int| 0 <= k < front.len() && front[k] == item;
                assert(list[k] == item);
            } else {
                assert(left[j] == list.last());
                assert(list[list.len() - 1] == list.last());
            }
        }
    }
    lemma_position::<T>(left, id, left.len() as int);
}

/// Removing an identity from a list without repeated identities leaves a list
/// without repeated identities.
pub proof fn lemma_without_distinct<T: Keyed>(list: Seq<T::V>, id: SessionId)
    requires
        distinct::<T>(list),
    ensures
        distinct::<T>(without::<T>(list, id)),
    decreases list.len(),
{
    let left = without::<T>(list, id);
    if list.len() > 0 {
        let front = list.drop_last();
        assert(distinct::<T>(front)) by {
            assert forall|i: int, j: int| 0 <= i < j < front.len() implies T::key_of(
                #[trigger] front[i],
            ) != T::key_of(#[trigger] front[j]) by {
                assert(front[i] == list[i] && front[j] == list[j]);
            }
        }
        lemma_without_distinct::<T>(front, id);
        lemma_without::<T>(front, id);
        if T::key_of(list.last()) != id {
            let kept = without::<T>(front, id);
            assert forall|i: int, j: int| 0 <= i < j < left.len() implies T::key_of(
                #[trigger] left[i],
            ) != T::key_of(#[trigger] left[j]) by {
                if j < kept.len() {
                    assert(left[i] == kept[i] && left[j] == kept[j]);
                } else {
                    assert(left[i] == kept[i]);
                    assert(front.contains(kept[i]));
                    let k: int = choose|k: int| 0 <= k < front.len() && front[k] == kept[i];
                    assert(list[k] == kept[i]);
                    assert(list[list.len() - 1] == list.last());
                }
            }
        }
    }
}

/// Replacing an entity by one with the same identity moves no entity: every
/// identity is found where it was found before.
pub proof fn lemma_update_keeps_positions<T: Keyed>(
    list: Seq<T::V>,
    at: int,
    next: T::V,
    id: SessionId,
)
    requires
        0 <= at < list.len(),
        T::key_of(next) == T::key_of(list[at]),
    ensures
        position::<T>(list.update(at, next), id) == position::<T>(list, id),
{
    let changed = list.update(at, next);
    let found: int = position::<T>(list, id) as int;
    lemma_position_bounds::<T>(list, id);
    assert forall|j: int| 0 <= j < found implies T::key_of(#[trigger] changed[j]) != id by {
        assert(T::key_of(list[j]) != id);
    }
    lemma_position::<T>(changed, id, found);
}

/// Finds the first entity with the identity `id`.
pub fn find<T: Keyed>(items: &Vec<T>, id: SessionId) -> (found: Option<usize>)
    ensures
        match found {
            Some(at) => at < items.len() && at == position::<T>(models(items@), id),
            None => !holds::<T>(models(items@), id),
        },
{
    let mut at: usize = 0;
    while at < items.len()
        invariant
            at <= items.len(),
            forall|j: int| 0 <= j < at ==> T::key_of(#[trigger] models(items@)[j]) != id,
        decreases items.len() - at,
    {
        if items[at].key() == id {
            proof {
                lemma_position::<T>(models(items@), id, at as int);
            }
            return Some(at);
        }
        at += 1;
    }
    proof {
        lemma_position::<T>(models(items@), id, at as int);
    }
    None
}

/// Removes every entity with the identity `id` and says whether there was one.
pub fn remove_all<T: Keyed>(items: &mut Vec<T>, id: SessionId) -> (removed: bool)
    ensures
        models(final(items)@) == without::<T>(models(old(items)@), id),
        removed == holds::<T>(models(old(items)@), id),
{
    let ghost all = models(items@);
    let mut removed = false;
    let mut at: usize = 0;
    let mut seen: Ghost<int> = Ghost(0);
    proof {
        assert(all.take(0) == Seq::<T::V>::empty());
        assert(all.skip(0) == all);
        assert(Seq::<T::V>::empty() + all == all);
    }
    while at < items.len()
        invariant
            0 <= seen@ <= all.len(),
            at <= items.len(),
            at == without::<T>(all.take(seen@), id).len(),
            models(items@) == without::<T>(all.take(seen@), id) + all.skip(seen@),
            removed == exists|j: int| 0 <= j < seen@ && T::key_of(#[trigger] all[j]) == id,
        decreases items.len() - at,
    {
        let ghost kept = without::<T>(all.take(seen@), id);
        let ghost now = models(items@);
        proof {
            assert(now[at as int] == all.skip(seen@)[0]);
            assert(all.take(seen@ + 1).drop_last() == all.take(seen@));
            assert(all.take(seen@ + 1).last() == all[seen@]);
        }
        if items[at].key() == id {
            items.remove(at);
            removed = true;
            proof {
                assert(models(items@) == now.remove(at as int));
                assert(now.remove(at as int) == kept + all.skip(seen@ + 1));
                seen@ = seen@ + 1;
            }
        } else {
            proof {
                assert(kept.push(all[seen@]) + all.skip(seen@ + 1) == now);
                seen@ = seen@ + 1;
            }
            at += 1;
        }
    }
    proof {
        assert(all.skip(seen@).len() == 0);
        assert(seen@ == all.len());
        assert(all.take(seen@) == all);
        assert(models(items@) == without::<T>(all, id));
        lemma_position_bounds::<T>(all, id);
        if removed {
            let j: int = choose|j: int| 0 <= j < all.len() && T::key_of(#[trigger] all[j]) == id;
            if position::<T>(all, id) >= all.len() {
                assert(T::key_of(all[j]) != id);
            }
        }
    }
    removed
}

} // verus!
