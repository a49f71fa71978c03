//! Ordered event-listener lists keyed by listener id.
//!
//! Listeners are dispatched in registration order. Registering an id that is
//! already present is a no-op, and removing an id drops its listener.

use vstd::prelude::*;

verus! {

/// Identifies a listener (the address of the registered callback).
pub type ListenerId = usize;

/// A registered callback with its id.
pub struct EventListener<T> {
    pub id: ListenerId,
    pub callback: T,
}

impl<T> EventListener<T> {
    pub fn new(id: ListenerId, callback: T) -> (listener: Self)
        ensures
            listener.id == id,
            listener.callback == callback,
    {
        EventListener { id, callback }
    }
}

/// Whether some listener has `id`.
pub open spec fn spec_has_listener<T>(listeners: Seq<EventListener<T>>, id: ListenerId) -> bool {
    exists|i: int| 0 <= i < listeners.len() && listeners[i].id == id
}

/// No two listeners share an id.
pub open spec fn spec_unique_ids<T>(listeners: Seq<EventListener<T>>) -> bool {
    forall|i: int, j: int|
        0 <= i < listeners.len() && 0 <= j < listeners.len() && i != j ==> listeners[i].id
            != listeners[j].id
}

/// The list after registering `listener`.
pub open spec fn spec_add_listener<T>(listeners: Seq<EventListener<T>>, listener: EventListener<T>)
    -> Seq<EventListener<T>> {
    if spec_has_listener(listeners, listener.id) {
        listeners
    } else {
        listeners.push(listener)
    }
}

/// The listeners whose id is not `id`, in their order.
pub open spec fn spec_remove_listener<T>(listeners: Seq<EventListener<T>>, id: ListenerId) -> Seq<
    EventListener<T>,
>
    decreases listeners.len(),
{
    if listeners.len() == 0 {
        Seq::empty()
    } else if listeners.last().id == id {
        spec_remove_listener(listeners.drop_last(), id)
    } else {
        spec_remove_listener(listeners.drop_last(), id).push(listeners.last())
    }
}

/// Registers `callback` under `id` unless a listener with that id exists.
pub fn add_listener<T>(listeners: &mut Vec<EventListener<T>>, id: ListenerId, callback: T)
    ensures
        final(listeners)@ == spec_add_listener(old(listeners)@, EventListener { id, callback }),
{
    let mut i: usize = 0;
    while i < listeners.len()
        invariant
            i <= listeners.len(),
            forall|j: int| 0 <= j < i ==> listeners@[j].id != id,
        decreases listeners.len() - i,
    {
        if listeners[i].id == id {
            return;
        }
        i = i + 1;
    }
    listeners.push(EventListener::new(id, callback));
}

/// Drops every listener registered under `id`, keeping the others in order.
pub fn remove_listener<T>(listeners: &mut Vec<EventListener<T>>, id: ListenerId)
    ensures
        final(listeners)@ == spec_remove_listener(old(listeners)@, id),
{
    let ghost initial = listeners@;
    let mut i: usize = 0;
    let ghost mut k: int = 0;
    while i < listeners.len()
        invariant
            0 <= k <= initial.len(),
            i == spec_remove_listener(initial.take(k), id).len(),
            listeners@ == spec_remove_listener(initial.take(k), id) + initial.skip(k),
        decreases initial.len() - k,
    {
        proof {
            assert(initial.take(k + 1).drop_last() =~= initial.take(k));
            assert(listeners@[i as int] == initial[k]);
        }
        if listeners[i].id == id {
            let _removed = listeners.remove(i);
            proof {
                assert(listeners@ =~= spec_remove_listener(initial.take(k + 1), id) + initial.skip(
                    k + 1,
                ));
            }
        } else {
            i = i + 1;
            proof {
                assert(listeners@ =~= spec_remove_listener(initial.take(k + 1), id) + initial.skip(
                    k + 1,
                ));
            }
        }
        proof {
            k = k + 1;
        }
    }
    proof {
        assert(initial.take(k) =~= initial);
        assert(initial.skip(k) =~= Seq::<EventListener<T>>::empty());
        assert(listeners@ =~= spec_remove_listener(initial, id));
    }
}

proof fn lemma_remove_listener_members<T>(listeners: Seq<EventListener<T>>, id: ListenerId)
    ensures
        forall|i: int|
            0 <= i < spec_remove_listener(listeners, id).len() ==> spec_remove_listener(
                listeners,
                id,
            )[i].id != id,
        forall|x: EventListener<T>|
            spec_remove_listener(listeners, id).contains(x) <==> (listeners.contains(x) && x.id
                != id),
    decreases listeners.len(),
{
    if listeners.len() > 0 {
        lemma_remove_listener_members(listeners.drop_last(), id);
        let rest = spec_remove_listener(listeners.drop_last(), id);
        assert forall|x: EventListener<T>|
            listeners.contains(x) <==> (listeners.drop_last().contains(x) || x
                == listeners.last()) by {
            if listeners.contains(x) {
                let i = choose|i: int| 0 <= i < listeners.len() && listeners[i] == x;
                if i < listeners.len() - 1 {
                    assert(listeners.drop_last()[i] == x);
                }
            }
            if listeners.drop_last().contains(x) {
                let i = choose|i: int| 0 <= i < listeners.drop_last().len() && listeners.drop_last()[i] == x;
                assert(listeners[i] == x);
            }
        }
        if listeners.last().id != id {
            assert forall|x: EventListener<T>|
                rest.push(listeners.last()).contains(x) <==> (rest.contains(x) || x
                    == listeners.last()) by {
                if rest.push(listeners.last()).contains(x) {
                    let i = choose|i: int| 0 <= i < rest.len() + 1 && rest.push(listeners.last())[i] == x;
                    if i < rest.len() {
                        assert(rest[i] == x);
                    }
                }
                if rest.contains(x) {
                    let i = choose|i: int| 0 <= i < rest.len() && rest[i] == x;
                    assert(rest.push(listeners.last())[i] == x);
                }
                if x == listeners.last() {
                    assert(rest.push(listeners.last())[rest.len() as int] == x);
                }
            }
        }
    }
}

/// Registering the same id twice leaves the list as one registration does.
pub proof fn lemma_add_listener_idempotent<T>(
    listeners: Seq<EventListener<T>>,
    first: EventListener<T>,
    second: EventListener<T>,
)
    requires
        first.id == second.id,
    ensures
        spec_add_listener(spec_add_listener(listeners, first), second) == spec_add_listener(
            listeners,
            first,
        ),
{
    let added = spec_add_listener(listeners, first);
    if !spec_has_listener(listeners, first.id) {
        assert(added[listeners.len() as int].id == second.id);
    }
}

/// Registration keeps listener ids unique.
pub proof fn lemma_add_listener_keeps_ids_unique<T>(
    listeners: Seq<EventListener<T>>,
    listener: EventListener<T>,
)
    requires
        spec_unique_ids(listeners),
    ensures
        spec_unique_ids(spec_add_listener(listeners, listener)),
{
}

/// After removal no listener has the removed id, and every other listener
/// is still registered.
pub proof fn lemma_remove_listener_drops_only_id<T>(
    listeners: Seq<EventListener<T>>,
    id: ListenerId,
)
    ensures
        !spec_has_listener(spec_remove_listener(listeners, id), id),
        forall|x: EventListener<T>|
            listeners.contains(x) && x.id != id ==> spec_remove_listener(listeners, id).contains(x),
        forall|x: EventListener<T>|
            spec_remove_listener(listeners, id).contains(x) ==> listeners.contains(x),
{
    lemma_remove_listener_members(listeners, id);
}

proof fn lemma_remove_absent_listener<T>(listeners: Seq<EventListener<T>>, id: ListenerId)
    requires
        !spec_has_listener(listeners, id),
    ensures
        spec_remove_listener(listeners, id) == listeners,
    decreases listeners.len(),
{
    if listeners.len() > 0 {
        assert(listeners.last().id != id);
        assert(!spec_has_listener(listeners.drop_last(), id)) by {
            if spec_has_listener(listeners.drop_last(), id) {
                let i = choose|i: int| 0 <= i < listeners.drop_last().len() && listeners.drop_last()[i].id == id;
                assert(listeners[i].id == id);
            }
        }
        lemma_remove_absent_listener(listeners.drop_last(), id);
        assert(listeners.drop_last().push(listeners.last()) =~= listeners);
    }
}

/// Registering a new id and then removing it restores the list.
pub proof fn lemma_add_then_remove_listener<T>(
    listeners: Seq<EventListener<T>>,
    listener: EventListener<T>,
)
    requires
        !spec_has_listener(listeners, listener.id),
    ensures
        spec_remove_listener(spec_add_listener(listeners, listener), listener.id) == listeners,
{
    let added = listeners.push(listener);
    assert(added.drop_last() =~= listeners);
    lemma_remove_absent_listener(listeners, listener.id);
}

} // verus!
