//! The terminals that sessions hold on editors' machines.

use vstd::prelude::*;

use crate::count::{count_of, lemma_count_before};
use crate::table::Table;
use crate::text;

verus! {

/// One of the terminals that a session may hold at a time.
#[derive(Debug, PartialEq, Eq)]
pub enum Slot {
    /// Taken for a terminal that is about to be started.
    Reserved,
    /// Held by a terminal, by its handle.
    Held(String),
}

/// The mathematical value of a [`Slot`].
pub enum SlotView {
    Reserved,
    Held(Seq<char>),
}

impl DeepView for Slot {
    type V = SlotView;

    open spec fn deep_view(&self) -> SlotView {
        match self {
            Slot::Reserved => SlotView::Reserved,
            Slot::Held(handle) => SlotView::Held(handle@),
        }
    }
}

/// What takes up every slot of a session.
#[derive(Debug, PartialEq, Eq)]
pub struct CapHeld {
    /// The handles that are held, in order.
    pub handles: Vec<String>,
    /// How many slots are taken for terminals about to be started.
    pub reservations: usize,
}

/// The terminals that each session holds, at most `cap` each.
///
/// A session outlives its connections, so nothing here goes away with one.
pub struct TerminalRegistry {
    table: Table<Vec<Slot>>,
    cap: usize,
}

/// The handles among slots, in order.
pub open spec fn handles_of(slots: Seq<SlotView>) -> Seq<Seq<char>>
    decreases slots.len(),
{
    if slots.len() == 0 {
        Seq::empty()
    } else {
        let before = handles_of(slots.drop_last());
        match slots.last() {
            SlotView::Reserved => before,
            SlotView::Held(handle) => before.push(handle),
        }
    }
}

/// How many slots are only taken.
pub open spec fn reservations_of(slots: Seq<SlotView>) -> nat
    decreases slots.len(),
{
    if slots.len() == 0 {
        0
    } else {
        let before = reservations_of(slots.drop_last());
        match slots.last() {
            SlotView::Reserved => before + 1,
            SlotView::Held(_) => before,
        }
    }
}

/// Whether `i` is the first place of `slot`.
pub open spec fn is_first(slots: Seq<SlotView>, slot: SlotView, i: int) -> bool {
    &&& 0 <= i < slots.len()
    &&& slots[i] == slot
    &&& forall|k: int| 0 <= k < i ==> #[trigger] slots[k] != slot
}

/// The slots without the first that is `slot`.
pub open spec fn without_first(slots: Seq<SlotView>, slot: SlotView) -> Seq<SlotView> {
    if exists|i: int| is_first(slots, slot, i) {
        slots.remove(choose|i: int| is_first(slots, slot, i))
    } else {
        slots
    }
}

/// The slots with the first that is `slot` made another.
pub open spec fn with_first(slots: Seq<SlotView>, slot: SlotView, other: SlotView) -> Seq<
    SlotView,
> {
    if exists|i: int| is_first(slots, slot, i) {
        slots.update(choose|i: int| is_first(slots, slot, i), other)
    } else {
        slots
    }
}

/// The sessions after one's slots became `slots`; one without slots is dropped.
pub open spec fn with_slots(
    sessions: Map<Seq<char>, Seq<SlotView>>,
    session: Seq<char>,
    slots: Seq<SlotView>,
) -> Map<Seq<char>, Seq<SlotView>> {
    if slots.len() == 0 {
        sessions.remove(session)
    } else {
        sessions.insert(session, slots)
    }
}

impl View for TerminalRegistry {
    type V = Map<Seq<char>, Seq<SlotView>>;

    closed spec fn view(&self) -> Map<Seq<char>, Seq<SlotView>> {
        self.table.deep_view()
    }
}

impl TerminalRegistry {
    /// How many terminals a session may hold.
    pub closed spec fn cap(self) -> usize {
        self.cap
    }

    /// The slots of a session.
    pub open spec fn slots(self, session: Seq<char>) -> Seq<SlotView> {
        if self@.contains_key(session) {
            self@[session]
        } else {
            Seq::empty()
        }
    }

    /// What holds of every registry: no session holds more than it may, and none
    /// is listed that holds nothing.
    pub closed spec fn wf(self) -> bool {
        &&& self.table.wf()
        &&& forall|s: Seq<char>| #[trigger]
            self.table@.contains_key(s) ==> 0 < self.table@[s].len() <= self.cap
    }

    /// No session ever holds more terminals than it may.
    pub proof fn never_over_the_cap(self, session: Seq<char>)
        requires
            self.wf(),
        ensures
            self.slots(session).len() <= self.cap(),
            self@.contains_key(session) ==> self.slots(session).len() > 0,
    {
        if self@.contains_key(session) {
            assert(self.table@.contains_key(session));
        }
    }

    /// A registry in which no session holds anything.
    pub fn new(cap: usize) -> (r: TerminalRegistry)
        ensures
            r.wf(),
            r@ == Map::<Seq<char>, Seq<SlotView>>::empty(),
            r.cap() == cap,
    {
        let r = TerminalRegistry { table: Table::new(), cap };
        assert(r@ =~= Map::<Seq<char>, Seq<SlotView>>::empty());
        r
    }

    fn take(&mut self, session: &str) -> (slots: Vec<Slot>)
        requires
            old(self).wf(),
        ensures
            final(self).wf(),
            final(self).cap() == old(self).cap(),
            final(self)@ == old(self)@.remove(session@),
            slots.deep_view() == old(self).slots(session@),
    {
        let ghost before = self.table.deep_view();
        let taken = self.table.remove(session);
        assert(self.table.deep_view() =~= before.remove(session@));
        match taken {
            Some(slots) => slots,
            None => {
                let none: Vec<Slot> = Vec::new();
                assert(none.deep_view() =~= Seq::empty());
                none
            },
        }
    }

    fn put(&mut self, session: &str, slots: Vec<Slot>)
        requires
            old(self).wf(),
            slots.len() <= old(self).cap(),
            !old(self)@.contains_key(session@),
        ensures
            final(self).wf(),
            final(self).cap() == old(self).cap(),
            final(self)@ == with_slots(old(self)@, session@, slots.deep_view()),
    {
        let ghost before = self.table.deep_view();
        if slots.len() > 0 {
            self.table.insert(session.to_owned(), slots);
            assert(self.table.deep_view() =~= before.insert(session@, slots.deep_view()));
        } else {
            assert(before.remove(session@) =~= before);
        }
    }

    /// Takes a slot for a terminal that is about to be started. Where the session
    /// has none left, nothing changes and what takes them up is told.
    pub fn try_reserve_terminal_slot(&mut self, session: &str) -> (r: Result<(), CapHeld>)
        requires
            old(self).wf(),
        ensures
            final(self).wf(),
            final(self).cap() == old(self).cap(),
            match r {
                Ok(()) => {
                    &&& old(self).slots(session@).len() < old(self).cap()
                    &&& final(self)@ == old(self)@.insert(
                        session@,
                        old(self).slots(session@).push(SlotView::Reserved),
                    )
                },
                Err(held) => {
                    &&& old(self).slots(session@).len() >= old(self).cap()
                    &&& final(self)@ == old(self)@
                    &&& held.handles.deep_view() == handles_of(old(self).slots(session@))
                    &&& held.reservations == reservations_of(old(self).slots(session@))
                },
            },
    {
        let ghost all = self@;
        let ghost mine = self.slots(session@);
        let mut slots = self.take(session);
        if slots.len() >= self.cap {
            let mut handles: Vec<String> = Vec::new();
            let mut reservations: usize = 0;
            let mut i: usize = 0;
            let ghost view = slots.deep_view();
            assert(handles.deep_view() =~= handles_of(view.take(0)));
            while i < slots.len()
                invariant
                    i <= slots.len(),
                    view == slots.deep_view(),
                    handles.deep_view() == handles_of(view.take(i as int)),
                    reservations == reservations_of(view.take(i as int)),
                    reservations <= i,
                decreases slots.len() - i,
            {
                assert(view.take(i + 1).drop_last() =~= view.take(i as int));
                assert(view.take(i + 1).last() == slots@[i as int].deep_view());
                match &slots[i] {
                    Slot::Reserved => {
                        reservations += 1;
                    },
                    Slot::Held(handle) => {
                        let ghost before = handles.deep_view();
                        handles.push(handle.clone());
                        assert(handles.deep_view() =~= before.push(handle@));
                    },
                }
                i += 1;
            }
            assert(view.take(i as int) =~= view);
            proof {
                old(self).never_over_the_cap(session@);
            }
            self.put(session, slots);
            assert(self@ =~= all);
            Err(CapHeld { handles, reservations })
        } else {
            slots.push(Slot::Reserved);
            assert(slots.deep_view() =~= mine.push(SlotView::Reserved));
            self.put(session, slots);
            assert(self@ =~= all.insert(session@, mine.push(SlotView::Reserved)));
            Ok(())
        }
    }

    fn drop_first(&mut self, session: &str, slot: &Slot) -> (r: bool)
        requires
            old(self).wf(),
        ensures
            final(self).wf(),
            final(self).cap() == old(self).cap(),
            r == old(self).slots(session@).contains(slot.deep_view()),
            final(self)@ == if r {
                with_slots(
                    old(self)@,
                    session@,
                    without_first(old(self).slots(session@), slot.deep_view()),
                )
            } else {
                old(self)@
            },
    {
        let ghost all = self@;
        let ghost mine = self.slots(session@);
        let ghost want = slot.deep_view();
        proof {
            self.never_over_the_cap(session@);
        }
        let mut slots = self.take(session);
        let i: usize = find(&slots, slot);
        if i < slots.len() {
            proof {
                lemma_first_is_one(mine, want, i as int);
                assert(mine[i as int] == want);
            }
            slots.remove(i);
            assert(slots.deep_view() =~= mine.remove(i as int));
            self.put(session, slots);
            assert(self@ =~= with_slots(all, session@, without_first(mine, want)));
            true
        } else {
            self.put(session, slots);
            assert(self@ =~= all);
            false
        }
    }

    /// Puts a started terminal into the slot that was taken for it. Where no slot
    /// was, the terminal is not tracked.
    pub fn track_terminal(&mut self, session: &str, handle: &str) -> (r: bool)
        requires
            old(self).wf(),
        ensures
            final(self).wf(),
            final(self).cap() == old(self).cap(),
            r == old(self).slots(session@).contains(SlotView::Reserved),
            final(self)@ == if r {
                old(self)@.insert(
                    session@,
                    with_first(
                        old(self).slots(session@),
                        SlotView::Reserved,
                        SlotView::Held(handle@),
                    ),
                )
            } else {
                old(self)@
            },
    {
        let ghost all = self@;
        let ghost mine = self.slots(session@);
        proof {
            self.never_over_the_cap(session@);
        }
        let mut slots = self.take(session);
        let i: usize = find(&slots, &Slot::Reserved);
        if i < slots.len() {
            proof {
                lemma_first_is_one(mine, SlotView::Reserved, i as int);
            }
            slots.set(i, Slot::Held(handle.to_owned()));
            assert(slots.deep_view() =~= mine.update(i as int, SlotView::Held(handle@)));
            self.put(session, slots);
            assert(self@ =~= all.insert(
                session@,
                with_first(mine, SlotView::Reserved, SlotView::Held(handle@)),
            ));
            true
        } else {
            self.put(session, slots);
            assert(self@ =~= all);
            false
        }
    }

    /// Gives back a slot that was taken for a terminal that did not start.
    pub fn cancel_reservation(&mut self, session: &str) -> (r: bool)
        requires
            old(self).wf(),
        ensures
            final(self).wf(),
            final(self).cap() == old(self).cap(),
            r == old(self).slots(session@).contains(SlotView::Reserved),
            final(self)@ == if r {
                with_slots(
                    old(self)@,
                    session@,
                    without_first(old(self).slots(session@), SlotView::Reserved),
                )
            } else {
                old(self)@
            },
    {
        self.drop_first(session, &Slot::Reserved)
    }

    /// Forgets a terminal.
    pub fn untrack_terminal(&mut self, session: &str, handle: &str) -> (r: bool)
        requires
            old(self).wf(),
        ensures
            final(self).wf(),
            final(self).cap() == old(self).cap(),
            r == old(self).slots(session@).contains(SlotView::Held(handle@)),
            final(self)@ == if r {
                with_slots(
                    old(self)@,
                    session@,
                    without_first(old(self).slots(session@), SlotView::Held(handle@)),
                )
            } else {
                old(self)@
            },
    {
        self.drop_first(session, &Slot::Held(handle.to_owned()))
    }
}

/// The first place of `slot`, or the number of slots where it has none.
fn find(slots: &Vec<Slot>, slot: &Slot) -> (r: usize)
    ensures
        r < slots.len() ==> is_first(slots.deep_view(), slot.deep_view(), r as int),
        r >= slots.len() ==> !slots.deep_view().contains(slot.deep_view()),
{
    let ghost all = slots.deep_view();
    let ghost want = slot.deep_view();
    let mut i: usize = 0;
    while i < slots.len()
        invariant
            i <= slots.len(),
            all == slots.deep_view(),
            want == slot.deep_view(),
            forall|k: int| 0 <= k < i ==> #[trigger] all[k] != want,
        decreases slots.len() - i,
    {
        assert(all[i as int] == slots@[i as int].deep_view());
        let hit = match (&slots[i], slot) {
            (Slot::Reserved, Slot::Reserved) => true,
            (Slot::Held(a), Slot::Held(b)) => text::same(a.as_str(), b.as_str()),
            _ => false,
        };
        if hit {
            return i;
        }
        i += 1;
    }
    i
}

proof fn lemma_first_is_one(slots: Seq<SlotView>, slot: SlotView, i: int)
    requires
        is_first(slots, slot, i),
    ensures
        (choose|k: int| is_first(slots, slot, k)) == i,
        slots.contains(slot),
{
    let k = choose|k: int| is_first(slots, slot, k);
    if k < i {
        assert(slots[k] != slot);
    } else if i < k {
        assert(slots[i] != slot);
    }
    assert(slots[i] == slot);
}

/// Taking a slot and giving it back leaves a session's slots as they were, as long
/// as it had taken none before.
pub proof fn reservation_is_undone(slots: Seq<SlotView>)
    requires
        !slots.contains(SlotView::Reserved),
    ensures
        without_first(slots.push(SlotView::Reserved), SlotView::Reserved) == slots,
{
    let after = slots.push(SlotView::Reserved);
    let n = slots.len() as int;
    assert forall|k: int| 0 <= k < n implies #[trigger] after[k] != SlotView::Reserved by {
        assert(slots.contains(slots[k]));
    }
    assert(is_first(after, SlotView::Reserved, n));
    lemma_first_is_one(after, SlotView::Reserved, n);
    assert(after.remove(n) =~= slots);
}

/// Forgetting a terminal that was put into a slot leaves a session's slots as they
/// were before the slot was taken, as long as it had taken no other and the handle
/// was not there before.
pub proof fn tracking_is_undone(slots: Seq<SlotView>, handle: Seq<char>)
    requires
        !slots.contains(SlotView::Reserved),
        !slots.contains(SlotView::Held(handle)),
    ensures
        ({
            let taken = slots.push(SlotView::Reserved);
            let held = with_first(taken, SlotView::Reserved, SlotView::Held(handle));
            without_first(held, SlotView::Held(handle)) == slots
        }),
{
    let slot = SlotView::Held(handle);
    let taken = slots.push(SlotView::Reserved);
    let n = slots.len() as int;
    assert forall|k: int| 0 <= k < n implies #[trigger] taken[k] != SlotView::Reserved by {
        assert(slots.contains(slots[k]));
    }
    assert(is_first(taken, SlotView::Reserved, n));
    lemma_first_is_one(taken, SlotView::Reserved, n);
    let held = with_first(taken, SlotView::Reserved, slot);
    assert(held =~= slots.push(slot));
    assert forall|k: int| 0 <= k < n implies #[trigger] held[k] != slot by {
        assert(slots.contains(slots[k]));
    }
    assert(is_first(held, slot, n));
    lemma_first_is_one(held, slot, n);
    assert(held.remove(n) =~= slots);
}

proof fn lemma_held_place(slots: Seq<SlotView>, i: int)
    ensures
        handles_of(slots).len() == count_of(slots, |s: SlotView| s is Held),
        reservations_of(slots) == count_of(slots, |s: SlotView| s is Reserved),
        0 <= i < slots.len() && slots[i] is Held ==> handles_of(slots)[count_of(
            slots.take(i),
            |s: SlotView| s is Held,
        ) as int] == slots[i]->Held_0,
    decreases slots.len(),
{
    let held = |s: SlotView| s is Held;
    if slots.len() > 0 {
        let before = slots.drop_last();
        lemma_held_place(before, i);
        if 0 <= i < slots.len() && slots[i] is Held {
            if i == slots.len() - 1 {
                assert(slots.take(i) =~= before);
            } else {
                assert(before.take(i) =~= slots.take(i));
                lemma_count_before(before, held, i);
            }
        }
    }
}

/// A session gets a slot exactly where it holds fewer than it may: one that is only
/// taken, behind those that it has. Where it gets none nothing changes, and it is told
/// every handle that takes one up, in order, and how many are only taken. Other
/// sessions are not touched.
pub proof fn slots_are_given_up_to_the_cap(
    before: TerminalRegistry,
    after: TerminalRegistry,
    session: &str,
    r: Result<(), CapHeld>,
    i: int,
    other: Seq<char>,
)
    requires
        exists|t: &mut TerminalRegistry|
            *t == before && *final(t) == after && #[trigger] call_ensures(
                TerminalRegistry::try_reserve_terminal_slot,
                (t, session),
                r,
            ),
    ensures
        ({
            let had = if before@.contains_key(session@) {
                before@[session@]
            } else {
                Seq::empty()
            };
            let n = had.len() as int;
            let held = |s: SlotView| s is Held;
            let k = count_of(had.take(i), held) as int;
            &&& r is Ok <==> n < before.cap()
            &&& after.cap() == before.cap()
            &&& r is Ok ==> {
                &&& after@.contains_key(session@)
                &&& after@[session@].len() == n + 1
                &&& after@[session@][n] is Reserved
                &&& 0 <= i < n ==> after@[session@][i] == had[i]
            }
            &&& r is Err ==> {
                &&& after@ == before@
                &&& r->Err_0.handles.len() == count_of(had, held)
                &&& r->Err_0.reservations == count_of(had, |s: SlotView| s is Reserved)
                &&& 0 <= i < n && had[i] is Held ==> k < r->Err_0.handles.len()
                    && r->Err_0.handles@[k]@ == had[i]->Held_0
            }
            &&& other != session@ ==> (after@.contains_key(other) <==> before@.contains_key(other))
            &&& other != session@ && after@.contains_key(other) ==> after@[other] == before@[other]
        }),
{
    let had = before.slots(session@);
    lemma_held_place(had, i);
    if r is Err {
        let handles = r->Err_0.handles;
        assert(handles.deep_view().len() == handles.len());
        if 0 <= i < had.len() && had[i] is Held {
            let held = |s: SlotView| s is Held;
            let k = count_of(had.take(i), held) as int;
            lemma_count_before(had, held, i);
            assert(handles.deep_view()[k] == handles@[k]@);
        }
    }
}

/// A terminal that was started takes the first slot that is only taken, if there is
/// one, and every other slot stays as it is.
pub proof fn terminals_take_the_first_free_slot(
    before: TerminalRegistry,
    after: TerminalRegistry,
    session: &str,
    handle: &str,
    r: bool,
    i: int,
    k: int,
    other: Seq<char>,
)
    requires
        exists|t: &mut TerminalRegistry|
            *t == before && *final(t) == after && #[trigger] call_ensures(
                TerminalRegistry::track_terminal,
                (t, session, handle),
                r,
            ),
        before@.contains_key(session@),
        0 <= i < before@[session@].len(),
        forall|j: int| 0 <= j < i ==> !(#[trigger] before@[session@][j] is Reserved),
    ensures
        before@[session@][i] is Reserved ==> {
            &&& r
            &&& after@.contains_key(session@)
            &&& after@[session@].len() == before@[session@].len()
            &&& after@[session@][i] is Held
            &&& after@[session@][i]->Held_0 == handle@
            &&& 0 <= k < before@[session@].len() && k != i ==> after@[session@][k]
                == before@[session@][k]
        },
        i == before@[session@].len() - 1 && !(before@[session@][i] is Reserved) ==> !r && after@
            == before@,
        other != session@ ==> (after@.contains_key(other) <==> before@.contains_key(other)),
        other != session@ && after@.contains_key(other) ==> after@[other] == before@[other],
        after.cap() == before.cap(),
{
    let slots = before@[session@];
    assert(before.slots(session@) == slots);
    if slots[i] is Reserved {
        assert(is_first(slots, SlotView::Reserved, i));
        lemma_first_is_one(slots, SlotView::Reserved, i);
        assert(r);
        assert(after@[session@] == slots.update(i, SlotView::Held(handle@)));
    }
    if i == slots.len() - 1 && !(slots[i] is Reserved) {
        assert(!slots.contains(SlotView::Reserved)) by {
            if slots.contains(SlotView::Reserved) {
                let j = choose|j: int| 0 <= j < slots.len() && slots[j] == SlotView::Reserved;
                assert(slots[j] is Reserved);
            }
        }
    }
}

/// Whether a session's slots afterwards are those before without one of them.
pub open spec fn lost(
    before: TerminalRegistry,
    after: TerminalRegistry,
    session: Seq<char>,
    i: int,
) -> bool {
    if before@[session].len() == 1 {
        !after@.contains_key(session)
    } else {
        &&& after@.contains_key(session)
        &&& after@[session].len() == before@[session].len() - 1
        &&& forall|k: int| 0 <= k < i ==> #[trigger] after@[session][k] == before@[session][k]
        &&& forall|k: int|
            i <= k < after@[session].len() ==> #[trigger] after@[session][k]
                == before@[session][k + 1]
    }
}

proof fn lemma_lost(
    before: TerminalRegistry,
    after: TerminalRegistry,
    session: Seq<char>,
    slot: SlotView,
    i: int,
)
    requires
        before@.contains_key(session),
        is_first(before@[session], slot, i),
        after@ == with_slots(before@, session, without_first(before@[session], slot)),
    ensures
        lost(before, after, session, i),
{
    let slots = before@[session];
    lemma_first_is_one(slots, slot, i);
    assert(without_first(slots, slot) == slots.remove(i));
}

/// A slot that is given back is the first that is only taken: every other stays, in
/// order. A session that is left with none is forgotten, and other sessions are not
/// touched.
pub proof fn reservations_are_given_back(
    before: TerminalRegistry,
    after: TerminalRegistry,
    session: &str,
    r: bool,
    i: int,
    other: Seq<char>,
)
    requires
        exists|t: &mut TerminalRegistry|
            *t == before && *final(t) == after && #[trigger] call_ensures(
                TerminalRegistry::cancel_reservation,
                (t, session),
                r,
            ),
        before@.contains_key(session@),
        0 <= i < before@[session@].len(),
        forall|j: int| 0 <= j < i ==> !(#[trigger] before@[session@][j] is Reserved),
    ensures
        before@[session@][i] is Reserved ==> r && lost(before, after, session@, i),
        i == before@[session@].len() - 1 && !(before@[session@][i] is Reserved) ==> !r && after@
            == before@,
        other != session@ ==> (after@.contains_key(other) <==> before@.contains_key(other)),
        other != session@ && after@.contains_key(other) ==> after@[other] == before@[other],
        after.cap() == before.cap(),
{
    let slots = before@[session@];
    assert(before.slots(session@) == slots);
    if slots[i] is Reserved {
        assert(is_first(slots, SlotView::Reserved, i));
        lemma_first_is_one(slots, SlotView::Reserved, i);
        lemma_lost(before, after, session@, SlotView::Reserved, i);
    }
    if i == slots.len() - 1 && !(slots[i] is Reserved) {
        assert(!slots.contains(SlotView::Reserved)) by {
            if slots.contains(SlotView::Reserved) {
                let j = choose|j: int| 0 <= j < slots.len() && slots[j] == SlotView::Reserved;
                assert(slots[j] is Reserved);
            }
        }
    }
}

/// A terminal that is forgotten leaves its slot, and every other stays, in order. A
/// session that is left with none is forgotten, and other sessions are not touched.
pub proof fn terminals_leave_their_own_slot(
    before: TerminalRegistry,
    after: TerminalRegistry,
    session: &str,
    handle: &str,
    r: bool,
    i: int,
    other: Seq<char>,
)
    requires
        exists|t: &mut TerminalRegistry|
            *t == before && *final(t) == after && #[trigger] call_ensures(
                TerminalRegistry::untrack_terminal,
                (t, session, handle),
                r,
            ),
        before@.contains_key(session@),
        0 <= i < before@[session@].len(),
        forall|j: int| 0 <= j < i ==> #[trigger] before@[session@][j] != SlotView::Held(handle@),
    ensures
        before@[session@][i] == SlotView::Held(handle@) ==> r && lost(before, after, session@, i),
        i == before@[session@].len() - 1 && before@[session@][i] != SlotView::Held(handle@) ==> !r
            && after@ == before@,
        other != session@ ==> (after@.contains_key(other) <==> before@.contains_key(other)),
        other != session@ && after@.contains_key(other) ==> after@[other] == before@[other],
        after.cap() == before.cap(),
{
    let slots = before@[session@];
    let slot = SlotView::Held(handle@);
    assert(before.slots(session@) == slots);
    if slots[i] == slot {
        assert(is_first(slots, slot, i));
        lemma_first_is_one(slots, slot, i);
        lemma_lost(before, after, session@, slot, i);
    }
    if i == slots.len() - 1 && slots[i] != slot {
        assert(!slots.contains(slot)) by {
            if slots.contains(slot) {
                let j = choose|j: int| 0 <= j < slots.len() && slots[j] == slot;
                assert(slots[j] == slot);
            }
        }
    }
}

/// A session that holds nothing has nothing to give back, to fill or to forget.
pub proof fn sessions_without_slots_stay_so(
    before: TerminalRegistry,
    filled: TerminalRegistry,
    cancelled: TerminalRegistry,
    dropped: TerminalRegistry,
    session: &str,
    handle: &str,
    track: bool,
    cancel: bool,
    untrack: bool,
)
    requires
        !before@.contains_key(session@),
        exists|t: &mut TerminalRegistry|
            *t == before && *final(t) == filled && #[trigger] call_ensures(
                TerminalRegistry::track_terminal,
                (t, session, handle),
                track,
            ),
        exists|t: &mut TerminalRegistry|
            *t == before && *final(t) == cancelled && #[trigger] call_ensures(
                TerminalRegistry::cancel_reservation,
                (t, session),
                cancel,
            ),
        exists|t: &mut TerminalRegistry|
            *t == before && *final(t) == dropped && #[trigger] call_ensures(
                TerminalRegistry::untrack_terminal,
                (t, session, handle),
                untrack,
            ),
    ensures
        !track && filled@ == before@,
        !cancel && cancelled@ == before@,
        !untrack && dropped@ == before@,
{
    assert(before.slots(session@) =~= Seq::empty());
}

/// A registry starts without a slot of any session, and with the cap that was given.
pub proof fn registries_start_empty(cap: usize, r: TerminalRegistry, session: Seq<char>)
    requires
        call_ensures(TerminalRegistry::new, (cap,), r),
    ensures
        !r@.contains_key(session),
        r.cap() == cap,
{
}

} // verus!
