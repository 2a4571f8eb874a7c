//! Which request holds which slot of the recurrent state.
use vstd::prelude::*;
use vstd::string::*;

use crate::order::TextMap;
use crate::text::{cat2, cat3, cat6, decimal, decimal_usize, same_text};
use crate::types::{names, RequestId};

verus! {

/// The slots of a batch of requests.
#[derive(Debug)]
pub struct RecurrentStateBatchSlots {
    slots: Vec<u32>,
    newly_assigned: Vec<u32>,
}

impl RecurrentStateBatchSlots {
    /// The slot of each request of the batch.
    pub closed spec fn all(self) -> Seq<u32> {
        self.slots@
    }

    /// The slots that the batch was the first to hold.
    pub closed spec fn fresh(self) -> Seq<u32> {
        self.newly_assigned@
    }

    /// The slot of each request of the batch.
    pub fn slots(&self) -> (slots: &[u32])
        ensures
            slots@ == self.all(),
    {
        self.slots.as_slice()
    }

    /// The slots that the batch was the first to hold.
    pub fn newly_assigned(&self) -> (slots: &[u32])
        ensures
            slots@ == self.fresh(),
    {
        self.newly_assigned.as_slice()
    }
}

/// The slots of the recurrent state, and which requests hold them.
#[derive(Debug)]
pub struct RecurrentStateSlots {
    capacity: usize,
    free_slots: Vec<u32>,
    assigned_slots: TextMap<u32>,
}

/// What a [`RecurrentStateSlots`] holds. The last free slot is the next to be given.
pub struct Slots {
    pub capacity: nat,
    pub free: Seq<u32>,
    pub assigned: Map<Seq<char>, u32>,
}

impl View for RecurrentStateSlots {
    type V = Slots;

    closed spec fn view(&self) -> Slots {
        Slots {
            capacity: self.capacity as nat,
            free: self.free_slots@,
            assigned: self.assigned_slots@,
        }
    }
}

impl Slots {
    /// Every slot below the capacity is free once or held by one request, and there is no other.
    pub open spec fn valid(self) -> bool {
        &&& self.assigned.dom().finite()
        &&& self.free.len() + self.assigned.len() == self.capacity
        &&& forall|i: int| 0 <= i < self.free.len() ==> #[trigger] self.free[i] < self.capacity
        &&& forall|i: int, j: int|
            0 <= i < j < self.free.len() ==> #[trigger] self.free[i] != #[trigger] self.free[j]
        &&& forall|id: Seq<char>| #[trigger]
            self.assigned.dom().contains(id) ==> self.assigned[id] < self.capacity
        &&& forall|id: Seq<char>, other: Seq<char>|
            self.assigned.dom().contains(id) && self.assigned.dom().contains(other) && id != other
                ==> #[trigger] self.assigned[id] != #[trigger] self.assigned[other]
        &&& forall|i: int, id: Seq<char>|
            0 <= i < self.free.len() && self.assigned.dom().contains(id)
                ==> #[trigger] self.free[i] != #[trigger] self.assigned[id]
    }

    /// The slots after a request has got one, where it had none.
    pub open spec fn with(self, id: Seq<char>) -> Slots {
        if self.assigned.dom().contains(id) || self.free.len() == 0 {
            self
        } else {
            Slots {
                capacity: self.capacity,
                free: self.free.drop_last(),
                assigned: self.assigned.insert(id, self.free.last()),
            }
        }
    }

    /// The slots after each of several requests has got one.
    pub open spec fn with_all(self, ids: Seq<Seq<char>>) -> Slots
        decreases ids.len(),
    {
        if ids.len() == 0 {
            self
        } else {
            self.with_all(ids.drop_last()).with(ids.last())
        }
    }

    /// The slots that are given while each of several requests gets one.
    pub open spec fn given(self, ids: Seq<Seq<char>>) -> Seq<u32>
        decreases ids.len(),
    {
        if ids.len() == 0 {
            Seq::empty()
        } else {
            let before = self.with_all(ids.drop_last());
            if before.assigned.dom().contains(ids.last()) || before.free.len() == 0 {
                self.given(ids.drop_last())
            } else {
                self.given(ids.drop_last()).push(before.free.last())
            }
        }
    }

    /// How many of several requests hold no slot.
    pub open spec fn missing(self, ids: Seq<Seq<char>>) -> nat
        decreases ids.len(),
    {
        if ids.len() == 0 {
            0
        } else {
            self.missing(ids.drop_last()) + if self.assigned.dom().contains(ids.last()) {
                0nat
            } else {
                1nat
            }
        }
    }

    /// The slots after a request has given its slot back.
    pub open spec fn without(self, id: Seq<char>) -> Slots {
        if self.assigned.dom().contains(id) {
            Slots {
                capacity: self.capacity,
                free: self.free.push(self.assigned[id]),
                assigned: self.assigned.remove(id),
            }
        } else {
            self
        }
    }
}

/// The first name that occurs twice.
pub open spec fn first_repeated(ids: Seq<Seq<char>>) -> Option<Seq<char>>
    decreases ids.len(),
{
    if ids.len() == 0 {
        None
    } else if first_repeated(ids.drop_last()) is Some {
        first_repeated(ids.drop_last())
    } else if ids.drop_last().contains(ids.last()) {
        Some(ids.last())
    } else {
        None
    }
}

/// Why slots cannot be given.
#[derive(Clone, Debug, PartialEq, Eq)]
pub enum RecurrentStateSlotError {
    ZeroCapacity,
    CapacityTooLarge(usize),
    DuplicateRequest(String),
    Exhausted { capacity: usize, assigned: usize, requested: usize },
}

impl RecurrentStateSlotError {
    /// The message that the error is reported with.
    pub open spec fn message(self) -> Seq<char> {
        match self {
            RecurrentStateSlotError::ZeroCapacity =>
                "recurrent state slot capacity must be non-zero"@,
            RecurrentStateSlotError::CapacityTooLarge(capacity) =>
                "recurrent state slot capacity "@ + decimal(capacity as nat)
                    + " exceeds the u32 device index range"@,
            RecurrentStateSlotError::DuplicateRequest(request_id) =>
                "recurrent state batch contains duplicate request "@ + request_id@,
            RecurrentStateSlotError::Exhausted { capacity, assigned, requested } =>
                "recurrent state slots are exhausted: capacity="@ + decimal(capacity as nat)
                    + ", assigned="@ + decimal(assigned as nat) + ", new requests="@ + decimal(
                requested as nat,
            ),
        }
    }

    /// The message that the error is reported with.
    pub fn to_string(&self) -> (message: String)
        ensures
            message@ == self.message(),
    {
        match self {
            RecurrentStateSlotError::ZeroCapacity =>
                "recurrent state slot capacity must be non-zero".to_owned(),
            RecurrentStateSlotError::CapacityTooLarge(capacity) => cat3(
                "recurrent state slot capacity ",
                decimal_usize(*capacity).as_str(),
                " exceeds the u32 device index range",
            ),
            RecurrentStateSlotError::DuplicateRequest(request_id) => cat2(
                "recurrent state batch contains duplicate request ",
                request_id.as_str(),
            ),
            RecurrentStateSlotError::Exhausted { capacity, assigned, requested } => cat6(
                "recurrent state slots are exhausted: capacity=",
                decimal_usize(*capacity).as_str(),
                ", assigned=",
                decimal_usize(*assigned).as_str(),
                ", new requests=",
                decimal_usize(*requested).as_str(),
            ),
        }
    }
}

proof fn lemma_repeated_stays(ids: Seq<Seq<char>>, i: int)
    requires
        0 <= i <= ids.len(),
    ensures
        first_repeated(ids.take(i)) is Some ==> first_repeated(ids) == first_repeated(ids.take(i)),
    decreases ids.len() - i,
{
    if i < ids.len() {
        assert(ids.take(i + 1).drop_last() =~= ids.take(i));
        lemma_repeated_stays(ids, i + 1);
    } else {
        assert(ids.take(i) =~= ids);
    }
}

proof fn lemma_not_repeated(ids: Seq<Seq<char>>)
    requires
        first_repeated(ids) is None,
    ensures
        forall|i: int, j: int| 0 <= i < j < ids.len() ==> #[trigger] ids[i] != #[trigger] ids[j],
    decreases ids.len(),
{
    if ids.len() > 0 {
        let front = ids.drop_last();
        lemma_not_repeated(front);
        assert forall|i: int, j: int| 0 <= i < j < ids.len() implies #[trigger] ids[i]
            != #[trigger] ids[j] by {
            assert(front[i] == ids[i]);
            if j < front.len() {
                assert(front[j] == ids[j]);
            } else {
                assert(front.contains(ids[i]));
            }
        }
    }
}

impl Slots {
    /// Giving a slot keeps every slot free once or held by one request.
    pub proof fn giving_keeps_slots_apart(self, id: Seq<char>)
        requires
            self.valid(),
        ensures
            self.with(id).valid(),
    {
        if !self.assigned.dom().contains(id) && self.free.len() > 0 {
            let after = self.with(id);
            let slot = self.free.last();
            assert(slot == self.free[self.free.len() - 1]);
            assert(after.assigned.dom() =~= self.assigned.dom().insert(id));
            assert forall|i: int, j: int| 0 <= i < j < after.free.len() implies #[trigger] after.free[i]
                != #[trigger] after.free[j] by {
                assert(self.free[i] != self.free[j]);
            }
            assert forall|i: int, name: Seq<char>|
                0 <= i < after.free.len() && after.assigned.dom().contains(
                    name,
                ) implies #[trigger] after.free[i] != #[trigger] after.assigned[name] by {
                assert(after.free[i] == self.free[i]);
                if name == id {
                    assert(self.free[i] != self.free[self.free.len() - 1]);
                } else {
                    assert(self.free[i] != self.assigned[name]);
                }
            }
            assert forall|name: Seq<char>, other: Seq<char>|
                after.assigned.dom().contains(name) && after.assigned.dom().contains(other) && name
                    != other implies #[trigger] after.assigned[name]
                != #[trigger] after.assigned[other] by {
                if name == id {
                    assert(self.free[self.free.len() - 1] != self.assigned[other]);
                } else if other == id {
                    assert(self.free[self.free.len() - 1] != self.assigned[name]);
                } else {
                    assert(self.assigned[name] != self.assigned[other]);
                }
            }
            assert forall|i: int| 0 <= i < after.free.len() implies #[trigger] after.free[i]
                < after.capacity by {
                assert(self.free[i] < self.capacity);
            }
        }
    }

    /// Taking a slot back keeps every slot free once or held by one request.
    pub proof fn releasing_keeps_slots_apart(self, id: Seq<char>)
        requires
            self.valid(),
        ensures
            self.without(id).valid(),
    {
        if self.assigned.dom().contains(id) {
            let after = self.without(id);
            let slot = self.assigned[id];
            assert(after.assigned.dom() =~= self.assigned.dom().remove(id));
            let n = self.free.len() as int;
            assert(after.free[n] == slot);
            assert forall|i: int, j: int| 0 <= i < j < after.free.len() implies #[trigger] after.free[i]
                != #[trigger] after.free[j] by {
                assert(after.free[i] == self.free[i]);
                if j < n {
                    assert(self.free[i] != self.free[j]);
                } else {
                    assert(self.free[i] != self.assigned[id]);
                }
            }
            assert forall|i: int, name: Seq<char>|
                0 <= i < after.free.len() && after.assigned.dom().contains(
                    name,
                ) implies #[trigger] after.free[i] != #[trigger] after.assigned[name] by {
                if i < n {
                    assert(self.free[i] != self.assigned[name]);
                } else {
                    assert(self.assigned[id] != self.assigned[name]);
                }
            }
            assert forall|i: int| 0 <= i < after.free.len() implies #[trigger] after.free[i]
                < after.capacity by {
                if i < n {
                    assert(self.free[i] < self.capacity);
                }
            }
            assert forall|name: Seq<char>, other: Seq<char>|
                after.assigned.dom().contains(name) && after.assigned.dom().contains(other) && name
                    != other implies #[trigger] after.assigned[name]
                != #[trigger] after.assigned[other] by {
                assert(self.assigned[name] != self.assigned[other]);
            }
        }
    }

    /// A slot that was given back is the next to be given.
    pub proof fn released_slots_are_given_next(self, id: Seq<char>, next: Seq<char>)
        requires
            self.valid(),
            self.assigned.dom().contains(id),
            next == id || !self.assigned.dom().contains(next),
        ensures
            self.without(id).with(next).assigned[next] == self.assigned[id],
    {
    }

    /// A request that holds a slot keeps it while others get theirs.
    pub proof fn held_slots_are_kept(self, ids: Seq<Seq<char>>, id: Seq<char>)
        requires
            self.assigned.dom().contains(id),
        ensures
            self.with_all(ids).assigned.dom().contains(id),
            self.with_all(ids).assigned[id] == self.assigned[id],
        decreases ids.len(),
    {
        if ids.len() > 0 {
            self.held_slots_are_kept(ids.drop_last(), id);
        }
    }

    proof fn lemma_batch(self, ids: Seq<Seq<char>>)
        requires
            self.valid(),
            first_repeated(ids) is None,
            self.missing(ids) <= self.free.len(),
        ensures
            self.with_all(ids).valid(),
            self.with_all(ids).free.len() == self.free.len() - self.missing(ids),
            forall|id: Seq<char>| #[trigger]
                self.with_all(ids).assigned.dom().contains(id) == (self.assigned.dom().contains(id)
                    || ids.contains(id)),
            self.given(ids).len() == self.missing(ids),
        decreases ids.len(),
    {
        if ids.len() > 0 {
            let front = ids.drop_last();
            let last = ids.last();
            self.lemma_batch(front);
            let before = self.with_all(front);
            before.giving_keeps_slots_apart(last);
            assert(!front.contains(last));
            assert forall|id: Seq<char>| #[trigger]
                self.with_all(ids).assigned.dom().contains(id) == (self.assigned.dom().contains(id)
                    || ids.contains(id)) by {
                if ids.contains(id) {
                    let i = choose|i: int| 0 <= i < ids.len() && ids[i] == id;
                    if i < front.len() {
                        assert(front[i] == id);
                    }
                }
                if front.contains(id) {
                    let i = choose|i: int| 0 <= i < front.len() && front[i] == id;
                    assert(ids[i] == id);
                }
                assert(ids[ids.len() - 1] == last);
            }
        }
    }

    proof fn lemma_missing_bound(self, ids: Seq<Seq<char>>, i: int)
        requires
            0 <= i <= ids.len(),
        ensures
            self.missing(ids.take(i)) <= self.missing(ids),
            self.missing(ids) <= ids.len(),
        decreases ids.len(),
    {
        if i < ids.len() {
            self.lemma_missing_bound(ids.drop_last(), i);
            assert(ids.drop_last().take(i) =~= ids.take(i));
        } else {
            assert(ids.take(i) =~= ids);
            if ids.len() > 0 {
                self.lemma_missing_bound(ids.drop_last(), 0);
            }
        }
    }
}

impl RecurrentStateSlots {
    /// Every slot is free once or held by one request.
    pub closed spec fn wf(self) -> bool {
        self.assigned_slots.wf() && self@.valid()
    }

    /// Every slot is free once or held by one request.
    pub proof fn slots_are_apart(self)
        requires
            self.wf(),
        ensures
            self@.valid(),
    {
    }

    /// `capacity` free slots, of which the first is given first.
    pub fn new(capacity: usize) -> (slots: Result<Self, RecurrentStateSlotError>)
        ensures
            match slots {
                Ok(made) => {
                    &&& 0 < capacity <= u32::MAX
                    &&& made.wf()
                    &&& made@.capacity == capacity
                    &&& made@.free == Seq::new(
                        capacity as nat,
                        |i: int| (capacity - 1 - i) as u32,
                    )
                    &&& made@.assigned == Map::<Seq<char>, u32>::empty()
                },
                Err(error) => if capacity == 0 {
                    error == RecurrentStateSlotError::ZeroCapacity
                } else {
                    capacity > u32::MAX && error == RecurrentStateSlotError::CapacityTooLarge(
                        capacity,
                    )
                },
            },
    {
        if capacity == 0 {
            return Err(RecurrentStateSlotError::ZeroCapacity);
        }
        if capacity > 0xffff_ffff {
            return Err(RecurrentStateSlotError::CapacityTooLarge(capacity));
        }
        let mut free_slots: Vec<u32> = Vec::new();
        let mut next: usize = capacity;
        while next > 0
            invariant
                next <= capacity <= 0xffff_ffff,
                free_slots@.len() == capacity - next,
                forall|i: int| 0 <= i < free_slots@.len() ==> #[trigger] free_slots@[i] == (capacity - 1 - i) as u32,
            decreases next,
        {
            next = next - 1;
            free_slots.push(next as u32);
        }
        let slots = RecurrentStateSlots {
            capacity,
            free_slots,
            assigned_slots: TextMap::new(),
        };
        proof {
            assert(slots@.free =~= Seq::new(capacity as nat, |i: int| (capacity - 1 - i) as u32));
            assert(slots@.assigned.len() == 0);
        }
        Ok(slots)
    }

    /// Gives each request of a batch a slot. A request that holds a slot keeps it. Where a request
    /// occurs twice, or too few slots are free, nothing is given.
    pub fn assign_batch(&mut self, request_ids: &[RequestId]) -> (batch: Result<
        RecurrentStateBatchSlots,
        RecurrentStateSlotError,
    >)
        requires
            old(self).wf(),
        ensures
            final(self).wf(),
            match batch {
                Ok(slots) => {
                    let ids = names(request_ids@);
                    &&& first_repeated(ids) is None
                    &&& old(self)@.missing(ids) <= old(self)@.free.len()
                    &&& final(self)@ == old(self)@.with_all(ids)
                    &&& slots.all().len() == ids.len()
                    &&& forall|i: int|
                        0 <= i < ids.len() ==> final(self)@.assigned.dom().contains(
                            #[trigger] ids[i],
                        )
                    &&& forall|i: int|
                        0 <= i < ids.len() ==> #[trigger] slots.all()[i]
                            == final(self)@.assigned[ids[i]]
                    &&& slots.fresh() == old(self)@.given(ids)
                },
                Err(error) => {
                    let ids = names(request_ids@);
                    &&& final(self)@ == old(self)@
                    &&& match error {
                        RecurrentStateSlotError::DuplicateRequest(name) => first_repeated(ids)
                            == Some(name@),
                        RecurrentStateSlotError::Exhausted { capacity, assigned, requested } =>
                            first_repeated(ids) is None && old(self)@.missing(ids)
                                > old(self)@.free.len() && capacity == old(self)@.capacity
                                && assigned == old(self)@.assigned.len() && requested
                                == old(self)@.missing(ids),
                        _ => false,
                    }
                },
            },
    {
        let ghost ids = names(request_ids@);
        let ghost start = self@;
        let mut i: usize = 0;
        while i < request_ids.len()
            invariant
                i <= request_ids@.len(),
                ids == names(request_ids@),
                self.wf(),
                self@ == start,
                first_repeated(ids.take(i as int)) is None,
            decreases request_ids@.len() - i,
        {
            let name = request_ids[i].as_str();
            proof {
                assert(ids.take(i + 1).drop_last() =~= ids.take(i as int));
                assert(ids.take(i + 1).last() == name@);
                lemma_repeated_stays(ids, i + 1);
            }
            let mut j: usize = 0;
            while j < i
                invariant
                    j <= i < request_ids@.len(),
                    ids == names(request_ids@),
                    self.wf(),
                    self@ == start,
                    name@ == ids[i as int],
                    first_repeated(ids.take(i as int)) is None,
                    ids.take(i + 1).drop_last() == ids.take(i as int),
                    first_repeated(ids.take(i + 1)) is Some ==> first_repeated(ids)
                        == first_repeated(ids.take(i + 1)),
                    forall|k: int| 0 <= k < j ==> #[trigger] ids[k] != name@,
                decreases i - j,
            {
                if same_text(request_ids[j].as_str(), name) {
                    proof {
                        assert(ids.take(i as int)[j as int] == name@);
                        assert(ids.take(i as int).contains(name@));
                        assert(ids.take(i + 1).last() == name@);
                    }
                    return Err(RecurrentStateSlotError::DuplicateRequest(name.to_owned()));
                }
                j = j + 1;
            }
            proof {
                if ids.take(i as int).contains(name@) {
                    let k = choose|k: int| 0 <= k < i && ids.take(i as int)[k] == name@;
                    assert(ids[k] != name@);
                }
            }
            i = i + 1;
        }
        proof {
            assert(ids.take(i as int) =~= ids);
        }
        let mut required: usize = 0;
        let mut i: usize = 0;
        while i < request_ids.len()
            invariant
                i <= request_ids@.len(),
                ids == names(request_ids@),
                self.wf(),
                self@ == start,
                required == start.missing(ids.take(i as int)),
                required <= i,
            decreases request_ids@.len() - i,
        {
            proof {
                assert(ids.take(i + 1).drop_last() =~= ids.take(i as int));
            }
            if !self.assigned_slots.contains_key(request_ids[i].as_str()) {
                required = required + 1;
            }
            i = i + 1;
        }
        proof {
            assert(ids.take(i as int) =~= ids);
        }
        if required > self.free_slots.len() {
            return Err(
                RecurrentStateSlotError::Exhausted {
                    capacity: self.capacity,
                    assigned: self.assigned_slots.len(),
                    requested: required,
                },
            );
        }
        let mut slots: Vec<u32> = Vec::new();
        let mut newly_assigned: Vec<u32> = Vec::new();
        let mut i: usize = 0;
        while i < request_ids.len()
            invariant
                i <= request_ids@.len(),
                ids == names(request_ids@),
                start.valid(),
                self.wf(),
                first_repeated(ids) is None,
                start.missing(ids) <= start.free.len(),
                self@ == start.with_all(ids.take(i as int)),
                newly_assigned@ == start.given(ids.take(i as int)),
                slots@.len() == i,
                forall|k: int| 0 <= k < i ==> self@.assigned.dom().contains(#[trigger] ids[k]),
                forall|k: int| 0 <= k < i ==> #[trigger] slots@[k] == self@.assigned[ids[k]],
            decreases request_ids@.len() - i,
        {
            let name = request_ids[i].as_str();
            let ghost before = self@;
            let ghost slots_before = slots@;
            proof {
                assert(ids.take(i + 1).drop_last() =~= ids.take(i as int));
                assert(ids.take(i + 1).last() == name@);
                start.lemma_missing_bound(ids, i + 1);
                lemma_repeated_stays(ids, i + 1);
                lemma_repeated_stays(ids, i as int);
                start.lemma_missing_bound(ids, i as int);
                start.lemma_batch(ids.take(i as int));
                start.lemma_batch(ids.take(i + 1));
                before.giving_keeps_slots_apart(name@);
            }
            let held: Option<u32> = match self.assigned_slots.get(name) {
                Some(slot) => Some(*slot),
                None => None,
            };
            let slot: u32 = match held {
                Some(slot) => slot,
                None => match self.free_slots.pop() {
                    Some(slot) => {
                        self.assigned_slots.insert(name.to_owned(), slot);
                        newly_assigned.push(slot);
                        slot
                    },
                    None => {
                        return Err(
                            RecurrentStateSlotError::Exhausted {
                                capacity: self.capacity,
                                assigned: self.assigned_slots.len(),
                                requested: 1,
                            },
                        );
                    },
                },
            };
            slots.push(slot);
            proof {
                assert(ids[i as int] == name@);
                assert(self@ == before.with(name@));
                lemma_not_repeated(ids);
                assert forall|k: int| 0 <= k < i + 1 implies self@.assigned.dom().contains(
                    #[trigger] ids[k],
                ) by {
                    if k < i {
                        assert(before.assigned.dom().contains(ids[k]));
                    }
                }
                assert forall|k: int| 0 <= k < i + 1 implies #[trigger] slots@[k]
                    == self@.assigned[ids[k]] by {
                    if k < i {
                        assert(slots@[k] == slots_before[k]);
                        assert(ids[k] != ids[i as int]);
                    }
                }
            }
            i = i + 1;
        }
        proof {
            assert(ids.take(i as int) =~= ids);
        }
        Ok(RecurrentStateBatchSlots { slots, newly_assigned })
    }

    /// Takes the slot of a request back.
    pub fn release(&mut self, request_id: &RequestId) -> (slot: Option<u32>)
        requires
            old(self).wf(),
        ensures
            final(self).wf(),
            final(self)@ == old(self)@.without(request_id@),
            match slot {
                Some(freed) => old(self)@.assigned.dom().contains(request_id@) && freed
                    == old(self)@.assigned[request_id@],
                None => !old(self)@.assigned.dom().contains(request_id@),
            },
    {
        proof {
            self@.releasing_keeps_slots_apart(request_id@);
        }
        match self.assigned_slots.take(request_id.as_str()) {
            Some(slot) => {
                self.free_slots.push(slot);
                Some(slot)
            },
            None => None,
        }
    }
}

} // verus!
