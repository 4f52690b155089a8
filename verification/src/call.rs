//! The exchange with a guest module when one of its functions is called: the host
//! asks the guest to allocate memory, writes each parameter and a table of
//! (pointer, length) pairs, calls the function, frees the table, and waits for
//! the results. This module decides each step; the caller performs it.

use vstd::prelude::*;
use crate::bytes::{append_le, le_bytes, lemma_le_bytes_len};
use crate::param::{lemma_data_within_allocation, param_alloc_size, param_data, param_fits, param_length, Param, Settlement};
use crate::ret::{decoded_value, ret_type_of};
use crate::round_trip::{lemma_param_round_trip, param_value, ret_code_for};
use crate::word::LeWord;

verus! {

/// One thing for the host to do next.
#[derive(Debug, PartialEq, Eq)]
pub enum CallAction {
    /// Run the guest's `allocate` with this size; answer with `Allocated`.
    Allocate(i32),
    /// Write the bytes into guest memory at the offset; answer with `Completed`.
    Write(u32, Vec<u8>),
    /// Run the called function with the table's address and the number of
    /// parameters; answer with `Completed`.
    Invoke(i32, i32),
    /// Run the guest's `deallocate` on this address and size; answer with `Completed`.
    Deallocate(i32, i32),
    /// Wait for the results the guest reports.
    Receive,
}

pub enum CallActionView {
    Allocate(i32),
    Write(u32, Seq<u8>),
    Invoke(i32, i32),
    Deallocate(i32, i32),
    Receive,
}

impl View for CallAction {
    type V = CallActionView;

    open spec fn view(&self) -> CallActionView {
        match self {
            CallAction::Allocate(n) => CallActionView::Allocate(*n),
            CallAction::Write(at, bytes) => CallActionView::Write(*at, bytes@),
            CallAction::Invoke(p, n) => CallActionView::Invoke(*p, *n),
            CallAction::Deallocate(p, n) => CallActionView::Deallocate(*p, *n),
            CallAction::Receive => CallActionView::Receive,
        }
    }
}

/// How the host answers the action it performed.
#[derive(Debug, PartialEq, Eq)]
pub enum CallEvent {
    /// The guest allocated memory at this address.
    Allocated(i32),
    /// The write, call or deallocation succeeded.
    Completed,
}

/// The `k`-th action of a call whose parameters are placed as `plan` says, given the
/// address `frame` of the table and the addresses `pointers` allocated for the
/// parameters: first the table is allocated; then, for each parameter `i`, its
/// memory is allocated, its data written there, and its address and length written
/// as little-endian `i32`s at `8 * i` and `8 * i + 4` in the table; then the function
/// is invoked, the table freed and the results awaited.
pub open spec fn call_action(plan: Seq<Settlement>, frame: i32, pointers: Seq<i32>, k: int) -> CallActionView {
    let c = plan.len() as int;
    if k == 0 {
        CallActionView::Allocate((8 * c) as i32)
    } else if k <= 4 * c {
        let i = (k - 1) / 4;
        let j = (k - 1) % 4;
        if j == 0 {
            CallActionView::Allocate(plan[i].alloc_size)
        } else if j == 1 {
            CallActionView::Write(pointers[i] as u32, plan[i].data@)
        } else if j == 2 {
            CallActionView::Write((frame as u32 + 8 * i) as u32, le_bytes(pointers[i].word(), 4))
        } else {
            CallActionView::Write((frame as u32 + 8 * i + 4) as u32, le_bytes(plan[i].length.word(), 4))
        }
    } else if k == 4 * c + 1 {
        CallActionView::Invoke(frame, c as i32)
    } else if k == 4 * c + 2 {
        CallActionView::Deallocate(frame, (8 * c) as i32)
    } else {
        CallActionView::Receive
    }
}

/// The number of actions of a call with `c` parameters.
pub open spec fn call_length(c: int) -> int {
    4 * c + 4
}

/// The `k`-th action asks for an allocation.
pub open spec fn is_allocation(c: int, k: int) -> bool {
    k == 0 || (1 <= k <= 4 * c && (k - 1) % 4 == 0)
}

/// The number of parameter allocations answered once `e` actions have been emitted.
pub open spec fn allocations_answered(e: int, c: int) -> int {
    if e < 3 {
        0
    } else if (e - 3) / 4 + 1 < c {
        (e - 3) / 4 + 1
    } else {
        c
    }
}

/// The progress of one call.
pub struct GuestCall {
    plan: Vec<Settlement>,
    frame: i32,
    pointers: Vec<i32>,
    emitted: usize,
}

impl GuestCall {
    /// Where each parameter goes, in order.
    pub closed spec fn plan(&self) -> Seq<Settlement> {
        self.plan@
    }

    /// The address of the table, once allocated.
    pub closed spec fn frame(&self) -> i32 {
        self.frame
    }

    /// The addresses allocated for the parameters so far.
    pub closed spec fn pointers(&self) -> Seq<i32> {
        self.pointers@
    }

    /// The number of actions emitted so far.
    pub closed spec fn emitted(&self) -> int {
        self.emitted as int
    }

    pub closed spec fn wf(&self) -> bool {
        let c = self.plan@.len() as int;
        &&& 8 * c <= i32::MAX
        &&& 1 <= self.emitted <= call_length(c)
        &&& self.pointers@.len() == allocations_answered(self.emitted as int, c)
        &&& self.emitted >= 2 ==> (self.frame as u32) + 8 * c <= u32::MAX
    }

    /// The answer `event` fits the last action emitted: an address for an allocation,
    /// `Completed` otherwise; the table's address leaves room for the whole table in
    /// the 32-bit address space; and the call is not over.
    pub open spec fn accepts_spec(&self, event: CallEvent) -> bool {
        let c = self.plan().len() as int;
        let k = self.emitted() - 1;
        &&& self.emitted() < call_length(c)
        &&& match event {
            CallEvent::Allocated(p) => is_allocation(c, k) && (k == 0 ==> (p as u32) + 8 * c <= u32::MAX),
            CallEvent::Completed => !is_allocation(c, k),
        }
    }

    /// Starts a call with `inputs`; the first action allocates the table.
    pub fn start(inputs: &Vec<Param>) -> (r: (GuestCall, CallAction))
        requires
            8 * inputs.len() <= i32::MAX,
            forall|i: int| 0 <= i < inputs.len() ==> param_fits(#[trigger] inputs@[i]),
        ensures
            r.0.wf(),
            r.0.plan().len() == inputs.len(),
            forall|i: int|
                0 <= i < inputs.len() ==> {
                    &&& (#[trigger] r.0.plan()[i]).alloc_size == param_alloc_size(inputs@[i])
                    &&& r.0.plan()[i].data@ == param_data(inputs@[i])
                    &&& r.0.plan()[i].length == param_length(inputs@[i])
                },
            r.0.emitted() == 1,
            r.0.pointers().len() == 0,
            r.1@ == call_action(r.0.plan(), r.0.frame(), r.0.pointers(), 0),
    {
        let mut plan: Vec<Settlement> = Vec::new();
        let mut i: usize = 0;
        while i < inputs.len()
            invariant
                i <= inputs.len(),
                forall|j: int| 0 <= j < inputs.len() ==> param_fits(#[trigger] inputs@[j]),
                plan.len() == i,
                forall|j: int|
                    0 <= j < i ==> {
                        &&& (#[trigger] plan@[j]).alloc_size == param_alloc_size(inputs@[j])
                        &&& plan@[j].data@ == param_data(inputs@[j])
                        &&& plan@[j].length == param_length(inputs@[j])
                    },
            decreases inputs.len() - i,
        {
            plan.push(inputs[i].settlement());
            i = i + 1;
        }
        let size = (inputs.len() * 8) as i32;
        let call = GuestCall { plan, frame: 0, pointers: Vec::new(), emitted: 1 };
        (call, CallAction::Allocate(size))
    }

    /// Whether `event` is an answer that `step` takes.
    pub fn accepts(&self, event: &CallEvent) -> (r: bool)
        requires
            self.wf(),
        ensures
            r == self.accepts_spec(*event),
    {
        let c = self.plan.len();
        let k = self.emitted - 1;
        if self.emitted >= 4 * c + 4 {
            return false;
        }
        let allocation = k == 0 || (k <= 4 * c && (k - 1) % 4 == 0);
        match event {
            CallEvent::Allocated(p) => allocation && (k != 0 || (*p as u32) as u64 + 8 * (c as u64)
                <= 0xffff_ffff),
            CallEvent::Completed => !allocation,
        }
    }

    /// Takes the answer to the last action and returns the next one.
    pub fn step(&mut self, event: CallEvent) -> (action: CallAction)
        requires
            old(self).wf(),
            old(self).accepts_spec(event),
        ensures
            final(self).wf(),
            final(self).plan() == old(self).plan(),
            final(self).emitted() == old(self).emitted() + 1,
            final(self).frame() == (if old(self).emitted() == 1 {
                match event {
                    CallEvent::Allocated(p) => p,
                    CallEvent::Completed => old(self).frame(),
                }
            } else {
                old(self).frame()
            }),
            final(self).pointers() == (if old(self).emitted() >= 2 {
                match event {
                    CallEvent::Allocated(p) => old(self).pointers().push(p),
                    CallEvent::Completed => old(self).pointers(),
                }
            } else {
                old(self).pointers()
            }),
            action@ == call_action(
                final(self).plan(),
                final(self).frame(),
                final(self).pointers(),
                old(self).emitted(),
            ),
    {
        let c = self.plan.len();
        let k = self.emitted;
        match event {
            CallEvent::Allocated(p) => {
                if k == 1 {
                    self.frame = p;
                } else {
                    self.pointers.push(p);
                }
            },
            CallEvent::Completed => {},
        }
        self.emitted = k + 1;
        if k <= 4 * c {
            let i = (k - 1) / 4;
            let j = (k - 1) % 4;
            if j == 0 {
                CallAction::Allocate(self.plan[i].alloc_size)
            } else if j == 1 {
                CallAction::Write(self.pointers[i] as u32, crate::bytes::copy_bytes(&self.plan[i].data))
            } else if j == 2 {
                let mut bytes: Vec<u8> = Vec::new();
                append_le(&mut bytes, self.pointers[i].to_word(), 4);
                assert(bytes@ =~= le_bytes(self.pointers@[i as int].word(), 4));
                CallAction::Write(self.frame as u32 + 8 * (i as u32), bytes)
            } else {
                let mut bytes: Vec<u8> = Vec::new();
                append_le(&mut bytes, self.plan[i].length.to_word(), 4);
                assert(bytes@ =~= le_bytes(self.plan@[i as int].length.word(), 4));
                CallAction::Write(self.frame as u32 + 8 * (i as u32) + 4, bytes)
            }
        } else if k == 4 * c + 1 {
            CallAction::Invoke(self.frame, c as i32)
        } else if k == 4 * c + 2 {
            CallAction::Deallocate(self.frame, (8 * c) as i32)
        } else {
            CallAction::Receive
        }
    }
}

/// The table of parameters is freed with the size it was allocated with, after the
/// function has been called with the table's address and the number of parameters;
/// then the host waits for the results.
pub proof fn lemma_table_freed_as_allocated(plan: Seq<Settlement>, frame: i32, pointers: Seq<i32>)
    ensures
        call_action(plan, frame, pointers, 0) == CallActionView::Allocate((8 * plan.len()) as i32),
        call_action(plan, frame, pointers, (4 * plan.len() + 1) as int) == CallActionView::Invoke(
            frame,
            plan.len() as i32,
        ),
        call_action(plan, frame, pointers, (4 * plan.len() + 2) as int) == CallActionView::Deallocate(
            frame,
            (8 * plan.len()) as i32,
        ),
        call_action(plan, frame, pointers, (4 * plan.len() + 3) as int) == CallActionView::Receive,
{
}

/// Every write into the table of parameters lies within the table, and the entry of
/// parameter `i` takes the eight bytes from `8 * i`.
pub proof fn lemma_table_writes_in_bounds(plan: Seq<Settlement>, frame: i32, pointers: Seq<i32>, k: int)
    requires
        (frame as u32) + 8 * plan.len() <= u32::MAX,
        1 <= k <= 4 * plan.len(),
        (k - 1) % 4 >= 2,
    ensures
        call_action(plan, frame, pointers, k) matches CallActionView::Write(at, bytes) && {
            &&& (frame as u32) + 8 * ((k - 1) / 4) <= at
            &&& at + bytes.len() <= (frame as u32) + 8 * ((k - 1) / 4) + 8
            &&& (frame as u32) + 8 * ((k - 1) / 4) + 8 <= (frame as u32) + 8 * plan.len()
        },
{
    let i = (k - 1) / 4;
    lemma_le_bytes_len(plan[i].length.word(), 4);
    lemma_le_bytes_len(pointers[i].word(), 4);
}

/// Each parameter reaches the guest whole. For a call planned from `params` (as
/// `GuestCall::start` plans it), parameter `i` is given an allocation of its own size,
/// large enough for all its bytes; the bytes written at the address the guest gave
/// for it decode, under the result type of the same kind, to the value the parameter
/// carries; and its table entry records that address and its length.
pub proof fn lemma_parameter_delivered(
    params: Seq<Param>,
    plan: Seq<Settlement>,
    frame: i32,
    pointers: Seq<i32>,
    i: int,
)
    requires
        plan.len() == params.len(),
        0 <= i < params.len(),
        forall|j: int|
            0 <= j < params.len() ==> {
                &&& (#[trigger] plan[j]).alloc_size == param_alloc_size(params[j])
                &&& plan[j].data@ == param_data(params[j])
                &&& plan[j].length == param_length(params[j])
            },
    ensures
        call_action(plan, frame, pointers, 4 * i + 1) matches CallActionView::Allocate(n) && n
            == param_alloc_size(params[i]) && param_data(params[i]).len() <= n,
        call_action(plan, frame, pointers, 4 * i + 2) matches CallActionView::Write(at, bytes) && at
            == pointers[i] as u32 && bytes.len() <= param_alloc_size(params[i]) && decoded_value(
            ret_type_of(ret_code_for(params[i])).unwrap(),
            bytes,
        ) == param_value(params[i]),
        call_action(plan, frame, pointers, 4 * i + 3) == CallActionView::Write(
            (frame as u32 + 8 * i) as u32,
            le_bytes(pointers[i].word(), 4),
        ),
        call_action(plan, frame, pointers, 4 * i + 4) == CallActionView::Write(
            (frame as u32 + 8 * i + 4) as u32,
            le_bytes((param_length(params[i]) as i32).word(), 4),
        ),
{
    assert(plan[i].alloc_size == param_alloc_size(params[i]));
    lemma_data_within_allocation(params[i]);
    lemma_param_round_trip(params[i]);
    assert((4 * i + 1 - 1) / 4 == i && (4 * i + 1 - 1) % 4 == 0);
    assert((4 * i + 2 - 1) / 4 == i && (4 * i + 2 - 1) % 4 == 1);
    assert((4 * i + 3 - 1) / 4 == i && (4 * i + 3 - 1) % 4 == 2);
    assert((4 * i + 4 - 1) / 4 == i && (4 * i + 4 - 1) % 4 == 3);
}

} // verus!
