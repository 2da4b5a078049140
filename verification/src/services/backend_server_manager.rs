//! The scheduler: which model's container is created, started, stopped or
//! waited for, and when.
//!
//! The scheduler talks to nobody. A caller that wants a backend for a model
//! begins an acquisition and is told what to ask of the container host or
//! of the memory probe; it hands back what it was answered and is told the
//! next thing to ask, until the backend is ready or the acquisition has
//! failed. Between two questions the scheduler's state is at rest, so that
//! acquisitions for several models can be under way at once.

use crate::model::Model;
use crate::repositories::vram_repository::{
    available_of, field_of, opt_view, TOTAL_KEY, USED_KEY,
};
use crate::text::{chars_of, same_text};
use vstd::prelude::*;
use vstd::string::StringExecFns;

verus! {

/// Where a model's container stands, as far as the scheduler knows.
#[derive(Debug, Clone, Copy, PartialEq, Eq)]
pub enum Lifecycle {
    Unknown,
    Creating,
    Stopped,
    Starting,
    Healthy,
    Stopping,
}

/// What the scheduler keeps for one model.
#[derive(Debug, Clone, Copy, PartialEq, Eq)]
pub struct Slot {
    /// Requests that hold the model: acquisitions under way and leases
    /// not yet released.
    pub active_requests: u64,
    /// When the model was last acquired; 0 if it never was.
    pub last_used: u64,
    pub lifecycle: Lifecycle,
    /// Whether somebody is changing the state of the model's container.
    pub gate_held: bool,
}

/// A model that may be stopped to make room, with the time of its last
/// use when it was found running.
#[derive(Debug, Clone, Copy, PartialEq, Eq)]
pub struct Candidate {
    pub model: usize,
    pub last_used: u64,
    /// Whether the acquisition has already turned to this candidate.
    pub tried: bool,
}

/// How far an acquisition has come.
#[derive(Debug, Clone, Copy, PartialEq, Eq)]
pub enum Phase {
    /// Waiting for the model's gate.
    AwaitingGate,
    /// Asked whether the model's container exists.
    CheckingExists,
    /// Asked for the container to be created.
    Creating,
    /// Asked whether the container is running.
    CheckingRunning,
    /// Asked how much memory is free.
    Probing,
    /// Asked whether the container of another model exists.
    ScanningExists(usize),
    /// Asked whether the container of another model is running.
    ScanningRunning(usize),
    /// Asked for the container of another model to be stopped.
    Evicting(usize),
    /// Asked for the container to be started.
    Starting,
    /// Asked whether the container is healthy.
    CheckingHealth,
    /// Asked to wait before asking for the health again.
    Sleeping,
    /// The backend was handed out.
    Ready,
    /// The acquisition has failed or was given up.
    Failed,
}

/// What the caller was answered.
#[derive(Debug, Clone, Copy, PartialEq, Eq)]
pub enum Event {
    /// The model's gate may be free now.
    Resumed,
    /// Whether the container exists.
    Exists(bool),
    /// Whether the container is running.
    Running(bool),
    /// Whether the container is healthy.
    Healthy(bool),
    /// Free device memory in megabytes.
    Free(u64),
    /// What was asked for has been done.
    Done,
    /// The container host has failed.
    Failed,
}

/// Why an acquisition has failed.
#[derive(Debug, Clone, Copy, PartialEq, Eq)]
pub enum Failure {
    /// The container host has failed; its error is the caller's to report.
    Host,
    /// Stopping every model that may be stopped does not free enough memory.
    InsufficientMemory,
    /// The answer is none to the question that was asked.
    Unexpected,
    /// The acquisition was over already.
    Finished,
}

/// What the caller is to do next. Models are named by their index.
#[derive(Debug, Clone, Copy, PartialEq, Eq)]
pub enum Action {
    /// Wait until the model's gate may be free.
    AwaitGate(usize),
    /// Ask whether the model's container exists.
    Exists(usize),
    /// Create the model's container.
    Create(usize),
    /// Ask whether the model's container is running.
    IsRunning(usize),
    /// Ask how much device memory is free.
    FreeMemory,
    /// Stop the model's container.
    Stop(usize),
    /// Start the model's container.
    Start(usize),
    /// Ask whether the model's container is healthy.
    IsHealthy(usize),
    /// Wait a second.
    Sleep,
    /// Hand out the model's backend.
    Ready(usize),
    /// Report the failure.
    Fail(Failure),
}

/// An acquisition as a plain value.
pub struct AcquisitionView {
    pub model: usize,
    pub phase: Phase,
    pub candidates: Seq<Candidate>,
    /// Whether the other models have been looked through for candidates.
    pub scanned: bool,
}

/// The scheduler's slots, the acquisition and the next action after a step.
pub struct Outcome {
    pub slots: Seq<Slot>,
    pub acquisition: AcquisitionView,
    pub action: Action,
}

/// Whether a model in this state may be stopped to make room: only while
/// it starts or is healthy.
pub open spec fn stoppable(lifecycle: Lifecycle) -> bool {
    lifecycle == Lifecycle::Starting || lifecycle == Lifecycle::Healthy
}

/// Whether the candidate may be stopped now: the acquisition has not
/// turned to it before, nobody holds the model, it is running as far as
/// the scheduler knows, and nobody is changing its state.
pub open spec fn eligible(slots: Seq<Slot>, candidate: Candidate) -> bool {
    &&& !candidate.tried
    &&& candidate.model < slots.len()
    &&& slots[candidate.model as int].active_requests == 0
    &&& stoppable(slots[candidate.model as int].lifecycle)
    &&& !slots[candidate.model as int].gate_held
}

/// The candidate to stop among the first `upto`: the eligible one that was
/// used least recently, the first of them where several were.
pub open spec fn pick_among(slots: Seq<Slot>, candidates: Seq<Candidate>, upto: int) -> Option<int>
    decreases upto,
{
    if upto <= 0 {
        None
    } else {
        let earlier = pick_among(slots, candidates, upto - 1);
        let last = upto - 1;
        if eligible(slots, candidates[last]) && (earlier is None || candidates[last].last_used
            < candidates[earlier->0].last_used) {
            Some(last)
        } else {
            earlier
        }
    }
}

/// The candidate to stop.
pub open spec fn pick(slots: Seq<Slot>, candidates: Seq<Candidate>) -> Option<int> {
    pick_among(slots, candidates, candidates.len() as int)
}

/// The next model from `from` on that is looked at as a candidate: one
/// other than `model` that nobody holds.
pub open spec fn next_idle(slots: Seq<Slot>, model: usize, from: int) -> Option<int>
    decreases slots.len() - from,
{
    if from < 0 || from >= slots.len() {
        None
    } else if from != model && slots[from].active_requests == 0 {
        Some(from)
    } else {
        next_idle(slots, model, from + 1)
    }
}

/// Whether an acquisition in this phase holds its model's gate.
pub open spec fn holds_gate(phase: Phase) -> bool {
    phase != Phase::AwaitingGate && phase != Phase::Ready && phase != Phase::Failed
}

/// Whether an acquisition in this phase is over.
pub open spec fn is_over(phase: Phase) -> bool {
    phase == Phase::Ready || phase == Phase::Failed
}

/// The slots with the slot of `model` replaced.
pub open spec fn with_slot(slots: Seq<Slot>, model: int, slot: Slot) -> Seq<Slot> {
    if 0 <= model < slots.len() {
        slots.update(model, slot)
    } else {
        slots
    }
}

/// The slot after the host was seen to run the container: a model not
/// known to be running is taken to be starting.
pub open spec fn seen_running(slot: Slot) -> Slot {
    if stoppable(slot.lifecycle) {
        slot
    } else {
        Slot { lifecycle: Lifecycle::Starting, ..slot }
    }
}

/// The slot of the acquisition's own model after the acquisition has
/// failed in `phase`: the request no longer holds the model, its gate is
/// free if the acquisition held it, and a container whose creation or start
/// failed is where it was before.
pub open spec fn given_up(slot: Slot, phase: Phase) -> Slot {
    Slot {
        active_requests: if slot.active_requests > 0 {
            (slot.active_requests - 1) as u64
        } else {
            0
        },
        gate_held: if holds_gate(phase) {
            false
        } else {
            slot.gate_held
        },
        lifecycle: if phase == Phase::Creating {
            Lifecycle::Unknown
        } else if phase == Phase::Starting {
            Lifecycle::Stopped
        } else {
            slot.lifecycle
        },
        ..slot
    }
}

/// The slots after the model that was being stopped is let go of: its gate
/// is free, and where it stands is not known.
pub open spec fn victim_let_go(slots: Seq<Slot>, phase: Phase) -> Seq<Slot> {
    match phase {
        Phase::Evicting(victim) => if victim < slots.len() {
            slots.update(
                victim as int,
                Slot { lifecycle: Lifecycle::Unknown, gate_held: false, ..slots[victim as int] },
            )
        } else {
            slots
        },
        _ => slots,
    }
}

/// The acquisition fails: its request is taken back, its gates are freed.
pub open spec fn fail_of(slots: Seq<Slot>, acq: AcquisitionView, failure: Failure) -> Outcome {
    let freed = victim_let_go(slots, acq.phase);
    Outcome {
        slots: with_slot(
            freed,
            acq.model as int,
            given_up(freed[acq.model as int], acq.phase),
        ),
        acquisition: AcquisitionView { phase: Phase::Failed, ..acq },
        action: Action::Fail(failure),
    }
}

/// The acquisition turns to its model's gate: it takes that gate and asks
/// whether the container exists, or waits where somebody else holds it.
pub open spec fn enter_of(slots: Seq<Slot>, acq: AcquisitionView) -> Outcome {
    let m = acq.model as int;
    if slots[m].gate_held {
        Outcome {
            slots,
            acquisition: AcquisitionView { phase: Phase::AwaitingGate, ..acq },
            action: Action::AwaitGate(acq.model),
        }
    } else {
        Outcome {
            slots: with_slot(slots, m, Slot { gate_held: true, ..slots[m] }),
            acquisition: AcquisitionView { phase: Phase::CheckingExists, ..acq },
            action: Action::Exists(acq.model),
        }
    }
}

/// The acquisition turns to the candidate to stop: it takes the model's
/// gate and asks for its container to be stopped. Where no candidate may be
/// stopped, the acquisition fails for want of memory.
pub open spec fn evict_of(slots: Seq<Slot>, acq: AcquisitionView) -> Outcome {
    match pick(slots, acq.candidates) {
        Some(k) => {
            let victim = acq.candidates[k].model;
            Outcome {
                slots: with_slot(
                    slots,
                    victim as int,
                    Slot {
                        lifecycle: Lifecycle::Stopping,
                        gate_held: true,
                        ..slots[victim as int]
                    },
                ),
                acquisition: AcquisitionView {
                    phase: Phase::Evicting(victim),
                    candidates: acq.candidates.update(
                        k,
                        Candidate { tried: true, ..acq.candidates[k] },
                    ),
                    ..acq
                },
                action: Action::Stop(victim),
            }
        },
        None => fail_of(slots, acq, Failure::InsufficientMemory),
    }
}

/// The acquisition looks for candidates from the model `from` on: it asks
/// whether the container of the next idle model exists, and turns to
/// stopping once no model is left to look at.
pub open spec fn scan_of(slots: Seq<Slot>, acq: AcquisitionView, from: int) -> Outcome {
    match next_idle(slots, acq.model, from) {
        Some(j) => Outcome {
            slots,
            acquisition: AcquisitionView { phase: Phase::ScanningExists(j as usize), ..acq },
            action: Action::Exists(j as usize),
        },
        None => evict_of(slots, acq),
    }
}

/// The acquisition goes on in `phase` with `action`.
pub open spec fn go_on(slots: Seq<Slot>, acq: AcquisitionView, phase: Phase, action: Action) -> Outcome {
    Outcome { slots, acquisition: AcquisitionView { phase, ..acq }, action }
}

/// What the answer `event`, received at the time `now`, does to the
/// scheduler's slots and to the acquisition, and what is to be done next.
/// `required` holds the memory that each model is taken to need.
pub open spec fn step_of(
    slots: Seq<Slot>,
    required: Seq<u64>,
    acq: AcquisitionView,
    event: Event,
    now: u64,
) -> Outcome {
    let m = acq.model as int;
    let me = acq.model;
    match acq.phase {
        Phase::AwaitingGate => enter_of(slots, acq),
        Phase::CheckingExists => match event {
            Event::Exists(true) => go_on(
                with_slot(
                    slots,
                    m,
                    Slot {
                        lifecycle: if slots[m].lifecycle == Lifecycle::Unknown {
                            Lifecycle::Stopped
                        } else {
                            slots[m].lifecycle
                        },
                        ..slots[m]
                    },
                ),
                acq,
                Phase::CheckingRunning,
                Action::IsRunning(me),
            ),
            Event::Exists(false) => go_on(
                with_slot(slots, m, Slot { lifecycle: Lifecycle::Creating, ..slots[m] }),
                acq,
                Phase::Creating,
                Action::Create(me),
            ),
            Event::Failed => fail_of(slots, acq, Failure::Host),
            _ => fail_of(slots, acq, Failure::Unexpected),
        },
        Phase::Creating => match event {
            Event::Done => go_on(
                with_slot(slots, m, Slot { lifecycle: Lifecycle::Stopped, ..slots[m] }),
                acq,
                Phase::CheckingRunning,
                Action::IsRunning(me),
            ),
            Event::Failed => fail_of(slots, acq, Failure::Host),
            _ => fail_of(slots, acq, Failure::Unexpected),
        },
        Phase::CheckingRunning => match event {
            Event::Running(true) => go_on(
                with_slot(slots, m, seen_running(slots[m])),
                acq,
                Phase::CheckingHealth,
                Action::IsHealthy(me),
            ),
            Event::Running(false) => go_on(
                with_slot(slots, m, Slot { lifecycle: Lifecycle::Stopped, ..slots[m] }),
                acq,
                Phase::Probing,
                Action::FreeMemory,
            ),
            Event::Failed => fail_of(slots, acq, Failure::Host),
            _ => fail_of(slots, acq, Failure::Unexpected),
        },
        Phase::Probing => match event {
            Event::Free(free) => if free >= required[m] {
                go_on(
                    with_slot(slots, m, Slot { lifecycle: Lifecycle::Starting, ..slots[m] }),
                    acq,
                    Phase::Starting,
                    Action::Start(me),
                )
            } else if !acq.scanned {
                scan_of(
                    slots,
                    AcquisitionView { scanned: true, candidates: Seq::empty(), ..acq },
                    0,
                )
            } else {
                evict_of(slots, acq)
            },
            Event::Failed => fail_of(slots, acq, Failure::Host),
            _ => fail_of(slots, acq, Failure::Unexpected),
        },
        Phase::ScanningExists(i) => match event {
            Event::Exists(true) => go_on(
                slots,
                acq,
                Phase::ScanningRunning(i),
                Action::IsRunning(i),
            ),
            Event::Exists(false) => scan_of(slots, acq, i + 1),
            Event::Failed => fail_of(slots, acq, Failure::Host),
            _ => fail_of(slots, acq, Failure::Unexpected),
        },
        Phase::ScanningRunning(i) => match event {
            Event::Running(true) => scan_of(
                with_slot(slots, i as int, seen_running(slots[i as int])),
                AcquisitionView {
                    candidates: acq.candidates.push(
                        Candidate { model: i, last_used: slots[i as int].last_used, tried: false },
                    ),
                    ..acq
                },
                i + 1,
            ),
            Event::Running(false) => scan_of(slots, acq, i + 1),
            Event::Failed => fail_of(slots, acq, Failure::Host),
            _ => fail_of(slots, acq, Failure::Unexpected),
        },
        Phase::Evicting(victim) => match event {
            Event::Done => go_on(
                with_slot(
                    slots,
                    victim as int,
                    Slot {
                        lifecycle: Lifecycle::Stopped,
                        gate_held: false,
                        ..slots[victim as int]
                    },
                ),
                acq,
                Phase::Probing,
                Action::FreeMemory,
            ),
            Event::Failed => fail_of(slots, acq, Failure::Host),
            _ => fail_of(slots, acq, Failure::Unexpected),
        },
        Phase::Starting => match event {
            Event::Done => go_on(slots, acq, Phase::CheckingHealth, Action::IsHealthy(me)),
            Event::Failed => fail_of(slots, acq, Failure::Host),
            _ => fail_of(slots, acq, Failure::Unexpected),
        },
        Phase::CheckingHealth => match event {
            Event::Healthy(true) => go_on(
                with_slot(
                    slots,
                    m,
                    Slot {
                        lifecycle: Lifecycle::Healthy,
                        last_used: now,
                        gate_held: false,
                        ..slots[m]
                    },
                ),
                acq,
                Phase::Ready,
                Action::Ready(me),
            ),
            Event::Healthy(false) => go_on(slots, acq, Phase::Sleeping, Action::Sleep),
            Event::Failed => fail_of(slots, acq, Failure::Host),
            _ => fail_of(slots, acq, Failure::Unexpected),
        },
        Phase::Sleeping => match event {
            Event::Done => go_on(slots, acq, Phase::CheckingHealth, Action::IsHealthy(me)),
            Event::Failed => fail_of(slots, acq, Failure::Host),
            _ => fail_of(slots, acq, Failure::Unexpected),
        },
        Phase::Ready => Outcome { slots, acquisition: acq, action: Action::Fail(Failure::Finished) },
        Phase::Failed => Outcome {
            slots,
            acquisition: acq,
            action: Action::Fail(Failure::Finished),
        },
    }
}

/// Whether the acquisition speaks of models that `count` slots hold.
pub open spec fn fits(acq: AcquisitionView, count: nat) -> bool {
    &&& acq.model < count
    &&& match acq.phase {
        Phase::ScanningExists(i) => i < count,
        Phase::ScanningRunning(i) => i < count,
        Phase::Evicting(i) => i < count,
        _ => true,
    }
    &&& forall|k: int| 0 <= k < acq.candidates.len() ==> (#[trigger] acq.candidates[k]).model < count
}


/// An acquisition under way.
#[derive(Debug)]
pub struct Acquisition {
    model: usize,
    phase: Phase,
    candidates: Vec<Candidate>,
    scanned: bool,
}

impl View for Acquisition {
    type V = AcquisitionView;

    closed spec fn view(&self) -> AcquisitionView {
        AcquisitionView {
            model: self.model,
            phase: self.phase,
            candidates: self.candidates@,
            scanned: self.scanned,
        }
    }
}

/// The right to use a model's backend; it is given back with `release`.
#[derive(Debug)]
pub struct Lease {
    model: usize,
}

impl Lease {
    /// The index of the model that the lease holds.
    pub closed spec fn model_index(&self) -> usize {
        self.model
    }

    /// The index of the model that the lease holds.
    pub fn model(&self) -> (model: usize)
        ensures
            model == self.model_index(),
    {
        self.model
    }
}

impl Acquisition {
    /// The index of the model that is being acquired.
    pub fn model(&self) -> (model: usize)
        ensures
            model == self@.model,
    {
        self.model
    }

    pub fn phase(&self) -> (phase: Phase)
        ensures
            phase == self@.phase,
    {
        self.phase
    }

    /// Turns an acquisition that has handed out its backend into the lease
    /// on the model. Any other acquisition gives none.
    pub fn into_lease(self) -> (lease: Option<Lease>)
        ensures
            match lease {
                Some(l) => self@.phase == Phase::Ready && l.model_index() == self@.model,
                None => self@.phase != Phase::Ready,
            },
    {
        match self.phase {
            Phase::Ready => Some(Lease { model: self.model }),
            _ => None,
        }
    }
}

/// Where a model's backend is reached.
#[derive(Debug, PartialEq, Eq)]
pub struct BackendServer {
    pub hostname: String,
}

/// Why no backend could be handed out.
#[derive(Debug, PartialEq, Eq)]
pub enum EstimateError {
    /// No model of this name is configured.
    ModelNotFound(String),
    /// The container host has failed; the text is its error.
    Docker(String),
    /// Not enough memory can be freed for the model of this name.
    FreeFailed(String),
    /// The model of this name is held by as many requests as can be counted.
    TooManyRequests(String),
}

/// The scheduler.
#[derive(Debug)]
pub struct BackendServerManager {
    models: Vec<Model>,
    slots: Vec<Slot>,
}

/// The first index from `from` on at which `models` holds a model named
/// `name`.
pub open spec fn first_model_named(models: Seq<Model>, name: Seq<char>, from: int) -> Option<int>
    decreases models.len() - from,
{
    if from < 0 || from >= models.len() {
        None
    } else if models[from].model_name@ == name {
        Some(from)
    } else {
        first_model_named(models, name, from + 1)
    }
}

/// The slot of a model that was never referred to.
pub open spec fn untouched() -> Slot {
    Slot { active_requests: 0, last_used: 0, lifecycle: Lifecycle::Unknown, gate_held: false }
}

impl BackendServerManager {
    /// The configured models.
    pub closed spec fn models(&self) -> Seq<Model> {
        self.models@
    }

    /// What the scheduler keeps for each model.
    pub closed spec fn slots(&self) -> Seq<Slot> {
        self.slots@
    }

    /// The memory that each model is taken to need, in megabytes.
    pub open spec fn required(&self) -> Seq<u64> {
        Seq::new(self.models().len(), |i: int| self.models()[i].estimated_memory_usage)
    }

    /// There is one slot for each model.
    pub open spec fn wf(&self) -> bool {
        self.slots().len() == self.models().len()
    }

    /// Whether `acq` is an acquisition of this scheduler's making.
    pub open spec fn knows(&self, acq: &Acquisition) -> bool {
        fits(acq@, self.slots().len())
    }

    /// Whether the scheduler and the acquisition are as `expected` says,
    /// and `action` is the action it names.
    pub open spec fn arrived(&self, acq: &Acquisition, action: Action, expected: Outcome) -> bool {
        &&& self.slots() == expected.slots
        &&& acq@ == expected.acquisition
        &&& action == expected.action
    }

    /// A scheduler for `models`, none of which was referred to yet.
    pub fn new(models: Vec<Model>) -> (manager: BackendServerManager)
        ensures
            manager.wf(),
            manager.models() == models@,
            forall|i: int| 0 <= i < manager.slots().len() ==> manager.slots()[i] == untouched(),
    {
        let mut slots: Vec<Slot> = Vec::new();
        let mut i: usize = 0;
        while i < models.len()
            invariant
                i <= models@.len(),
                slots@.len() == i,
                forall|j: int| 0 <= j < i ==> slots@[j] == untouched(),
            decreases models@.len() - i,
        {
            slots.push(
                Slot {
                    active_requests: 0,
                    last_used: 0,
                    lifecycle: Lifecycle::Unknown,
                    gate_held: false,
                },
            );
            i += 1;
        }
        BackendServerManager { models, slots }
    }

    pub fn get_all_models(&self) -> (models: &Vec<Model>)
        ensures
            models@ == self.models(),
    {
        &self.models
    }

    /// What the scheduler keeps for the model at `index`.
    pub fn slot(&self, index: usize) -> (slot: Option<Slot>)
        ensures
            slot == if index < self.slots().len() {
                Some(self.slots()[index as int])
            } else {
                None
            },
    {
        if index < self.slots.len() {
            Some(self.slots[index])
        } else {
            None
        }
    }

    /// Whether `acq` is an acquisition that this scheduler can go on with.
    pub fn accepts(&self, acq: &Acquisition) -> (ok: bool)
        ensures
            ok == self.knows(acq),
    {
        let n = self.slots.len();
        let phase_fits = match acq.phase {
            Phase::ScanningExists(i) => i < n,
            Phase::ScanningRunning(i) => i < n,
            Phase::Evicting(i) => i < n,
            _ => true,
        };
        if acq.model >= n || !phase_fits {
            return false;
        }
        let mut k: usize = 0;
        while k < acq.candidates.len()
            invariant
                k <= acq.candidates@.len(),
                n == self.slots@.len(),
                forall|j: int| 0 <= j < k ==> (#[trigger] acq.candidates@[j]).model < n,
            decreases acq.candidates@.len() - k,
        {
            if acq.candidates[k].model >= n {
                assert(acq@.candidates[k as int].model >= n);
                return false;
            }
            k += 1;
        }
        true
    }

    /// Finds the model named `model_name`.
    fn find(&self, model_name: &str) -> (r: Option<usize>)
        ensures
            match r {
                Some(i) => i < self.models().len() && first_model_named(
                    self.models(),
                    model_name@,
                    0,
                ) == Some(i as int),
                None => first_model_named(self.models(), model_name@, 0) is None,
            },
    {
        let wanted = chars_of(model_name);
        let len = wanted.len();
        assert(wanted@.subrange(0, len as int) == model_name@);
        let mut i: usize = 0;
        while i < self.models.len()
            invariant
                i <= self.models@.len(),
                len == wanted@.len(),
                wanted@.subrange(0, len as int) == model_name@,
                first_model_named(self.models(), model_name@, 0) == first_model_named(
                    self.models(),
                    model_name@,
                    i as int,
                ),
            decreases self.models@.len() - i,
        {
            if same_text(wanted.as_slice(), 0, len, self.models[i].model_name.as_str()) {
                return Some(i);
            }
            i += 1;
        }
        None
    }

    fn fail(&mut self, acq: &mut Acquisition, failure: Failure) -> (action: Action)
        requires
            old(self).wf(),
            old(self).knows(old(acq)),
        ensures
            final(self).wf(),
            final(self).models() == old(self).models(),
            final(self).knows(final(acq)),
            final(self).arrived(final(acq), action, fail_of(old(self).slots(), old(acq)@, failure)),
    {
        match acq.phase {
            Phase::Evicting(victim) => {
                let slot = self.slots[victim];
                self.slots.set(
                    victim,
                    Slot { lifecycle: Lifecycle::Unknown, gate_held: false, ..slot },
                );
            },
            _ => {},
        }
        let m = acq.model;
        let slot = self.slots[m];
        let holds = match acq.phase {
            Phase::AwaitingGate | Phase::Ready | Phase::Failed => false,
            _ => true,
        };
        self.slots.set(
            m,
            Slot {
                active_requests: if slot.active_requests > 0 {
                    slot.active_requests - 1
                } else {
                    0
                },
                gate_held: if holds {
                    false
                } else {
                    slot.gate_held
                },
                lifecycle: match acq.phase {
                    Phase::Creating => Lifecycle::Unknown,
                    Phase::Starting => Lifecycle::Stopped,
                    _ => slot.lifecycle,
                },
                ..slot
            },
        );
        acq.phase = Phase::Failed;
        Action::Fail(failure)
    }

    fn enter(&mut self, acq: &mut Acquisition) -> (action: Action)
        requires
            old(self).wf(),
            old(self).knows(old(acq)),
        ensures
            final(self).wf(),
            final(self).models() == old(self).models(),
            final(self).knows(final(acq)),
            final(self).arrived(final(acq), action, enter_of(old(self).slots(), old(acq)@)),
    {
        let m = acq.model;
        let slot = self.slots[m];
        if slot.gate_held {
            acq.phase = Phase::AwaitingGate;
            Action::AwaitGate(m)
        } else {
            self.slots.set(m, Slot { gate_held: true, ..slot });
            acq.phase = Phase::CheckingExists;
            Action::Exists(m)
        }
    }

    /// Finds the candidate to stop.
    fn pick_candidate(&self, acq: &Acquisition) -> (r: Option<usize>)
        ensures
            match r {
                Some(k) => k < acq@.candidates.len() && pick(self.slots(), acq@.candidates)
                    == Some(k as int),
                None => pick(self.slots(), acq@.candidates) is None,
            },
    {
        let n = self.slots.len();
        let mut best: Option<usize> = None;
        let mut k: usize = 0;
        while k < acq.candidates.len()
            invariant
                k <= acq.candidates@.len(),
                n == self.slots@.len(),
                match best {
                    Some(b) => b < k && pick_among(self.slots(), acq@.candidates, k as int)
                        == Some(b as int),
                    None => pick_among(self.slots(), acq@.candidates, k as int) is None,
                },
            decreases acq.candidates@.len() - k,
        {
            let c = acq.candidates[k];
            let ok = !c.tried && c.model < n && self.slots[c.model].active_requests == 0
                && matches!(
                self.slots[c.model].lifecycle,
                Lifecycle::Starting | Lifecycle::Healthy
            ) && !self.slots[c.model].gate_held;
            if ok {
                match best {
                    None => {
                        best = Some(k);
                    },
                    Some(b) => {
                        if c.last_used < acq.candidates[b].last_used {
                            best = Some(k);
                        }
                    },
                }
            }
            k += 1;
        }
        best
    }

    fn evict(&mut self, acq: &mut Acquisition) -> (action: Action)
        requires
            old(self).wf(),
            old(self).knows(old(acq)),
        ensures
            final(self).wf(),
            final(self).models() == old(self).models(),
            final(self).knows(final(acq)),
            final(self).arrived(final(acq), action, evict_of(old(self).slots(), old(acq)@)),
    {
        match self.pick_candidate(acq) {
            Some(k) => {
                let c = acq.candidates[k];
                let victim = c.model;
                let slot = self.slots[victim];
                self.slots.set(
                    victim,
                    Slot { lifecycle: Lifecycle::Stopping, gate_held: true, ..slot },
                );
                acq.candidates.set(k, Candidate { tried: true, ..c });
                acq.phase = Phase::Evicting(victim);
                Action::Stop(victim)
            },
            None => self.fail(acq, Failure::InsufficientMemory),
        }
    }

    /// Finds the next model to look at as a candidate.
    fn next_to_scan(&self, model: usize, from: usize) -> (r: Option<usize>)
        ensures
            match r {
                Some(j) => from <= j < self.slots().len() && next_idle(
                    self.slots(),
                    model,
                    from as int,
                ) == Some(j as int),
                None => next_idle(self.slots(), model, from as int) is None,
            },
    {
        let mut j: usize = from;
        while j < self.slots.len()
            invariant
                from <= j,
                next_idle(self.slots(), model, from as int) == next_idle(
                    self.slots(),
                    model,
                    j as int,
                ),
            decreases self.slots@.len() - j,
        {
            if j != model && self.slots[j].active_requests == 0 {
                return Some(j);
            }
            j += 1;
        }
        None
    }

    fn scan(&mut self, acq: &mut Acquisition, from: usize) -> (action: Action)
        requires
            old(self).wf(),
            old(self).knows(old(acq)),
        ensures
            final(self).wf(),
            final(self).models() == old(self).models(),
            final(self).knows(final(acq)),
            final(self).arrived(
                final(acq),
                action,
                scan_of(old(self).slots(), old(acq)@, from as int),
            ),
    {
        match self.next_to_scan(acq.model, from) {
            Some(j) => {
                acq.phase = Phase::ScanningExists(j);
                Action::Exists(j)
            },
            None => self.evict(acq),
        }
    }

    fn go_on(&mut self, acq: &mut Acquisition, slot: Slot, phase: Phase, action: Action) -> (r:
        Action)
        requires
            old(self).wf(),
            old(self).knows(old(acq)),
            !(phase is ScanningExists) && !(phase is ScanningRunning) && !(phase is Evicting),
        ensures
            final(self).wf(),
            final(self).models() == old(self).models(),
            final(self).knows(final(acq)),
            final(self).arrived(
                final(acq),
                r,
                go_on(
                    with_slot(old(self).slots(), old(acq)@.model as int, slot),
                    old(acq)@,
                    phase,
                    action,
                ),
            ),
    {
        self.slots.set(acq.model, slot);
        acq.phase = phase;
        action
    }

    /// Begins an acquisition of the model named `model_name`: counts the
    /// request, and turns to the model's gate. The first action is to ask
    /// whether the model's container exists, or to wait for that gate.
    ///
    /// A name that is not configured is refused, and so is a request for a
    /// model that is held by as many requests as can be counted; the
    /// scheduler is then as it was.
    pub fn get_server(&mut self, model_name: &str) -> (r: Result<
        (Acquisition, Action),
        EstimateError,
    >)
        requires
            old(self).wf(),
        ensures
            final(self).wf(),
            final(self).models() == old(self).models(),
            match first_model_named(old(self).models(), model_name@, 0) {
                None => {
                    &&& final(self).slots() == old(self).slots()
                    &&& r matches Err(EstimateError::ModelNotFound(name)) && name@ == model_name@
                },
                Some(m) => if old(self).slots()[m].active_requests == u64::MAX {
                    &&& final(self).slots() == old(self).slots()
                    &&& r matches Err(EstimateError::TooManyRequests(name)) && name@
                        == model_name@
                } else {
                    r matches Ok((acq, action)) && final(self).knows(&acq) && final(self).arrived(
                        &acq,
                        action,
                        begin_of(old(self).slots(), m as usize),
                    )
                },
            },
    {
        let m = match self.find(model_name) {
            Some(m) => m,
            None => {
                return Err(EstimateError::ModelNotFound(String::from_str(model_name)));
            },
        };
        let slot = self.slots[m];
        if slot.active_requests == u64::MAX {
            return Err(EstimateError::TooManyRequests(String::from_str(model_name)));
        }
        self.slots.set(m, Slot { active_requests: slot.active_requests + 1, ..slot });
        let mut acq = Acquisition {
            model: m,
            phase: Phase::AwaitingGate,
            candidates: Vec::new(),
            scanned: false,
        };
        let action = self.enter(&mut acq);
        Ok((acq, action))
    }

    /// Goes on with an acquisition: takes the answer to the last action,
    /// received at the time `now`, and says what to do next.
    pub fn advance(&mut self, acq: &mut Acquisition, event: Event, now: u64) -> (action: Action)
        requires
            old(self).wf(),
            old(self).knows(old(acq)),
        ensures
            final(self).wf(),
            final(self).models() == old(self).models(),
            final(self).knows(final(acq)),
            final(self).arrived(
                final(acq),
                action,
                step_of(old(self).slots(), old(self).required(), old(acq)@, event, now),
            ),
    {
        let m = acq.model;
        let slot = self.slots[m];
        let phase = acq.phase;
        let n = self.slots.len();
        proof {
            assert(with_slot(self.slots(), m as int, slot) =~= self.slots());
            assert(acq@.phase == phase);
            match phase {
                Phase::ScanningExists(i) => {
                    assert(i < n);
                },
                Phase::ScanningRunning(i) => {
                    assert(i < n);
                },
                Phase::Evicting(i) => {
                    assert(i < n);
                },
                _ => {},
            }
        }
        match phase {
            Phase::AwaitingGate => self.enter(acq),
            Phase::CheckingExists => match event {
                Event::Exists(true) => {
                    let lifecycle = match slot.lifecycle {
                        Lifecycle::Unknown => Lifecycle::Stopped,
                        other => other,
                    };
                    self.go_on(
                        acq,
                        Slot { lifecycle, ..slot },
                        Phase::CheckingRunning,
                        Action::IsRunning(m),
                    )
                },
                Event::Exists(false) => self.go_on(
                    acq,
                    Slot { lifecycle: Lifecycle::Creating, ..slot },
                    Phase::Creating,
                    Action::Create(m),
                ),
                Event::Failed => self.fail(acq, Failure::Host),
                _ => self.fail(acq, Failure::Unexpected),
            },
            Phase::Creating => match event {
                Event::Done => self.go_on(
                    acq,
                    Slot { lifecycle: Lifecycle::Stopped, ..slot },
                    Phase::CheckingRunning,
                    Action::IsRunning(m),
                ),
                Event::Failed => self.fail(acq, Failure::Host),
                _ => self.fail(acq, Failure::Unexpected),
            },
            Phase::CheckingRunning => match event {
                Event::Running(true) => {
                    let seen = Self::seen(slot);
                    self.go_on(acq, seen, Phase::CheckingHealth, Action::IsHealthy(m))
                },
                Event::Running(false) => self.go_on(
                    acq,
                    Slot { lifecycle: Lifecycle::Stopped, ..slot },
                    Phase::Probing,
                    Action::FreeMemory,
                ),
                Event::Failed => self.fail(acq, Failure::Host),
                _ => self.fail(acq, Failure::Unexpected),
            },
            Phase::Probing => match event {
                Event::Free(free) => {
                    if free >= self.models[m].estimated_memory_usage {
                        self.go_on(
                            acq,
                            Slot { lifecycle: Lifecycle::Starting, ..slot },
                            Phase::Starting,
                            Action::Start(m),
                        )
                    } else if !acq.scanned {
                        acq.scanned = true;
                        acq.candidates = Vec::new();
                        self.scan(acq, 0)
                    } else {
                        self.evict(acq)
                    }
                },
                Event::Failed => self.fail(acq, Failure::Host),
                _ => self.fail(acq, Failure::Unexpected),
            },
            Phase::ScanningExists(i) => match event {
                Event::Exists(true) => {
                    acq.phase = Phase::ScanningRunning(i);
                    Action::IsRunning(i)
                },
                Event::Exists(false) => self.scan(acq, i + 1),
                Event::Failed => self.fail(acq, Failure::Host),
                _ => self.fail(acq, Failure::Unexpected),
            },
            Phase::ScanningRunning(i) => match event {
                Event::Running(true) => {
                    let found = self.slots[i];
                    acq.candidates.push(
                        Candidate { model: i, last_used: found.last_used, tried: false },
                    );
                    let seen = Self::seen(found);
                    self.slots.set(i, seen);
                    self.scan(acq, i + 1)
                },
                Event::Running(false) => self.scan(acq, i + 1),
                Event::Failed => self.fail(acq, Failure::Host),
                _ => self.fail(acq, Failure::Unexpected),
            },
            Phase::Evicting(victim) => match event {
                Event::Done => {
                    let stopped = self.slots[victim];
                    self.slots.set(
                        victim,
                        Slot { lifecycle: Lifecycle::Stopped, gate_held: false, ..stopped },
                    );
                    acq.phase = Phase::Probing;
                    Action::FreeMemory
                },
                Event::Failed => self.fail(acq, Failure::Host),
                _ => self.fail(acq, Failure::Unexpected),
            },
            Phase::Starting => match event {
                Event::Done => self.go_on(acq, slot, Phase::CheckingHealth, Action::IsHealthy(m)),
                Event::Failed => self.fail(acq, Failure::Host),
                _ => self.fail(acq, Failure::Unexpected),
            },
            Phase::CheckingHealth => match event {
                Event::Healthy(true) => self.go_on(
                    acq,
                    Slot {
                        lifecycle: Lifecycle::Healthy,
                        last_used: now,
                        gate_held: false,
                        ..slot
                    },
                    Phase::Ready,
                    Action::Ready(m),
                ),
                Event::Healthy(false) => self.go_on(acq, slot, Phase::Sleeping, Action::Sleep),
                Event::Failed => self.fail(acq, Failure::Host),
                _ => self.fail(acq, Failure::Unexpected),
            },
            Phase::Sleeping => match event {
                Event::Done => self.go_on(acq, slot, Phase::CheckingHealth, Action::IsHealthy(m)),
                Event::Failed => self.fail(acq, Failure::Host),
                _ => self.fail(acq, Failure::Unexpected),
            },
            Phase::Ready => Action::Fail(Failure::Finished),
            Phase::Failed => Action::Fail(Failure::Finished),
        }
    }

    /// Gives a lease back: the request no longer holds the model. A lease
    /// on a model that no request holds is refused, and nothing changes.
    pub fn release(&mut self, lease: Lease) -> (released: bool)
        requires
            old(self).wf(),
        ensures
            final(self).wf(),
            final(self).models() == old(self).models(),
            released == holds_request(old(self).slots(), lease.model_index()),
            final(self).slots() == released_of(old(self).slots(), lease.model_index()),
    {
        let m = lease.model;
        if m < self.slots.len() && self.slots[m].active_requests > 0 {
            let slot = self.slots[m];
            self.slots.set(m, Slot { active_requests: slot.active_requests - 1, ..slot });
            true
        } else {
            false
        }
    }

    /// Gives an acquisition up, whatever it has come to: its request no
    /// longer holds the model and its gates are free. The containers stay
    /// as they are.
    pub fn abandon(&mut self, acq: Acquisition)
        requires
            old(self).wf(),
            old(self).knows(&acq),
        ensures
            final(self).wf(),
            final(self).models() == old(self).models(),
            final(self).slots() == abandoned_of(old(self).slots(), acq@),
    {
        let mut acq = acq;
        match acq.phase {
            Phase::Failed => {},
            Phase::Ready => {
                let m = acq.model;
                let slot = self.slots[m];
                if slot.active_requests > 0 {
                    self.slots.set(m, Slot { active_requests: slot.active_requests - 1, ..slot });
                }
            },
            _ => {
                let _ = self.fail(&mut acq, Failure::Finished);
            },
        }
    }

    /// Where the backend of the model at `index` is reached.
    pub fn backend_server(&self, index: usize) -> (server: Option<BackendServer>)
        ensures
            match server {
                Some(s) => index < self.models().len() && s.hostname@ == self.models()[index as int].container_name@
                    + ":8080"@,
                None => index >= self.models().len(),
            },
    {
        if index < self.models.len() {
            Some(
                BackendServer {
                    hostname: self.models[index].container_name.clone().concat(":8080"),
                },
            )
        } else {
            None
        }
    }

    /// Reads the free memory in megabytes from the report of the vendor's
    /// tool; `None` stands for a tool that did not run or failed.
    pub fn get_available_memory(&self, report: Option<&str>) -> (free: u64)
        ensures
            free == available_of(
                field_of(opt_view(report), TOTAL_KEY@),
                field_of(opt_view(report), USED_KEY@),
            ),
    {
        crate::repositories::vram_repository::get_available_memory(report)
    }

    /// Whether the model at `index` fits in `free` megabytes.
    pub fn model_fits(&self, index: usize, free: u64) -> (fits: bool)
        ensures
            fits == (index < self.models().len() && self.required()[index as int] <= free),
    {
        index < self.models.len() && self.models[index].estimated_memory_usage <= free
    }

    /// Whether the model at `index` is taken to need more memory than the
    /// device has in all, so that it can never be started.
    pub fn exceeds_device(&self, index: usize, total: u64) -> (exceeds: bool)
        ensures
            exceeds == (index < self.models().len() && self.required()[index as int] > total),
    {
        index < self.models.len() && self.models[index].estimated_memory_usage > total
    }

    fn seen(slot: Slot) -> (r: Slot)
        ensures
            r == seen_running(slot),
    {
        match slot.lifecycle {
            Lifecycle::Starting | Lifecycle::Healthy => slot,
            _ => Slot { lifecycle: Lifecycle::Starting, ..slot },
        }
    }
}

/// The scheduler's slots, the acquisition and the first action after an
/// acquisition of `model` has begun: the request is counted before anything
/// is asked of anybody.
pub open spec fn begin_of(slots: Seq<Slot>, model: usize) -> Outcome {
    let m = model as int;
    enter_of(
        with_slot(
            slots,
            m,
            Slot { active_requests: (slots[m].active_requests + 1) as u64, ..slots[m] },
        ),
        AcquisitionView {
            model,
            phase: Phase::AwaitingGate,
            candidates: Seq::empty(),
            scanned: false,
        },
    )
}


/// Whether a request holds the model.
pub open spec fn holds_request(slots: Seq<Slot>, model: usize) -> bool {
    model < slots.len() && slots[model as int].active_requests > 0
}

/// The slots after a request has let go of the model.
pub open spec fn released_of(slots: Seq<Slot>, model: usize) -> Seq<Slot> {
    if holds_request(slots, model) {
        slots.update(
            model as int,
            Slot {
                active_requests: (slots[model as int].active_requests - 1) as u64,
                ..slots[model as int]
            },
        )
    } else {
        slots
    }
}

/// The slots after the acquisition was given up.
pub open spec fn abandoned_of(slots: Seq<Slot>, acq: AcquisitionView) -> Seq<Slot> {
    match acq.phase {
        Phase::Failed => slots,
        Phase::Ready => released_of(slots, acq.model),
        _ => fail_of(slots, acq, Failure::Finished).slots,
    }
}

impl Failure {
    /// The error that the caller reports: for want of memory the name of
    /// the model, for every other failure the text of the host's error.
    pub fn into_error(self, model_name: &str, host_error: &str) -> (error: EstimateError)
        ensures
            match self {
                Failure::InsufficientMemory => error matches EstimateError::FreeFailed(name)
                    && name@ == model_name@,
                _ => error matches EstimateError::Docker(text) && text@ == host_error@,
            },
    {
        match self {
            Failure::InsufficientMemory => EstimateError::FreeFailed(String::from_str(model_name)),
            _ => EstimateError::Docker(String::from_str(host_error)),
        }
    }
}

impl EstimateError {
    /// The error in words.
    pub open spec fn message(self) -> Seq<char> {
        match self {
            EstimateError::ModelNotFound(name) => "Model "@ + name@ + " not found"@,
            EstimateError::Docker(text) => "Error from Docker: "@ + text@,
            EstimateError::FreeFailed(name) => "Unable to free enough memory for model: "@ + name@,
            EstimateError::TooManyRequests(name) => "Too many requests for model: "@ + name@,
        }
    }

    /// The error in words.
    pub fn to_string(&self) -> (text: String)
        ensures
            text@ == self.message(),
    {
        match self {
            EstimateError::ModelNotFound(name) => String::from_str("Model ").concat(
                name.as_str(),
            ).concat(" not found"),
            EstimateError::Docker(text) => String::from_str("Error from Docker: ").concat(
                text.as_str(),
            ),
            EstimateError::FreeFailed(name) => String::from_str(
                "Unable to free enough memory for model: ",
            ).concat(name.as_str()),
            EstimateError::TooManyRequests(name) => String::from_str(
                "Too many requests for model: ",
            ).concat(name.as_str()),
        }
    }
}

/// Among the first `upto` candidates, the one picked may be stopped, and no
/// candidate that may be stopped was used before it.
proof fn lemma_pick_among(slots: Seq<Slot>, candidates: Seq<Candidate>, upto: int)
    requires
        0 <= upto <= candidates.len(),
    ensures
        match pick_among(slots, candidates, upto) {
            Some(k) => {
                &&& 0 <= k < upto
                &&& eligible(slots, candidates[k])
                &&& forall|j: int|
                    0 <= j < upto && eligible(slots, #[trigger] candidates[j])
                        ==> candidates[k].last_used <= candidates[j].last_used
            },
            None => forall|j: int| 0 <= j < upto ==> !eligible(slots, #[trigger] candidates[j]),
        },
    decreases upto,
{
    if upto > 0 {
        lemma_pick_among(slots, candidates, upto - 1);
    }
}

/// The victim is the least recently used: the candidate that is picked may
/// be stopped, and it was last used no later than any other candidate that
/// may be stopped. Where none is picked, none may be stopped.
pub proof fn lemma_victim_is_least_recently_used(slots: Seq<Slot>, candidates: Seq<Candidate>)
    ensures
        match pick(slots, candidates) {
            Some(k) => {
                &&& 0 <= k < candidates.len()
                &&& eligible(slots, candidates[k])
                &&& forall|j: int|
                    0 <= j < candidates.len() && eligible(slots, #[trigger] candidates[j])
                        ==> candidates[k].last_used <= candidates[j].last_used
            },
            None => forall|j: int|
                0 <= j < candidates.len() ==> !eligible(slots, #[trigger] candidates[j]),
        },
{
    lemma_pick_among(slots, candidates, candidates.len() as int);
}

/// A model is only ever stopped through the pick among the candidates: the
/// model that a step asks to stop is one that no request holds, that runs
/// as far as the scheduler knows, and whose gate nobody holds; and it is
/// never the model that is being acquired while its request is counted.
pub proof fn lemma_eviction_safety(
    slots: Seq<Slot>,
    required: Seq<u64>,
    acq: AcquisitionView,
    event: Event,
    now: u64,
)
    ensures
        step_of(slots, required, acq, event, now).action matches Action::Stop(victim) ==> {
            &&& victim < slots.len()
            &&& slots[victim as int].active_requests == 0
            &&& !slots[victim as int].gate_held
        },
        forall|model: usize|
            model < slots.len() && slots[model as int].active_requests > 0 ==> step_of(
                slots,
                required,
                acq,
                event,
                now,
            ).action != Action::Stop(model),
{
    let seen = match acq.phase {
        Phase::ScanningRunning(i) => with_slot(slots, i as int, seen_running(slots[i as int])),
        _ => slots,
    };
    let found = match acq.phase {
        Phase::ScanningRunning(i) => acq.candidates.push(
            Candidate { model: i, last_used: slots[i as int].last_used, tried: false },
        ),
        _ => acq.candidates,
    };
    lemma_victim_is_least_recently_used(slots, acq.candidates);
    lemma_victim_is_least_recently_used(seen, found);
    lemma_victim_is_least_recently_used(slots, Seq::<Candidate>::empty());
}

/// A backend is handed out only in answer to the host's word that the
/// model's container is healthy; the model then counts as healthy and as
/// used at that time.
pub proof fn lemma_health_gate(
    slots: Seq<Slot>,
    required: Seq<u64>,
    acq: AcquisitionView,
    event: Event,
    now: u64,
)
    requires
        acq.model < slots.len(),
    ensures
        step_of(slots, required, acq, event, now).action matches Action::Ready(model) ==> {
            &&& model == acq.model
            &&& acq.phase == Phase::CheckingHealth
            &&& event == Event::Healthy(true)
            &&& step_of(slots, required, acq, event, now).acquisition.phase == Phase::Ready
            &&& step_of(slots, required, acq, event, now).slots[model as int].lifecycle
                == Lifecycle::Healthy
            &&& step_of(slots, required, acq, event, now).slots[model as int].last_used == now
        },
{
    lemma_victim_is_least_recently_used(slots, acq.candidates);
}

/// A model is started only in answer to a probe that found enough free
/// memory for it.
pub proof fn lemma_admission(
    slots: Seq<Slot>,
    required: Seq<u64>,
    acq: AcquisitionView,
    event: Event,
    now: u64,
)
    ensures
        step_of(slots, required, acq, event, now).action matches Action::Start(model) ==> {
            &&& model == acq.model
            &&& acq.phase == Phase::Probing
            &&& event matches Event::Free(free) && free >= required[model as int]
        },
{
    lemma_victim_is_least_recently_used(slots, acq.candidates);
}

/// A step leaves the count of requests of every model as it is, but for
/// the model that is being acquired when the acquisition fails: its request
/// is then taken back, and the count never falls below zero.
pub proof fn lemma_requests_counted(
    slots: Seq<Slot>,
    required: Seq<u64>,
    acq: AcquisitionView,
    event: Event,
    now: u64,
)
    requires
        fits(acq, slots.len()),
    ensures
        step_of(slots, required, acq, event, now).slots.len() == slots.len(),
        forall|i: int|
            0 <= i < slots.len() && i != acq.model ==> (#[trigger] step_of(
                slots,
                required,
                acq,
                event,
                now,
            ).slots[i]).active_requests == slots[i].active_requests,
        ({
            let out = step_of(slots, required, acq, event, now);
            let before = slots[acq.model as int].active_requests;
            let after = out.slots[acq.model as int].active_requests;
            if out.action is Fail && !is_over(acq.phase) && before > 0 {
                after == before - 1
            } else {
                after == before
            }
        }),
{
    lemma_victim_is_least_recently_used(slots, acq.candidates);
}


/// What turning to the candidates comes to: a model is asked to be stopped
/// exactly when a candidate is picked, and it is the picked candidate's
/// model, which was last used no later than any other candidate that may be
/// stopped. Where no candidate is picked the acquisition fails for want of
/// memory, and nothing is asked to be stopped.
pub proof fn lemma_eviction_order(slots: Seq<Slot>, acq: AcquisitionView)
    ensures
        match pick(slots, acq.candidates) {
            Some(k) => {
                &&& evict_of(slots, acq).action == Action::Stop(acq.candidates[k].model)
                &&& eligible(slots, acq.candidates[k])
                &&& forall|j: int|
                    0 <= j < acq.candidates.len() && eligible(slots, #[trigger] acq.candidates[j])
                        ==> acq.candidates[k].last_used <= acq.candidates[j].last_used
            },
            None => evict_of(slots, acq).action == Action::Fail(Failure::InsufficientMemory)
                && evict_of(slots, acq).slots == fail_of(
                slots,
                acq,
                Failure::InsufficientMemory,
            ).slots,
        },
{
    lemma_victim_is_least_recently_used(slots, acq.candidates);
}


/// A container is created, started or stopped only by the acquisition that
/// holds its model's gate: creating and starting are asked for the model
/// that is being acquired, while the acquisition holds that gate; stopping
/// is asked for a model whose gate was free and is taken with the same step.
/// And an acquisition that was waiting goes on only where its model's gate
/// was free, and holds it from then on.
pub proof fn lemma_transitions_are_gated(
    slots: Seq<Slot>,
    required: Seq<u64>,
    acq: AcquisitionView,
    event: Event,
    now: u64,
)
    requires
        fits(acq, slots.len()),
    ensures
        ({
            let out = step_of(slots, required, acq, event, now);
            &&& out.action matches Action::Create(model) ==> model == acq.model && holds_gate(
                acq.phase,
            ) && holds_gate(out.acquisition.phase)
            &&& out.action matches Action::Start(model) ==> model == acq.model && holds_gate(
                acq.phase,
            ) && holds_gate(out.acquisition.phase)
            &&& out.action matches Action::Stop(victim) ==> {
                &&& victim < slots.len()
                &&& !slots[victim as int].gate_held
                &&& out.slots[victim as int].gate_held
                &&& out.slots[victim as int].lifecycle == Lifecycle::Stopping
                &&& out.acquisition.phase == Phase::Evicting(victim)
            }
            &&& acq.phase == Phase::AwaitingGate && holds_gate(out.acquisition.phase) ==> {
                &&& !slots[acq.model as int].gate_held
                &&& out.slots[acq.model as int].gate_held
            }
        }),
{
    let seen = match acq.phase {
        Phase::ScanningRunning(i) => with_slot(slots, i as int, seen_running(slots[i as int])),
        _ => slots,
    };
    let found = match acq.phase {
        Phase::ScanningRunning(i) => acq.candidates.push(
            Candidate { model: i, last_used: slots[i as int].last_used, tried: false },
        ),
        _ => acq.candidates,
    };
    lemma_victim_is_least_recently_used(slots, acq.candidates);
    lemma_victim_is_least_recently_used(seen, found);
    lemma_victim_is_least_recently_used(slots, Seq::<Candidate>::empty());
}

} // verus!
