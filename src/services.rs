//! The services polled by the cooperative main loop. Each one decides from
//! its own state and what the loop hands it; the loop performs the hardware
//! work (pins, timer, USB) the decisions call for.
use vstd::prelude::*;
use crate::boot::check_update_trigger;
use crate::service::{
    CommandQueue, Event, EventBus, EventFilter, EVENT_BUS_CAPACITY, COMMAND_QUEUE_DEPTH, retained,
};
use crate::transport::{FrameDecoder, rx_feed};
use crate::update::{
    Device, UpdateState, dispatch_command, reboot_allowed, spec_dispatch, state_wf,
};
use crate::wire::{Command, CommandModel, Response};

verus! {

/// Half the blink period of the status LED, in microseconds.
pub const LED_PERIOD_US: u64 = 500_000;

/// The bus after publishing `e`.
pub open spec fn published(events: Seq<Event>, e: Event) -> Seq<Event> {
    if events.len() < EVENT_BUS_CAPACITY { events.push(e) } else { events }
}

/// Phase of the status LED and when it began.
#[derive(Clone, Copy, Debug, PartialEq, Eq, Structural)]
pub enum LedState {
    On { since_us: u64 },
    Off { since_us: u64 },
}

/// Whether a phase that began at `since` has lasted a full period at `now`.
pub open spec fn period_elapsed(since: u64, now: u64) -> bool {
    now >= since && now - since >= LED_PERIOD_US
}

/// Toggles the status LED every period.
pub struct LedBlinkService {
    state: LedState,
}

impl LedBlinkService {
    pub closed spec fn view(&self) -> LedState {
        self.state
    }

    /// The LED starts off, at time zero.
    pub fn new() -> (r: LedBlinkService)
        ensures
            r.view() == (LedState::Off { since_us: 0 }),
    {
        LedBlinkService { state: LedState::Off { since_us: 0 } }
    }

    /// Advances the blink at time `now_us`; returns the level to drive the
    /// LED to when a period has elapsed, `None` otherwise.
    pub fn process(&mut self, now_us: u64) -> (r: Option<bool>)
        ensures
            match old(self).view() {
                LedState::On { since_us } => if period_elapsed(since_us, now_us) {
                    r == Some(false) && final(self).view() == (LedState::Off { since_us: now_us })
                } else {
                    r is None && final(self).view() == old(self).view()
                },
                LedState::Off { since_us } => if period_elapsed(since_us, now_us) {
                    r == Some(true) && final(self).view() == (LedState::On { since_us: now_us })
                } else {
                    r is None && final(self).view() == old(self).view()
                },
            },
    {
        match self.state {
            LedState::On { since_us } => {
                if now_us >= since_us && now_us - since_us >= LED_PERIOD_US {
                    self.state = LedState::Off { since_us: now_us };
                    Some(false)
                } else {
                    None
                }
            },
            LedState::Off { since_us } => {
                if now_us >= since_us && now_us - since_us >= LED_PERIOD_US {
                    self.state = LedState::On { since_us: now_us };
                    Some(true)
                } else {
                    None
                }
            },
        }
    }
}

/// Decides once, at the first tick, whether to boot or to enter update mode.
pub struct TriggerCheckService {
    checked: bool,
}

impl TriggerCheckService {
    /// Whether the decision was already taken.
    pub closed spec fn checked(&self) -> bool {
        self.checked
    }

    pub fn new() -> (r: TriggerCheckService)
        ensures
            !r.checked(),
    {
        TriggerCheckService { checked: false }
    }

    /// On the first call publishes `RequestUpdate` when the trigger input
    /// reads low and `RequestBoot` otherwise; later calls do nothing.
    pub fn process(&mut self, trigger_low: bool, bus: &mut EventBus)
        ensures
            final(self).checked(),
            old(self).checked() ==> final(bus).view() == old(bus).view(),
            !old(self).checked() ==> final(bus).view() == published(
                old(bus).view(),
                if trigger_low { Event::RequestUpdate } else { Event::RequestBoot },
            ),
    {
        if self.checked {
            return;
        }
        self.checked = true;
        if check_update_trigger(trigger_low) {
            bus.publish(Event::RequestUpdate);
        } else {
            bus.publish(Event::RequestBoot);
        }
    }
}

/// Moves decoded commands from the transport into the command queue.
pub struct UsbTransportService;

/// The command a receive yields: the one held back during a send if any,
/// else the first one completed by `bytes`.
pub open spec fn received(acc: Seq<u8>, pending: Option<CommandModel>, bytes: Seq<u8>) -> Option<
    CommandModel,
> {
    if pending is Some { pending } else { rx_feed(acc, bytes).1 }
}

impl UsbTransportService {
    pub fn new() -> (r: UsbTransportService) {
        UsbTransportService
    }

    /// One tick: takes the command held back during a send, or else feeds the
    /// bytes just read (the caller reads none while one is held), and queues
    /// the command obtained; a full queue drops it. Returns whether a command
    /// was queued.
    pub fn process(&self, decoder: &mut FrameDecoder, bytes: &[u8], queue: &mut CommandQueue) -> (r:
        bool)
        requires
            old(decoder).wf(),
        ensures
            final(decoder).wf(),
            final(decoder).pending() is None,
            old(decoder).pending() is Some ==> final(decoder).acc() == old(decoder).acc(),
            old(decoder).pending() is None ==> final(decoder).acc() == rx_feed(
                old(decoder).acc(),
                bytes@,
            ).0,
            r <==> received(old(decoder).acc(), old(decoder).pending(), bytes@) is Some
                && old(queue).view().len() < COMMAND_QUEUE_DEPTH,
            r ==> final(queue).view() == old(queue).view().push(
                received(old(decoder).acc(), old(decoder).pending(), bytes@)->0,
            ),
            !r ==> final(queue).view() == old(queue).view(),
    {
        match decoder.try_receive(bytes) {
            Some(c) => queue.push_command(c).is_ok(),
            None => false,
        }
    }
}

/// What the update service observed at the start of a tick.
#[derive(Clone, Copy, Debug, PartialEq, Eq, Structural)]
pub enum FsmEvent {
    Tick,
    UpdateRequested,
}

/// Work the update service asks for after a transition.
#[derive(Clone, Copy, Debug, PartialEq, Eq, Structural)]
pub enum FsmAction {
    Nothing,
    InitializeUsb,
    PumpCommandQueue,
}

/// The outcome of one transition.
#[derive(Clone, Copy, Debug, PartialEq, Eq, Structural)]
pub struct FsmStep {
    pub next_state: UpdateState,
    pub action: FsmAction,
}

pub open spec fn spec_transition(state: UpdateState, event: FsmEvent) -> FsmStep {
    match state {
        UpdateState::Standby => match event {
            FsmEvent::UpdateRequested => FsmStep {
                next_state: UpdateState::InitializingUsb,
                action: FsmAction::Nothing,
            },
            FsmEvent::Tick => FsmStep { next_state: UpdateState::Standby, action: FsmAction::Nothing },
        },
        UpdateState::InitializingUsb => FsmStep {
            next_state: UpdateState::InitializingUsb,
            action: FsmAction::InitializeUsb,
        },
        _ => FsmStep { next_state: state, action: FsmAction::PumpCommandQueue },
    }
}

/// The service-level transition: an update request moves `Standby` to
/// `InitializingUsb`; `InitializingUsb` asks for the USB bring-up; `Ready`
/// and `ReceivingData` pump the command queue.
pub fn transition(state: UpdateState, event: FsmEvent) -> (r: FsmStep)
    ensures
        r == spec_transition(state, event),
{
    match state {
        UpdateState::Standby => match event {
            FsmEvent::UpdateRequested => FsmStep {
                next_state: UpdateState::InitializingUsb,
                action: FsmAction::Nothing,
            },
            FsmEvent::Tick => FsmStep { next_state: UpdateState::Standby, action: FsmAction::Nothing },
        },
        UpdateState::InitializingUsb => FsmStep {
            next_state: UpdateState::InitializingUsb,
            action: FsmAction::InitializeUsb,
        },
        _ => FsmStep { next_state: state, action: FsmAction::PumpCommandQueue },
    }
}

/// Whether `events` holds an update request.
pub open spec fn has_update_request(events: Seq<Event>) -> bool {
    exists|i: int| 0 <= i < events.len() && events[i] == Event::RequestUpdate
}

/// Runs the update protocol across ticks.
pub struct UpdateService {
    state: UpdateState,
}

impl UpdateService {
    pub closed spec fn view(&self) -> UpdateState {
        self.state
    }

    pub open spec fn wf(&self) -> bool {
        state_wf(self.view())
    }

    pub fn new() -> (r: UpdateService)
        ensures
            r.view() == UpdateState::Standby,
            r.wf(),
    {
        UpdateService { state: UpdateState::Standby }
    }

    /// The current protocol state.
    pub fn state(&self) -> (r: UpdateState)
        ensures
            r == self.view(),
    {
        self.state
    }

    fn consume_update_request(bus: &mut EventBus) -> (r: bool)
        ensures
            r == has_update_request(old(bus).view()),
            final(bus).view() == retained(old(bus).view(), EventFilter::Only(Event::RequestUpdate)),
    {
        let requested = bus.has_event(EventFilter::Only(Event::RequestUpdate));
        bus.consume(EventFilter::Only(Event::RequestUpdate));
        requested
    }

    fn detect_event(bus: &mut EventBus, state: UpdateState) -> (r: FsmEvent)
        ensures
            state == UpdateState::Standby ==> final(bus).view() == retained(
                old(bus).view(),
                EventFilter::Only(Event::RequestUpdate),
            ) && (r == FsmEvent::UpdateRequested <==> has_update_request(old(bus).view())),
            state != UpdateState::Standby ==> final(bus).view() == old(bus).view() && r
                == FsmEvent::Tick,
    {
        if state == UpdateState::Standby && Self::consume_update_request(bus) {
            FsmEvent::UpdateRequested
        } else {
            FsmEvent::Tick
        }
    }

    /// Starts a tick: in `Standby` takes any update requests off the bus,
    /// applies the transition, and returns the action the caller performs
    /// next (`usb_initialized` after bringing up USB, or
    /// `process_pending_command`).
    pub fn begin_tick(&mut self, bus: &mut EventBus) -> (r: FsmAction)
        requires
            old(self).wf(),
        ensures
            final(self).wf(),
            ({
                let event = if old(self).view() == UpdateState::Standby && has_update_request(
                    old(bus).view(),
                ) {
                    FsmEvent::UpdateRequested
                } else {
                    FsmEvent::Tick
                };
                let step = spec_transition(old(self).view(), event);
                final(self).view() == step.next_state && r == step.action
            }),
            old(self).view() == UpdateState::Standby ==> final(bus).view() == retained(
                old(bus).view(),
                EventFilter::Only(Event::RequestUpdate),
            ),
            old(self).view() != UpdateState::Standby ==> final(bus).view() == old(bus).view(),
    {
        let event = Self::detect_event(bus, self.state);
        let step = transition(self.state, event);
        self.state = step.next_state;
        step.action
    }

    /// Records the outcome of the USB bring-up: `Ready` when the transport
    /// is up, back to `Standby` otherwise.
    pub fn usb_initialized(&mut self, ok: bool)
        requires
            old(self).wf(),
        ensures
            final(self).wf(),
            old(self).view() == UpdateState::InitializingUsb ==> final(self).view() == (if ok {
                UpdateState::Ready
            } else {
                UpdateState::Standby
            }),
            old(self).view() != UpdateState::InitializingUsb ==> final(self).view() == old(
                self,
            ).view(),
    {
        if self.state == UpdateState::InitializingUsb {
            self.state = if ok { UpdateState::Ready } else { UpdateState::Standby };
        }
    }

    /// Takes one command off the queue and runs it. Returns the response
    /// to send and whether the processor is to be reset after sending it
    /// (an accepted `Reboot`), or `None` when the queue is empty.
    pub fn process_pending_command(&mut self, queue: &mut CommandQueue, device: &mut Device) -> (r:
        Option<(Response, bool)>)
        requires
            old(self).wf(),
            old(device).wf(),
        ensures
            final(self).wf(),
            final(device).wf(),
            final(device).bootloader_version == old(device).bootloader_version,
            old(queue).view().len() == 0 ==> r is None && final(queue).view() == old(queue).view()
                && final(self).view() == old(self).view() && *final(device) == *old(device),
            old(queue).view().len() > 0 ==> {
                let cmd = old(queue).view()[0];
                let step = spec_dispatch(
                    old(device).flash.bytes@,
                    old(device).ram@,
                    old(device).bootloader_version,
                    old(self).view(),
                    cmd,
                );
                &&& final(queue).view() == old(queue).view().drop_first()
                &&& match r {
                    Some(out) => final(device).step_of(final(self).view(), out.0) == step && out.1
                        == (cmd == CommandModel::Reboot && reboot_allowed(old(self).view())),
                    None => false,
                }
            },
    {
        match queue.pop_command() {
            None => None,
            Some(cmd) => {
                let reset = match &cmd {
                    Command::Reboot => self.state == UpdateState::Ready || matches!(
                        self.state,
                        UpdateState::ReceivingData { .. }
                    ),
                    _ => false,
                };
                let (next, response) = dispatch_command(device, self.state, cmd);
                self.state = next;
                Some((response, reset))
            },
        }
    }
}

impl Default for UpdateService {
    fn default() -> (r: UpdateService)
        ensures
            r.view() == UpdateState::Standby,
    {
        UpdateService::new()
    }
}

/// Checks the bus for a boot request after the services ran; a request is
/// taken off the bus. Returns whether the boot engine should run.
pub fn take_boot_request(bus: &mut EventBus) -> (r: bool)
    ensures
        r == exists|i: int| 0 <= i < old(bus).view().len() && old(bus).view()[i] == Event::RequestBoot,
        r ==> final(bus).view() == retained(old(bus).view(), EventFilter::Only(Event::RequestBoot)),
        !r ==> final(bus).view() == old(bus).view(),
{
    if bus.has_event(EventFilter::Only(Event::RequestBoot)) {
        bus.consume(EventFilter::Only(Event::RequestBoot));
        true
    } else {
        false
    }
}

} // verus!
