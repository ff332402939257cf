//! Applying a color to the hardware.
//!
//! Two ways of reaching the hardware are served. With the vendor tool,
//! writing a color may disturb the brightness of the keyboard, so one apply
//! operation reads the brightness, writes the color, and writes the
//! brightness back whether or not the color could be written; the
//! [`BrightnessGuard`] decides the order of these exchanges. With a
//! controller server, [`sync_colors`] lays out which lights of which
//! controller get the color.
//!
//! Nothing here touches the hardware: the caller runs the tool or talks to
//! the server, and reports how it went.

use crate::brightness::{BrightnessLevel, BrightnessReading};
use crate::color::{parse_hex_to_color, parsed_color, Color, ColorError};
use vstd::prelude::*;

verus! {

/// How a run of the vendor tool ended.
#[derive(Clone, Copy, Debug, PartialEq, Eq, Structural)]
pub enum ToolExit {
    /// The tool could not be started.
    NotStarted,
    /// The tool ran and left this exit status.
    Status(i32),
}

impl ToolExit {
    /// A run succeeded when the tool ran and left the status zero.
    pub open spec fn succeeded(self) -> bool {
        self == ToolExit::Status(0)
    }

    /// Whether the run succeeded: the tool ran and left the status zero.
    pub fn is_success(&self) -> (ok: bool)
        ensures
            ok == self.succeeded(),
    {
        match self {
            ToolExit::Status(code) => *code == 0,
            ToolExit::NotStarted => false,
        }
    }
}

/// Why a color was not applied.
#[derive(Clone, Copy, Debug, PartialEq, Eq, Structural)]
pub enum ApplyError {
    /// The brightness could not be read, so the color was not written.
    BrightnessRead(ToolExit),
    /// The color could not be written.
    ColorWrite(ToolExit),
}

/// How one apply operation ended.
#[derive(Clone, Copy, Debug, PartialEq, Eq, Structural)]
pub struct ApplyReport {
    /// Why the color was not applied; `None` when it was.
    pub error: Option<ApplyError>,
    /// How writing the brightness back failed; `None` when it did not fail
    /// or was not attempted. A failure here is critical: the brightness of
    /// the keyboard may have drifted and nothing will correct it.
    pub restore_failure: Option<ToolExit>,
    /// The status line named no known level, so medium was written back.
    pub brightness_assumed: bool,
}

impl ApplyReport {
    /// Whether the color was applied.
    pub fn succeeded(&self) -> (ok: bool)
        ensures
            ok == (self.error is None),
    {
        self.error.is_none()
    }
}

/// How far an apply operation has come.
#[derive(Clone, Copy, Debug, PartialEq, Eq, Structural)]
pub enum ApplyStage {
    /// No operation is under way, and no brightness is kept.
    Idle,
    /// The brightness is being read; the color is still to be written.
    Reading(Color),
    /// The color is being written; the brightness read before is kept.
    Writing(BrightnessReading),
    /// The brightness is being written back; how the color write ended, and
    /// whether the brightness was an assumed one, are kept for the report.
    Restoring { write: ToolExit, assumed: bool },
}

/// What has just happened to an apply operation.
#[derive(Clone, Copy, Debug, PartialEq, Eq, Structural)]
pub enum ApplyEvent {
    /// The engine asks for this color to be applied.
    Requested(Color),
    /// The tool was run to read the brightness. The reading is what its
    /// output says, and counts only when the run succeeded.
    BrightnessRead { exit: ToolExit, reading: BrightnessReading },
    /// The tool was run to write the color.
    ColorWritten(ToolExit),
    /// The tool was run to write the brightness back.
    BrightnessRestored(ToolExit),
}

/// What the caller must do next for an apply operation.
#[derive(Clone, Copy, Debug, PartialEq, Eq, Structural)]
pub enum ApplyAction {
    /// Nothing: the event did not belong to the operation.
    Ignore,
    /// Run the tool to read the brightness.
    ReadBrightness,
    /// Run the tool to write this color.
    WriteColor(Color),
    /// Run the tool to set this brightness.
    RestoreBrightness(BrightnessLevel),
    /// The operation is over; this is how it ended.
    Finish(ApplyReport),
}

impl ApplyStage {
    /// The stage after an event, and what is to be done next.
    ///
    /// A failed read ends the operation before the color is written. Once
    /// the color write was attempted, the brightness is written back however
    /// the write ended, and the report names both failures. An event that
    /// does not belong to the stage changes nothing.
    pub open spec fn next(self, event: ApplyEvent) -> (ApplyStage, ApplyAction) {
        match (self, event) {
            (ApplyStage::Idle, ApplyEvent::Requested(color)) => (
                ApplyStage::Reading(color),
                ApplyAction::ReadBrightness,
            ),
            (ApplyStage::Reading(color), ApplyEvent::BrightnessRead { exit, reading }) => {
                if exit.succeeded() {
                    (ApplyStage::Writing(reading), ApplyAction::WriteColor(color))
                } else {
                    (
                        ApplyStage::Idle,
                        ApplyAction::Finish(
                            ApplyReport {
                                error: Some(ApplyError::BrightnessRead(exit)),
                                restore_failure: None,
                                brightness_assumed: false,
                            },
                        ),
                    )
                }
            },
            (ApplyStage::Writing(saved), ApplyEvent::ColorWritten(exit)) => (
                ApplyStage::Restoring { write: exit, assumed: !saved.recognized },
                ApplyAction::RestoreBrightness(saved.level),
            ),
            (ApplyStage::Restoring { write, assumed }, ApplyEvent::BrightnessRestored(exit)) => (
                ApplyStage::Idle,
                ApplyAction::Finish(
                    ApplyReport {
                        error: if write.succeeded() {
                            None
                        } else {
                            Some(ApplyError::ColorWrite(write))
                        },
                        restore_failure: if exit.succeeded() {
                            None
                        } else {
                            Some(exit)
                        },
                        brightness_assumed: assumed,
                    },
                ),
            ),
            _ => (self, ApplyAction::Ignore),
        }
    }
}

/// One apply operation that keeps the keyboard brightness.
pub struct BrightnessGuard {
    stage: ApplyStage,
}

impl View for BrightnessGuard {
    type V = ApplyStage;

    closed spec fn view(&self) -> ApplyStage {
        self.stage
    }
}

impl BrightnessGuard {
    /// A guard with no operation under way.
    pub fn new() -> (guard: Self)
        ensures
            guard@ == ApplyStage::Idle,
    {
        BrightnessGuard { stage: ApplyStage::Idle }
    }

    /// How far the operation has come.
    pub fn stage(&self) -> (stage: ApplyStage)
        ensures
            stage == self@,
    {
        self.stage
    }

    /// Takes in what has just happened and answers with what to do next.
    pub fn step(&mut self, event: ApplyEvent) -> (action: ApplyAction)
        ensures
            (final(self)@, action) == old(self)@.next(event),
    {
        match (self.stage, event) {
            (ApplyStage::Idle, ApplyEvent::Requested(color)) => {
                self.stage = ApplyStage::Reading(color);
                ApplyAction::ReadBrightness
            },
            (ApplyStage::Reading(color), ApplyEvent::BrightnessRead { exit, reading }) => {
                if exit.is_success() {
                    self.stage = ApplyStage::Writing(reading);
                    ApplyAction::WriteColor(color)
                } else {
                    self.stage = ApplyStage::Idle;
                    ApplyAction::Finish(
                        ApplyReport {
                            error: Some(ApplyError::BrightnessRead(exit)),
                            restore_failure: None,
                            brightness_assumed: false,
                        },
                    )
                }
            },
            (ApplyStage::Writing(saved), ApplyEvent::ColorWritten(exit)) => {
                self.stage = ApplyStage::Restoring { write: exit, assumed: !saved.recognized };
                ApplyAction::RestoreBrightness(saved.level)
            },
            (ApplyStage::Restoring { write, assumed }, ApplyEvent::BrightnessRestored(exit)) => {
                self.stage = ApplyStage::Idle;
                let error = if write.is_success() {
                    None
                } else {
                    Some(ApplyError::ColorWrite(write))
                };
                let restore_failure = if exit.is_success() {
                    None
                } else {
                    Some(exit)
                };
                ApplyAction::Finish(ApplyReport { error, restore_failure, brightness_assumed: assumed })
            },
            _ => ApplyAction::Ignore,
        }
    }
}

/// The state of the hardware that an apply operation must not change.
pub struct Hardware {
    pub brightness: BrightnessLevel,
}

/// What is not in the caller's hands during one apply operation.
pub struct Behaviour {
    /// How reading the brightness ends.
    pub read: ToolExit,
    /// How writing the color ends.
    pub write: ToolExit,
    /// The brightness in which an attempt to write the color leaves the
    /// keyboard.
    pub disturbed: BrightnessLevel,
    /// How writing the brightness back ends.
    pub restore: ToolExit,
    /// The brightness in which a failed attempt to write it leaves the
    /// keyboard.
    pub stuck: BrightnessLevel,
}

impl Hardware {
    /// The hardware after it was asked to do something, and the event that
    /// reports it. A read that succeeds reports the brightness as it is. A
    /// brightness write that succeeds sets the brightness.
    pub open spec fn answer(self, action: ApplyAction, behaviour: Behaviour) -> (
        Hardware,
        ApplyEvent,
    )
        recommends
            action is ReadBrightness || action is WriteColor || action is RestoreBrightness,
    {
        match action {
            ApplyAction::WriteColor(_) => (
                Hardware { brightness: behaviour.disturbed },
                ApplyEvent::ColorWritten(behaviour.write),
            ),
            ApplyAction::RestoreBrightness(level) => (
                Hardware {
                    brightness: if behaviour.restore.succeeded() {
                        level
                    } else {
                        behaviour.stuck
                    },
                },
                ApplyEvent::BrightnessRestored(behaviour.restore),
            ),
            _ => (
                self,
                ApplyEvent::BrightnessRead {
                    exit: behaviour.read,
                    reading: BrightnessReading { level: self.brightness, recognized: true },
                },
            ),
        }
    }

    /// Carries an operation on from an action of the guard, for at most
    /// `exchanges` exchanges with the hardware. Gives the hardware as it is
    /// left, and the report if the operation got that far.
    pub open spec fn carry_on(
        self,
        stage: ApplyStage,
        action: ApplyAction,
        behaviour: Behaviour,
        exchanges: nat,
    ) -> (Hardware, Option<ApplyReport>)
        decreases exchanges,
    {
        match action {
            ApplyAction::Finish(report) => (self, Some(report)),
            ApplyAction::Ignore => (self, None),
            _ => {
                if exchanges == 0 {
                    (self, None)
                } else {
                    let (hardware, event) = self.answer(action, behaviour);
                    let (then, asked) = stage.next(event);
                    hardware.carry_on(then, asked, behaviour, (exchanges - 1) as nat)
                }
            },
        }
    }

    /// One whole apply operation, run by the guard against this hardware.
    pub open spec fn apply(self, color: Color, behaviour: Behaviour) -> (
        Hardware,
        Option<ApplyReport>,
    ) {
        let (stage, action) = ApplyStage::Idle.next(ApplyEvent::Requested(color));
        self.carry_on(stage, action, behaviour, 3)
    }

    /// A series of apply operations, one after the other. Gives the hardware
    /// as it is left, and whether writing the brightness back failed in any
    /// of them.
    pub open spec fn apply_all(self, operations: Seq<(Color, Behaviour)>) -> (Hardware, bool)
        decreases operations.len(),
    {
        if operations.len() == 0 {
            (self, false)
        } else {
            let (before, drifted) = self.apply_all(operations.drop_last());
            let (color, behaviour) = operations.last();
            let (after, report) = before.apply(color, behaviour);
            (after, drifted || (report matches Some(r) && r.restore_failure is Some))
        }
    }
}

/// Every apply operation comes to an end within three exchanges, and its
/// report says what happened: the color counts as applied exactly when the
/// brightness was read and the color written; a failed read ends the
/// operation with the hardware untouched; a failure to write the
/// brightness back is reported whether or not the color was written.
pub proof fn lemma_apply_report(hardware: Hardware, color: Color, behaviour: Behaviour)
    ensures
        ({
            let (after, report) = hardware.apply(color, behaviour);
            &&& report == Some(
                ApplyReport {
                    error: if !behaviour.read.succeeded() {
                        Some(ApplyError::BrightnessRead(behaviour.read))
                    } else if !behaviour.write.succeeded() {
                        Some(ApplyError::ColorWrite(behaviour.write))
                    } else {
                        None
                    },
                    restore_failure: if behaviour.read.succeeded()
                        && !behaviour.restore.succeeded() {
                        Some(behaviour.restore)
                    } else {
                        None
                    },
                    brightness_assumed: false,
                },
            )
            &&& !behaviour.read.succeeded() ==> after == hardware
        }),
{
    reveal_with_fuel(Hardware::carry_on, 4);
}

/// An apply operation leaves the brightness as it found it, whether or not
/// the color could be written, unless writing the brightness back failed;
/// and that failure is in the report.
pub proof fn lemma_brightness_invariance(hardware: Hardware, color: Color, behaviour: Behaviour)
    ensures
        ({
            let (after, report) = hardware.apply(color, behaviour);
            &&& report is Some
            &&& after.brightness == hardware.brightness || report->Some_0.restore_failure is Some
        }),
{
    reveal_with_fuel(Hardware::carry_on, 4);
}

/// After any series of apply operations, succeeding or failing, the
/// brightness is the one the series started with, unless writing it back
/// failed in one of them.
pub proof fn lemma_brightness_invariance_over_time(
    hardware: Hardware,
    operations: Seq<(Color, Behaviour)>,
)
    ensures
        ({
            let (after, drifted) = hardware.apply_all(operations);
            after.brightness == hardware.brightness || drifted
        }),
    decreases operations.len(),
{
    if operations.len() > 0 {
        lemma_brightness_invariance_over_time(hardware, operations.drop_last());
        let (before, _) = hardware.apply_all(operations.drop_last());
        let (color, behaviour) = operations.last();
        lemma_brightness_invariance(before, color, behaviour);
    }
}

/// A controller of the server, as far as laying out an update needs it.
#[derive(Clone, Copy, Debug, PartialEq, Eq, Structural)]
pub struct Controller {
    pub id: usize,
    /// The number of lights that the controller can set.
    pub num_leds: usize,
}

/// The colors to set on one controller, one for each of its lights.
#[derive(Debug, PartialEq, Eq)]
pub struct LedUpdate {
    pub controller_id: usize,
    pub colors: Vec<Color>,
}

/// An update of one controller as a mathematical value.
pub struct LedFill {
    pub controller_id: usize,
    pub colors: Seq<Color>,
}

impl View for LedUpdate {
    type V = LedFill;

    open spec fn view(&self) -> LedFill {
        LedFill { controller_id: self.controller_id, colors: self.colors@ }
    }
}

/// What to send to the server.
#[derive(Debug, PartialEq, Eq)]
pub enum SyncPlan {
    /// The server has no controller: nothing to send, worth a warning.
    NoControllers,
    /// No controller has a light: nothing to send, worth a warning.
    NoLeds,
    /// These updates, to be sent as one batch.
    Updates(Vec<LedUpdate>),
}

/// The update that gives every light of a controller the color.
pub open spec fn fill(color: Color, controller: Controller) -> LedFill {
    LedFill {
        controller_id: controller.id,
        colors: Seq::new(controller.num_leds as nat, |i: int| color),
    }
}

/// The updates that show a color on every light: one for each controller
/// that has lights, in the order of the controllers.
pub open spec fn planned_updates(color: Color, controllers: Seq<Controller>) -> Seq<LedFill> {
    controllers.filter(|c: Controller| c.num_leds > 0).map_values(|c: Controller| fill(color, c))
}

/// The updates of a list, each as a mathematical value.
pub open spec fn fills(updates: Seq<LedUpdate>) -> Seq<LedFill> {
    updates.map_values(|u: LedUpdate| u@)
}

/// What is to be sent to show a color on the controllers of a server.
pub open spec fn planned(color: Color, controllers: Seq<Controller>, plan: SyncPlan) -> bool {
    if controllers.len() == 0 {
        plan == SyncPlan::NoControllers
    } else if planned_updates(color, controllers).len() == 0 {
        plan == SyncPlan::NoLeds
    } else {
        plan matches SyncPlan::Updates(updates) && fills(updates@) == planned_updates(
            color,
            controllers,
        )
    }
}

fn uniform(color: Color, count: usize) -> (colors: Vec<Color>)
    ensures
        colors@ == Seq::new(count as nat, |i: int| color),
{
    let mut colors: Vec<Color> = Vec::new();
    let mut i: usize = 0;
    while i < count
        invariant
            i <= count,
            colors@ == Seq::new(i as nat, |j: int| color),
        decreases count - i,
    {
        colors.push(color);
        i = i + 1;
        assert(colors@ =~= Seq::new(i as nat, |j: int| color));
    }
    colors
}

/// Lays out the updates that show a color on every light of the given
/// controllers. A controller without lights is passed over.
pub fn plan_updates(color: Color, controllers: &Vec<Controller>) -> (plan: SyncPlan)
    ensures
        planned(color, controllers@, plan),
{
    if controllers.len() == 0 {
        return SyncPlan::NoControllers;
    }
    let ghost has_leds = |c: Controller| c.num_leds > 0;
    let ghost to_fill = |c: Controller| fill(color, c);
    let mut updates: Vec<LedUpdate> = Vec::new();
    let mut i: usize = 0;
    assert(controllers@.take(0) =~= Seq::<Controller>::empty());
    assert(fills(updates@) =~= controllers@.take(0).filter(has_leds).map_values(to_fill));
    while i < controllers.len()
        invariant
            i <= controllers@.len(),
            has_leds == |c: Controller| c.num_leds > 0,
            to_fill == |c: Controller| fill(color, c),
            fills(updates@) == controllers@.take(i as int).filter(has_leds).map_values(to_fill),
        decreases controllers@.len() - i,
    {
        let controller = controllers[i];
        let ghost before = controllers@.take(i as int);
        let ghost earlier = updates@;
        proof {
            assert(controllers@.take(i + 1) =~= before.push(controller));
            before.lemma_filter_push(controller, has_leds);
        }
        if controller.num_leds > 0 {
            let colors = uniform(color, controller.num_leds);
            updates.push(LedUpdate { controller_id: controller.id, colors });
            proof {
                before.filter(has_leds).lemma_push_map_commute(to_fill, controller);
                assert(fills(updates@) =~= fills(earlier).push(fill(color, controller)));
            }
        }
        i = i + 1;
    }
    assert(controllers@.take(i as int) =~= controllers@);
    assert(fills(updates@).len() == updates@.len());
    if updates.len() == 0 {
        SyncPlan::NoLeds
    } else {
        SyncPlan::Updates(updates)
    }
}

/// Reads a color from its hexadecimal text and lays out the updates that
/// show it on every light of the given controllers.
///
/// A text that denotes no color is refused and nothing is laid out.
pub fn sync_colors(hex: &str, controllers: &Vec<Controller>) -> (res: Result<SyncPlan, ColorError>)
    ensures
        match parsed_color(hex@) {
            Ok(color) => res matches Ok(plan) && planned(color, controllers@, plan),
            Err(e) => res == Err::<SyncPlan, ColorError>(e),
        },
{
    match parse_hex_to_color(hex) {
        Ok(color) => Ok(plan_updates(color, controllers)),
        Err(e) => Err(e),
    }
}

/// Every update of a plan is for a controller that has lights, names that
/// controller, and gives each of its lights the color.
pub proof fn lemma_updates_fill_controllers(color: Color, controllers: Seq<Controller>, k: int)
    requires
        0 <= k < planned_updates(color, controllers).len(),
    ensures
        ({
            let update = planned_updates(color, controllers)[k];
            &&& update.colors.len() > 0
            &&& forall|j: int| 0 <= j < update.colors.len() ==> update.colors[j] == color
            &&& exists|i: int|
                0 <= i < controllers.len() && controllers[i].num_leds > 0 && update == fill(
                    color,
                    #[trigger] controllers[i],
                )
        }),
{
    let has_leds = |c: Controller| c.num_leds > 0;
    let kept = controllers.filter(has_leds);
    controllers.lemma_filter_pred(has_leds, k);
    assert(kept.contains(kept[k]));
    controllers.lemma_filter_contains_rev(has_leds, kept[k]);
    let i = choose|i: int| 0 <= i < controllers.len() && controllers[i] == kept[k];
    assert(controllers[i].num_leds > 0);
}

} // verus!
