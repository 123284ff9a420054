use vstd::prelude::*;
use crate::wire::{Action, ActionSpec, acts, push_act};

verus! {

/// Which control-line pulse pattern forces the target into its
/// bootloader: named by the line that carries reset and the level
/// that latches the boot pin.
#[derive(Clone, Copy, PartialEq, Eq, Structural, Debug)]
pub enum BootMode {
    NoAction,
    DtrLowRtsHigh,
    DtrHighRtsHigh,
    DtrHighRtsLow,
    DtrHighOnly,
    RtsLowDtrHigh,
    RtsLowDtrLow,
    RtsLowOnly,
    RtsHighOnly,
}

/// A control-line level.
#[derive(Clone, Copy, PartialEq, Eq, Structural, Debug)]
pub enum Level {
    Low,
    High,
}

/// The default polarity record for the boot and reset lines. The
/// fixed pulse patterns do not consult it; it is kept so callers can
/// carry their configuration through unchanged.
#[derive(Clone, Copy, PartialEq, Eq, Structural, Debug)]
pub struct BootLineConfig {
    pub boot_level: Level,
    pub reset_assert_level: Level,
}

impl Default for BootLineConfig {
    /// Boot latched high, reset asserted low.
    fn default() -> (r: Self)
        ensures
            r.boot_level == Level::High,
            r.reset_assert_level == Level::Low,
    {
        BootLineConfig { boot_level: Level::High, reset_assert_level: Level::Low }
    }
}

/// The fixed pulse pattern of a boot mode: each pattern ends with the
/// target out of reset and the boot pin latched, ready for autobaud.
/// The settle times between edges are hardware-calibrated.
pub open spec fn spec_boot_actions(mode: BootMode) -> Seq<ActionSpec> {
    match mode {
        BootMode::NoAction => Seq::empty(),
        BootMode::DtrLowRtsHigh => seq![
            ActionSpec::SetDtr(true),
            ActionSpec::SetRts(false),
            ActionSpec::Sleep(100),
            ActionSpec::SetRts(true),
            ActionSpec::Sleep(50),
            ActionSpec::SetDtr(false),
            ActionSpec::Sleep(100),
            ActionSpec::SetDtr(true),
            ActionSpec::Sleep(200),
        ],
        BootMode::DtrHighRtsHigh => seq![
            ActionSpec::SetDtr(false),
            ActionSpec::Sleep(100),
            ActionSpec::SetRts(true),
            ActionSpec::Sleep(50),
            ActionSpec::SetDtr(true),
            ActionSpec::Sleep(100),
            ActionSpec::SetDtr(false),
            ActionSpec::Sleep(200),
        ],
        BootMode::DtrHighRtsLow => seq![
            ActionSpec::SetDtr(false),
            ActionSpec::Sleep(100),
            ActionSpec::SetRts(false),
            ActionSpec::Sleep(50),
            ActionSpec::SetDtr(true),
            ActionSpec::Sleep(100),
            ActionSpec::SetDtr(false),
            ActionSpec::Sleep(200),
        ],
        BootMode::DtrHighOnly => seq![
            ActionSpec::SetDtr(false),
            ActionSpec::Sleep(100),
            ActionSpec::SetDtr(true),
            ActionSpec::Sleep(100),
            ActionSpec::SetDtr(false),
            ActionSpec::Sleep(200),
        ],
        BootMode::RtsLowDtrHigh => seq![
            ActionSpec::SetRts(true),
            ActionSpec::Sleep(100),
            ActionSpec::SetDtr(true),
            ActionSpec::Sleep(50),
            ActionSpec::SetRts(false),
            ActionSpec::Sleep(100),
            ActionSpec::SetRts(true),
            ActionSpec::Sleep(200),
        ],
        BootMode::RtsLowDtrLow => seq![
            ActionSpec::SetRts(true),
            ActionSpec::Sleep(100),
            ActionSpec::SetDtr(false),
            ActionSpec::Sleep(50),
            ActionSpec::SetRts(false),
            ActionSpec::Sleep(100),
            ActionSpec::SetRts(true),
            ActionSpec::Sleep(200),
        ],
        BootMode::RtsLowOnly => seq![
            ActionSpec::SetRts(true),
            ActionSpec::Sleep(100),
            ActionSpec::SetRts(false),
            ActionSpec::Sleep(100),
            ActionSpec::SetRts(true),
            ActionSpec::Sleep(200),
        ],
        BootMode::RtsHighOnly => seq![
            ActionSpec::SetRts(false),
            ActionSpec::Sleep(100),
            ActionSpec::SetRts(true),
            ActionSpec::Sleep(100),
            ActionSpec::SetRts(false),
            ActionSpec::Sleep(200),
        ],
    }
}

/// The hardware-reset pulse: boot pin released, then reset pulsed so
/// the target runs whatever is in flash.
pub open spec fn spec_hw_reset_actions() -> Seq<ActionSpec> {
    seq![
        ActionSpec::SetRts(false),
        ActionSpec::Sleep(50),
        ActionSpec::SetDtr(true),
        ActionSpec::Sleep(100),
        ActionSpec::SetDtr(false),
        ActionSpec::Sleep(100),
        ActionSpec::SetDtr(true),
        ActionSpec::Sleep(100),
    ]
}

/// Appends the boot-entry pulse pattern of a mode.
pub fn push_boot_actions(v: &mut Vec<Action>, mode: BootMode)
    ensures
        acts(final(v)@) == acts(old(v)@) + spec_boot_actions(mode),
{
    let ghost a0 = acts(v@);
    match mode {
        BootMode::NoAction => {},
        BootMode::DtrLowRtsHigh => {
            push_act(v, Action::SetDtr(true));
            push_act(v, Action::SetRts(false));
            push_act(v, Action::Sleep(100));
            push_act(v, Action::SetRts(true));
            push_act(v, Action::Sleep(50));
            push_act(v, Action::SetDtr(false));
            push_act(v, Action::Sleep(100));
            push_act(v, Action::SetDtr(true));
            push_act(v, Action::Sleep(200));
        },
        BootMode::DtrHighRtsHigh => {
            push_act(v, Action::SetDtr(false));
            push_act(v, Action::Sleep(100));
            push_act(v, Action::SetRts(true));
            push_act(v, Action::Sleep(50));
            push_act(v, Action::SetDtr(true));
            push_act(v, Action::Sleep(100));
            push_act(v, Action::SetDtr(false));
            push_act(v, Action::Sleep(200));
        },
        BootMode::DtrHighRtsLow => {
            push_act(v, Action::SetDtr(false));
            push_act(v, Action::Sleep(100));
            push_act(v, Action::SetRts(false));
            push_act(v, Action::Sleep(50));
            push_act(v, Action::SetDtr(true));
            push_act(v, Action::Sleep(100));
            push_act(v, Action::SetDtr(false));
            push_act(v, Action::Sleep(200));
        },
        BootMode::DtrHighOnly => {
            push_act(v, Action::SetDtr(false));
            push_act(v, Action::Sleep(100));
            push_act(v, Action::SetDtr(true));
            push_act(v, Action::Sleep(100));
            push_act(v, Action::SetDtr(false));
            push_act(v, Action::Sleep(200));
        },
        BootMode::RtsLowDtrHigh => {
            push_act(v, Action::SetRts(true));
            push_act(v, Action::Sleep(100));
            push_act(v, Action::SetDtr(true));
            push_act(v, Action::Sleep(50));
            push_act(v, Action::SetRts(false));
            push_act(v, Action::Sleep(100));
            push_act(v, Action::SetRts(true));
            push_act(v, Action::Sleep(200));
        },
        BootMode::RtsLowDtrLow => {
            push_act(v, Action::SetRts(true));
            push_act(v, Action::Sleep(100));
            push_act(v, Action::SetDtr(false));
            push_act(v, Action::Sleep(50));
            push_act(v, Action::SetRts(false));
            push_act(v, Action::Sleep(100));
            push_act(v, Action::SetRts(true));
            push_act(v, Action::Sleep(200));
        },
        BootMode::RtsLowOnly => {
            push_act(v, Action::SetRts(true));
            push_act(v, Action::Sleep(100));
            push_act(v, Action::SetRts(false));
            push_act(v, Action::Sleep(100));
            push_act(v, Action::SetRts(true));
            push_act(v, Action::Sleep(200));
        },
        BootMode::RtsHighOnly => {
            push_act(v, Action::SetRts(false));
            push_act(v, Action::Sleep(100));
            push_act(v, Action::SetRts(true));
            push_act(v, Action::Sleep(100));
            push_act(v, Action::SetRts(false));
            push_act(v, Action::Sleep(200));
        },
    }
    proof {
        assert(acts(v@) =~= a0 + spec_boot_actions(mode));
    }
}

/// Builds the boot-entry pulse pattern for a mode. The polarity
/// record is accepted for interface compatibility; the fixed patterns
/// do not consult it.
pub fn apply_boot_mode(mode: BootMode, lines: BootLineConfig) -> (r: Vec<Action>)
    ensures
        acts(r@) == spec_boot_actions(mode),
{
    let _ = lines;
    let mut v: Vec<Action> = Vec::new();
    proof {
        assert(acts(v@) =~= Seq::<ActionSpec>::empty());
    }
    push_boot_actions(&mut v, mode);
    proof {
        assert(acts(v@) =~= spec_boot_actions(mode));
    }
    v
}

/// Appends the hardware-reset pulse.
pub fn push_hw_reset(v: &mut Vec<Action>)
    ensures
        acts(final(v)@) == acts(old(v)@) + spec_hw_reset_actions(),
{
    let ghost a0 = acts(v@);
    push_act(v, Action::SetRts(false));
    push_act(v, Action::Sleep(50));
    push_act(v, Action::SetDtr(true));
    push_act(v, Action::Sleep(100));
    push_act(v, Action::SetDtr(false));
    push_act(v, Action::Sleep(100));
    push_act(v, Action::SetDtr(true));
    push_act(v, Action::Sleep(100));
    proof {
        assert(acts(v@) =~= a0 + spec_hw_reset_actions());
    }
}

} // verus!
