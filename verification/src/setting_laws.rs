//! Laws of the settings: what is asked for, what is configured and what is carried out.

use crate::alerter;
use crate::config::{
    action_in_force, asks_for_change, timeout_in_force, updated_action, updated_timeout, ConfigArgs,
    SawConfig, TimeoutSetting,
};
use crate::tui::{popup_height, popup_margin, sample_step, tick, SampleStep};
use crate::watch::{carried_out, carried_out_on_leak, ScopeLeakAction, StuckAction};
use vstd::prelude::*;

verus! {

/// What the command line asks for outweighs the settings, whatever they are; the settings
/// hold where nothing is asked for.
pub proof fn command_lines_outweigh_the_settings(
    t: TimeoutSetting,
    action: StuckAction,
    config: SawConfig,
)
    ensures
        timeout_in_force(Some(t), config) == t.secs(),
        timeout_in_force(None, config) == config.timeout.secs(),
        action_in_force(Some(action), config) == action,
        action_in_force(None, config) == config.on_stuck,
{
}

/// The config command changes the settings that it names and no others; a reset puts the
/// others back to two minutes and ten seconds and to a warning. The command writes only
/// where it is asked for a change.
pub proof fn settings_change_as_asked(config: SawConfig, args: ConfigArgs)
    ensures
        args.timeout is Some ==> updated_timeout(config, args) == args.timeout->0.secs(),
        args.timeout is None && args.reset ==> updated_timeout(config, args) == 2 * 60 + 10,
        args.timeout is None && !args.reset ==> updated_timeout(config, args)
            == config.timeout.secs(),
        args.on_stuck is Some ==> updated_action(config, args) == args.on_stuck->0,
        args.on_stuck is None && args.reset ==> updated_action(config, args) == StuckAction::Warn,
        args.on_stuck is None && !args.reset ==> updated_action(config, args) == config.on_stuck,
        !asks_for_change(args) <==> !args.reset && args.timeout is None && args.on_stuck is None,
        !asks_for_change(args) ==> updated_timeout(config, args) == config.timeout.secs()
            && updated_action(config, args) == config.on_stuck,
{
}

/// The action that is configured is the one that is carried out.
pub proof fn configured_actions_are_carried_out(action: StuckAction, leak: ScopeLeakAction)
    ensures
        action is Warn <==> carried_out(action) == alerter::StuckAction::Warn,
        action is Bell <==> carried_out(action) == alerter::StuckAction::Bell,
        action is Kill <==> carried_out(action) == alerter::StuckAction::Kill,
        action is CheckpointKill <==> carried_out(action) == alerter::StuckAction::CheckpointKill,
        leak is Warn <==> carried_out_on_leak(leak) == alerter::ScopeLeakAction::Warn,
        leak is Bell <==> carried_out_on_leak(leak) == alerter::ScopeLeakAction::Bell,
        leak is Kill <==> carried_out_on_leak(leak) == alerter::ScopeLeakAction::Kill,
{
}

/// The view is updated as often as asked for, but at most twenty times a second.
pub proof fn views_are_updated_as_asked(refresh: u64)
    ensures
        tick(refresh) * 20 >= 1000,
        tick(refresh) >= refresh,
        refresh * 20 >= 1000 ==> tick(refresh) == refresh,
        refresh * 20 < 1000 ==> tick(refresh) * 20 == 1000,
{
}

/// A dialog has the height that it asks for where that leaves a border of the screen free,
/// but at least three rows, and stands in the middle.
pub proof fn dialogs_stand_in_the_middle(height: u16, area: u16)
    ensures
        popup_height(height, area) >= 3,
        3 <= height && height + 2 <= area ==> popup_height(height, area) == height,
        height + 2 > area && area >= 5 ==> popup_height(height, area) + 2 == area,
        height < 3 || area < 5 ==> popup_height(height, area) == 3,
        height <= area ==> area - height - 1 <= 2 * popup_margin(height, area) <= area - height,
        height > area ==> popup_margin(height, area) == 0,
{
}

/// The readings of a process go on as long as it stays the same, and begin anew with
/// another one.
pub proof fn readings_go_on_with_the_process(before: Option<u32>, p: u32)
    ensures
        sample_step(before, None) == SampleStep::Skip,
        sample_step(Some(p), Some(p)) == SampleStep::Continue(p),
        before != Some(p) ==> sample_step(before, Some(p)) == SampleStep::Restart(p),
{
}

} // verus!
