//! Turning a slot into the program and arguments that launch it.

use vstd::prelude::*;
use crate::paths::opt_chars;
use crate::settings::{CommandError, DataType, LauncherSettings, LauncherSlot};
use crate::text::{chars_of, trim_chars, trimmed};

verus! {

/// A program to start with its arguments.
#[derive(Debug)]
pub struct LaunchCommand {
    pub program: String,
    pub args: Vec<String>,
}

/// The characters of each string.
pub open spec fn strings_view(v: Seq<String>) -> Seq<Seq<char>> {
    v.map_values(|s: String| s@)
}

/// `s` is empty once white space is trimmed off.
pub open spec fn is_blank(s: Seq<char>) -> bool {
    trimmed(s).len() == 0
}

/// A dropped argument is passed on unless it is blank.
pub open spec fn dropped_args(dropped: Option<Seq<char>>) -> Seq<Seq<char>> {
    match dropped {
        Some(d) => if is_blank(d) {
            Seq::<Seq<char>>::empty()
        } else {
            seq![d]
        },
        None => Seq::<Seq<char>>::empty(),
    }
}

/// The program that launches `slot`: the explorer for a folder, the
/// command interpreter for a web address or a script, the control panel
/// for a control panel item, the target itself otherwise.
pub open spec fn launch_program_rule(slot: LauncherSlot) -> Seq<char> {
    match slot.data_type {
        DataType::Folder => "explorer"@,
        DataType::Url => "cmd"@,
        DataType::Cpl => "control"@,
        DataType::Script => "cmd"@,
        _ => slot.path@,
    }
}

/// The arguments that launch `slot` with an optional dropped argument: the
/// folder / control panel item itself; `/C start "" <target>` for a web
/// address; `/C <target>` and the dropped argument for a script; for
/// anything else the dropped argument, then the slot's own argument unless
/// it is blank.
pub open spec fn launch_args_rule(slot: LauncherSlot, dropped: Option<Seq<char>>) -> Seq<Seq<char>> {
    match slot.data_type {
        DataType::Folder => seq![slot.path@],
        DataType::Url => seq!["/C"@, "start"@, ""@, slot.path@],
        DataType::Cpl => seq![slot.path@],
        DataType::Script => seq!["/C"@, slot.path@] + dropped_args(dropped),
        _ => dropped_args(dropped) + if is_blank(slot.arg@) {
            Seq::<Seq<char>>::empty()
        } else {
            seq![slot.arg@]
        },
    }
}

/// Whether `s` is blank.
pub fn is_blank_str(s: &str) -> (r: bool)
    ensures
        r == is_blank(s@),
{
    trim_chars(&chars_of(s)).len() == 0
}

/// The command that runs slot `index`, with `dropped_arg` (a path dropped
/// on the slot) as extra argument.  Refused with `SlotMissing` when there is
/// no such slot and with `NothingToExecute` when the slot is empty or its
/// target does not exist.
pub fn slot_execute(settings: &LauncherSettings, index: usize, dropped_arg: Option<String>) -> (r:
    Result<LaunchCommand, CommandError>)
    ensures
        index >= settings.slots@.len() ==> r == Err::<LaunchCommand, CommandError>(
            CommandError::SlotMissing,
        ),
        index < settings.slots@.len() ==> {
            let slot = settings.slots@[index as int];
            if slot.data_type == DataType::Empty || !slot.exist {
                r == Err::<LaunchCommand, CommandError>(CommandError::NothingToExecute)
            } else {
                (r matches Ok(c) && c.program@ == launch_program_rule(slot) && strings_view(c.args@)
                    == launch_args_rule(slot, opt_chars(dropped_arg)))
            }
        },
{
    if index >= settings.slots.len() {
        return Err(CommandError::SlotMissing);
    }
    let slot = &settings.slots[index];
    if slot.data_type == DataType::Empty || !slot.exist {
        return Err(CommandError::NothingToExecute);
    }
    let extra: Option<String> = match dropped_arg {
        Some(v) => if is_blank_str(v.as_str()) {
            None
        } else {
            Some(v)
        },
        None => None,
    };
    let mut args: Vec<String> = Vec::new();
    let program = match slot.data_type {
        DataType::Folder => {
            args.push(slot.path.clone());
            String::from_str("explorer")
        },
        DataType::Url => {
            args.push(String::from_str("/C"));
            args.push(String::from_str("start"));
            args.push(String::from_str(""));
            args.push(slot.path.clone());
            String::from_str("cmd")
        },
        DataType::Cpl => {
            args.push(slot.path.clone());
            String::from_str("control")
        },
        DataType::Script => {
            args.push(String::from_str("/C"));
            args.push(slot.path.clone());
            match extra {
                Some(a) => args.push(a),
                None => {},
            }
            String::from_str("cmd")
        },
        _ => {
            match extra {
                Some(a) => args.push(a),
                None => {},
            }
            if !is_blank_str(slot.arg.as_str()) {
                args.push(slot.arg.clone());
            }
            slot.path.clone()
        },
    };
    proof {
        assert(strings_view(args@) =~= launch_args_rule(*slot, opt_chars(dropped_arg)));
    }
    Ok(LaunchCommand { program, args })
}

/// Law: a slot that is not a folder, a web address, a control panel item or
/// a script is started as its own target.  Its arguments are the dropped
/// argument, when there is one and it is not blank, then the slot's own
/// argument, when that is not blank; nothing else.
pub proof fn lemma_programs_get_dropped_then_own_argument(
    slot: LauncherSlot,
    dropped: Option<Seq<char>>,
)
    requires
        slot.data_type != DataType::Folder,
        slot.data_type != DataType::Url,
        slot.data_type != DataType::Cpl,
        slot.data_type != DataType::Script,
    ensures
        ({
            let args = launch_args_rule(slot, dropped);
            let d_given = dropped is Some && !is_blank(dropped->0);
            let own_given = !is_blank(slot.arg@);
            &&& launch_program_rule(slot) == slot.path@
            &&& args.len() == (if d_given { 1int } else { 0 }) + (if own_given { 1int } else { 0 })
            &&& d_given ==> args[0] == dropped->0
            &&& own_given ==> args.last() == slot.arg@
        }),
{
}

/// Law: a folder or a control panel item is opened with its target as the
/// only argument, and a script runs its target through the command
/// interpreter, followed by the dropped argument only; neither ever gets the
/// slot's own argument as an extra.
pub proof fn lemma_fixed_launchers(slot: LauncherSlot, dropped: Option<Seq<char>>)
    ensures
        (slot.data_type == DataType::Folder || slot.data_type == DataType::Cpl) ==> launch_args_rule(
            slot,
            dropped,
        ) == seq![slot.path@],
        slot.data_type == DataType::Script ==> {
            let args = launch_args_rule(slot, dropped);
            &&& launch_program_rule(slot) == "cmd"@
            &&& args.len() >= 2
            &&& args[1] == slot.path@
            &&& args.len() == 2 || (dropped is Some && args.len() == 3 && args[2] == dropped->0
                && !is_blank(dropped->0))
        },
        slot.data_type == DataType::Url ==> launch_args_rule(slot, dropped).last() == slot.path@,
{
}

} // verus!
