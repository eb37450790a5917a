//! The arguments of single Win32 functions, and what their raw results mean.

use vstd::prelude::*;

use crate::protocol::{closed_at, elevation_at, token_at, Call, CallView, Reply};
use crate::script::{outcome, Modeled, Progress, Script};
use crate::text::{decimal, decimal_text};
use crate::wide::{
    buffer_text, from_wide, law_buffer_round_trip, law_utf16_of_a_character, law_utf16_of_parts,
    to_wide, wide,
};

verus! {

/// The target is an NT path.
pub const DDD_RAW_TARGET_PATH: u32 = 1;

/// Undo a definition instead of making one.
pub const DDD_REMOVE_DEFINITION: u32 = 2;

/// Undo it only where the whole target matches.
pub const DDD_EXACT_MATCH_ON_REMOVE: u32 = 4;

/// How many units a buffer for a volume name holds.
pub const VOLUME_NAME_UNITS: usize = 256;

/// How many units a buffer for the target of a DOS device holds.
pub const DOS_TARGET_UNITS: usize = 512;

/// The arguments of `DefineDosDeviceW`.
#[derive(Debug, PartialEq, Eq)]
pub struct DosDevice {
    pub flags: u32,
    pub name: Vec<u16>,
    pub target: Vec<u16>,
}

/// The DOS device of a drive letter: `X:`.
pub open spec fn dos_name(letter: char) -> Seq<char> {
    seq![letter, ':']
}

/// A message about a function that failed with an error code.
pub open spec fn failed_text(what: Seq<char>, code: u32) -> Seq<char> {
    (what + " failed ("@ + decimal(code as nat)).push(')')
}

/// A name between brackets behind the name of the function that takes it.
pub open spec fn call_text(function: Seq<char>, argument: Seq<char>) -> Seq<char> {
    (function + argument).push(')')
}

/// The flags, the name and the target that `DefineDosDeviceW` is given for a letter.
pub open spec fn device_arguments(letter: char, symlink: Seq<char>, remove: bool) -> (
    u32,
    Seq<u16>,
    Seq<u16>,
) {
    let flags = if remove {
        DDD_RAW_TARGET_PATH | DDD_REMOVE_DEFINITION | DDD_EXACT_MATCH_ON_REMOVE
    } else {
        DDD_RAW_TARGET_PATH
    };
    (flags, wide(dos_name(letter)), wide(symlink))
}

/// The target of a DOS device, where something was written to the buffer.
pub open spec fn dos_target(written: u32, buffer: Seq<u16>) -> Option<Seq<char>> {
    if written == 0 {
        None
    } else {
        Some(buffer_text(buffer))
    }
}

/// The volume name at a root, or why there is none.
pub open spec fn name_at_root(root: Seq<char>, ok: i32, code: u32, buffer: Seq<u16>) -> Result<
    Seq<char>,
    Seq<char>,
> {
    if ok == 0 {
        Err(failed_text(call_text("GetVolumeNameForVolumeMountPoint("@, root), code))
    } else {
        Ok(buffer_text(buffer))
    }
}

/// How an entry in the Mount Manager went.
pub open spec fn entry_result(root: Seq<char>, ok: i32, code: u32) -> Result<(), Seq<char>> {
    if ok == 0 {
        Err(failed_text(call_text("SetVolumeMountPoint("@, root), code))
    } else {
        Ok(())
    }
}

/// How taking an entry out of the Mount Manager went.
pub open spec fn removal_result(ok: i32, code: u32) -> Result<(), Seq<char>> {
    if ok == 0 {
        Err(failed_text("DeleteVolumeMountPoint"@, code))
    } else {
        Ok(())
    }
}

/// What `is_process_elevated` does: it opens the token of this process, asks for its elevation and
/// closes it.
pub open spec fn is_process_elevated_script() -> Script<bool> {
    Script::Ask(
        CallView::OpenProcessToken,
        |opened: Reply|
            if opened->Token_ok == 0 {
                Script::Done(false)
            } else {
                Script::Ask(
                    CallView::TokenElevation { handle: opened->Token_handle },
                    |told: Reply|
                        Script::Ask(
                            CallView::CloseHandle { handle: opened->Token_handle },
                            |_closed: Reply|
                                Script::Done(
                                    told->Elevation_ok != 0 && told->Elevation_elevated != 0,
                                ),
                        ),
                )
            },
    )
}

/// The DOS device name of the letter, for a Win32 function.
pub fn wide_dos_name(letter: char) -> (units: Vec<u16>)
    ensures
        units@ == wide(dos_name(letter)),
{
    let mut name = String::new();
    name.push(letter);
    name.push(':');
    assert(name@ == dos_name(letter));
    to_wide(name.as_str())
}

/// The arguments that bind the letter to the target.
pub fn define_dos_device_local(letter: char, symlink: &str) -> (device: DosDevice)
    ensures
        device.flags == DDD_RAW_TARGET_PATH,
        device.flags == 1,
        device.name@ == wide(dos_name(letter)),
        device.target@ == wide(symlink@),
        (device.flags, device.name@, device.target@) == device_arguments(letter, symlink@, false),
{
    DosDevice {
        flags: DDD_RAW_TARGET_PATH,
        name: wide_dos_name(letter),
        target: to_wide(symlink),
    }
}

/// The arguments that undo the binding of the letter to exactly this target.
pub fn define_dos_device_local_remove(letter: char, symlink: &str) -> (device: DosDevice)
    ensures
        device.flags == DDD_RAW_TARGET_PATH | DDD_REMOVE_DEFINITION | DDD_EXACT_MATCH_ON_REMOVE,
        device.flags == 7,
        device.name@ == wide(dos_name(letter)),
        device.target@ == wide(symlink@),
        (device.flags, device.name@, device.target@) == device_arguments(letter, symlink@, true),
{
    assert(DDD_RAW_TARGET_PATH | DDD_REMOVE_DEFINITION | DDD_EXACT_MATCH_ON_REMOVE == 7) by (
    bit_vector);
    DosDevice {
        flags: DDD_RAW_TARGET_PATH | DDD_REMOVE_DEFINITION | DDD_EXACT_MATCH_ON_REMOVE,
        name: wide_dos_name(letter),
        target: to_wide(symlink),
    }
}

/// The target of a DOS device, from what `QueryDosDeviceW` has returned and written; `None` where
/// it wrote nothing.
pub fn query_dos_device(written: u32, target: &Vec<u16>) -> (found: Option<String>)
    ensures
        match found {
            Some(path) => written != 0 && path@ == buffer_text(target@),
            None => written == 0,
        },
        match dos_target(written, target@) {
            Some(path) => found is Some && found->0@ == path,
            None => found is None,
        },
{
    if written == 0 {
        None
    } else {
        Some(from_wide(target))
    }
}

fn failed(what: &str, code: u32) -> (text: String)
    ensures
        text@ == failed_text(what@, code),
{
    let mut text = what.to_owned();
    text.append(" failed (");
    text.append(decimal_text(code as u64).as_str());
    text.push(')');
    text
}

fn called_with(function: &str, argument: &str) -> (text: String)
    ensures
        text@ == call_text(function@, argument@),
{
    let mut text = function.to_owned();
    text.append(argument);
    text.push(')');
    text
}

/// The volume name at the root, from what `GetVolumeNameForVolumeMountPointW` has returned and
/// written; the error code is the last one where it returned zero.
pub fn volume_name_for_mount_point(mount_root: &str, ok: i32, code: u32, name: &Vec<u16>) -> (found:
    Result<String, String>)
    ensures
        found.model() == (if ok == 0 {
            Err(failed_text(call_text("GetVolumeNameForVolumeMountPoint("@, mount_root@), code))
        } else {
            Ok(buffer_text(name@))
        }),
        found.model() == name_at_root(mount_root@, ok, code, name@),
{
    if ok == 0 {
        let what = called_with("GetVolumeNameForVolumeMountPoint(", mount_root);
        return Err(failed(what.as_str(), code));
    }
    Ok(from_wide(name))
}

/// What `SetVolumeMountPointW` has returned; the error code is the last one where that is zero.
pub fn set_volume_mount_point(mount_root: &str, ok: i32, code: u32) -> (done: Result<(), String>)
    ensures
        done.model() == (if ok == 0 {
            Err(failed_text(call_text("SetVolumeMountPoint("@, mount_root@), code))
        } else {
            Ok(())
        }),
        done.model() == entry_result(mount_root@, ok, code),
{
    if ok == 0 {
        let what = called_with("SetVolumeMountPoint(", mount_root);
        Err(failed(what.as_str(), code))
    } else {
        Ok(())
    }
}

/// What `DeleteVolumeMountPointW` has returned; the error code is the last one where that is zero.
pub fn delete_volume_mount_point(ok: i32, code: u32) -> (done: Result<(), String>)
    ensures
        done.model() == (if ok == 0 {
            Err(failed_text("DeleteVolumeMountPoint"@, code))
        } else {
            Ok(())
        }),
        done.model() == removal_result(ok, code),
{
    if ok == 0 {
        Err(failed("DeleteVolumeMountPoint", code))
    } else {
        Ok(())
    }
}

/// Whether this process runs elevated, given the replies to the calls so far. A process whose token
/// cannot be read counts as not elevated.
pub fn is_process_elevated(replies: &[Reply]) -> (progress: Progress<bool>)
    ensures
        progress.outcome() == outcome(is_process_elevated_script(), replies@, 0),
{
    reveal_with_fuel(outcome, 4);
    let (opened, handle) = match token_at(replies, 0) {
        None => return Progress::Ask(Call::OpenProcessToken),
        Some(token) => token,
    };
    if opened == 0 {
        return Progress::Done { value: false, used: 1 };
    }
    match elevation_at(replies, 1) {
        None => Progress::Ask(Call::TokenElevation { handle }),
        Some((ok, elevated)) => {
            if closed_at(replies, 2) {
                Progress::Done { value: ok != 0 && elevated != 0, used: 3 }
            } else {
                Progress::Ask(Call::CloseHandle { handle })
            }
        },
    }
}

/// The DOS device of a drive is the letter itself and a colon, closed by a zero unit for the
/// system.
pub proof fn law_the_device_of_a_letter(letter: char)
    ensures
        dos_name(letter).len() == 2,
        dos_name(letter)[0] == letter,
        dos_name(letter)[1] == ':',
        letter as int <= 0xFFFF ==> wide(dos_name(letter)) == seq![letter as u16, 58, 0],
{
    if letter as int <= 0xFFFF {
        law_utf16_of_a_character(letter);
        law_utf16_of_a_character(':');
        law_utf16_of_parts(seq![letter], seq![':']);
        assert(seq![letter] + seq![':'] == dos_name(letter));
        assert(wide(dos_name(letter)) == seq![letter as u16, 58, 0]);
    }
}

/// What is said of a function that has failed: what was called, with its argument in brackets where
/// it is named, and the error code in brackets.
pub proof fn law_a_failure_names_the_code(what: Seq<char>, argument: Seq<char>, code: u32)
    ensures
        failed_text(what, code) == what + " failed ("@ + decimal(code as nat) + seq![')'],
        call_text(what, argument) == what + argument + seq![')'],
{
}

/// The flags of a DOS device definition are three different bits, and the buffers hold 256 units
/// for a volume name and 512 for a target.
pub proof fn law_the_constants_of_the_system()
    ensures
        DDD_RAW_TARGET_PATH == 1,
        DDD_REMOVE_DEFINITION == 2,
        DDD_EXACT_MATCH_ON_REMOVE == 4,
        VOLUME_NAME_UNITS == 256,
        DOS_TARGET_UNITS == 512,
{
}

/// A definition and its removal are given the same name and the same target, and differ in their
/// flags: 1 for the one, 7 for the other. The system reads the letter and the target back from
/// them.
pub proof fn law_a_removal_names_what_was_defined(letter: char, symlink: Seq<char>)
    requires
        letter != '\0',
        !symlink.contains('\0'),
    ensures
        ({
            let (define, name, target) = device_arguments(letter, symlink, false);
            let (remove, same_name, same_target) = device_arguments(letter, symlink, true);
            &&& define == 1
            &&& remove == 7
            &&& same_name == name
            &&& same_target == target
            &&& buffer_text(name) == seq![letter, ':']
            &&& buffer_text(target) == symlink
            &&& name.last() == 0
            &&& target.last() == 0
        }),
{
    assert(DDD_RAW_TARGET_PATH | DDD_REMOVE_DEFINITION | DDD_EXACT_MATCH_ON_REMOVE == 7) by (
    bit_vector);
    let none = Seq::<u16>::empty();
    let name = seq![letter, ':'];
    assert(!name.contains('\0'));
    law_buffer_round_trip(name, none);
    law_buffer_round_trip(symlink, none);
    assert(wide(name) + none == wide(name));
    assert(wide(symlink) + none == wide(symlink));
}

/// A letter is bound exactly where something was written for it; the target is then the text that
/// the system has put into the buffer.
pub proof fn law_a_target_is_what_was_written(written: u32, target: Seq<char>, tail: Seq<u16>)
    requires
        !target.contains('\0'),
    ensures
        dos_target(0, wide(target) + tail) is None,
        written != 0 ==> dos_target(written, wide(target) + tail) == Some(target),
{
    law_buffer_round_trip(target, tail);
}

/// A function of the Mount Manager has failed exactly where it has returned zero; the error then
/// names the function, the root where it takes one, and the error code. Where it has not failed, a
/// volume name is the text that the system has put into the buffer.
pub proof fn law_zero_is_a_failure(
    root: Seq<char>,
    ok: i32,
    code: u32,
    name: Seq<char>,
    tail: Seq<u16>,
)
    requires
        !name.contains('\0'),
    ensures
        name_at_root(root, 0, code, wide(name) + tail) == Err::<Seq<char>, Seq<char>>(
            "GetVolumeNameForVolumeMountPoint("@ + root + seq![')'] + " failed ("@ + decimal(
                code as nat,
            ) + seq![')'],
        ),
        entry_result(root, 0, code) == Err::<(), Seq<char>>(
            "SetVolumeMountPoint("@ + root + seq![')'] + " failed ("@ + decimal(code as nat)
                + seq![')'],
        ),
        removal_result(0, code) == Err::<(), Seq<char>>(
            "DeleteVolumeMountPoint"@ + " failed ("@ + decimal(code as nat) + seq![')'],
        ),
        ok != 0 ==> name_at_root(root, ok, code, wide(name) + tail) == Ok::<Seq<char>, Seq<char>>(
            name,
        ),
        ok != 0 ==> entry_result(root, ok, code) is Ok,
        ok != 0 ==> removal_result(ok, code) is Ok,
{
    law_buffer_round_trip(name, tail);
    assert forall|text: Seq<char>| text + seq![')'] == #[trigger] text.push(')') by {}
}

} // verus!
