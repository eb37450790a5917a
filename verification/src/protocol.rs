//! The calls that an operation has its caller make, and the replies that the caller hands back.
//!
//! An operation of this library makes no system call itself. From the replies so far it says which
//! call comes next, or how it ended. Its caller makes the call, puts the reply behind the others
//! and asks again.

use vstd::prelude::*;

verus! {

/// What the drive service says of one drive letter.
#[derive(Debug)]
pub struct DriveQuery {
    pub result: bool,
    pub symlink: String,
}

/// A call to the system, or to one of the services around it.
#[derive(Debug, PartialEq, Eq)]
pub enum Call {
    /// The bit mask of the drive letters in use; answered by [`Reply::Mask`].
    LogicalDrives,
    /// Whether this process runs elevated; answered by [`Reply::Flag`].
    IsProcessElevated,
    /// Bind the letter to the target from this process; answered by [`Reply::Flag`].
    DefineLocal { letter: char, target: String },
    /// Undo the binding of the letter to exactly this target from this process; answered by
    /// [`Reply::Flag`].
    RemoveLocal { letter: char, target: String },
    /// The target that the letter is bound to; answered by [`Reply::Target`].
    QueryDosDevice { letter: char },
    /// The name of the volume that is mounted at the root; answered by [`Reply::Name`].
    VolumeName { mount_root: String },
    /// Enter the volume in the Mount Manager under the root; answered by [`Reply::Status`].
    SetMountPoint { mount_root: String, volume_name: String },
    /// Take the root out of the Mount Manager; answered by [`Reply::Status`].
    DeleteMountPoint { mount_root: String },
    /// The letters that the Mount Manager holds for the volume; answered by [`Reply::Letters`].
    MountManagerLetters { volume_name: String },
    /// Write the letter to the Session Manager's DOS devices; answered by [`Reply::Status`].
    SetRegistry { letter: char, target: String },
    /// Take the letter out of the Session Manager's DOS devices; answered by [`Reply::Status`].
    ClearRegistry { letter: char },
    /// The letters that the Session Manager's DOS devices bind to the device; answered by
    /// [`Reply::Letters`].
    RegistryLetters { device: String },
    /// Write the automount entry of the volume; answered by [`Reply::Status`].
    StoreAutomount { uuid: [u8; 16], letter: char, codepage: String, readonly: bool },
    /// The letter in the automount entry of the volume; answered by [`Reply::Letter`].
    AutomountLetter { uuid: [u8; 16] },
    /// The text of the volume UUID; answered by [`Reply::Text`].
    FormatUuid { uuid: [u8; 16] },
    /// Have the drive service bind the letter; answered by [`Reply::Service`].
    ServiceDefine { drive: u8, target: String },
    /// Have the drive service undo the binding of the letter; answered by [`Reply::Service`].
    ServiceRemove { drive: u8, target: String },
    /// What the drive service knows of the letter; answered by [`Reply::Drive`].
    ServiceQuery { drive: u8 },
    /// Open the volume at the path with this access, shared for reading and writing; answered by
    /// [`Reply::Opened`].
    OpenVolume { path: String, access: u32 },
    /// Write out what is buffered behind the handle; answered by [`Reply::Flushed`].
    FlushBuffers { handle: isize },
    /// Open the token of this process for queries; answered by [`Reply::Token`].
    OpenProcessToken,
    /// The elevation of the token; answered by [`Reply::Elevation`].
    TokenElevation { handle: isize },
    /// Close the handle; answered by [`Reply::Closed`].
    CloseHandle { handle: isize },
}

/// The mathematical counterpart of [`Call`].
pub enum CallView {
    LogicalDrives,
    IsProcessElevated,
    DefineLocal { letter: char, target: Seq<char> },
    RemoveLocal { letter: char, target: Seq<char> },
    QueryDosDevice { letter: char },
    VolumeName { mount_root: Seq<char> },
    SetMountPoint { mount_root: Seq<char>, volume_name: Seq<char> },
    DeleteMountPoint { mount_root: Seq<char> },
    MountManagerLetters { volume_name: Seq<char> },
    SetRegistry { letter: char, target: Seq<char> },
    ClearRegistry { letter: char },
    RegistryLetters { device: Seq<char> },
    StoreAutomount { uuid: [u8; 16], letter: char, codepage: Seq<char>, readonly: bool },
    AutomountLetter { uuid: [u8; 16] },
    FormatUuid { uuid: [u8; 16] },
    ServiceDefine { drive: u8, target: Seq<char> },
    ServiceRemove { drive: u8, target: Seq<char> },
    ServiceQuery { drive: u8 },
    OpenVolume { path: Seq<char>, access: u32 },
    FlushBuffers { handle: isize },
    OpenProcessToken,
    TokenElevation { handle: isize },
    CloseHandle { handle: isize },
}

/// The answer to a [`Call`].
#[derive(Debug)]
pub enum Reply {
    /// A bit for each drive letter in use, from the lowest bit for `A` on.
    Mask(u32),
    /// Yes or no.
    Flag(bool),
    /// A device path; `None` where the letter is not bound.
    Target(Option<String>),
    /// A volume name, or why there is none.
    Name(Result<String, String>),
    /// Done, or why not.
    Status(Result<(), String>),
    /// A drive letter, where there is one.
    Letter(Option<char>),
    /// Drive letters.
    Letters(Vec<char>),
    /// A text.
    Text(String),
    /// Whether the drive service did it; an error where the service was not reached.
    Service(Result<bool, String>),
    /// What the drive service said, `None` where it failed on the query; an error where the
    /// service was not reached.
    Drive(Result<Option<DriveQuery>, String>),
    /// The handle, and the last error code where the handle is not valid.
    Opened { handle: isize, code: u32 },
    /// Non-zero on success, and the last error code.
    Flushed { ok: i32, code: u32 },
    /// Non-zero on success, and the token.
    Token { ok: i32, handle: isize },
    /// Non-zero on success, and the elevation, non-zero for an elevated token.
    Elevation { ok: i32, elevated: u32 },
    /// The handle is closed.
    Closed,
}

impl View for Call {
    type V = CallView;

    open spec fn view(&self) -> CallView {
        match *self {
            Call::LogicalDrives => CallView::LogicalDrives,
            Call::IsProcessElevated => CallView::IsProcessElevated,
            Call::DefineLocal { letter, target } => CallView::DefineLocal {
                letter,
                target: target@,
            },
            Call::RemoveLocal { letter, target } => CallView::RemoveLocal {
                letter,
                target: target@,
            },
            Call::QueryDosDevice { letter } => CallView::QueryDosDevice { letter },
            Call::VolumeName { mount_root } => CallView::VolumeName { mount_root: mount_root@ },
            Call::SetMountPoint { mount_root, volume_name } => CallView::SetMountPoint {
                mount_root: mount_root@,
                volume_name: volume_name@,
            },
            Call::DeleteMountPoint { mount_root } => CallView::DeleteMountPoint {
                mount_root: mount_root@,
            },
            Call::MountManagerLetters { volume_name } => CallView::MountManagerLetters {
                volume_name: volume_name@,
            },
            Call::SetRegistry { letter, target } => CallView::SetRegistry {
                letter,
                target: target@,
            },
            Call::ClearRegistry { letter } => CallView::ClearRegistry { letter },
            Call::RegistryLetters { device } => CallView::RegistryLetters { device: device@ },
            Call::StoreAutomount { uuid, letter, codepage, readonly } => CallView::StoreAutomount {
                uuid,
                letter,
                codepage: codepage@,
                readonly,
            },
            Call::AutomountLetter { uuid } => CallView::AutomountLetter { uuid },
            Call::FormatUuid { uuid } => CallView::FormatUuid { uuid },
            Call::ServiceDefine { drive, target } => CallView::ServiceDefine {
                drive,
                target: target@,
            },
            Call::ServiceRemove { drive, target } => CallView::ServiceRemove {
                drive,
                target: target@,
            },
            Call::ServiceQuery { drive } => CallView::ServiceQuery { drive },
            Call::OpenVolume { path, access } => CallView::OpenVolume { path: path@, access },
            Call::FlushBuffers { handle } => CallView::FlushBuffers { handle },
            Call::OpenProcessToken => CallView::OpenProcessToken,
            Call::TokenElevation { handle } => CallView::TokenElevation { handle },
            Call::CloseHandle { handle } => CallView::CloseHandle { handle },
        }
    }
}

impl CallView {
    /// Whether the reply is of the kind that answers the call.
    pub open spec fn fits(self, reply: Reply) -> bool {
        match self {
            CallView::LogicalDrives => reply is Mask,
            CallView::IsProcessElevated => reply is Flag,
            CallView::DefineLocal { .. } => reply is Flag,
            CallView::RemoveLocal { .. } => reply is Flag,
            CallView::QueryDosDevice { .. } => reply is Target,
            CallView::VolumeName { .. } => reply is Name,
            CallView::SetMountPoint { .. } => reply is Status,
            CallView::DeleteMountPoint { .. } => reply is Status,
            CallView::MountManagerLetters { .. } => reply is Letters,
            CallView::SetRegistry { .. } => reply is Status,
            CallView::ClearRegistry { .. } => reply is Status,
            CallView::RegistryLetters { .. } => reply is Letters,
            CallView::StoreAutomount { .. } => reply is Status,
            CallView::AutomountLetter { .. } => reply is Letter,
            CallView::FormatUuid { .. } => reply is Text,
            CallView::ServiceDefine { .. } => reply is Service,
            CallView::ServiceRemove { .. } => reply is Service,
            CallView::ServiceQuery { .. } => reply is Drive,
            CallView::OpenVolume { .. } => reply is Opened,
            CallView::FlushBuffers { .. } => reply is Flushed,
            CallView::OpenProcessToken => reply is Token,
            CallView::TokenElevation { .. } => reply is Elevation,
            CallView::CloseHandle { .. } => reply is Closed,
        }
    }
}

/// The [`Reply::Mask`] at this position, if one stands there.
pub(crate) fn mask_at(replies: &[Reply], at: usize) -> (found: Option<u32>)
    ensures
        replies@.len() <= usize::MAX,
        found is Some <==> at < replies@.len() && replies@[at as int] is Mask,
        found is Some ==> found->0 == replies@[at as int]->Mask_0,
{
    if at < replies.len() {
        if let Reply::Mask(value) = &replies[at] {
            return Some(*value);
        }
    }
    None
}

/// The [`Reply::Flag`] at this position, if one stands there.
pub(crate) fn flag_at(replies: &[Reply], at: usize) -> (found: Option<bool>)
    ensures
        replies@.len() <= usize::MAX,
        found is Some <==> at < replies@.len() && replies@[at as int] is Flag,
        found is Some ==> found->0 == replies@[at as int]->Flag_0,
{
    if at < replies.len() {
        if let Reply::Flag(value) = &replies[at] {
            return Some(*value);
        }
    }
    None
}

/// The [`Reply::Letter`] at this position, if one stands there.
pub(crate) fn letter_at(replies: &[Reply], at: usize) -> (found: Option<Option<char>>)
    ensures
        replies@.len() <= usize::MAX,
        found is Some <==> at < replies@.len() && replies@[at as int] is Letter,
        found is Some ==> found->0 == replies@[at as int]->Letter_0,
{
    if at < replies.len() {
        if let Reply::Letter(value) = &replies[at] {
            return Some(*value);
        }
    }
    None
}

/// The [`Reply::Target`] at this position, if one stands there.
pub(crate) fn target_at(replies: &[Reply], at: usize) -> (found: Option<&Option<String>>)
    ensures
        replies@.len() <= usize::MAX,
        found is Some <==> at < replies@.len() && replies@[at as int] is Target,
        found is Some ==> *found->0 == replies@[at as int]->Target_0,
{
    if at < replies.len() {
        if let Reply::Target(value) = &replies[at] {
            return Some(value);
        }
    }
    None
}

/// The [`Reply::Name`] at this position, if one stands there.
pub(crate) fn name_at(replies: &[Reply], at: usize) -> (found: Option<&Result<String, String>>)
    ensures
        replies@.len() <= usize::MAX,
        found is Some <==> at < replies@.len() && replies@[at as int] is Name,
        found is Some ==> *found->0 == replies@[at as int]->Name_0,
{
    if at < replies.len() {
        if let Reply::Name(value) = &replies[at] {
            return Some(value);
        }
    }
    None
}

/// The [`Reply::Status`] at this position, if one stands there.
pub(crate) fn status_at(replies: &[Reply], at: usize) -> (found: Option<&Result<(), String>>)
    ensures
        replies@.len() <= usize::MAX,
        found is Some <==> at < replies@.len() && replies@[at as int] is Status,
        found is Some ==> *found->0 == replies@[at as int]->Status_0,
{
    if at < replies.len() {
        if let Reply::Status(value) = &replies[at] {
            return Some(value);
        }
    }
    None
}

/// The [`Reply::Letters`] at this position, if one stands there.
pub(crate) fn letters_at(replies: &[Reply], at: usize) -> (found: Option<&Vec<char>>)
    ensures
        replies@.len() <= usize::MAX,
        found is Some <==> at < replies@.len() && replies@[at as int] is Letters,
        found is Some ==> *found->0 == replies@[at as int]->Letters_0,
{
    if at < replies.len() {
        if let Reply::Letters(value) = &replies[at] {
            return Some(value);
        }
    }
    None
}

/// The [`Reply::Text`] at this position, if one stands there.
pub(crate) fn text_at(replies: &[Reply], at: usize) -> (found: Option<&String>)
    ensures
        replies@.len() <= usize::MAX,
        found is Some <==> at < replies@.len() && replies@[at as int] is Text,
        found is Some ==> *found->0 == replies@[at as int]->Text_0,
{
    if at < replies.len() {
        if let Reply::Text(value) = &replies[at] {
            return Some(value);
        }
    }
    None
}

/// The [`Reply::Service`] at this position, if one stands there.
pub(crate) fn service_at(replies: &[Reply], at: usize) -> (found: Option<&Result<bool, String>>)
    ensures
        replies@.len() <= usize::MAX,
        found is Some <==> at < replies@.len() && replies@[at as int] is Service,
        found is Some ==> *found->0 == replies@[at as int]->Service_0,
{
    if at < replies.len() {
        if let Reply::Service(value) = &replies[at] {
            return Some(value);
        }
    }
    None
}

/// The [`Reply::Drive`] at this position, if one stands there.
pub(crate) fn drive_at(replies: &[Reply], at: usize) -> (found: Option<
    &Result<Option<DriveQuery>, String>,
>)
    ensures
        replies@.len() <= usize::MAX,
        found is Some <==> at < replies@.len() && replies@[at as int] is Drive,
        found is Some ==> *found->0 == replies@[at as int]->Drive_0,
{
    if at < replies.len() {
        if let Reply::Drive(value) = &replies[at] {
            return Some(value);
        }
    }
    None
}

/// The [`Reply::Opened`] at this position, if one stands there.
pub(crate) fn opened_at(replies: &[Reply], at: usize) -> (found: Option<(isize, u32)>)
    ensures
        replies@.len() <= usize::MAX,
        found is Some <==> at < replies@.len() && replies@[at as int] is Opened,
        found is Some ==> found == Some(
            (replies@[at as int]->Opened_handle, replies@[at as int]->Opened_code),
        ),
{
    if at < replies.len() {
        if let Reply::Opened { handle, code } = &replies[at] {
            return Some((*handle, *code));
        }
    }
    None
}

/// The [`Reply::Flushed`] at this position, if one stands there.
pub(crate) fn flushed_at(replies: &[Reply], at: usize) -> (found: Option<(i32, u32)>)
    ensures
        replies@.len() <= usize::MAX,
        found is Some <==> at < replies@.len() && replies@[at as int] is Flushed,
        found is Some ==> found == Some(
            (replies@[at as int]->Flushed_ok, replies@[at as int]->Flushed_code),
        ),
{
    if at < replies.len() {
        if let Reply::Flushed { ok, code } = &replies[at] {
            return Some((*ok, *code));
        }
    }
    None
}

/// The [`Reply::Token`] at this position, if one stands there.
pub(crate) fn token_at(replies: &[Reply], at: usize) -> (found: Option<(i32, isize)>)
    ensures
        replies@.len() <= usize::MAX,
        found is Some <==> at < replies@.len() && replies@[at as int] is Token,
        found is Some ==> found == Some(
            (replies@[at as int]->Token_ok, replies@[at as int]->Token_handle),
        ),
{
    if at < replies.len() {
        if let Reply::Token { ok, handle } = &replies[at] {
            return Some((*ok, *handle));
        }
    }
    None
}

/// The [`Reply::Elevation`] at this position, if one stands there.
pub(crate) fn elevation_at(replies: &[Reply], at: usize) -> (found: Option<(i32, u32)>)
    ensures
        replies@.len() <= usize::MAX,
        found is Some <==> at < replies@.len() && replies@[at as int] is Elevation,
        found is Some ==> found == Some(
            (replies@[at as int]->Elevation_ok, replies@[at as int]->Elevation_elevated),
        ),
{
    if at < replies.len() {
        if let Reply::Elevation { ok, elevated } = &replies[at] {
            return Some((*ok, *elevated));
        }
    }
    None
}

/// Whether a [`Reply::Closed`] stands at this position.
pub(crate) fn closed_at(replies: &[Reply], at: usize) -> (found: bool)
    ensures
        replies@.len() <= usize::MAX,
        found == (at < replies@.len() && replies@[at as int] is Closed),
{
    if at < replies.len() {
        if let Reply::Closed = &replies[at] {
            return true;
        }
    }
    false
}

/// A call is seen as what it is: with the same letters, numbers and flags, and with the characters
/// of its texts.
pub proof fn law_a_call_is_seen_as_it_is(call: Call)
    ensures
        match call {
            Call::LogicalDrives => call@ is LogicalDrives,
            Call::IsProcessElevated => call@ is IsProcessElevated,
            Call::DefineLocal { letter, target } => call@ == (CallView::DefineLocal {
                letter,
                target: target@,
            }),
            Call::RemoveLocal { letter, target } => call@ == (CallView::RemoveLocal {
                letter,
                target: target@,
            }),
            Call::QueryDosDevice { letter } => call@ == (CallView::QueryDosDevice { letter }),
            Call::VolumeName { mount_root } => call@ == (CallView::VolumeName {
                mount_root: mount_root@,
            }),
            Call::SetMountPoint { mount_root, volume_name } => call@ == (CallView::SetMountPoint {
                mount_root: mount_root@,
                volume_name: volume_name@,
            }),
            Call::DeleteMountPoint { mount_root } => call@ == (CallView::DeleteMountPoint {
                mount_root: mount_root@,
            }),
            Call::MountManagerLetters { volume_name } => call@ == (CallView::MountManagerLetters {
                volume_name: volume_name@,
            }),
            Call::SetRegistry { letter, target } => call@ == (CallView::SetRegistry {
                letter,
                target: target@,
            }),
            Call::ClearRegistry { letter } => call@ == (CallView::ClearRegistry { letter }),
            Call::RegistryLetters { device } => call@ == (CallView::RegistryLetters {
                device: device@,
            }),
            Call::StoreAutomount { uuid, letter, codepage, readonly } => call@ == (
            CallView::StoreAutomount { uuid, letter, codepage: codepage@, readonly }),
            Call::AutomountLetter { uuid } => call@ == (CallView::AutomountLetter { uuid }),
            Call::FormatUuid { uuid } => call@ == (CallView::FormatUuid { uuid }),
            Call::ServiceDefine { drive, target } => call@ == (CallView::ServiceDefine {
                drive,
                target: target@,
            }),
            Call::ServiceRemove { drive, target } => call@ == (CallView::ServiceRemove {
                drive,
                target: target@,
            }),
            Call::ServiceQuery { drive } => call@ == (CallView::ServiceQuery { drive }),
            Call::OpenVolume { path, access } => call@ == (CallView::OpenVolume {
                path: path@,
                access,
            }),
            Call::FlushBuffers { handle } => call@ == (CallView::FlushBuffers { handle }),
            Call::OpenProcessToken => call@ is OpenProcessToken,
            Call::TokenElevation { handle } => call@ == (CallView::TokenElevation { handle }),
            Call::CloseHandle { handle } => call@ == (CallView::CloseHandle { handle }),
        },
{
}

/// Each reply answers calls of its own kind only: a mask the question for the drives in use, a yes
/// or no the question for elevation and the two calls that change a binding from this process, and
/// so on; no reply of another kind is taken for an answer.
pub proof fn law_which_calls_a_reply_answers(call: CallView, reply: Reply)
    ensures
        call.fits(reply) <==> match reply {
            Reply::Mask(_) => call is LogicalDrives,
            Reply::Flag(_) => call is IsProcessElevated || call is DefineLocal
                || call is RemoveLocal,
            Reply::Target(_) => call is QueryDosDevice,
            Reply::Name(_) => call is VolumeName,
            Reply::Status(_) => call is SetMountPoint || call is DeleteMountPoint
                || call is SetRegistry || call is ClearRegistry || call is StoreAutomount,
            Reply::Letter(_) => call is AutomountLetter,
            Reply::Letters(_) => call is MountManagerLetters || call is RegistryLetters,
            Reply::Text(_) => call is FormatUuid,
            Reply::Service(_) => call is ServiceDefine || call is ServiceRemove,
            Reply::Drive(_) => call is ServiceQuery,
            Reply::Opened { .. } => call is OpenVolume,
            Reply::Flushed { .. } => call is FlushBuffers,
            Reply::Token { .. } => call is OpenProcessToken,
            Reply::Elevation { .. } => call is TokenElevation,
            Reply::Closed => call is CloseHandle,
        },
{
}

} // verus!
