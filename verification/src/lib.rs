//! Drive letters for Ext2/Ext4 volumes on Windows: mounting, unmounting, the automount pass and
//! flushing.
//!
//! A letter can be kept in four ways:
//! - **Temporary**: a DOS device only, bound from this process where it is elevated and by the
//!   drive service where it is not. Lost after reboot.
//! - **Mount Manager**: `SetVolumeMountPoint`. Survives reboot.
//! - **Session Manager DOS devices**: an entry in the registry. Survives reboot; the letter is
//!   bound as a DOS device too, so that it appears at once.
//! - **Ext2Fsd automount**: an entry under `Volumes\{UUID}`; the letter is bound again on refresh.
//!
//! The library holds the decisions and makes no system call. Each operation is a function of the
//! replies so far: it says which [`Call`] comes next or how it has ended ([`Progress`]). The caller
//! makes the call, puts the [`Reply`] behind the others and asks again. What an operation does for
//! every list of replies is stated by its script (module `script`); the laws that follow from the
//! scripts stand in `laws`.

pub mod automount;
pub mod flush;
pub mod laws;
pub mod letters;
pub mod mount;
pub mod protocol;
pub mod report;
pub mod script;
pub mod status;
pub mod text;
pub mod trace;
pub mod unmount;
pub mod volume;
pub mod wide;
pub mod win32;

pub use automount::process_pending_automounts;
pub use flush::flush_volume;
pub use letters::{first_free_drive_letter, free_drive_letters};
pub use mount::{mount_volume, MountMode, MountRequest};
pub use protocol::{Call, DriveQuery, Reply};
pub use report::AutomountReport;
pub use script::Progress;
pub use status::pipe_status_str;
pub use unmount::unmount_letter;
pub use volume::{dos_device_target, is_ext_family, VolumeEntry};
