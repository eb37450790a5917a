# ext2mgr_mount

The mount decisions of an Ext2/Ext4 volume manager for Windows, verified with Verus: which drive
letters are free, how a volume gets a letter and loses it, which letters are bound again on refresh,
and how a volume is flushed.

The library makes no system call. An operation is a function of the replies so far: it says which
call comes next or how it has ended. `app/` makes the calls and hands the replies back.

| Mode | Survives reboot | What it is |
|------|-----------------|------------|
| Temporary | no | a DOS device only, bound from this process where it is elevated, else by Ext2Srv |
| Mount Manager | yes | `SetVolumeMountPoint` |
| Session Manager DOS devices | yes | a registry entry, and a DOS device so that the letter appears at once |
| Ext2Fsd automount | the entry does | `Volumes\{UUID}`; the letter is bound again on refresh |

## Layout

- `src/protocol.rs`: the calls and the replies to them
- `src/script.rs`: what an operation may do, as a mathematical object, and what its caller can rely on
- `src/mount.rs`, `src/unmount.rs`, `src/automount.rs`, `src/flush.rs`: the operations
- `src/win32.rs`: the arguments and the raw results of single Win32 functions
- `src/letters.rs`, `src/volume.rs`, `src/report.rs`, `src/status.rs`: plain values
- `src/text.rs`, `src/wide.rs`: text and UTF-16
- `src/trace.rs`, `src/laws/`: what holds of whole operations, whatever the replies
- `app/`: the Win32 calls
