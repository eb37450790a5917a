use ext2mgr_mount::mount::{assign_via_mount_manager, define_temporary};
use ext2mgr_mount::{mount_volume, Call, MountMode, MountRequest, Progress, Reply};

const DEVICE: &str = r"\Device\HarddiskVolume7";

fn request(mode: MountMode) -> MountRequest {
    MountRequest {
        letter: 'X',
        mode,
        symlink: DEVICE.to_string(),
        win32_volume_name: String::new(),
        uuid: Some([7; 16]),
        codepage: "utf8".to_string(),
        readonly: true,
    }
}

/// The calls that an operation makes when it is given the replies one by one.
fn calls_of<T>(operation: impl Fn(&[Reply]) -> Progress<T>, replies: &[Reply]) -> Vec<Call> {
    let mut made = Vec::new();
    for count in 0..=replies.len() {
        match operation(&replies[..count]) {
            Progress::Ask(call) => made.push(call),
            Progress::Done { used, .. } => assert_eq!(used, count),
        }
    }
    made
}

fn elevated_call() -> Call {
    Call::IsProcessElevated
}

fn local_call() -> Call {
    Call::DefineLocal {
        letter: 'X',
        target: DEVICE.to_string(),
    }
}

fn service_call() -> Call {
    Call::ServiceDefine {
        drive: b'X',
        target: DEVICE.to_string(),
    }
}

fn remove_call() -> Call {
    Call::RemoveLocal {
        letter: 'X',
        target: DEVICE.to_string(),
    }
}

fn ended(progress: Progress<Result<String, String>>) -> Result<String, String> {
    match progress {
        Progress::Done { value, .. } => value,
        Progress::Ask(call) => panic!("waiting on {call:?}"),
    }
}

#[test]
fn temporary_mount_by_an_elevated_process() {
    let request = request(MountMode::Temporary);
    let replies = vec![Reply::Flag(true), Reply::Flag(true)];
    assert_eq!(
        calls_of(|r| mount_volume(&request, r), &replies),
        vec![elevated_call(), local_call()]
    );
    assert_eq!(
        mount_volume(&request, &replies),
        Progress::Done {
            value: Ok("Mounted X: temporary via DefineDosDevice (lost after reboot)".to_string()),
            used: 2
        }
    );
}

#[test]
fn temporary_mount_falls_back_to_the_service() {
    let request = request(MountMode::Temporary);
    let replies = vec![
        Reply::Flag(true),
        Reply::Flag(false),
        Reply::Service(Ok(true)),
    ];
    assert_eq!(
        calls_of(|r| mount_volume(&request, r), &replies),
        vec![elevated_call(), local_call(), service_call()]
    );
    assert!(ended(mount_volume(&request, &replies)).is_ok());
}

#[test]
fn temporary_mount_without_elevation_asks_the_service_only() {
    let request = request(MountMode::Temporary);
    let replies = vec![Reply::Flag(false), Reply::Service(Ok(false))];
    assert_eq!(
        calls_of(|r| mount_volume(&request, r), &replies),
        vec![elevated_call(), service_call()]
    );
    assert_eq!(
        ended(mount_volume(&request, &replies)),
        Err("Failed to assign new drive letter X:".to_string())
    );
}

#[test]
fn service_that_is_not_reached_is_named() {
    let replies = vec![
        Reply::Flag(false),
        Reply::Service(Err("no pipe".to_string())),
    ];
    assert_eq!(
        define_temporary('X', DEVICE, &replies, 0),
        Progress::Done {
            value: Err(
                "Ext2Fsd service is not started.\n(Ext2Srv pipe: no pipe)".to_string()
            ),
            used: 2
        }
    );
}

#[test]
fn define_temporary_starts_at_its_position() {
    let replies = vec![Reply::Closed, Reply::Flag(true), Reply::Flag(true)];
    assert_eq!(
        define_temporary('X', DEVICE, &replies, 1),
        Progress::Done {
            value: Ok(()),
            used: 3
        }
    );
}

#[test]
fn reply_of_another_kind_is_not_taken() {
    let request = request(MountMode::Temporary);
    let replies = vec![Reply::Mask(3), Reply::Flag(true)];
    assert_eq!(
        mount_volume(&request, &replies),
        Progress::Ask(elevated_call())
    );
}

#[test]
fn later_replies_change_nothing() {
    let request = request(MountMode::Temporary);
    let replies = vec![Reply::Flag(true), Reply::Flag(true), Reply::Flag(false)];
    assert_eq!(
        mount_volume(&request, &replies),
        mount_volume(&request, &replies[..2])
    );
}

#[test]
fn service_takes_the_low_byte_of_the_letter() {
    let replies = vec![Reply::Flag(false)];
    assert_eq!(
        define_temporary('\u{158}', DEVICE, &replies, 0),
        Progress::Ask(service_call())
    );
}

#[test]
fn registry_mount_writes_before_it_binds() {
    let request = request(MountMode::PermanentRegistry);
    let replies = vec![
        Reply::Status(Ok(())),
        Reply::Flag(true),
        Reply::Flag(true),
    ];
    assert_eq!(
        calls_of(|r| mount_volume(&request, r), &replies),
        vec![
            Call::SetRegistry {
                letter: 'X',
                target: DEVICE.to_string()
            },
            elevated_call(),
            local_call()
        ]
    );
    assert_eq!(
        ended(mount_volume(&request, &replies)),
        Ok(
            "Mounted X: Session Manager DOS Devices (registry; immediate DefineDosDevice bind)"
                .to_string()
        )
    );
}

#[test]
fn registry_mount_stops_when_it_cannot_write() {
    let request = request(MountMode::PermanentRegistry);
    let replies = vec![Reply::Status(Err("access denied".to_string()))];
    assert_eq!(calls_of(|r| mount_volume(&request, r), &replies).len(), 1);
    assert_eq!(
        ended(mount_volume(&request, &replies)),
        Err("access denied".to_string())
    );
}

#[test]
fn automount_stores_the_entry_and_names_the_uuid() {
    let request = request(MountMode::Ext2Automount);
    let replies = vec![
        Reply::Status(Ok(())),
        Reply::Flag(true),
        Reply::Flag(true),
        Reply::Text("{0707}".to_string()),
    ];
    assert_eq!(
        calls_of(|r| mount_volume(&request, r), &replies),
        vec![
            Call::StoreAutomount {
                uuid: [7; 16],
                letter: 'X',
                codepage: "utf8".to_string(),
                readonly: true
            },
            elevated_call(),
            local_call(),
            Call::FormatUuid { uuid: [7; 16] }
        ]
    );
    assert_eq!(
        ended(mount_volume(&request, &replies)),
        Ok(
            r"Mounted X: Ext2Fsd automount saved under Volumes\{0707} (persists; remounted on refresh)"
                .to_string()
        )
    );
}

#[test]
fn automount_stops_when_the_entry_is_not_stored() {
    let request = request(MountMode::Ext2Automount);
    let replies = vec![Reply::Status(Err("read only".to_string()))];
    assert_eq!(
        ended(mount_volume(&request, &replies)),
        Err("read only".to_string())
    );
}

#[test]
fn automount_without_a_uuid_is_refused() {
    let mut request = request(MountMode::Ext2Automount);
    request.uuid = None;
    assert_eq!(
        mount_volume(&request, &[]),
        Progress::Done {
            value: Err(
                "Ext2Fsd automount needs an EXT volume UUID (select an EXT2/3/4 volume)"
                    .to_string()
            ),
            used: 0
        }
    );
}

#[test]
fn mount_manager_with_a_known_name_closes_it() {
    let mut request = request(MountMode::MountManager);
    request.win32_volume_name = r"\\?\Volume{1}".to_string();
    let replies = vec![Reply::Status(Ok(()))];
    assert_eq!(
        calls_of(|r| mount_volume(&request, r), &replies),
        vec![Call::SetMountPoint {
            mount_root: r"X:\".to_string(),
            volume_name: r"\\?\Volume{1}\".to_string()
        }]
    );
    assert_eq!(
        ended(mount_volume(&request, &replies)),
        Ok("Mounted X: permanent via Mount Manager (SetVolumeMountPoint)".to_string())
    );
    request.win32_volume_name = r"\\?\Volume{1}\".to_string();
    assert_eq!(
        mount_volume(&request, &[]),
        Progress::Ask(Call::SetMountPoint {
            mount_root: r"X:\".to_string(),
            volume_name: r"\\?\Volume{1}\".to_string()
        })
    );
}

#[test]
fn mount_manager_probes_an_unknown_name_and_takes_the_binding_back() {
    let request = request(MountMode::MountManager);
    let replies = vec![
        Reply::Flag(true),
        Reply::Flag(true),
        Reply::Name(Ok(r"\\?\Volume{2}\".to_string())),
        Reply::Flag(false),
        Reply::Target(Some(DEVICE.to_string())),
        Reply::Flag(true),
        Reply::Status(Err("SetVolumeMountPoint(X:\\) failed (5)".to_string())),
    ];
    assert_eq!(
        calls_of(|r| mount_volume(&request, r), &replies),
        vec![
            elevated_call(),
            local_call(),
            Call::VolumeName {
                mount_root: r"X:\".to_string()
            },
            remove_call(),
            Call::QueryDosDevice { letter: 'X' },
            remove_call(),
            Call::SetMountPoint {
                mount_root: r"X:\".to_string(),
                volume_name: r"\\?\Volume{2}\".to_string()
            }
        ]
    );
    assert_eq!(
        ended(mount_volume(&request, &replies)),
        Err(r"SetVolumeMountPoint(X:\) failed (5)".to_string())
    );
}

#[test]
fn mount_manager_takes_the_binding_back_when_the_probe_fails() {
    let replies = vec![
        Reply::Flag(false),
        Reply::Service(Ok(true)),
        Reply::Name(Err("no name".to_string())),
        Reply::Flag(true),
    ];
    assert_eq!(
        calls_of(|r| assign_via_mount_manager('X', DEVICE, "", r, 0), &replies),
        vec![
            elevated_call(),
            service_call(),
            Call::VolumeName {
                mount_root: r"X:\".to_string()
            },
            remove_call()
        ]
    );
    assert_eq!(
        assign_via_mount_manager('X', DEVICE, "", &replies, 0),
        Progress::Done {
            value: Err("no name".to_string()),
            used: 4
        }
    );
}

#[test]
fn mount_manager_skips_the_second_removal_when_the_letter_is_free() {
    let replies = vec![
        Reply::Flag(true),
        Reply::Flag(true),
        Reply::Name(Ok("v".to_string())),
        Reply::Flag(true),
        Reply::Target(None),
        Reply::Status(Ok(())),
    ];
    assert_eq!(
        assign_via_mount_manager('X', DEVICE, "", &replies, 0),
        Progress::Done {
            value: Ok(()),
            used: 6
        }
    );
}

#[test]
fn mount_manager_stops_when_it_cannot_bind() {
    let replies = vec![Reply::Flag(false), Reply::Service(Ok(false))];
    assert_eq!(
        assign_via_mount_manager('X', DEVICE, "", &replies, 0),
        Progress::Done {
            value: Err("Failed to assign new drive letter X:".to_string()),
            used: 2
        }
    );
}
