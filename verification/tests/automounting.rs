use ext2mgr_mount::{
    process_pending_automounts, AutomountReport, Call, Progress, Reply, VolumeEntry,
};

const DEVICE: &str = r"\Device\HarddiskVolume7";

/// Only `D` and `F` are free.
const MASK: u32 = !((1 << 3) | (1 << 5));

fn ext_volume() -> VolumeEntry {
    VolumeEntry {
        letters: vec![],
        win32_volume_name: String::new(),
        physical_object: DEVICE.to_string(),
        symlink: String::new(),
        filesystem: "ext4".to_string(),
        uuid: Some([9; 16]),
    }
}

fn ntfs_volume() -> VolumeEntry {
    VolumeEntry {
        filesystem: "NTFS".to_string(),
        uuid: None,
        ..ext_volume()
    }
}

fn calls_of(volumes: &[VolumeEntry], replies: &[Reply]) -> Vec<Call> {
    let mut made = Vec::new();
    for count in 0..=replies.len() {
        if let Progress::Ask(call) = process_pending_automounts(volumes, &replies[..count]) {
            made.push(call);
        }
    }
    made
}

fn report_of(volumes: &[VolumeEntry], replies: &[Reply]) -> AutomountReport {
    match process_pending_automounts(volumes, replies) {
        Progress::Done { value, used } => {
            assert_eq!(used, replies.len());
            value
        }
        Progress::Ask(call) => panic!("waiting on {call:?}"),
    }
}

fn query_call(letter: char) -> Call {
    Call::QueryDosDevice { letter }
}

fn define_call(letter: char) -> Call {
    Call::DefineLocal {
        letter,
        target: DEVICE.to_string(),
    }
}

fn bound() -> Reply {
    Reply::Target(Some("other".to_string()))
}

#[test]
fn no_volumes_nothing_to_do() {
    let report = report_of(&[], &[Reply::Mask(0)]);
    assert!(report.mounted.is_empty() && report.errors.is_empty());
    assert_eq!(report.already_mounted, 0);
    assert_eq!(report.summary(), None);
}

#[test]
fn stored_letter_is_bound() {
    let volumes = [ext_volume()];
    let replies = vec![
        Reply::Mask(MASK),
        Reply::Letter(Some('F')),
        Reply::Target(None),
        Reply::Flag(true),
        Reply::Flag(true),
    ];
    assert_eq!(
        calls_of(&volumes, &replies),
        vec![
            Call::LogicalDrives,
            Call::AutomountLetter { uuid: [9; 16] },
            query_call('F'),
            Call::IsProcessElevated,
            define_call('F')
        ]
    );
    let report = report_of(&volumes, &replies);
    assert_eq!(
        report.mounted,
        vec![format!("F: (Ext2Fsd automount → {DEVICE})")]
    );
    assert!(report.did_mount());
    assert_eq!(
        report.summary(),
        Some(format!(
            "Auto-mounted 1 volume(s): F: (Ext2Fsd automount → {DEVICE})"
        ))
    );
}

#[test]
fn stored_letter_in_use_gives_way_to_the_first_free_one() {
    let volumes = [ext_volume()];
    let replies = vec![
        Reply::Mask(MASK),
        Reply::Letter(Some('E')),
        bound(),
        Reply::Target(None),
        Reply::Flag(false),
        Reply::Service(Ok(true)),
    ];
    assert_eq!(
        calls_of(&volumes, &replies)[2..],
        [
            query_call('D'),
            query_call('F'),
            Call::IsProcessElevated,
            Call::ServiceDefine {
                drive: b'F',
                target: DEVICE.to_string()
            }
        ]
    );
    assert!(report_of(&volumes, &replies).did_mount());
}

#[test]
fn stored_letter_that_is_bound_is_tried_again_in_its_turn() {
    let volumes = [ext_volume()];
    let replies = vec![
        Reply::Mask(MASK),
        Reply::Letter(Some('F')),
        bound(),
        bound(),
        bound(),
        Reply::Text("{09}".to_string()),
    ];
    assert_eq!(
        calls_of(&volumes, &replies)[2..],
        [
            query_call('F'),
            query_call('D'),
            query_call('F'),
            Call::FormatUuid { uuid: [9; 16] }
        ]
    );
    let report = report_of(&volumes, &replies);
    assert_eq!(
        report.errors,
        vec!["{09}: no free letter for Ext2Fsd automount".to_string()]
    );
    assert!(!report.did_mount());
    assert_eq!(
        report.summary(),
        Some("Auto-mount errors: {09}: no free letter for Ext2Fsd automount".to_string())
    );
}

#[test]
fn lettered_volume_is_skipped() {
    let mut volume = ext_volume();
    volume.letters = vec!['Q'];
    let replies = vec![Reply::Mask(MASK), Reply::Letter(Some('F'))];
    let report = report_of(&[volume], &replies);
    assert_eq!(report.already_mounted, 1);
    assert_eq!(report.summary(), None);
}

#[test]
fn volume_in_the_mount_manager_is_skipped() {
    let mut volume = ntfs_volume();
    volume.win32_volume_name = "name".to_string();
    let volumes = [volume];
    let replies = vec![
        Reply::Mask(MASK),
        Reply::Letters(vec!['Q']),
        Reply::Letters(vec!['R']),
    ];
    assert_eq!(
        calls_of(&volumes, &replies)[1..],
        [
            Call::MountManagerLetters {
                volume_name: "name".to_string()
            },
            Call::RegistryLetters {
                device: DEVICE.to_string()
            }
        ]
    );
    assert_eq!(report_of(&volumes, &replies).already_mounted, 1);
}

#[test]
fn registry_letters_are_bound_unless_they_are_live() {
    let mut volume = ext_volume();
    volume.win32_volume_name = "name".to_string();
    let volumes = [volume];
    let replies = vec![
        Reply::Mask(MASK),
        Reply::Letters(vec![]),
        Reply::Letter(None),
        Reply::Letters(vec!['R', 'S', 'T']),
        bound(),
        Reply::Target(None),
        Reply::Flag(true),
        Reply::Flag(true),
        Reply::Target(None),
        Reply::Flag(false),
        Reply::Service(Ok(false)),
    ];
    assert_eq!(
        calls_of(&volumes, &replies)[4..],
        [
            query_call('R'),
            query_call('S'),
            Call::IsProcessElevated,
            define_call('S'),
            query_call('T'),
            Call::IsProcessElevated,
            Call::ServiceDefine {
                drive: b'T',
                target: DEVICE.to_string()
            }
        ]
    );
    let report = report_of(&volumes, &replies);
    assert_eq!(
        report.mounted,
        vec![format!("S: (Session Manager → {DEVICE})")]
    );
    assert_eq!(report.already_mounted, 1);
    assert_eq!(
        report.errors,
        vec!["Failed to assign new drive letter T:".to_string()]
    );
    assert_eq!(
        report.summary(),
        Some(format!(
            "Auto-mounted 1 volume(s): S: (Session Manager → {DEVICE}). \
             1 already mounted (skipped). \
             Auto-mount errors: Failed to assign new drive letter T:"
        ))
    );
}

#[test]
fn volume_without_registry_letters_is_left() {
    let replies = vec![Reply::Mask(MASK), Reply::Letters(vec![])];
    let report = report_of(&[ntfs_volume()], &replies);
    assert_eq!(report.already_mounted, 0);
    assert!(!report.did_mount());
}

#[test]
fn volume_without_a_device_path_is_passed_over() {
    let mut volume = ntfs_volume();
    volume.physical_object = r"\??\C:".to_string();
    let report = report_of(&[volume], &[Reply::Mask(MASK)]);
    assert_eq!(report.already_mounted, 0);
}

#[test]
fn ext_volume_without_a_device_path_is_bound_to_what_it_has() {
    let mut volume = ext_volume();
    volume.physical_object = String::new();
    volume.symlink = r"\??\link".to_string();
    let replies = vec![
        Reply::Mask(MASK),
        Reply::Letter(Some('D')),
        Reply::Target(None),
        Reply::Flag(true),
        Reply::Flag(true),
    ];
    assert_eq!(
        report_of(&[volume], &replies).mounted,
        vec![r"D: (Ext2Fsd automount → \??\link)".to_string()]
    );
}

#[test]
fn device_path_in_the_link_is_used() {
    let mut volume = ntfs_volume();
    volume.physical_object = "object".to_string();
    volume.symlink = DEVICE.to_string();
    let replies = vec![Reply::Mask(MASK)];
    assert_eq!(
        calls_of(&[volume], &replies)[1],
        Call::RegistryLetters {
            device: DEVICE.to_string()
        }
    );
}

#[test]
fn volumes_come_one_after_another() {
    let mut first = ext_volume();
    first.letters = vec!['Q'];
    let replies = vec![
        Reply::Mask(MASK),
        Reply::Letter(Some('F')),
        Reply::Letters(vec!['R']),
        Reply::Target(None),
        Reply::Flag(true),
        Reply::Flag(true),
    ];
    let report = report_of(&[first, ntfs_volume()], &replies);
    assert_eq!(report.already_mounted, 1);
    assert_eq!(report.mounted.len(), 1);
}
