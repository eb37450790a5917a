use ext2mgr_mount::{pipe_status_str, unmount_letter, Call, DriveQuery, Progress, Reply};

const DEVICE: &str = r"\Device\HarddiskVolume7";

fn calls_of(hint: &str, replies: &[Reply]) -> Vec<Call> {
    let mut made = Vec::new();
    for count in 0..=replies.len() {
        if let Progress::Ask(call) = unmount_letter('X', hint, &replies[..count]) {
            made.push(call);
        }
    }
    made
}

fn result_of(hint: &str, replies: &[Reply]) -> Result<(), String> {
    match unmount_letter('X', hint, replies) {
        Progress::Done { value, used } => {
            assert_eq!(used, replies.len());
            value
        }
        Progress::Ask(call) => panic!("waiting on {call:?}"),
    }
}

fn cleared(rest: Vec<Reply>) -> Vec<Reply> {
    let mut replies = vec![
        Reply::Status(Err("no entry".to_string())),
        Reply::Status(Err("DeleteVolumeMountPoint failed (2)".to_string())),
    ];
    replies.extend(rest);
    replies
}

fn known(result: bool, symlink: &str) -> Reply {
    Reply::Drive(Ok(Some(DriveQuery {
        result,
        symlink: symlink.to_string(),
    })))
}

fn query_call() -> Call {
    Call::QueryDosDevice { letter: 'X' }
}

fn service_call(target: &str) -> Call {
    Call::ServiceRemove {
        drive: b'X',
        target: target.to_string(),
    }
}

#[test]
fn elevated_unmount_with_a_hint() {
    let replies = cleared(vec![
        Reply::Flag(true),
        Reply::Flag(true),
        Reply::Target(None),
    ]);
    assert_eq!(
        calls_of(DEVICE, &replies),
        vec![
            Call::ClearRegistry { letter: 'X' },
            Call::DeleteMountPoint {
                mount_root: r"X:\".to_string()
            },
            Call::IsProcessElevated,
            Call::RemoveLocal {
                letter: 'X',
                target: DEVICE.to_string()
            },
            query_call()
        ]
    );
    assert_eq!(result_of(DEVICE, &replies), Ok(()));
}

#[test]
fn clearing_may_succeed_or_fail() {
    let replies = vec![
        Reply::Status(Ok(())),
        Reply::Status(Ok(())),
        Reply::Flag(true),
        Reply::Flag(true),
        Reply::Target(None),
    ];
    assert_eq!(result_of(DEVICE, &replies), Ok(()));
}

#[test]
fn elevated_unmount_without_a_hint_looks_the_target_up() {
    let replies = cleared(vec![
        Reply::Flag(true),
        Reply::Target(Some(DEVICE.to_string())),
        Reply::Flag(true),
        Reply::Target(None),
    ]);
    assert_eq!(
        calls_of("", &replies)[3..],
        [
            query_call(),
            Call::RemoveLocal {
                letter: 'X',
                target: DEVICE.to_string()
            },
            query_call()
        ]
    );
    assert_eq!(result_of("", &replies), Ok(()));
}

#[test]
fn letter_that_stays_goes_to_the_service() {
    let replies = cleared(vec![
        Reply::Flag(true),
        Reply::Flag(true),
        Reply::Target(Some("other".to_string())),
        known(true, "served"),
        Reply::Service(Ok(true)),
    ]);
    assert_eq!(
        calls_of(DEVICE, &replies)[5..],
        [Call::ServiceQuery { drive: b'X' }, service_call("served")]
    );
    assert_eq!(result_of(DEVICE, &replies), Ok(()));
}

#[test]
fn service_that_knows_nothing_gets_the_hint() {
    let replies = cleared(vec![
        Reply::Flag(false),
        known(false, "served"),
        Reply::Service(Ok(true)),
    ]);
    assert_eq!(
        calls_of(DEVICE, &replies)[3..],
        [Call::ServiceQuery { drive: b'X' }, service_call(DEVICE)]
    );
    let replies = cleared(vec![
        Reply::Flag(false),
        known(true, ""),
        Reply::Service(Ok(true)),
    ]);
    assert_eq!(calls_of(DEVICE, &replies)[4], service_call(DEVICE));
    assert_eq!(result_of(DEVICE, &replies), Ok(()));
}

#[test]
fn service_that_fails_on_the_query_gets_the_target_that_is_bound() {
    let replies = cleared(vec![
        Reply::Flag(false),
        Reply::Drive(Ok(None)),
        Reply::Target(Some("bound".to_string())),
        Reply::Service(Ok(false)),
        Reply::Target(None),
    ]);
    assert_eq!(
        calls_of("", &replies)[3..],
        [
            Call::ServiceQuery { drive: b'X' },
            query_call(),
            service_call("bound"),
            query_call()
        ]
    );
    assert_eq!(result_of("", &replies), Ok(()));
}

#[test]
fn letter_without_any_target_is_not_removed() {
    let replies = cleared(vec![
        Reply::Flag(true),
        Reply::Target(None),
        Reply::Drive(Ok(None)),
        Reply::Target(None),
    ]);
    assert_eq!(
        result_of("", &replies),
        Err("Failed to remove drive letter X:".to_string())
    );
}

#[test]
fn letter_that_the_service_leaves_bound_is_not_removed() {
    let replies = cleared(vec![
        Reply::Flag(false),
        known(true, "served"),
        Reply::Service(Ok(false)),
        Reply::Target(Some("served".to_string())),
    ]);
    assert_eq!(
        result_of(DEVICE, &replies),
        Err("Failed to remove drive letter X:".to_string())
    );
}

#[test]
fn service_that_is_lost_before_the_query() {
    let replies = cleared(vec![
        Reply::Flag(false),
        Reply::Drive(Err("no pipe".to_string())),
    ]);
    assert_eq!(
        result_of(DEVICE, &replies),
        Err("Failed to remove drive letter X:\nExt2Srv pipe: no pipe".to_string())
    );
}

#[test]
fn service_that_is_lost_before_the_removal() {
    let replies = cleared(vec![
        Reply::Flag(false),
        known(true, "served"),
        Reply::Service(Err("broken".to_string())),
    ]);
    assert_eq!(
        result_of(DEVICE, &replies),
        Err("Failed to remove drive letter X:\nbroken".to_string())
    );
}

#[test]
fn longest_unmount_makes_ten_calls() {
    let replies = cleared(vec![
        Reply::Flag(true),
        Reply::Target(Some("a".to_string())),
        Reply::Flag(true),
        Reply::Target(Some("a".to_string())),
        Reply::Drive(Ok(None)),
        Reply::Target(Some("a".to_string())),
        Reply::Service(Ok(false)),
        Reply::Target(Some("a".to_string())),
    ]);
    assert_eq!(calls_of("", &replies).len(), 10);
    assert!(result_of("", &replies).is_err());
}

#[test]
fn pipe_status_in_words() {
    assert_eq!(pipe_status_str(&Ok(())), "Ext2Srv pipe: connected.");
    assert_eq!(
        pipe_status_str(&Err("no pipe".to_string())),
        "Ext2Srv pipe: no pipe (is Ext2Srv running?)"
    );
}
