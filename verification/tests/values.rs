use ext2mgr_mount::text::{
    decimal_text, join, starts_with, to_ascii_uppercase, trim_end_matches, trim_start_matches,
};
use ext2mgr_mount::volume::volume_device;
use ext2mgr_mount::wide::{from_wide, to_wide};
use ext2mgr_mount::win32::{
    define_dos_device_local, define_dos_device_local_remove, delete_volume_mount_point,
    query_dos_device, set_volume_mount_point, volume_name_for_mount_point, wide_dos_name,
};
use ext2mgr_mount::{
    dos_device_target, first_free_drive_letter, free_drive_letters, is_ext_family,
    AutomountReport, VolumeEntry,
};

#[test]
fn free_letters_start_at_c() {
    let all: Vec<char> = ('C'..='Z').collect();
    assert_eq!(free_drive_letters(0), all);
    assert_eq!(free_drive_letters(0b11), all);
    assert_eq!(free_drive_letters(u32::MAX), Vec::<char>::new());
    assert_eq!(free_drive_letters(!(1 << 25)), vec!['Z']);
    assert_eq!(free_drive_letters(!((1 << 2) | (1 << 6))), vec!['C', 'G']);
}

#[test]
fn first_free_letter_is_the_lowest() {
    assert_eq!(first_free_drive_letter(0b1111), Some('E'));
    assert_eq!(first_free_drive_letter(u32::MAX), None);
    assert_eq!(first_free_drive_letter(0), Some('C'));
}

#[test]
fn device_target_prefers_device_paths() {
    let device = r"\Device\HarddiskVolume1";
    let link = r"\Device\HarddiskVolume2";
    assert_eq!(dos_device_target(device, link), device);
    assert_eq!(dos_device_target("object", link), link);
    assert_eq!(dos_device_target("object", "link"), "object");
    assert_eq!(dos_device_target("", "link"), "link");
    assert_eq!(dos_device_target("", ""), "");
    assert_eq!(dos_device_target(r"\device\x", link), link);
}

#[test]
fn device_of_a_volume_is_empty_without_a_device_path() {
    let mut volume = VolumeEntry {
        letters: vec![],
        win32_volume_name: String::new(),
        physical_object: "object".to_string(),
        symlink: "link".to_string(),
        filesystem: String::new(),
        uuid: None,
    };
    assert_eq!(volume_device(&volume), "");
    volume.symlink = r"\Device\a".to_string();
    assert_eq!(volume_device(&volume), r"\Device\a");
    volume.physical_object = r"\Device\b".to_string();
    assert_eq!(volume_device(&volume), r"\Device\b");
}

#[test]
fn ext_family_in_any_case() {
    for name in ["EXT2", "ext3", "Ext4", "EXT4 (dirty)", "eXt2fs"] {
        assert!(is_ext_family(name), "{name}");
    }
    for name in ["", "EXT", "EXT5", "NTFS", " EXT4", "exFAT"] {
        assert!(!is_ext_family(name), "{name}");
    }
}

#[test]
fn summary_of_every_part() {
    let report = AutomountReport {
        mounted: vec!["a".to_string(), "b".to_string()],
        already_mounted: 12,
        errors: vec!["c".to_string(), "d".to_string()],
    };
    assert_eq!(
        report.summary(),
        Some(
            "Auto-mounted 2 volume(s): a; b. 12 already mounted (skipped). Auto-mount errors: c; d"
                .to_string()
        )
    );
    assert!(report.did_mount());
}

#[test]
fn summary_of_skipped_letters_alone_is_silent() {
    let report = AutomountReport {
        already_mounted: 3,
        ..AutomountReport::default()
    };
    assert_eq!(report.summary(), None);
    assert!(!report.did_mount());
}

#[test]
fn wide_text_is_utf16_with_a_zero_at_its_end() {
    for text in ["", "X:", r"\Device\é", "\u{1F4BE}x\u{10FFFF}", "a\u{FFFF}b"] {
        let mut expected: Vec<u16> = text.encode_utf16().collect();
        expected.push(0);
        assert_eq!(to_wide(text), expected);
    }
    assert_eq!(to_wide("\u{1F4BE}"), vec![0xD83D, 0xDCBE, 0]);
}

#[test]
fn wide_text_reads_back_up_to_the_zero() {
    for text in ["", "X:", r"\Device\é", "\u{1F4BE}x\u{10FFFF}"] {
        let mut buffer = to_wide(text);
        buffer.extend([65, 0xD800, 0]);
        assert_eq!(from_wide(&buffer), text);
    }
    assert_eq!(from_wide(&vec![72, 105]), "Hi");
}

#[test]
fn lone_surrogates_are_replaced() {
    for units in [
        vec![0xD800u16],
        vec![0xDC00, 65],
        vec![0xD800, 65],
        vec![0xD800, 0xD83D, 0xDCBE],
        vec![65, 0xDBFF, 0xDBFF, 0xDFFF, 0xDFFF],
    ] {
        assert_eq!(from_wide(&units), String::from_utf16_lossy(&units));
    }
}

#[test]
fn dos_device_arguments() {
    let define = define_dos_device_local('X', "t");
    assert_eq!(define.flags, 1);
    assert_eq!(define.name, vec![88, 58, 0]);
    assert_eq!(define.target, vec![116, 0]);
    let remove = define_dos_device_local_remove('X', "t");
    assert_eq!(remove.flags, 7);
    assert_eq!(remove.name, wide_dos_name('X'));
    assert_eq!(remove.target, vec![116, 0]);
}

#[test]
fn dos_device_query_results() {
    let mut buffer = to_wide(r"\Device\x");
    buffer.resize(512, 0);
    assert_eq!(query_dos_device(10, &buffer), Some(r"\Device\x".to_string()));
    assert_eq!(query_dos_device(0, &buffer), None);
}

#[test]
fn mount_point_results() {
    let name = to_wide(r"\\?\Volume{1}\");
    assert_eq!(
        volume_name_for_mount_point(r"X:\", 1, 0, &name),
        Ok(r"\\?\Volume{1}\".to_string())
    );
    assert_eq!(
        volume_name_for_mount_point(r"X:\", 0, 4390, &name),
        Err(r"GetVolumeNameForVolumeMountPoint(X:\) failed (4390)".to_string())
    );
    assert_eq!(set_volume_mount_point(r"X:\", 1, 0), Ok(()));
    assert_eq!(
        set_volume_mount_point(r"X:\", 0, 5),
        Err(r"SetVolumeMountPoint(X:\) failed (5)".to_string())
    );
    assert_eq!(delete_volume_mount_point(1, 0), Ok(()));
    assert_eq!(
        delete_volume_mount_point(0, 2),
        Err("DeleteVolumeMountPoint failed (2)".to_string())
    );
}

#[test]
fn decimal_numerals() {
    for value in [0u64, 7, 9, 10, 42, 100, 4390, u32::MAX as u64, u64::MAX] {
        assert_eq!(decimal_text(value), value.to_string());
    }
}

#[test]
fn text_helpers_agree_with_the_standard_ones() {
    for text in ["", r"\", r"\\a\b\\", "plain", r"é\\", "aé\u{1F4BE}Zz"] {
        assert_eq!(trim_end_matches(text, '\\'), text.trim_end_matches('\\'));
        assert_eq!(
            trim_start_matches(text, '\\'),
            text.trim_start_matches('\\')
        );
        assert_eq!(to_ascii_uppercase(text), text.to_ascii_uppercase());
        for prefix in ["", r"\", "pl", "aé", "plainer"] {
            assert_eq!(starts_with(text, prefix), text.starts_with(prefix));
        }
    }
}

#[test]
fn joined_texts() {
    let list = vec!["a".to_string(), String::new(), "b".to_string()];
    assert_eq!(join(&list, "; "), list.join("; "));
    assert_eq!(join(&vec![], "; "), "");
    assert_eq!(join(&vec!["x".to_string()], "; "), "x");
}
