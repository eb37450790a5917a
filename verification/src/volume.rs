//! Volumes, the device paths that stand for them and the file systems on them.

use vstd::prelude::*;

use crate::text::{ascii_uppercased, starts_with, to_ascii_uppercase};

verus! {

/// A volume as the disk enumeration has found it.
#[derive(Debug, Clone)]
pub struct VolumeEntry {
    /// The drive letters that the volume has now.
    pub letters: Vec<char>,
    /// The name of the volume in the Mount Manager; empty where it has none.
    pub win32_volume_name: String,
    /// The object path of the device.
    pub physical_object: String,
    /// The path of a link to the device.
    pub symlink: String,
    pub filesystem: String,
    /// The UUID in an EXT superblock.
    pub uuid: Option<[u8; 16]>,
}

/// Whether the path lies under `\Device\`.
pub open spec fn is_device_path(path: Seq<char>) -> bool {
    r"\Device\"@.is_prefix_of(path)
}

/// The path to bind a letter to: a device path if there is one, and the physical object before the
/// link.
pub open spec fn device_target(physical_object: Seq<char>, symlink: Seq<char>) -> Seq<char> {
    if is_device_path(physical_object) {
        physical_object
    } else if is_device_path(symlink) {
        symlink
    } else if physical_object.len() > 0 {
        physical_object
    } else {
        symlink
    }
}

/// The device path of a volume; empty where it has none.
pub open spec fn device_path(physical_object: Seq<char>, symlink: Seq<char>) -> Seq<char> {
    if is_device_path(physical_object) {
        physical_object
    } else if is_device_path(symlink) {
        symlink
    } else {
        Seq::empty()
    }
}

/// Whether the name of the file system begins with EXT2, EXT3 or EXT4, in upper or lower case.
pub open spec fn in_ext_family(filesystem: Seq<char>) -> bool {
    let upper = ascii_uppercased(filesystem);
    "EXT2"@.is_prefix_of(upper) || "EXT3"@.is_prefix_of(upper) || "EXT4"@.is_prefix_of(upper)
}

/// Prefers `physical_object` when it is a `\Device\...` path.
pub fn dos_device_target(physical_object: &str, symlink: &str) -> (target: String)
    ensures
        target@ == device_target(physical_object@, symlink@),
{
    if starts_with(physical_object, r"\Device\") {
        physical_object.to_owned()
    } else if starts_with(symlink, r"\Device\") {
        symlink.to_owned()
    } else if !physical_object.is_empty() {
        physical_object.to_owned()
    } else {
        symlink.to_owned()
    }
}

/// The device path of the volume; empty where it has none.
pub fn volume_device(volume: &VolumeEntry) -> (device: String)
    ensures
        device@ == device_path(volume.physical_object@, volume.symlink@),
{
    if starts_with(volume.physical_object.as_str(), r"\Device\") {
        volume.physical_object.clone()
    } else if starts_with(volume.symlink.as_str(), r"\Device\") {
        volume.symlink.clone()
    } else {
        String::new()
    }
}

/// Whether the file system is EXT2, EXT3 or EXT4.
pub fn is_ext_family(filesystem: &str) -> (yes: bool)
    ensures
        yes == in_ext_family(filesystem@),
{
    let upper = to_ascii_uppercase(filesystem);
    starts_with(upper.as_str(), "EXT2") || starts_with(upper.as_str(), "EXT3") || starts_with(
        upper.as_str(),
        "EXT4",
    )
}

/// The target is one of the two paths; it is a device path whenever one of them is, the physical
/// object then coming first; and it is empty only where both are.
pub proof fn law_device_target(physical_object: Seq<char>, symlink: Seq<char>)
    ensures
        ({
            let target = device_target(physical_object, symlink);
            &&& target == physical_object || target == symlink
            &&& is_device_path(target) <==> is_device_path(physical_object) || is_device_path(
                symlink,
            )
            &&& is_device_path(physical_object) ==> target == physical_object
            &&& target.len() == 0 <==> physical_object.len() == 0 && symlink.len() == 0
        }),
{
    reveal_strlit(r"\Device\");
}

/// Where a volume has a device path, that is the path its letters are bound to.
pub proof fn law_device_path_is_the_target(physical_object: Seq<char>, symlink: Seq<char>)
    ensures
        device_path(physical_object, symlink).len() > 0 ==> device_path(physical_object, symlink)
            == device_target(physical_object, symlink),
        device_path(physical_object, symlink).len() > 0 <==> is_device_path(physical_object)
            || is_device_path(symlink),
{
    reveal_strlit(r"\Device\");
}

/// The case of ASCII letters does not matter to whether a file system is of the EXT family.
pub proof fn law_ext_family_ignores_case(filesystem: Seq<char>, other: Seq<char>)
    requires
        ascii_uppercased(filesystem) == ascii_uppercased(other),
    ensures
        in_ext_family(filesystem) == in_ext_family(other),
{
}

/// A device path is one whose first eight characters are `\Device\`.
pub proof fn law_device_path_by_its_characters(path: Seq<char>)
    ensures
        is_device_path(path) <==> path.len() >= 8 && path[0] == '\\' && path[1] == 'D' && path[2]
            == 'e' && path[3] == 'v' && path[4] == 'i' && path[5] == 'c' && path[6] == 'e'
            && path[7] == '\\',
{
    reveal_strlit(r"\Device\");
    let head = r"\Device\"@;
    if path.len() >= 8 && path[0] == '\\' && path[1] == 'D' && path[2] == 'e' && path[3] == 'v'
        && path[4] == 'i' && path[5] == 'c' && path[6] == 'e' && path[7] == '\\' {
        assert(head == path.take(8));
    }
    if is_device_path(path) {
        assert(path.take(8) == head);
        assert forall|k: int| 0 <= k < 8 implies path[k] == head[k] by {
            assert(path.take(8)[k] == path[k]);
        }
    }
}

/// A file system is of the EXT family exactly where the first four characters of its name are `e`,
/// `x`, `t`, each in upper or lower case, and one of the digits 2, 3 and 4; what follows them does
/// not matter.
pub proof fn law_ext_family_by_its_characters(filesystem: Seq<char>)
    ensures
        in_ext_family(filesystem) <==> {
            &&& filesystem.len() >= 4
            &&& filesystem[0] == 'E' || filesystem[0] == 'e'
            &&& filesystem[1] == 'X' || filesystem[1] == 'x'
            &&& filesystem[2] == 'T' || filesystem[2] == 't'
            &&& filesystem[3] == '2' || filesystem[3] == '3' || filesystem[3] == '4'
        },
{
    reveal_strlit("EXT2");
    reveal_strlit("EXT3");
    reveal_strlit("EXT4");
    let upper = ascii_uppercased(filesystem);
    assert forall|k: int| 0 <= k < filesystem.len() implies #[trigger] upper[k]
        == crate::text::ascii_upper(filesystem[k]) by {}
    if filesystem.len() >= 4 {
        let head = upper.take(4);
        assert(upper[0] == head[0] && upper[1] == head[1] && upper[2] == head[2] && upper[3]
            == head[3]);
        if head[0] == 'E' && head[1] == 'X' && head[2] == 'T' {
            assert(head[3] == '2' ==> "EXT2"@ == head);
            assert(head[3] == '3' ==> "EXT3"@ == head);
            assert(head[3] == '4' ==> "EXT4"@ == head);
        }
        assert("EXT2"@.is_prefix_of(upper) ==> head == "EXT2"@);
        assert("EXT3"@.is_prefix_of(upper) ==> head == "EXT3"@);
        assert("EXT4"@.is_prefix_of(upper) ==> head == "EXT4"@);
    }
}

/// Which of the two paths a letter is bound to: the physical object where it is a device path; else
/// the link where that is one; else the physical object, unless it is empty; else the link.
pub proof fn law_which_path_is_the_target(physical_object: Seq<char>, symlink: Seq<char>)
    ensures
        ({
            let head = seq!['\\', 'D', 'e', 'v', 'i', 'c', 'e', '\\'];
            let object_first = physical_object.len() >= 8 && physical_object.take(8) == head;
            let link_first = symlink.len() >= 8 && symlink.take(8) == head;
            let target = device_target(physical_object, symlink);
            let device = device_path(physical_object, symlink);
            &&& object_first ==> target == physical_object && device == physical_object
            &&& !object_first && link_first ==> target == symlink && device == symlink
            &&& !object_first && !link_first && physical_object.len() > 0 ==> target
                == physical_object
            &&& !object_first && physical_object.len() == 0 ==> target == symlink
            &&& !object_first && !link_first ==> device.len() == 0
        }),
{
    let head = seq!['\\', 'D', 'e', 'v', 'i', 'c', 'e', '\\'];
    law_device_path_by_its_characters(physical_object);
    law_device_path_by_its_characters(symlink);
    lemma_head(physical_object);
    lemma_head(symlink);
}

proof fn lemma_head(path: Seq<char>)
    ensures
        path.len() >= 8 && path.take(8) == seq!['\\', 'D', 'e', 'v', 'i', 'c', 'e', '\\']
            <==> is_device_path(path),
{
    law_device_path_by_its_characters(path);
    let head = seq!['\\', 'D', 'e', 'v', 'i', 'c', 'e', '\\'];
    if path.len() >= 8 {
        if path.take(8) == head {
            assert forall|k: int| 0 <= k < 8 implies path[k] == head[k] by {
                assert(path.take(8)[k] == path[k]);
            }
            assert(path[0] == head[0] && path[1] == head[1] && path[2] == head[2] && path[3]
                == head[3] && path[4] == head[4] && path[5] == head[5] && path[6] == head[6]
                && path[7] == head[7]);
        }
        if is_device_path(path) {
            assert(path.take(8) == head);
        }
    }
}

} // verus!
