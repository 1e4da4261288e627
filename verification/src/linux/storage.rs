//! Telling disks apart by their kernel names.
use vstd::prelude::*;

use crate::linux::hardware::StorageKind;
use crate::numerals;
use crate::numerals::has_only_digits;
use crate::text;
use crate::text::{characters, contains_text, same_text, split_once, strip_prefix, trim};

verus! {

broadcast use vstd::string::group_string_axioms;

pub open spec fn letter(c: char) -> bool {
    'a' <= c <= 'z' || 'A' <= c <= 'Z'
}

/// At least one character, and nothing but letters.
pub open spec fn some_letters(text: Seq<char>) -> bool {
    text.len() > 0 && forall|i: int| 0 <= i < text.len() ==> letter(#[trigger] text[i])
}

/// At least one character, and nothing but digits.
pub open spec fn some_digits(text: Seq<char>) -> bool {
    text.len() > 0 && numerals::all_digits(text)
}

fn has_some_digits(text: &str) -> (result: bool)
    ensures
        result == some_digits(text@),
{
    !text.is_empty() && has_only_digits(text)
}

fn has_some_letters(text: &str) -> (result: bool)
    ensures
        result == some_letters(text@),
{
    let chars = characters(text);
    let mut i: usize = 0;
    while i < chars.len()
        invariant
            i <= chars@.len(),
            chars@ == text@,
            forall|j: int| 0 <= j < i ==> letter(#[trigger] text@[j]),
        decreases chars@.len() - i,
    {
        let c = chars[i];
        if !(('a' <= c && c <= 'z') || ('A' <= c && c <= 'Z')) {
            assert(!letter(text@[i as int]));
            return false;
        }
        i += 1;
    }
    chars.len() > 0
}

/// `name` is `prefix` with letters behind it.
pub open spec fn letters_after(name: Seq<char>, prefix: Seq<char>) -> bool {
    match text::without_prefix(name, prefix) {
        Some(rest) => some_letters(rest),
        None => false,
    }
}

pub fn is_letters_after(name: &str, prefix: &str) -> (result: bool)
    ensures
        result == letters_after(name@, prefix@),
{
    match strip_prefix(name, prefix) {
        Some(rest) => has_some_letters(rest.as_str()),
        None => false,
    }
}

/// `name` is `prefix` with digits behind it.
pub open spec fn digits_after(name: Seq<char>, prefix: Seq<char>) -> bool {
    match text::without_prefix(name, prefix) {
        Some(rest) => some_digits(rest),
        None => false,
    }
}

pub fn is_digits_after(name: &str, prefix: &str) -> (result: bool)
    ensures
        result == digits_after(name@, prefix@),
{
    match strip_prefix(name, prefix) {
        Some(rest) => has_some_digits(rest.as_str()),
        None => false,
    }
}

/// The name of a namespace of an NVMe controller. A partition of one has another `p` and a
/// number behind it.
pub open spec fn nvme_disk(name: Seq<char>) -> bool {
    match text::without_prefix(name, "nvme"@) {
        Some(rest) => match text::halves(rest, 'n') {
            Some((controller, namespace)) => some_digits(controller) && some_digits(namespace),
            None => false,
        },
        None => false,
    }
}

pub fn is_nvme_disk(name: &str) -> (result: bool)
    ensures
        result == nvme_disk(name@),
{
    match strip_prefix(name, "nvme") {
        Some(rest) => match split_once(rest.as_str(), 'n') {
            Some((controller, namespace)) => has_some_digits(controller.as_str())
                && has_some_digits(namespace.as_str()),
            None => false,
        },
        None => false,
    }
}

/// A disk on an ATA port, by its vendor or by the path of its device.
pub open spec fn on_ata(vendor: Option<Seq<char>>, path: Option<Seq<char>>) -> bool {
    ||| vendor matches Some(vendor) && text::trimmed(vendor) == "ATA"@
    ||| path matches Some(path) && text::contains(path, "/ata"@)
}

/// The kind of the disk with a name; none for anything that is not a whole disk.
pub open spec fn kind_of(
    name: Seq<char>,
    vendor: Option<Seq<char>>,
    path: Option<Seq<char>>,
) -> Option<StorageKind> {
    if nvme_disk(name) {
        Some(StorageKind::Nvme)
    } else if letters_after(name, "sd"@) {
        if on_ata(vendor, path) {
            Some(StorageKind::Sata)
        } else {
            Some(StorageKind::Scsi)
        }
    } else if letters_after(name, "vd"@) || letters_after(name, "xvd"@) {
        Some(StorageKind::Virtio)
    } else if digits_after(name, "mmcblk"@) {
        Some(StorageKind::Mmc)
    } else {
        None
    }
}

/// The text that an optional borrowed string holds.
pub open spec fn borrowed_view(text: Option<&str>) -> Option<Seq<char>> {
    match text {
        Some(text) => Some(text@),
        None => None,
    }
}

fn is_on_ata(vendor: Option<&str>, path: Option<&str>) -> (result: bool)
    ensures
        result == on_ata(borrowed_view(vendor), borrowed_view(path)),
{
    let by_vendor: bool = match vendor {
        Some(vendor) => same_text(trim(vendor).as_str(), "ATA"),
        None => false,
    };
    by_vendor || match path {
        Some(path) => contains_text(path, "/ata"),
        None => false,
    }
}

/// The kind of the disk with a name, by its vendor and the path of its device.
pub fn storage_kind(name: &str, vendor: Option<&str>, canonical: Option<&str>) -> (kind: Option<
    StorageKind,
>)
    ensures
        kind == kind_of(name@, borrowed_view(vendor), borrowed_view(canonical)),
{
    if is_nvme_disk(name) {
        return Some(StorageKind::Nvme);
    }
    if is_letters_after(name, "sd") {
        return Some(
            if is_on_ata(vendor, canonical) {
                StorageKind::Sata
            } else {
                StorageKind::Scsi
            },
        );
    }
    if is_letters_after(name, "vd") || is_letters_after(name, "xvd") {
        return Some(StorageKind::Virtio);
    }
    if is_digits_after(name, "mmcblk") {
        return Some(StorageKind::Mmc);
    }
    None
}

/// A name that a whole disk has.
pub open spec fn whole_disk(name: Seq<char>) -> bool {
    ||| nvme_disk(name)
    ||| letters_after(name, "sd"@)
    ||| letters_after(name, "vd"@)
    ||| letters_after(name, "xvd"@)
    ||| digits_after(name, "mmcblk"@)
}

pub fn is_whole_disk(name: &str) -> (result: bool)
    ensures
        result == whole_disk(name@),
{
    is_nvme_disk(name) || is_letters_after(name, "sd") || is_letters_after(name, "vd")
        || is_letters_after(name, "xvd") || is_digits_after(name, "mmcblk")
}

/// What has a kind is a whole disk and the other way round: vendor and path tell kinds apart
/// and never rule a disk out.
pub proof fn lemma_whole_disks_have_kinds(
    name: Seq<char>,
    vendor: Option<Seq<char>>,
    path: Option<Seq<char>>,
)
    ensures
        kind_of(name, vendor, path) is Some <==> whole_disk(name),
{
}

} // verus!
