//! The two partitions of an over-the-air updater: the one that the device
//! runs from, and the one that the next image is written to.

use crate::pattern::{captures, compile, groups_view, regex_captures, regex_compiles};
use crate::text::{parse_i8, parse_signed};
use vstd::prelude::*;
use vstd::utf8::{decode_utf8, valid_utf8};

verus! {

/// The pattern that finds the partition in what the boot loader's
/// environment prints for `ota_boot_partition`.
pub open spec fn boot_partition_pattern() -> Seq<char> {
    r"ota_boot_partition=(?P<partition>\d)"@
}

/// The partition that a match of the pattern names: the number that its
/// one group captured, where that is a number.
pub open spec fn spec_partition_of(groups: Seq<Option<Seq<char>>>) -> Option<i8> {
    if groups.len() == 2 && groups[1] is Some {
        match parse_signed(groups[1]->Some_0, i8::MIN as int, i8::MAX as int) {
            Some(partition) => Some(partition as i8),
            None => None,
        }
    } else {
        None
    }
}

/// The partition that a search with the given pattern finds in the given
/// bytes, where the pattern compiles, the bytes are text, the pattern
/// matches, and a number was captured.
pub open spec fn spec_partition_in(pattern: Seq<char>, output: Seq<u8>) -> Option<i8> {
    if regex_compiles(pattern) && valid_utf8(output) {
        match regex_captures(pattern, decode_utf8(output)) {
            Some(groups) => spec_partition_of(groups),
            None => None,
        }
    } else {
        None
    }
}

/// The partition that a match of the pattern names.
pub fn partition_of(groups: &Vec<Option<String>>) -> (partition: Option<i8>)
    ensures
        partition == spec_partition_of(groups_view(Some(*groups))->Some_0),
{
    if groups.len() != 2 {
        return None;
    }
    match &groups[1] {
        Some(digit) => parse_i8(digit.as_str()),
        None => None,
    }
}

/// Searches what the boot loader's environment printed with a pattern, and
/// reads the partition that the match names.
pub fn partition_in(pattern: &str, output: &[u8]) -> (partition: Option<i8>)
    ensures
        partition == spec_partition_in(pattern@, output@),
{
    let pattern = match compile(pattern) {
        Some(pattern) => pattern,
        None => return None,
    };
    let text = match core::str::from_utf8(output) {
        Ok(text) => text,
        Err(_) => return None,
    };
    proof {
        vstd::utf8::encode_utf8_decode_utf8(text@);
    }
    match captures(&pattern, text) {
        Some(groups) => partition_of(&groups),
        None => None,
    }
}

/// The partition that the device has booted from, read from what the boot
/// loader's environment printed for `ota_boot_partition`. There is none
/// where the bytes are no text, the pattern does not match or no number
/// was captured.
pub fn boot_partition(output: &[u8]) -> (partition: Option<i8>)
    ensures
        partition == spec_partition_in(boot_partition_pattern(), output@),
{
    partition_in(r"ota_boot_partition=(?P<partition>\d)", output)
}

/// A partition of a block device.
#[derive(Debug)]
pub struct Device {
    path: String,
    num: i8,
    partition: i8,
}

impl Device {
    /// The path of the device file.
    pub closed spec fn path(&self) -> Seq<char> {
        self.path@
    }

    /// The number of the block device.
    pub closed spec fn num(&self) -> i8 {
        self.num
    }

    /// The number of the partition.
    pub closed spec fn partition(&self) -> i8 {
        self.partition
    }

    pub fn new(path: String, num: i8, partition: i8) -> (device: Self)
        ensures
            device.path() == path@,
            device.num() == num,
            device.partition() == partition,
    {
        Device { path, num, partition }
    }

    /// The path of the device file.
    pub fn device_path(&self) -> (path: &String)
        ensures
            path@ == self.path(),
    {
        &self.path
    }

    /// The number of the partition.
    pub fn partition_number(&self) -> (partition: i8)
        ensures
            partition == self.partition(),
    {
        self.partition
    }
}

/// The partitions of an updater.
#[derive(Debug)]
pub struct Updater {
    primary: Device,
    secondary: Device,
}

impl Updater {
    /// The partition that the device runs from.
    pub closed spec fn primary(&self) -> Device {
        self.primary
    }

    /// The partition that the next image is written to.
    pub closed spec fn secondary(&self) -> Device {
        self.secondary
    }

    pub fn new(primary: Device, secondary: Device) -> (updater: Self)
        ensures
            updater.primary() == primary,
            updater.secondary() == secondary,
    {
        Updater { primary, secondary }
    }

    /// The updater of a device that has booted from the given partition:
    /// from the third partition of the card it runs from the third and
    /// updates the second, else the other way round.
    pub fn for_boot_partition(partition: i8) -> (updater: Self)
        ensures
            updater.primary().partition() == (if partition == 3 {
                3i8
            } else {
                2i8
            }),
            updater.secondary().partition() == (if partition == 3 {
                2i8
            } else {
                3i8
            }),
            updater.primary().num() == 0,
            updater.secondary().num() == 0,
            updater.primary().path() == (if partition == 3 {
                "/dev/mmcblk0p3"@
            } else {
                "/dev/mmcblk0p2"@
            }),
            updater.secondary().path() == (if partition == 3 {
                "/dev/mmcblk0p2"@
            } else {
                "/dev/mmcblk0p3"@
            }),
    {
        if partition == 3 {
            Updater::new(
                Device::new("/dev/mmcblk0p3".to_owned(), 0, 3),
                Device::new("/dev/mmcblk0p2".to_owned(), 0, 2),
            )
        } else {
            Updater::new(
                Device::new("/dev/mmcblk0p2".to_owned(), 0, 2),
                Device::new("/dev/mmcblk0p3".to_owned(), 0, 3),
            )
        }
    }

    /// Makes the partition that the next image was written to the one to
    /// run from, and returns its number: the one to boot from next.
    pub fn swap(&mut self) -> (partition: i8)
        ensures
            partition == old(self).secondary().partition(),
            final(self).primary() == old(self).secondary(),
            final(self).secondary() == old(self).primary(),
    {
        let partition = self.secondary.partition;
        core::mem::swap(&mut self.primary, &mut self.secondary);
        partition
    }

    /// The path of the device file that the next image is written to.
    pub fn load_path(&self) -> (path: &String)
        ensures
            path@ == self.secondary().path(),
    {
        &self.secondary.path
    }
}

} // verus!
