//! Finding graphics cards below /sys and reading the small files that describe them.
use crate::double::Double;
use crate::formula::{scaled, Formula};
use crate::text::{
    chars_of, contents, decimal_form, digit, has_char, law_unsigned_round_trip,
    lemma_digits_read_back, lemma_trim_tail, lines, lines_of, parse_unsigned, same, starts_with,
    string_of, trim, trimmed, unsigned_value, white,
};
use vstd::prelude::*;
use vstd::slice::slice_subrange;

verus! {

/// Why a card cannot serve as a source.
#[derive(Debug)]
pub enum SourceError {
    NoAmdCard,
    NoAmdHwmon,
    NoAmdMetrics,
    NoIntelCard,
    NoIntelHwmon,
    NoIntelMetrics,
    NoNvidiaCard,
    /// Reading failed, for the given reason.
    Io(String),
}

impl SourceError {
    /// The sentence that the error is reported with.
    pub open spec fn sentence(self) -> Seq<char> {
        match self {
            SourceError::NoAmdCard => "No AMD GPU found in /sys/class/drm"@,
            SourceError::NoAmdHwmon => "No hwmon directory found for AMD GPU"@,
            SourceError::NoAmdMetrics => "AMD GPU found but no readable metrics"@,
            SourceError::NoIntelCard => "No Intel GPU found in /sys/class/drm"@,
            SourceError::NoIntelHwmon => "No hwmon found"@,
            SourceError::NoIntelMetrics => "Intel GPU found but no hwmon metrics available"@,
            SourceError::NoNvidiaCard => "No NVIDIA GPUs found"@,
            SourceError::Io(reason) => reason@,
        }
    }

    /// The sentence that the error is reported with.
    pub fn to_string(&self) -> (r: String)
        ensures
            r@ == self.sentence(),
            *self matches SourceError::Io(reason) ==> r@ == reason@,
    {
        match self {
            SourceError::NoAmdCard => "No AMD GPU found in /sys/class/drm".to_owned(),
            SourceError::NoAmdHwmon => "No hwmon directory found for AMD GPU".to_owned(),
            SourceError::NoAmdMetrics => "AMD GPU found but no readable metrics".to_owned(),
            SourceError::NoIntelCard => "No Intel GPU found in /sys/class/drm".to_owned(),
            SourceError::NoIntelHwmon => "No hwmon found".to_owned(),
            SourceError::NoIntelMetrics => {
                "Intel GPU found but no hwmon metrics available".to_owned()
            },
            SourceError::NoNvidiaCard => "No NVIDIA GPUs found".to_owned(),
            SourceError::Io(reason) => reason.clone(),
        }
    }
}

/// An entry of a directory, in the order of the listing: its name, or the reason why it could
/// not be read.
#[derive(Debug)]
pub enum DirEntry {
    Named(String),
    Unreadable(String),
}

/// An entry of the directory of graphics devices: its name and what its vendor file holds, or
/// the reason why it could not be read.
#[derive(Debug)]
pub enum DrmEntry {
    Device { name: String, vendor: Option<String> },
    Unreadable(String),
}

/// Whether the name is that of a card, and not of a connector of one.
pub open spec fn card_name(name: Seq<char>) -> bool {
    "card"@.is_prefix_of(name) && !name.contains('-')
}

/// Whether a directory entry names a card.
pub fn is_card_name(name: &str) -> (r: bool)
    ensures
        r == card_name(name@),
{
    let chars: Vec<char> = chars_of(name);
    starts_with(chars.as_slice(), "card") && !has_char(chars.as_slice(), '-')
}

impl DrmEntry {
    /// Whether the entry is a card of the given vendor.
    pub open spec fn is_card_of(self, id: Seq<char>) -> bool {
        match self {
            DrmEntry::Device { name, vendor: Some(text) } => card_name(name@) && trimmed(text@)
                == id,
            _ => false,
        }
    }

    /// Whether a search for a card of the vendor ends at the entry.
    pub open spec fn ends_search(self, id: Seq<char>) -> bool {
        self is Unreadable || self.is_card_of(id)
    }
}

/// The first card of the given vendor, by its place in the listing. An entry that cannot be read
/// ends the search if it comes first.
pub fn find_card(entries: &Vec<DrmEntry>, id: &str) -> (r: Result<Option<usize>, SourceError>)
    ensures
        match r {
            Ok(Some(i)) => {
                &&& i < entries.len()
                &&& entries[i as int].is_card_of(id@)
                &&& forall|j: int| 0 <= j < i ==> !(#[trigger] entries[j]).ends_search(id@)
            },
            Ok(None) => forall|j: int|
                0 <= j < entries.len() ==> !(#[trigger] entries[j]).ends_search(id@),
            Err(e) => exists|i: int|
                {
                    &&& 0 <= i < entries.len()
                    &&& (#[trigger] entries[i]) matches DrmEntry::Unreadable(reason)
                    &&& e == SourceError::Io(reason)
                    &&& forall|j: int| 0 <= j < i ==> !(#[trigger] entries[j]).ends_search(id@)
                },
        },
{
    let wanted: Vec<char> = chars_of(id);
    let mut i: usize = 0;
    while i < entries.len()
        invariant
            i <= entries.len(),
            wanted@ == id@,
            forall|j: int| 0 <= j < i ==> !(#[trigger] entries[j]).ends_search(id@),
        decreases entries.len() - i,
    {
        match &entries[i] {
            DrmEntry::Unreadable(reason) => {
                assert(entries[i as int] matches DrmEntry::Unreadable(text) && text == *reason);
                return Err(SourceError::Io(reason.clone()));
            },
            DrmEntry::Device { name, vendor } => {
                if is_card_name(name.as_str()) {
                    if let Some(text) = vendor {
                        let chars: Vec<char> = chars_of(text.as_str());
                        if same(trim(chars.as_slice()), wanted.as_slice()) {
                            return Ok(Some(i));
                        }
                    }
                }
            },
        }
        i = i + 1;
    }
    Ok(None)
}

impl DirEntry {
    /// Whether the entry is a directory of sensors.
    pub open spec fn is_hwmon(self) -> bool {
        self matches DirEntry::Named(name) && "hwmon"@.is_prefix_of(name@)
    }

    /// Whether a search for a directory of sensors ends at the entry.
    pub open spec fn ends_search(self) -> bool {
        self is Unreadable || self.is_hwmon()
    }
}

/// The first directory of sensors, by its place in the listing. An entry that cannot be read
/// ends the search if it comes first.
pub fn find_hwmon(entries: &Vec<DirEntry>) -> (r: Result<Option<usize>, SourceError>)
    ensures
        match r {
            Ok(Some(i)) => {
                &&& i < entries.len()
                &&& entries[i as int].is_hwmon()
                &&& forall|j: int| 0 <= j < i ==> !(#[trigger] entries[j]).ends_search()
            },
            Ok(None) => forall|j: int|
                0 <= j < entries.len() ==> !(#[trigger] entries[j]).ends_search(),
            Err(e) => exists|i: int|
                {
                    &&& 0 <= i < entries.len()
                    &&& (#[trigger] entries[i]) matches DirEntry::Unreadable(reason)
                    &&& e == SourceError::Io(reason)
                    &&& forall|j: int| 0 <= j < i ==> !(#[trigger] entries[j]).ends_search()
                },
        },
{
    let mut i: usize = 0;
    while i < entries.len()
        invariant
            i <= entries.len(),
            forall|j: int| 0 <= j < i ==> !(#[trigger] entries[j]).ends_search(),
        decreases entries.len() - i,
    {
        match &entries[i] {
            DirEntry::Unreadable(reason) => {
                assert(entries[i as int] matches DirEntry::Unreadable(text) && text == *reason);
                return Err(SourceError::Io(reason.clone()));
            },
            DirEntry::Named(name) => {
                if starts_with(chars_of(name.as_str()).as_slice(), "hwmon") {
                    return Ok(Some(i));
                }
            },
        }
        i = i + 1;
    }
    Ok(None)
}

/// Whether the line of an event file gives the device's slot.
pub open spec fn is_slot_line(line: Seq<char>) -> bool {
    "PCI_SLOT_NAME="@.is_prefix_of(line)
}

/// The slot that such a line gives.
pub open spec fn slot_in(line: Seq<char>) -> Seq<char> {
    line.skip("PCI_SLOT_NAME="@.len() as int)
}

/// The slot that a line gives, if it does.
pub fn read_slot(line: &[char]) -> (r: Option<String>)
    ensures
        match r {
            Some(slot) => is_slot_line(line@) && slot@ == slot_in(line@),
            None => !is_slot_line(line@),
        },
{
    if starts_with(line, "PCI_SLOT_NAME=") {
        let key: Vec<char> = chars_of("PCI_SLOT_NAME=");
        let slot: &[char] = slice_subrange(line, key.len(), line.len());
        assert(slot@ =~= slot_in(line@));
        Some(string_of(slot))
    } else {
        None
    }
}

/// The slot that the first such line from place `i` on gives.
pub open spec fn first_slot(lines: Seq<Seq<char>>, i: int) -> Option<Seq<char>>
    decreases lines.len() - i,
{
    if i >= lines.len() {
        None
    } else if is_slot_line(lines[i]) {
        Some(slot_in(lines[i]))
    } else {
        first_slot(lines, i + 1)
    }
}

pub open spec fn first_slot_of(uevent: Option<String>) -> Option<Seq<char>> {
    match uevent {
        Some(text) => first_slot(lines_of(text@), 0),
        None => None,
    }
}

/// The slot that the first line of an event file with one gives.
pub fn pci_slot(uevent: &Option<String>) -> (r: Option<String>)
    ensures
        match r {
            Some(slot) => first_slot_of(*uevent) == Some(slot@),
            None => first_slot_of(*uevent) is None,
        },
{
    match uevent {
        Some(text) => {
            let chars: Vec<char> = chars_of(text.as_str());
            let rows: Vec<&[char]> = lines(chars.as_slice());
            let ghost spec_rows = lines_of(text@);
            let mut i: usize = 0;
            while i < rows.len()
                invariant
                    i <= rows.len(),
                    contents(rows@) == spec_rows,
                    first_slot_of(*uevent) == first_slot(spec_rows, i as int),
                decreases rows.len() - i,
            {
                let row: &[char] = rows[i];
                assert(contents(rows@)[i as int] == row@);
                let slot: Option<String> = read_slot(row);
                if slot.is_some() {
                    return slot;
                }
                i = i + 1;
            }
            None
        },
        None => None,
    }
}

/// What a file of one unsigned integer holds, white space around it aside.
pub open spec fn number_in(content: Option<String>) -> Option<u64> {
    match content {
        Some(text) => match unsigned_value(trimmed(text@), u64::MAX as nat) {
            Some(n) => Some(n as u64),
            None => None,
        },
        None => None,
    }
}

/// Reads the content of a file of one unsigned integer; nothing if the file could not be read or
/// holds something else.
pub fn read_sysfs_u64(content: &Option<String>) -> (r: Option<u64>)
    ensures
        r == number_in(*content),
{
    match content {
        Some(text) => {
            let chars: Vec<char> = chars_of(text.as_str());
            parse_unsigned(trim(chars.as_slice()), u64::MAX)
        },
        None => None,
    }
}

/// Bytes in a mebibyte.
pub const MEBIBYTE: u64 = 1024 * 1024;

pub open spec fn mebibytes_in(content: Option<String>) -> Option<u64> {
    match number_in(content) {
        Some(bytes) => Some(bytes / MEBIBYTE),
        None => None,
    }
}

/// Whole mebibytes, from the number of bytes that a file holds.
pub fn read_mebibytes(content: &Option<String>) -> (r: Option<u64>)
    ensures
        r == mebibytes_in(*content),
{
    match read_sysfs_u64(content) {
        Some(bytes) => Some(bytes / MEBIBYTE),
        None => None,
    }
}

/// Degrees, from thousandths of a degree.
pub open spec fn degrees(value: Option<Double>) -> Option<Formula> {
    scaled(value, 1000)
}

/// Watts, from millionths of a watt.
pub open spec fn watts(value: Option<Double>) -> Option<Formula> {
    scaled(value, 1_000_000)
}

/// A file's permission bits and its owners.
#[derive(Clone, Copy, Debug)]
pub struct FileAccess {
    pub mode: u32,
    pub uid: u32,
    pub gid: u32,
}

/// Whether a user of the given identity may write to the file: the superuser to every file that
/// exists, its owner, its group and others where their write bit is set.
pub open spec fn may_write(access: Option<FileAccess>, my_uid: u32, my_gid: u32) -> bool {
    match access {
        Some(file) => {
            ||| my_uid == 0
            ||| my_uid == file.uid && file.mode & 0o200 != 0
            ||| my_gid == file.gid && file.mode & 0o020 != 0
            ||| file.mode & 0o002 != 0
        },
        None => false,
    }
}

/// Whether a user of the given identity may write to the file, which may be missing.
pub fn is_writable(access: Option<FileAccess>, my_uid: u32, my_gid: u32) -> (r: bool)
    ensures
        r == may_write(access, my_uid, my_gid),
{
    match access {
        Some(file) => {
            my_uid == 0 || (my_uid == file.uid && (file.mode & 0o200) != 0) || (my_gid == file.gid
                && (file.mode & 0o020) != 0) || (file.mode & 0o002) != 0
        },
        None => false,
    }
}

/// A number that is written to a file reads back as itself, also with white space behind it, as
/// drivers add.
pub proof fn law_number_reads_back(content: String, n: u64, tail: Seq<char>)
    requires
        content@ == decimal_form(n as int) + tail,
        forall|i: int| 0 <= i < tail.len() ==> white(#[trigger] tail[i]),
    ensures
        number_in(Some(content)) == Some(n),
{
    let text = decimal_form(n as int);
    lemma_digits_read_back(n as nat);
    assert(digit(text[0]));
    assert(digit(text[text.len() - 1]));
    lemma_trim_tail(text, tail);
    law_unsigned_round_trip(n as nat, u64::MAX as nat);
}

} // verus!
