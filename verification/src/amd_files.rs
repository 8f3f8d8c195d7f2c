//! The files of the amdgpu driver: clock tables, the overdrive table, names and temperature
//! labels.
use crate::sysfs::{first_slot_of, is_slot_line, pci_slot, read_slot, slot_in};
use crate::text::{
    chars_of, contents, decimal_form, digit, digits_of, ends_with, format_unsigned, is_white,
    joined, law_signed_round_trip, lemma_digits_read_back, lines, lines_of, lowercase, parse_signed,
    parse_unsigned, pieces, same_text, signed_value, split, starts_with, string_of,
    strip_suffixes, trim, trimmed, unsigned_value, white, without_suffix, Separator,
};
use vstd::prelude::*;
use vstd::slice::slice_subrange;

verus! {

// ---- Clock tables ----

/// Whether the word gives a clock in megahertz.
pub open spec fn has_clock_unit(word: Seq<char>) -> bool {
    "Mhz"@.is_suffix_of(word) || "MHz"@.is_suffix_of(word)
}

/// The first word from place `i` on that gives a clock.
pub open spec fn clock_word(words: Seq<Seq<char>>, i: int) -> Option<Seq<char>>
    decreases words.len() - i,
{
    if i >= words.len() {
        None
    } else if has_clock_unit(words[i]) {
        Some(words[i])
    } else {
        clock_word(words, i + 1)
    }
}

/// The clock that a line of a table gives: the number of its first word with a unit.
pub open spec fn clock_in(line: Seq<char>) -> Option<u32> {
    match clock_word(pieces(line, Separator::White), 0) {
        Some(word) => match unsigned_value(
            without_suffix(without_suffix(word, "Mhz"@), "MHz"@),
            u32::MAX as nat,
        ) {
            Some(n) => Some(n as u32),
            None => None,
        },
        None => None,
    }
}

fn read_clock(line: &[char]) -> (r: Option<u32>)
    ensures
        r == clock_in(line@),
{
    let words: Vec<&[char]> = split(line, Separator::White);
    let ghost spec_words = pieces(line@, Separator::White);
    let mut i: usize = 0;
    while i < words.len()
        invariant
            i <= words.len(),
            contents(words@) == spec_words,
            spec_words == pieces(line@, Separator::White),
            clock_word(spec_words, 0) == clock_word(spec_words, i as int),
        decreases words.len() - i,
    {
        let word: &[char] = words[i];
        assert(contents(words@)[i as int] == word@);
        if ends_with(word, "Mhz") || ends_with(word, "MHz") {
            let bare: &[char] = strip_suffixes(strip_suffixes(word, "Mhz"), "MHz");
            return match parse_unsigned(bare, 0xFFFF_FFFF) {
                Some(n) => Some(n as u32),
                None => None,
            };
        }
        i = i + 1;
    }
    None
}

/// Whether the line of a table is the active one.
pub open spec fn is_active(line: Seq<char>) -> bool {
    line.len() > 0 && line.last() == '*'
}

/// The clock of the first active line from place `i` on.
pub open spec fn active_clock(table: Seq<Seq<char>>, i: int) -> Option<u32>
    decreases table.len() - i,
{
    if i >= table.len() {
        None
    } else if is_active(table[i]) {
        clock_in(table[i])
    } else {
        active_clock(table, i + 1)
    }
}

pub open spec fn clock_of(table: Option<String>) -> Option<u32> {
    match table {
        Some(text) => active_clock(lines_of(text@), 0),
        None => None,
    }
}

/// Reads the currently active clock from a table. The active line is marked with a trailing
/// '*'.
pub fn read_amd_clock(table: &Option<String>) -> (r: Option<u32>)
    ensures
        r == clock_of(*table),
{
    match table {
        Some(text) => {
            let chars: Vec<char> = chars_of(text.as_str());
            let rows: Vec<&[char]> = lines(chars.as_slice());
            let ghost spec_rows = lines_of(text@);
            let mut i: usize = 0;
            while i < rows.len()
                invariant
                    i <= rows.len(),
                    contents(rows@) == spec_rows,
                    active_clock(spec_rows, 0) == active_clock(spec_rows, i as int),
                    *table is Some,
                    clock_of(*table) == active_clock(spec_rows, 0),
                decreases rows.len() - i,
            {
                let row: &[char] = rows[i];
                assert(contents(rows@)[i as int] == row@);
                if row.len() > 0 && row[row.len() - 1] == '*' {
                    return read_clock(row);
                }
                i = i + 1;
            }
            None
        },
        None => None,
    }
}

pub open spec fn clock_max_of(table: Option<String>) -> Option<u32> {
    match table {
        Some(text) => if lines_of(text@).len() == 0 {
            None
        } else {
            clock_in(lines_of(text@).last())
        },
        None => None,
    }
}

/// Reads the maximum clock, which the last line of a table gives.
pub fn read_amd_clock_max(table: &Option<String>) -> (r: Option<u32>)
    ensures
        r == clock_max_of(*table),
{
    match table {
        Some(text) => {
            let chars: Vec<char> = chars_of(text.as_str());
            let rows: Vec<&[char]> = lines(chars.as_slice());
            if rows.len() == 0 {
                assert(contents(rows@).len() == 0);
                return None;
            }
            let row: &[char] = rows[rows.len() - 1];
            assert(contents(rows@).last() == row@);
            read_clock(row)
        },
        None => None,
    }
}

// ---- The overdrive table ----

/// An offset in millivolts, such as "0mV" or "-50mV".
pub open spec fn offset_in(text: Seq<char>) -> Option<i32> {
    match signed_value(without_suffix(without_suffix(text, "mV"@), "mv"@)) {
        Some(n) => Some(n as i32),
        None => None,
    }
}

fn read_offset(text: &[char]) -> (r: Option<i32>)
    ensures
        r == offset_in(text@),
{
    parse_signed(strip_suffixes(strip_suffixes(text, "mV"), "mv"))
}

/// The offset that a line which names it gives: the name, a colon or white space, and the number.
/// A line with anything else gives none.
pub open spec fn named_offset(line: Seq<char>) -> Option<i32> {
    let rest = line.skip("VDDGFX_OFFSET"@.len() as int);
    if "VDDGFX_OFFSET"@.is_prefix_of(line) && rest.len() > 0 && (rest[0] == ':' || white(rest[0])) {
        offset_in(trimmed(rest.drop_first()))
    } else {
        None
    }
}

fn read_named_offset(line: &[char]) -> (r: Option<i32>)
    ensures
        r == named_offset(line@),
{
    if !starts_with(line, "VDDGFX_OFFSET") {
        return None;
    }
    let name: Vec<char> = chars_of("VDDGFX_OFFSET");
    let rest: &[char] = slice_subrange(line, name.len(), line.len());
    assert(rest@ =~= line@.skip(name@.len() as int));
    if rest.len() > 0 && (rest[0] == ':' || is_white(rest[0])) {
        let value: &[char] = slice_subrange(rest, 1, rest.len());
        assert(value@ =~= rest@.drop_first());
        read_offset(trim(value))
    } else {
        None
    }
}

/// The voltage offset that the section of the table gives, from line `i` on. The section opens
/// with a headline and ends where another one opens.
pub open spec fn section_offset(table: Seq<Seq<char>>, i: int, in_section: bool) -> Option<i32>
    decreases table.len() - i,
{
    if i >= table.len() {
        None
    } else {
        let line = trimmed(table[i]);
        if "OD_VDDGFX_OFFSET:"@.is_prefix_of(line) {
            section_offset(table, i + 1, true)
        } else if !in_section {
            section_offset(table, i + 1, false)
        } else if offset_in(line) is Some {
            offset_in(line)
        } else if "OD_"@.is_prefix_of(line) {
            None
        } else {
            section_offset(table, i + 1, true)
        }
    }
}

fn read_section(rows: &Vec<&[char]>) -> (r: Option<i32>)
    ensures
        r == section_offset(contents(rows@), 0, false),
{
    let ghost table = contents(rows@);
    let mut in_section: bool = false;
    let mut i: usize = 0;
    while i < rows.len()
        invariant
            i <= rows.len(),
            contents(rows@) == table,
            section_offset(table, 0, false) == section_offset(table, i as int, in_section),
        decreases rows.len() - i,
    {
        let row: &[char] = rows[i];
        assert(contents(rows@)[i as int] == row@);
        let line: &[char] = trim(row);
        i = i + 1;
        if starts_with(line, "OD_VDDGFX_OFFSET:") {
            in_section = true;
            continue ;
        }
        if in_section {
            let offset: Option<i32> = read_offset(line);
            if offset.is_some() {
                return offset;
            }
            if starts_with(line, "OD_") {
                return None;
            }
        }
    }
    None
}

/// The voltage offset that the first line from place `i` on which names it gives.
pub open spec fn first_named_offset(table: Seq<Seq<char>>, i: int) -> Option<i32>
    decreases table.len() - i,
{
    if i >= table.len() {
        None
    } else if named_offset(trimmed(table[i])) is Some {
        named_offset(trimmed(table[i]))
    } else {
        first_named_offset(table, i + 1)
    }
}

fn read_first_named(rows: &Vec<&[char]>) -> (r: Option<i32>)
    ensures
        r == first_named_offset(contents(rows@), 0),
{
    let ghost table = contents(rows@);
    let mut i: usize = 0;
    while i < rows.len()
        invariant
            i <= rows.len(),
            contents(rows@) == table,
            first_named_offset(table, 0) == first_named_offset(table, i as int),
        decreases rows.len() - i,
    {
        let row: &[char] = rows[i];
        assert(contents(rows@)[i as int] == row@);
        let offset: Option<i32> = read_named_offset(trim(row));
        if offset.is_some() {
            return offset;
        }
        i = i + 1;
    }
    None
}

/// The voltage offset that the lines of the table give: the one of its section, or else the one
/// of a line that names it.
pub open spec fn table_offset(table: Seq<Seq<char>>) -> Option<i32> {
    if section_offset(table, 0, false) is Some {
        section_offset(table, 0, false)
    } else {
        first_named_offset(table, 0)
    }
}

pub open spec fn voltage_offset_of(table: Option<String>) -> Option<i32> {
    match table {
        Some(text) => table_offset(lines_of(text@)),
        None => None,
    }
}

/// Reads the current voltage offset from the overdrive table. Looks for the OD_VDDGFX_OFFSET
/// section or a "VDDGFX_OFFSET" line.
pub fn read_voltage_offset(table: &Option<String>) -> (r: Option<i32>)
    ensures
        r == voltage_offset_of(*table),
{
    match table {
        Some(text) => {
            let chars: Vec<char> = chars_of(text.as_str());
            let rows: Vec<&[char]> = lines(chars.as_slice());
            let offset: Option<i32> = read_section(&rows);
            if offset.is_some() {
                return offset;
            }
            read_first_named(&rows)
        },
        None => None,
    }
}

/// An offset in the form in which the driver lists it reads back as itself.
pub proof fn law_offset_reads_back(mv: i32)
    ensures
        offset_in(decimal_form(mv as int) + "mV"@) == Some(mv),
{
    let text = decimal_form(mv as int);
    let listed = text + "mV"@;
    reveal_strlit("mV");
    reveal_strlit("mv");
    lemma_digits_read_back(if mv < 0 { -mv as nat } else { mv as nat });
    let digits = digits_of(if mv < 0 { -mv as nat } else { mv as nat });
    assert(digit(digits[digits.len() - 1]));
    assert(text.last() == digits.last());
    assert("mV"@.is_suffix_of(listed));
    assert(listed.take(listed.len() - 2) =~= text);
    assert(!"mV"@.is_suffix_of(text)) by {
        if "mV"@.is_suffix_of(text) {
            assert(text.last() == "mV"@[1]);
        }
    }
    assert(!"mv"@.is_suffix_of(text)) by {
        if "mv"@.is_suffix_of(text) {
            assert(text.last() == "mv"@[1]);
        }
    }
    reveal_with_fuel(without_suffix, 2);
    law_signed_round_trip(mv);
}

proof fn lemma_section_opens(table: Seq<Seq<char>>, i: int, k: int)
    requires
        0 <= i <= k < table.len(),
        "OD_VDDGFX_OFFSET:"@.is_prefix_of(trimmed(table[k])),
        forall|j: int|
            i <= j < k ==> !"OD_VDDGFX_OFFSET:"@.is_prefix_of(trimmed(#[trigger] table[j])),
    ensures
        section_offset(table, i, false) == section_offset(table, k + 1, true),
    decreases k - i,
{
    if i < k {
        lemma_section_opens(table, i + 1, k);
    }
}

/// The offset that the table lists below the first headline of its section is the one that is
/// read, whatever stands in the other lines.
pub proof fn law_listed_offset_is_found(table: Seq<Seq<char>>, k: int, mv: i32)
    requires
        0 <= k < table.len() - 1,
        "OD_VDDGFX_OFFSET:"@.is_prefix_of(trimmed(table[k])),
        trimmed(table[k + 1]) == decimal_form(mv as int) + "mV"@,
        forall|j: int|
            0 <= j < k ==> !"OD_VDDGFX_OFFSET:"@.is_prefix_of(trimmed(#[trigger] table[j])),
    ensures
        table_offset(table) == Some(mv),
{
    lemma_section_opens(table, 0, k);
    let line = trimmed(table[k + 1]);
    reveal_strlit("mV");
    reveal_strlit("OD_VDDGFX_OFFSET:");
    lemma_digits_read_back(if mv < 0 { -mv as nat } else { mv as nat });
    let digits = digits_of(if mv < 0 { -mv as nat } else { mv as nat });
    assert(digit(digits[0]));
    assert(line[0] == decimal_form(mv as int)[0]);
    assert(!"OD_VDDGFX_OFFSET:"@.is_prefix_of(line)) by {
        if "OD_VDDGFX_OFFSET:"@.is_prefix_of(line) {
            assert(line[0] == "OD_VDDGFX_OFFSET:"@[0]);
        }
    }
    law_offset_reads_back(mv);
}

/// The first line that names the offset counts where the section gives none, and nowhere else.
pub proof fn law_named_offset_comes_second(table: Seq<Seq<char>>, k: int)
    requires
        0 <= k < table.len(),
        named_offset(trimmed(table[k])) is Some,
        forall|j: int| 0 <= j < k ==> named_offset(trimmed(#[trigger] table[j])) is None,
    ensures
        table_offset(table) == if section_offset(table, 0, false) is Some {
            section_offset(table, 0, false)
        } else {
            named_offset(trimmed(table[k]))
        },
{
    lemma_first_named(table, 0, k);
}

proof fn lemma_first_named(table: Seq<Seq<char>>, i: int, k: int)
    requires
        0 <= i <= k < table.len(),
        named_offset(trimmed(table[k])) is Some,
        forall|j: int| i <= j < k ==> named_offset(trimmed(#[trigger] table[j])) is None,
    ensures
        first_named_offset(table, i) == named_offset(trimmed(table[k])),
    decreases k - i,
{
    if i < k {
        lemma_first_named(table, i + 1, k);
    }
}

// ---- Names ----

/// The text without the white space around it, unless nothing is left.
pub open spec fn name_in(content: Option<String>) -> Option<Seq<char>> {
    match content {
        Some(text) => if trimmed(text@).len() == 0 {
            None
        } else {
            Some(trimmed(text@))
        },
        None => None,
    }
}

fn read_name(content: &Option<String>) -> (r: Option<String>)
    ensures
        match r {
            Some(name) => name_in(*content) == Some(name@),
            None => name_in(*content) is None,
        },
{
    match content {
        Some(text) => {
            let chars: Vec<char> = chars_of(text.as_str());
            let name: &[char] = trim(chars.as_slice());
            if name.len() == 0 {
                None
            } else {
                Some(string_of(name))
            }
        },
        None => None,
    }
}

/// The slot that the last of these lines with one gives.
pub open spec fn last_slot(lines: Seq<Seq<char>>) -> Option<Seq<char>>
    decreases lines.len(),
{
    if lines.len() == 0 {
        None
    } else if is_slot_line(lines.last()) {
        Some(slot_in(lines.last()))
    } else {
        last_slot(lines.drop_last())
    }
}

pub open spec fn last_slot_of(uevent: Option<String>) -> Option<Seq<char>> {
    match uevent {
        Some(text) => last_slot(lines_of(text@)),
        None => None,
    }
}

/// The slot to ask `lspci` about: the one that the last line of an event file with one gives.
pub fn lspci_slot(uevent: &Option<String>) -> (r: Option<String>)
    ensures
        match r {
            Some(slot) => last_slot_of(*uevent) == Some(slot@),
            None => last_slot_of(*uevent) is None,
        },
{
    match uevent {
        Some(text) => {
            let chars: Vec<char> = chars_of(text.as_str());
            let rows: Vec<&[char]> = lines(chars.as_slice());
            let ghost spec_rows = lines_of(text@);
            let mut found: Option<String> = None;
            let mut i: usize = 0;
            while i < rows.len()
                invariant
                    i <= rows.len(),
                    contents(rows@) == spec_rows,
                    match found {
                        Some(slot) => last_slot(spec_rows.take(i as int)) == Some(slot@),
                        None => last_slot(spec_rows.take(i as int)) is None,
                    },
                decreases rows.len() - i,
            {
                let row: &[char] = rows[i];
                assert(contents(rows@)[i as int] == row@);
                assert(spec_rows.take(i + 1).drop_last() =~= spec_rows.take(i as int));
                let slot: Option<String> = read_slot(row);
                if slot.is_some() {
                    found = slot;
                }
                i = i + 1;
            }
            assert(spec_rows.take(i as int) =~= spec_rows);
            found
        },
        None => None,
    }
}

/// The vendor and device that a line of `lspci -m` names. Its fields stand in quotation marks:
/// after the slot come the class, the vendor and the device.
pub open spec fn lspci_device(output: Seq<char>) -> Option<Seq<char>> {
    let rows = lines_of(output);
    let fields = pieces(
        if rows.len() == 0 {
            Seq::empty()
        } else {
            rows[0]
        },
        Separator::Char('"'),
    );
    if fields.len() >= 7 && trimmed(fields[5]).len() > 0 {
        Some(trimmed(fields[3]) + " "@ + trimmed(fields[5]))
    } else {
        None
    }
}

/// Reads the vendor and device that the first line of `lspci -m` names.
pub fn read_lspci(output: &str) -> (r: Option<String>)
    ensures
        match r {
            Some(name) => lspci_device(output@) == Some(name@),
            None => lspci_device(output@) is None,
        },
{
    let chars: Vec<char> = chars_of(output);
    let rows: Vec<&[char]> = lines(chars.as_slice());
    let none: Vec<char> = Vec::new();
    let row: &[char] = if rows.len() == 0 {
        none.as_slice()
    } else {
        rows[0]
    };
    assert(row@ == if lines_of(output@).len() == 0 {
        Seq::<char>::empty()
    } else {
        lines_of(output@)[0]
    }) by {
        assert(contents(rows@).len() == rows.len());
        if rows.len() > 0 {
            assert(contents(rows@)[0] == rows@[0]@);
        }
    }
    let fields: Vec<&[char]> = split(row, Separator::Char('"'));
    assert(contents(fields@).len() == fields.len());
    if fields.len() >= 7 {
        let device: &[char] = trim(fields[5]);
        let vendor: &[char] = trim(fields[3]);
        assert(contents(fields@)[5] == fields@[5]@);
        assert(contents(fields@)[3] == fields@[3]@);
        if device.len() > 0 {
            let start: String = joined(string_of(vendor).as_str(), " ");
            return Some(joined(start.as_str(), string_of(device).as_str()));
        }
    }
    None
}

/// What a card is called by the place of its device, when nothing better is known.
pub open spec fn place_name(uevent: Option<String>) -> Seq<char> {
    match first_slot_of(uevent) {
        Some(slot) => "AMD GPU ["@ + slot + "]"@,
        None => "AMD GPU"@,
    }
}

/// The card's name: the product's, or the label's, or the one that `lspci` knows for the
/// device's slot, or one made from the slot.
pub open spec fn gpu_name(
    product: Option<String>,
    label: Option<String>,
    uevent: Option<String>,
    lspci: Option<String>,
    uevent_again: Option<String>,
) -> Seq<char> {
    if let Some(name) = name_in(product) {
        name
    } else if let Some(name) = name_in(label) {
        name
    } else if last_slot_of(uevent) is Some && lspci is Some && lspci_device(
        lspci->Some_0@,
    ) is Some {
        lspci_device(lspci->Some_0@)->Some_0
    } else {
        place_name(uevent_again)
    }
}

/// Names a card from its product file, its label file, its event file and what `lspci` printed
/// for the slot of [`lspci_slot`], where it ran with success. The last resort reads the event
/// file once more.
pub fn read_gpu_name(
    product: &Option<String>,
    label: &Option<String>,
    uevent: &Option<String>,
    lspci: &Option<String>,
    uevent_again: &Option<String>,
) -> (r: String)
    ensures
        r@ == gpu_name(*product, *label, *uevent, *lspci, *uevent_again),
{
    if let Some(name) = read_name(product) {
        return name;
    }
    if let Some(name) = read_name(label) {
        return name;
    }
    if lspci_slot(uevent).is_some() {
        if let Some(output) = lspci {
            if let Some(name) = read_lspci(output.as_str()) {
                return name;
            }
        }
    }
    match pci_slot(uevent_again) {
        Some(slot) => joined(joined("AMD GPU [", slot.as_str()).as_str(), "]"),
        None => "AMD GPU".to_owned(),
    }
}

/// Whether a name has to be asked of `lspci`: neither the product file nor the label file gives
/// one.
pub fn needs_lspci(product: &Option<String>, label: &Option<String>) -> (r: bool)
    ensures
        r == (name_in(*product) is None && name_in(*label) is None),
{
    read_name(product).is_none() && read_name(label).is_none()
}

// ---- Temperature labels ----

/// How many temperature sensors are looked for. They are numbered from one.
pub const TEMP_SENSORS: usize = 10;

/// The name of the file that holds something about the sensor of the given number.
pub open spec fn sensor_file(sensor: usize, ending: Seq<char>) -> Seq<char> {
    "temp"@ + decimal_form(sensor as int) + ending
}

/// The name of the file with the label of the sensor of the given number.
pub fn label_file(sensor: usize) -> (r: String)
    ensures
        r@ == sensor_file(sensor, "_label"@),
{
    let start: String = joined("temp", format_unsigned(sensor as u64).as_str());
    joined(start.as_str(), "_label")
}

/// The name of the file with the reading of the sensor of the given number.
pub fn input_file(sensor: usize) -> (r: String)
    ensures
        r@ == sensor_file(sensor, "_input"@),
{
    let start: String = joined("temp", format_unsigned(sensor as u64).as_str());
    joined(start.as_str(), "_input")
}

/// What is known of one temperature sensor: its label file's content and whether its reading can
/// be had.
#[derive(Debug)]
pub struct TempSensor {
    pub label: Option<String>,
    pub has_input: bool,
}

impl TempSensor {
    /// The label that the sensor is known by, in small letters.
    pub open spec fn known_as(self) -> Option<Seq<char>> {
        match self.label {
            Some(text) => if self.has_input {
                Some(lowercase(trimmed(text@)))
            } else {
                None
            },
            None => None,
        }
    }
}

/// A label and the number of the sensor that it belongs to.
#[derive(Debug)]
struct TempLabel {
    label: String,
    sensor: usize,
}

/// Which sensor each label belongs to. No label occurs twice.
#[derive(Debug)]
pub struct TempLabels {
    entries: Vec<TempLabel>,
}

impl View for TempLabels {
    type V = Map<Seq<char>, usize>;

    closed spec fn view(&self) -> Map<Seq<char>, usize> {
        label_map(self.entries@)
    }
}

spec fn label_map(entries: Seq<TempLabel>) -> Map<Seq<char>, usize>
    decreases entries.len(),
{
    if entries.len() == 0 {
        Map::empty()
    } else {
        label_map(entries.drop_last()).insert(entries.last().label@, entries.last().sensor)
    }
}

spec fn distinct(entries: Seq<TempLabel>) -> bool {
    forall|i: int, j: int|
        0 <= i < j < entries.len() ==> (#[trigger] entries[i]).label@ != (
        #[trigger] entries[j]).label@
}

proof fn lemma_label_map(entries: Seq<TempLabel>, label: Seq<char>)
    requires
        distinct(entries),
    ensures
        label_map(entries).dom().contains(label) <==> exists|i: int|
            0 <= i < entries.len() && (#[trigger] entries[i]).label@ == label,
        forall|i: int|
            0 <= i < entries.len() && (#[trigger] entries[i]).label@ == label ==> label_map(
                entries,
            )[label] == entries[i].sensor,
    decreases entries.len(),
{
    if entries.len() > 0 {
        let rest = entries.drop_last();
        lemma_label_map(rest, label);
        if label_map(rest).dom().contains(label) {
            let i = choose|i: int| 0 <= i < rest.len() && (#[trigger] rest[i]).label@ == label;
            assert(entries[i].label@ == label);
        }
        if entries.last().label@ == label {
            assert(entries[entries.len() - 1].label@ == label);
        }
        assert forall|i: int| 0 <= i < entries.len() && (#[trigger] entries[i]).label@ == label
            implies label_map(entries)[label] == entries[i].sensor by {
            if i < rest.len() {
                assert(rest[i].label@ == label);
            }
        }
        if exists|i: int| 0 <= i < entries.len() && (#[trigger] entries[i]).label@ == label {
            let i = choose|i: int|
                0 <= i < entries.len() && (#[trigger] entries[i]).label@ == label;
            if i < rest.len() {
                assert(rest[i].label@ == label);
            }
        }
    }
}

impl TempLabels {
    #[verifier::type_invariant]
    spec fn wf(self) -> bool {
        distinct(self.entries@)
    }

    /// No labels.
    pub fn new() -> (r: TempLabels)
        ensures
            r@ == Map::<Seq<char>, usize>::empty(),
    {
        TempLabels { entries: Vec::new() }
    }

    fn position(&self, label: &str) -> (r: Option<usize>)
        ensures
            match r {
                Some(i) => i < self.entries.len() && self.entries[i as int].label@ == label@,
                None => forall|i: int|
                    0 <= i < self.entries.len() ==> (#[trigger] self.entries[i]).label@ != label@,
            },
    {
        let mut i: usize = 0;
        while i < self.entries.len()
            invariant
                i <= self.entries.len(),
                forall|j: int| 0 <= j < i ==> (#[trigger] self.entries[j]).label@ != label@,
            decreases self.entries.len() - i,
        {
            if same_text(self.entries[i].label.as_str(), label) {
                return Some(i);
            }
            i = i + 1;
        }
        None
    }

    /// The sensor that a label belongs to.
    pub fn get(&self, label: &str) -> (r: Option<usize>)
        ensures
            r == if self@.dom().contains(label@) {
                Some(self@[label@])
            } else {
                None
            },
    {
        proof {
            use_type_invariant(self);
            lemma_label_map(self.entries@, label@);
        }
        match self.position(label) {
            Some(i) => Some(self.entries[i].sensor),
            None => None,
        }
    }

    /// Gives a label to a sensor, and takes it from the one that had it.
    pub fn insert(&mut self, label: String, sensor: usize)
        ensures
            final(self)@ == old(self)@.insert(label@, sensor),
    {
        proof {
            use_type_invariant(&*self);
        }
        let ghost before = self.entries@;
        let ghost added = TempLabel { label, sensor };
        let place: Option<usize> = self.position(label.as_str());
        let mut entries: Vec<TempLabel> = Vec::new();
        std::mem::swap(&mut entries, &mut self.entries);
        if let Some(i) = place {
            let _ = entries.remove(i);
            proof {
                lemma_label_map_remove(before, i as int);
            }
        }
        let ghost rest = entries@;
        entries.push(TempLabel { label, sensor });
        proof {
            assert(entries@.drop_last() =~= rest);
            assert(label_map(entries@) =~= label_map(before).insert(added.label@, sensor));
            assert forall|a: int, b: int| 0 <= a < b < entries.len() implies (
            #[trigger] entries[a]).label@ != (#[trigger] entries[b]).label@ by {
                if let Some(i) = place {
                    let pa = if a < i { a } else { a + 1 };
                    assert(entries[a] == before[pa]);
                    if b < entries.len() - 1 {
                        let pb = if b < i { b } else { b + 1 };
                        assert(entries[b] == before[pb]);
                    } else {
                        assert(before[i as int].label@ == added.label@);
                    }
                }
            }
        }
        self.entries = entries;
    }
}

proof fn lemma_label_map_remove(entries: Seq<TempLabel>, i: int)
    requires
        distinct(entries),
        0 <= i < entries.len(),
    ensures
        label_map(entries.remove(i)) == label_map(entries).remove(entries[i].label@),
    decreases entries.len(),
{
    let (rest, last) = (entries.drop_last(), entries.last());
    if i == entries.len() - 1 {
        assert(entries.remove(i) =~= rest);
        lemma_label_map(rest, last.label@);
        assert(label_map(rest) =~= label_map(entries).remove(last.label@));
    } else {
        lemma_label_map_remove(rest, i);
        assert(entries.remove(i).drop_last() =~= rest.remove(i));
        assert(entries.remove(i).last() == last);
        assert(entries[i].label@ != entries[entries.len() - 1].label@);
        assert(label_map(entries.remove(i)) =~= label_map(entries).remove(entries[i].label@));
    }
}

/// Which sensor each label belongs to, sensors being numbered from one. A label that several
/// sensors have belongs to the last.
pub open spec fn labels_of(sensors: Seq<TempSensor>) -> Map<Seq<char>, usize>
    decreases sensors.len(),
{
    if sensors.len() == 0 {
        Map::empty()
    } else {
        match sensors.last().known_as() {
            Some(label) => labels_of(sensors.drop_last()).insert(label, sensors.len() as usize),
            None => labels_of(sensors.drop_last()),
        }
    }
}

/// Maps temperature labels (such as "edge", "junction", "mem") to the sensors' numbers.
pub fn build_temp_label_map(sensors: &Vec<TempSensor>) -> (r: TempLabels)
    ensures
        r@ == labels_of(sensors@),
{
    let mut r: TempLabels = TempLabels::new();
    let mut i: usize = 0;
    while i < sensors.len()
        invariant
            i <= sensors.len(),
            r@ == labels_of(sensors@.take(i as int)),
        decreases sensors.len() - i,
    {
        assert(sensors@.take(i + 1).drop_last() =~= sensors@.take(i as int));
        if let Some(text) = &sensors[i].label {
            if sensors[i].has_input {
                let chars: Vec<char> = chars_of(text.as_str());
                let label: String = string_of(trim(chars.as_slice()));
                r.insert(label.as_str().to_lowercase(), i + 1);
            }
        }
        i = i + 1;
    }
    assert(sensors@.take(i as int) =~= sensors@);
    r
}

/// A label belongs to the sensor with the highest number among those known by it, and to none
/// if no sensor is.
pub proof fn law_last_sensor_has_the_label(sensors: Seq<TempSensor>, label: Seq<char>)
    requires
        sensors.len() <= usize::MAX,
    ensures
        labels_of(sensors).dom().contains(label) <==> exists|i: int|
            0 <= i < sensors.len() && (#[trigger] sensors[i]).known_as() == Some(label),
        labels_of(sensors).dom().contains(label) ==> {
            let n = labels_of(sensors)[label] as int;
            &&& 1 <= n <= sensors.len()
            &&& sensors[n - 1].known_as() == Some(label)
            &&& forall|i: int|
                n <= i < sensors.len() ==> (#[trigger] sensors[i]).known_as() != Some(label)
        },
    decreases sensors.len(),
{
    if sensors.len() > 0 {
        let rest = sensors.drop_last();
        law_last_sensor_has_the_label(rest, label);
        assert(forall|i: int| 0 <= i < rest.len() ==> rest[i] == #[trigger] sensors[i]);
        if labels_of(rest).dom().contains(label) {
            let i = choose|i: int|
                0 <= i < rest.len() && (#[trigger] rest[i]).known_as() == Some(label);
            assert(sensors[i].known_as() == Some(label));
            assert(sensors[labels_of(rest)[label] - 1] == rest[labels_of(rest)[label] - 1]);
        }
        if sensors.last().known_as() == Some(label) {
            assert(sensors[sensors.len() - 1].known_as() == Some(label));
        }
    }
}

} // verus!
