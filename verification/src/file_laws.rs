//! What the files below /sys give, for every content.
use crate::amd_files::{
    active_clock, clock_in, clock_max_of, clock_of, clock_word, first_named_offset, gpu_name,
    last_slot, last_slot_of, lspci_device, named_offset, offset_in, section_offset, table_offset,
    voltage_offset_of, TempSensor,
};
use crate::double::Double;
use crate::formula::{exact, exact_clock, plain, Count, Formula};
use crate::sysfs::{
    card_name, degrees, first_slot, first_slot_of, is_slot_line, may_write, mebibytes_in,
    number_in, slot_in, watts, DirEntry, DrmEntry, FileAccess,
};
use crate::text::{
    all_digits, decimal, decimal_form, digit, digits_of, law_signed_round_trip,
    lemma_digits_read_back, lines_of, lowercase, pieces, trimmed, white, without_suffix,
    Separator,
};
use crate::text_laws::{
    glued, law_first_line, law_glued_texts_are_the_pieces, law_last_line, law_one_piece,
    law_padding_is_trimmed, law_signed_integers, law_suffixes_are_taken_off, law_unsigned_integers,
};
use vstd::prelude::*;

verus! {

// ---- Numbers ----

/// A file with digits in it, and white space around them, gives the number that the digits write,
/// if it fits into 64 bits.
pub proof fn law_digits_in_a_file(
    content: String,
    front: Seq<char>,
    digits: Seq<char>,
    back: Seq<char>,
)
    requires
        content@ == front + digits + back,
        forall|i: int| 0 <= i < front.len() ==> white(#[trigger] front[i]),
        forall|i: int| 0 <= i < back.len() ==> white(#[trigger] back[i]),
        digits.len() > 0,
        all_digits(digits),
    ensures
        decimal(digits) <= u64::MAX ==> number_in(Some(content)) == Some(decimal(digits) as u64),
        decimal(digits) > u64::MAX ==> number_in(Some(content)) is None,
{
    assert(digit(digits[0]));
    assert(digit(digits[digits.len() - 1]));
    law_padding_is_trimmed(front, digits, back);
    law_unsigned_integers(digits, u64::MAX as nat);
}

/// A plus sign before the digits changes nothing.
pub proof fn law_plus_sign_in_a_file(
    content: String,
    plain: String,
    front: Seq<char>,
    digits: Seq<char>,
    back: Seq<char>,
)
    requires
        content@ == front + (seq!['+'] + digits) + back,
        plain@ == front + digits + back,
        forall|i: int| 0 <= i < front.len() ==> white(#[trigger] front[i]),
        forall|i: int| 0 <= i < back.len() ==> white(#[trigger] back[i]),
        digits.len() > 0,
        all_digits(digits),
    ensures
        number_in(Some(content)) == number_in(Some(plain)),
{
    assert(digit(digits[0]));
    assert(digit(digits[digits.len() - 1]));
    assert((seq!['+'] + digits).last() == digits.last());
    law_padding_is_trimmed(front, digits, back);
    law_padding_is_trimmed(front, seq!['+'] + digits, back);
    law_unsigned_integers(digits, u64::MAX as nat);
}

/// A file gives a number only if it holds digits, perhaps with a plus sign, and white space around
/// them; a file that cannot be read gives none.
pub proof fn law_nothing_else_is_a_number(content: Option<String>)
    requires
        number_in(content) is Some,
    ensures
        content matches Some(text) && trimmed(text@).len() > 0 && (all_digits(trimmed(text@)) || (
        trimmed(text@)[0] == '+' && trimmed(text@).len() > 1 && all_digits(
            trimmed(text@).drop_first(),
        ))),
{
    law_unsigned_integers(trimmed(content->Some_0@), u64::MAX as nat);
}

/// The reported mebibytes are the whole mebibytes in the bytes that the file holds.
pub proof fn law_mebibytes_are_whole(content: Option<String>)
    ensures
        number_in(content) matches Some(bytes) ==> (mebibytes_in(content) matches Some(n) && n
            * 1048576 <= bytes && bytes < (n + 1) * 1048576),
        number_in(content) is None ==> mebibytes_in(content) is None,
        exact(mebibytes_in(content)) == match mebibytes_in(content) {
            Some(n) => Some(Count::Exact(n)),
            None => None,
        },
{
}

/// In exact arithmetic, temperatures are reported in degrees, a thousand of what the file counts in
/// to one; power in watts, a million to one; and percentages as they are. Each conversion is one
/// division. What is absent stays absent.
pub proof fn law_units_are_converted(value: Option<Double>)
    ensures
        match value {
            Some(d) => {
                &&& degrees(value) matches Some(t) && t.value() * 1000 as real == d.value()
                &&& watts(value) matches Some(w) && w.value() * 1_000_000 as real == d.value()
                &&& plain(value) matches Some(p) && p.value() == d.value()
                &&& degrees(value) == Some(Formula::Value(d).over(Formula::Int(1000)))
                &&& watts(value) == Some(Formula::Value(d).over(Formula::Int(1_000_000)))
            },
            None => degrees(value) is None && watts(value) is None && plain(value) is None,
        },
{
    reveal_with_fuel(Formula::value, 3);
    if let Some(d) = value {
        let x = d.value();
        assert(x / 1000 as real * 1000 as real == x) by (nonlinear_arith);
        assert(x / 1_000_000 as real * 1_000_000 as real == x) by (nonlinear_arith);
    }
}

/// A known clock is reported as it is.
pub proof fn law_clocks_are_exact(clock: Option<u32>)
    ensures
        match clock {
            Some(n) => exact_clock(clock) matches Some(Count::Exact(m)) && m == n,
            None => exact_clock(clock) is None,
        },
{
}

// ---- Cards ----

/// A card's name begins with "card" and holds no hyphen; a directory of sensors begins with
/// "hwmon".
pub proof fn law_names_of_directories(rest: Seq<char>, name: String)
    ensures
        card_name("card"@ + rest) <==> forall|i: int|
            0 <= i < rest.len() ==> #[trigger] rest[i] != '-',
        card_name(name@) ==> name@.len() >= 4 && name@.take(4) == "card"@,
        DirEntry::Named(name).is_hwmon() <==> name@.len() >= 5 && name@.take(5) == "hwmon"@,
{
    reveal_strlit("card");
    reveal_strlit("hwmon");
    let whole = "card"@ + rest;
    assert("card"@.is_prefix_of(whole)) by {
        assert(whole.take(4) =~= "card"@);
    }
    assert forall|i: int| 0 <= i < 4 implies whole[i] != '-' by {
        assert(whole[i] == "card"@[i]);
    }
    if forall|i: int| 0 <= i < rest.len() ==> #[trigger] rest[i] != '-' {
        assert forall|i: int| 0 <= i < whole.len() implies whole[i] != '-' by {
            if i >= 4 {
                assert(whole[i] == rest[i - 4]);
            }
        }
    } else {
        let i = choose|i: int| 0 <= i < rest.len() && rest[i] == '-';
        assert(whole[i + 4] == '-');
    }
    assert(name@.len() >= 4 ==> name@.subrange(0, 4) =~= name@.take(4));
    assert(name@.len() >= 5 ==> name@.subrange(0, 5) =~= name@.take(5));
}

/// A card of a vendor is an entry with a card's name whose vendor file holds the vendor's identity
/// and, around it, nothing but white space. A search ends at what it looks for, and at an entry
/// that cannot be read.
pub proof fn law_cards_of_a_vendor(
    name: String,
    vendor: String,
    id: Seq<char>,
    front: Seq<char>,
    back: Seq<char>,
)
    requires
        id.len() > 0,
        !white(id[0]),
        !white(id.last()),
    ensures
        (forall|i: int| 0 <= i < front.len() ==> white(#[trigger] front[i])) && (forall|i: int|
            0 <= i < back.len() ==> white(#[trigger] back[i])) && vendor@ == front + id + back ==> (
        (DrmEntry::Device { name, vendor: Some(vendor) }).is_card_of(id) <==> card_name(name@)),
        (DrmEntry::Device { name, vendor: Some(vendor) }).is_card_of(id) ==> card_name(name@)
            && trimmed(vendor@) == id,
        !(DrmEntry::Device { name, vendor: None }).is_card_of(id),
        !(DrmEntry::Unreadable(name)).is_card_of(id),
        (DrmEntry::Unreadable(name)).ends_search(id),
        (DrmEntry::Device { name, vendor: Some(vendor) }).ends_search(id) <==> (DrmEntry::Device {
            name,
            vendor: Some(vendor),
        }).is_card_of(id),
        !(DrmEntry::Device { name, vendor: None }).ends_search(id),
        DirEntry::Unreadable(name).ends_search(),
        !DirEntry::Unreadable(name).is_hwmon(),
        DirEntry::Named(name).ends_search() <==> DirEntry::Named(name).is_hwmon(),
{
    if (forall|i: int| 0 <= i < front.len() ==> white(#[trigger] front[i])) && (forall|i: int|
        0 <= i < back.len() ==> white(#[trigger] back[i])) && vendor@ == front + id + back {
        law_padding_is_trimmed(front, id, back);
    }
}

/// Who may write to a file is told by its permission digits: the superuser may, the owner by the
/// second bit of the third octal digit from the right, the group by that of the second, everyone
/// by that of the first.
pub proof fn law_permission_digits(file: FileAccess, my_uid: u32, my_gid: u32)
    ensures
        may_write(Some(file), my_uid, my_gid) <==> {
            ||| my_uid == 0
            ||| my_uid == file.uid && file.mode / 128 % 2 == 1
            ||| my_gid == file.gid && file.mode / 16 % 2 == 1
            ||| file.mode / 2 % 2 == 1
        },
        !may_write(None, my_uid, my_gid),
{
    let mode = file.mode;
    assert(mode & 0o200 != 0 <==> mode / 128 % 2 == 1) by (bit_vector);
    assert(mode & 0o020 != 0 <==> mode / 16 % 2 == 1) by (bit_vector);
    assert(mode & 0o002 != 0 <==> mode / 2 % 2 == 1) by (bit_vector);
}

// ---- Slots ----

/// A line gives a slot exactly if it is the key and the slot.
pub proof fn law_slot_lines(slot: Seq<char>, line: Seq<char>)
    ensures
        is_slot_line("PCI_SLOT_NAME="@ + slot),
        slot_in("PCI_SLOT_NAME="@ + slot) == slot,
        is_slot_line(line) ==> line == "PCI_SLOT_NAME="@ + slot_in(line),
{
    let key = "PCI_SLOT_NAME="@;
    let whole = key + slot;
    assert(whole.subrange(0, key.len() as int) =~= key);
    assert(whole.skip(key.len() as int) =~= slot);
    if is_slot_line(line) {
        assert(line =~= key + slot_in(line)) by {
            assert(line.subrange(0, key.len() as int) == key);
        }
    }
}

proof fn lemma_first_slot(lines: Seq<Seq<char>>, i: int, k: int)
    requires
        0 <= i <= k <= lines.len(),
        k < lines.len() ==> is_slot_line(lines[k]),
        forall|j: int| i <= j < k ==> !is_slot_line(#[trigger] lines[j]),
    ensures
        first_slot(lines, i) == if k < lines.len() {
            Some(slot_in(lines[k]))
        } else {
            None
        },
    decreases k - i,
{
    if i < k {
        lemma_first_slot(lines, i + 1, k);
    }
}

proof fn lemma_last_slot(lines: Seq<Seq<char>>, k: int)
    requires
        -1 <= k < lines.len(),
        k >= 0 ==> is_slot_line(lines[k]),
        forall|j: int| k < j < lines.len() ==> !is_slot_line(#[trigger] lines[j]),
    ensures
        last_slot(lines) == if k >= 0 {
            Some(slot_in(lines[k]))
        } else {
            None
        },
    decreases lines.len(),
{
    if lines.len() > 0 && k < lines.len() - 1 {
        assert(!is_slot_line(lines[lines.len() - 1]));
        let rest = lines.drop_last();
        assert forall|j: int| k < j < rest.len() implies !is_slot_line(#[trigger] rest[j]) by {
            assert(rest[j] == lines[j]);
        }
        lemma_last_slot(rest, k);
    }
}

/// Of the lines of an event file with a slot, the first names the card by its place, and the last
/// is the one that `lspci` is asked about. Without such a line there is no slot.
pub proof fn law_first_and_last_slot(
    uevent: String,
    first: int,
    last: int,
    first_name: Seq<char>,
    last_name: Seq<char>,
)
    requires
        0 <= first <= last < lines_of(uevent@).len(),
        lines_of(uevent@)[first] == "PCI_SLOT_NAME="@ + first_name,
        lines_of(uevent@)[last] == "PCI_SLOT_NAME="@ + last_name,
        forall|j: int|
            0 <= j < first || last < j < lines_of(uevent@).len() ==> !"PCI_SLOT_NAME="@.is_prefix_of(
                #[trigger] lines_of(uevent@)[j],
            ),
    ensures
        first_slot_of(Some(uevent)) == Some(first_name),
        last_slot_of(Some(uevent)) == Some(last_name),
{
    law_slot_lines(first_name, Seq::empty());
    law_slot_lines(last_name, Seq::empty());
    lemma_first_slot(lines_of(uevent@), 0, first);
    lemma_last_slot(lines_of(uevent@), last);
}

/// An event file without such a line gives no slot, nor does one that cannot be read.
pub proof fn law_no_slot(uevent: String)
    requires
        forall|j: int|
            0 <= j < lines_of(uevent@).len() ==> !"PCI_SLOT_NAME="@.is_prefix_of(
                #[trigger] lines_of(uevent@)[j],
            ),
    ensures
        first_slot_of(Some(uevent)) is None,
        last_slot_of(Some(uevent)) is None,
        first_slot_of(None) is None,
        last_slot_of(None) is None,
{
    lemma_first_slot(lines_of(uevent@), 0, lines_of(uevent@).len() as int);
    lemma_last_slot(lines_of(uevent@), -1);
}

// ---- Clock tables ----

proof fn lemma_unit_is_taken_off(text: Seq<char>, unit: Seq<char>)
    requires
        unit == "Mhz"@ || unit == "MHz"@,
        text.len() > 0,
        all_digits(text),
    ensures
        without_suffix(without_suffix(text + unit, "Mhz"@), "MHz"@) == text,
        unit.is_suffix_of(text + unit),
{
    reveal_strlit("Mhz");
    reveal_strlit("MHz");
    let word = text + unit;
    assert(digit(text[text.len() - 1]));
    assert(!"Mhz"@.is_suffix_of(text)) by {
        if "Mhz"@.is_suffix_of(text) {
            assert(text.subrange(text.len() - 3, text.len() as int)[2] == 'z');
        }
    }
    assert(!"MHz"@.is_suffix_of(text)) by {
        if "MHz"@.is_suffix_of(text) {
            assert(text.subrange(text.len() - 3, text.len() as int)[2] == 'z');
        }
    }
    assert(word.subrange(word.len() - 3, word.len() as int) =~= unit);
    law_suffixes_are_taken_off(text, unit);
    law_suffixes_are_taken_off(text, "Mhz"@);
    law_suffixes_are_taken_off(text, "MHz"@);
    if unit == "MHz"@ {
        assert(!"Mhz"@.is_suffix_of(word)) by {
            if "Mhz"@.is_suffix_of(word) {
                assert(word.subrange(word.len() - 3, word.len() as int)[1] == 'h');
                assert(word[word.len() - 2] == 'H');
            }
        }
        law_suffixes_are_taken_off(word, "Mhz"@);
    }
}

proof fn lemma_clock_word(words: Seq<Seq<char>>, i: int, k: int)
    requires
        0 <= i <= k <= words.len(),
        k < words.len() ==> "Mhz"@.is_suffix_of(words[k]) || "MHz"@.is_suffix_of(words[k]),
        forall|j: int|
            i <= j < k ==> !"Mhz"@.is_suffix_of(#[trigger] words[j]) && !"MHz"@.is_suffix_of(
                words[j],
            ),
    ensures
        clock_word(words, i) == if k < words.len() {
            Some(words[k])
        } else {
            None
        },
    decreases k - i,
{
    if i < k {
        lemma_clock_word(words, i + 1, k);
    }
}

/// The clock of a line is the number before the unit of its first word with a unit, if it fits
/// into 32 bits; a line without such a word gives none.
pub proof fn law_clock_of_a_line(line: Seq<char>, k: int, digits: Seq<char>, unit: Seq<char>)
    requires
        unit == "Mhz"@ || unit == "MHz"@,
        digits.len() > 0,
        all_digits(digits),
        0 <= k <= pieces(line, Separator::White).len(),
        k < pieces(line, Separator::White).len() ==> pieces(line, Separator::White)[k] == digits
            + unit,
        forall|j: int|
            0 <= j < k ==> !"Mhz"@.is_suffix_of(#[trigger] pieces(line, Separator::White)[j])
                && !"MHz"@.is_suffix_of(pieces(line, Separator::White)[j]),
    ensures
        clock_in(line) == if k < pieces(line, Separator::White).len() && decimal(digits)
            <= 4294967295 {
            Some(decimal(digits) as u32)
        } else {
            None
        },
{
    lemma_unit_is_taken_off(digits, unit);
    lemma_clock_word(pieces(line, Separator::White), 0, k);
    law_unsigned_integers(digits, u32::MAX as nat);
}

/// A line gives a clock only if its first word with a unit is digits, perhaps after a plus sign,
/// and units.
pub proof fn law_nothing_else_is_a_clock(line: Seq<char>, k: int)
    requires
        0 <= k < pieces(line, Separator::White).len(),
        "Mhz"@.is_suffix_of(pieces(line, Separator::White)[k]) || "MHz"@.is_suffix_of(
            pieces(line, Separator::White)[k],
        ),
        forall|j: int|
            0 <= j < k ==> !"Mhz"@.is_suffix_of(#[trigger] pieces(line, Separator::White)[j])
                && !"MHz"@.is_suffix_of(pieces(line, Separator::White)[j]),
        clock_in(line) is Some,
    ensures
        ({
            let bare = without_suffix(
                without_suffix(pieces(line, Separator::White)[k], "Mhz"@),
                "MHz"@,
            );
            &&& bare.len() > 0
            &&& all_digits(bare) || (bare[0] == '+' && bare.len() > 1 && all_digits(
                bare.drop_first(),
            ))
        }),
{
    lemma_clock_word(pieces(line, Separator::White), 0, k);
    law_unsigned_integers(
        without_suffix(without_suffix(pieces(line, Separator::White)[k], "Mhz"@), "MHz"@),
        u32::MAX as nat,
    );
}

proof fn lemma_active_clock(table: Seq<Seq<char>>, i: int, k: int)
    requires
        0 <= i <= k <= table.len(),
        k < table.len() ==> table[k].len() > 0 && table[k].last() == '*',
        forall|j: int|
            i <= j < k ==> !((#[trigger] table[j]).len() > 0 && table[j].last() == '*'),
    ensures
        active_clock(table, i) == if k < table.len() {
            clock_in(table[k])
        } else {
            None
        },
    decreases k - i,
{
    if i < k {
        lemma_active_clock(table, i + 1, k);
    }
}

/// The active clock is that of the first line that ends with a star, and there is none without
/// such a line; the greatest clock is that of the last line.
pub proof fn law_active_and_greatest_clock(table: String, k: int)
    requires
        0 <= k <= lines_of(table@).len(),
        k < lines_of(table@).len() ==> lines_of(table@)[k].len() > 0 && lines_of(table@)[k].last()
            == '*',
        forall|j: int|
            0 <= j < k ==> !((#[trigger] lines_of(table@)[j]).len() > 0 && lines_of(
                table@,
            )[j].last() == '*'),
    ensures
        clock_of(Some(table)) == if k < lines_of(table@).len() {
            clock_in(lines_of(table@)[k])
        } else {
            None
        },
        clock_max_of(Some(table)) == if lines_of(table@).len() > 0 {
            clock_in(lines_of(table@)[lines_of(table@).len() - 1])
        } else {
            None
        },
        clock_of(None) is None,
        clock_max_of(None) is None,
{
    lemma_active_clock(lines_of(table@), 0, k);
}

// ---- The overdrive table ----

/// An offset reads the same with its unit, in either spelling, and without it; what does not read
/// as an integer then is no offset.
pub proof fn law_offset_forms(text: Seq<char>, mv: i32)
    ensures
        offset_in(decimal_form(mv as int)) == Some(mv),
        offset_in(decimal_form(mv as int) + "mV"@) == Some(mv),
        offset_in(decimal_form(mv as int) + "mv"@) == Some(mv),
        offset_in(text) is Some ==> ({
            let bare = without_suffix(without_suffix(text, "mV"@), "mv"@);
            &&& bare.len() > 0
            &&& all_digits(bare) || ((bare[0] == '+' || bare[0] == '-') && all_digits(
                bare.drop_first(),
            ))
        }),
{
    reveal_strlit("mV");
    reveal_strlit("mv");
    let form = decimal_form(mv as int);
    lemma_digits_read_back(if mv < 0 { -mv as nat } else { mv as nat });
    let digits = digits_of(if mv < 0 { -mv as nat } else { mv as nat });
    assert(digit(digits[digits.len() - 1]));
    assert(form.last() == digits.last());
    assert(!"mV"@.is_suffix_of(form)) by {
        if "mV"@.is_suffix_of(form) {
            assert(form.subrange(form.len() - 2, form.len() as int)[1] == 'V');
        }
    }
    assert(!"mv"@.is_suffix_of(form)) by {
        if "mv"@.is_suffix_of(form) {
            assert(form.subrange(form.len() - 2, form.len() as int)[1] == 'v');
        }
    }
    law_suffixes_are_taken_off(form, "mV"@);
    law_suffixes_are_taken_off(form, "mv"@);
    let small = form + "mv"@;
    assert(!"mV"@.is_suffix_of(small)) by {
        if "mV"@.is_suffix_of(small) {
            assert(small.subrange(small.len() - 2, small.len() as int)[1] == 'V');
            assert(small.last() == 'v');
        }
    }
    law_suffixes_are_taken_off(small, "mV"@);
    law_signed_round_trip(mv);
    law_signed_integers(without_suffix(without_suffix(text, "mV"@), "mv"@));
}

proof fn lemma_before_section(table: Seq<Seq<char>>, i: int, k: int)
    requires
        0 <= i <= k <= table.len(),
        forall|j: int|
            i <= j < k ==> !"OD_VDDGFX_OFFSET:"@.is_prefix_of(trimmed(#[trigger] table[j])),
    ensures
        section_offset(table, i, false) == section_offset(table, k, false),
    decreases k - i,
{
    if i < k {
        lemma_before_section(table, i + 1, k);
    }
}

proof fn lemma_within_section(table: Seq<Seq<char>>, i: int, k: int)
    requires
        0 <= i <= k <= table.len(),
        forall|j: int|
            i <= j < k ==> "OD_VDDGFX_OFFSET:"@.is_prefix_of(trimmed(#[trigger] table[j])) || (
            offset_in(trimmed(table[j])) is None && !"OD_"@.is_prefix_of(trimmed(table[j]))),
    ensures
        section_offset(table, i, true) == section_offset(table, k, true),
    decreases k - i,
{
    if i < k {
        lemma_within_section(table, i + 1, k);
    }
}

/// The offset of a table is that of the first line with one below the first headline of its
/// section, as long as no headline of another section comes before it, whatever stands in the
/// other lines. If such a headline or the end of the table comes first, the section gives none.
pub proof fn law_offset_of_a_section(table: Seq<Seq<char>>, headline: int, k: int)
    requires
        0 <= headline < k <= table.len(),
        "OD_VDDGFX_OFFSET:"@.is_prefix_of(trimmed(table[headline])),
        forall|j: int|
            0 <= j < headline ==> !"OD_VDDGFX_OFFSET:"@.is_prefix_of(trimmed(#[trigger] table[j])),
        forall|j: int|
            headline < j < k ==> "OD_VDDGFX_OFFSET:"@.is_prefix_of(trimmed(#[trigger] table[j])) || (
            offset_in(trimmed(table[j])) is None && !"OD_"@.is_prefix_of(trimmed(table[j]))),
        k < table.len() ==> !"OD_VDDGFX_OFFSET:"@.is_prefix_of(trimmed(table[k])),
        k < table.len() ==> offset_in(trimmed(table[k])) is Some || "OD_"@.is_prefix_of(
            trimmed(table[k]),
        ),
    ensures
        k < table.len() && offset_in(trimmed(table[k])) is Some ==> table_offset(table)
            == offset_in(trimmed(table[k])),
        k == table.len() || offset_in(trimmed(table[k])) is None ==> section_offset(table, 0, false)
            is None,
{
    lemma_before_section(table, 0, headline);
    lemma_within_section(table, headline + 1, k);
}

proof fn lemma_none_named(table: Seq<Seq<char>>, i: int)
    requires
        0 <= i,
        forall|j: int| i <= j < table.len() ==> named_offset(trimmed(#[trigger] table[j])) is None,
    ensures
        first_named_offset(table, i) is None,
    decreases table.len() - i,
{
    if i < table.len() {
        lemma_none_named(table, i + 1);
    }
}

/// The offset of a file is that of its lines; where no line names it, it is the section's.
pub proof fn law_offset_of_a_file(content: String)
    ensures
        voltage_offset_of(Some(content)) == table_offset(lines_of(content@)),
        voltage_offset_of(None) is None,
        (forall|j: int|
            0 <= j < lines_of(content@).len() ==> named_offset(
                trimmed(#[trigger] lines_of(content@)[j]),
            ) is None) ==> voltage_offset_of(Some(content)) == section_offset(
            lines_of(content@),
            0,
            false,
        ),
{
    let table = lines_of(content@);
    if forall|j: int|
        0 <= j < table.len() ==> named_offset(trimmed(#[trigger] table[j])) is None {
        lemma_none_named(table, 0);
    }
}

/// Without a headline the section gives nothing.
pub proof fn law_offset_without_a_section(table: Seq<Seq<char>>)
    requires
        forall|j: int|
            0 <= j < table.len() ==> !"OD_VDDGFX_OFFSET:"@.is_prefix_of(
                trimmed(#[trigger] table[j]),
            ),
    ensures
        section_offset(table, 0, false) is None,
{
    lemma_before_section(table, 0, table.len() as int);
}

/// A line names the offset by the name, a colon or white space, and an offset with white space
/// around it.
pub proof fn law_named_offset_forms(
    c: char,
    front: Seq<char>,
    value: Seq<char>,
    back: Seq<char>,
    line: Seq<char>,
)
    requires
        c == ':' || white(c),
        forall|i: int| 0 <= i < front.len() ==> white(#[trigger] front[i]),
        forall|i: int| 0 <= i < back.len() ==> white(#[trigger] back[i]),
        value.len() > 0,
        !white(value[0]),
        !white(value.last()),
    ensures
        named_offset("VDDGFX_OFFSET"@.push(c) + (front + value + back)) == offset_in(value),
        named_offset(line) is Some ==> "VDDGFX_OFFSET"@.is_prefix_of(line) && line.len()
            > "VDDGFX_OFFSET"@.len() && (line["VDDGFX_OFFSET"@.len() as int] == ':' || white(
            line["VDDGFX_OFFSET"@.len() as int],
        )),
{
    let name = "VDDGFX_OFFSET"@;
    let whole = name.push(c) + (front + value + back);
    assert(whole.subrange(0, name.len() as int) =~= name);
    let rest = whole.skip(name.len() as int);
    assert(rest[0] == c);
    assert(rest.drop_first() =~= front + value + back);
    law_padding_is_trimmed(front, value, back);
}

// ---- Names ----

/// A line of quoted fields names the vendor by the fourth and the device by the sixth stretch
/// between quotation marks, whatever follows the line; with fewer than seven stretches, or
/// without a device, it names nothing.
pub proof fn law_lspci_fields(fields: Seq<Seq<char>>, rest: Seq<char>)
    requires
        fields.len() > 0,
        forall|i: int, j: int|
            0 <= i < fields.len() && 0 <= j < fields[i].len() ==> #[trigger] fields[i][j] != '"',
        !glued(fields, '"').contains('\n'),
        glued(fields, '"').len() > 0,
        glued(fields, '"').last() != '\r',
    ensures
        lspci_device(glued(fields, '"').push('\n') + rest) == if fields.len() >= 7 && trimmed(
            fields[5],
        ).len() > 0 {
            Some(trimmed(fields[3]) + " "@ + trimmed(fields[5]))
        } else {
            None
        },
        lspci_device(glued(fields, '"')) == lspci_device(glued(fields, '"').push('\n') + rest),
        lspci_device(Seq::empty()) is None,
{
    law_last_line(Seq::empty());
    law_one_piece(Seq::empty(), Separator::Char('"'));
    let line = glued(fields, '"');
    law_first_line(line, rest);
    law_last_line(line);
    law_glued_texts_are_the_pieces(fields, '"');
    assert(lines_of(line.push('\n') + rest)[0] == line);
}

/// A card is named by its product file, or else by its label file, or else by what `lspci` says of
/// its slot, or else by the slot, each without the white space around it.
pub proof fn law_names_in_turn(
    product: Option<String>,
    label: Option<String>,
    uevent: Option<String>,
    lspci: Option<String>,
    uevent_again: Option<String>,
)
    ensures
        ({
            let name = gpu_name(product, label, uevent, lspci, uevent_again);
            let has_product = product is Some && trimmed(product->Some_0@).len() > 0;
            let has_label = label is Some && trimmed(label->Some_0@).len() > 0;
            let has_lspci = last_slot_of(uevent) is Some && lspci is Some && lspci_device(
                lspci->Some_0@,
            ) is Some;
            &&& has_product ==> name == trimmed(product->Some_0@)
            &&& !has_product && has_label ==> name == trimmed(label->Some_0@)
            &&& !has_product && !has_label && has_lspci ==> lspci_device(lspci->Some_0@) == Some(
                name,
            )
            &&& !has_product && !has_label && !has_lspci ==> match first_slot_of(uevent_again) {
                Some(slot) => name == "AMD GPU ["@ + slot + "]"@,
                None => name == "AMD GPU"@,
            }
        }),
{
}

/// A sensor with a label file and a reading is known by the label without the white space around
/// it, in small letters; any other is not known.
pub proof fn law_labels_of_sensors(
    sensor: TempSensor,
    front: Seq<char>,
    label: Seq<char>,
    back: Seq<char>,
)
    requires
        forall|i: int| 0 <= i < front.len() ==> white(#[trigger] front[i]),
        forall|i: int| 0 <= i < back.len() ==> white(#[trigger] back[i]),
        label.len() > 0 ==> !white(label[0]) && !white(label.last()),
    ensures
        sensor.has_input && sensor.label is Some && sensor.label->Some_0@ == front + label + back
            ==> sensor.known_as() == Some(lowercase(label)),
        !sensor.has_input || sensor.label is None ==> sensor.known_as() is None,
{
    law_padding_is_trimmed(front, label, back);
}

} // verus!
