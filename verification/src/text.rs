//! Reading and writing the small texts that drivers and settings are made of.
use vstd::prelude::*;
use vstd::slice::slice_subrange;

verus! {

/// `String::push`: the character is appended to the text.
pub assume_specification[ String::push ](text: &mut String, c: char)
    ensures
        final(text)@ == old(text)@.push(c),
;

/// What `str::to_lowercase` makes of a text.
pub uninterp spec fn lowercase(text: Seq<char>) -> Seq<char>;

/// `str::to_lowercase`: the result depends on the text alone. On ASCII text the letters from
/// `A` to `Z` become small and every other character stays; what happens to other text is left
/// to the Unicode tables and not stated.
pub assume_specification[ str::to_lowercase ](text: &str) -> (r: String)
    ensures
        r@ == lowercase(text@),
        ascii(text@) ==> r@ == text@.map_values(|c: char| ascii_small(c)),
;

pub open spec fn ascii(text: Seq<char>) -> bool {
    forall|i: int| 0 <= i < text.len() ==> (#[trigger] text[i] as int) < 128
}

pub open spec fn ascii_small(c: char) -> char {
    if 'A' <= c && c <= 'Z' {
        (c as int + 32) as char
    } else {
        c
    }
}

/// The characters with the Unicode property White_Space.
pub open spec fn white(c: char) -> bool {
    ||| '\u{9}' <= c && c <= '\u{D}'
    ||| c == ' '
    ||| c == '\u{85}'
    ||| c == '\u{A0}'
    ||| c == '\u{1680}'
    ||| '\u{2000}' <= c && c <= '\u{200A}'
    ||| c == '\u{2028}'
    ||| c == '\u{2029}'
    ||| c == '\u{202F}'
    ||| c == '\u{205F}'
    ||| c == '\u{3000}'
}

/// Whether `c` is white space.
pub fn is_white(c: char) -> (r: bool)
    ensures
        r == white(c),
{
    ('\u{9}' <= c && c <= '\u{D}') || c == ' ' || c == '\u{85}' || c == '\u{A0}' || c == '\u{1680}'
        || ('\u{2000}' <= c && c <= '\u{200A}') || c == '\u{2028}' || c == '\u{2029}' || c
        == '\u{202F}' || c == '\u{205F}' || c == '\u{3000}'
}

/// The characters of a text, one by one.
pub fn chars_of(text: &str) -> (r: Vec<char>)
    ensures
        r@ == text@,
{
    let mut r: Vec<char> = Vec::new();
    for c in it: text.chars()
        invariant
            r@ == it.seq().take(it.index() as int),
            it.seq() == text@,
    {
        r.push(c);
    }
    r
}

/// The text made of the given characters.
pub fn string_of(chars: &[char]) -> (r: String)
    ensures
        r@ == chars@,
{
    let mut r: String = String::new();
    let mut i: usize = 0;
    while i < chars.len()
        invariant
            i <= chars.len(),
            r@ == chars@.take(i as int),
        decreases chars.len() - i,
    {
        r.push(chars[i]);
        i = i + 1;
    }
    r
}

pub open spec fn text_of(text: Option<String>) -> Option<Seq<char>> {
    match text {
        Some(chars) => Some(chars@),
        None => None,
    }
}

/// One text after the other.
pub fn joined(first: &str, second: &str) -> (r: String)
    ensures
        r@ == first@ + second@,
{
    let mut r: String = first.to_owned();
    r.append(second);
    r
}

/// Whether two character sequences are the same.
pub fn same(a: &[char], b: &[char]) -> (r: bool)
    ensures
        r == (a@ == b@),
{
    if a.len() != b.len() {
        return false;
    }
    let mut i: usize = 0;
    while i < a.len()
        invariant
            i <= a.len(),
            a.len() == b.len(),
            forall|j: int| 0 <= j < i ==> a@[j] == b@[j],
        decreases a.len() - i,
    {
        if a[i] != b[i] {
            return false;
        }
        i = i + 1;
    }
    assert(a@ =~= b@);
    true
}

/// Whether two texts are the same.
pub fn same_text(a: &str, b: &str) -> (r: bool)
    ensures
        r == (a@ == b@),
{
    same(chars_of(a).as_slice(), chars_of(b).as_slice())
}

// ---- Prefixes, suffixes and white space ----

/// Whether `text` begins with `prefix`.
pub fn starts_with(text: &[char], prefix: &str) -> (r: bool)
    ensures
        r == prefix@.is_prefix_of(text@),
{
    let wanted: Vec<char> = chars_of(prefix);
    if wanted.len() > text.len() {
        return false;
    }
    same(wanted.as_slice(), slice_subrange(text, 0, wanted.len()))
}

/// Whether `text` ends with `suffix`.
pub fn ends_with(text: &[char], suffix: &str) -> (r: bool)
    ensures
        r == suffix@.is_suffix_of(text@),
{
    let wanted: Vec<char> = chars_of(suffix);
    if wanted.len() > text.len() {
        return false;
    }
    same(wanted.as_slice(), slice_subrange(text, text.len() - wanted.len(), text.len()))
}

/// Whether the character occurs in the text.
pub fn has_char(text: &[char], c: char) -> (r: bool)
    ensures
        r == text@.contains(c),
{
    let mut i: usize = 0;
    while i < text.len()
        invariant
            i <= text.len(),
            forall|j: int| 0 <= j < i ==> text@[j] != c,
        decreases text.len() - i,
    {
        if text[i] == c {
            return true;
        }
        i = i + 1;
    }
    false
}

pub open spec fn trimmed_start(text: Seq<char>) -> Seq<char>
    decreases text.len(),
{
    if text.len() > 0 && white(text[0]) {
        trimmed_start(text.drop_first())
    } else {
        text
    }
}

pub open spec fn trimmed_end(text: Seq<char>) -> Seq<char>
    decreases text.len(),
{
    if text.len() > 0 && white(text.last()) {
        trimmed_end(text.drop_last())
    } else {
        text
    }
}

/// The text without the white space at its two ends.
pub open spec fn trimmed(text: Seq<char>) -> Seq<char> {
    trimmed_end(trimmed_start(text))
}

/// The text without the white space at its two ends.
pub fn trim(text: &[char]) -> (r: &[char])
    ensures
        r@ == trimmed(text@),
{
    let mut start: usize = 0;
    assert(text@.skip(0) =~= text@);
    while start < text.len() && is_white(text[start])
        invariant
            start <= text.len(),
            trimmed_start(text@) == trimmed_start(text@.skip(start as int)),
        decreases text.len() - start,
    {
        assert(text@.skip(start as int).drop_first() =~= text@.skip(start + 1));
        start = start + 1;
    }
    let mut end: usize = text.len();
    assert(text@.subrange(start as int, end as int) =~= text@.skip(start as int));
    while start < end && is_white(text[end - 1])
        invariant
            start <= end <= text.len(),
            trimmed(text@) == trimmed_end(text@.subrange(start as int, end as int)),
        decreases end - start,
    {
        assert(text@.subrange(start as int, end as int).drop_last() =~= text@.subrange(
            start as int,
            end - 1,
        ));
        end = end - 1;
    }
    slice_subrange(text, start, end)
}

/// The text without the copies of `suffix` at its end, as many as there are.
pub open spec fn without_suffix(text: Seq<char>, suffix: Seq<char>) -> Seq<char>
    decreases text.len(),
{
    if suffix.len() > 0 && suffix.is_suffix_of(text) {
        without_suffix(text.take(text.len() - suffix.len()), suffix)
    } else {
        text
    }
}

/// The text without the copies of `suffix` at its end, as many as there are.
pub fn strip_suffixes<'a>(text: &'a [char], suffix: &str) -> (r: &'a [char])
    ensures
        r@ == without_suffix(text@, suffix@),
{
    let width: usize = chars_of(suffix).len();
    let mut end: usize = text.len();
    assert(text@.take(end as int) =~= text@);
    while width > 0 && ends_with(slice_subrange(text, 0, end), suffix)
        invariant
            end <= text.len(),
            width == suffix@.len(),
            without_suffix(text@, suffix@) == without_suffix(text@.take(end as int), suffix@),
        decreases end,
    {
        assert(text@.subrange(0, end as int) =~= text@.take(end as int));
        assert(text@.take(end as int).take(end - width) =~= text@.take(end - width));
        end = end - width;
    }
    assert(text@.subrange(0, end as int) =~= text@.take(end as int));
    slice_subrange(text, 0, end)
}

// ---- Pieces and lines ----

/// What parts the pieces of a text: one character, or any white space.
#[derive(Clone, Copy)]
pub enum Separator {
    Char(char),
    White,
}

impl Separator {
    pub open spec fn at(self, c: char) -> bool {
        match self {
            Separator::Char(s) => c == s,
            Separator::White => white(c),
        }
    }

    fn matches(self, c: char) -> (r: bool)
        ensures
            r == self.at(c),
    {
        match self {
            Separator::Char(s) => c == s,
            Separator::White => is_white(c),
        }
    }
}

/// The stretches of a text between separators, empty ones included: one more than there are
/// separators.
pub open spec fn pieces(text: Seq<char>, separator: Separator) -> Seq<Seq<char>>
    decreases text.len(),
{
    if text.len() == 0 {
        seq![Seq::<char>::empty()]
    } else {
        let before = pieces(text.drop_last(), separator);
        if separator.at(text.last()) {
            before.push(Seq::<char>::empty())
        } else {
            before.drop_last().push(before.last().push(text.last()))
        }
    }
}

pub open spec fn contents(parts: Seq<&[char]>) -> Seq<Seq<char>> {
    parts.map_values(|part: &[char]| part@)
}

/// The stretches of a text between separators.
pub fn split(text: &[char], separator: Separator) -> (r: Vec<&[char]>)
    ensures
        contents(r@) == pieces(text@, separator),
        r.len() > 0,
{
    let mut done: Vec<&[char]> = Vec::new();
    let mut start: usize = 0;
    let mut i: usize = 0;
    assert(text@.subrange(0, 0) =~= Seq::<char>::empty());
    assert(pieces(text@.take(0), separator) =~= contents(done@).push(text@.subrange(0, 0)));
    while i < text.len()
        invariant
            start <= i <= text.len(),
            pieces(text@.take(i as int), separator) == contents(done@).push(
                text@.subrange(start as int, i as int),
            ),
        decreases text.len() - i,
    {
        let ghost before = contents(done@);
        assert(text@.take(i + 1).drop_last() =~= text@.take(i as int));
        assert(before.push(text@.subrange(start as int, i as int)).drop_last() =~= before);
        assert(text@.subrange(start as int, i as int).push(text@[i as int]) =~= text@.subrange(
            start as int,
            i + 1,
        ));
        if separator.matches(text[i]) {
            done.push(slice_subrange(text, start, i));
            start = i + 1;
            assert(contents(done@) =~= before.push(done@.last()@));
            assert(text@.subrange(start as int, i + 1) =~= Seq::<char>::empty());
        }
        i = i + 1;
    }
    assert(text@.take(i as int) =~= text@);
    let ghost before = contents(done@);
    done.push(slice_subrange(text, start, i));
    assert(contents(done@) =~= before.push(done@.last()@));
    done
}

pub open spec fn without_return(line: Seq<char>) -> Seq<char> {
    if line.len() > 0 && line.last() == '\r' {
        line.drop_last()
    } else {
        line
    }
}

/// The lines of a text. A line ends at a line feed, which may follow a carriage return; both are
/// left off. The last line may do without, and is no line when it is empty.
pub open spec fn lines_of(text: Seq<char>) -> Seq<Seq<char>> {
    let parts = pieces(text, Separator::Char('\n'));
    let ended = Seq::new((parts.len() - 1) as nat, |i: int| without_return(parts[i]));
    if parts.last().len() == 0 {
        ended
    } else {
        ended.push(parts.last())
    }
}

/// The lines of a text.
pub fn lines(text: &[char]) -> (r: Vec<&[char]>)
    ensures
        contents(r@) == lines_of(text@),
{
    let parts: Vec<&[char]> = split(text, Separator::Char('\n'));
    let ghost spec_parts = pieces(text@, Separator::Char('\n'));
    let last: usize = parts.len() - 1;
    let mut r: Vec<&[char]> = Vec::new();
    let mut i: usize = 0;
    while i < last
        invariant
            i <= last,
            last + 1 == parts.len(),
            contents(parts@) == spec_parts,
            contents(r@) == Seq::new(i as nat, |j: int| without_return(spec_parts[j])),
        decreases last - i,
    {
        let part: &[char] = parts[i];
        assert(contents(parts@)[i as int] == part@);
        let ghost before = contents(r@);
        if part.len() > 0 && part[part.len() - 1] == '\r' {
            r.push(slice_subrange(part, 0, part.len() - 1));
        } else {
            r.push(part);
        }
        assert(contents(r@) =~= before.push(without_return(spec_parts[i as int])));
        i = i + 1;
    }
    let rest: &[char] = parts[last];
    assert(contents(parts@)[last as int] == rest@);
    if rest.len() > 0 {
        let ghost before = contents(r@);
        r.push(rest);
        assert(contents(r@) =~= before.push(rest@));
    }
    r
}

// ---- Integers ----

pub open spec fn digit(c: char) -> bool {
    '0' <= c && c <= '9'
}

pub open spec fn all_digits(text: Seq<char>) -> bool {
    forall|i: int| 0 <= i < text.len() ==> digit(#[trigger] text[i])
}

/// The number that a sequence of decimal digits writes.
pub open spec fn decimal(text: Seq<char>) -> nat
    decreases text.len(),
{
    if text.len() == 0 {
        0
    } else {
        decimal(text.drop_last()) * 10 + (text.last() as int - '0' as int) as nat
    }
}

/// The number that at least one digit, and nothing but digits, writes.
pub open spec fn digits_value(text: Seq<char>) -> Option<nat> {
    if text.len() > 0 && all_digits(text) {
        Some(decimal(text))
    } else {
        None
    }
}

pub open spec fn without_plus(text: Seq<char>) -> Seq<char> {
    if text.len() > 0 && text[0] == '+' {
        text.drop_first()
    } else {
        text
    }
}

/// An unsigned integer of at most `max`: an optional plus sign and digits.
pub open spec fn unsigned_value(text: Seq<char>, max: nat) -> Option<nat> {
    match digits_value(without_plus(text)) {
        Some(n) => if n <= max {
            Some(n)
        } else {
            None
        },
        None => None,
    }
}

/// A signed 32-bit integer: an optional sign and digits.
pub open spec fn signed_value(text: Seq<char>) -> Option<int> {
    if text.len() > 0 && text[0] == '-' {
        match digits_value(text.drop_first()) {
            Some(n) => if n <= 0x8000_0000 {
                Some(-(n as int))
            } else {
                None
            },
            None => None,
        }
    } else {
        match unsigned_value(text, 0x7FFF_FFFF) {
            Some(n) => Some(n as int),
            None => None,
        }
    }
}

fn read_digits(text: &[char], max: u64) -> (r: Option<u64>)
    ensures
        r == (match digits_value(text@) {
            Some(n) => if n <= max {
                Some(n as u64)
            } else {
                None
            },
            None => None,
        }),
{
    if text.len() == 0 {
        return None;
    }
    let mut total: u64 = 0;
    let mut fits: bool = true;
    let mut i: usize = 0;
    while i < text.len()
        invariant
            i <= text.len(),
            all_digits(text@.take(i as int)),
            fits ==> total == decimal(text@.take(i as int)) && total <= max,
            !fits ==> decimal(text@.take(i as int)) > max,
        decreases text.len() - i,
    {
        let c: char = text[i];
        assert(text@.take(i + 1).drop_last() =~= text@.take(i as int));
        if !('0' <= c && c <= '9') {
            assert(!digit(text@[i as int]));
            return None;
        }
        let d: u64 = (c as u32 - '0' as u32) as u64;
        assert(all_digits(text@.take(i + 1))) by {
            assert forall|j: int| 0 <= j < i + 1 implies digit(#[trigger] text@.take(i + 1)[j]) by {
                if j < i {
                    assert(text@.take(i as int)[j] == text@[j]);
                }
            }
        }
        if fits {
            if total <= max / 10 && d <= max && total * 10 <= max - d {
                total = total * 10 + d;
            } else {
                fits = false;
            }
        }
        i = i + 1;
    }
    assert(text@.take(i as int) =~= text@);
    if fits {
        Some(total)
    } else {
        None
    }
}

/// Reads an unsigned integer of at most `max`.
pub fn parse_unsigned(text: &[char], max: u64) -> (r: Option<u64>)
    ensures
        r == (match unsigned_value(text@, max as nat) {
            Some(n) => Some(n as u64),
            None => None,
        }),
{
    if text.len() > 0 && text[0] == '+' {
        assert(text@.subrange(1, text@.len() as int) =~= text@.drop_first());
        read_digits(slice_subrange(text, 1, text.len()), max)
    } else {
        read_digits(text, max)
    }
}

/// Reads a signed 32-bit integer.
pub fn parse_signed(text: &[char]) -> (r: Option<i32>)
    ensures
        r == (match signed_value(text@) {
            Some(n) => Some(n as i32),
            None => None,
        }),
{
    if text.len() > 0 && text[0] == '-' {
        assert(text@.subrange(1, text@.len() as int) =~= text@.drop_first());
        match read_digits(slice_subrange(text, 1, text.len()), 0x8000_0000) {
            Some(n) => Some((-(n as i64)) as i32),
            None => None,
        }
    } else {
        match parse_unsigned(text, 0x7FFF_FFFF) {
            Some(n) => Some(n as i32),
            None => None,
        }
    }
}

pub open spec fn digit_char(d: nat) -> char {
    ('0' as int + d) as char
}

/// The decimal digits of a number, without leading zeros.
pub open spec fn digits_of(n: nat) -> Seq<char>
    decreases n,
{
    if n < 10 {
        seq![digit_char(n)]
    } else {
        digits_of(n / 10).push(digit_char(n % 10))
    }
}

/// The decimal form of an integer, with a minus sign where it is negative.
pub open spec fn decimal_form(n: int) -> Seq<char> {
    if n < 0 {
        seq!['-'] + digits_of((-n) as nat)
    } else {
        digits_of(n as nat)
    }
}

/// The decimal digits of a number.
pub fn format_unsigned(n: u64) -> (r: String)
    ensures
        r@ == decimal_form(n as int),
    decreases n,
{
    let mut r: String = if n < 10 {
        String::new()
    } else {
        format_unsigned(n / 10)
    };
    let d: u8 = (n % 10) as u8;
    r.push((48 + d) as char);
    assert(r@ =~= digits_of(n as nat));
    r
}

/// The decimal form of a signed integer.
pub fn format_signed(n: i32) -> (r: String)
    ensures
        r@ == decimal_form(n as int),
{
    if n < 0 {
        proof {
            reveal_strlit("-");
            assert("-"@ =~= seq!['-']);
        }
        joined("-", format_unsigned((-(n as i64)) as u64).as_str())
    } else {
        format_unsigned(n as u64)
    }
}

pub proof fn lemma_digits_read_back(n: nat)
    ensures
        all_digits(digits_of(n)),
        digits_of(n).len() > 0,
        decimal(digits_of(n)) == n,
    decreases n,
{
    let d = digits_of(n);
    if n < 10 {
        assert(d.drop_last() =~= Seq::<char>::empty());
        assert(decimal(d.drop_last()) == 0);
    } else {
        lemma_digits_read_back(n / 10);
        assert(d.drop_last() =~= digits_of(n / 10));
        assert forall|i: int| 0 <= i < d.len() implies digit(#[trigger] d[i]) by {
            if i < d.len() - 1 {
                assert(d[i] == digits_of(n / 10)[i]);
            }
        }
    }
}

/// What is written as an unsigned integer is read back as the same integer.
pub proof fn law_unsigned_round_trip(n: nat, max: nat)
    requires
        n <= max,
    ensures
        unsigned_value(decimal_form(n as int), max) == Some(n),
{
    lemma_digits_read_back(n);
    assert(digit(digits_of(n)[0]));
}

/// What is written as a signed integer is read back as the same integer.
pub proof fn law_signed_round_trip(n: i32)
    ensures
        signed_value(decimal_form(n as int)) == Some(n as int),
{
    if n < 0 {
        let text = decimal_form(n as int);
        lemma_digits_read_back((-n) as nat);
        assert(text.drop_first() =~= digits_of((-n) as nat));
    } else {
        lemma_digits_read_back(n as nat);
        assert(digit(digits_of(n as nat)[0]));
    }
}

/// White space behind a text that begins and ends with something else is trimmed off, and
/// nothing more.
pub proof fn lemma_trim_tail(text: Seq<char>, tail: Seq<char>)
    requires
        text.len() > 0,
        !white(text[0]),
        !white(text.last()),
        forall|i: int| 0 <= i < tail.len() ==> white(#[trigger] tail[i]),
    ensures
        trimmed(text + tail) == text,
    decreases tail.len(),
{
    assert((text + tail)[0] == text[0]);
    assert(trimmed_start(text + tail) == text + tail);
    if tail.len() > 0 {
        lemma_trim_tail(text, tail.drop_last());
        assert((text + tail).last() == tail.last());
        assert((text + tail).drop_last() =~= text + tail.drop_last());
        assert((text + tail.drop_last())[0] == text[0]);
    } else {
        assert(text + tail =~= text);
    }
}

} // verus!
