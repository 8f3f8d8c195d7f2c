//! What holds of every text that is trimmed, split or read as a number.
use crate::text::{
    all_digits, decimal, decimal_form, digit, digits_of, lemma_digits_read_back, lines_of, pieces,
    signed_value, trimmed, trimmed_end, trimmed_start, unsigned_value, white, without_suffix,
    Separator,
};
use vstd::arithmetic::power::{lemma_pow0, lemma_pow1, lemma_pow_adds, pow};
use vstd::prelude::*;

verus! {

// ---- White space ----

proof fn lemma_trimmed_start(text: Seq<char>) -> (start: int)
    ensures
        0 <= start <= text.len(),
        trimmed_start(text) == text.skip(start),
        forall|i: int| 0 <= i < start ==> white(#[trigger] text[i]),
        start < text.len() ==> !white(text[start]),
    decreases text.len(),
{
    if text.len() > 0 && white(text[0]) {
        let rest = text.drop_first();
        let start = lemma_trimmed_start(rest);
        assert(rest.skip(start) =~= text.skip(start + 1));
        assert forall|i: int| 0 <= i < start + 1 implies white(#[trigger] text[i]) by {
            if i > 0 {
                assert(rest[i - 1] == text[i]);
            }
        }
        start + 1
    } else {
        assert(text.skip(0) =~= text);
        0
    }
}

proof fn lemma_trimmed_end(text: Seq<char>) -> (end: int)
    ensures
        0 <= end <= text.len(),
        trimmed_end(text) == text.take(end),
        forall|i: int| end <= i < text.len() ==> white(#[trigger] text[i]),
        end > 0 ==> !white(text[end - 1]),
    decreases text.len(),
{
    if text.len() > 0 && white(text.last()) {
        let rest = text.drop_last();
        let end = lemma_trimmed_end(rest);
        assert(rest.take(end) =~= text.take(end));
        assert forall|i: int| end <= i < text.len() implies white(#[trigger] text[i]) by {
            if i < rest.len() {
                assert(rest[i] == text[i]);
            }
        }
        end
    } else {
        assert(text.take(text.len() as int) =~= text);
        text.len() as int
    }
}

/// Trimming takes a stretch out of the text. All that it leaves off is white space, and what it
/// keeps neither begins nor ends with any.
pub proof fn law_trimming_takes_off_white_ends(text: Seq<char>) -> (ends: (int, int))
    ensures
        0 <= ends.0 <= ends.1 <= text.len(),
        trimmed(text) == text.subrange(ends.0, ends.1),
        forall|i: int| 0 <= i < ends.0 ==> white(#[trigger] text[i]),
        forall|i: int| ends.1 <= i < text.len() ==> white(#[trigger] text[i]),
        trimmed(text).len() > 0 ==> !white(trimmed(text)[0]) && !white(trimmed(text).last()),
{
    let start = lemma_trimmed_start(text);
    let rest = text.skip(start);
    let end = lemma_trimmed_end(rest);
    assert(rest.take(end) =~= text.subrange(start, start + end));
    assert forall|i: int| start + end <= i < text.len() implies white(#[trigger] text[i]) by {
        assert(rest[i - start] == text[i]);
    }
    (start, start + end)
}

/// White space on either side of a text that has none at its ends is taken off, and nothing more.
pub proof fn law_padding_is_trimmed(front: Seq<char>, text: Seq<char>, back: Seq<char>)
    requires
        forall|i: int| 0 <= i < front.len() ==> white(#[trigger] front[i]),
        forall|i: int| 0 <= i < back.len() ==> white(#[trigger] back[i]),
        text.len() > 0 ==> !white(text[0]) && !white(text.last()),
    ensures
        trimmed(front + text + back) == text,
{
    let whole = front + text + back;
    let ends = law_trimming_takes_off_white_ends(whole);
    let r = trimmed(whole);
    if text.len() > 0 {
        assert(whole[front.len() as int] == text[0]);
        assert(whole[front.len() + text.len() - 1] == text.last());
        assert(ends.0 <= front.len());
        assert(ends.1 >= front.len() + text.len());
        assert(r[0] == whole[ends.0]);
        assert(r.last() == whole[ends.1 - 1]);
        if ends.0 < front.len() {
            assert(whole[ends.0] == front[ends.0]);
        }
        if ends.1 > front.len() + text.len() {
            assert(whole[ends.1 - 1] == back[ends.1 - 1 - front.len() - text.len()]);
        }
        assert(r =~= text);
    } else {
        if r.len() > 0 {
            assert(r[0] == whole[ends.0]);
            if ends.0 < front.len() {
                assert(whole[ends.0] == front[ends.0]);
            } else {
                assert(whole[ends.0] == back[ends.0 - front.len()]);
            }
        }
        assert(r =~= text);
    }
}

// ---- Pieces and lines ----

proof fn lemma_pieces_not_empty(text: Seq<char>, separator: Separator)
    ensures
        pieces(text, separator).len() > 0,
    decreases text.len(),
{
    if text.len() > 0 {
        lemma_pieces_not_empty(text.drop_last(), separator);
    }
}

/// A text without a separator is one piece.
pub proof fn law_one_piece(text: Seq<char>, separator: Separator)
    requires
        forall|i: int| 0 <= i < text.len() ==> !separator.at(#[trigger] text[i]),
    ensures
        pieces(text, separator) == seq![text],
    decreases text.len(),
{
    if text.len() > 0 {
        let rest = text.drop_last();
        assert forall|i: int| 0 <= i < rest.len() implies !separator.at(#[trigger] rest[i]) by {
            assert(rest[i] == text[i]);
        }
        law_one_piece(rest, separator);
        assert(!separator.at(text[text.len() - 1]));
        assert(rest.push(text.last()) =~= text);
    } else {
        assert(text =~= Seq::<char>::empty());
    }
    assert(pieces(text, separator) =~= seq![text]);
}

/// A separator parts the pieces before it from those behind it.
pub proof fn law_separator_parts_pieces(
    before: Seq<char>,
    c: char,
    behind: Seq<char>,
    separator: Separator,
)
    requires
        separator.at(c),
    ensures
        pieces(before.push(c) + behind, separator) == pieces(before, separator) + pieces(
            behind,
            separator,
        ),
    decreases behind.len(),
{
    let text = before.push(c) + behind;
    lemma_pieces_not_empty(behind, separator);
    if behind.len() == 0 {
        assert(text =~= before.push(c));
        assert(text.drop_last() =~= before);
        assert(pieces(text, separator) =~= pieces(before, separator) + pieces(behind, separator));
    } else {
        let rest = behind.drop_last();
        law_separator_parts_pieces(before, c, rest, separator);
        lemma_pieces_not_empty(rest, separator);
        assert(text.drop_last() =~= before.push(c) + rest);
        assert(text.last() == behind.last());
        assert(pieces(text, separator) =~= pieces(before, separator) + pieces(behind, separator));
    }
}

/// Texts with a separator between each two.
pub open spec fn glued(parts: Seq<Seq<char>>, c: char) -> Seq<char>
    decreases parts.len(),
{
    if parts.len() == 0 {
        Seq::empty()
    } else if parts.len() == 1 {
        parts[0]
    } else {
        parts[0].push(c) + glued(parts.drop_first(), c)
    }
}

/// Texts that do not hold the separator are the pieces of what they make with separators between
/// them.
pub proof fn law_glued_texts_are_the_pieces(parts: Seq<Seq<char>>, c: char)
    requires
        parts.len() > 0,
        forall|i: int, j: int|
            0 <= i < parts.len() && 0 <= j < parts[i].len() ==> #[trigger] parts[i][j] != c,
    ensures
        pieces(glued(parts, c), Separator::Char(c)) == parts,
    decreases parts.len(),
{
    let first = parts[0];
    assert forall|j: int| 0 <= j < first.len() implies !Separator::Char(c).at(
        #[trigger] first[j],
    ) by {
        assert(parts[0][j] != c);
    }
    law_one_piece(first, Separator::Char(c));
    if parts.len() > 1 {
        let rest = parts.drop_first();
        assert forall|i: int, j: int|
            0 <= i < rest.len() && 0 <= j < rest[i].len() implies #[trigger] rest[i][j] != c by {
            assert(parts[i + 1][j] != c);
        }
        law_glued_texts_are_the_pieces(rest, c);
        law_separator_parts_pieces(first, c, glued(rest, c), Separator::Char(c));
        assert(seq![first] + rest =~= parts);
    } else {
        assert(seq![first] =~= parts);
    }
}

/// The first line of a text goes up to the first line feed, without the carriage return before it;
/// the other lines are those of the text behind it.
pub proof fn law_first_line(line: Seq<char>, rest: Seq<char>)
    requires
        !line.contains('\n'),
    ensures
        lines_of(line.push('\n') + rest) == seq![
            if line.len() > 0 && line.last() == '\r' {
                line.drop_last()
            } else {
                line
            },
        ] + lines_of(rest),
{
    let sep = Separator::Char('\n');
    assert forall|i: int| 0 <= i < line.len() implies !sep.at(#[trigger] line[i]) by {
        if line[i] == '\n' {
            assert(line.contains('\n'));
        }
    }
    law_one_piece(line, sep);
    law_separator_parts_pieces(line, '\n', rest, sep);
    lemma_pieces_not_empty(rest, sep);
    let text = line.push('\n') + rest;
    let parts = pieces(text, sep);
    assert(parts =~= seq![line] + pieces(rest, sep));
    assert(parts.last() == pieces(rest, sep).last());
    let shown = if line.len() > 0 && line.last() == '\r' {
        line.drop_last()
    } else {
        line
    };
    assert(lines_of(text) =~= seq![shown] + lines_of(rest));
}

/// A text without a line feed is one line, or none if it is empty.
pub proof fn law_last_line(text: Seq<char>)
    requires
        !text.contains('\n'),
    ensures
        lines_of(text) == if text.len() == 0 {
            Seq::<Seq<char>>::empty()
        } else {
            seq![text]
        },
{
    let sep = Separator::Char('\n');
    assert forall|i: int| 0 <= i < text.len() implies !sep.at(#[trigger] text[i]) by {
        if text[i] == '\n' {
            assert(text.contains('\n'));
        }
    }
    law_one_piece(text, sep);
    assert(lines_of(text) =~= if text.len() == 0 {
        Seq::<Seq<char>>::empty()
    } else {
        seq![text]
    });
}

// ---- Suffixes ----

/// A suffix that stands at the end is taken off, and what is left is treated the same way; a text
/// that ends otherwise stays as it is.
pub proof fn law_suffixes_are_taken_off(text: Seq<char>, suffix: Seq<char>)
    requires
        suffix.len() > 0,
    ensures
        without_suffix(text + suffix, suffix) == without_suffix(text, suffix),
        !suffix.is_suffix_of(text) ==> without_suffix(text, suffix) == text,
{
    let whole = text + suffix;
    assert(suffix.is_suffix_of(whole)) by {
        assert(whole.subrange(whole.len() - suffix.len(), whole.len() as int) =~= suffix);
    }
    assert(whole.take(whole.len() - suffix.len()) =~= text);
}

// ---- Integers ----

/// Decimal digits are read by their places.
pub proof fn law_digits_are_positional(front: Seq<char>, back: Seq<char>)
    ensures
        decimal(front + back) == decimal(front) * pow(10, back.len()) + decimal(back),
        all_digits(back) && back.len() == 1 ==> decimal(back) == back[0] as int - '0' as int,
        back.len() == 0 ==> decimal(back) == 0,
    decreases back.len(),
{
    if back.len() == 0 {
        assert(front + back =~= front);
        lemma_pow0(10);
    } else {
        let rest = back.drop_last();
        law_digits_are_positional(front, rest);
        assert((front + back).drop_last() =~= front + rest);
        lemma_pow_adds(10, rest.len(), 1);
        lemma_pow1(10);
        let (a, p, b) = (decimal(front) as int, pow(10, rest.len()), decimal(rest) as int);
        assert((a * p + b) * 10 == a * (p * 10) + b * 10) by (nonlinear_arith);
        if back.len() == 1 {
            assert(rest.len() == 0);
            assert(digit(back[0]) || !all_digits(back));
        }
        if all_digits(back) {
            assert(digit(back[back.len() - 1]));
        }
    }
}

/// An unsigned integer is at least one digit, with a plus sign before it or without, that writes a
/// number of at most the maximum. Nothing else is one.
pub proof fn law_unsigned_integers(text: Seq<char>, max: nat)
    ensures
        text.len() > 0 && all_digits(text) ==> unsigned_value(text, max) == if decimal(text) <= max {
            Some(decimal(text))
        } else {
            None
        },
        text.len() > 0 && all_digits(text) ==> unsigned_value(seq!['+'] + text, max)
            == unsigned_value(text, max),
        unsigned_value(text, max) is Some ==> text.len() > 0 && (all_digits(text) || (text[0] == '+'
            && text.len() > 1 && all_digits(text.drop_first()))),
{
    if text.len() > 0 && all_digits(text) {
        assert(digit(text[0]));
        let signed = seq!['+'] + text;
        assert(signed.drop_first() =~= text);
    }
}

/// A signed integer is an unsigned one of at most 2147483647, or a minus sign and digits that
/// write at most 2147483648. Nothing else is one.
pub proof fn law_signed_integers(text: Seq<char>)
    ensures
        text.len() > 0 && all_digits(text) && decimal(text) <= 2147483648 ==> signed_value(
            seq!['-'] + text,
        ) == Some(-(decimal(text) as int)),
        text.len() > 0 && all_digits(text) && decimal(text) > 2147483648 ==> signed_value(
            seq!['-'] + text,
        ) is None,
        text.len() > 0 && text[0] != '-' ==> signed_value(text) == match unsigned_value(
            text,
            2147483647,
        ) {
            Some(n) => Some(n as int),
            None => None,
        },
        signed_value(text) is Some ==> text.len() > 0 && (all_digits(text) || ((text[0] == '+'
            || text[0] == '-') && text.len() > 1 && all_digits(text.drop_first()))),
{
    law_unsigned_integers(text, 2147483647);
    if text.len() > 0 && all_digits(text) {
        let signed = seq!['-'] + text;
        assert(signed.drop_first() =~= text);
    }
}

/// A number is written without needless zeros: its first digit is one only if it is zero.
pub proof fn law_no_leading_zeros(n: nat)
    ensures
        digits_of(n).len() > 1 ==> digits_of(n)[0] != '0',
        n > 0 ==> digits_of(n)[0] != '0',
    decreases n,
{
    if n >= 10 {
        law_no_leading_zeros(n / 10);
        lemma_digits_read_back(n / 10);
        assert(digits_of(n)[0] == digits_of(n / 10)[0]);
    }
}

/// The decimal form of a negative integer is a minus sign and the form of its opposite.
pub proof fn law_negative_form(n: int)
    requires
        n > 0,
    ensures
        decimal_form(-n) == seq!['-'] + decimal_form(n),
{
}

} // verus!
