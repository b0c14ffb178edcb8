//! Classification of one cell, and the text that a classified cell is
//! typeset as.

use vstd::prelude::*;
use vstd::string::StringExecFns;
use crate::exponent::{
    lemma_normalize_idempotent, normalize_range, normalized_exponent, ExponentError,
};
use crate::text::{
    chars_of, lemma_prefix_len, lemma_prefix_len_bounds, lemma_trimmed_fixed,
    lemma_trimmed_idempotent, prefix_len, scan_prefix, string_of, trim_bounds, trimmed, CharClass,
};

verus! {

/// What a cell was found to be.
#[derive(Clone, Debug, PartialEq, Eq)]
pub enum ClassifiedCell {
    /// Plain text: the cell without the whitespace around it.
    PlainText(String),
    /// A number in scientific notation: the mantissa as it was written, and
    /// the exponent in canonical form.
    ScientificValue(String, String),
}

/// A classified cell as a value of characters.
pub enum CellView {
    /// Plain text.
    PlainText(Seq<char>),
    /// A number in scientific notation: the mantissa, then the exponent.
    ScientificValue(Seq<char>, Seq<char>),
}

impl View for ClassifiedCell {
    type V = CellView;

    open spec fn view(&self) -> CellView {
        match self {
            ClassifiedCell::PlainText(text) => CellView::PlainText(text@),
            ClassifiedCell::ScientificValue(mantissa, exponent) => CellView::ScientificValue(
                mantissa@,
                exponent@,
            ),
        }
    }
}

/// The mantissa and the exponent of `text` as it stands, where `text` has
/// the shape of a number in scientific notation: the longest run of mantissa
/// characters at its front (which may be empty), the marker `E`, and the
/// longest run of exponent characters after the marker (which may be empty
/// too). What follows the exponent is not looked at.
pub open spec fn scientific_parts(text: Seq<char>) -> Option<(Seq<char>, Seq<char>)> {
    let marker = prefix_len(text, CharClass::Mantissa) as int;
    if marker < text.len() && text[marker] == 'E' {
        let tail = text.skip(marker + 1);
        Some((text.take(marker), tail.take(prefix_len(tail, CharClass::Exponent) as int)))
    } else {
        None
    }
}

/// What a cell is classified as.
///
/// The whitespace around the cell is discarded first. If the rest has the
/// shape of a number in scientific notation, the cell is a scientific value
/// with the exponent brought to canonical form, or an error where the
/// exponent has none. In every other case the cell is plain text.
pub open spec fn classification(raw: Seq<char>) -> Result<CellView, ExponentError> {
    let text = trimmed(raw);
    match scientific_parts(text) {
        Some((mantissa, exponent)) => match normalized_exponent(exponent) {
            Ok(canonical) => Ok(CellView::ScientificValue(mantissa, canonical)),
            Err(error) => Err(error),
        },
        None => Ok(CellView::PlainText(text)),
    }
}

/// The text that a classified cell is typeset as: plain text as it is, a
/// scientific value as `$`, the mantissa, ` \times 10^{`, the exponent and
/// `}$`.
pub open spec fn rendering(cell: CellView) -> Seq<char> {
    match cell {
        CellView::PlainText(text) => text,
        CellView::ScientificValue(mantissa, exponent) => "$"@ + mantissa + " \\times 10^{"@
            + exponent + "}$"@,
    }
}

/// Classifies one cell.
///
/// The result depends on the characters of `raw` alone. It is an error
/// exactly where the cell has the shape of a number in scientific notation
/// and its exponent has no canonical form.
pub fn classify(raw: &str) -> (cell: Result<ClassifiedCell, ExponentError>)
    ensures
        match cell {
            Ok(found) => classification(raw@) == Ok::<CellView, ExponentError>(found@),
            Err(error) => classification(raw@) == Err::<CellView, ExponentError>(error),
        },
{
    let chars = chars_of(raw);
    let (start, end) = trim_bounds(&chars);
    let ghost text = trimmed(raw@);
    let marker = scan_prefix(&chars, start, end, CharClass::Mantissa);
    if marker < end && chars[marker] == 'E' {
        let stop = scan_prefix(&chars, marker + 1, end, CharClass::Exponent);
        proof {
            let tail = text.skip(marker - start + 1);
            assert(tail == chars@.subrange(marker + 1, end as int));
            assert(text.take(marker - start) == chars@.subrange(start as int, marker as int));
            assert(tail.take(stop - marker - 1) == chars@.subrange(marker + 1, stop as int));
        }
        match normalize_range(&chars, marker + 1, stop) {
            Ok(exponent) => Ok(
                ClassifiedCell::ScientificValue(string_of(&chars, start, marker), exponent),
            ),
            Err(error) => Err(error),
        }
    } else {
        Ok(ClassifiedCell::PlainText(string_of(&chars, start, end)))
    }
}

/// The text that `cell` is typeset as. Nothing in it is escaped.
pub fn render(cell: &ClassifiedCell) -> (out: String)
    ensures
        out@ == rendering(cell@),
{
    match cell {
        ClassifiedCell::PlainText(text) => text.clone(),
        ClassifiedCell::ScientificValue(mantissa, exponent) => {
            let mut out = String::from_str("$");
            out.append(mantissa.as_str());
            out.append(" \\times 10^{");
            out.append(exponent.as_str());
            out.append("}$");
            out
        },
    }
}

/// A cell that has not the shape of a number in scientific notation is
/// typeset as itself, without the whitespace around it.
pub proof fn lemma_plain_cell_round_trip(raw: Seq<char>)
    requires
        scientific_parts(trimmed(raw)) is None,
    ensures
        classification(raw) == Ok::<CellView, ExponentError>(CellView::PlainText(trimmed(raw))),
        rendering(classification(raw).unwrap()) == trimmed(raw),
{
}

/// The whitespace around a cell has no part in what the cell is classified
/// as.
pub proof fn lemma_outer_whitespace_is_ignored(raw: Seq<char>)
    ensures
        classification(trimmed(raw)) == classification(raw),
{
    lemma_trimmed_idempotent(raw);
}

/// The shape of a number takes precedence: a cell that has it is never
/// plain text, however little of a number there is in it.
pub proof fn lemma_number_shape_is_preferred(raw: Seq<char>)
    requires
        scientific_parts(trimmed(raw)) is Some,
    ensures
        classification(raw) is Err || classification(raw).unwrap() is ScientificValue,
        classification(raw) is Err <==> normalized_exponent(
            scientific_parts(trimmed(raw)).unwrap().1,
        ) is Err,
{
}

/// A typeset number is never read as a number again: whatever the mantissa
/// and the exponent, the text that a scientific value is typeset as is
/// classified as plain text, and typeset as itself.
pub proof fn lemma_typeset_number_is_plain(mantissa: Seq<char>, exponent: Seq<char>)
    ensures
        ({
            let text = rendering(CellView::ScientificValue(mantissa, exponent));
            &&& scientific_parts(trimmed(text)) is None
            &&& classification(text) == Ok::<CellView, ExponentError>(CellView::PlainText(text))
        }),
{
    let text = rendering(CellView::ScientificValue(mantissa, exponent));
    reveal_strlit("$");
    reveal_strlit("}$");
    lemma_trimmed_fixed(text);
    lemma_prefix_len(text, CharClass::Mantissa, 0);
}

/// Whether a cell is of the kind that classification gives: plain text that
/// has no whitespace at either end and not the shape of a number, or a
/// scientific value whose mantissa is made of mantissa characters and whose
/// exponent is in canonical form.
pub open spec fn well_formed(cell: CellView) -> bool {
    match cell {
        CellView::PlainText(text) => trimmed(text) == text && scientific_parts(text) is None,
        CellView::ScientificValue(mantissa, exponent) => {
            &&& forall|i: int|
                0 <= i < mantissa.len() ==> CharClass::Mantissa.contains(#[trigger] mantissa[i])
            &&& normalized_exponent(exponent) == Ok::<Seq<char>, ExponentError>(exponent)
        },
    }
}

/// Every cell that classification gives is well formed.
pub proof fn lemma_classification_well_formed(raw: Seq<char>)
    requires
        classification(raw) is Ok,
    ensures
        well_formed(classification(raw).unwrap()),
{
    let text = trimmed(raw);
    match scientific_parts(text) {
        Some((mantissa, exponent)) => {
            lemma_prefix_len_bounds(text, CharClass::Mantissa);
            lemma_normalize_idempotent(exponent);
        },
        None => {
            lemma_trimmed_idempotent(raw);
        },
    }
}

/// Typesetting is idempotent: the text that a well-formed cell is typeset as
/// is classified as plain text, so typesetting it again gives the same text.
pub proof fn lemma_rendering_idempotent(cell: CellView)
    requires
        well_formed(cell),
    ensures
        ({
            let text = rendering(cell);
            &&& classification(text) == Ok::<CellView, ExponentError>(CellView::PlainText(text))
            &&& rendering(classification(text).unwrap()) == text
        }),
{
    match cell {
        CellView::PlainText(text) => {},
        CellView::ScientificValue(mantissa, exponent) => {
            lemma_typeset_number_is_plain(mantissa, exponent);
        },
    }
}

/// Classifying, typesetting and classifying again never finds a number: the
/// text that a cell is typeset as is a cell of plain text that is typeset as
/// itself.
pub proof fn lemma_typeset_cell_is_plain(raw: Seq<char>)
    requires
        classification(raw) is Ok,
    ensures
        ({
            let text = rendering(classification(raw).unwrap());
            &&& classification(text) == Ok::<CellView, ExponentError>(CellView::PlainText(text))
            &&& rendering(classification(text).unwrap()) == text
        }),
{
    lemma_classification_well_formed(raw);
    lemma_rendering_idempotent(classification(raw).unwrap());
}

} // verus!
