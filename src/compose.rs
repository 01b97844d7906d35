use vstd::prelude::*;

use crate::error::GenerationError;
use crate::expression::{lemma_evaluation_deterministic, total_op, GenerationExpressionToken, ScalarOp};
use crate::field_set::{entries_ok, entries_view, field_map, entries_error, BaseFieldSet};
use crate::normalize::{
    deterministic3, lemma_normalize_deterministic, normalize, normalizes, order_comparator, NormalizedField,
};
use crate::tag::NoiseTag;

verus! {

/// Builds the base field set from the computed `(tag, field)` entries of a region of
/// `width * height` samples and folds the expression over it, giving the raw field
/// before normalization.
pub fn compose_fields<T: Copy, F: Fn(ScalarOp, T, T) -> T>(
    expression: &GenerationExpressionToken,
    entries: Vec<(NoiseTag, Vec<T>)>,
    width: usize,
    height: usize,
    op: &F,
) -> (r: Result<Vec<T>, GenerationError>)
    requires
        width * height <= usize::MAX,
        total_op(*op),
    ensures
        r is Ok <==> entries_ok(entries_view(entries@), (width * height) as nat)
            && expression.first_unresolved(field_map(entries_view(entries@)).dom()) is None,
        r matches Ok(v) ==> v@.len() == width * height
            && expression.evaluates(field_map(entries_view(entries@)), *op, v@),
        r matches Err(e) ==> if entries_ok(entries_view(entries@), (width * height) as nat) {
            e matches GenerationError::UnresolvedTag { tag }
                && expression.first_unresolved(field_map(entries_view(entries@)).dom()) == Some(tag@)
        } else {
            entries_error(entries_view(entries@), (width * height) as nat, e)
        },
{
    let fields = match BaseFieldSet::build(entries, width * height) {
        Ok(s) => s,
        Err(e) => return Err(e),
    };
    match expression.get_vec(&fields, op) {
        Ok(v) => Ok(v.into_vec()),
        Err(e) => Err(e),
    }
}

/// The generation entry point: composes the raw field as `compose_fields` does and
/// normalizes it. `op` is the scalar arithmetic, `less` the order of samples,
/// `rescale(v, min, max)` the linear rescale and `zero` the value of a constant field.
pub fn generate<T: Copy, F: Fn(ScalarOp, T, T) -> T, L: Fn(T, T) -> bool, S: Fn(T, T, T) -> T>(
    expression: &GenerationExpressionToken,
    entries: Vec<(NoiseTag, Vec<T>)>,
    width: usize,
    height: usize,
    op: &F,
    less: &L,
    rescale: &S,
    zero: T,
) -> (r: Result<NormalizedField<T>, GenerationError>)
    requires
        width * height <= usize::MAX,
        total_op(*op),
        order_comparator(*less),
        forall|v: T, lo: T, hi: T| rescale.requires((v, lo, hi)),
    ensures
        r is Ok <==> entries_ok(entries_view(entries@), (width * height) as nat)
            && expression.first_unresolved(field_map(entries_view(entries@)).dom()) is None,
        r matches Ok(n) ==> n@.len() == width * height && exists|raw: Seq<T>|
            #[trigger] expression.evaluates(field_map(entries_view(entries@)), *op, raw)
            && normalizes(raw, *less, *rescale, zero, n),
        r matches Err(e) ==> if entries_ok(entries_view(entries@), (width * height) as nat) {
            e matches GenerationError::UnresolvedTag { tag }
                && expression.first_unresolved(field_map(entries_view(entries@)).dom()) == Some(tag@)
        } else {
            entries_error(entries_view(entries@), (width * height) as nat, e)
        },
{
    let raw = match compose_fields(expression, entries, width, height, op) {
        Ok(v) => v,
        Err(e) => return Err(e),
    };
    let n = normalize(&raw, less, rescale, zero);
    Ok(n)
}

/// Generation is a function of its inputs: two normalized results of one expression
/// over the same fields, with deterministic arithmetic, comparison and rescale, are
/// the same.
pub proof fn lemma_generate_deterministic<T, F: Fn(ScalarOp, T, T) -> T, L: Fn(T, T) -> bool, S: Fn(T, T, T) -> T>(
    expression: GenerationExpressionToken,
    fields: Map<Seq<char>, Seq<T>>,
    op: F,
    less: L,
    rescale: S,
    zero: T,
    raw1: Seq<T>,
    raw2: Seq<T>,
    n1: NormalizedField<T>,
    n2: NormalizedField<T>,
)
    requires
        total_op(op),
        order_comparator(less),
        deterministic3(rescale),
        expression.evaluates(fields, op, raw1),
        expression.evaluates(fields, op, raw2),
        normalizes(raw1, less, rescale, zero, n1),
        normalizes(raw2, less, rescale, zero, n2),
    ensures
        n1@ == n2@,
{
    lemma_evaluation_deterministic(expression, fields, op, raw1, raw2);
    lemma_normalize_deterministic(raw1, less, rescale, zero, n1, n2);
}

} // verus!
