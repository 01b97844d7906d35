use noise_map::compose::{compose_fields, generate};
use noise_map::error::GenerationError;
use noise_map::expression::{
    combine_fields, FieldRef, GenerationExpressionOperator, GenerationExpressionToken, ScalarOp,
};
use noise_map::field_set::BaseFieldSet;
use noise_map::generator::UniformNoiseConfig;
use noise_map::normalize::{normalize, NormalizedField};
use noise_map::tag::NoiseTag;

fn arith(k: ScalarOp, a: f32, b: f32) -> f32 {
    match k {
        ScalarOp::Add => a + b,
        ScalarOp::Mult => a * b,
    }
}

fn less(a: f32, b: f32) -> bool {
    a.total_cmp(&b) == std::cmp::Ordering::Less
}

fn rescale(v: f32, lo: f32, hi: f32) -> f32 {
    (v - lo) / (hi - lo)
}

fn tag(s: &str) -> NoiseTag {
    NoiseTag(s.to_string())
}

fn leaf(s: &str) -> GenerationExpressionToken {
    GenerationExpressionToken::Noise(tag(s))
}

fn add(lhs: GenerationExpressionToken, rhs: GenerationExpressionToken) -> GenerationExpressionToken {
    GenerationExpressionToken::Operator(Box::new(GenerationExpressionOperator::Add { lhs, rhs }))
}

fn mult(lhs: GenerationExpressionToken, rhs: GenerationExpressionToken) -> GenerationExpressionToken {
    GenerationExpressionToken::Operator(Box::new(GenerationExpressionOperator::Mult { lhs, rhs }))
}

fn uniform(val: f32, width: usize, height: usize) -> Vec<f32> {
    UniformNoiseConfig { val }.get_noise(width, height)
}

#[test]
fn add_is_elementwise() {
    let r = combine_fields(ScalarOp::Add, &vec![1.0f32, 2.0, 3.5], &vec![10.0f32, 20.0, 0.5], &arith).unwrap();
    assert_eq!(r, vec![11.0f32, 22.0, 4.0]);
}

#[test]
fn mult_is_elementwise() {
    let r = combine_fields(ScalarOp::Mult, &vec![1.0f32, 2.0, 3.5], &vec![10.0f32, 20.0, 2.0], &arith).unwrap();
    assert_eq!(r, vec![10.0f32, 40.0, 7.0]);
}

#[test]
fn combine_refuses_different_lengths() {
    let r = combine_fields(ScalarOp::Add, &vec![1.0f32, 2.0], &vec![1.0f32], &arith);
    assert_eq!(r, Err(GenerationError::ShapeMismatch { expected: 2, found: 1 }));
}

#[test]
fn combine_of_empty_arrays_is_empty() {
    let r = combine_fields(ScalarOp::Mult, &Vec::<f32>::new(), &Vec::<f32>::new(), &arith).unwrap();
    assert!(r.is_empty());
}

#[test]
fn uniform_generator_fills_region() {
    let f = uniform(2.5, 3, 4);
    assert_eq!(f.len(), 12);
    assert!(f.iter().all(|&x| x == 2.5));
}

#[test]
fn uniform_generator_on_empty_region() {
    assert!(uniform(7.0, 0, 5).is_empty());
}

#[test]
fn missing_tag_is_reported() {
    let entries = vec![(tag("A"), uniform(5.0, 4, 4))];
    let r = compose_fields(&leaf("B"), entries, 4, 4, &arith);
    assert_eq!(r, Err(GenerationError::UnresolvedTag { tag: "B".to_string() }));
}

#[test]
fn first_missing_tag_from_the_left_is_reported() {
    let entries = vec![(tag("A"), uniform(5.0, 2, 2))];
    let r = compose_fields(&add(leaf("A"), mult(leaf("X"), leaf("Y"))), entries, 2, 2, &arith);
    assert_eq!(r, Err(GenerationError::UnresolvedTag { tag: "X".to_string() }));
}

#[test]
fn duplicate_tag_is_reported() {
    let entries = vec![(tag("A"), uniform(1.0, 2, 2)), (tag("B"), uniform(2.0, 2, 2)), (tag("A"), uniform(3.0, 2, 2))];
    let r = compose_fields(&leaf("A"), entries, 2, 2, &arith);
    assert_eq!(r, Err(GenerationError::DuplicateTag { tag: "A".to_string() }));
}

#[test]
fn field_of_wrong_length_is_reported() {
    let entries = vec![(tag("A"), uniform(1.0, 2, 2)), (tag("B"), uniform(2.0, 3, 2))];
    let r = compose_fields(&leaf("A"), entries, 2, 2, &arith);
    assert_eq!(r, Err(GenerationError::ShapeMismatch { expected: 4, found: 6 }));
}

#[test]
fn leaf_evaluates_to_a_view_of_its_field() {
    let set = BaseFieldSet::build(vec![(tag("A"), vec![1.0f32, 2.0]), (tag("B"), vec![3.0f32, 4.0])], 2).unwrap();
    let r = leaf("B").get_vec(&set, &arith).unwrap();
    assert!(matches!(r, FieldRef::Borrowed(_)));
    assert_eq!(r.as_vec(), &vec![3.0f32, 4.0]);
    let s = add(leaf("A"), leaf("B")).get_vec(&set, &arith).unwrap();
    assert!(matches!(s, FieldRef::Owned(_)));
    assert_eq!(s.into_vec(), vec![4.0f32, 6.0]);
}

#[test]
fn lookup_of_absent_tag_is_none() {
    let set = BaseFieldSet::build(vec![(tag("A"), vec![1.0f32])], 1).unwrap();
    assert!(set.get(&tag("Z")).is_none());
    assert_eq!(set.get(&tag("A")), Some(&vec![1.0f32]));
}

#[test]
fn constant_expression_follows_constant_policy() {
    let (w, h) = (6, 5);
    let entries = vec![(tag("A"), uniform(2.0, w, h)), (tag("B"), uniform(3.0, w, h)), (tag("C"), uniform(5.0, w, h))];
    let expr = add(mult(leaf("A"), leaf("C")), leaf("B"));
    let raw = compose_fields(&expr, entries.clone(), w, h, &arith).unwrap();
    assert_eq!(raw, vec![13.0f32; w * h]);
    let n = generate(&expr, entries, w, h, &arith, &less, &rescale, 0.0f32).unwrap();
    assert!(matches!(n, NormalizedField::Constant(_)));
    let v = n.into_vec();
    assert_eq!(v.len(), w * h);
    assert!(v.iter().all(|&x| x == 0.0 && !x.is_nan()));
}

#[test]
fn non_constant_expression_spans_zero_to_one() {
    let (w, h) = (4, 2);
    let ramp: Vec<f32> = vec![3.0, 7.0, 1.0, 5.0, 2.0, 9.0, 4.0, 6.0];
    let entries = vec![(tag("A"), uniform(0.0, w, h)), (tag("B"), uniform(10.0, w, h)), (tag("G"), ramp)];
    let expr = add(add(leaf("A"), leaf("B")), leaf("G"));
    let n = generate(&expr, entries, w, h, &arith, &less, &rescale, 0.0f32).unwrap();
    assert!(matches!(n, NormalizedField::Scaled(_)));
    let v = n.into_vec();
    assert_eq!(v.len(), w * h);
    assert_eq!(v[2], 0.0);
    assert_eq!(v[5], 1.0);
    assert_eq!(v[0], 0.25);
    assert!(v.iter().all(|&x| (0.0..=1.0).contains(&x)));
}

#[test]
fn normalize_rescales_between_min_and_max() {
    let n = normalize(&vec![1.0f32, 3.0, 5.0], &less, &rescale, 0.0f32);
    assert_eq!(n.into_vec(), vec![0.0f32, 0.5, 1.0]);
}

#[test]
fn normalize_subtracts_a_nonzero_minimum() {
    let n = normalize(&vec![-2.0f32, 0.0, 2.0, 6.0], &less, &rescale, 0.0f32);
    assert_eq!(n.into_vec(), vec![0.0f32, 0.25, 0.5, 1.0]);
}

#[test]
fn normalize_of_empty_field_is_constant() {
    let n = normalize(&Vec::<f32>::new(), &less, &rescale, 0.0f32);
    assert!(matches!(n, NormalizedField::Constant(ref v) if v.is_empty()));
}

#[test]
fn empty_region_gives_empty_field() {
    let entries = vec![(tag("A"), uniform(1.0, 0, 3))];
    let n = generate(&leaf("A"), entries, 0, 3, &arith, &less, &rescale, 0.0f32).unwrap();
    assert!(n.into_vec().is_empty());
}

#[test]
fn error_messages_are_not_empty() {
    let e = GenerationError::UnresolvedTag { tag: "B".to_string() };
    assert!(!e.message().is_empty());
}

#[test]
fn normalize_quarter_steps() {
    let n = normalize(&vec![10.0f32, 10.25, 11.0, 10.5], &less, &rescale, 0.0f32);
    assert!(matches!(n, NormalizedField::Scaled(_)));
    assert_eq!(n.into_vec(), vec![0.0f32, 0.25, 1.0, 0.5]);
}

#[test]
fn normalize_divides_by_the_range() {
    let n = normalize(&vec![2.0f32, 4.0], &less, &rescale, 0.0f32);
    assert_eq!(n.into_vec(), vec![0.0f32, 1.0]);
}

#[test]
fn unreferenced_entry_leaves_result_unchanged() {
    let ramp: Vec<f32> = vec![1.0, 4.0, 2.0, 8.0];
    let base = vec![(tag("A"), ramp.clone()), (tag("B"), uniform(3.0, 2, 2))];
    let mut extended = base.clone();
    extended.push((tag("Z"), vec![100.0f32, -5.0, 0.0, 7.0]));
    let expr = mult(leaf("A"), leaf("B"));
    let r1 = generate(&expr, base, 2, 2, &arith, &less, &rescale, 0.0f32).unwrap().into_vec();
    let r2 = generate(&expr, extended, 2, 2, &arith, &less, &rescale, 0.0f32).unwrap().into_vec();
    assert_eq!(r1, r2);
}

#[test]
fn repeated_generation_is_identical() {
    let entries = vec![(tag("A"), vec![0.5f32, 1.5, -2.0, 3.0, 0.0, 9.0]), (tag("B"), uniform(2.0, 3, 2))];
    let expr = add(mult(leaf("A"), leaf("B")), leaf("A"));
    let r1 = generate(&expr, entries.clone(), 3, 2, &arith, &less, &rescale, 0.0f32).unwrap().into_vec();
    let r2 = generate(&expr, entries, 3, 2, &arith, &less, &rescale, 0.0f32).unwrap().into_vec();
    assert_eq!(r1.iter().map(|x| x.to_bits()).collect::<Vec<_>>(), r2.iter().map(|x| x.to_bits()).collect::<Vec<_>>());
    assert_eq!(r1[2], 0.0);
    assert_eq!(r1[5], 1.0);
}
