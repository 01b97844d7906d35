use vstd::prelude::*;

use crate::error::GenerationError;
use crate::field_set::BaseFieldSet;
use crate::tag::NoiseTag;

verus! {

/// The scalar operation that an operator node applies at each index.
#[derive(Clone, Copy, Debug, PartialEq, Eq, Structural)]
pub enum ScalarOp {
    Add,
    Mult,
}

/// A node of the expression tree: a reference to a named field, or an operator
/// over child nodes.
pub enum GenerationExpressionToken {
    Operator(Box<GenerationExpressionOperator>),
    Noise(NoiseTag),
}

/// An elementwise operator over two child expressions.
pub enum GenerationExpressionOperator {
    Add { lhs: GenerationExpressionToken, rhs: GenerationExpressionToken },
    Mult { lhs: GenerationExpressionToken, rhs: GenerationExpressionToken },
}

/// A field produced by evaluation: either a view into the base field set or an
/// array computed by an operator.
pub enum FieldRef<'a, T> {
    Borrowed(&'a Vec<T>),
    Owned(Vec<T>),
}

/// `op` may be called on every operation and every pair of samples, and gives one
/// result for each.
pub open spec fn total_op<T, F: Fn(ScalarOp, T, T) -> T>(op: F) -> bool {
    &&& forall|k: ScalarOp, a: T, b: T| op.requires((k, a, b))
    &&& forall|k: ScalarOp, a: T, b: T, r1: T, r2: T| op.ensures((k, a, b), r1) && op.ensures((k, a, b), r2) ==> r1 == r2
}

/// `out` is `a` and `b` combined index by index with `op` under `k`.
pub open spec fn combined<T, F: Fn(ScalarOp, T, T) -> T>(k: ScalarOp, a: Seq<T>, b: Seq<T>, op: F, out: Seq<T>) -> bool {
    &&& a.len() == b.len()
    &&& out.len() == a.len()
    &&& forall|i: int| 0 <= i < out.len() ==> op.ensures((k, a[i], b[i]), #[trigger] out[i])
}

impl GenerationExpressionToken {
    /// The tag that a leaf names.
    pub open spec fn leaf_tag(&self) -> Seq<char> {
        match self {
            GenerationExpressionToken::Noise(t) => t@,
            GenerationExpressionToken::Operator(_) => Seq::empty(),
        }
    }

    /// The first leaf, left to right, whose tag is not in `keys`.
    pub open spec fn first_unresolved(&self, keys: Set<Seq<char>>) -> Option<Seq<char>>
        decreases self,
    {
        match self {
            GenerationExpressionToken::Noise(t) => if keys.contains(t@) {
                None
            } else {
                Some(t@)
            },
            GenerationExpressionToken::Operator(o) => match **o {
                GenerationExpressionOperator::Add { lhs, rhs } => match lhs.first_unresolved(keys) {
                    Some(t) => Some(t),
                    None => rhs.first_unresolved(keys),
                },
                GenerationExpressionOperator::Mult { lhs, rhs } => match lhs.first_unresolved(keys) {
                    Some(t) => Some(t),
                    None => rhs.first_unresolved(keys),
                },
            },
        }
    }

    /// Some leaf of this node names `t`.
    pub open spec fn mentions(&self, t: Seq<char>) -> bool
        decreases self,
    {
        match self {
            GenerationExpressionToken::Noise(n) => n@ == t,
            GenerationExpressionToken::Operator(o) => match **o {
                GenerationExpressionOperator::Add { lhs, rhs } => lhs.mentions(t) || rhs.mentions(t),
                GenerationExpressionOperator::Mult { lhs, rhs } => lhs.mentions(t) || rhs.mentions(t),
            },
        }
    }

    /// `out` is what this node evaluates to over `fields`, with `op` as the scalar
    /// operation: a leaf is its field, an operator node combines what its children
    /// evaluate to.
    pub open spec fn evaluates<T, F: Fn(ScalarOp, T, T) -> T>(&self, fields: Map<Seq<char>, Seq<T>>, op: F, out: Seq<T>) -> bool
        decreases self,
    {
        match self {
            GenerationExpressionToken::Noise(t) => fields.contains_key(t@) && out == fields[t@],
            GenerationExpressionToken::Operator(o) => match **o {
                GenerationExpressionOperator::Add { lhs, rhs } => exists|a: Seq<T>, b: Seq<T>|
                    lhs.evaluates(fields, op, a) && rhs.evaluates(fields, op, b) && combined(ScalarOp::Add, a, b, op, out),
                GenerationExpressionOperator::Mult { lhs, rhs } => exists|a: Seq<T>, b: Seq<T>|
                    lhs.evaluates(fields, op, a) && rhs.evaluates(fields, op, b) && combined(ScalarOp::Mult, a, b, op, out),
            },
        }
    }

    /// Evaluates the node over the base field set. A leaf hands back a view into
    /// the set; only operator nodes allocate.
    pub fn get_vec<'a, T: Copy, F: Fn(ScalarOp, T, T) -> T>(&self, available_noises: &'a BaseFieldSet<T>, op: &F) -> (r: Result<FieldRef<'a, T>, GenerationError>)
        requires
            available_noises.wf(),
            total_op(*op),
        ensures
            r is Ok <==> self.first_unresolved(available_noises@.dom()) is None,
            r matches Ok(v) ==> self.evaluates(available_noises@, *op, v@) && v@.len() == available_noises.samples(),
            r matches Ok(v) ==> (v is Borrowed <==> self is Noise),
            r matches Err(e) ==> e matches GenerationError::UnresolvedTag { tag }
                && self.first_unresolved(available_noises@.dom()) == Some(tag@),
        decreases self, 0nat,
    {
        match self {
            GenerationExpressionToken::Operator(operator) => match operator.result(available_noises, op) {
                Ok(v) => Ok(FieldRef::Owned(v)),
                Err(e) => Err(e),
            },
            GenerationExpressionToken::Noise(noise_tag) => match available_noises.get(noise_tag) {
                Some(v) => Ok(FieldRef::Borrowed(v)),
                None => Err(GenerationError::UnresolvedTag { tag: noise_tag.0.clone() }),
            },
        }
    }
}

impl GenerationExpressionOperator {
    /// The operation applied at each index.
    pub open spec fn kind(&self) -> ScalarOp {
        match self {
            GenerationExpressionOperator::Add { .. } => ScalarOp::Add,
            GenerationExpressionOperator::Mult { .. } => ScalarOp::Mult,
        }
    }

    pub open spec fn left(&self) -> GenerationExpressionToken {
        match self {
            GenerationExpressionOperator::Add { lhs, .. } => *lhs,
            GenerationExpressionOperator::Mult { lhs, .. } => *lhs,
        }
    }

    pub open spec fn right(&self) -> GenerationExpressionToken {
        match self {
            GenerationExpressionOperator::Add { rhs, .. } => *rhs,
            GenerationExpressionOperator::Mult { rhs, .. } => *rhs,
        }
    }

    /// Evaluates both children over the base field set and combines them.
    pub fn result<T: Copy, F: Fn(ScalarOp, T, T) -> T>(&self, available_noises: &BaseFieldSet<T>, op: &F) -> (r: Result<Vec<T>, GenerationError>)
        requires
            available_noises.wf(),
            total_op(*op),
        ensures
            r is Ok <==> GenerationExpressionToken::Operator(Box::new(*self)).first_unresolved(available_noises@.dom()) is None,
            r matches Ok(v) ==> v@.len() == available_noises.samples() && exists|a: Seq<T>, b: Seq<T>|
                self.left().evaluates(available_noises@, *op, a) && self.right().evaluates(available_noises@, *op, b)
                && combined(self.kind(), a, b, *op, v@),
            r matches Err(e) ==> e matches GenerationError::UnresolvedTag { tag }
                && GenerationExpressionToken::Operator(Box::new(*self)).first_unresolved(available_noises@.dom()) == Some(tag@),
        decreases self,
    {
        let (kind, lhs, rhs) = match self {
            GenerationExpressionOperator::Add { lhs, rhs } => (ScalarOp::Add, lhs, rhs),
            GenerationExpressionOperator::Mult { lhs, rhs } => (ScalarOp::Mult, lhs, rhs),
        };
        let lhs_vec = match lhs.get_vec(available_noises, op) {
            Ok(v) => v,
            Err(e) => return Err(e),
        };
        let rhs_vec = match rhs.get_vec(available_noises, op) {
            Ok(v) => v,
            Err(e) => return Err(e),
        };
        let combined_vec = combine_fields(kind, lhs_vec.as_vec(), rhs_vec.as_vec(), op);
        match combined_vec {
            Ok(v) => Ok(v),
            Err(e) => {
                assert(false);
                Err(e)
            },
        }
    }
}

/// Evaluation is a function: a node evaluates to at most one array over given
/// fields when the scalar operation gives one result for each input.
pub proof fn lemma_evaluation_deterministic<T, F: Fn(ScalarOp, T, T) -> T>(
    node: GenerationExpressionToken,
    fields: Map<Seq<char>, Seq<T>>,
    op: F,
    out1: Seq<T>,
    out2: Seq<T>,
)
    requires
        total_op(op),
        node.evaluates(fields, op, out1),
        node.evaluates(fields, op, out2),
    ensures
        out1 == out2,
    decreases node,
{
    match node {
        GenerationExpressionToken::Noise(_) => {},
        GenerationExpressionToken::Operator(o) => {
            let k = o.kind();
            let (lhs, rhs) = (o.left(), o.right());
            assert(exists|a: Seq<T>, b: Seq<T>|
                lhs.evaluates(fields, op, a) && rhs.evaluates(fields, op, b) && combined(k, a, b, op, out1));
            let (a1, b1) = choose|a: Seq<T>, b: Seq<T>|
                lhs.evaluates(fields, op, a) && rhs.evaluates(fields, op, b) && combined(k, a, b, op, out1);
            let (a2, b2) = choose|a: Seq<T>, b: Seq<T>|
                lhs.evaluates(fields, op, a) && rhs.evaluates(fields, op, b) && combined(k, a, b, op, out2);
            lemma_evaluation_deterministic(lhs, fields, op, a1, a2);
            lemma_evaluation_deterministic(rhs, fields, op, b1, b2);
            assert(out1 =~= out2);
        },
    }
}

/// An operator node evaluates, index by index, to its scalar operation applied to
/// what its children evaluate to: `Add` gives `lhs[i] + rhs[i]`, `Mult` gives
/// `lhs[i] * rhs[i]`, over arrays of equal length.
pub proof fn lemma_operator_elementwise<T, F: Fn(ScalarOp, T, T) -> T>(
    node: GenerationExpressionOperator,
    fields: Map<Seq<char>, Seq<T>>,
    op: F,
    lhs: Seq<T>,
    rhs: Seq<T>,
    out: Seq<T>,
)
    requires
        total_op(op),
        node.left().evaluates(fields, op, lhs),
        node.right().evaluates(fields, op, rhs),
        GenerationExpressionToken::Operator(Box::new(node)).evaluates(fields, op, out),
    ensures
        combined(node.kind(), lhs, rhs, op, out),
{
    let k = node.kind();
    let (l, r) = (node.left(), node.right());
    assert(exists|a: Seq<T>, b: Seq<T>| l.evaluates(fields, op, a) && r.evaluates(fields, op, b) && combined(k, a, b, op, out));
    let (a, b) = choose|a: Seq<T>, b: Seq<T>|
        l.evaluates(fields, op, a) && r.evaluates(fields, op, b) && combined(k, a, b, op, out);
    lemma_evaluation_deterministic(l, fields, op, a, lhs);
    lemma_evaluation_deterministic(r, fields, op, b, rhs);
}

/// A field that no leaf names does not change what a node evaluates to: adding an
/// unreferenced entry to the fields leaves the result as it was.
pub proof fn lemma_unreferenced_field<T, F: Fn(ScalarOp, T, T) -> T>(
    node: GenerationExpressionToken,
    fields: Map<Seq<char>, Seq<T>>,
    t: Seq<char>,
    f: Seq<T>,
    op: F,
    out: Seq<T>,
)
    requires
        !node.mentions(t),
    ensures
        node.evaluates(fields, op, out) <==> node.evaluates(fields.insert(t, f), op, out),
    decreases node,
{
    let g = fields.insert(t, f);
    match node {
        GenerationExpressionToken::Noise(_) => {},
        GenerationExpressionToken::Operator(o) => {
            let k = o.kind();
            let (lhs, rhs) = (o.left(), o.right());
            assert(!lhs.mentions(t) && !rhs.mentions(t));
            if node.evaluates(fields, op, out) {
                let (a, b) = choose|a: Seq<T>, b: Seq<T>|
                    lhs.evaluates(fields, op, a) && rhs.evaluates(fields, op, b) && combined(k, a, b, op, out);
                lemma_unreferenced_field(lhs, fields, t, f, op, a);
                lemma_unreferenced_field(rhs, fields, t, f, op, b);
                assert(lhs.evaluates(g, op, a) && rhs.evaluates(g, op, b) && combined(k, a, b, op, out));
            }
            if node.evaluates(g, op, out) {
                let (a, b) = choose|a: Seq<T>, b: Seq<T>|
                    lhs.evaluates(g, op, a) && rhs.evaluates(g, op, b) && combined(k, a, b, op, out);
                lemma_unreferenced_field(lhs, fields, t, f, op, a);
                lemma_unreferenced_field(rhs, fields, t, f, op, b);
                assert(lhs.evaluates(fields, op, a) && rhs.evaluates(fields, op, b) && combined(k, a, b, op, out));
            }
        },
    }
}

impl<'a, T> FieldRef<'a, T> {
    pub open spec fn view(&self) -> Seq<T> {
        match self {
            FieldRef::Borrowed(v) => v@,
            FieldRef::Owned(v) => v@,
        }
    }

    /// The samples, wherever they live.
    pub fn as_vec(&self) -> (r: &Vec<T>)
        ensures
            r@ == self@,
    {
        match self {
            FieldRef::Borrowed(v) => v,
            FieldRef::Owned(v) => v,
        }
    }
}

impl<'a, T: Copy> FieldRef<'a, T> {
    /// An owned array of the samples; a borrowed field is copied.
    pub fn into_vec(self) -> (r: Vec<T>)
        ensures
            r@ == self@,
    {
        match self {
            FieldRef::Borrowed(v) => {
                let mut out: Vec<T> = Vec::with_capacity(v.len());
                let mut i: usize = 0;
                while i < v.len()
                    invariant
                        0 <= i <= v.len(),
                        out@ == v@.subrange(0, i as int),
                    decreases v.len() - i,
                {
                    out.push(v[i]);
                    i = i + 1;
                }
                assert(out@ == v@);
                out
            },
            FieldRef::Owned(v) => v,
        }
    }
}

/// Combines two arrays index by index with `op` under `kind`. Arrays of different
/// lengths are refused before any sample is read.
pub fn combine_fields<T: Copy, F: Fn(ScalarOp, T, T) -> T>(kind: ScalarOp, lhs: &Vec<T>, rhs: &Vec<T>, op: &F) -> (r: Result<Vec<T>, GenerationError>)
    requires
        total_op(*op),
    ensures
        r is Ok <==> lhs@.len() == rhs@.len(),
        r matches Ok(v) ==> combined(kind, lhs@, rhs@, *op, v@),
        r matches Err(e) ==> e == (GenerationError::ShapeMismatch { expected: lhs.len(), found: rhs.len() }),
{
    if lhs.len() != rhs.len() {
        return Err(GenerationError::ShapeMismatch { expected: lhs.len(), found: rhs.len() });
    }
    let mut out: Vec<T> = Vec::with_capacity(lhs.len());
    let mut i: usize = 0;
    while i < lhs.len()
        invariant
            total_op(*op),
            lhs@.len() == rhs@.len(),
            0 <= i <= lhs.len(),
            out@.len() == i,
            forall|j: int| 0 <= j < i ==> op.ensures((kind, lhs@[j], rhs@[j]), #[trigger] out@[j]),
        decreases lhs.len() - i,
    {
        let x = op(kind, lhs[i], rhs[i]);
        out.push(x);
        i = i + 1;
    }
    Ok(out)
}

} // verus!
