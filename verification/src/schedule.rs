//! Straight-line arithmetic over binary32 encodings.
//!
//! A schedule is a list of steps. Each step applies one operation to inputs,
//! literal words, or the results of earlier steps. A negation is a flip of the sign
//! bit, which the library does itself. Every other operation rounds, or is
//! transcendental: the library hands it, with its operands resolved to words, to a
//! backend and records the word that comes back. What a step computes is described
//! by a [`Formula`], the expression tree obtained by unfolding its operands.

use crate::binary32::{negate, negation};
use crate::params::{Input, XRProjection};
use vstd::prelude::*;

verus! {

/// An operation on one word.
#[derive(Clone, Copy, PartialEq, Eq, Debug, Structural)]
pub enum UnaryOp {
    /// The tangent of an angle in radians, which the backend takes.
    Tan,
    /// The negation, which is exact and needs no backend.
    Neg,
}

/// An operation on two words, the first operand on the left. The backend performs
/// all four.
#[derive(Clone, Copy, PartialEq, Eq, Debug, Structural)]
pub enum BinaryOp {
    /// The sum `a + b`.
    Add,
    /// The difference `a - b`.
    Sub,
    /// The product `a * b`.
    Mul,
    /// The quotient `a / b`.
    Div,
}

/// Where a step takes an operand from.
#[derive(Clone, Copy, PartialEq, Eq, Debug, Structural)]
pub enum Operand {
    /// One of the numbers the caller stated.
    Input(Input),
    /// A literal encoding.
    Word(u32),
    /// The result of the step at this position of the schedule.
    Step(usize),
}

/// One line of a schedule.
#[derive(Clone, Copy, PartialEq, Eq, Debug, Structural)]
pub enum Step {
    /// An operation on one operand.
    Unary(UnaryOp, Operand),
    /// An operation on two operands, the left one first.
    Binary(BinaryOp, Operand, Operand),
}

/// A request to the backend: an operation with its operands resolved to words.
#[derive(Clone, Copy, PartialEq, Eq, Debug, Structural)]
pub enum Operation {
    /// The tangent of an angle in radians.
    Tan(u32),
    /// An operation on two words, the left one first.
    Binary(BinaryOp, u32, u32),
}

/// An expression over the inputs and literal words.
pub enum Formula {
    /// One of the numbers the caller stated.
    Input(Input),
    /// A literal encoding.
    Word(u32),
    /// An operation applied to one formula.
    Unary(UnaryOp, Box<Formula>),
    /// An operation applied to two formulas, the left one first.
    Binary(BinaryOp, Box<Formula>, Box<Formula>),
}

/// Whether an operand may be used where only the first `limit` steps have run.
pub open spec fn operand_defined(limit: int, operand: Operand) -> bool {
    operand matches Operand::Step(k) ==> k < limit
}

/// Whether the step at position `k` uses results of earlier steps only.
pub open spec fn step_defined(steps: Seq<Step>, k: int) -> bool {
    match steps[k] {
        Step::Unary(_, a) => operand_defined(k, a),
        Step::Binary(_, a, b) => operand_defined(k, a) && operand_defined(k, b),
    }
}

/// Whether every step uses results of earlier steps only.
pub open spec fn well_formed(steps: Seq<Step>) -> bool {
    forall|k: int| 0 <= k < steps.len() ==> #[trigger] step_defined(steps, k)
}

/// The formula that an operand denotes once the first `limit` steps have run. An
/// operand that is not defined there denotes nothing in particular.
pub open spec fn operand_formula(steps: Seq<Step>, limit: int, operand: Operand) -> Formula
    decreases limit, 0int,
{
    match operand {
        Operand::Input(input) => Formula::Input(input),
        Operand::Word(w) => Formula::Word(w),
        Operand::Step(k) => if k < limit {
            step_formula(steps, k as int)
        } else {
            arbitrary()
        },
    }
}

/// The formula that the step at position `k` computes. Opaque: reveal it to unfold
/// a step into its operation and the formulas of its operands.
#[verifier::opaque]
pub open spec fn step_formula(steps: Seq<Step>, k: int) -> Formula
    decreases k, 1int,
{
    if 0 <= k < steps.len() {
        match steps[k] {
            Step::Unary(op, a) => Formula::Unary(op, Box::new(operand_formula(steps, k, a))),
            Step::Binary(op, a, b) => Formula::Binary(
                op,
                Box::new(operand_formula(steps, k, a)),
                Box::new(operand_formula(steps, k, b)),
            ),
        }
    } else {
        arbitrary()
    }
}

/// The formula that an operand denotes at the end of the schedule.
pub open spec fn formula_of(steps: Seq<Step>, operand: Operand) -> Formula {
    operand_formula(steps, steps.len() as int, operand)
}

/// Whether a formula reads the given input anywhere.
pub open spec fn mentions(formula: Formula, input: Input) -> bool
    decreases formula,
{
    match formula {
        Formula::Input(i) => i == input,
        Formula::Word(_) => false,
        Formula::Unary(_, x) => mentions(*x, input),
        Formula::Binary(_, x, y) => mentions(*x, input) || mentions(*y, input),
    }
}

/// Whether `part` is `whole` or stands somewhere below it.
pub open spec fn occurs_in(part: Formula, whole: Formula) -> bool
    decreases whole,
{
    part == whole || match whole {
        Formula::Unary(_, x) => occurs_in(part, *x),
        Formula::Binary(_, x, y) => occurs_in(part, *x) || occurs_in(part, *y),
        _ => false,
    }
}

/// The answers of an arithmetic backend, as a relation between requests and words.
pub open spec fn answers<A: Fn(Operation) -> u32>(arith: A) -> spec_fn(Operation, u32) -> bool {
    |operation: Operation, value: u32| call_ensures(arith, (operation,), value)
}

/// Whether the arithmetic answers each request in one way only.
pub open spec fn single_valued(arith: spec_fn(Operation, u32) -> bool) -> bool {
    forall|operation: Operation, v1: u32, v2: u32|
        #[trigger] arith(operation, v1) && #[trigger] arith(operation, v2) ==> v1 == v2
}

/// Whether a valuation, which gives every formula one word, agrees with the
/// arithmetic on `formula` and on everything below it: inputs and literals stand
/// for themselves, the word of a negation is the word below it with its sign bit
/// flipped, and the word of any other operation is an answer to the request made of
/// the words of its operands.
///
/// Because a valuation gives a formula one word wherever it occurs, a quantity that
/// several formulas share has the same value in all of them.
pub open spec fn consistent(
    arith: spec_fn(Operation, u32) -> bool,
    inputs: XRProjection,
    valuation: spec_fn(Formula) -> u32,
    formula: Formula,
) -> bool
    decreases formula,
{
    match formula {
        Formula::Input(input) => valuation(formula) == inputs.word(input),
        Formula::Word(w) => valuation(formula) == w,
        Formula::Unary(UnaryOp::Neg, x) => consistent(arith, inputs, valuation, *x) && valuation(
            formula,
        ) == negation(valuation(*x)),
        Formula::Unary(UnaryOp::Tan, x) => consistent(arith, inputs, valuation, *x) && arith(
            Operation::Tan(valuation(*x)),
            valuation(formula),
        ),
        Formula::Binary(op, x, y) => consistent(arith, inputs, valuation, *x) && consistent(
            arith,
            inputs,
            valuation,
            *y,
        ) && arith(Operation::Binary(op, valuation(*x), valuation(*y)), valuation(formula)),
    }
}

/// Whether a valuation agrees with the arithmetic on `formula` and gives it `word`.
pub open spec fn values(
    arith: spec_fn(Operation, u32) -> bool,
    inputs: XRProjection,
    valuation: spec_fn(Formula) -> u32,
    formula: Formula,
    word: u32,
) -> bool {
    consistent(arith, inputs, valuation, formula) && valuation(formula) == word
}

/// With arithmetic that answers each request in one way only, two valuations that
/// agree with it on a formula give that formula the same word.
pub proof fn lemma_consistent_unique(
    arith: spec_fn(Operation, u32) -> bool,
    inputs: XRProjection,
    v1: spec_fn(Formula) -> u32,
    v2: spec_fn(Formula) -> u32,
    formula: Formula,
)
    requires
        single_valued(arith),
        consistent(arith, inputs, v1, formula),
        consistent(arith, inputs, v2, formula),
    ensures
        v1(formula) == v2(formula),
    decreases formula,
{
    match formula {
        Formula::Input(_) => {},
        Formula::Word(_) => {},
        Formula::Unary(_, x) => {
            lemma_consistent_unique(arith, inputs, v1, v2, *x);
        },
        Formula::Binary(_, x, y) => {
            lemma_consistent_unique(arith, inputs, v1, v2, *x);
            lemma_consistent_unique(arith, inputs, v1, v2, *y);
        },
    }
}

/// The word that an operand stands for, given the results of the steps run so far.
pub open spec fn operand_word(inputs: XRProjection, results: Seq<u32>, operand: Operand) -> u32 {
    match operand {
        Operand::Input(input) => inputs.word(input),
        Operand::Word(w) => w,
        Operand::Step(k) => results[k as int],
    }
}

/// Whether `value` is a result of the step, given the results of the steps before
/// it: the negated operand for a negation, and otherwise an answer of the arithmetic
/// to the request that the step makes.
pub open spec fn step_result(
    arith: spec_fn(Operation, u32) -> bool,
    step: Step,
    inputs: XRProjection,
    results: Seq<u32>,
    value: u32,
) -> bool {
    match step {
        Step::Unary(UnaryOp::Neg, a) => value == negation(operand_word(inputs, results, a)),
        Step::Unary(UnaryOp::Tan, a) => arith(
            Operation::Tan(operand_word(inputs, results, a)),
            value,
        ),
        Step::Binary(op, a, b) => arith(
            Operation::Binary(
                op,
                operand_word(inputs, results, a),
                operand_word(inputs, results, b),
            ),
            value,
        ),
    }
}

/// Whether the word recorded for the step at position `k` is a result of that step.
pub open spec fn answered(
    arith: spec_fn(Operation, u32) -> bool,
    inputs: XRProjection,
    steps: Seq<Step>,
    results: Seq<u32>,
    k: int,
) -> bool {
    step_result(arith, steps[k], inputs, results, results[k])
}

/// Whether `results` records a run of the schedule: one word for each step, each a
/// result of that step on the words before it.
pub open spec fn follows(
    arith: spec_fn(Operation, u32) -> bool,
    inputs: XRProjection,
    steps: Seq<Step>,
    results: Seq<u32>,
) -> bool {
    &&& results.len() == steps.len()
    &&& forall|k: int|
        0 <= k < steps.len() ==> #[trigger] answered(arith, inputs, steps, results, k)
}

/// Whether no step stands in the schedule twice. Opaque: reveal it to compare steps.
#[verifier::opaque]
pub open spec fn no_repeats(steps: Seq<Step>) -> bool {
    forall|j: int, k: int| 0 <= j < k < steps.len() ==> steps[j] != steps[k]
}

/// Steps that a longer schedule shares with a shorter one compute the same formula
/// in both.
proof fn lemma_prefix_step(short: Seq<Step>, long: Seq<Step>, k: int)
    requires
        short.len() <= long.len(),
        forall|j: int| 0 <= j < short.len() ==> short[j] == long[j],
        0 <= k < short.len(),
    ensures
        step_formula(long, k) == step_formula(short, k),
    decreases k, 1int,
{
    reveal(step_formula);
    match short[k] {
        Step::Unary(_, a) => {
            lemma_prefix_operand(short, long, k, a);
        },
        Step::Binary(_, a, b) => {
            lemma_prefix_operand(short, long, k, a);
            lemma_prefix_operand(short, long, k, b);
        },
    }
}

/// An operand denotes the same formula in a schedule and in any extension of it.
proof fn lemma_prefix_operand(short: Seq<Step>, long: Seq<Step>, limit: int, operand: Operand)
    requires
        short.len() <= long.len(),
        forall|j: int| 0 <= j < short.len() ==> short[j] == long[j],
        0 <= limit <= short.len(),
    ensures
        operand_formula(long, limit, operand) == operand_formula(short, limit, operand),
    decreases limit, 0int,
{
    reveal(step_formula);
    if let Operand::Step(k) = operand {
        if k < limit {
            lemma_prefix_step(short, long, k as int);
        }
    }
}

/// In a well-formed schedule without repeats, two steps that compute the same
/// formula are one step.
proof fn lemma_steps_distinct(steps: Seq<Step>, j: int, k: int)
    requires
        well_formed(steps),
        no_repeats(steps),
        0 <= j < steps.len(),
        0 <= k < steps.len(),
        step_formula(steps, j) == step_formula(steps, k),
    ensures
        j == k,
    decreases j + k, 1int,
{
    reveal(step_formula);
    reveal(no_repeats);
    assert(step_defined(steps, j));
    assert(step_defined(steps, k));
    match (steps[j], steps[k]) {
        (Step::Unary(_, a), Step::Unary(_, b)) => {
            lemma_operands_distinct(steps, j, a, k, b);
        },
        (Step::Binary(_, a, b), Step::Binary(_, c, d)) => {
            lemma_operands_distinct(steps, j, a, k, c);
            lemma_operands_distinct(steps, j, b, k, d);
        },
        _ => {},
    }
    assert(steps[j] == steps[k]);
}

/// In a well-formed schedule without repeats, two defined operands that denote the
/// same formula are one operand.
proof fn lemma_operands_distinct(
    steps: Seq<Step>,
    limit_a: int,
    a: Operand,
    limit_b: int,
    b: Operand,
)
    requires
        well_formed(steps),
        no_repeats(steps),
        0 <= limit_a <= steps.len(),
        0 <= limit_b <= steps.len(),
        operand_defined(limit_a, a),
        operand_defined(limit_b, b),
        operand_formula(steps, limit_a, a) == operand_formula(steps, limit_b, b),
    ensures
        a == b,
    decreases limit_a + limit_b, 0int,
{
    reveal(step_formula);
    match (a, b) {
        (Operand::Step(x), Operand::Step(y)) => {
            lemma_steps_distinct(steps, x as int, y as int);
        },
        _ => {},
    }
}

/// The valuation that a run defines: the result of a step for the formula that the
/// step computes, and inputs and literals as they stand.
pub open spec fn valuation_of(inputs: XRProjection, steps: Seq<Step>, results: Seq<u32>) -> spec_fn(
    Formula,
) -> u32 {
    |formula: Formula|
        match formula {
            Formula::Input(input) => inputs.word(input),
            Formula::Word(w) => w,
            _ => results[choose|k: int|
                0 <= k < steps.len() && #[trigger] step_formula(steps, k) == formula],
        }
}

/// The valuation of a run gives each step's formula that step's result, and agrees
/// with the arithmetic on it, provided that no step stands in the schedule twice.
pub proof fn lemma_run_is_consistent(
    arith: spec_fn(Operation, u32) -> bool,
    inputs: XRProjection,
    steps: Seq<Step>,
    results: Seq<u32>,
    k: int,
)
    requires
        well_formed(steps),
        no_repeats(steps),
        follows(arith, inputs, steps, results),
        0 <= k < steps.len(),
    ensures
        valuation_of(inputs, steps, results)(step_formula(steps, k)) == results[k],
        consistent(arith, inputs, valuation_of(inputs, steps, results), step_formula(steps, k)),
    decreases k, 1int,
{
    reveal(step_formula);
    let valuation = valuation_of(inputs, steps, results);
    let formula = step_formula(steps, k);
    let chosen = choose|j: int| 0 <= j < steps.len() && #[trigger] step_formula(steps, j) == formula;
    lemma_steps_distinct(steps, chosen, k);
    assert(valuation(formula) == results[k]);
    assert(step_defined(steps, k));
    assert(answered(arith, inputs, steps, results, k));
    match steps[k] {
        Step::Unary(_, a) => {
            lemma_operand_is_consistent(arith, inputs, steps, results, k, a);
        },
        Step::Binary(_, a, b) => {
            lemma_operand_is_consistent(arith, inputs, steps, results, k, a);
            lemma_operand_is_consistent(arith, inputs, steps, results, k, b);
        },
    }
}

/// The valuation of a run gives the formula of a defined operand the word that the
/// operand stands for, and agrees with the arithmetic on it.
pub proof fn lemma_operand_is_consistent(
    arith: spec_fn(Operation, u32) -> bool,
    inputs: XRProjection,
    steps: Seq<Step>,
    results: Seq<u32>,
    limit: int,
    operand: Operand,
)
    requires
        well_formed(steps),
        no_repeats(steps),
        follows(arith, inputs, steps, results),
        0 <= limit <= steps.len(),
        operand_defined(limit, operand),
    ensures
        valuation_of(inputs, steps, results)(operand_formula(steps, limit, operand))
            == operand_word(inputs, results, operand),
        consistent(
            arith,
            inputs,
            valuation_of(inputs, steps, results),
            operand_formula(steps, limit, operand),
        ),
    decreases limit, 0int,
{
    reveal(step_formula);
    if let Operand::Step(k) = operand {
        lemma_run_is_consistent(arith, inputs, steps, results, k as int);
    }
}

/// A defined operand denotes the same formula whatever the limit it is read at.
proof fn lemma_limit_is_immaterial(steps: Seq<Step>, low: int, high: int, operand: Operand)
    requires
        operand_defined(low, operand),
        low <= high,
    ensures
        operand_formula(steps, low, operand) == operand_formula(steps, high, operand),
{
}

/// Whether a step could follow the given ones: it uses their results only.
pub open spec fn fits(steps: Seq<Step>, step: Step) -> bool {
    match step {
        Step::Unary(_, a) => operand_defined(steps.len() as int, a),
        Step::Binary(_, a, b) => operand_defined(steps.len() as int, a) && operand_defined(
            steps.len() as int,
            b,
        ),
    }
}

/// The most steps that a schedule holds.
pub const CAPACITY: usize = 20;

/// Whether a list of steps can be a schedule: it is no longer than [`CAPACITY`],
/// every step uses results of earlier steps only, and no step stands in it twice.
pub open spec fn valid(steps: Seq<Step>) -> bool {
    steps.len() <= CAPACITY && well_formed(steps) && no_repeats(steps)
}

/// A list of steps that is [`valid`], held in place: building and running one
/// allocates nothing.
pub struct Schedule {
    steps: [Step; CAPACITY],
    len: usize,
}

impl View for Schedule {
    type V = Seq<Step>;

    /// The steps scheduled so far, in order.
    closed spec fn view(&self) -> Seq<Step> {
        self.steps@.take(self.len as int)
    }
}

impl Schedule {
    #[verifier::type_invariant]
    closed spec fn inv(self) -> bool {
        self.len <= CAPACITY && valid(self@)
    }

    /// The empty schedule.
    pub fn new() -> (schedule: Self)
        ensures
            schedule@ == Seq::<Step>::empty(),
    {
        let steps = [Step::Unary(UnaryOp::Neg, Operand::Word(0)); CAPACITY];
        proof {
            reveal(no_repeats);
            assert(steps@.take(0) =~= Seq::<Step>::empty());
        }
        Schedule { steps, len: 0 }
    }

    /// Whether an operand names an input, a literal, or the result of a step that is
    /// scheduled.
    pub fn defines(&self, operand: Operand) -> (defined: bool)
        ensures
            defined == operand_defined(self@.len() as int, operand),
    {
        proof {
            use_type_invariant(self);
        }
        match operand {
            Operand::Step(k) => k < self.len,
            _ => true,
        }
    }

    /// The number of steps.
    pub fn len(&self) -> (n: usize)
        ensures
            n == self@.len(),
            valid(self@),
    {
        proof {
            use_type_invariant(self);
        }
        self.len
    }

    /// The step at position `k`, if there is one.
    pub fn step(&self, k: usize) -> (step: Option<Step>)
        ensures
            step == if k < self@.len() {
                Some(self@[k as int])
            } else {
                None
            },
    {
        proof {
            use_type_invariant(self);
        }
        if k < self.len {
            Some(self.steps[k])
        } else {
            None
        }
    }

    /// Schedules a step and returns the operand that names its result. A step that is
    /// scheduled already is not scheduled again: its earlier result is named. A step
    /// that uses a result that does not exist yet, or that is new to a full schedule,
    /// is not scheduled at all. Formulas of operands that were defined before stay
    /// what they were.
    pub fn emit(&mut self, step: Step) -> (result: Option<Operand>)
        ensures
            valid(old(self)@),
            valid(final(self)@),
            final(self)@ == if old(self)@.contains(step) || old(self)@.len() == CAPACITY
                || !fits(old(self)@, step) {
                old(self)@
            } else {
                old(self)@.push(step)
            },
            result is Some <==> old(self)@.contains(step) || (old(self)@.len() < CAPACITY && fits(
                old(self)@,
                step,
            )),
            result matches Some(operand) ==> {
                &&& operand matches Operand::Step(k) && k < final(self)@.len() && final(self)@[k as int]
                    == step
                &&& formula_of(final(self)@, operand) == match step {
                    Step::Unary(op, a) => Formula::Unary(op, Box::new(formula_of(old(self)@, a))),
                    Step::Binary(op, a, b) => Formula::Binary(
                        op,
                        Box::new(formula_of(old(self)@, a)),
                        Box::new(formula_of(old(self)@, b)),
                    ),
                }
            },
            forall|operand: Operand|
                operand_defined(old(self)@.len() as int, operand) ==> operand_defined(
                    final(self)@.len() as int,
                    operand,
                ) && formula_of(final(self)@, operand) == #[trigger] formula_of(
                    old(self)@,
                    operand,
                ),
    {
        proof {
            use_type_invariant(&*self);
        }
        let ghost before = self@;
        let defined = match step {
            Step::Unary(_, a) => self.defines(a),
            Step::Binary(_, a, b) => self.defines(a) && self.defines(b),
        };
        if !defined {
            proof {
                if before.contains(step) {
                    let k = choose|k: int| 0 <= k < before.len() && before[k] == step;
                    assert(step_defined(before, k));
                }
            }
            return None;
        }
        let mut position: usize = 0;
        while position < self.len
            invariant
                self@ == before,
                self.len <= CAPACITY,
                valid(before),
                position <= self.len,
                self.len == before.len(),
                forall|j: int| 0 <= j < position ==> before[j] != step,
            decreases self.len - position,
        {
            if self.steps[position] == step {
                proof {
                    reveal(step_formula);
                    let here = position as int;
                    assert(before[here] == step);
                    assert(step_defined(before, here));
                    match step {
                        Step::Unary(_, a) => {
                            lemma_limit_is_immaterial(before, here, before.len() as int, a);
                        },
                        Step::Binary(_, a, b) => {
                            lemma_limit_is_immaterial(before, here, before.len() as int, a);
                            lemma_limit_is_immaterial(before, here, before.len() as int, b);
                        },
                    }
                }
                return Some(Operand::Step(position));
            }
            position += 1;
        }
        assert(!before.contains(step));
        if self.len == CAPACITY {
            return None;
        }
        assert(self.steps@.update(position as int, step).take(self.len as int) =~= before);
        self.steps[position] = step;
        proof {
            reveal(no_repeats);
            reveal(step_formula);
            let long = before.push(step);
            assert(self.steps@.take(self.len + 1) =~= long);
            assert forall|k: int| 0 <= k < long.len() implies #[trigger] step_defined(long, k) by {
                if k < before.len() {
                    assert(step_defined(before, k));
                }
            }
            assert forall|operand: Operand|
                operand_defined(before.len() as int, operand) implies formula_of(long, operand)
                == #[trigger] formula_of(before, operand) by {
                lemma_prefix_operand(before, long, before.len() as int, operand);
            }
            match step {
                Step::Unary(_, a) => {
                    lemma_prefix_operand(before, long, before.len() as int, a);
                },
                Step::Binary(_, a, b) => {
                    lemma_prefix_operand(before, long, before.len() as int, a);
                    lemma_prefix_operand(before, long, before.len() as int, b);
                },
            }
            assert(long[before.len() as int] == step);
        }
        self.len = self.len + 1;
        Some(Operand::Step(position))
    }

    /// Runs the schedule from its first step to its last, negating by itself and
    /// asking the backend for every other operation in turn. The result of the step
    /// at position `k` is the word at position `k`; the words past the last step are
    /// zero.
    pub fn run<A: Fn(Operation) -> u32>(&self, inputs: &XRProjection, arith: &A) -> (results: [u32;
        CAPACITY])
        requires
            forall|operation: Operation| call_requires(*arith, (operation,)),
        ensures
            valid(self@),
            follows(answers(*arith), *inputs, self@, results@.take(self@.len() as int)),
            forall|k: int| self@.len() <= k < CAPACITY ==> results[k] == 0,
    {
        proof {
            use_type_invariant(self);
        }
        let ghost steps = self@;
        let mut results: [u32; CAPACITY] = [0; CAPACITY];
        let mut i: usize = 0;
        while i < self.len
            invariant
                steps == self@,
                valid(steps),
                self.len == steps.len(),
                self.len <= CAPACITY,
                forall|j: int| 0 <= j < self.len ==> self.steps@[j] == steps[j],
                forall|operation: Operation| call_requires(*arith, (operation,)),
                i <= self.len,
                forall|k: int|
                    0 <= k < i ==> #[trigger] answered(
                        answers(*arith),
                        *inputs,
                        steps,
                        results@.take(i as int),
                        k,
                    ),
                forall|k: int| i <= k < CAPACITY ==> results[k] == 0,
            decreases self.len - i,
        {
            assert(step_defined(steps, i as int));
            let ghost before = results@.take(i as int);
            let value = match self.steps[i] {
                Step::Unary(UnaryOp::Neg, a) => negate(resolve(inputs, &results, a)),
                Step::Unary(UnaryOp::Tan, a) => {
                    let av = resolve(inputs, &results, a);
                    arith(Operation::Tan(av))
                },
                Step::Binary(op, a, b) => {
                    let av = resolve(inputs, &results, a);
                    let bv = resolve(inputs, &results, b);
                    arith(Operation::Binary(op, av, bv))
                },
            };
            assert(step_result(answers(*arith), steps[i as int], *inputs, before, value));
            results[i] = value;
            assert forall|k: int| 0 <= k < i + 1 implies #[trigger] answered(
                answers(*arith),
                *inputs,
                steps,
                results@.take(i + 1),
                k,
            ) by {
                assert(step_defined(steps, k));
                if k < i {
                    assert(answered(answers(*arith), *inputs, steps, before, k));
                }
                assert(step_result(
                    answers(*arith),
                    steps[k],
                    *inputs,
                    before,
                    results@.take(i + 1)[k],
                ));
            }
            i += 1;
        }
        results
    }
}

/// Resolves an operand to the word it stands for, given the results of a run.
pub fn resolve(inputs: &XRProjection, results: &[u32; CAPACITY], operand: Operand) -> (w: u32)
    requires
        operand_defined(CAPACITY as int, operand),
    ensures
        w == operand_word(*inputs, results@, operand),
{
    match operand {
        Operand::Input(input) => inputs.input(input),
        Operand::Word(w) => w,
        Operand::Step(k) => results[k],
    }
}

} // verus!
