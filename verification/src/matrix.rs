//! The projection matrix: which formula stands in which cell, the schedule that
//! computes them, and the run of that schedule against a backend.
//!
//! A matrix is sixteen words in column-major order: the cell in column `col` and
//! row `row` is the word at position `4 * col + row`.

use crate::binary32::{NEG_ONE, ONE, TWO, ZERO};
use crate::params::{far_plane_of, ClipSpaceConvention, FarPlane, Input, XRProjection};
use crate::schedule::{
    answers, fits, formula_of, lemma_operand_is_consistent, occurs_in, operand_defined,
    operand_word, resolve, step_formula, valid, valuation_of, values, BinaryOp, Formula,
    Operand, Operation, Schedule, Step, UnaryOp, CAPACITY,
};
use vstd::prelude::*;

verus! {

/// The tangent of one of the four half-angles.
pub open spec fn tan_of(angle: Input) -> Formula {
    Formula::Unary(UnaryOp::Tan, Box::new(Formula::Input(angle)))
}

/// A binary operation on two formulas.
pub open spec fn binary(op: BinaryOp, x: Formula, y: Formula) -> Formula {
    Formula::Binary(op, Box::new(x), Box::new(y))
}

/// The negation of a formula.
pub open spec fn negated(x: Formula) -> Formula {
    Formula::Unary(UnaryOp::Neg, Box::new(x))
}

/// The horizontal extent of the frustum at unit distance: `tan(right) - tan(left)`.
pub open spec fn width() -> Formula {
    binary(BinaryOp::Sub, tan_of(Input::AngleRight), tan_of(Input::AngleLeft))
}

/// The vertical extent of the frustum at unit distance, signed by the convention:
/// `tan(down) - tan(up)` where positive Y points down, `tan(up) - tan(down)` where
/// it points up.
pub open spec fn height(convention: ClipSpaceConvention) -> Formula {
    match convention {
        ClipSpaceConvention::PositiveYDown => binary(
            BinaryOp::Sub,
            tan_of(Input::AngleDown),
            tan_of(Input::AngleUp),
        ),
        ClipSpaceConvention::PositiveYUp => binary(
            BinaryOp::Sub,
            tan_of(Input::AngleUp),
            tan_of(Input::AngleDown),
        ),
    }
}

/// The horizontal scale: `2 / width`.
pub open spec fn scale_x() -> Formula {
    binary(BinaryOp::Div, Formula::Word(TWO), width())
}

/// The horizontal offset: `(tan(right) + tan(left)) / width`.
pub open spec fn offset_x() -> Formula {
    binary(
        BinaryOp::Div,
        binary(BinaryOp::Add, tan_of(Input::AngleRight), tan_of(Input::AngleLeft)),
        width(),
    )
}

/// The vertical scale: `2 / height`.
pub open spec fn scale_y(convention: ClipSpaceConvention) -> Formula {
    binary(BinaryOp::Div, Formula::Word(TWO), height(convention))
}

/// The vertical offset: `(tan(up) + tan(down)) / height`.
pub open spec fn offset_y(convention: ClipSpaceConvention) -> Formula {
    binary(
        BinaryOp::Div,
        binary(BinaryOp::Add, tan_of(Input::AngleUp), tan_of(Input::AngleDown)),
        height(convention),
    )
}

/// A clipping distance with the depth offset of a zero-to-one clip space, which is
/// zero, added to it.
pub open spec fn with_depth_offset(distance: Input) -> Formula {
    binary(BinaryOp::Add, Formula::Input(distance), Formula::Word(ZERO))
}

/// The depth range of a finite frustum: `far - near`.
pub open spec fn depth_span() -> Formula {
    binary(BinaryOp::Sub, Formula::Input(Input::Far), Formula::Input(Input::Near))
}

/// The depth scale: `-1` with the far plane at infinity, `-(far + 0) / (far - near)`
/// with a finite one.
pub open spec fn depth_scale(plane: FarPlane) -> Formula {
    match plane {
        FarPlane::Infinite => Formula::Word(NEG_ONE),
        FarPlane::Finite => binary(
            BinaryOp::Div,
            negated(with_depth_offset(Input::Far)),
            depth_span(),
        ),
    }
}

/// The depth translation: `-(near + 0)` with the far plane at infinity,
/// `-(far * (near + 0)) / (far - near)` with a finite one.
pub open spec fn depth_offset(plane: FarPlane) -> Formula {
    match plane {
        FarPlane::Infinite => negated(with_depth_offset(Input::Near)),
        FarPlane::Finite => binary(
            BinaryOp::Div,
            negated(
                binary(
                    BinaryOp::Mul,
                    Formula::Input(Input::Far),
                    with_depth_offset(Input::Near),
                ),
            ),
            depth_span(),
        ),
    }
}

/// The formula of the cell in column `col` and row `row`, before any depth reversal.
/// The cells not named here are zero.
pub open spec fn matrix_formula(
    plane: FarPlane,
    convention: ClipSpaceConvention,
    col: int,
    row: int,
) -> Formula {
    if col == 0 && row == 0 {
        scale_x()
    } else if col == 1 && row == 1 {
        scale_y(convention)
    } else if col == 2 && row == 0 {
        offset_x()
    } else if col == 2 && row == 1 {
        offset_y(convention)
    } else if col == 2 && row == 2 {
        depth_scale(plane)
    } else if col == 2 && row == 3 {
        Formula::Word(NEG_ONE)
    } else if col == 3 && row == 2 {
        depth_offset(plane)
    } else {
        Formula::Word(ZERO)
    }
}

/// The formula of the cell at a column-major position.
pub open spec fn cell_formula(
    plane: FarPlane,
    convention: ClipSpaceConvention,
    position: int,
) -> Formula {
    matrix_formula(plane, convention, position / 4, position % 4)
}

/// Whether some cell of the matrix needs `formula`: it is the formula of a cell or
/// stands somewhere below one.
pub open spec fn needed(plane: FarPlane, convention: ClipSpaceConvention, formula: Formula) -> bool {
    exists|position: int|
        0 <= position < 16 && occurs_in(formula, #[trigger] cell_formula(plane, convention, position))
}

/// Whether every step of the schedule computes something that a cell needs. Opaque:
/// reveal it to go from a step to the cell that needs it.
#[verifier::opaque]
pub open spec fn all_needed(
    steps: Seq<Step>,
    plane: FarPlane,
    convention: ClipSpaceConvention,
) -> bool {
    forall|k: int|
        0 <= k < steps.len() ==> needed(plane, convention, #[trigger] step_formula(steps, k))
}

/// Every quantity that the formulas of the cells are built from stands below a cell.
proof fn lemma_cells_need_their_parts(plane: FarPlane, convention: ClipSpaceConvention)
    ensures
        occurs_in(tan_of(Input::AngleLeft), cell_formula(plane, convention, 0)),
        occurs_in(tan_of(Input::AngleRight), cell_formula(plane, convention, 0)),
        occurs_in(tan_of(Input::AngleDown), cell_formula(plane, convention, 5)),
        occurs_in(tan_of(Input::AngleUp), cell_formula(plane, convention, 5)),
        occurs_in(width(), cell_formula(plane, convention, 0)),
        occurs_in(height(convention), cell_formula(plane, convention, 5)),
        occurs_in(scale_x(), cell_formula(plane, convention, 0)),
        occurs_in(
            binary(BinaryOp::Add, tan_of(Input::AngleRight), tan_of(Input::AngleLeft)),
            cell_formula(plane, convention, 8),
        ),
        occurs_in(offset_x(), cell_formula(plane, convention, 8)),
        occurs_in(scale_y(convention), cell_formula(plane, convention, 5)),
        occurs_in(
            binary(BinaryOp::Add, tan_of(Input::AngleUp), tan_of(Input::AngleDown)),
            cell_formula(plane, convention, 9),
        ),
        occurs_in(offset_y(convention), cell_formula(plane, convention, 9)),
        occurs_in(with_depth_offset(Input::Near), cell_formula(plane, convention, 14)),
        occurs_in(depth_offset(plane), cell_formula(plane, convention, 14)),
        plane == FarPlane::Finite ==> {
            &&& occurs_in(with_depth_offset(Input::Far), cell_formula(plane, convention, 10))
            &&& occurs_in(negated(with_depth_offset(Input::Far)), cell_formula(plane, convention, 10))
            &&& occurs_in(depth_span(), cell_formula(plane, convention, 10))
            &&& occurs_in(depth_scale(plane), cell_formula(plane, convention, 10))
            &&& occurs_in(
                binary(BinaryOp::Mul, Formula::Input(Input::Far), with_depth_offset(Input::Near)),
                cell_formula(plane, convention, 14),
            )
            &&& occurs_in(
                negated(
                    binary(
                        BinaryOp::Mul,
                        Formula::Input(Input::Far),
                        with_depth_offset(Input::Near),
                    ),
                ),
                cell_formula(plane, convention, 14),
            )
        },
{
    reveal_with_fuel(occurs_in, 6);
}

/// Schedules a step on behalf of the cell at `position`, which needs it.
fn emit_for(
    schedule: &mut Schedule,
    step: Step,
    Ghost(plane): Ghost<FarPlane>,
    Ghost(convention): Ghost<ClipSpaceConvention>,
    Ghost(position): Ghost<int>,
) -> (result: Operand)
    requires
        all_needed(old(schedule)@, plane, convention),
        old(schedule)@.len() < CAPACITY,
        fits(old(schedule)@, step),
        0 <= position < 16,
        occurs_in(
            match step {
                Step::Unary(op, a) => Formula::Unary(op, Box::new(formula_of(old(schedule)@, a))),
                Step::Binary(op, a, b) => Formula::Binary(
                    op,
                    Box::new(formula_of(old(schedule)@, a)),
                    Box::new(formula_of(old(schedule)@, b)),
                ),
            },
            cell_formula(plane, convention, position),
        ),
    ensures
        valid(final(schedule)@),
        all_needed(final(schedule)@, plane, convention),
        old(schedule)@.len() <= final(schedule)@.len() <= old(schedule)@.len() + 1,
        result is Step,
        operand_defined(final(schedule)@.len() as int, result),
        formula_of(final(schedule)@, result) == match step {
            Step::Unary(op, a) => Formula::Unary(op, Box::new(formula_of(old(schedule)@, a))),
            Step::Binary(op, a, b) => Formula::Binary(
                op,
                Box::new(formula_of(old(schedule)@, a)),
                Box::new(formula_of(old(schedule)@, b)),
            ),
        },
        forall|operand: Operand|
            operand_defined(old(schedule)@.len() as int, operand) ==> operand_defined(
                final(schedule)@.len() as int,
                operand,
            ) && formula_of(final(schedule)@, operand) == #[trigger] formula_of(
                old(schedule)@,
                operand,
            ),
{
    let scheduled = schedule.emit(step);
    proof {
        reveal(all_needed);
        if !old(schedule)@.contains(step) {
            assert(schedule@.last() == step);
        }
        assert(schedule@.contains(step));
        assert forall|k: int| 0 <= k < schedule@.len() implies needed(
            plane,
            convention,
            #[trigger] step_formula(schedule@, k),
        ) by {
            if k < old(schedule)@.len() {
                let earlier = Operand::Step(k as usize);
                assert(formula_of(schedule@, earlier) == formula_of(old(schedule)@, earlier));
                assert(needed(plane, convention, step_formula(old(schedule)@, k)));
            } else {
                assert(schedule@[k] == step);
                lemma_one_step(schedule@, k, scheduled->Some_0);
                assert(occurs_in(
                    step_formula(schedule@, k),
                    cell_formula(plane, convention, position),
                ));
            }
        }
    }
    match scheduled {
        Some(operand) => operand,
        // Not reached: the schedule has room and the step fits.
        None => Operand::Word(ZERO),
    }
}

/// In a schedule without repeats, the operand that names a step names the one
/// position at which that step stands.
proof fn lemma_one_step(steps: Seq<Step>, k: int, operand: Operand)
    requires
        valid(steps),
        0 <= k < steps.len(),
        operand matches Operand::Step(j) && j < steps.len() && steps[j as int] == steps[k],
    ensures
        operand == Operand::Step(k as usize),
{
    reveal(crate::schedule::no_repeats);
}

/// A schedule together with the operand that each cell of the matrix is read from.
/// Every cell names an input, a literal, or a step of the schedule.
pub struct ProjectionPlan {
    schedule: Schedule,
    cells: [Operand; 16],
    reverse_depth: bool,
}

impl ProjectionPlan {
    #[verifier::type_invariant]
    closed spec fn inv(self) -> bool {
        forall|position: int|
            0 <= position < 16 ==> operand_defined(
                self.schedule@.len() as int,
                #[trigger] self.cells[position],
            )
    }

    /// The arithmetic, in the order in which it is to run.
    pub closed spec fn steps(&self) -> Seq<Step> {
        self.schedule@
    }

    /// The sixteen cells, column-major.
    pub closed spec fn cell_operands(&self) -> Seq<Operand> {
        self.cells@
    }

    /// Whether the matrix that the cells give is still to be multiplied by the depth
    /// reversal.
    pub closed spec fn reverses_depth(&self) -> bool {
        self.reverse_depth
    }

    /// The formula that the plan computes for the cell at a column-major position.
    pub open spec fn formula(&self, position: int) -> Formula {
        formula_of(self.steps(), self.cell_operands()[position])
    }

    /// The schedule.
    pub fn schedule(&self) -> (schedule: &Schedule)
        ensures
            schedule@ == self.steps(),
    {
        &self.schedule
    }

    /// The operands of the sixteen cells, column-major.
    pub fn cells(&self) -> (cells: [Operand; 16])
        ensures
            cells@ == self.cell_operands(),
    {
        self.cells
    }

    /// Whether the depth reversal is still to be applied.
    pub fn reverse_depth(&self) -> (reverse: bool)
        ensures
            reverse == self.reverses_depth(),
    {
        self.reverse_depth
    }

    /// Whether the sixteen words are what a valuation that agrees with the arithmetic
    /// gives the formulas of the sixteen cells.
    pub open spec fn valued_by(
        &self,
        arith: spec_fn(Operation, u32) -> bool,
        inputs: XRProjection,
        valuation: spec_fn(Formula) -> u32,
        m: [u32; 16],
    ) -> bool {
        forall|position: int|
            #![trigger m[position]]
            0 <= position < 16 ==> values(
                arith,
                inputs,
                valuation,
                self.formula(position),
                m[position],
            )
    }

    /// Lays out the arithmetic of a projection. The four tangents, the width, the
    /// height and every other quantity that several cells share are scheduled once.
    pub fn new(plane: FarPlane, convention: ClipSpaceConvention) -> (plan: Self)
        ensures
            valid(plan.steps()),
            forall|position: int|
                0 <= position < 16 ==> operand_defined(
                    plan.steps().len() as int,
                    #[trigger] plan.cell_operands()[position],
                ),
            forall|position: int|
                0 <= position < 16 ==> #[trigger] plan.formula(position) == cell_formula(
                    plane,
                    convention,
                    position,
                ),
            all_needed(plan.steps(), plane, convention),
            plan.reverses_depth() == (plane == FarPlane::Infinite),
    {
        let ghost p = plane;
        let ghost c = convention;
        let zero = Operand::Word(ZERO);
        let two = Operand::Word(TWO);
        let mut steps = Schedule::new();
        assert(all_needed(steps@, p, c)) by {
            reveal(all_needed);
        }
        proof {
            lemma_cells_need_their_parts(p, c);
        }
        let tan_left = emit_for(
            &mut steps,
            Step::Unary(UnaryOp::Tan, Operand::Input(Input::AngleLeft)),
            Ghost(p),
            Ghost(c),
            Ghost(0),
        );
        let tan_right = emit_for(
            &mut steps,
            Step::Unary(UnaryOp::Tan, Operand::Input(Input::AngleRight)),
            Ghost(p),
            Ghost(c),
            Ghost(0),
        );
        let tan_down = emit_for(
            &mut steps,
            Step::Unary(UnaryOp::Tan, Operand::Input(Input::AngleDown)),
            Ghost(p),
            Ghost(c),
            Ghost(5),
        );
        let tan_up = emit_for(
            &mut steps,
            Step::Unary(UnaryOp::Tan, Operand::Input(Input::AngleUp)),
            Ghost(p),
            Ghost(c),
            Ghost(5),
        );
        let width = emit_for(
            &mut steps,
            Step::Binary(BinaryOp::Sub, tan_right, tan_left),
            Ghost(p),
            Ghost(c),
            Ghost(0),
        );
        let height = match convention {
            ClipSpaceConvention::PositiveYDown => emit_for(
                &mut steps,
                Step::Binary(BinaryOp::Sub, tan_down, tan_up),
                Ghost(p),
                Ghost(c),
                Ghost(5),
            ),
            ClipSpaceConvention::PositiveYUp => emit_for(
                &mut steps,
                Step::Binary(BinaryOp::Sub, tan_up, tan_down),
                Ghost(p),
                Ghost(c),
                Ghost(5),
            ),
        };
        let scale_x = emit_for(
            &mut steps,
            Step::Binary(BinaryOp::Div, two, width),
            Ghost(p),
            Ghost(c),
            Ghost(0),
        );
        let sum_x = emit_for(
            &mut steps,
            Step::Binary(BinaryOp::Add, tan_right, tan_left),
            Ghost(p),
            Ghost(c),
            Ghost(8),
        );
        let offset_x = emit_for(
            &mut steps,
            Step::Binary(BinaryOp::Div, sum_x, width),
            Ghost(p),
            Ghost(c),
            Ghost(8),
        );
        let scale_y = emit_for(
            &mut steps,
            Step::Binary(BinaryOp::Div, two, height),
            Ghost(p),
            Ghost(c),
            Ghost(5),
        );
        let sum_y = emit_for(
            &mut steps,
            Step::Binary(BinaryOp::Add, tan_up, tan_down),
            Ghost(p),
            Ghost(c),
            Ghost(9),
        );
        let offset_y = emit_for(
            &mut steps,
            Step::Binary(BinaryOp::Div, sum_y, height),
            Ghost(p),
            Ghost(c),
            Ghost(9),
        );
        let near_z = emit_for(
            &mut steps,
            Step::Binary(BinaryOp::Add, Operand::Input(Input::Near), zero),
            Ghost(p),
            Ghost(c),
            Ghost(14),
        );
        let depth_scale: Operand;
        let depth_offset: Operand;
        match plane {
            FarPlane::Infinite => {
                depth_scale = Operand::Word(NEG_ONE);
                depth_offset = emit_for(
                    &mut steps,
                    Step::Unary(UnaryOp::Neg, near_z),
                    Ghost(p),
                    Ghost(c),
                    Ghost(14),
                );
            },
            FarPlane::Finite => {
                let far_z = emit_for(
                    &mut steps,
                    Step::Binary(BinaryOp::Add, Operand::Input(Input::Far), zero),
                    Ghost(p),
                    Ghost(c),
                    Ghost(10),
                );
                let minus_far = emit_for(
                    &mut steps,
                    Step::Unary(UnaryOp::Neg, far_z),
                    Ghost(p),
                    Ghost(c),
                    Ghost(10),
                );
                let span = emit_for(
                    &mut steps,
                    Step::Binary(
                        BinaryOp::Sub,
                        Operand::Input(Input::Far),
                        Operand::Input(Input::Near),
                    ),
                    Ghost(p),
                    Ghost(c),
                    Ghost(10),
                );
                depth_scale = emit_for(
                    &mut steps,
                    Step::Binary(BinaryOp::Div, minus_far, span),
                    Ghost(p),
                    Ghost(c),
                    Ghost(10),
                );
                let product = emit_for(
                    &mut steps,
                    Step::Binary(BinaryOp::Mul, Operand::Input(Input::Far), near_z),
                    Ghost(p),
                    Ghost(c),
                    Ghost(14),
                );
                let minus_product = emit_for(
                    &mut steps,
                    Step::Unary(UnaryOp::Neg, product),
                    Ghost(p),
                    Ghost(c),
                    Ghost(14),
                );
                depth_offset = emit_for(
                    &mut steps,
                    Step::Binary(BinaryOp::Div, minus_product, span),
                    Ghost(p),
                    Ghost(c),
                    Ghost(14),
                );
            },
        }
        let cells: [Operand; 16] = [
            scale_x,
            zero,
            zero,
            zero,
            zero,
            scale_y,
            zero,
            zero,
            offset_x,
            offset_y,
            depth_scale,
            Operand::Word(NEG_ONE),
            zero,
            zero,
            depth_offset,
            zero,
        ];
        proof {
            assert(formula_of(steps@, zero) == Formula::Word(ZERO));
            assert(formula_of(steps@, Operand::Word(NEG_ONE)) == Formula::Word(NEG_ONE));
            assert(formula_of(steps@, scale_x) == self::scale_x());
            assert(formula_of(steps@, scale_y) == self::scale_y(convention));
            assert(formula_of(steps@, offset_x) == self::offset_x());
            assert(formula_of(steps@, offset_y) == self::offset_y(convention));
            assert(formula_of(steps@, depth_scale) == self::depth_scale(plane));
            assert(formula_of(steps@, depth_offset) == self::depth_offset(plane));
        }
        let plan = ProjectionPlan {
            schedule: steps,
            cells,
            reverse_depth: match plane {
                FarPlane::Infinite => true,
                FarPlane::Finite => false,
            },
        };
        plan
    }
}

/// The depth reversal, column by column: the identity, except that the third column
/// is `(0, 0, -1, 0)` and the fourth is `(0, 0, 1, 1)`. Multiplied onto a projection
/// from the left it replaces the depth row by the last row minus the depth row, which
/// turns a depth that grows with distance into one that shrinks with it.
pub open spec fn depth_reversal_words() -> Seq<u32> {
    seq![
        ONE, ZERO, ZERO, ZERO,
        ZERO, ONE, ZERO, ZERO,
        ZERO, ZERO, NEG_ONE, ZERO,
        ZERO, ZERO, ONE, ONE,
    ]
}

/// The depth reversal as a column-major matrix.
pub fn depth_reversal() -> (m: [u32; 16])
    ensures
        m@ == depth_reversal_words(),
{
    let m: [u32; 16] = [
        ONE, ZERO, ZERO, ZERO,
        ZERO, ONE, ZERO, ZERO,
        ZERO, ZERO, NEG_ONE, ZERO,
        ZERO, ZERO, ONE, ONE,
    ];
    assert(m@ =~= depth_reversal_words());
    m
}

impl ProjectionPlan {
    /// Runs the schedule against a backend and reads the sixteen cells off its
    /// results.
    pub fn evaluate<A: Fn(Operation) -> u32>(&self, inputs: &XRProjection, arith: &A) -> (m: [u32;
        16])
        requires
            forall|operation: Operation| call_requires(*arith, (operation,)),
        ensures
            exists|valuation: spec_fn(Formula) -> u32|
                #[trigger] self.valued_by(answers(*arith), *inputs, valuation, m),
    {
        proof {
            use_type_invariant(self);
        }
        let results = self.schedule.run(inputs, arith);
        let mut m: [u32; 16] = [ZERO; 16];
        let mut i: usize = 0;
        while i < 16
            invariant
                self.schedule@.len() <= CAPACITY,
                forall|position: int|
                    0 <= position < 16 ==> operand_defined(
                        self.schedule@.len() as int,
                        #[trigger] self.cells[position],
                    ),
                i <= 16,
                forall|position: int|
                    0 <= position < i ==> #[trigger] m[position] == operand_word(
                        *inputs,
                        results@,
                        self.cells[position],
                    ),
            decreases 16 - i,
        {
            let word = resolve(inputs, &results, self.cells[i]);
            m[i] = word;
            i += 1;
        }
        proof {
            let steps = self.schedule@;
            let record = results@.take(steps.len() as int);
            let valuation = valuation_of(*inputs, steps, record);
            assert forall|position: int|
                #![trigger m[position]]
                0 <= position < 16 implies values(
                answers(*arith),
                *inputs,
                valuation,
                self.formula(position),
                m[position],
            ) by {
                let cell = self.cells[position];
                assert(operand_word(*inputs, record, cell) == operand_word(*inputs, results@, cell));
                lemma_operand_is_consistent(
                    answers(*arith),
                    *inputs,
                    steps,
                    record,
                    steps.len() as int,
                    cell,
                );
            }
            assert(self.valued_by(answers(*arith), *inputs, valuation, m));
        }
        m
    }
}

/// The answers of a matrix product backend, as a relation between a left factor, a
/// right factor and a result.
pub open spec fn product_answers<P: Fn([u32; 16], [u32; 16]) -> [u32; 16]>(
    product: P,
) -> spec_fn([u32; 16], [u32; 16], [u32; 16]) -> bool {
    |left: [u32; 16], right: [u32; 16], result: [u32; 16]|
        call_ensures(product, (left, right), result)
}

impl XRProjection {
    /// Whether the sixteen words are what a valuation that agrees with the arithmetic
    /// gives the formulas that belong in the sixteen cells of this view's matrix,
    /// before any depth reversal.
    pub open spec fn valued_by(
        self,
        convention: ClipSpaceConvention,
        arith: spec_fn(Operation, u32) -> bool,
        valuation: spec_fn(Formula) -> u32,
        raw: [u32; 16],
    ) -> bool {
        forall|position: int|
            #![trigger raw[position]]
            0 <= position < 16 ==> values(
                arith,
                self,
                valuation,
                cell_formula(far_plane_of(self.near, self.far), convention, position),
                raw[position],
            )
    }

    /// Whether `raw` is a matrix that the arithmetic can produce for this view before
    /// any depth reversal: some valuation that agrees with the arithmetic gives each
    /// cell's formula the word in that cell.
    pub open spec fn admits_raw(
        self,
        convention: ClipSpaceConvention,
        arith: spec_fn(Operation, u32) -> bool,
        raw: [u32; 16],
    ) -> bool {
        exists|valuation: spec_fn(Formula) -> u32|
            #[trigger] self.valued_by(convention, arith, valuation, raw)
    }

    /// Whether `m` is a projection matrix that the arithmetic and the matrix product
    /// can produce for this view. With a finite far plane it is a raw matrix. With
    /// the far plane at infinity it is a product of the depth reversal, on the left,
    /// and a raw matrix, on the right.
    pub open spec fn admits(
        self,
        convention: ClipSpaceConvention,
        arith: spec_fn(Operation, u32) -> bool,
        product: spec_fn([u32; 16], [u32; 16], [u32; 16]) -> bool,
        m: [u32; 16],
    ) -> bool {
        match far_plane_of(self.near, self.far) {
            FarPlane::Finite => self.admits_raw(convention, arith, m),
            FarPlane::Infinite => exists|reversal: [u32; 16], raw: [u32; 16]|
                reversal@ == depth_reversal_words() && self.admits_raw(convention, arith, raw)
                    && #[trigger] product(reversal, raw, m),
        }
    }

    /// Computes the projection matrix of this view, column-major.
    ///
    /// `arith` takes a tangent or performs one rounding operation on binary32
    /// encodings. `product` multiplies two column-major 4x4 matrices, the first on
    /// the left. Neither is asked to promise anything: the result is described in
    /// terms of what they answered. No input is rejected; a frustum without width or
    /// height comes out as whatever the backend makes of a division by zero.
    pub fn get_projection_matrix<
        A: Fn(Operation) -> u32,
        P: Fn([u32; 16], [u32; 16]) -> [u32; 16],
    >(&self, convention: ClipSpaceConvention, arith: &A, product: &P) -> (m: [u32; 16])
        requires
            forall|operation: Operation| call_requires(*arith, (operation,)),
            forall|left: [u32; 16], right: [u32; 16]| call_requires(*product, (left, right)),
        ensures
            self.admits(convention, answers(*arith), product_answers(*product), m),
    {
        let plane = self.far_plane();
        let plan = ProjectionPlan::new(plane, convention);
        let raw = plan.evaluate(self, arith);
        proof {
            let valuation = choose|valuation: spec_fn(Formula) -> u32|
                #[trigger] plan.valued_by(answers(*arith), *self, valuation, raw);
            assert forall|position: int|
                #![trigger raw[position]]
                0 <= position < 16 implies values(
                answers(*arith),
                *self,
                valuation,
                cell_formula(far_plane_of(self.near, self.far), convention, position),
                raw[position],
            ) by {
                assert(plan.formula(position) == cell_formula(plane, convention, position));
                assert(values(
                    answers(*arith),
                    *self,
                    valuation,
                    plan.formula(position),
                    raw[position],
                ));
            }
            assert(self.valued_by(convention, answers(*arith), valuation, raw));
        }
        if plan.reverse_depth() {
            let reversal = depth_reversal();
            let m = product(reversal, raw);
            assert(product_answers(*product)(reversal, raw, m));
            m
        } else {
            raw
        }
    }
}

} // verus!
