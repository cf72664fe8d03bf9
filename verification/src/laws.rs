//! What holds of every projection, whatever the backend.

use crate::binary32::{
    exponent_field, fraction_field, is_nan, le_spec, lemma_literal_values, lemma_negation,
    negation, scaled_value, unit, NEG_ONE, TWO, ZERO,
};
use crate::matrix::{
    binary, cell_formula, depth_reversal_words, height, offset_y, scale_y, tan_of,
    with_depth_offset,
};
use crate::params::{
    far_plane_of, ClipSpaceConvention, FarPlane, Input, XRProjection, DEFAULT_FAR, DEFAULT_NEAR,
};
use vstd::arithmetic::power2::{lemma2_to64, lemma_pow2_adds, lemma_pow2_pos, pow2};
use crate::schedule::{
    consistent, lemma_consistent_unique, mentions, occurs_in, single_valued, values, BinaryOp,
    Formula, Operation,
};
use vstd::prelude::*;

verus! {

/// Whether a matrix product answers each pair of factors in one way only.
pub open spec fn single_valued_product(
    product: spec_fn([u32; 16], [u32; 16], [u32; 16]) -> bool,
) -> bool {
    forall|left: [u32; 16], right: [u32; 16], m1: [u32; 16], m2: [u32; 16]|
        #[trigger] product(left, right, m1) && #[trigger] product(left, right, m2) ==> m1 == m2
}

/// A formula with the operands of its outermost operation exchanged.
pub open spec fn exchanged(formula: Formula) -> Formula {
    match formula {
        Formula::Binary(op, x, y) => Formula::Binary(op, y, x),
        _ => formula,
    }
}

/// Whether a valuation agrees with the arithmetic on a formula depends on the
/// inputs that the formula reads and on no other.
pub proof fn lemma_consistent_reads_what_it_mentions(
    arith: spec_fn(Operation, u32) -> bool,
    p: XRProjection,
    q: XRProjection,
    valuation: spec_fn(Formula) -> u32,
    formula: Formula,
)
    requires
        forall|input: Input| mentions(formula, input) ==> p.word(input) == q.word(input),
        consistent(arith, p, valuation, formula),
    ensures
        consistent(arith, q, valuation, formula),
    decreases formula,
{
    match formula {
        Formula::Input(input) => {
            assert(mentions(formula, input));
        },
        Formula::Word(_) => {},
        Formula::Unary(_, x) => {
            assert forall|input: Input| mentions(*x, input) implies p.word(input) == q.word(
                input,
            ) by {
                assert(mentions(formula, input));
            }
            lemma_consistent_reads_what_it_mentions(arith, p, q, valuation, *x);
        },
        Formula::Binary(_, x, y) => {
            assert forall|input: Input| mentions(*x, input) implies p.word(input) == q.word(
                input,
            ) by {
                assert(mentions(formula, input));
            }
            assert forall|input: Input| mentions(*y, input) implies p.word(input) == q.word(
                input,
            ) by {
                assert(mentions(formula, input));
            }
            lemma_consistent_reads_what_it_mentions(arith, p, q, valuation, *x);
            lemma_consistent_reads_what_it_mentions(arith, p, q, valuation, *y);
        },
    }
}

/// The default distances encode one tenth, to within the rounding of the encoding,
/// and one thousand, and select a finite far plane.
pub proof fn law_default_distances()
    ensures
        10 * scaled_value(DEFAULT_NEAR) == unit() + pow2(123),
        scaled_value(DEFAULT_FAR) == 1000 * unit(),
        far_plane_of(DEFAULT_NEAR, DEFAULT_FAR) == FarPlane::Finite,
{
    lemma2_to64();
    assert(exponent_field(DEFAULT_NEAR) == 123 && fraction_field(DEFAULT_NEAR) == 0x4c_cccd);
    assert(exponent_field(DEFAULT_FAR) == 136 && fraction_field(DEFAULT_FAR) == 0x7a_0000);
    lemma_pow2_adds(27, 122);
    lemma_pow2_adds(1, 122);
    lemma_pow2_adds(14, 135);
    lemma_pow2_pos(122);
    let near = scaled_value(DEFAULT_NEAR);
    let far = scaled_value(DEFAULT_FAR);
    assert(near == 13421773 * pow2(122));
    assert(far == 16384000 * pow2(135));
    assert(unit() == 134217728 * pow2(122));
    assert(unit() == 16384 * pow2(135));
    assert(!is_nan(DEFAULT_NEAR) && !is_nan(DEFAULT_FAR));
    assert(far > near) by (nonlinear_arith)
        requires
            10 * near == unit() + 2 * pow2(122),
            far == 1000 * unit(),
            unit() == 134217728 * pow2(122),
            pow2(122) > 0,
    ;
}

/// A far distance equal to the near distance selects the far plane at infinity,
/// unless the distance is a NaN.
pub proof fn law_far_equal_to_near_is_infinite(near: u32)
    requires
        !is_nan(near),
    ensures
        far_plane_of(near, near) == FarPlane::Infinite,
{
}

/// With the far plane at infinity no cell reads the far distance.
pub proof fn law_infinite_ignores_far(convention: ClipSpaceConvention, position: int)
    requires
        0 <= position < 16,
    ensures
        !mentions(cell_formula(FarPlane::Infinite, convention, position), Input::Far),
{
    reveal_with_fuel(mentions, 5);
}

/// With a finite far plane both depth cells read the far distance.
pub proof fn law_finite_reads_far(convention: ClipSpaceConvention)
    ensures
        mentions(cell_formula(FarPlane::Finite, convention, 10), Input::Far),
        mentions(cell_formula(FarPlane::Finite, convention, 14), Input::Far),
{
    reveal_with_fuel(mentions, 5);
}

/// Two views that differ in their far distance alone, each with a far distance that
/// is not above the near distance, have the same projection matrices.
pub proof fn law_far_plane_boundary(
    p: XRProjection,
    q: XRProjection,
    convention: ClipSpaceConvention,
    arith: spec_fn(Operation, u32) -> bool,
    product: spec_fn([u32; 16], [u32; 16], [u32; 16]) -> bool,
    m: [u32; 16],
)
    requires
        p.near == q.near,
        p.fov == q.fov,
        le_spec(p.far, p.near),
        le_spec(q.far, q.near),
        p.admits(convention, arith, product, m),
    ensures
        q.admits(convention, arith, product, m),
{
    let (reversal, raw) = choose|reversal: [u32; 16], raw: [u32; 16]|
        reversal@ == depth_reversal_words() && p.admits_raw(convention, arith, raw)
            && #[trigger] product(reversal, raw, m);
    let valuation = choose|valuation: spec_fn(Formula) -> u32|
        #[trigger] p.valued_by(convention, arith, valuation, raw);
    assert forall|position: int|
        #![trigger raw[position]]
        0 <= position < 16 implies values(
        arith,
        q,
        valuation,
        cell_formula(far_plane_of(q.near, q.far), convention, position),
        raw[position],
    ) by {
        let formula = cell_formula(FarPlane::Infinite, convention, position);
        assert(values(arith, p, valuation, formula, raw[position]));
        law_infinite_ignores_far(convention, position);
        assert forall|input: Input| mentions(formula, input) implies p.word(input) == q.word(
            input,
        ) by {}
        lemma_consistent_reads_what_it_mentions(arith, p, q, valuation, formula);
    }
    assert(q.valued_by(convention, arith, valuation, raw));
}

/// Before any depth reversal, the cells that hold no formula of the frustum hold
/// zero, but for the last cell of the third column, which holds minus one. With the
/// far plane at infinity the depth scale is minus one too, and the depth translation
/// is the exact negation of the near distance with the depth offset added.
pub proof fn law_constant_cells(
    p: XRProjection,
    convention: ClipSpaceConvention,
    arith: spec_fn(Operation, u32) -> bool,
    valuation: spec_fn(Formula) -> u32,
    raw: [u32; 16],
)
    requires
        p.valued_by(convention, arith, valuation, raw),
    ensures
        raw[1] == ZERO && raw[2] == ZERO && raw[3] == ZERO,
        raw[4] == ZERO && raw[6] == ZERO && raw[7] == ZERO,
        raw[12] == ZERO && raw[13] == ZERO && raw[15] == ZERO,
        raw[11] == NEG_ONE && scaled_value(raw[11]) == -unit(),
        far_plane_of(p.near, p.far) == FarPlane::Infinite ==> {
            &&& raw[10] == NEG_ONE
            &&& raw[14] == negation(valuation(with_depth_offset(Input::Near)))
            &&& scaled_value(raw[14]) == -scaled_value(valuation(with_depth_offset(Input::Near)))
        },
{
    lemma_literal_values();
    lemma_negation(valuation(with_depth_offset(Input::Near)));
    let plane = far_plane_of(p.near, p.far);
    assert forall|position: int| 0 <= position < 16 implies values(
        arith,
        p,
        valuation,
        cell_formula(plane, convention, position),
        #[trigger] raw[position],
    ) by {}
}

/// Exchanging the convention leaves every cell but the vertical scale and the
/// vertical offset as it is. In those two it exchanges the operands of the height,
/// and nothing else.
pub proof fn law_convention_flip(plane: FarPlane, position: int)
    requires
        0 <= position < 16,
    ensures
        position != 5 && position != 9 ==> cell_formula(
            plane,
            ClipSpaceConvention::PositiveYDown,
            position,
        ) == cell_formula(plane, ClipSpaceConvention::PositiveYUp, position),
        height(ClipSpaceConvention::PositiveYDown) == exchanged(
            height(ClipSpaceConvention::PositiveYUp),
        ),
        forall|convention: ClipSpaceConvention|
            #![trigger height(convention)]
            cell_formula(plane, convention, 5) == scale_y(convention) && cell_formula(
                plane,
                convention,
                9,
            ) == offset_y(convention),
{
}

/// A valuation that agrees with the arithmetic on a formula may be exchanged for
/// any other that gives the formula and everything below it the same words.
pub proof fn lemma_consistent_agree(
    arith: spec_fn(Operation, u32) -> bool,
    p: XRProjection,
    v1: spec_fn(Formula) -> u32,
    v2: spec_fn(Formula) -> u32,
    formula: Formula,
)
    requires
        consistent(arith, p, v1, formula),
        forall|part: Formula| occurs_in(part, formula) ==> v1(part) == v2(part),
    ensures
        consistent(arith, p, v2, formula),
    decreases formula,
{
    assert(occurs_in(formula, formula));
    match formula {
        Formula::Input(_) => {},
        Formula::Word(_) => {},
        Formula::Unary(_, x) => {
            assert(occurs_in(*x, *x));
            assert forall|part: Formula| occurs_in(part, *x) implies v1(part) == v2(part) by {
                assert(occurs_in(part, formula));
            }
            lemma_consistent_agree(arith, p, v1, v2, *x);
        },
        Formula::Binary(_, x, y) => {
            assert(occurs_in(*x, *x));
            assert(occurs_in(*y, *y));
            assert forall|part: Formula| occurs_in(part, *x) implies v1(part) == v2(part) by {
                assert(occurs_in(part, formula));
            }
            assert forall|part: Formula| occurs_in(part, *y) implies v1(part) == v2(part) by {
                assert(occurs_in(part, formula));
            }
            lemma_consistent_agree(arith, p, v1, v2, *x);
            lemma_consistent_agree(arith, p, v1, v2, *y);
        },
    }
}

/// The valuation that differs from `valuation` in the height, the vertical scale and
/// the vertical offset of the convention with positive Y down, which it gives the
/// words stated.
pub open spec fn with_vertical_terms(
    valuation: spec_fn(Formula) -> u32,
    height_word: u32,
    scale_word: u32,
    offset_word: u32,
) -> spec_fn(Formula) -> u32 {
    |formula: Formula|
        if formula == height(ClipSpaceConvention::PositiveYDown) {
            height_word
        } else if formula == scale_y(ClipSpaceConvention::PositiveYDown) {
            scale_word
        } else if formula == offset_y(ClipSpaceConvention::PositiveYDown) {
            offset_word
        } else {
            valuation(formula)
        }
}

/// The height, the vertical scale and the vertical offset of one convention stand
/// nowhere in the matrix of the other.
proof fn lemma_vertical_terms_stand_alone(plane: FarPlane, position: int)
    requires
        0 <= position < 16,
    ensures
        !occurs_in(
            height(ClipSpaceConvention::PositiveYDown),
            cell_formula(plane, ClipSpaceConvention::PositiveYUp, position),
        ),
        !occurs_in(
            scale_y(ClipSpaceConvention::PositiveYDown),
            cell_formula(plane, ClipSpaceConvention::PositiveYUp, position),
        ),
        !occurs_in(
            offset_y(ClipSpaceConvention::PositiveYDown),
            cell_formula(plane, ClipSpaceConvention::PositiveYUp, position),
        ),
{
    reveal_with_fuel(occurs_in, 6);
}

/// Exchanging the convention negates the vertical scale and the vertical offset and
/// changes no other cell, wherever the arithmetic is symmetric in the sign on the
/// words at hand: the height taken the other way round is the negated height, and
/// the two quotients by the negated height are the negated quotients.
///
/// Binary32 arithmetic is symmetric in this way unless the height is zero or a NaN
/// is involved.
pub proof fn law_convention_flip_negates(
    p: XRProjection,
    arith: spec_fn(Operation, u32) -> bool,
    valuation: spec_fn(Formula) -> u32,
    up: [u32; 16],
    down: [u32; 16],
)
    requires
        p.valued_by(ClipSpaceConvention::PositiveYUp, arith, valuation, up),
        arith(
            Operation::Binary(
                BinaryOp::Sub,
                valuation(tan_of(Input::AngleDown)),
                valuation(tan_of(Input::AngleUp)),
            ),
            negation(valuation(height(ClipSpaceConvention::PositiveYUp))),
        ),
        arith(
            Operation::Binary(
                BinaryOp::Div,
                TWO,
                negation(valuation(height(ClipSpaceConvention::PositiveYUp))),
            ),
            negation(up[5]),
        ),
        arith(
            Operation::Binary(
                BinaryOp::Div,
                valuation(binary(BinaryOp::Add, tan_of(Input::AngleUp), tan_of(Input::AngleDown))),
                negation(valuation(height(ClipSpaceConvention::PositiveYUp))),
            ),
            negation(up[9]),
        ),
        forall|position: int|
            0 <= position < 16 ==> #[trigger] down[position] == if position == 5 || position == 9 {
                negation(up[position])
            } else {
                up[position]
            },
    ensures
        p.admits_raw(ClipSpaceConvention::PositiveYDown, arith, down),
{
    let plane = far_plane_of(p.near, p.far);
    let up_convention = ClipSpaceConvention::PositiveYUp;
    let down_convention = ClipSpaceConvention::PositiveYDown;
    let flipped = with_vertical_terms(
        valuation,
        negation(valuation(height(up_convention))),
        negation(up[5]),
        negation(up[9]),
    );
    assert forall|position: int|
        #![trigger down[position]]
        0 <= position < 16 implies values(
        arith,
        p,
        flipped,
        cell_formula(plane, down_convention, position),
        down[position],
    ) by {
        let was = cell_formula(plane, up_convention, position);
        let now = cell_formula(plane, down_convention, position);
        assert(values(arith, p, valuation, was, up[position]));
        if position == 5 || position == 9 {
            reveal_with_fuel(consistent, 4);
            let tan_up = tan_of(Input::AngleUp);
            let tan_down = tan_of(Input::AngleDown);
            assert(consistent(arith, p, valuation, tan_up));
            assert(consistent(arith, p, valuation, tan_down));
            assert forall|part: Formula| occurs_in(part, tan_up) implies valuation(part)
                == flipped(part) by {
                reveal_with_fuel(occurs_in, 3);
            }
            assert forall|part: Formula| occurs_in(part, tan_down) implies valuation(part)
                == flipped(part) by {
                reveal_with_fuel(occurs_in, 3);
            }
            lemma_consistent_agree(arith, p, valuation, flipped, tan_up);
            lemma_consistent_agree(arith, p, valuation, flipped, tan_down);
            assert(consistent(arith, p, flipped, height(down_convention)));
            if position == 9 {
                let sum = binary(BinaryOp::Add, tan_up, tan_down);
                assert(consistent(arith, p, valuation, sum));
                assert(consistent(arith, p, flipped, sum));
            }
        } else {
            law_convention_flip(plane, position);
            lemma_vertical_terms_stand_alone(plane, position);
            assert forall|part: Formula| occurs_in(part, was) implies valuation(part) == flipped(
                part,
            ) by {}
            lemma_consistent_agree(arith, p, valuation, flipped, was);
        }
    }
    assert(p.valued_by(down_convention, arith, flipped, down));
}

/// With arithmetic and a matrix product that answer each request in one way only,
/// a view has one projection matrix: computing it again gives the same sixteen
/// words.
pub proof fn law_deterministic(
    p: XRProjection,
    convention: ClipSpaceConvention,
    arith: spec_fn(Operation, u32) -> bool,
    product: spec_fn([u32; 16], [u32; 16], [u32; 16]) -> bool,
    m1: [u32; 16],
    m2: [u32; 16],
)
    requires
        single_valued(arith),
        single_valued_product(product),
        p.admits(convention, arith, product, m1),
        p.admits(convention, arith, product, m2),
    ensures
        m1 == m2,
{
    let plane = far_plane_of(p.near, p.far);
    match plane {
        FarPlane::Finite => {
            lemma_raw_unique(p, convention, arith, m1, m2);
        },
        FarPlane::Infinite => {
            let (reversal1, raw1) = choose|reversal: [u32; 16], raw: [u32; 16]|
                reversal@ == depth_reversal_words() && p.admits_raw(convention, arith, raw)
                    && #[trigger] product(reversal, raw, m1);
            let (reversal2, raw2) = choose|reversal: [u32; 16], raw: [u32; 16]|
                reversal@ == depth_reversal_words() && p.admits_raw(convention, arith, raw)
                    && #[trigger] product(reversal, raw, m2);
            lemma_raw_unique(p, convention, arith, raw1, raw2);
            assert(reversal1 =~= reversal2);
        },
    }
}

/// With arithmetic that answers each request in one way only, a view has one raw
/// matrix.
proof fn lemma_raw_unique(
    p: XRProjection,
    convention: ClipSpaceConvention,
    arith: spec_fn(Operation, u32) -> bool,
    raw1: [u32; 16],
    raw2: [u32; 16],
)
    requires
        single_valued(arith),
        p.admits_raw(convention, arith, raw1),
        p.admits_raw(convention, arith, raw2),
    ensures
        raw1 == raw2,
{
    let v1 = choose|valuation: spec_fn(Formula) -> u32|
        #[trigger] p.valued_by(convention, arith, valuation, raw1);
    let v2 = choose|valuation: spec_fn(Formula) -> u32|
        #[trigger] p.valued_by(convention, arith, valuation, raw2);
    assert forall|position: int| 0 <= position < 16 implies raw1[position] == raw2[position] by {
        let formula = cell_formula(far_plane_of(p.near, p.far), convention, position);
        assert(values(arith, p, v1, formula, raw1[position]));
        assert(values(arith, p, v2, formula, raw2[position]));
        lemma_consistent_unique(arith, p, v1, v2, formula);
    }
    assert(raw1 =~= raw2);
}

} // verus!
