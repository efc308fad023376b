//! Binary operators.
use datafusion_expr_common::operator::Operator;
use vstd::prelude::*;

verus! {

/// The operators of binary expressions. All their variants are seen.
#[verifier::external_type_specification]
pub struct ExOperator(Operator);

/// The comparisons of which a cast can be moved from a column to a literal.
///
/// The list is closed: there are other operators that compare, such as regex matching,
/// and for those it is not defined which values a cast maps to a literal.
pub open spec fn comparison(op: Operator) -> bool {
    ||| op is Eq
    ||| op is NotEq
    ||| op is Lt
    ||| op is LtEq
    ||| op is Gt
    ||| op is GtEq
    ||| op is IsDistinctFrom
    ||| op is IsNotDistinctFrom
}

/// The operator that gives the same with its sides exchanged.
pub open spec fn swapped(op: Operator) -> Option<Operator> {
    match op {
        Operator::Eq => Some(Operator::Eq),
        Operator::NotEq => Some(Operator::NotEq),
        Operator::Lt => Some(Operator::Gt),
        Operator::LtEq => Some(Operator::GtEq),
        Operator::Gt => Some(Operator::Lt),
        Operator::GtEq => Some(Operator::LtEq),
        Operator::IsDistinctFrom => Some(Operator::IsDistinctFrom),
        Operator::IsNotDistinctFrom => Some(Operator::IsNotDistinctFrom),
        Operator::AtArrow => Some(Operator::ArrowAt),
        Operator::ArrowAt => Some(Operator::AtArrow),
        _ => None,
    }
}

/// The operator that gives the opposite.
pub open spec fn negated(op: Operator) -> Option<Operator> {
    match op {
        Operator::Eq => Some(Operator::NotEq),
        Operator::NotEq => Some(Operator::Eq),
        Operator::Lt => Some(Operator::GtEq),
        Operator::LtEq => Some(Operator::Gt),
        Operator::Gt => Some(Operator::LtEq),
        Operator::GtEq => Some(Operator::Lt),
        Operator::IsDistinctFrom => Some(Operator::IsNotDistinctFrom),
        Operator::IsNotDistinctFrom => Some(Operator::IsDistinctFrom),
        Operator::LikeMatch => Some(Operator::NotLikeMatch),
        Operator::NotLikeMatch => Some(Operator::LikeMatch),
        Operator::ILikeMatch => Some(Operator::NotILikeMatch),
        Operator::NotILikeMatch => Some(Operator::ILikeMatch),
        Operator::RegexMatch => Some(Operator::RegexNotMatch),
        Operator::RegexNotMatch => Some(Operator::RegexMatch),
        Operator::RegexIMatch => Some(Operator::RegexNotIMatch),
        Operator::RegexNotIMatch => Some(Operator::RegexIMatch),
        _ => None,
    }
}

/// The operators whose result is a Boolean whatever the operands: AND, OR, and those that
/// have an opposite.
pub open spec fn gives_boolean(op: Operator) -> bool {
    op is And || op is Or || negated(op) is Some
}

/// `Operator::swap`: the operator that gives the same with its sides exchanged.
pub assume_specification[ Operator::swap ](op: &Operator) -> (swapped_op: Option<Operator>)
    ensures
        swapped_op == swapped(*op),
;

/// `Operator::negate`: the operator that gives the opposite.
pub assume_specification[ Operator::negate ](op: &Operator) -> (negated_op: Option<Operator>)
    ensures
        negated_op == negated(*op),
;

/// `Operator::eq`: whether two operators are the same.
#[verifier::external_body]
pub(crate) fn same_operator(left: Operator, right: Operator) -> (same: bool)
    ensures
        same == (left == right),
{
    left == right
}

/// Whether a cast can be moved from a column to a literal under this operator.
pub fn is_supported_comparison_operator(op: Operator) -> (supported: bool)
    ensures
        supported == comparison(op),
{
    match op {
        Operator::Eq
        | Operator::NotEq
        | Operator::Lt
        | Operator::LtEq
        | Operator::Gt
        | Operator::GtEq
        | Operator::IsDistinctFrom
        | Operator::IsNotDistinctFrom => true,
        _ => false,
    }
}

/// These are the comparisons, and no other operator is one.
pub proof fn law_comparisons(op: Operator, supported: bool)
    requires
        call_ensures(is_supported_comparison_operator, (op,), supported),
    ensures
        supported == comparison(op),
        supported <==> (op == Operator::Eq || op == Operator::NotEq || op == Operator::Lt || op == Operator::LtEq || op
            == Operator::Gt || op == Operator::GtEq || op == Operator::IsDistinctFrom || op
            == Operator::IsNotDistinctFrom),
{
}

/// The comparisons and the matches of patterns have an opposite, and nothing else has one.
pub proof fn law_opposites(op: Operator)
    ensures
        negated(op) is Some <==> comparison(op) || op is LikeMatch || op is NotLikeMatch || op is ILikeMatch
            || op is NotILikeMatch || op is RegexMatch || op is RegexNotMatch || op is RegexIMatch
            || op is RegexNotIMatch,
        negated(Operator::Eq) == Some(Operator::NotEq),
        negated(Operator::Lt) == Some(Operator::GtEq),
        negated(Operator::Gt) == Some(Operator::LtEq),
        negated(Operator::IsDistinctFrom) == Some(Operator::IsNotDistinctFrom),
        negated(Operator::LikeMatch) == Some(Operator::NotLikeMatch),
        negated(Operator::ILikeMatch) == Some(Operator::NotILikeMatch),
        negated(Operator::RegexMatch) == Some(Operator::RegexNotMatch),
        negated(Operator::RegexIMatch) == Some(Operator::RegexNotIMatch),
        gives_boolean(op) <==> op is And || op is Or || negated(op) is Some,
{
}

/// A comparison with its sides exchanged is a comparison, and exchanging the sides
/// again gives the first one back.
pub proof fn law_swap_of_comparisons(op: Operator)
    requires
        comparison(op),
    ensures
        swapped(op) matches Some(other) && comparison(other) && swapped(other) == Some(op),
{
}

/// The opposite of the opposite is the operator itself.
pub proof fn law_negation_is_an_involution(op: Operator)
    ensures
        negated(op) matches Some(other) ==> negated(other) == Some(op),
{
}

} // verus!
