//! Typed values read back from a stored row, and how they compare.
use vstd::prelude::*;
use core::cmp::Ordering;
use crate::enums::Operand;
use crate::text::{str_eq, text_sign, text_compare_sign};

verus! {

/// A column value decoded from a row.
#[derive(Debug)]
pub enum VariableReturn {
    I8(i8),
    I32(i32),
    String(String),
}

/// What a decoded value holds.
pub enum VarView {
    I8(i8),
    I32(i32),
    Text(Seq<char>),
}

impl View for VariableReturn {
    type V = VarView;

    open spec fn view(&self) -> VarView {
        match self {
            VariableReturn::I8(v) => VarView::I8(*v),
            VariableReturn::I32(v) => VarView::I32(*v),
            VariableReturn::String(s) => VarView::Text(s@),
        }
    }
}

/// Values are equal when they have the same kind and the same contents.
pub open spec fn var_eq(a: VarView, b: VarView) -> bool {
    match (a, b) {
        (VarView::I8(x), VarView::I8(y)) => x == y,
        (VarView::I32(x), VarView::I32(y)) => x == y,
        (VarView::Text(x), VarView::Text(y)) => x == y,
        _ => false,
    }
}

pub open spec fn i8_order(x: i8, y: i8) -> Ordering {
    if x < y {
        Ordering::Less
    } else if x == y {
        Ordering::Equal
    } else {
        Ordering::Greater
    }
}

pub open spec fn i32_order(x: i32, y: i32) -> Ordering {
    if x < y {
        Ordering::Less
    } else if x == y {
        Ordering::Equal
    } else {
        Ordering::Greater
    }
}

/// Lexicographic order of two texts by code point, which is the order of
/// their UTF-8 bytes.
pub open spec fn text_order(a: Seq<char>, b: Seq<char>) -> Ordering {
    let k = text_sign(a, b);
    if k < 0 {
        Ordering::Less
    } else if k == 0 {
        Ordering::Equal
    } else {
        Ordering::Greater
    }
}

/// Values of the same kind are ordered; values of different kinds are not.
pub open spec fn var_order(a: VarView, b: VarView) -> Option<Ordering> {
    match (a, b) {
        (VarView::I8(x), VarView::I8(y)) => Some(i8_order(x, y)),
        (VarView::I32(x), VarView::I32(y)) => Some(i32_order(x, y)),
        (VarView::Text(x), VarView::Text(y)) => Some(text_order(x, y)),
        _ => None,
    }
}

/// Compares two texts as `String::partial_cmp` does.
pub fn compare_text(a: &str, b: &str) -> (r: Ordering)
    ensures
        r == text_order(a@, b@),
{
    let k = text_compare_sign(a, b);
    if k < 0 {
        Ordering::Less
    } else if k == 0 {
        Ordering::Equal
    } else {
        Ordering::Greater
    }
}

fn compare_i8(x: i8, y: i8) -> (r: Ordering)
    ensures
        r == i8_order(x, y),
{
    if x < y {
        Ordering::Less
    } else if x == y {
        Ordering::Equal
    } else {
        Ordering::Greater
    }
}

fn compare_i32(x: i32, y: i32) -> (r: Ordering)
    ensures
        r == i32_order(x, y),
{
    if x < y {
        Ordering::Less
    } else if x == y {
        Ordering::Equal
    } else {
        Ordering::Greater
    }
}

impl PartialEq for VariableReturn {
    fn eq(&self, other: &Self) -> (r: bool) {
        match (self, other) {
            (VariableReturn::I8(a), VariableReturn::I8(b)) => *a == *b,
            (VariableReturn::I32(a), VariableReturn::I32(b)) => *a == *b,
            (VariableReturn::String(a), VariableReturn::String(b)) => str_eq(
                a.as_str(),
                b.as_str(),
            ),
            _ => false,
        }
    }
}

impl vstd::std_specs::cmp::PartialEqSpecImpl for VariableReturn {
    open spec fn obeys_eq_spec() -> bool {
        true
    }

    open spec fn eq_spec(&self, other: &Self) -> bool {
        var_eq(self@, other@)
    }
}

impl PartialOrd for VariableReturn {
    fn partial_cmp(&self, other: &Self) -> (r: Option<Ordering>) {
        match (self, other) {
            (VariableReturn::I8(a), VariableReturn::I8(b)) => Some(compare_i8(*a, *b)),
            (VariableReturn::I32(a), VariableReturn::I32(b)) => Some(compare_i32(*a, *b)),
            (VariableReturn::String(a), VariableReturn::String(b)) => Some(
                compare_text(a.as_str(), b.as_str()),
            ),
            _ => None,
        }
    }
}

impl vstd::std_specs::cmp::PartialOrdSpecImpl for VariableReturn {
    open spec fn obeys_partial_cmp_spec() -> bool {
        true
    }

    open spec fn partial_cmp_spec(&self, other: &Self) -> Option<Ordering> {
        var_order(self@, other@)
    }
}

/// Whether `left operand right` holds: `=`/`!=` by `var_eq`, the order
/// operators by `var_order`, so that values of different kinds are unequal
/// and never ordered.
pub open spec fn spec_compare(left: VarView, right: VarView, operand: Operand) -> bool {
    match operand {
        Operand::EQ => var_eq(left, right),
        Operand::NQ => !var_eq(left, right),
        Operand::GT => var_order(left, right) == Some(Ordering::Greater),
        Operand::LT => var_order(left, right) == Some(Ordering::Less),
        Operand::GTE => var_order(left, right) == Some(Ordering::Greater) || var_order(left, right)
            == Some(Ordering::Equal),
        Operand::LTE => var_order(left, right) == Some(Ordering::Less) || var_order(left, right)
            == Some(Ordering::Equal),
    }
}

/// Applies a comparison operator to two decoded values.
pub fn compare_values(left: &VariableReturn, right: &VariableReturn, operand: &Operand) -> (r: bool)
    ensures
        r == spec_compare(left@, right@, *operand),
{
    match operand {
        Operand::EQ => left == right,
        Operand::NQ => left != right,
        Operand::GT => left > right,
        Operand::LT => left < right,
        Operand::GTE => left >= right,
        Operand::LTE => left <= right,
    }
}

} // verus!
