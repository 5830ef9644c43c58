//! The instruction set shared by the compiler and the execution engine.

use crate::interpret::ast::{Label, LabelView};
use vstd::prelude::*;

verus! {

/// One instruction of the flat bytecode array.
///
/// Branch instructions carry the function-local index of the block they
/// target; `CALL`, `GLOGET` and `GLOSET` carry a [`Label`].
#[allow(non_camel_case_types)]
#[derive(Debug, PartialEq)]
pub enum OP {
    I32CONST(i32),
    I32ADD,
    I32SUB,
    I32MUL,
    I32DIVS,
    I32REMU,
    I32LTS,
    I32GTS,
    I32GES,
    I32LES,
    I32EQ,
    I32NE,
    I32EQZ,
    I32AND,
    I32OR,
    I32XOR,
    I32LOAD,
    I32STORE,
    LOCGET(usize),
    LOCSET(usize),
    LOCTEE(usize),
    GLOGET(Label),
    GLOSET(Label),
    BLK(usize),
    LOOP(usize),
    BR(usize),
    BRIF(usize),
    END,
    CALL(Label),
    RET,
    DROP,
    NOP,
}

/// The mathematical value of an [`OP`]: the same instruction with every
/// name held as a sequence of characters.
pub enum OpView {
    I32CONST(i32),
    I32ADD,
    I32SUB,
    I32MUL,
    I32DIVS,
    I32REMU,
    I32LTS,
    I32GTS,
    I32GES,
    I32LES,
    I32EQ,
    I32NE,
    I32EQZ,
    I32AND,
    I32OR,
    I32XOR,
    I32LOAD,
    I32STORE,
    LOCGET(usize),
    LOCSET(usize),
    LOCTEE(usize),
    GLOGET(LabelView),
    GLOSET(LabelView),
    BLK(usize),
    LOOP(usize),
    BR(usize),
    BRIF(usize),
    END,
    CALL(LabelView),
    RET,
    DROP,
    NOP,
}

impl View for OP {
    type V = OpView;

    open spec fn view(&self) -> OpView {
        match *self {
            OP::I32CONST(n) => OpView::I32CONST(n),
            OP::I32ADD => OpView::I32ADD,
            OP::I32SUB => OpView::I32SUB,
            OP::I32MUL => OpView::I32MUL,
            OP::I32DIVS => OpView::I32DIVS,
            OP::I32REMU => OpView::I32REMU,
            OP::I32LTS => OpView::I32LTS,
            OP::I32GTS => OpView::I32GTS,
            OP::I32GES => OpView::I32GES,
            OP::I32LES => OpView::I32LES,
            OP::I32EQ => OpView::I32EQ,
            OP::I32NE => OpView::I32NE,
            OP::I32EQZ => OpView::I32EQZ,
            OP::I32AND => OpView::I32AND,
            OP::I32OR => OpView::I32OR,
            OP::I32XOR => OpView::I32XOR,
            OP::I32LOAD => OpView::I32LOAD,
            OP::I32STORE => OpView::I32STORE,
            OP::LOCGET(i) => OpView::LOCGET(i),
            OP::LOCSET(i) => OpView::LOCSET(i),
            OP::LOCTEE(i) => OpView::LOCTEE(i),
            OP::GLOGET(l) => OpView::GLOGET(l@),
            OP::GLOSET(l) => OpView::GLOSET(l@),
            OP::BLK(i) => OpView::BLK(i),
            OP::LOOP(i) => OpView::LOOP(i),
            OP::BR(i) => OpView::BR(i),
            OP::BRIF(i) => OpView::BRIF(i),
            OP::END => OpView::END,
            OP::CALL(l) => OpView::CALL(l@),
            OP::RET => OpView::RET,
            OP::DROP => OpView::DROP,
            OP::NOP => OpView::NOP,
        }
    }
}

impl Clone for OP {
    fn clone(&self) -> (r: Self)
        ensures
            r@ == self@,
    {
        match self {
            OP::I32CONST(n) => OP::I32CONST(*n),
            OP::I32ADD => OP::I32ADD,
            OP::I32SUB => OP::I32SUB,
            OP::I32MUL => OP::I32MUL,
            OP::I32DIVS => OP::I32DIVS,
            OP::I32REMU => OP::I32REMU,
            OP::I32LTS => OP::I32LTS,
            OP::I32GTS => OP::I32GTS,
            OP::I32GES => OP::I32GES,
            OP::I32LES => OP::I32LES,
            OP::I32EQ => OP::I32EQ,
            OP::I32NE => OP::I32NE,
            OP::I32EQZ => OP::I32EQZ,
            OP::I32AND => OP::I32AND,
            OP::I32OR => OP::I32OR,
            OP::I32XOR => OP::I32XOR,
            OP::I32LOAD => OP::I32LOAD,
            OP::I32STORE => OP::I32STORE,
            OP::LOCGET(i) => OP::LOCGET(*i),
            OP::LOCSET(i) => OP::LOCSET(*i),
            OP::LOCTEE(i) => OP::LOCTEE(*i),
            OP::GLOGET(l) => OP::GLOGET(l.clone()),
            OP::GLOSET(l) => OP::GLOSET(l.clone()),
            OP::BLK(i) => OP::BLK(*i),
            OP::LOOP(i) => OP::LOOP(*i),
            OP::BR(i) => OP::BR(*i),
            OP::BRIF(i) => OP::BRIF(*i),
            OP::END => OP::END,
            OP::CALL(l) => OP::CALL(l.clone()),
            OP::RET => OP::RET,
            OP::DROP => OP::DROP,
            OP::NOP => OP::NOP,
        }
    }
}

/// The mathematical value of a bytecode array.
pub open spec fn code_view(code: Seq<OP>) -> Seq<OpView> {
    code.map_values(|op: OP| op@)
}

} // verus!
