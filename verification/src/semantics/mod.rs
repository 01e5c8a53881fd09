//! What programs compute: the value of an expression of the language, what
//! a block without loops and calls does, what a list of instructions of the
//! intermediate representation computes, and what an instruction listing
//! leaves in `%eax` when it returns. Lowering, instruction selection, the
//! replacement of pseudo-operands and the rewriting of operands each keep
//! it.

pub mod values;
pub mod source;
pub mod ir;
pub mod machine;
pub mod selection;
pub mod lowering;
pub mod blocks;
pub mod replacement;
pub mod fixup;
pub mod compiled;
