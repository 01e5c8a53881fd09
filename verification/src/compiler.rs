//! The pipeline as a whole: from the characters of a preprocessed source to
//! assembly text.

use vstd::prelude::*;
use crate::error::{Error, ErrorView};
use crate::views::seq_view;
use crate::lexer::lex;
use crate::lexer::scan::tokenize;
use crate::lexer::token::{Token, TokenView};
use crate::parser::parse;
use crate::parser::grammar::parse_tokens;
use crate::parser::ast::{AST, ProgramView, program_targets_ok};
use crate::validator::{validate, validated};
use crate::validator::scopes::resolve;
use crate::validator::labels::label;
use crate::validator::renaming::{lemma_resolve_shifted, lemma_label_shifted};
use crate::renaming::{advance, program_shifted, tacky_shifted};
use crate::tacky::renaming::lemma_lower_program_shifted;
use crate::tacky::gen_tacky;
use crate::tacky::lowering::lower_program;
use crate::tacky::tacky::{TackyAST, TackyProgramView};
use crate::codegen::{codegen, codegen_program, program_fits, within_limits};
use crate::codegen::assembly::{Assembly, AssemblyView};
use crate::codegen::emit::program_text;
use crate::codegen::flow::{asm_closed, asm_label_defs, asm_jump_targets};
use crate::tacky::flow::{closed, balanced, program_uses_labels};
use crate::tacky::unique::{program_names, program_defines_once, lemma_lower_labelled_unique};
use crate::codegen::unique::{asm_program_defines_once, lemma_codegen_defines_once};

verus! {

/// The compiler. It owns the counter that numbers every name it mints.
pub struct Compiler {
    pub counter: usize,
}

/// The syntax tree of a source, or the first error of the scanner or the
/// parser.
pub open spec fn parsed(source: Seq<char>) -> Result<ProgramView, ErrorView> {
    match tokenize(source) {
        Ok(tokens) => parse_tokens(tokens),
        Err(e) => Err(e),
    }
}

/// The validated syntax tree of a source with the counter afterwards, or the
/// first error.
pub open spec fn checked(source: Seq<char>, c: usize) -> Result<(ProgramView, usize), ErrorView> {
    match parsed(source) {
        Ok(p) => validated(p, c),
        Err(e) => Err(e),
    }
}

/// The intermediate representation of a source with the counter afterwards,
/// or the first error.
pub open spec fn lowered(source: Seq<char>, c: usize) -> Result<
    (TackyProgramView, usize),
    ErrorView,
> {
    match checked(source, c) {
        Ok((p, c1)) => Ok(lower_program(p, c1)),
        Err(e) => Err(e),
    }
}

/// The instruction listing of a source with the counter afterwards, or the
/// first error. There is no listing for a program beyond the machine's
/// limits.
pub open spec fn generated(source: Seq<char>, c: usize) -> Result<
    (Option<AssemblyView>, usize),
    ErrorView,
> {
    match lowered(source, c) {
        Ok((t, c1)) => if program_fits(t) {
            Ok((Some(codegen_program(t)), c1))
        } else {
            Ok((None, c1))
        },
        Err(e) => Err(e),
    }
}

/// The assembly text of a source with the counter afterwards, or the first
/// error. There is no text for a program beyond the machine's limits.
pub open spec fn compiled(source: Seq<char>, c: usize) -> Result<
    (Option<Seq<char>>, usize),
    ErrorView,
> {
    match generated(source, c) {
        Ok((Some(a), c1)) => Ok((Some(program_text(a)), c1)),
        Ok((None, c1)) => Ok((None, c1)),
        Err(e) => Err(e),
    }
}

/// The counter is the only thing that two compilations of one source can
/// differ in. Where the source validates from two starts of the counter that
/// are `k` apart, the two validated units and the two intermediate programs
/// have the same shape, each name that was minted is advanced by `k` in the
/// second, and so is the counter afterwards.
pub proof fn lemma_counter_offset(source: Seq<char>, c: usize, k: nat)
    requires
        checked(source, c) is Ok,
        checked(source, advance(c, k)) is Ok,
    ensures
        program_shifted(checked(source, c)->Ok_0.0, checked(source, advance(c, k))->Ok_0.0, k),
        checked(source, advance(c, k))->Ok_0.1 == advance(checked(source, c)->Ok_0.1, k),
        lowered(source, c) is Ok,
        lowered(source, advance(c, k)) is Ok,
        tacky_shifted(lowered(source, c)->Ok_0.0, lowered(source, advance(c, k))->Ok_0.0, k),
        lowered(source, advance(c, k))->Ok_0.1 == advance(lowered(source, c)->Ok_0.1, k),
{
    let p = parsed(source)->Ok_0;
    let c2 = advance(c, k);
    lemma_resolve_shifted(p, c, c2, k);
    let (r1, d1) = resolve(p, c)->Ok_0;
    let (r2, d2) = resolve(p, c2)->Ok_0;
    lemma_label_shifted(r1, r2, d1, d2, k);
    let (l1, e1) = label(r1, d1)->Ok_0;
    let (l2, e2) = label(r2, d2)->Ok_0;
    lemma_lower_program_shifted(l1, l2, e1, e2, k);
}

/// Every label is defined once in its function, in the intermediate program
/// of a source and in its instruction listing, as long as the loops of the
/// source and the names that lowering mints are no more than the counter
/// has values: the counter wraps, and would then give a number twice.
pub proof fn lemma_labels_defined_once(source: Seq<char>, c: usize)
    requires
        checked(source, c) is Ok,
        program_names(checked(source, c)->Ok_0.0) <= usize::MAX,
    ensures
        lowered(source, c) is Ok,
        program_defines_once(lowered(source, c)->Ok_0.0),
        generated(source, c) matches Ok((Some(a), _)) ==> asm_program_defines_once(a),
{
    let p = parsed(source)->Ok_0;
    let (r, c1) = resolve(p, c)->Ok_0;
    lemma_lower_labelled_unique(r, c1);
    lemma_codegen_defines_once(lowered(source, c)->Ok_0.0);
}

/// The model of an optional instruction listing.
pub open spec fn opt_assembly_view(a: Option<Assembly>) -> Option<AssemblyView> {
    match a {
        Some(a) => Some(a@),
        None => None,
    }
}

/// The model of an optional text.
pub open spec fn opt_text_view(s: Option<String>) -> Option<Seq<char>> {
    match s {
        Some(s) => Some(s@),
        None => None,
    }
}

impl Compiler {
    /// A compiler whose counter starts at zero.
    pub fn new() -> (c: Self)
        ensures
            c.counter == 0,
    {
        Self { counter: 0 }
    }

    /// Compiles a source to assembly text. The result is `None` for a program
    /// beyond the machine's limits.
    pub fn compile(&mut self, source: Vec<char>) -> (r: Result<Option<String>, Error>)
        requires
            source.len() < usize::MAX,
        ensures
            match r {
                Ok(text) => compiled(source@, old(self).counter) == Ok::<
                    (Option<Seq<char>>, usize),
                    ErrorView,
                >((opt_text_view(text), final(self).counter)),
                Err(e) => compiled(source@, old(self).counter) == Err::<
                    (Option<Seq<char>>, usize),
                    ErrorView,
                >(e@),
            },
    {
        match self.codegen(source) {
            Ok(Some(assembly)) => Ok(Some(assembly.to_text())),
            Ok(None) => Ok(None),
            Err(e) => Err(e),
        }
    }

    /// Scans a source.
    pub fn lex(&mut self, source: Vec<char>) -> (r: Result<Vec<Token>, Error>)
        requires
            source.len() < usize::MAX,
        ensures
            final(self).counter == old(self).counter,
            match r {
                Ok(tokens) => tokenize(source@) == Ok::<Seq<TokenView>, ErrorView>(
                    seq_view(tokens@),
                ),
                Err(e) => tokenize(source@) == Err::<Seq<TokenView>, ErrorView>(e@),
            },
            r matches Ok(tokens) ==> tokens.len() > 0 && seq_view(tokens@).last().token_type
                == crate::lexer::token::TokenType::EOF,
    {
        lex(source)
    }

    /// Scans and parses a source.
    pub fn parse(&mut self, source: Vec<char>) -> (r: Result<AST, Error>)
        requires
            source.len() < usize::MAX,
        ensures
            final(self).counter == old(self).counter,
            match r {
                Ok(ast) => parsed(source@) == Ok::<ProgramView, ErrorView>(ast@),
                Err(e) => parsed(source@) == Err::<ProgramView, ErrorView>(e@),
            },
    {
        let tokens = self.lex(source)?;
        parse(tokens)
    }

    /// Scans, parses and validates a source.
    pub fn validate(&mut self, source: Vec<char>) -> (r: Result<AST, Error>)
        requires
            source.len() < usize::MAX,
        ensures
            match r {
                Ok(ast) => checked(source@, old(self).counter) == Ok::<
                    (ProgramView, usize),
                    ErrorView,
                >((ast@, final(self).counter)),
                Err(e) => checked(source@, old(self).counter) == Err::<
                    (ProgramView, usize),
                    ErrorView,
                >(e@),
            },
            r matches Ok(ast) ==> program_targets_ok(ast@),
            r matches Ok(ast) ==> crate::validator::binding::program_bound(ast@),
            r matches Ok(ast) ==> crate::validator::labels::program_labelled(ast@),
    {
        let ast = self.parse(source)?;
        validate(&ast, &mut self.counter)
    }

    /// Compiles a source to the intermediate representation.
    pub fn tacky(&mut self, source: Vec<char>) -> (r: Result<TackyAST, Error>)
        requires
            source.len() < usize::MAX,
        ensures
            match r {
                Ok(t) => lowered(source@, old(self).counter) == Ok::<
                    (TackyProgramView, usize),
                    ErrorView,
                >((t@, final(self).counter)),
                Err(e) => lowered(source@, old(self).counter) == Err::<
                    (TackyProgramView, usize),
                    ErrorView,
                >(e@),
            },
    {
        let ast = self.validate(source)?;
        Ok(gen_tacky(&ast, &mut self.counter))
    }

    /// Compiles a source to an instruction listing. The result is `None` for
    /// a program beyond the machine's limits. Every jump of a function of the
    /// listing goes to a label that the function defines. Where every loop of
    /// the validated source is left and repeated by jumps, the labels that a
    /// function defines are exactly the targets of its jumps.
    pub fn codegen(&mut self, source: Vec<char>) -> (r: Result<Option<Assembly>, Error>)
        requires
            source.len() < usize::MAX,
        ensures
            match r {
                Ok(a) => generated(source@, old(self).counter) == Ok::<
                    (Option<AssemblyView>, usize),
                    ErrorView,
                >((opt_assembly_view(a), final(self).counter)),
                Err(e) => generated(source@, old(self).counter) == Err::<
                    (Option<AssemblyView>, usize),
                    ErrorView,
                >(e@),
            },
            r matches Ok(Some(a)) ==> crate::codegen::emit::program_wf(a@),
            r matches Ok(Some(a)) ==> forall|k: int|
                0 <= k < a@.functions.len() ==> asm_closed(
                    (#[trigger] a@.functions[k]).instructions,
                ),
            r matches Ok(Some(a)) ==> (program_uses_labels(
                checked(source@, old(self).counter)->Ok_0.0,
            ) ==> forall|k: int|
                0 <= k < a@.functions.len() ==> asm_label_defs(
                    (#[trigger] a@.functions[k]).instructions,
                ) == asm_jump_targets(a@.functions[k].instructions)),
    {
        let ast = self.validate(source)?;
        let tacky = gen_tacky(&ast, &mut self.counter);
        if within_limits(&tacky) {
            let assembly = codegen(&tacky);
            proof {
                assert forall|k: int| 0 <= k < assembly@.functions.len() implies asm_closed(
                    (#[trigger] assembly@.functions[k]).instructions,
                ) by {
                    assert(closed(tacky@.funcs[k].instrs));
                }
                if program_uses_labels(ast@) {
                    assert forall|k: int|
                        0 <= k < assembly@.functions.len() implies asm_label_defs(
                        (#[trigger] assembly@.functions[k]).instructions,
                    ) == asm_jump_targets(assembly@.functions[k].instructions) by {
                        assert(balanced(tacky@.funcs[k].instrs));
                    }
                }
            }
            Ok(Some(assembly))
        } else {
            Ok(None)
        }
    }
}

} // verus!
