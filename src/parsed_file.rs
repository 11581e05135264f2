//! The declaration summary that a parse hands back beside its syntax tree.
use vstd::prelude::*;

verus! {

/// The mode a file is checked in.
#[derive(Clone, Copy, Debug, PartialEq, Eq, Structural)]
pub enum Mode {
    Mhhi,
    Mstrict,
    Mpartial,
}

/// The mode the declaration pass runs in: the one asked for, strict by
/// default.
pub open spec fn spec_effective_mode(mode: Option<Mode>) -> Mode {
    match mode {
        Some(m) => m,
        None => Mode::Mstrict,
    }
}

pub fn effective_mode(mode: Option<Mode>) -> (r: Mode)
    ensures
        r == spec_effective_mode(mode),
{
    match mode {
        Some(m) => m,
        None => Mode::Mstrict,
    }
}

/// The declarations of one file: its mode as asked for, its file-level
/// attributes and its top-level declarations in source order, and whether
/// the parse met errors.
#[derive(Debug)]
pub struct ParsedFile<A, D> {
    pub mode: Option<Mode>,
    pub file_attributes: Vec<A>,
    pub decls: Vec<D>,
    pub has_first_pass_parse_errors: bool,
}

/// Assembles the summary of a parse from what the declaration pass
/// collected: the file attributes it met, in the reverse of their source
/// order, the declarations, and the parse errors.
pub fn build_parsed_file<A, D, E>(
    mode: Option<Mode>,
    collected_attributes: Vec<A>,
    decls: Vec<D>,
    errors: &Vec<E>,
) -> (r: ParsedFile<A, D>)
    ensures
        r.mode == mode,
        r.file_attributes@ == collected_attributes@.reverse(),
        r.decls@ == decls@,
        r.has_first_pass_parse_errors == (errors.len() > 0),
{
    let mut rest = collected_attributes;
    let mut attrs: Vec<A> = Vec::new();
    while rest.len() > 0
        invariant
            collected_attributes@.reverse() =~= attrs@ + rest@.reverse(),
        decreases rest.len(),
    {
        let ghost before = rest@;
        let a = rest.pop().unwrap();
        assert(before.reverse() =~= seq![a] + rest@.reverse());
        attrs.push(a);
    }
    assert(collected_attributes@.reverse() =~= attrs@);
    ParsedFile {
        mode,
        file_attributes: attrs,
        decls,
        has_first_pass_parse_errors: errors.len() > 0,
    }
}

/// File attributes that the declaration pass collected in the reverse of
/// source order come out of the summary, which reverses what was collected,
/// in source order.
pub proof fn lemma_file_attributes_in_source_order<A>(
    source_order: Seq<A>,
    collected: Seq<A>,
    summary: Seq<A>,
)
    requires
        collected == source_order.reverse(),
        summary == collected.reverse(),
    ensures
        summary == source_order,
{
    assert(source_order.reverse().reverse() =~= source_order);
}

} // verus!
