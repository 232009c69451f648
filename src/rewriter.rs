//! The `lsystem` crate's rewriting machinery, as seen from verified code.
//!
//! `MapRules` is a lookup table from a symbol to its production and
//! `LSystem` holds such a table together with the current generation; a
//! `Rewriter` carries one `LSystem` through verified code.
//! Both are opaque here: what they hold is named by the spec functions
//! below, and each wrapper states what the crate's method does to it.
use vstd::prelude::*;
use lsystem::{LSystem, MapRules};
use crate::grammar::rewrite;

verus! {

#[verifier::external_type_specification]
#[verifier::external_body]
#[verifier::reject_recursive_types(T)]
pub struct ExMapRules<T: std::hash::Hash + std::cmp::Eq>(MapRules<T>);

/// An `lsystem::LSystem` over characters, rewriting with a `MapRules` table.
#[verifier::external_body]
pub struct Rewriter {
    system: LSystem<char, MapRules<char>>,
}

/// The productions held by a `MapRules` table.
pub uninterp spec fn table_contents(m: MapRules<char>) -> Map<char, Seq<char>>;

/// The current generation held by the `LSystem` of a `Rewriter`.
pub uninterp spec fn system_state(s: Rewriter) -> Seq<char>;

/// The productions of the table that the `LSystem` of a `Rewriter` rewrites with.
pub uninterp spec fn system_table(s: Rewriter) -> Map<char, Seq<char>>;

/// Relies on `lsystem::MapRules::new`: a new table holds no production.
#[verifier::external_body]
pub(crate) fn empty_table() -> (r: MapRules<char>)
    ensures
        table_contents(r).dom() == Set::<char>::empty(),
{
    MapRules::new()
}

/// Relies on `lsystem::MapRules::set_str`: the symbol now produces the
/// characters of `production`, in order, in place of any earlier production
/// (the table is a `HashMap` and the call is its `insert`).
#[verifier::external_body]
pub(crate) fn set_production(m: &mut MapRules<char>, symbol: char, production: &str)
    ensures
        table_contents(*final(m)) == table_contents(*old(m)).insert(symbol, production@),
{
    m.set_str(symbol, production);
}

/// Relies on `lsystem::LSystem::new`: the system starts at `start` and
/// rewrites with `table`.
#[verifier::external_body]
pub(crate) fn new_system(table: MapRules<char>, start: Vec<char>) -> (r: Rewriter)
    ensures
        system_state(r) == start@,
        system_table(r) == table_contents(table),
{
    Rewriter { system: LSystem::new(table, start) }
}

/// Relies on `<lsystem::LSystem as Iterator>::next`: every symbol of the
/// current generation is replaced by its production, or kept where it has
/// none, and the result becomes the current generation. It is handed back
/// when at least one symbol had a production, and `None` otherwise.
#[verifier::external_body]
pub(crate) fn next_generation(s: &mut Rewriter) -> (r: Option<Vec<char>>)
    ensures
        system_table(*final(s)) == system_table(*old(s)),
        system_state(*final(s)) == rewrite(system_state(*old(s)), system_table(*old(s))),
        r is Some <==> exists|i: int|
            0 <= i < system_state(*old(s)).len() && #[trigger] system_table(*old(s)).contains_key(
                system_state(*old(s))[i],
            ),
        r matches Some(v) ==> v@ == system_state(*final(s)),
{
    s.system.next()
}

/// Relies on `lsystem::show`: the string holds the characters of `v`, in order.
#[verifier::external_body]
pub(crate) fn show_chars(v: &Vec<char>) -> (r: String)
    ensures
        r@ == v@,
{
    lsystem::show(v)
}

} // verus!
