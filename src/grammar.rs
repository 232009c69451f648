use vstd::prelude::*;
use crate::error::LSystemError;
use crate::rewriter::{
    empty_table, new_system, next_generation, set_production, show_chars, system_state,
    system_table, table_contents,
};
use lsystem::MapRules;

verus! {

/// An L-system grammar: a start sequence and production rules.
///
/// A symbol without a rule is a terminal and rewrites to itself. When the
/// same symbol is given several rules, the last one in `rules` is the one
/// that applies.
#[derive(Debug, Clone)]
pub struct LSystemRules {
    pub start: Vec<char>,
    pub rules: Vec<(char, String)>,
}

/// The production table described by a list of rules, later entries
/// replacing earlier ones for the same symbol.
pub open spec fn rule_table(rules: Seq<(char, String)>) -> Map<char, Seq<char>>
    decreases rules.len(),
{
    if rules.len() == 0 {
        Map::empty()
    } else {
        rule_table(rules.drop_last()).insert(rules.last().0, rules.last().1@)
    }
}

/// What one symbol becomes in one generation: its production, or itself
/// when it has none.
pub open spec fn image(c: char, table: Map<char, Seq<char>>) -> Seq<char> {
    if table.contains_key(c) {
        table[c]
    } else {
        seq![c]
    }
}

/// One generation of parallel rewriting: the images of the symbols of `s`,
/// concatenated in order.
pub open spec fn rewrite(s: Seq<char>, table: Map<char, Seq<char>>) -> Seq<char>
    decreases s.len(),
{
    if s.len() == 0 {
        Seq::empty()
    } else {
        rewrite(s.drop_last(), table) + image(s.last(), table)
    }
}

/// The sequence after `n` generations of rewriting from `start`.
pub open spec fn expanded(start: Seq<char>, table: Map<char, Seq<char>>, n: nat) -> Seq<char>
    decreases n,
{
    if n == 0 {
        start
    } else {
        rewrite(expanded(start, table, (n - 1) as nat), table)
    }
}

/// A sequence none of whose symbols has a production rewrites to itself.
pub proof fn lemma_rewrite_terminals(s: Seq<char>, table: Map<char, Seq<char>>)
    requires
        forall|i: int| 0 <= i < s.len() ==> !#[trigger] table.contains_key(s[i]),
    ensures
        rewrite(s, table) == s,
    decreases s.len(),
{
    if s.len() > 0 {
        lemma_rewrite_terminals(s.drop_last(), table);
        assert(!table.contains_key(s[s.len() - 1]));
        assert(s.drop_last() + seq![s.last()] =~= s);
    }
}

impl LSystemRules {
    /// The production table of this grammar.
    pub open spec fn productions(&self) -> Map<char, Seq<char>> {
        rule_table(self.rules@)
    }

    /// The sequence this grammar gives after `n` generations.
    pub open spec fn generation(&self, n: nat) -> Seq<char> {
        expanded(self.start@, self.productions(), n)
    }

    pub fn new(start: Vec<char>, rules: Vec<(char, String)>) -> (r: Self)
        ensures
            r.start@ == start@,
            r.rules@ == rules@,
    {
        LSystemRules { start, rules }
    }

    /// The rules of this grammar as a lookup table of the `lsystem` crate.
    fn table(&self) -> (r: MapRules<char>)
        ensures
            table_contents(r) == self.productions(),
    {
        let mut table = empty_table();
        assert(table_contents(table) =~= rule_table(self.rules@.take(0)));
        let mut i: usize = 0;
        while i < self.rules.len()
            invariant
                i <= self.rules.len(),
                table_contents(table) == rule_table(self.rules@.take(i as int)),
            decreases self.rules.len() - i,
        {
            set_production(&mut table, self.rules[i].0, self.rules[i].1.as_str());
            assert(self.rules@.take(i as int + 1).drop_last() =~= self.rules@.take(i as int));
            i += 1;
        }
        assert(self.rules@.take(i as int) =~= self.rules@);
        table
    }

    /// The sequence after `generations` rounds of parallel rewriting. With
    /// no generation this is the start sequence; an empty start sequence
    /// stays empty.
    pub fn expand(&self, generations: usize) -> (r: Vec<char>)
        ensures
            r@ == self.generation(generations as nat),
    {
        let mut system = new_system(self.table(), self.start.clone());
        let mut current = self.start.clone();
        assert(current@ =~= self.start@);
        let mut n: usize = 0;
        while n < generations
            invariant
                n <= generations,
                system_table(system) == self.productions(),
                system_state(system) == self.generation(n as nat),
                current@ == system_state(system),
            decreases generations - n,
        {
            let ghost before = system_state(system);
            match next_generation(&mut system) {
                Some(v) => {
                    current = v;
                },
                None => {
                    proof {
                        lemma_rewrite_terminals(before, self.productions());
                    }
                },
            }
            n += 1;
        }
        current
    }

    /// The sequence after `levels` generations, as a string. A grammar
    /// whose start sequence is empty is refused.
    pub fn eval(&self, levels: &usize) -> (r: Result<String, LSystemError>)
        ensures
            match r {
                Ok(s) => self.start@.len() > 0 && s@ == self.generation(*levels as nat),
                Err(e) => self.start@.len() == 0 && e == LSystemError::InvalidGrammar,
            },
    {
        if self.start.len() == 0 {
            return Err(LSystemError::InvalidGrammar);
        }
        let sequence = self.expand(*levels);
        Ok(show_chars(&sequence))
    }
}

/// A table built from productions that are all non-empty holds only
/// non-empty productions.
proof fn lemma_rule_table_nonempty(rules: Seq<(char, String)>)
    requires
        forall|i: int| 0 <= i < rules.len() ==> (#[trigger] rules[i]).1@.len() >= 1,
    ensures
        forall|c: char| #[trigger] rule_table(rules).contains_key(c) ==> rule_table(rules)[c].len() >= 1,
    decreases rules.len(),
{
    if rules.len() > 0 {
        let rest = rules.drop_last();
        assert forall|i: int| 0 <= i < rest.len() implies (#[trigger] rest[i]).1@.len() >= 1 by {
            assert(rest[i] == rules[i]);
        }
        lemma_rule_table_nonempty(rest);
        assert(rules[rules.len() - 1].1@.len() >= 1);
        assert forall|c: char| #[trigger] rule_table(rules).contains_key(c) implies rule_table(
            rules,
        )[c].len() >= 1 by {
            if c != rules.last().0 {
                assert(rule_table(rest).contains_key(c));
            }
        }
    }
}

/// With non-empty productions, rewriting never shortens a sequence.
proof fn lemma_rewrite_not_shorter(s: Seq<char>, table: Map<char, Seq<char>>)
    requires
        forall|c: char| #[trigger] table.contains_key(c) ==> table[c].len() >= 1,
    ensures
        rewrite(s, table).len() >= s.len(),
    decreases s.len(),
{
    if s.len() > 0 {
        lemma_rewrite_not_shorter(s.drop_last(), table);
        if table.contains_key(s.last()) {
            assert(table[s.last()].len() >= 1);
        }
    }
}

/// Expansion is a function of the grammar and the number of generations:
/// grammars with the same start sequence and rules give the same sequence.
pub proof fn lemma_expansion_deterministic(g: LSystemRules, h: LSystemRules, n: nat)
    requires
        g.start@ == h.start@,
        g.rules@ == h.rules@,
    ensures
        g.generation(n) == h.generation(n),
{
}

/// When every rule produces at least one symbol, no generation is shorter
/// than the one before it.
pub proof fn lemma_generation_not_shorter(g: LSystemRules, n: nat)
    requires
        forall|i: int| 0 <= i < g.rules@.len() ==> (#[trigger] g.rules@[i]).1@.len() >= 1,
    ensures
        g.generation(n + 1).len() >= g.generation(n).len(),
{
    lemma_rule_table_nonempty(g.rules@);
    lemma_rewrite_not_shorter(g.generation(n), g.productions());
}

/// With no generation the sequence is the start sequence.
pub proof fn lemma_zero_generations(g: LSystemRules)
    ensures
        g.generation(0) == g.start@,
{
}

} // verus!
