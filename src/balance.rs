//! Balanced branching: when a grammar keeps its save and restore symbols
//! balanced, every generation can be walked by the turtle without a stray
//! restore, and the walk ends with nothing saved.
use vstd::prelude::*;
use crate::grammar::{LSystemRules, expanded, image, rewrite};
use crate::turtle::{TurtleAction, Walk, act, perform_symbol, run};

verus! {

/// How an action changes the number of saved states.
pub open spec fn stack_effect(a: TurtleAction) -> int {
    match a {
        TurtleAction::PushState => 1,
        TurtleAction::PopState => -1,
        _ => 0,
    }
}

/// How symbol `c` changes the number of saved states under `bindings`.
pub open spec fn symbol_effect(bindings: Seq<(char, TurtleAction)>, c: char) -> int
    decreases bindings.len(),
{
    if bindings.len() == 0 {
        0
    } else {
        symbol_effect(bindings.drop_last(), c) + if bindings.last().0 == c {
            stack_effect(bindings.last().1)
        } else {
            0
        }
    }
}

/// How many save or restore actions `bindings` gives symbol `c`.
pub open spec fn stack_actions(bindings: Seq<(char, TurtleAction)>, c: char) -> nat
    decreases bindings.len(),
{
    if bindings.len() == 0 {
        0
    } else {
        stack_actions(bindings.drop_last(), c) + if bindings.last().0 == c && stack_effect(
            bindings.last().1,
        ) != 0 {
            1nat
        } else {
            0nat
        }
    }
}

/// No symbol both saves and restores, or does either twice.
pub open spec fn one_stack_action_per_symbol(bindings: Seq<(char, TurtleAction)>) -> bool {
    forall|c: char| #[trigger] stack_actions(bindings, c) <= 1
}

/// The number of states saved after walking `s`, counted without bound
/// below.
pub open spec fn depth(s: Seq<char>, bindings: Seq<(char, TurtleAction)>) -> int
    decreases s.len(),
{
    if s.len() == 0 {
        0
    } else {
        depth(s.drop_last(), bindings) + symbol_effect(bindings, s.last())
    }
}

/// No prefix of `s` restores more states than it saves.
pub open spec fn never_below(s: Seq<char>, bindings: Seq<(char, TurtleAction)>) -> bool {
    forall|k: int| 0 <= k <= s.len() ==> depth(#[trigger] s.take(k), bindings) >= 0
}

/// `s` never restores more states than it has saved, and restores all of them.
pub open spec fn balanced(s: Seq<char>, bindings: Seq<(char, TurtleAction)>) -> bool {
    never_below(s, bindings) && depth(s, bindings) == 0
}

/// Every production is balanced, and no symbol that has a production saves
/// or restores a state.
pub open spec fn branch_safe(table: Map<char, Seq<char>>, bindings: Seq<(char, TurtleAction)>) -> bool {
    forall|c: char|
        table.contains_key(c) ==> balanced(#[trigger] table[c], bindings) && symbol_effect(
            bindings,
            c,
        ) == 0
}

proof fn lemma_no_stack_actions(bindings: Seq<(char, TurtleAction)>, c: char)
    requires
        stack_actions(bindings, c) == 0,
    ensures
        symbol_effect(bindings, c) == 0,
    decreases bindings.len(),
{
    if bindings.len() > 0 {
        lemma_no_stack_actions(bindings.drop_last(), c);
    }
}

proof fn lemma_act_saved(w: Walk, a: TurtleAction)
    requires
        w.saved.len() + stack_effect(a) >= 0,
    ensures
        act(w, a) matches Some(v) && v.saved.len() == w.saved.len() + stack_effect(a),
{
}

proof fn lemma_perform_symbol_saved(w: Walk, bindings: Seq<(char, TurtleAction)>, c: char)
    requires
        stack_actions(bindings, c) <= 1,
        w.saved.len() + symbol_effect(bindings, c) >= 0,
    ensures
        perform_symbol(w, bindings, c) matches Some(v) && v.saved.len() == w.saved.len()
            + symbol_effect(bindings, c),
    decreases bindings.len(),
{
    if bindings.len() > 0 {
        let rest = bindings.drop_last();
        let last = bindings.last();
        if last.0 == c && stack_effect(last.1) != 0 {
            lemma_no_stack_actions(rest, c);
        }
        lemma_perform_symbol_saved(w, rest, c);
        let v = perform_symbol(w, rest, c)->Some_0;
        if last.0 == c {
            lemma_act_saved(v, last.1);
        }
    }
}

proof fn lemma_run_depth(s: Seq<char>, bindings: Seq<(char, TurtleAction)>)
    requires
        one_stack_action_per_symbol(bindings),
        never_below(s, bindings),
    ensures
        run(s, bindings) matches Some(w) && w.saved.len() == depth(s, bindings),
    decreases s.len(),
{
    if s.len() > 0 {
        let t = s.drop_last();
        assert forall|k: int| 0 <= k <= t.len() implies depth(#[trigger] t.take(k), bindings) >= 0 by {
            assert(t.take(k) =~= s.take(k));
        }
        lemma_run_depth(t, bindings);
        assert(s.take(s.len() as int) =~= s);
        assert(stack_actions(bindings, s.last()) <= 1);
        lemma_perform_symbol_saved(run(t, bindings)->Some_0, bindings, s.last());
    }
}

/// The depth after one more symbol is the depth before it plus that
/// symbol's effect.
pub proof fn lemma_depth_step(s: Seq<char>, bindings: Seq<(char, TurtleAction)>, k: int)
    requires
        0 <= k < s.len(),
    ensures
        depth(s.take(k + 1), bindings) == depth(s.take(k), bindings) + symbol_effect(bindings, s[k]),
{
    assert(s.take(k + 1).drop_last() =~= s.take(k));
}

proof fn lemma_depth_concat(a: Seq<char>, b: Seq<char>, bindings: Seq<(char, TurtleAction)>)
    ensures
        depth(a + b, bindings) == depth(a, bindings) + depth(b, bindings),
    decreases b.len(),
{
    if b.len() == 0 {
        assert(a + b =~= a);
    } else {
        assert((a + b).drop_last() =~= a + b.drop_last());
        lemma_depth_concat(a, b.drop_last(), bindings);
    }
}

proof fn lemma_rewrite_balance(s: Seq<char>, table: Map<char, Seq<char>>, bindings: Seq<(char, TurtleAction)>)
    requires
        branch_safe(table, bindings),
        never_below(s, bindings),
    ensures
        never_below(rewrite(s, table), bindings),
        depth(rewrite(s, table), bindings) == depth(s, bindings),
    decreases s.len(),
{
    if s.len() == 0 {
        assert forall|k: int| 0 <= k <= rewrite(s, table).len() implies depth(
            #[trigger] rewrite(s, table).take(k),
            bindings,
        ) >= 0 by {
            assert(rewrite(s, table).take(k) =~= Seq::<char>::empty());
        }
    } else {
        let t = s.drop_last();
        let c = s.last();
        assert forall|k: int| 0 <= k <= t.len() implies depth(#[trigger] t.take(k), bindings) >= 0 by {
            assert(t.take(k) =~= s.take(k));
        }
        lemma_rewrite_balance(t, table, bindings);
        let rt = rewrite(t, table);
        let img = image(c, table);
        assert(depth(img, bindings) == symbol_effect(bindings, c)) by {
            if table.contains_key(c) {
                assert(balanced(table[c], bindings));
            } else {
                assert(img.drop_last() =~= Seq::<char>::empty());
                assert(img.last() == c);
                assert(depth(img.drop_last(), bindings) == 0);
            }
        }
        lemma_depth_concat(rt, img, bindings);
        assert(depth(s.take(s.len() as int), bindings) >= 0);
        assert(s.take(s.len() as int) =~= s);
        assert(depth(rt.take(rt.len() as int), bindings) >= 0);
        assert(rt.take(rt.len() as int) =~= rt);
        assert forall|k: int| 0 <= k <= (rt + img).len() implies depth(
            #[trigger] (rt + img).take(k),
            bindings,
        ) >= 0 by {
            if k <= rt.len() {
                assert((rt + img).take(k) =~= rt.take(k));
            } else {
                let k2 = k - rt.len();
                assert((rt + img).take(k) =~= rt + img.take(k2));
                lemma_depth_concat(rt, img.take(k2), bindings);
                if table.contains_key(c) {
                    assert(balanced(table[c], bindings));
                    assert(depth(img.take(k2), bindings) >= 0);
                } else {
                    assert(img.take(k2) =~= img);
                }
            }
        }
    }
}

proof fn lemma_expanded_balance(
    start: Seq<char>,
    table: Map<char, Seq<char>>,
    bindings: Seq<(char, TurtleAction)>,
    n: nat,
)
    requires
        branch_safe(table, bindings),
        balanced(start, bindings),
    ensures
        balanced(expanded(start, table, n), bindings),
    decreases n,
{
    if n > 0 {
        lemma_expanded_balance(start, table, bindings, (n - 1) as nat);
        lemma_rewrite_balance(expanded(start, table, (n - 1) as nat), table, bindings);
    }
}

/// A grammar whose start sequence and productions keep saves and restores
/// balanced, and whose symbols with a production neither save nor restore,
/// gives at every generation a sequence that the turtle walks without a
/// stray restore, ending with no state saved.
pub proof fn lemma_balanced_grammar_walks(
    g: LSystemRules,
    bindings: Seq<(char, TurtleAction)>,
    n: nat,
)
    requires
        one_stack_action_per_symbol(bindings),
        balanced(g.start@, bindings),
        branch_safe(g.productions(), bindings),
    ensures
        run(g.generation(n), bindings) matches Some(w) && w.saved.len() == 0,
{
    lemma_expanded_balance(g.start@, g.productions(), bindings, n);
    lemma_run_depth(g.generation(n), bindings);
}

} // verus!
