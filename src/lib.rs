//! Rewriting of L-system grammars and a turtle interpreter that turns the
//! rewritten symbol sequence into an ordered list of drawing primitives.

mod balance;
mod catalog;
mod error;
mod grammar;
mod rewriter;
mod turtle;

pub use error::LSystemError;
pub use grammar::{LSystemRules, rule_table, image, rewrite, expanded, lemma_rewrite_terminals,
    lemma_expansion_deterministic, lemma_generation_not_shorter, lemma_zero_generations,
};
pub use turtle::{
    TurtleAction, TurtleState, PathPoint, DrawPrimitive, TurtleDrawing, Walk, initial_walk, stepped,
    facing, act, perform_symbol, run, interpret, lemma_perform_symbol_stuck, lemma_run_stuck,
    binds_only, lemma_push_pop_round_trip, lemma_save_restore_symbols,
};
pub use balance::{
    stack_effect, symbol_effect, stack_actions, one_stack_action_per_symbol, depth, never_below,
    balanced, branch_safe, lemma_balanced_grammar_walks, lemma_depth_step,
};
pub use catalog::{
    LSystemSelection, dragon_curve_rules_object, dragon_curve_actions, fractal_plant_rules_object,
    fractal_plant_actions, fractal_tree_rules_object, fractal_tree_actions, koch_island_rules_object,
    koch_pyramid_rules_object, koch_curve_actions, levy_c_curve_rules, levy_rules_object,
    levy_c_curve_actions, sierpinski_triangle_rules_object, sierpinski_triangle_actions,
    lemma_fractal_plant_walks, lemma_fractal_tree_walks,
};
