//! The fractals this library knows: for each, its grammar and the actions
//! its symbols perform. The angles and step lengths belong to the renderer.
use vstd::prelude::*;
use crate::grammar::{LSystemRules, rule_table};
use crate::balance::{
    balanced, branch_safe, depth, lemma_balanced_grammar_walks, lemma_depth_step,
    one_stack_action_per_symbol, stack_actions, symbol_effect,
};
use crate::turtle::run;
use crate::turtle::TurtleAction;

verus! {

/// The fractals on offer.
#[derive(Debug, Clone, Copy, PartialEq, Eq, Structural)]
pub enum LSystemSelection {
    DragonCurve,
    SierpinskiTriangle,
    LevyCCurve,
    FractalTree,
    FractalPlant,
    KochCurve,
}

/// The dragon curve: `F -> F+G`, `G -> F-G`, starting from `F`.
pub fn dragon_curve_rules_object() -> (r: LSystemRules)
    ensures
        r.start@ == seq!['F'],
        r.productions() == map!['F' => "F+G"@, 'G' => "F-G"@],
{
    let r = LSystemRules::new(vec!['F'], vec![('F', "F+G".to_string()), ('G', "F-G".to_string())]);
    proof {
        reveal_with_fuel(rule_table, 3);
    }
    assert(r.productions() =~= map!['F' => "F+G"@, 'G' => "F-G"@]);
    r
}

/// `F` and `G` draw, `+` turns left and `-` turns right.
pub fn dragon_curve_actions() -> (r: Vec<(char, TurtleAction)>)
    ensures
        r@ == seq![
            ('F', TurtleAction::DrawForward),
            ('G', TurtleAction::DrawForward),
            ('+', TurtleAction::TurnLeft),
            ('-', TurtleAction::TurnRight),
        ],
{
    vec![
        ('F', TurtleAction::DrawForward),
        ('G', TurtleAction::DrawForward),
        ('+', TurtleAction::TurnLeft),
        ('-', TurtleAction::TurnRight),
    ]
}

/// The fractal plant: `X -> F-[[X]+X]+F[+FX]-X`, `F -> FF`, starting from `X`.
pub fn fractal_plant_rules_object() -> (r: LSystemRules)
    ensures
        r.start@ == seq!['X'],
        r.productions() == map!['X' => "F-[[X]+X]+F[+FX]-X"@, 'F' => "FF"@],
{
    let r = LSystemRules::new(
        vec!['X'],
        vec![('X', "F-[[X]+X]+F[+FX]-X".to_string()), ('F', "FF".to_string())],
    );
    proof {
        reveal_with_fuel(rule_table, 3);
    }
    assert(r.productions() =~= map!['X' => "F-[[X]+X]+F[+FX]-X"@, 'F' => "FF"@]);
    r
}

/// `F` draws, `-` turns left, `+` turns right, `[` saves the turtle's state
/// and `]` restores it.
pub fn fractal_plant_actions() -> (r: Vec<(char, TurtleAction)>)
    ensures
        r@ == seq![
            ('F', TurtleAction::DrawForward),
            ('-', TurtleAction::TurnLeft),
            ('+', TurtleAction::TurnRight),
            ('[', TurtleAction::PushState),
            (']', TurtleAction::PopState),
        ],
{
    vec![
        ('F', TurtleAction::DrawForward),
        ('-', TurtleAction::TurnLeft),
        ('+', TurtleAction::TurnRight),
        ('[', TurtleAction::PushState),
        (']', TurtleAction::PopState),
    ]
}

/// The fractal (binary) tree: `0 -> 1[0]0`, `1 -> 11`, starting from `0`.
pub fn fractal_tree_rules_object() -> (r: LSystemRules)
    ensures
        r.start@ == seq!['0'],
        r.productions() == map!['0' => "1[0]0"@, '1' => "11"@],
{
    let r = LSystemRules::new(vec!['0'], vec![('0', "1[0]0".to_string()), ('1', "11".to_string())]);
    proof {
        reveal_with_fuel(rule_table, 3);
    }
    assert(r.productions() =~= map!['0' => "1[0]0"@, '1' => "11"@]);
    r
}

/// `1` draws a branch, `0` draws a branch ending in a leaf, `[` saves the
/// turtle's state and turns left, `]` restores it and turns right.
pub fn fractal_tree_actions() -> (r: Vec<(char, TurtleAction)>)
    ensures
        r@ == seq![
            ('1', TurtleAction::DrawForward),
            ('0', TurtleAction::DrawForwardWithMarker),
            ('[', TurtleAction::PushState),
            ('[', TurtleAction::TurnLeft),
            (']', TurtleAction::PopState),
            (']', TurtleAction::TurnRight),
        ],
{
    vec![
        ('1', TurtleAction::DrawForward),
        ('0', TurtleAction::DrawForwardWithMarker),
        ('[', TurtleAction::PushState),
        ('[', TurtleAction::TurnLeft),
        (']', TurtleAction::PopState),
        (']', TurtleAction::TurnRight),
    ]
}

/// The quadratic Koch island: `F -> F-F+F+FF-F-F+F`, starting from `F-F-F-F`.
pub fn koch_island_rules_object() -> (r: LSystemRules)
    ensures
        r.start@ == seq!['F', '-', 'F', '-', 'F', '-', 'F'],
        r.productions() == map!['F' => "F-F+F+FF-F-F+F"@],
{
    let r = LSystemRules::new(
        vec!['F', '-', 'F', '-', 'F', '-', 'F'],
        vec![('F', "F-F+F+FF-F-F+F".to_string())],
    );
    proof {
        reveal_with_fuel(rule_table, 2);
    }
    assert(r.productions() =~= map!['F' => "F-F+F+FF-F-F+F"@]);
    r
}

/// The Koch pyramid: `F -> F+F-F-F+F`, starting from `-F`.
pub fn koch_pyramid_rules_object() -> (r: LSystemRules)
    ensures
        r.start@ == seq!['-', 'F'],
        r.productions() == map!['F' => "F+F-F-F+F"@],
{
    let r = LSystemRules::new(vec!['-', 'F'], vec![('F', "F+F-F-F+F".to_string())]);
    proof {
        reveal_with_fuel(rule_table, 2);
    }
    assert(r.productions() =~= map!['F' => "F+F-F-F+F"@]);
    r
}

/// `F` draws, `f` moves without drawing, `+` turns left and `-` turns right.
pub fn koch_curve_actions() -> (r: Vec<(char, TurtleAction)>)
    ensures
        r@ == seq![
            ('F', TurtleAction::DrawForward),
            ('f', TurtleAction::MoveForward),
            ('+', TurtleAction::TurnLeft),
            ('-', TurtleAction::TurnRight),
        ],
{
    vec![
        ('F', TurtleAction::DrawForward),
        ('f', TurtleAction::MoveForward),
        ('+', TurtleAction::TurnLeft),
        ('-', TurtleAction::TurnRight),
    ]
}

/// The rules of the Lévy C curve: `F -> +F--F+`.
pub fn levy_c_curve_rules() -> (r: Vec<(char, String)>)
    ensures
        r@.len() == 1,
        r@[0].0 == 'F',
        r@[0].1@ == "+F--F+"@,
{
    vec![('F', "+F--F+".to_string())]
}

/// The Lévy C curve, starting from `F`.
pub fn levy_rules_object() -> (r: LSystemRules)
    ensures
        r.start@ == seq!['F'],
        r.productions() == map!['F' => "+F--F+"@],
{
    let r = LSystemRules::new(vec!['F'], levy_c_curve_rules());
    proof {
        reveal_with_fuel(rule_table, 2);
    }
    assert(r.productions() =~= map!['F' => "+F--F+"@]);
    r
}

/// `F` draws, `+` turns left and `-` turns right.
pub fn levy_c_curve_actions() -> (r: Vec<(char, TurtleAction)>)
    ensures
        r@ == seq![
            ('F', TurtleAction::DrawForward),
            ('+', TurtleAction::TurnLeft),
            ('-', TurtleAction::TurnRight),
        ],
{
    vec![('F', TurtleAction::DrawForward), ('+', TurtleAction::TurnLeft), ('-', TurtleAction::TurnRight)]
}

/// The Sierpinski triangle: `F -> F-G+F+G-F`, `G -> GG`, starting from `F`.
pub fn sierpinski_triangle_rules_object() -> (r: LSystemRules)
    ensures
        r.start@ == seq!['F'],
        r.productions() == map!['F' => "F-G+F+G-F"@, 'G' => "GG"@],
{
    let r = LSystemRules::new(
        vec!['F'],
        vec![('F', "F-G+F+G-F".to_string()), ('G', "GG".to_string())],
    );
    proof {
        reveal_with_fuel(rule_table, 3);
    }
    assert(r.productions() =~= map!['F' => "F-G+F+G-F"@, 'G' => "GG"@]);
    r
}

/// `F` and `G` draw, `+` turns left and `-` turns right.
pub fn sierpinski_triangle_actions() -> (r: Vec<(char, TurtleAction)>)
    ensures
        r@ == seq![
            ('F', TurtleAction::DrawForward),
            ('G', TurtleAction::DrawForward),
            ('+', TurtleAction::TurnLeft),
            ('-', TurtleAction::TurnRight),
        ],
{
    vec![
        ('F', TurtleAction::DrawForward),
        ('G', TurtleAction::DrawForward),
        ('+', TurtleAction::TurnLeft),
        ('-', TurtleAction::TurnRight),
    ]
}

/// The fractal plant's branches balance: at every generation the turtle
/// walks its sequence without a stray restore and ends with no state saved.
pub proof fn lemma_fractal_plant_walks(g: LSystemRules, bindings: Seq<(char, TurtleAction)>, n: nat)
    requires
        g.start@ == seq!['X'],
        g.productions() == map!['X' => "F-[[X]+X]+F[+FX]-X"@, 'F' => "FF"@],
        bindings == seq![
            ('F', TurtleAction::DrawForward),
            ('-', TurtleAction::TurnLeft),
            ('+', TurtleAction::TurnRight),
            ('[', TurtleAction::PushState),
            (']', TurtleAction::PopState),
        ],
    ensures
        run(g.generation(n), bindings) matches Some(w) && w.saved.len() == 0,
{
    reveal_with_fuel(symbol_effect, 6);
    reveal_with_fuel(stack_actions, 6);
    reveal_strlit("F-[[X]+X]+F[+FX]-X");
    reveal_strlit("FF");
    assert(one_stack_action_per_symbol(bindings));
    let x = g.start@;
    assert(x.take(0) =~= Seq::<char>::empty());
    lemma_depth_step(x, bindings, 0);
    assert(x.take(1) =~= x);
    assert(balanced(x, bindings));
    let ff = "FF"@;
    assert(ff.take(0) =~= Seq::<char>::empty());
    lemma_depth_step(ff, bindings, 0);
    lemma_depth_step(ff, bindings, 1);
    assert(ff.take(2) =~= ff);
    assert(balanced(ff, bindings)) by {
        assert forall|k: int| 0 <= k <= ff.len() implies depth(#[trigger] ff.take(k), bindings) >= 0 by {
            assert(k == 0 || k == 1 || k == 2);
        }
    }
    let p = "F-[[X]+X]+F[+FX]-X"@;
    assert(p.take(0) =~= Seq::<char>::empty());
    lemma_depth_step(p, bindings, 0);
    lemma_depth_step(p, bindings, 1);
    lemma_depth_step(p, bindings, 2);
    lemma_depth_step(p, bindings, 3);
    lemma_depth_step(p, bindings, 4);
    lemma_depth_step(p, bindings, 5);
    lemma_depth_step(p, bindings, 6);
    lemma_depth_step(p, bindings, 7);
    lemma_depth_step(p, bindings, 8);
    lemma_depth_step(p, bindings, 9);
    lemma_depth_step(p, bindings, 10);
    lemma_depth_step(p, bindings, 11);
    lemma_depth_step(p, bindings, 12);
    lemma_depth_step(p, bindings, 13);
    lemma_depth_step(p, bindings, 14);
    lemma_depth_step(p, bindings, 15);
    lemma_depth_step(p, bindings, 16);
    lemma_depth_step(p, bindings, 17);
    assert(p.take(18) =~= p);
    assert(balanced(p, bindings)) by {
        assert forall|k: int| 0 <= k <= p.len() implies depth(#[trigger] p.take(k), bindings) >= 0 by {
            assert(0 <= k <= 18);
            if k <= 9 {
                assert(k == 0 || k == 1 || k == 2 || k == 3 || k == 4 || k == 5 || k == 6 || k == 7
                    || k == 8 || k == 9);
            } else {
                assert(k == 10 || k == 11 || k == 12 || k == 13 || k == 14 || k == 15 || k == 16
                    || k == 17 || k == 18);
            }
        }
    }
    assert(branch_safe(g.productions(), bindings));
    lemma_balanced_grammar_walks(g, bindings, n);
}

/// The fractal tree's branches balance: at every generation the turtle
/// walks its sequence without a stray restore and ends with no state saved.
pub proof fn lemma_fractal_tree_walks(g: LSystemRules, bindings: Seq<(char, TurtleAction)>, n: nat)
    requires
        g.start@ == seq!['0'],
        g.productions() == map!['0' => "1[0]0"@, '1' => "11"@],
        bindings == seq![
            ('1', TurtleAction::DrawForward),
            ('0', TurtleAction::DrawForwardWithMarker),
            ('[', TurtleAction::PushState),
            ('[', TurtleAction::TurnLeft),
            (']', TurtleAction::PopState),
            (']', TurtleAction::TurnRight),
        ],
    ensures
        run(g.generation(n), bindings) matches Some(w) && w.saved.len() == 0,
{
    reveal_with_fuel(symbol_effect, 7);
    reveal_with_fuel(stack_actions, 7);
    reveal_strlit("1[0]0");
    reveal_strlit("11");
    assert(one_stack_action_per_symbol(bindings));
    let z = g.start@;
    assert(z.take(0) =~= Seq::<char>::empty());
    lemma_depth_step(z, bindings, 0);
    assert(z.take(1) =~= z);
    assert(balanced(z, bindings));
    let ones = "11"@;
    assert(ones.take(0) =~= Seq::<char>::empty());
    lemma_depth_step(ones, bindings, 0);
    lemma_depth_step(ones, bindings, 1);
    assert(ones.take(2) =~= ones);
    assert(balanced(ones, bindings)) by {
        assert forall|k: int| 0 <= k <= ones.len() implies depth(#[trigger] ones.take(k), bindings) >= 0 by {
            assert(k == 0 || k == 1 || k == 2);
        }
    }
    let b = "1[0]0"@;
    assert(b.take(0) =~= Seq::<char>::empty());
    lemma_depth_step(b, bindings, 0);
    lemma_depth_step(b, bindings, 1);
    lemma_depth_step(b, bindings, 2);
    lemma_depth_step(b, bindings, 3);
    lemma_depth_step(b, bindings, 4);
    assert(b.take(5) =~= b);
    assert(balanced(b, bindings)) by {
        assert forall|k: int| 0 <= k <= b.len() implies depth(#[trigger] b.take(k), bindings) >= 0 by {
            assert(k == 0 || k == 1 || k == 2 || k == 3 || k == 4 || k == 5);
        }
    }
    assert(branch_safe(g.productions(), bindings));
    lemma_balanced_grammar_walks(g, bindings, n);
}

} // verus!
