use lsystem_fractals::{
    dragon_curve_rules_object, fractal_plant_rules_object, fractal_tree_rules_object,
    koch_island_rules_object, koch_pyramid_rules_object, levy_c_curve_rules, levy_rules_object,
    sierpinski_triangle_rules_object, LSystemError, LSystemRules,
};

fn chars(s: &str) -> Vec<char> {
    s.chars().collect()
}

#[test]
fn dragon_curve_first_generations() {
    let g = dragon_curve_rules_object();
    assert_eq!(g.expand(1), chars("F+G"));
    assert_eq!(g.expand(2), chars("F+G+F-G"));
}

#[test]
fn zero_generations_give_the_start_sequence() {
    let g = koch_island_rules_object();
    assert_eq!(g.expand(0), chars("F-F-F-F"));
    let p = fractal_plant_rules_object();
    assert_eq!(p.expand(0), vec!['X']);
}

#[test]
fn expansion_is_repeatable() {
    let g = fractal_plant_rules_object();
    let a = g.expand(4);
    let b = g.expand(4);
    assert_eq!(a, b);
    let c = fractal_plant_rules_object().expand(4);
    assert_eq!(a, c);
}

#[test]
fn generation_length_never_decreases() {
    let g = fractal_plant_rules_object();
    let mut previous = g.expand(0).len();
    for n in 1..6 {
        let len = g.expand(n).len();
        assert!(len >= previous);
        previous = len;
    }
}

#[test]
fn empty_start_stays_empty() {
    let g = LSystemRules::new(vec![], vec![('F', "FF".to_string())]);
    assert_eq!(g.expand(0), Vec::<char>::new());
    assert_eq!(g.expand(5), Vec::<char>::new());
}

#[test]
fn eval_refuses_an_empty_start() {
    let g = LSystemRules::new(vec![], vec![('F', "FF".to_string())]);
    assert_eq!(g.eval(&3), Err(LSystemError::InvalidGrammar));
}

#[test]
fn eval_returns_the_generation_as_a_string() {
    let g = dragon_curve_rules_object();
    assert_eq!(g.eval(&2), Ok("F+G+F-G".to_string()));
    assert_eq!(g.eval(&0), Ok("F".to_string()));
}

#[test]
fn terminals_rewrite_to_themselves() {
    let g = LSystemRules::new(chars("AB"), vec![]);
    assert_eq!(g.expand(3), chars("AB"));
    let h = LSystemRules::new(chars("A+B"), vec![('C', "CC".to_string())]);
    assert_eq!(h.expand(2), chars("A+B"));
}

#[test]
fn fixed_point_symbol_does_not_grow() {
    let g = LSystemRules::new(chars("AB"), vec![('A', "A".to_string()), ('B', "AB".to_string())]);
    assert_eq!(g.expand(1), chars("AAB"));
    assert_eq!(g.expand(3), chars("AAAAB"));
}

#[test]
fn later_rule_for_a_symbol_wins() {
    let g = LSystemRules::new(vec!['A'], vec![('A', "AB".to_string()), ('A', "BA".to_string())]);
    assert_eq!(g.expand(1), chars("BA"));
}

#[test]
fn empty_production_erases_the_symbol() {
    let g = LSystemRules::new(chars("ABA"), vec![('B', String::new())]);
    assert_eq!(g.expand(1), chars("AA"));
}

#[test]
fn rewriting_is_parallel() {
    // A rewritten symbol is not rewritten again within the same generation.
    let g = LSystemRules::new(chars("AB"), vec![('A', "B".to_string()), ('B', "A".to_string())]);
    assert_eq!(g.expand(1), chars("BA"));
    assert_eq!(g.expand(2), chars("AB"));
}

#[test]
fn algae_generations() {
    let g = LSystemRules::new(vec!['A'], vec![('A', "AB".to_string()), ('B', "A".to_string())]);
    assert_eq!(g.expand(5), chars("ABAABABAABAAB"));
}

#[test]
fn fractal_tree_second_generation() {
    let g = fractal_tree_rules_object();
    assert_eq!(g.expand(2), chars("11[1[0]0]1[0]0"));
}

#[test]
fn sierpinski_first_generation() {
    let g = sierpinski_triangle_rules_object();
    assert_eq!(g.expand(1), chars("F-G+F+G-F"));
    // Three `F` become nine symbols each, two `G` two each; four signs stay.
    assert_eq!(g.expand(2).len(), 3 * 9 + 2 * 2 + 4);
}

#[test]
fn koch_pyramid_first_generation() {
    let g = koch_pyramid_rules_object();
    assert_eq!(g.expand(1), chars("-F+F-F-F+F"));
}

#[test]
fn levy_c_curve_generations() {
    let rules = levy_c_curve_rules();
    assert_eq!(rules, vec![('F', "+F--F+".to_string())]);
    let g = levy_rules_object();
    assert_eq!(g.start, vec!['F']);
    assert_eq!(g.expand(2), chars("++F--F+--+F--F++"));
}

#[test]
fn koch_island_first_generation_length() {
    let g = koch_island_rules_object();
    // Four `F` become fourteen symbols each; the three `-` stay.
    assert_eq!(g.expand(1).len(), 4 * 14 + 3);
}
