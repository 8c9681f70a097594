use branchy::{
    Error, ErrorKind, ExpanderBuilder, NullExpansionLogger, Rule, Symbol,
    UniformRandomRuleSelector,
};

#[test]
fn alternative_selection_coverage() {
    let rules = vec![
        Rule::new("name", vec![Symbol::Terminal("Susan")]),
        Rule::new("name", vec![Symbol::Terminal("Max")]),
    ];

    let mut expander = ExpanderBuilder::from(rules).build();

    let trials = 400;
    let mut susan_count = 0;
    let mut max_count = 0;
    for _ in 0..trials {
        let result = expander.expand(vec![Symbol::Nonterminal("name")]).unwrap();
        match result[0] {
            "Susan" => susan_count += 1,
            "Max" => max_count += 1,
            other => panic!("unexpected expansion result {}", other),
        }
    }

    assert_eq!(susan_count + max_count, trials);
    // Uniform selection makes each alternative appear close to half the
    // time; these loose bounds fail only with negligible probability.
    assert!(susan_count >= trials / 4);
    assert!(max_count >= trials / 4);
}

#[test]
fn chained_expansion_with_builder() {
    let mut builder = ExpanderBuilder::new().with_max_iterations(19);
    for n in 1..10 {
        let positive = if n + 1 < 10 {
            Symbol::Nonterminal(n + 1)
        } else {
            Symbol::Terminal(n + 1)
        };
        let negative = if n + 1 < 10 {
            Symbol::Nonterminal(-(n + 1))
        } else {
            Symbol::Terminal(-(n + 1))
        };
        builder = builder
            .with_new_rule(n, vec![positive])
            .with_rule(Rule::new(-n, vec![negative]));
    }
    let mut expander = builder.build();

    let result = expander
        .expand(vec![Symbol::Nonterminal(1), Symbol::Nonterminal(-1)])
        .unwrap();

    assert_eq!(result, vec![10, -10]);
}

#[test]
fn empty_replacement_vanishes() {
    let mut expander = ExpanderBuilder::new()
        .with_new_rule("gone", vec![])
        .build();

    let result = expander
        .expand(vec![
            Symbol::Nonterminal("gone"),
            Symbol::Terminal("stays"),
            Symbol::Nonterminal("gone"),
        ])
        .unwrap();

    assert_eq!(result, vec!["stays"]);
}

#[test]
fn with_rules_appends_in_order() {
    let first = vec![Rule::new("greeting", vec![Symbol::Terminal("Have a")])];
    let second = vec![
        Rule::new("adjective", vec![Symbol::Terminal("wonderful")]),
        Rule::new("time_of_day", vec![Symbol::Terminal("afternoon")]),
    ];

    let mut expander = ExpanderBuilder::from(first).with_rules(second).build();

    let result = expander
        .expand(vec![
            Symbol::Nonterminal("greeting"),
            Symbol::Nonterminal("adjective"),
            Symbol::Nonterminal("time_of_day"),
        ])
        .unwrap();

    assert_eq!(result, vec!["Have a", "wonderful", "afternoon"]);
}

#[test]
fn budget_exhaustion_with_builder() {
    let mut expander = ExpanderBuilder::new()
        .with_new_rule(0, vec![Symbol::Nonterminal(0)])
        .with_max_iterations(3)
        .build();

    let result: Result<Vec<i32>, _> = expander.expand(vec![Symbol::Nonterminal(0)]);

    match result {
        Err(Error {
            state,
            kind: ErrorKind::MaxIterationsReached(budget),
        }) => {
            assert_eq!(budget, 3);
            assert_eq!(state, vec![Symbol::Nonterminal(0)]);
        }
        _ => panic!("expected Error with kind MaxIterationsReached(3)"),
    }
}

#[test]
fn leftmost_failure_keeps_state() {
    let mut expander = ExpanderBuilder::new()
        .with_new_rule("known", vec![Symbol::Terminal("ok")])
        .build();

    let result = expander.expand(vec![
        Symbol::Nonterminal("known"),
        Symbol::Nonterminal("unknown"),
        Symbol::Terminal("tail"),
    ]);

    match result {
        Err(Error {
            state,
            kind: ErrorKind::NontermExpansionFailed(value),
        }) => {
            assert_eq!(value, "unknown");
            assert_eq!(
                state,
                vec![
                    Symbol::Terminal("ok"),
                    Symbol::Nonterminal("unknown"),
                    Symbol::Terminal("tail"),
                ]
            );
        }
        _ => panic!("expected Error with kind NontermExpansionFailed(\"unknown\")"),
    }
}

#[test]
fn error_constructors_carry_their_parts() {
    let state = vec![Symbol::<i32, i32>::Nonterminal(5)];
    let error = Error::nonterm_expansion_failed(state.clone(), 5);
    assert_eq!(error.state, state);
    assert!(matches!(error.kind, ErrorKind::NontermExpansionFailed(5)));

    let error = Error::max_iterations_reached(state.clone(), 64);
    assert_eq!(error.state, state);
    assert!(matches!(error.kind, ErrorKind::MaxIterationsReached(64)));
}

#[test]
fn symbol_accessors() {
    let nonterm: Symbol<&str, &str> = Symbol::Nonterminal("category");
    let term: Symbol<&str, &str> = Symbol::Terminal("word");

    assert!(nonterm.is_nonterminal());
    assert!(!nonterm.is_terminal());
    assert!(term.is_terminal());
    assert!(!term.is_nonterminal());

    assert_eq!(nonterm.unwrap_nonterm(), "category");
    assert_eq!(term.unwrap_term(), "word");
    assert_eq!(nonterm.expect_nonterm("a non-terminal"), "category");
    assert_eq!(term.expect_term("a terminal"), "word");
}

#[test]
fn string_valued_grammar() {
    let rules = vec![Rule::new(
        String::from("greeting"),
        vec![Symbol::Terminal(String::from("hello"))],
    )];

    let mut expander = ExpanderBuilder::from(rules)
        .with_rule_selector(UniformRandomRuleSelector::new())
        .with_logger(NullExpansionLogger)
        .build();

    let result = expander
        .expand(vec![
            Symbol::Nonterminal(String::from("greeting")),
            Symbol::Terminal(String::from("world")),
        ])
        .unwrap();

    assert_eq!(result, vec![String::from("hello"), String::from("world")]);
}
