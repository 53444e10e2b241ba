use organic_lsp::analyzer::address::{NamedVarAddress, ScopeAddress};
use organic_lsp::analyzer::analysis::{Analysis, AnalysisState};
use organic_lsp::analyzer::analyze;
use organic_lsp::analyzer::builtins::initial_state;
use organic_lsp::analyzer::common::{push_error, resolve_addr, resolve_type};
use organic_lsp::analyzer::expr_analyzer::crawl_function_call;
use organic_lsp::analyzer::function::ParamInfo;
use organic_lsp::analyzer::organic_type::OrganicType;
use organic_lsp::analyzer::statement_analyzer::run;
use organic_lsp::errors::AnalyzerErrorType;
use organic_lsp::lexer::doc_loc::DocLoc;
use organic_lsp::lexer::source_loc::SourceLoc;
use organic_lsp::lexer::token::{Token, TokenType};
use organic_lsp::parser::ast::{FuncCall, Statement, Symbol};

fn name_token(name: &str, pos: u32) -> Token {
    Token {
        token_type: TokenType::Identifier(name.to_string()),
        source_loc: SourceLoc {
            doc_loc: DocLoc::new("file:///a.organic".to_string()),
            pos,
            line: 1,
            column: pos + 1,
            length: name.len() as u32,
        },
    }
}

fn call(name: &str, pos: u32) -> FuncCall {
    FuncCall { func: Symbol { name: name.to_string(), token: name_token(name, pos) }, args: Vec::new() }
}

fn addr(name: &str) -> NamedVarAddress {
    NamedVarAddress { name: name.to_string(), scope_addr: ScopeAddress { n: 0 } }
}

#[test]
fn initial_state_binds_builtins_in_the_first_scope() {
    let (bindings, vars) = initial_state();
    assert_eq!(bindings.len(), 14 + 32 + 210);
    for name in ["pi", "true", "ping-pong", "sine", "all-pass", "time", "af0", "c4", "gs9", "es5"] {
        assert_eq!(bindings.get(name), Some(&addr(name)), "{name}");
        assert!(vars.contains_key(&addr(name)), "{name}");
    }
    for name in ["h1", "a10", "cx4", "sin", ""] {
        assert!(bindings.get(name).is_none(), "{name}");
    }
    assert!(matches!(vars.get(&addr("pi")), Some(OrganicType::Number)));
    assert!(matches!(vars.get(&addr("step")), Some(OrganicType::RandomArg)));
    assert!(matches!(vars.get(&addr("bf3")), Some(OrganicType::Number)));
    match vars.get(&addr("round")) {
        Some(OrganicType::Function(f)) => {
            let names: Vec<&str> = f.params.iter().map(|ParamInfo(n, _, _)| n.as_str()).collect();
            assert_eq!(names, vec!["direction", "step", "value"]);
            let defaults: Vec<bool> = f.params.iter().map(|p| p.2).collect();
            assert_eq!(defaults, vec![true, true, false]);
            assert!(matches!(f.return_type, OrganicType::Number));
        },
        other => panic!("unexpected type {other:?}"),
    }
    match vars.get(&addr("time")) {
        Some(OrganicType::Function(f)) => assert!(f.params.is_empty()),
        other => panic!("unexpected type {other:?}"),
    }
}

#[test]
fn default_analysis_is_empty() {
    let analysis = Analysis::default();
    assert!(analysis.errors.is_empty());
    assert!(!analysis.definitions.contains_key(&addr("sine")));
    assert!(!analysis.usages.contains_key(&addr("sine")));
}

#[test]
fn names_resolve_in_the_first_scope() {
    let state = AnalysisState::default();
    assert_eq!(state.scopes.len(), 1);
    assert_eq!(state.last_scope_addr, ScopeAddress { n: 0 });
    assert_eq!(resolve_addr(&state, "saw"), Some(addr("saw")));
    assert_eq!(resolve_addr(&state, "nothing-here"), None);
    assert!(matches!(resolve_type(&state, &addr("e")), OrganicType::Number));
    assert!(matches!(resolve_type(&state, &addr("true")), OrganicType::Boolean));
}

#[test]
fn push_error_appends() {
    let mut state = AnalysisState::default();
    push_error(&mut state, name_token("x", 0), AnalyzerErrorType::NoSuchVariable);
    push_error(&mut state, name_token("y", 2), AnalyzerErrorType::DuplicateVar);
    assert_eq!(state.analysis.errors.len(), 2);
    assert_eq!(state.analysis.errors[0].offender, name_token("x", 0));
    assert!(matches!(state.analysis.errors[1].typ, AnalyzerErrorType::DuplicateVar));
}

#[test]
fn calling_a_function_records_its_use_and_its_type() {
    let mut state = AnalysisState::default();
    let result = crawl_function_call(&mut state, call("sine", 0));
    assert!(matches!(result, Some(OrganicType::AudioSource)));
    assert!(state.analysis.errors.is_empty());
    assert!(state.analysis.usages.contains_key(&addr("sine")));
    let result = crawl_function_call(&mut state, call("sequence", 10));
    match result {
        Some(OrganicType::List(item)) => assert!(matches!(*item, OrganicType::Number)),
        other => panic!("unexpected type {other:?}"),
    }
}

#[test]
fn calling_an_unknown_name_is_an_error() {
    let mut state = AnalysisState::default();
    let result = crawl_function_call(&mut state, call("warble", 3));
    assert!(result.is_none());
    assert_eq!(state.analysis.errors.len(), 1);
    assert!(matches!(state.analysis.errors[0].typ, AnalyzerErrorType::NoSuchFn));
    assert_eq!(state.analysis.errors[0].offender, name_token("warble", 3));
}

#[test]
fn calling_a_constant_is_a_type_mismatch() {
    let mut state = AnalysisState::default();
    let result = crawl_function_call(&mut state, call("pi", 0));
    assert!(result.is_none());
    assert_eq!(state.analysis.errors.len(), 1);
    match &state.analysis.errors[0].typ {
        AnalyzerErrorType::TypeMismatch { expected: OrganicType::Function(f), got: OrganicType::Number } => {
            assert!(f.params.is_empty());
            assert!(matches!(f.return_type, OrganicType::Unknown));
        },
        other => panic!("unexpected error {other:?}"),
    }
}

#[test]
fn analyze_runs_every_statement_in_order() {
    let statements = vec![
        Statement::FunctionCall(Box::new(call("saw", 0))),
        Statement::FunctionCall(Box::new(call("nope", 10))),
        Statement::FunctionCall(Box::new(call("saw", 20))),
        Statement::FunctionCall(Box::new(call("tau", 30))),
    ];
    let analysis = analyze(statements);
    assert_eq!(analysis.errors.len(), 2);
    assert!(matches!(analysis.errors[0].typ, AnalyzerErrorType::NoSuchFn));
    assert!(matches!(analysis.errors[1].typ, AnalyzerErrorType::TypeMismatch { .. }));
    assert!(analysis.usages.contains_key(&addr("saw")));
    assert!(!analysis.usages.contains_key(&addr("tau")));
    assert!(!analysis.definitions.contains_key(&addr("saw")));
}

#[test]
fn analyzing_nothing_finds_nothing() {
    let analysis = analyze(Vec::new());
    assert!(analysis.errors.is_empty());
    assert!(!analysis.usages.contains_key(&addr("sine")));
}

#[test]
fn run_keeps_earlier_errors() {
    let mut state = AnalysisState::default();
    push_error(&mut state, name_token("x", 0), AnalyzerErrorType::BadInternalState);
    run(&mut state, vec![Statement::FunctionCall(Box::new(call("zzz", 5)))]);
    assert_eq!(state.analysis.errors.len(), 2);
    assert!(matches!(state.analysis.errors[0].typ, AnalyzerErrorType::BadInternalState));
    assert!(matches!(state.analysis.errors[1].typ, AnalyzerErrorType::NoSuchFn));
}

#[test]
fn running_in_two_parts_is_running_the_whole() {
    let calls = || {
        vec![
            Statement::FunctionCall(Box::new(call("x1", 0))),
            Statement::FunctionCall(Box::new(call("e", 3))),
            Statement::FunctionCall(Box::new(call("saw", 6))),
        ]
    };
    let mut whole = AnalysisState::default();
    run(&mut whole, calls());
    let mut parts = AnalysisState::default();
    let mut all = calls();
    let rest = all.split_off(1);
    run(&mut parts, all);
    run(&mut parts, rest);
    assert_eq!(whole.analysis.errors.len(), parts.analysis.errors.len());
    for (a, b) in whole.analysis.errors.iter().zip(parts.analysis.errors.iter()) {
        assert_eq!(a.offender, b.offender);
    }
    assert!(parts.analysis.usages.contains_key(&addr("saw")));
    let mut empty = AnalysisState::default();
    run(&mut empty, Vec::new());
    assert!(empty.analysis.errors.is_empty());
}
