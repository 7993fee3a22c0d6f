use serde_json::Value;
use symbolab_rs::symbolab::{
    copy_text, copy_texts, copy_values, Dym, PlotInfo, RelatedQuery, SolutionElement,
    SolutionSolution, Step, SymbolabResponse, Text, Title,
};

fn title(text: &str) -> Title {
    Title { text: Some(Text { created_text: Some(text.to_string()) }) }
}

fn full() -> SymbolabResponse {
    SymbolabResponse {
        dym: Some(Dym {
            input_equation: Some("in".to_string()),
            original_equation: None,
            original_text: Some("orig".to_string()),
            out_equation: None,
            out_text: None,
            dym_equation: Some("x".to_string()),
            dym_text: None,
            is_template: Some(false),
            show_did_you_mean: Some(true),
            show_instead: None,
        }),
        dym_alternatives: Some(vec![None, Some(Value::Bool(true)), Some(Value::String("s".to_string()))]),
        related_queries: Some(vec![RelatedQuery {
            command: Some("c".to_string()),
            equation: None,
            origin: Some("o".to_string()),
        }]),
        related_problems: Some(vec!["p1".to_string(), "p2".to_string()]),
        standard_query: Some("sq".to_string()),
        step_lang: Some("en".to_string()),
        is_from_cache: Some(true),
        is_in_notebook: None,
        show_verify: Some(false),
        show_view_larger: None,
        canonical_notebook_query: Some("cq".to_string()),
        subject: Some("Algebra".to_string()),
        topic: None,
        sub_topic: Some("t".to_string()),
        solutions: Some(vec![SolutionElement {
            solution: Some(SolutionSolution {
                api_title: Some(title("api")),
                solution_default: Some("d".to_string()),
            }),
            step_input: Some("si".to_string()),
            entire_result: Some("er".to_string()),
            solving_class: None,
            is_interim_step: Some(false),
            is_open: None,
            is_show_solution_after_step: Some(true),
            title: Some(title("t")),
            steps: Some(vec![Step {
                step_input: Some("a".to_string()),
                entire_result: None,
                is_interim_step: None,
                is_open: Some(true),
                is_show_solution_after_step: None,
                title: None,
                general_rule: Some(title("rule")),
            }]),
            practice_link: None,
            practice_topic: Some("pt".to_string()),
        }]),
        plot_info: Some(PlotInfo {
            variable: Some("x".to_string()),
            lines_to_draw: Some(vec![Some(Value::Null)]),
            fills: None,
            function_changes: Some(Vec::new()),
            graph_calc_input_errors: Some(vec![None]),
            plot_request: Some("PlotOptional".to_string()),
            is_in_cache: Some(false),
        }),
        solution_level: Some("PERFORMED".to_string()),
    }
}

#[test]
fn duplicate_of_a_document_equals_the_document() {
    let doc = full();
    assert_eq!(doc.duplicate(), doc);
    let parts = doc.solutions.as_ref().unwrap();
    assert_eq!(parts[0].duplicate(), parts[0]);
    assert_eq!(doc.plot_info.as_ref().unwrap().duplicate(), doc.plot_info.clone().unwrap());
    assert_eq!(doc.dym.as_ref().unwrap().duplicate(), doc.dym.clone().unwrap());
}

#[test]
fn duplicate_of_an_empty_document_is_empty() {
    let empty = SymbolabResponse {
        dym: None,
        dym_alternatives: None,
        related_queries: None,
        related_problems: None,
        standard_query: None,
        step_lang: None,
        is_from_cache: None,
        is_in_notebook: None,
        show_verify: None,
        show_view_larger: None,
        canonical_notebook_query: None,
        subject: None,
        topic: None,
        sub_topic: None,
        solutions: None,
        plot_info: None,
        solution_level: None,
    };
    assert_eq!(empty.duplicate(), empty);
}

#[test]
fn copies_of_optional_values_keep_what_they_hold() {
    assert_eq!(copy_text(&None), None);
    assert_eq!(copy_text(&Some("a".to_string())), Some("a".to_string()));
    assert_eq!(copy_texts(&None), None);
    assert_eq!(
        copy_texts(&Some(vec!["a".to_string(), "b".to_string()])),
        Some(vec!["a".to_string(), "b".to_string()])
    );
    let values = Some(vec![None, Some(Value::Bool(false)), Some(Value::String("x".to_string()))]);
    assert_eq!(copy_values(&values), values);
    assert_eq!(copy_values(&Some(Vec::new())), Some(Vec::new()));
}

#[test]
fn duplicates_of_the_small_parts_equal_them() {
    let t = title("x");
    assert_eq!(t.duplicate(), t);
    let text = Text { created_text: None };
    assert_eq!(text.duplicate(), text);
    let q = RelatedQuery { command: None, equation: Some("e".to_string()), origin: None };
    assert_eq!(q.duplicate(), q);
    let s = SolutionSolution { api_title: None, solution_default: Some("d".to_string()) };
    assert_eq!(s.duplicate(), s);
}
