use symbolab_rs::cache::{CacheKey, ResponseCache};
use symbolab_rs::entry::{Data, ImageSet, Solution};
use symbolab_rs::error::{Error, Failure};
use symbolab_rs::orchestrator::{Action, Event, Request};
use symbolab_rs::plan::{assemble, find_failure, has_jobs, plan, Outcome, Position, RenderJob};
use symbolab_rs::symbolab::{SolutionElement, Step, SymbolabResponse};

fn blank() -> SymbolabResponse {
    SymbolabResponse {
        dym: None,
        dym_alternatives: None,
        related_queries: None,
        related_problems: None,
        standard_query: None,
        step_lang: None,
        is_from_cache: None,
        is_in_notebook: None,
        show_verify: None,
        show_view_larger: None,
        canonical_notebook_query: None,
        subject: None,
        topic: None,
        sub_topic: None,
        solutions: None,
        plot_info: None,
        solution_level: None,
    }
}

fn solution(step_input: Option<&str>, entire_result: Option<&str>) -> SolutionElement {
    SolutionElement {
        solution: None,
        step_input: step_input.map(|s| s.to_string()),
        entire_result: entire_result.map(|s| s.to_string()),
        solving_class: None,
        is_interim_step: None,
        is_open: None,
        is_show_solution_after_step: None,
        title: None,
        steps: None,
        practice_link: None,
        practice_topic: None,
    }
}

fn document() -> SymbolabResponse {
    let mut doc = blank();
    doc.canonical_notebook_query = Some("\u{03c0}".to_string());
    doc.standard_query = Some("2\u{03c0}".to_string());
    doc.solutions = Some(vec![
        solution(Some("x+1"), Some("x=\u{221e}")),
        solution(None, Some("y")),
        solution(Some("z"), None),
    ]);
    doc
}

fn image(tag: &str) -> ImageSet {
    ImageSet { svg: None, webp: Some(format!("data:{}", tag)) }
}

fn rendered(job: &RenderJob) -> ImageSet {
    image(&job.latex)
}

fn key(query: &str) -> CacheKey {
    CacheKey::new(query.to_string(), None, None)
}

fn failure(detail: &str) -> Error {
    Error::new(Failure::Renderer, detail.to_string())
}

fn job(position: Position, latex: &str) -> RenderJob {
    RenderJob { position, latex: latex.to_string() }
}

/// Drives one request to its end against `cache`, with a renderer that
/// fails on the jobs whose text is in `failing`.
fn handle(cache: &mut ResponseCache, query: &str, doc: SymbolabResponse, failing: &[&str]) -> Result<Data, Error> {
    let request = Request::new(key(query));
    let found = cache.get(request.key());
    let (mut request, mut action) = request.step(Event::CacheAnswer(found));
    loop {
        let event = match action {
            Action::AcquireToken => Event::Token(Ok("token".to_string())),
            Action::Solve { token, query: asked } => {
                assert_eq!(token, "token");
                assert_eq!(asked, query);
                Event::Document(Ok(doc.clone()))
            }
            Action::Render { jobs, foreground, background } => {
                assert_eq!(foreground, "#000000ff");
                assert_eq!(background, "#00000000");
                Event::Rendered(
                    jobs.iter()
                        .map(|j| {
                            if failing.contains(&j.latex.as_str()) {
                                Err(failure(&j.latex))
                            } else {
                                Ok(rendered(j))
                            }
                        })
                        .collect(),
                )
            }
            Action::Reply { data, store } => {
                assert!(request.is_finished());
                if let Some(stored) = store {
                    cache.put(stored.key, stored.data);
                }
                return Ok(data);
            }
            Action::Fail(e) => {
                assert!(request.is_finished());
                return Err(e);
            }
        };
        let next = request.step(event);
        request = next.0;
        action = next.1;
    }
}

#[test]
fn jobs_stand_in_the_order_of_precedence() {
    let jobs = plan(&document());
    assert_eq!(
        jobs,
        vec![
            job(Position::StepInput(0), "x+1"),
            job(Position::EntireResult(0), "x=\\infty "),
            job(Position::EntireResult(1), "y"),
            job(Position::StepInput(2), "z"),
            job(Position::Canonical, "\\pi "),
            job(Position::Standard, "2\\pi "),
        ]
    );
}

#[test]
fn canonical_pi_is_rendered_as_its_macro() {
    let mut doc = blank();
    doc.canonical_notebook_query = Some("\u{03c0}".to_string());
    assert_eq!(plan(&doc), vec![job(Position::Canonical, "\\pi ")]);
}

#[test]
fn absent_expressions_have_no_job() {
    assert_eq!(plan(&blank()), Vec::new());
    let mut doc = blank();
    doc.solutions = Some(vec![solution(None, None), solution(None, None)]);
    assert_eq!(plan(&doc), Vec::new());
    doc.standard_query = Some("s".to_string());
    assert_eq!(plan(&doc), vec![job(Position::Standard, "s")]);
}

#[test]
fn steps_nested_in_a_solution_are_not_rendered() {
    let mut doc = blank();
    let mut outer = solution(Some("outer"), None);
    outer.steps = Some(vec![Step {
        step_input: Some("inner".to_string()),
        entire_result: Some("inner result".to_string()),
        is_interim_step: None,
        is_open: None,
        is_show_solution_after_step: None,
        title: None,
        general_rule: None,
    }]);
    doc.solutions = Some(vec![outer]);
    assert_eq!(plan(&doc), vec![job(Position::StepInput(0), "outer")]);
}

#[test]
fn has_jobs_counts_the_expressions_that_are_there() {
    let doc = document();
    assert!(has_jobs(&doc, 6));
    assert!(!has_jobs(&doc, 5));
    assert!(!has_jobs(&doc, 7));
    assert!(!has_jobs(&doc, 0));
    assert!(has_jobs(&blank(), 0));
    assert!(!has_jobs(&blank(), 1));
}

#[test]
fn images_are_put_at_the_places_of_their_expressions() {
    let doc = document();
    let outcomes: Vec<Outcome> = plan(&doc).iter().map(|j| Ok(rendered(j))).collect();
    let data = assemble(doc.clone(), &outcomes).unwrap();
    assert!(!data.cached);
    assert_eq!(data.symbolab, doc);
    assert_eq!(data.canonical_notebook_query, Some(image("\\pi ")));
    assert_eq!(data.standard_query, Some(image("2\\pi ")));
    assert_eq!(
        data.solutions,
        vec![
            Solution { step_input: Some(image("x+1")), entire_result: Some(image("x=\\infty ")) },
            Solution { step_input: None, entire_result: Some(image("y")) },
            Solution { step_input: Some(image("z")), entire_result: None },
        ]
    );
}

#[test]
fn document_without_expressions_is_assembled_without_images() {
    let mut doc = blank();
    doc.solutions = Some(vec![solution(None, None)]);
    let data = assemble(doc.clone(), &Vec::new()).unwrap();
    assert_eq!(data.canonical_notebook_query, None);
    assert_eq!(data.standard_query, None);
    assert_eq!(data.solutions, vec![Solution { step_input: None, entire_result: None }]);
    let data = assemble(blank(), &Vec::new()).unwrap();
    assert_eq!(data.solutions, Vec::new());
}

#[test]
fn first_failure_in_the_order_of_the_jobs_is_the_failure_of_the_whole() {
    let doc = document();
    let mut outcomes: Vec<Outcome> = plan(&doc).iter().map(|j| Ok(rendered(j))).collect();
    outcomes[4] = Err(failure("canonical"));
    outcomes[2] = Err(failure("second solution"));
    assert_eq!(find_failure(&outcomes), Some(failure("second solution")));
    assert_eq!(assemble(doc.clone(), &outcomes), Err(failure("second solution")));
    outcomes[2] = Ok(image("y"));
    assert_eq!(assemble(doc, &outcomes), Err(failure("canonical")));
}

#[test]
fn outcomes_that_do_not_match_the_jobs_are_refused() {
    let doc = document();
    let mut outcomes: Vec<Outcome> = plan(&doc).iter().map(|j| Ok(rendered(j))).collect();
    outcomes.pop();
    let e = assemble(doc.clone(), &outcomes).unwrap_err();
    assert_eq!(e.kind, Failure::OutOfTurn);
    assert_eq!(e.detail, "event out of turn");
    outcomes.push(Err(failure("late")));
    outcomes.push(Ok(image("extra")));
    let e = assemble(doc, &outcomes).unwrap_err();
    assert_eq!(e.kind, Failure::OutOfTurn);
}

#[test]
fn find_failure_finds_none_among_successes() {
    assert_eq!(find_failure(&Vec::new()), None);
    assert_eq!(find_failure(&vec![Ok(image("a")), Ok(image("b"))]), None);
}

#[test]
fn miss_goes_through_token_document_and_rendering() {
    let request = Request::new(CacheKey::new(
        "x^2".to_string(),
        Some("red".to_string()),
        Some("#ffffffff".to_string()),
    ));
    assert!(!request.is_finished());
    assert_eq!(request.key().query(), "x^2");
    let (request, action) = request.step(Event::CacheAnswer(None));
    assert_eq!(action, Action::AcquireToken);
    let (request, action) = request.step(Event::Token(Ok("tok".to_string())));
    assert_eq!(action, Action::Solve { token: "tok".to_string(), query: "x^2".to_string() });
    let (request, action) = request.step(Event::Document(Ok(document())));
    assert_eq!(
        action,
        Action::Render {
            jobs: plan(&document()),
            foreground: "red".to_string(),
            background: "#ffffffff".to_string(),
        }
    );
    assert!(!request.is_finished());
    let outcomes: Vec<Outcome> = plan(&document()).iter().map(|j| Ok(rendered(j))).collect();
    let expected = assemble(document(), &outcomes).unwrap();
    let (request, action) = request.step(Event::Rendered(outcomes));
    assert!(request.is_finished());
    match action {
        Action::Reply { data, store } => {
            assert_eq!(data, expected);
            assert!(!data.cached);
            let stored = store.unwrap();
            assert!(stored.key.same(request.key()));
            assert!(stored.data.cached);
            assert_eq!(stored.data, expected.cached_copy());
        }
        other => panic!("{:?}", other),
    }
}

#[test]
fn hit_is_the_reply_and_nothing_is_stored() {
    let mut stored = assemble(blank(), &Vec::new()).unwrap();
    stored.cached = false;
    let (request, action) = Request::new(key("q")).step(Event::CacheAnswer(Some(stored.clone())));
    assert!(request.is_finished());
    assert_eq!(action, Action::Reply { data: stored.cached_copy(), store: None });
}

#[test]
fn second_call_is_served_from_the_cache() {
    let mut cache = ResponseCache::new();
    let first = handle(&mut cache, "x^2", document(), &[]).unwrap();
    assert!(!first.cached);
    assert_eq!(cache.len(), 1);
    let mut other = blank();
    other.subject = Some("changed upstream".to_string());
    let second = handle(&mut cache, "x^2", other, &["\\pi "]).unwrap();
    assert!(second.cached);
    assert_eq!(second, first.cached_copy());
    assert_eq!(cache.len(), 1);
    let third = handle(&mut cache, "x^2", blank(), &[]).unwrap();
    assert_eq!(third, second);
}

#[test]
fn one_failed_job_fails_the_request_and_stores_nothing() {
    let mut cache = ResponseCache::new();
    let result = handle(&mut cache, "x^2", document(), &["y"]);
    assert_eq!(result, Err(failure("y")));
    assert_eq!(cache.len(), 0);
    assert_eq!(cache.get(&key("x^2")), None);
    let again = handle(&mut cache, "x^2", document(), &[]).unwrap();
    assert!(!again.cached);
    assert_eq!(cache.len(), 1);
}

#[test]
fn failed_token_fails_the_request() {
    let (request, _) = Request::new(key("q")).step(Event::CacheAnswer(None));
    let e = Error::new(Failure::TokenUnavailable, "pool gone".to_string());
    let (request, action) = request.step(Event::Token(Err(e.clone())));
    assert!(request.is_finished());
    assert_eq!(action, Action::Fail(e));
}

#[test]
fn failed_upstream_call_fails_the_request() {
    let (request, _) = Request::new(key("q")).step(Event::CacheAnswer(None));
    let (request, _) = request.step(Event::Token(Ok("t".to_string())));
    let e = Error::new(Failure::Upstream, "bad gateway".to_string());
    let (request, action) = request.step(Event::Document(Err(e.clone())));
    assert!(request.is_finished());
    assert_eq!(action, Action::Fail(e));
}

#[test]
fn event_out_of_turn_fails_the_request() {
    let out_of_turn = Error::new(Failure::OutOfTurn, "event out of turn".to_string());
    let (request, action) = Request::new(key("q")).step(Event::Token(Ok("t".to_string())));
    assert!(request.is_finished());
    assert_eq!(action, Action::Fail(out_of_turn.clone()));
    let (request, action) = request.step(Event::CacheAnswer(None));
    assert!(request.is_finished());
    assert_eq!(action, Action::Fail(out_of_turn.clone()));
    let (request, _) = Request::new(key("q")).step(Event::CacheAnswer(None));
    let (_, action) = request.step(Event::Rendered(Vec::new()));
    assert_eq!(action, Action::Fail(out_of_turn.clone()));
    let (request, _) = Request::new(key("q")).step(Event::CacheAnswer(None));
    let (request, _) = request.step(Event::Token(Ok("t".to_string())));
    let (_, action) = request.step(Event::CacheAnswer(None));
    assert_eq!(action, Action::Fail(out_of_turn));
}

#[test]
fn two_misses_side_by_side_leave_one_answer() {
    let mut cache = ResponseCache::new();
    let mut doc_a = document();
    doc_a.subject = Some("a".to_string());
    let mut doc_b = document();
    doc_b.subject = Some("b".to_string());
    let mut replies = Vec::new();
    let mut writes = Vec::new();
    for doc in [doc_a, doc_b] {
        let request = Request::new(key("new"));
        let (request, _) = request.step(Event::CacheAnswer(cache.get(&key("new"))));
        let (request, _) = request.step(Event::Token(Ok("t".to_string())));
        let (request, action) = request.step(Event::Document(Ok(doc)));
        let outcomes = match action {
            Action::Render { jobs, .. } => jobs.iter().map(|j| Ok(rendered(j))).collect(),
            other => panic!("{:?}", other),
        };
        match request.step(Event::Rendered(outcomes)).1 {
            Action::Reply { data, store } => {
                replies.push(data);
                writes.push(store.unwrap());
            }
            other => panic!("{:?}", other),
        }
    }
    assert_eq!(replies.len(), 2);
    assert!(!replies[0].cached && !replies[1].cached);
    for stored in writes {
        cache.put(stored.key, stored.data);
    }
    assert_eq!(cache.len(), 1);
    assert_eq!(cache.get(&key("new")), Some(replies[1].cached_copy()));
}
