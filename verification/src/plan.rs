//! Which expressions of an upstream document are rendered, and how the
//! rendered images are put back in their places.

use crate::entry::{Data, DataView, ImageSet, Solution};
use crate::error::{Error, ErrorView, Failure};
use crate::glyphs::{substitute, substituted};
use crate::symbolab::{solution_views, SolutionElementView, SymbolabResponse, SymbolabResponseView};
use vstd::prelude::*;

verus! {

/// The place of one expression in the document.
#[derive(Clone, Copy, Debug, PartialEq, Eq, Structural)]
pub enum Position {
    /// The step input of the solution with this index.
    StepInput(usize),
    /// The entire result of the solution with this index.
    EntireResult(usize),
    /// The canonical form of the query.
    Canonical,
    /// The standard form of the query.
    Standard,
}

/// One call of the renderer: the place of the expression and its text, glyphs
/// already replaced.
#[derive(Clone, Debug, PartialEq)]
pub struct RenderJob {
    pub position: Position,
    pub latex: String,
}

pub ghost struct RenderJobView {
    pub position: Position,
    pub latex: Seq<char>,
}

impl View for RenderJob {
    type V = RenderJobView;

    open spec fn view(&self) -> RenderJobView {
        RenderJobView { position: self.position, latex: self.latex@ }
    }
}

/// The views of a sequence of jobs, position by position.
pub open spec fn job_views(jobs: Seq<RenderJob>) -> Seq<RenderJobView> {
    Seq::new(jobs.len(), |i: int| jobs[i]@)
}

/// What the renderer made of one job.
pub type Outcome = Result<ImageSet, Error>;

/// 1 where the expression is there, 0 where it is absent.
pub open spec fn present(expression: Option<String>) -> nat {
    if expression is Some {
        1
    } else {
        0
    }
}

/// The job for one expression: none where the expression is absent.
pub open spec fn job_of(position: Position, expression: Option<String>) -> Seq<RenderJobView> {
    match expression {
        Some(text) => seq![RenderJobView { position, latex: substituted(text@) }],
        None => Seq::empty(),
    }
}

/// The solutions of a document; none where the document has no list of them.
pub open spec fn solutions_of(doc: SymbolabResponseView) -> Seq<SolutionElementView> {
    match doc.solutions {
        Some(list) => list,
        None => Seq::empty(),
    }
}

/// The jobs for the first `n` solutions: for each in turn its step input,
/// then its entire result.
pub open spec fn solution_jobs(solutions: Seq<SolutionElementView>, n: nat) -> Seq<RenderJobView>
    decreases n,
{
    if n == 0 {
        Seq::empty()
    } else {
        let i = (n - 1) as int;
        solution_jobs(solutions, (n - 1) as nat) + job_of(
            Position::StepInput(i as usize),
            solutions[i].step_input,
        ) + job_of(Position::EntireResult(i as usize), solutions[i].entire_result)
    }
}

/// Every job of a document, in the order in which a failure takes
/// precedence: the solutions in turn, then the canonical and the standard
/// form of the query. Only the solutions themselves are read, not the steps
/// nested in them.
pub open spec fn jobs(doc: SymbolabResponseView) -> Seq<RenderJobView> {
    let solutions = solutions_of(doc);
    solution_jobs(solutions, solutions.len()) + job_of(
        Position::Canonical,
        doc.canonical_notebook_query,
    ) + job_of(Position::Standard, doc.standard_query)
}

/// The image of one expression: absent where the expression is, else the
/// image that the outcome at `at` holds.
pub open spec fn image_for(expression: Option<String>, outcomes: Seq<Outcome>, at: int) -> Option<
    ImageSet,
> {
    if expression is Some {
        Some(outcomes[at]->Ok_0)
    } else {
        None
    }
}

/// The images of the solution with index `i`.
pub open spec fn solution_at(
    solutions: Seq<SolutionElementView>,
    outcomes: Seq<Outcome>,
    i: int,
) -> Solution {
    let at = solution_jobs(solutions, i as nat).len() as int;
    Solution {
        step_input: image_for(solutions[i].step_input, outcomes, at),
        entire_result: image_for(
            solutions[i].entire_result,
            outcomes,
            at + present(solutions[i].step_input),
        ),
    }
}

/// The answer made of a document and the outcomes of its jobs, each image at
/// the place of its expression. It is fresh: not marked as cached.
pub open spec fn assembled(doc: SymbolabResponseView, outcomes: Seq<Outcome>) -> DataView {
    let solutions = solutions_of(doc);
    let at = solution_jobs(solutions, solutions.len()).len() as int;
    DataView {
        symbolab: doc,
        cached: false,
        canonical_notebook_query: image_for(doc.canonical_notebook_query, outcomes, at),
        standard_query: image_for(
            doc.standard_query,
            outcomes,
            at + present(doc.canonical_notebook_query),
        ),
        solutions: Seq::new(solutions.len(), |i: int| solution_at(solutions, outcomes, i)),
    }
}

/// The failure of the first outcome that is one.
pub open spec fn first_error(outcomes: Seq<Outcome>) -> Option<Error>
    decreases outcomes.len(),
{
    if outcomes.len() == 0 {
        None
    } else if outcomes[0] is Err {
        Some(outcomes[0]->Err_0)
    } else {
        first_error(outcomes.drop_first())
    }
}

/// The failure of a request that was handed something it was not waiting
/// for.
pub open spec fn out_of_turn() -> ErrorView {
    ErrorView { kind: Failure::OutOfTurn, detail: "event out of turn"@ }
}

/// What a document and the outcomes of its jobs come to: a failure where
/// there is not one outcome for each job, else the first failure among the
/// outcomes, else the assembled answer.
pub open spec fn assemble_spec(doc: SymbolabResponseView, outcomes: Seq<Outcome>) -> Result<
    DataView,
    ErrorView,
> {
    if outcomes.len() != jobs(doc).len() {
        Err(out_of_turn())
    } else {
        match first_error(outcomes) {
            Some(e) => Err(e@),
            None => Ok(assembled(doc, outcomes)),
        }
    }
}

/// More solutions never give fewer jobs.
pub proof fn lemma_jobs_grow(solutions: Seq<SolutionElementView>, i: nat, j: nat)
    requires
        i <= j,
    ensures
        solution_jobs(solutions, i).len() <= solution_jobs(solutions, j).len(),
    decreases j,
{
    if i < j {
        lemma_jobs_grow(solutions, i, (j - 1) as nat);
    }
}

/// The jobs of one more solution are one for each of its two expressions
/// that is there, and they are among the jobs of the whole document.
pub proof fn lemma_jobs_step(doc: SymbolabResponseView, i: nat)
    requires
        i < solutions_of(doc).len(),
    ensures
        solution_jobs(solutions_of(doc), i + 1).len() == solution_jobs(solutions_of(doc), i).len()
            + present(solutions_of(doc)[i as int].step_input) + present(
            solutions_of(doc)[i as int].entire_result,
        ),
        solution_jobs(solutions_of(doc), i + 1).len() <= jobs(doc).len(),
{
    let solutions = solutions_of(doc);
    lemma_jobs_grow(solutions, i + 1, solutions.len());
    assert(solution_jobs(solutions, i + 1) == solution_jobs(solutions, i) + job_of(
        Position::StepInput(i as usize),
        solutions[i as int].step_input,
    ) + job_of(Position::EntireResult(i as usize), solutions[i as int].entire_result));
}

/// Where no outcome before `i` is a failure, the first failure is that of
/// `i` if it is one, and there is none if `i` is the end.
pub proof fn lemma_first_error(outcomes: Seq<Outcome>, i: int)
    requires
        0 <= i <= outcomes.len(),
        forall|j: int| 0 <= j < i ==> outcomes[j] is Ok,
        i < outcomes.len() ==> outcomes[i] is Err,
    ensures
        first_error(outcomes) == if i < outcomes.len() {
            Some(outcomes[i]->Err_0)
        } else {
            None::<Error>
        },
    decreases i,
{
    if outcomes.len() == 0 {
    } else if i == 0 {
    } else {
        let rest = outcomes.drop_first();
        assert forall|j: int| 0 <= j < i - 1 implies rest[j] is Ok by {
            assert(rest[j] == outcomes[j + 1]);
        }
        lemma_first_error(rest, i - 1);
    }
}

/// Where some outcome is a failure, there is a first failure.
pub proof fn lemma_some_error(outcomes: Seq<Outcome>, failed: int)
    requires
        0 <= failed < outcomes.len(),
        outcomes[failed] is Err,
    ensures
        first_error(outcomes) is Some,
    decreases failed,
{
    if outcomes[0] is Ok {
        let rest = outcomes.drop_first();
        assert(rest[failed - 1] == outcomes[failed]);
        lemma_some_error(rest, failed - 1);
    }
}

/// Adds the job for one expression, if the expression is there.
fn push_job(list: &mut Vec<RenderJob>, position: Position, expression: &Option<String>)
    ensures
        job_views(final(list)@) == job_views(old(list)@) + job_of(position, *expression),
{
    match expression {
        Some(text) => {
            let latex = substitute(text.as_str());
            list.push(RenderJob { position, latex });
            assert(job_views(list@) =~= job_views(old(list)@) + job_of(position, *expression));
        },
        None => {
            assert(job_views(list@) =~= job_views(old(list)@) + job_of(position, *expression));
        },
    }
}

/// The jobs of a document: one for each expression that is there, none for
/// one that is absent.
pub fn plan(doc: &SymbolabResponse) -> (list: Vec<RenderJob>)
    ensures
        job_views(list@) == jobs(doc@),
{
    let mut list: Vec<RenderJob> = Vec::new();
    assert(job_views(list@) =~= Seq::<RenderJobView>::empty());
    match &doc.solutions {
        Some(items) => {
            let ghost solutions = solution_views(items@);
            let mut i: usize = 0;
            while i < items.len()
                invariant
                    i <= items.len(),
                    solutions == solution_views(items@),
                    job_views(list@) == solution_jobs(solutions, i as nat),
                decreases items.len() - i,
            {
                push_job(&mut list, Position::StepInput(i), &items[i].step_input);
                push_job(&mut list, Position::EntireResult(i), &items[i].entire_result);
                i += 1;
            }
        },
        None => {},
    }
    push_job(&mut list, Position::Canonical, &doc.canonical_notebook_query);
    push_job(&mut list, Position::Standard, &doc.standard_query);
    list
}

/// Moves a cursor over the outcomes past one expression, if the outcomes
/// reach that far.
fn advance(cursor: usize, limit: usize, expression: &Option<String>) -> (next: Option<usize>)
    requires
        cursor <= limit,
    ensures
        match next {
            Some(n) => n == cursor + present(*expression) && n <= limit,
            None => cursor + present(*expression) > limit,
        },
{
    if expression.is_some() {
        if cursor < limit {
            Some(cursor + 1)
        } else {
            None
        }
    } else {
        Some(cursor)
    }
}

/// Whether a document has exactly `count` jobs.
pub fn has_jobs(doc: &SymbolabResponse, count: usize) -> (ok: bool)
    ensures
        ok == (jobs(doc@).len() == count),
{
    let ghost solutions = solutions_of(doc@);
    let mut cursor: usize = 0;
    match &doc.solutions {
        Some(items) => {
            let mut i: usize = 0;
            while i < items.len()
                invariant
                    i <= items.len(),
                    solutions == solution_views(items@),
                    solutions == solutions_of(doc@),
                    cursor == solution_jobs(solutions, i as nat).len(),
                    cursor <= count,
                decreases items.len() - i,
            {
                proof {
                    lemma_jobs_step(doc@, i as nat);
                    assert(solutions[i as int] == items@[i as int]@);
                }
                match advance(cursor, count, &items[i].step_input) {
                    Some(next) => {
                        cursor = next;
                    },
                    None => {
                        return false;
                    },
                }
                match advance(cursor, count, &items[i].entire_result) {
                    Some(next) => {
                        cursor = next;
                    },
                    None => {
                        return false;
                    },
                }
                i += 1;
            }
        },
        None => {},
    }
    match advance(cursor, count, &doc.canonical_notebook_query) {
        Some(next) => {
            cursor = next;
        },
        None => {
            return false;
        },
    }
    match advance(cursor, count, &doc.standard_query) {
        Some(next) => {
            cursor = next;
        },
        None => {
            return false;
        },
    }
    cursor == count
}

/// The first failure among the outcomes, if there is one.
pub fn find_failure(outcomes: &Vec<Outcome>) -> (found: Option<Error>)
    ensures
        found == first_error(outcomes@),
        found is None <==> forall|j: int| 0 <= j < outcomes@.len() ==> outcomes@[j] is Ok,
{
    let mut i: usize = 0;
    while i < outcomes.len()
        invariant
            i <= outcomes.len(),
            forall|j: int| 0 <= j < i ==> outcomes@[j] is Ok,
        decreases outcomes.len() - i,
    {
        match &outcomes[i] {
            Err(e) => {
                proof {
                    lemma_first_error(outcomes@, i as int);
                }
                return Some(e.duplicate());
            },
            Ok(_) => {},
        }
        i += 1;
    }
    proof {
        lemma_first_error(outcomes@, outcomes@.len() as int);
    }
    None
}

/// The image for one expression, copied out of the outcomes.
fn pick(expression: &Option<String>, outcomes: &Vec<Outcome>, at: usize) -> (image: Option<ImageSet>)
    requires
        expression is Some ==> at < outcomes@.len() && outcomes@[at as int] is Ok,
    ensures
        image == image_for(*expression, outcomes@, at as int),
{
    if expression.is_some() {
        match &outcomes[at] {
            Ok(set) => Some(set.duplicate()),
            Err(_) => None,
        }
    } else {
        None
    }
}

/// Puts each rendered image at the place of its expression. The outcomes
/// come in the order of the document's jobs. There must be one for each job,
/// and the first failure among them, if there is one, is the failure of the
/// whole.
pub fn assemble(doc: SymbolabResponse, outcomes: &Vec<Outcome>) -> (result: Result<Data, Error>)
    ensures
        match result {
            Ok(data) => assemble_spec(doc@, outcomes@) == Ok::<DataView, ErrorView>(data@),
            Err(e) => assemble_spec(doc@, outcomes@) == Err::<DataView, ErrorView>(e@),
        },
{
    if !has_jobs(&doc, outcomes.len()) {
        return Err(Error::new(Failure::OutOfTurn, String::from_str("event out of turn")));
    }
    match find_failure(outcomes) {
        Some(e) => {
            return Err(e);
        },
        None => {},
    }
    let ghost solutions = solutions_of(doc@);
    assert(outcomes@.len() == outcomes.len());
    let mut cursor: usize = 0;
    let mut images: Vec<Solution> = Vec::new();
    match &doc.solutions {
        Some(items) => {
            let mut i: usize = 0;
            while i < items.len()
                invariant
                    i <= items.len(),
                    solutions == solution_views(items@),
                    solutions == solutions_of(doc@),
                    jobs(doc@).len() == outcomes@.len(),
                    outcomes@.len() <= usize::MAX,
                    forall|j: int| 0 <= j < outcomes@.len() ==> outcomes@[j] is Ok,
                    cursor == solution_jobs(solutions, i as nat).len(),
                    images@ == Seq::new(i as nat, |k: int| solution_at(solutions, outcomes@, k)),
                decreases items.len() - i,
            {
                proof {
                    lemma_jobs_step(doc@, i as nat);
                    assert(solutions[i as int] == items@[i as int]@);
                    assert(solutions[i as int].step_input == items@[i as int].step_input);
                    assert(solutions[i as int].entire_result == items@[i as int].entire_result);
                    assert(cursor + present(items@[i as int].step_input) + present(
                        items@[i as int].entire_result,
                    ) <= outcomes@.len());
                }
                let step_input = pick(&items[i].step_input, outcomes, cursor);
                if items[i].step_input.is_some() {
                    cursor += 1;
                }
                let entire_result = pick(&items[i].entire_result, outcomes, cursor);
                if items[i].entire_result.is_some() {
                    cursor += 1;
                }
                images.push(Solution { step_input, entire_result });
                assert(images@ =~= Seq::new(
                    (i + 1) as nat,
                    |k: int| solution_at(solutions, outcomes@, k),
                ));
                i += 1;
            }
        },
        None => {
            assert(images@ =~= Seq::new(0, |k: int| solution_at(solutions, outcomes@, k)));
        },
    }
    let canonical_notebook_query = pick(&doc.canonical_notebook_query, outcomes, cursor);
    if doc.canonical_notebook_query.is_some() {
        cursor += 1;
    }
    let standard_query = pick(&doc.standard_query, outcomes, cursor);
    Ok(Data { symbolab: doc, cached: false, canonical_notebook_query, standard_query, solutions: images })
}

} // verus!
