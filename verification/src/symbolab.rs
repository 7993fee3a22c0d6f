//! The document that the upstream solver returns, field by field.
//!
//! Types that hold a list have a view in which the list is a sequence; the
//! others are compared as they stand. Each type can be duplicated, and the
//! duplicate has the same view.

use serde_json::Value;
use vstd::prelude::*;

verus! {

/// A JSON value that this library carries through without reading it.
#[verifier::external_type_specification]
#[verifier::external_body]
pub struct ExValue(serde_json::Value);

/// `serde_json::Value::clone` returns a value equal to the one it was given.
pub assume_specification[ <serde_json::Value as Clone>::clone ](value: &Value) -> (out: Value)
    ensures
        out == *value,
;

/// What an optional list holds, as an optional sequence.
pub open spec fn opt_seq<T>(list: Option<Vec<T>>) -> Option<Seq<T>> {
    match list {
        Some(items) => Some(items@),
        None => None,
    }
}

/// The views of the solutions in an optional list.
pub open spec fn opt_solutions(list: Option<Vec<SolutionElement>>) -> Option<
    Seq<SolutionElementView>,
> {
    match list {
        Some(items) => Some(solution_views(items@)),
        None => None,
    }
}

/// The views of a sequence of solutions, position by position.
pub open spec fn solution_views(items: Seq<SolutionElement>) -> Seq<SolutionElementView> {
    Seq::new(items.len(), |i: int| items[i]@)
}

pub fn copy_text(text: &Option<String>) -> (out: Option<String>)
    ensures
        out == *text,
{
    match text {
        Some(s) => Some(s.clone()),
        None => None,
    }
}

pub fn copy_texts(list: &Option<Vec<String>>) -> (out: Option<Vec<String>>)
    ensures
        opt_seq(out) == opt_seq(*list),
{
    match list {
        Some(items) => {
            let mut out: Vec<String> = Vec::new();
            let mut i: usize = 0;
            while i < items.len()
                invariant
                    i <= items.len(),
                    out@ == items@.subrange(0, i as int),
                decreases items.len() - i,
            {
                out.push(items[i].clone());
                assert(out@ =~= items@.subrange(0, i + 1));
                i += 1;
            }
            assert(out@ =~= items@);
            Some(out)
        },
        None => None,
    }
}

pub fn copy_values(list: &Option<Vec<Option<Value>>>) -> (out: Option<Vec<Option<Value>>>)
    ensures
        opt_seq(out) == opt_seq(*list),
{
    match list {
        Some(items) => {
            let mut out: Vec<Option<Value>> = Vec::new();
            let mut i: usize = 0;
            while i < items.len()
                invariant
                    i <= items.len(),
                    out@ == items@.subrange(0, i as int),
                decreases items.len() - i,
            {
                let item = match &items[i] {
                    Some(value) => Some(value.clone()),
                    None => None,
                };
                out.push(item);
                assert(out@ =~= items@.subrange(0, i + 1));
                i += 1;
            }
            assert(out@ =~= items@);
            Some(out)
        },
        None => None,
    }
}

#[derive(Clone, Debug, PartialEq)]
pub struct Text {
    pub created_text: Option<String>,
}

impl Text {
    pub fn duplicate(&self) -> (out: Text)
        ensures
            out == *self,
    {
        Text { created_text: copy_text(&self.created_text) }
    }
}

#[derive(Clone, Debug, PartialEq)]
pub struct Title {
    pub text: Option<Text>,
}

impl Title {
    pub fn duplicate(&self) -> (out: Title)
        ensures
            out == *self,
    {
        Title {
            text: match &self.text {
                Some(t) => Some(t.duplicate()),
                None => None,
            },
        }
    }
}

pub fn copy_title(title: &Option<Title>) -> (out: Option<Title>)
    ensures
        out == *title,
{
    match title {
        Some(t) => Some(t.duplicate()),
        None => None,
    }
}

#[derive(Clone, Debug, PartialEq)]
pub struct Dym {
    pub input_equation: Option<String>,
    pub original_equation: Option<String>,
    pub original_text: Option<String>,
    pub out_equation: Option<String>,
    pub out_text: Option<String>,
    pub dym_equation: Option<String>,
    pub dym_text: Option<String>,
    pub is_template: Option<bool>,
    pub show_did_you_mean: Option<bool>,
    pub show_instead: Option<bool>,
}

impl Dym {
    pub fn duplicate(&self) -> (out: Dym)
        ensures
            out == *self,
    {
        Dym {
            input_equation: copy_text(&self.input_equation),
            original_equation: copy_text(&self.original_equation),
            original_text: copy_text(&self.original_text),
            out_equation: copy_text(&self.out_equation),
            out_text: copy_text(&self.out_text),
            dym_equation: copy_text(&self.dym_equation),
            dym_text: copy_text(&self.dym_text),
            is_template: self.is_template,
            show_did_you_mean: self.show_did_you_mean,
            show_instead: self.show_instead,
        }
    }
}

#[derive(Clone, Debug, PartialEq)]
pub struct RelatedQuery {
    pub command: Option<String>,
    pub equation: Option<String>,
    pub origin: Option<String>,
}

impl RelatedQuery {
    pub fn duplicate(&self) -> (out: RelatedQuery)
        ensures
            out == *self,
    {
        RelatedQuery {
            command: copy_text(&self.command),
            equation: copy_text(&self.equation),
            origin: copy_text(&self.origin),
        }
    }
}

#[derive(Clone, Debug, PartialEq)]
pub struct SolutionSolution {
    pub api_title: Option<Title>,
    pub solution_default: Option<String>,
}

impl SolutionSolution {
    pub fn duplicate(&self) -> (out: SolutionSolution)
        ensures
            out == *self,
    {
        SolutionSolution {
            api_title: copy_title(&self.api_title),
            solution_default: copy_text(&self.solution_default),
        }
    }
}

#[derive(Clone, Debug, PartialEq)]
pub struct Step {
    pub step_input: Option<String>,
    pub entire_result: Option<String>,
    pub is_interim_step: Option<bool>,
    pub is_open: Option<bool>,
    pub is_show_solution_after_step: Option<bool>,
    pub title: Option<Title>,
    pub general_rule: Option<Title>,
}

impl Step {
    pub fn duplicate(&self) -> (out: Step)
        ensures
            out == *self,
    {
        Step {
            step_input: copy_text(&self.step_input),
            entire_result: copy_text(&self.entire_result),
            is_interim_step: self.is_interim_step,
            is_open: self.is_open,
            is_show_solution_after_step: self.is_show_solution_after_step,
            title: copy_title(&self.title),
            general_rule: copy_title(&self.general_rule),
        }
    }
}

#[derive(Clone, Debug, PartialEq)]
pub struct PlotInfo {
    pub variable: Option<String>,
    pub lines_to_draw: Option<Vec<Option<Value>>>,
    pub fills: Option<Vec<Option<Value>>>,
    pub function_changes: Option<Vec<Option<Value>>>,
    pub graph_calc_input_errors: Option<Vec<Option<Value>>>,
    pub plot_request: Option<String>,
    pub is_in_cache: Option<bool>,
}

pub ghost struct PlotInfoView {
    pub variable: Option<String>,
    pub lines_to_draw: Option<Seq<Option<Value>>>,
    pub fills: Option<Seq<Option<Value>>>,
    pub function_changes: Option<Seq<Option<Value>>>,
    pub graph_calc_input_errors: Option<Seq<Option<Value>>>,
    pub plot_request: Option<String>,
    pub is_in_cache: Option<bool>,
}

impl View for PlotInfo {
    type V = PlotInfoView;

    open spec fn view(&self) -> PlotInfoView {
        PlotInfoView {
            variable: self.variable,
            lines_to_draw: opt_seq(self.lines_to_draw),
            fills: opt_seq(self.fills),
            function_changes: opt_seq(self.function_changes),
            graph_calc_input_errors: opt_seq(self.graph_calc_input_errors),
            plot_request: self.plot_request,
            is_in_cache: self.is_in_cache,
        }
    }
}

impl PlotInfo {
    pub fn duplicate(&self) -> (out: PlotInfo)
        ensures
            out@ == self@,
    {
        PlotInfo {
            variable: copy_text(&self.variable),
            lines_to_draw: copy_values(&self.lines_to_draw),
            fills: copy_values(&self.fills),
            function_changes: copy_values(&self.function_changes),
            graph_calc_input_errors: copy_values(&self.graph_calc_input_errors),
            plot_request: copy_text(&self.plot_request),
            is_in_cache: self.is_in_cache,
        }
    }
}

#[derive(Clone, Debug, PartialEq)]
pub struct SolutionElement {
    pub solution: Option<SolutionSolution>,
    pub step_input: Option<String>,
    pub entire_result: Option<String>,
    pub solving_class: Option<String>,
    pub is_interim_step: Option<bool>,
    pub is_open: Option<bool>,
    pub is_show_solution_after_step: Option<bool>,
    pub title: Option<Title>,
    pub steps: Option<Vec<Step>>,
    pub practice_link: Option<String>,
    pub practice_topic: Option<String>,
}

pub ghost struct SolutionElementView {
    pub solution: Option<SolutionSolution>,
    pub step_input: Option<String>,
    pub entire_result: Option<String>,
    pub solving_class: Option<String>,
    pub is_interim_step: Option<bool>,
    pub is_open: Option<bool>,
    pub is_show_solution_after_step: Option<bool>,
    pub title: Option<Title>,
    pub steps: Option<Seq<Step>>,
    pub practice_link: Option<String>,
    pub practice_topic: Option<String>,
}

impl View for SolutionElement {
    type V = SolutionElementView;

    open spec fn view(&self) -> SolutionElementView {
        SolutionElementView {
            solution: self.solution,
            step_input: self.step_input,
            entire_result: self.entire_result,
            solving_class: self.solving_class,
            is_interim_step: self.is_interim_step,
            is_open: self.is_open,
            is_show_solution_after_step: self.is_show_solution_after_step,
            title: self.title,
            steps: opt_seq(self.steps),
            practice_link: self.practice_link,
            practice_topic: self.practice_topic,
        }
    }
}

pub fn copy_steps(list: &Option<Vec<Step>>) -> (out: Option<Vec<Step>>)
    ensures
        opt_seq(out) == opt_seq(*list),
{
    match list {
        Some(items) => {
            let mut out: Vec<Step> = Vec::new();
            let mut i: usize = 0;
            while i < items.len()
                invariant
                    i <= items.len(),
                    out@ == items@.subrange(0, i as int),
                decreases items.len() - i,
            {
                out.push(items[i].duplicate());
                assert(out@ =~= items@.subrange(0, i + 1));
                i += 1;
            }
            assert(out@ =~= items@);
            Some(out)
        },
        None => None,
    }
}

impl SolutionElement {
    pub fn duplicate(&self) -> (out: SolutionElement)
        ensures
            out@ == self@,
    {
        SolutionElement {
            solution: match &self.solution {
                Some(s) => Some(s.duplicate()),
                None => None,
            },
            step_input: copy_text(&self.step_input),
            entire_result: copy_text(&self.entire_result),
            solving_class: copy_text(&self.solving_class),
            is_interim_step: self.is_interim_step,
            is_open: self.is_open,
            is_show_solution_after_step: self.is_show_solution_after_step,
            title: copy_title(&self.title),
            steps: copy_steps(&self.steps),
            practice_link: copy_text(&self.practice_link),
            practice_topic: copy_text(&self.practice_topic),
        }
    }
}

#[derive(Clone, Debug, PartialEq)]
pub struct SymbolabResponse {
    pub dym: Option<Dym>,
    pub dym_alternatives: Option<Vec<Option<Value>>>,
    pub related_queries: Option<Vec<RelatedQuery>>,
    pub related_problems: Option<Vec<String>>,
    pub standard_query: Option<String>,
    pub step_lang: Option<String>,
    pub is_from_cache: Option<bool>,
    pub is_in_notebook: Option<bool>,
    pub show_verify: Option<bool>,
    pub show_view_larger: Option<bool>,
    pub canonical_notebook_query: Option<String>,
    pub subject: Option<String>,
    pub topic: Option<String>,
    pub sub_topic: Option<String>,
    pub solutions: Option<Vec<SolutionElement>>,
    pub plot_info: Option<PlotInfo>,
    pub solution_level: Option<String>,
}

pub ghost struct SymbolabResponseView {
    pub dym: Option<Dym>,
    pub dym_alternatives: Option<Seq<Option<Value>>>,
    pub related_queries: Option<Seq<RelatedQuery>>,
    pub related_problems: Option<Seq<String>>,
    pub standard_query: Option<String>,
    pub step_lang: Option<String>,
    pub is_from_cache: Option<bool>,
    pub is_in_notebook: Option<bool>,
    pub show_verify: Option<bool>,
    pub show_view_larger: Option<bool>,
    pub canonical_notebook_query: Option<String>,
    pub subject: Option<String>,
    pub topic: Option<String>,
    pub sub_topic: Option<String>,
    pub solutions: Option<Seq<SolutionElementView>>,
    pub plot_info: Option<PlotInfoView>,
    pub solution_level: Option<String>,
}

/// The view of an optional plot description.
pub open spec fn opt_plot(plot: Option<PlotInfo>) -> Option<PlotInfoView> {
    match plot {
        Some(p) => Some(p@),
        None => None,
    }
}

impl View for SymbolabResponse {
    type V = SymbolabResponseView;

    open spec fn view(&self) -> SymbolabResponseView {
        SymbolabResponseView {
            dym: self.dym,
            dym_alternatives: opt_seq(self.dym_alternatives),
            related_queries: opt_seq(self.related_queries),
            related_problems: opt_seq(self.related_problems),
            standard_query: self.standard_query,
            step_lang: self.step_lang,
            is_from_cache: self.is_from_cache,
            is_in_notebook: self.is_in_notebook,
            show_verify: self.show_verify,
            show_view_larger: self.show_view_larger,
            canonical_notebook_query: self.canonical_notebook_query,
            subject: self.subject,
            topic: self.topic,
            sub_topic: self.sub_topic,
            solutions: opt_solutions(self.solutions),
            plot_info: opt_plot(self.plot_info),
            solution_level: self.solution_level,
        }
    }
}

pub fn copy_related(list: &Option<Vec<RelatedQuery>>) -> (out: Option<Vec<RelatedQuery>>)
    ensures
        opt_seq(out) == opt_seq(*list),
{
    match list {
        Some(items) => {
            let mut out: Vec<RelatedQuery> = Vec::new();
            let mut i: usize = 0;
            while i < items.len()
                invariant
                    i <= items.len(),
                    out@ == items@.subrange(0, i as int),
                decreases items.len() - i,
            {
                out.push(items[i].duplicate());
                assert(out@ =~= items@.subrange(0, i + 1));
                i += 1;
            }
            assert(out@ =~= items@);
            Some(out)
        },
        None => None,
    }
}

pub fn copy_solutions(list: &Option<Vec<SolutionElement>>) -> (out: Option<Vec<SolutionElement>>)
    ensures
        opt_solutions(out) == opt_solutions(*list),
{
    match list {
        Some(items) => {
            let mut out: Vec<SolutionElement> = Vec::new();
            let mut i: usize = 0;
            while i < items.len()
                invariant
                    i <= items.len(),
                    out@.len() == i,
                    forall|j: int| 0 <= j < i ==> (#[trigger] out@[j])@ == items@[j]@,
                decreases items.len() - i,
            {
                out.push(items[i].duplicate());
                i += 1;
            }
            assert(solution_views(out@) =~= solution_views(items@));
            Some(out)
        },
        None => None,
    }
}

impl SymbolabResponse {
    pub fn duplicate(&self) -> (out: SymbolabResponse)
        ensures
            out@ == self@,
    {
        SymbolabResponse {
            dym: match &self.dym {
                Some(d) => Some(d.duplicate()),
                None => None,
            },
            dym_alternatives: copy_values(&self.dym_alternatives),
            related_queries: copy_related(&self.related_queries),
            related_problems: copy_texts(&self.related_problems),
            standard_query: copy_text(&self.standard_query),
            step_lang: copy_text(&self.step_lang),
            is_from_cache: self.is_from_cache,
            is_in_notebook: self.is_in_notebook,
            show_verify: self.show_verify,
            show_view_larger: self.show_view_larger,
            canonical_notebook_query: copy_text(&self.canonical_notebook_query),
            subject: copy_text(&self.subject),
            topic: copy_text(&self.topic),
            sub_topic: copy_text(&self.sub_topic),
            solutions: copy_solutions(&self.solutions),
            plot_info: match &self.plot_info {
                Some(p) => Some(p.duplicate()),
                None => None,
            },
            solution_level: copy_text(&self.solution_level),
        }
    }
}

} // verus!
