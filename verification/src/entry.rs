//! The assembled answer to one query: the upstream document and the images
//! rendered for each of its expressions.

use crate::symbolab::{copy_text, SymbolabResponse, SymbolabResponseView};
use vstd::prelude::*;

verus! {

/// The images rendered for one expression.
#[derive(Clone, Debug, PartialEq)]
pub struct ImageSet {
    pub svg: Option<String>,
    pub webp: Option<String>,
}

impl ImageSet {
    pub fn duplicate(&self) -> (out: ImageSet)
        ensures
            out == *self,
    {
        ImageSet { svg: copy_text(&self.svg), webp: copy_text(&self.webp) }
    }
}

pub fn copy_images(images: &Option<ImageSet>) -> (out: Option<ImageSet>)
    ensures
        out == *images,
{
    match images {
        Some(set) => Some(set.duplicate()),
        None => None,
    }
}

/// The images of one solution's pair of expressions.
#[derive(Clone, Debug, PartialEq)]
pub struct Solution {
    pub step_input: Option<ImageSet>,
    pub entire_result: Option<ImageSet>,
}

impl Solution {
    pub fn duplicate(&self) -> (out: Solution)
        ensures
            out == *self,
    {
        Solution {
            step_input: copy_images(&self.step_input),
            entire_result: copy_images(&self.entire_result),
        }
    }
}

/// The answer to one query. `cached` says whether this copy came out of the
/// cache.
#[derive(Clone, Debug, PartialEq)]
pub struct Data {
    pub symbolab: SymbolabResponse,
    pub cached: bool,
    pub canonical_notebook_query: Option<ImageSet>,
    pub standard_query: Option<ImageSet>,
    pub solutions: Vec<Solution>,
}

pub ghost struct DataView {
    pub symbolab: SymbolabResponseView,
    pub cached: bool,
    pub canonical_notebook_query: Option<ImageSet>,
    pub standard_query: Option<ImageSet>,
    pub solutions: Seq<Solution>,
}

impl DataView {
    /// The same answer, marked as taken from the cache.
    pub open spec fn marked_cached(self) -> DataView {
        DataView { cached: true, ..self }
    }
}

impl View for Data {
    type V = DataView;

    open spec fn view(&self) -> DataView {
        DataView {
            symbolab: self.symbolab@,
            cached: self.cached,
            canonical_notebook_query: self.canonical_notebook_query,
            standard_query: self.standard_query,
            solutions: self.solutions@,
        }
    }
}

impl Data {
    fn copy_solutions(&self) -> (out: Vec<Solution>)
        ensures
            out@ == self.solutions@,
    {
        let mut out: Vec<Solution> = Vec::new();
        let mut i: usize = 0;
        while i < self.solutions.len()
            invariant
                i <= self.solutions.len(),
                out@ == self.solutions@.subrange(0, i as int),
            decreases self.solutions.len() - i,
        {
            out.push(self.solutions[i].duplicate());
            assert(out@ =~= self.solutions@.subrange(0, i + 1));
            i += 1;
        }
        assert(out@ =~= self.solutions@);
        out
    }

    pub fn duplicate(&self) -> (out: Data)
        ensures
            out@ == self@,
    {
        Data {
            symbolab: self.symbolab.duplicate(),
            cached: self.cached,
            canonical_notebook_query: copy_images(&self.canonical_notebook_query),
            standard_query: copy_images(&self.standard_query),
            solutions: self.copy_solutions(),
        }
    }

    /// A copy for the cache: the same answer with `cached` set.
    pub fn cached_copy(&self) -> (out: Data)
        ensures
            out@ == self@.marked_cached(),
    {
        let mut out = self.duplicate();
        out.cached = true;
        out
    }
}

} // verus!
