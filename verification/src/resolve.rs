//! What goes into a resolve and what comes out of it, and the pick of one
//! number among several.

use rand::seq::SliceRandom;
use vstd::prelude::*;

verus! {

/// Why an address did not resolve.
#[derive(Debug, PartialEq, Eq)]
pub enum ResolveError {
    /// The TXT lookup failed; the cause is given as text.
    LookupError(String),
    /// One number was asked for and the address resolved to none.
    EmptyResult,
}

/// A resolve error, as contracts see one.
pub enum ResolveErrorView {
    LookupError(Seq<char>),
    EmptyResult,
}

impl View for ResolveError {
    type V = ResolveErrorView;

    open spec fn view(&self) -> ResolveErrorView {
        match self {
            ResolveError::LookupError(cause) => ResolveErrorView::LookupError(cause@),
            ResolveError::EmptyResult => ResolveErrorView::EmptyResult,
        }
    }
}

impl Clone for ResolveError {
    fn clone(&self) -> (r: Self)
        ensures
            r@ == self@,
    {
        match self {
            ResolveError::LookupError(cause) => ResolveError::LookupError(cause.clone()),
            ResolveError::EmptyResult => ResolveError::EmptyResult,
        }
    }
}

impl ResolveErrorView {
    /// The error in words.
    pub open spec fn message(self) -> Seq<char> {
        match self {
            ResolveErrorView::LookupError(cause) => "cannot resolve TXT: "@ + cause,
            ResolveErrorView::EmptyResult => "unable to pick address: empty list"@,
        }
    }
}

impl ResolveError {
    /// The error in words.
    pub fn message(&self) -> (r: String)
        ensures
            r@ == self@.message(),
    {
        match self {
            ResolveError::LookupError(cause) => {
                let mut r = "cannot resolve TXT: ".to_owned();
                r.append(cause.as_str());
                r
            },
            ResolveError::EmptyResult => "unable to pick address: empty list".to_owned(),
        }
    }
}

/// What the caller knows of the TXT lookup for an address when it asks to
/// resolve it. The library makes no lookup itself: it names the query, and the
/// caller comes back with what the query gave.
pub enum Lookup {
    /// No lookup was made.
    NotMade,
    /// The lookup answered with these TXT records, each as text.
    Answered(Vec<String>),
    /// The lookup failed, for this cause.
    Failed(String),
}

/// A lookup, as contracts see one.
pub enum LookupView {
    NotMade,
    Answered(Seq<Seq<char>>),
    Failed(Seq<char>),
}

impl View for Lookup {
    type V = LookupView;

    open spec fn view(&self) -> LookupView {
        match self {
            Lookup::NotMade => LookupView::NotMade,
            Lookup::Answered(records) => LookupView::Answered(records.deep_view()),
            Lookup::Failed(cause) => LookupView::Failed(cause@),
        }
    }
}

/// Where a resolve stands: done, with its result, or in want of a TXT lookup.
pub enum Step<T> {
    /// The result.
    Done(T),
    /// The name to look up before asking again.
    Query(String),
}

/// A step, as contracts see one.
pub enum StepView<V> {
    Done(V),
    Query(Seq<char>),
}

impl<T: DeepView> DeepView for Step<T> {
    type V = StepView<T::V>;

    open spec fn deep_view(&self) -> StepView<T::V> {
        match self {
            Step::Done(result) => StepView::Done(result.deep_view()),
            Step::Query(name) => StepView::Query(name@),
        }
    }
}

/// What a step or its failure looks like to contracts.
pub open spec fn outcome<T: DeepView, E: View>(r: Result<Step<T>, E>) -> Result<
    StepView<T::V>,
    E::V,
> {
    match r {
        Ok(step) => Ok(step.deep_view()),
        Err(e) => Err(e@),
    }
}

/// What a resolve comes to.
pub type Resolved = Result<StepView<Seq<Seq<char>>>, ResolveErrorView>;

/// What a resolve to a single number comes to.
pub type Single = Result<StepView<Seq<char>>, ResolveErrorView>;

/// `single` is what picking one number makes of `resolved`: a query or a
/// failure is handed on, no numbers at all are the failure `EmptyResult`, and
/// else `single` is one of the numbers.
pub open spec fn is_single_of(resolved: Resolved, single: Single) -> bool {
    match resolved {
        Ok(StepView::Done(numbers)) => {
            if numbers.len() == 0 {
                single == Single::Err(ResolveErrorView::EmptyResult)
            } else {
                single matches Ok(StepView::Done(number)) && numbers.contains(number)
            }
        },
        Ok(StepView::Query(name)) => single == Single::Ok(StepView::Query(name)),
        Err(e) => single == Single::Err(e),
    }
}

/// `rand::seq::SliceRandom::choose` on `numbers`, with the generator that
/// `rand::thread_rng` gives: nothing where there are no numbers, else one of
/// them. Which one is left open.
#[verifier::external_body]
fn choose_number(numbers: &Vec<String>) -> (r: Option<&String>)
    ensures
        r is None <==> numbers@.len() == 0,
        r matches Some(number) ==> (exists|i: int|
            0 <= i < numbers@.len() && numbers@[i] == *number),
{
    numbers.choose(&mut rand::thread_rng())
}

/// The number that a choice among some numbers came to: `EmptyResult` where
/// there was nothing to choose.
pub fn chosen(choice: Option<&String>) -> (r: Result<String, ResolveError>)
    ensures
        match choice {
            Some(number) => r matches Ok(picked) && picked@ == number@,
            None => r matches Err(ResolveError::EmptyResult),
        },
{
    match choice {
        Some(number) => Ok(number.clone()),
        None => Err(ResolveError::EmptyResult),
    }
}

/// Picks one of `numbers` at random.
pub fn pick_number(numbers: &Vec<String>) -> (r: Result<String, ResolveError>)
    ensures
        numbers@.len() == 0 ==> r matches Err(ResolveError::EmptyResult),
        numbers@.len() > 0 ==> (r matches Ok(number) && numbers.deep_view().contains(number@)),
{
    let choice = choose_number(numbers);
    proof {
        if let Some(number) = choice {
            let i = choose|i: int| 0 <= i < numbers@.len() && numbers@[i] == *number;
            assert(numbers.deep_view()[i] == number@);
        }
    }
    chosen(choice)
}

} // verus!
