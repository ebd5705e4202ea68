//! Evaluation of tool discovery: was the model's first tool call the expected
//! one.

use vstd::prelude::*;
use vstd::string::*;

use crate::evals::drift::{ratio_or, share, Ratio};
use crate::text::same;

verus! {

/// The expected first tool call of a case.
#[derive(Debug)]
pub struct ToolSearchExpectation {
    pub first_tool_call: String,
}

/// One golden case for tool discovery.
#[derive(Debug)]
pub struct ToolSearchCase {
    pub id: String,
    pub user_message: String,
    pub expect: ToolSearchExpectation,
}

/// The first tool call that the model made on a case, if any.
#[derive(Debug)]
pub struct ObservedFirstCall {
    pub tool_name: Option<String>,
}

/// Where a case landed.
#[derive(Debug, Clone, Copy, PartialEq, Eq, Structural)]
pub enum InvocationOutcome {
    /// The first tool call was the expected one.
    Match,
    /// The first tool call was another one.
    Mismatch,
    /// There was no tool call.
    NoCall,
}

/// The graded result of a case.
#[derive(Debug)]
pub struct CaseOutcome {
    pub case_id: String,
    pub outcome: InvocationOutcome,
    pub expected: String,
    pub observed: Option<String>,
}

/// How an observed call compares with the expected one.
pub open spec fn invocation(expected: Seq<char>, observed: Option<Seq<char>>) -> InvocationOutcome {
    match observed {
        Some(name) => if name == expected {
            InvocationOutcome::Match
        } else {
            InvocationOutcome::Mismatch
        },
        None => InvocationOutcome::NoCall,
    }
}

/// Grades a case against the observed first tool call.
pub fn score_case(case: &ToolSearchCase, observed: &ObservedFirstCall) -> (r: CaseOutcome)
    ensures
        r.case_id@ == case.id@,
        r.outcome == invocation(case.expect.first_tool_call@, observed.tool_name.deep_view()),
        r.expected@ == case.expect.first_tool_call@,
        r.observed.deep_view() == observed.tool_name.deep_view(),
{
    let (outcome, name) = match &observed.tool_name {
        Some(name) => {
            let outcome = if same(name.as_str(), case.expect.first_tool_call.as_str()) {
                InvocationOutcome::Match
            } else {
                InvocationOutcome::Mismatch
            };
            (outcome, Some(name.clone()))
        },
        None => (InvocationOutcome::NoCall, None),
    };
    CaseOutcome {
        case_id: case.id.clone(),
        outcome,
        expected: case.expect.first_tool_call.clone(),
        observed: name,
    }
}

/// How many outcomes are of a kind.
pub open spec fn count_of(outcomes: Seq<CaseOutcome>, kind: InvocationOutcome) -> nat
    decreases outcomes.len(),
{
    if outcomes.len() == 0 {
        0
    } else {
        count_of(outcomes.drop_last(), kind) + if outcomes.last().outcome == kind {
            1nat
        } else {
            0nat
        }
    }
}

/// Aggregated metrics of a run. The match rate of an empty run is zero.
#[derive(Debug, Clone, Copy)]
pub struct ToolSearchMetrics {
    pub total: usize,
    pub matches: usize,
    pub mismatches: usize,
    pub no_calls: usize,
    pub match_rate: Ratio,
}

impl ToolSearchMetrics {
    pub fn from_outcomes(outcomes: &Vec<CaseOutcome>) -> (r: Self)
        ensures
            r.total == outcomes@.len(),
            r.matches == count_of(outcomes@, InvocationOutcome::Match),
            r.mismatches == count_of(outcomes@, InvocationOutcome::Mismatch),
            r.no_calls == count_of(outcomes@, InvocationOutcome::NoCall),
            r.match_rate.parts() == ratio_or(
                count_of(outcomes@, InvocationOutcome::Match),
                outcomes@.len(),
                0,
            ),
    {
        let mut matches: usize = 0;
        let mut mismatches: usize = 0;
        let mut no_calls: usize = 0;
        let ghost all = outcomes@;
        let mut i: usize = 0;
        while i < outcomes.len()
            invariant
                i <= outcomes@.len(),
                all == outcomes@,
                matches == count_of(all.take(i as int), InvocationOutcome::Match),
                mismatches == count_of(all.take(i as int), InvocationOutcome::Mismatch),
                no_calls == count_of(all.take(i as int), InvocationOutcome::NoCall),
                matches <= i,
                mismatches <= i,
                no_calls <= i,
            decreases outcomes@.len() - i,
        {
            proof {
                let next = all.take(i + 1);
                assert(next.drop_last() =~= all.take(i as int));
                assert(next.last() == all[i as int]);
            }
            match outcomes[i].outcome {
                InvocationOutcome::Match => {
                    matches += 1;
                },
                InvocationOutcome::Mismatch => {
                    mismatches += 1;
                },
                InvocationOutcome::NoCall => {
                    no_calls += 1;
                },
            }
            i += 1;
        }
        assert(all.take(i as int) =~= all);
        let total: usize = outcomes.len();
        ToolSearchMetrics {
            total,
            matches,
            mismatches,
            no_calls,
            match_rate: share(matches as u128, total as u128),
        }
    }
}

/// Every outcome counts exactly once.
pub proof fn law_outcomes_add_up(outcomes: Seq<CaseOutcome>)
    ensures
        count_of(outcomes, InvocationOutcome::Match) + count_of(
            outcomes,
            InvocationOutcome::Mismatch,
        ) + count_of(outcomes, InvocationOutcome::NoCall) == outcomes.len(),
    decreases outcomes.len(),
{
    if outcomes.len() > 0 {
        law_outcomes_add_up(outcomes.drop_last());
    }
}

} // verus!
