//! Evaluation of topic-drift detection: was a shift detected where one was
//! expected, and at which turn.

use vstd::prelude::*;
use vstd::string::*;

use crate::models::message::{Content, ContentView, Message, MessageId, MessageView, Role};
use crate::orchestrator::decisions::position_of;
use crate::time::Timestamp;
use crate::topic_detector::TopicShift;

verus! {

// ---------------------------------------------------------------------------
// Cases
// ---------------------------------------------------------------------------

/// Who a turn is from.
#[derive(Debug, Clone, Copy, PartialEq, Eq, Structural)]
pub enum TurnRole {
    User,
    Assistant,
    System,
}

/// The message role of a turn role.
pub open spec fn role_of_turn(role: TurnRole) -> Role {
    match role {
        TurnRole::User => Role::User,
        TurnRole::Assistant => Role::Assistant,
        TurnRole::System => Role::System,
    }
}

impl From<TurnRole> for Role {
    fn from(role: TurnRole) -> (r: Self) {
        match role {
            TurnRole::User => Role::User,
            TurnRole::Assistant => Role::Assistant,
            TurnRole::System => Role::System,
        }
    }
}

impl vstd::std_specs::convert::FromSpecImpl<TurnRole> for Role {
    open spec fn obeys_from_spec() -> bool {
        true
    }

    open spec fn from_spec(role: TurnRole) -> Self {
        role_of_turn(role)
    }
}

/// A conversation turn of a golden case.
#[derive(Debug)]
pub struct Turn {
    pub role: TurnRole,
    pub text: String,
}

impl Clone for Turn {
    fn clone(&self) -> (r: Self)
        ensures
            r.role == self.role,
            r.text@ == self.text@,
    {
        Turn { role: self.role, text: self.text.clone() }
    }
}

/// The expected outcome for a case. Where a shift is expected, `at` is the
/// turn at which the new topic begins, counted from zero.
#[derive(Debug)]
pub struct DriftExpectation {
    pub shifted: bool,
    pub at: Option<usize>,
    pub topic: Option<String>,
}

fn copied(text: &Option<String>) -> (r: Option<String>)
    ensures
        r.deep_view() == text.deep_view(),
{
    match text {
        Some(text) => Some(text.clone()),
        None => None,
    }
}

impl Clone for DriftExpectation {
    fn clone(&self) -> (r: Self)
        ensures
            r.shifted == self.shifted,
            r.at == self.at,
            r.topic.deep_view() == self.topic.deep_view(),
    {
        DriftExpectation { shifted: self.shifted, at: self.at, topic: copied(&self.topic) }
    }
}

/// One golden case for drift detection.
#[derive(Debug)]
pub struct DriftCase {
    pub id: String,
    pub turns: Vec<Turn>,
    pub expect: DriftExpectation,
    pub notes: Option<String>,
}

impl DriftCase {
    /// The turns as messages with fresh identities, by which a shift is mapped
    /// back to its turn.
    pub fn messages(&self) -> (r: Vec<Message>)
        ensures
            r@.len() == self.turns@.len(),
            forall|i: int|
                0 <= i < r@.len() ==> (#[trigger] r@[i])@ == (MessageView {
                    id: r@[i].id,
                    role: role_of_turn(self.turns@[i].role),
                    content: seq![ContentView::Text { text: self.turns@[i].text@ }],
                    timestamp: r@[i].timestamp@,
                }),
            forall|i: int|
                0 <= i < r@.len() ==> crate::identity::version_of((#[trigger] r@[i])@.id.0) == 7
                    && crate::identity::variant_of(r@[i]@.id.0) == 2,
    {
        let mut r: Vec<Message> = Vec::new();
        let mut i: usize = 0;
        while i < self.turns.len()
            invariant
                i <= self.turns@.len(),
                r@.len() == i,
                forall|k: int|
                    0 <= k < i ==> (#[trigger] r@[k])@ == (MessageView {
                        id: r@[k].id,
                        role: role_of_turn(self.turns@[k].role),
                        content: seq![ContentView::Text { text: self.turns@[k].text@ }],
                        timestamp: r@[k].timestamp@,
                    }),
                forall|k: int|
                    0 <= k < i ==> crate::identity::version_of((#[trigger] r@[k])@.id.0) == 7
                        && crate::identity::variant_of(r@[k]@.id.0) == 2,
            decreases self.turns@.len() - i,
        {
            let mut content: Vec<Content> = Vec::new();
            content.push(Content::Text { text: self.turns[i].text.clone() });
            assert(content.deep_view() =~= seq![
                ContentView::Text { text: self.turns@[i as int].text@ },
            ]);
            let id = MessageId::new();
            let role: Role = Role::from(self.turns[i].role);
            r.push(Message { id, role, content, timestamp: Timestamp::now() });
            i += 1;
        }
        r
    }
}

// ---------------------------------------------------------------------------
// Scoring
// ---------------------------------------------------------------------------

/// A detected shift, by the turn it starts at.
#[derive(Debug)]
pub struct DetectedShift {
    pub at_index: usize,
    pub topic: String,
}

impl Clone for DetectedShift {
    fn clone(&self) -> (r: Self)
        ensures
            r.at_index == self.at_index,
            r.topic@ == self.topic@,
    {
        DetectedShift { at_index: self.at_index, topic: self.topic.clone() }
    }
}

/// Where a case landed on the confusion matrix.
#[derive(Debug, Clone, Copy, PartialEq, Eq, Structural)]
pub enum Confusion {
    TruePositive,
    FalsePositive,
    TrueNegative,
    FalseNegative,
}

/// The expected turn of a shift and the one that was detected.
#[derive(Debug, Clone, Copy, PartialEq, Eq, Structural)]
pub struct Boundary {
    pub expected: usize,
    pub predicted: usize,
}

impl Boundary {
    /// How many turns lie between the two.
    pub open spec fn gap(self) -> nat {
        if self.expected >= self.predicted {
            (self.expected - self.predicted) as nat
        } else {
            (self.predicted - self.expected) as nat
        }
    }

    pub fn distance(&self) -> (r: usize)
        ensures
            r == self.gap(),
    {
        if self.expected >= self.predicted {
            self.expected - self.predicted
        } else {
            self.predicted - self.expected
        }
    }

    pub fn is_exact(&self) -> (r: bool)
        ensures
            r == (self.gap() == 0),
            r == (self.expected == self.predicted),
    {
        self.distance() == 0
    }

    pub fn within(&self, tolerance: usize) -> (r: bool)
        ensures
            r == (self.gap() <= tolerance),
    {
        self.distance() <= tolerance
    }
}

/// The graded result of a case.
#[derive(Debug)]
pub struct CaseOutcome {
    pub case_id: String,
    pub confusion: Confusion,
    /// Present where a shift was expected at a known turn and was detected.
    pub boundary: Option<Boundary>,
    pub expected_topic: Option<String>,
    pub predicted_topic: Option<String>,
}

/// The quadrant of an expectation and an answer.
pub open spec fn quadrant(expected: bool, predicted: bool) -> Confusion {
    if expected {
        if predicted {
            Confusion::TruePositive
        } else {
            Confusion::FalseNegative
        }
    } else if predicted {
        Confusion::FalsePositive
    } else {
        Confusion::TrueNegative
    }
}

/// Grades a case against what was detected.
pub fn score_case(case: &DriftCase, predicted: Option<&DetectedShift>) -> (r: CaseOutcome)
    ensures
        r.case_id@ == case.id@,
        r.confusion == quadrant(case.expect.shifted, predicted is Some),
        r.boundary == match (case.expect.shifted, predicted, case.expect.at) {
            (true, Some(shift), Some(at)) => Some(
                Boundary { expected: at, predicted: shift.at_index },
            ),
            _ => None,
        },
        r.expected_topic.deep_view() == case.expect.topic.deep_view(),
        match predicted {
            Some(shift) => r.predicted_topic matches Some(topic) && topic@ == shift.topic@,
            None => r.predicted_topic is None,
        },
{
    let boundary = match (case.expect.shifted, predicted) {
        (true, Some(shift)) => match case.expect.at {
            Some(at) => Some(Boundary { expected: at, predicted: shift.at_index }),
            None => None,
        },
        _ => None,
    };
    let confusion = match (case.expect.shifted, predicted) {
        (true, Some(_)) => Confusion::TruePositive,
        (true, None) => Confusion::FalseNegative,
        (false, Some(_)) => Confusion::FalsePositive,
        (false, None) => Confusion::TrueNegative,
    };
    let predicted_topic = match predicted {
        Some(shift) => Some(shift.topic.clone()),
        None => None,
    };
    CaseOutcome {
        case_id: case.id.clone(),
        confusion,
        boundary,
        expected_topic: copied(&case.expect.topic),
        predicted_topic,
    }
}

/// The turn at which a detected shift starts. A shift at a message that is not
/// among the turns is none.
pub fn locate_shift(messages: &Vec<Message>, shift: Option<TopicShift>) -> (r: Option<
    DetectedShift,
>)
    ensures
        match shift {
            Some(shift) => {
                let at = position_of(messages.deep_view(), shift.at_message_id);
                if at < messages@.len() {
                    r matches Some(found) && found.at_index == at && found.topic@
                        == shift.new_topic@
                } else {
                    r is None
                }
            },
            None => r is None,
        },
{
    match shift {
        Some(shift) => {
            let ghost all = messages.deep_view();
            let mut i: usize = 0;
            assert(all.skip(0) =~= all);
            while i < messages.len() && messages[i].id != shift.at_message_id
                invariant
                    i <= messages@.len(),
                    all == messages.deep_view(),
                    position_of(all, shift.at_message_id) == i + position_of(
                        all.skip(i as int),
                        shift.at_message_id,
                    ),
                decreases messages@.len() - i,
            {
                proof {
                    let here = all.skip(i as int);
                    assert(here[0] == messages@[i as int]@);
                    assert(here.drop_first() =~= all.skip(i + 1));
                }
                i += 1;
            }
            if i < messages.len() {
                assert(all.skip(i as int)[0] == messages@[i as int]@);
                Some(DetectedShift { at_index: i, topic: shift.new_topic })
            } else {
                None
            }
        },
        None => None,
    }
}

/// Grades a case that was run as `messages` and answered with `shift`.
pub fn grade(case: &DriftCase, messages: &Vec<Message>, shift: Option<TopicShift>) -> (r:
    CaseOutcome)
    ensures
        ({
            let at = match shift {
                Some(shift) => position_of(messages.deep_view(), shift.at_message_id),
                None => messages@.len() as nat,
            };
            let found = shift is Some && at < messages@.len();
            &&& r.case_id@ == case.id@
            &&& r.confusion == quadrant(case.expect.shifted, found)
            &&& r.expected_topic.deep_view() == case.expect.topic.deep_view()
            &&& match r.boundary {
                Some(boundary) => case.expect.shifted && found && case.expect.at == Some(
                    boundary.expected,
                ) && boundary.predicted == at,
                None => !(case.expect.shifted && found && case.expect.at is Some),
            }
            &&& match r.predicted_topic {
                Some(topic) => found && topic@ == shift->0.new_topic@,
                None => !found,
            }
        }),
{
    let detected = locate_shift(messages, shift);
    match &detected {
        Some(shift) => score_case(case, Some(shift)),
        None => score_case(case, None),
    }
}

// ---------------------------------------------------------------------------
// Metrics
// ---------------------------------------------------------------------------

/// A ratio of two counts.
#[derive(Debug, Clone, Copy, PartialEq, Eq, Structural)]
pub struct Ratio {
    pub numerator: u128,
    pub denominator: u128,
}

/// A ratio, or `empty` over one where there is nothing to divide by.
pub open spec fn ratio_or(numerator: nat, denominator: nat, empty: nat) -> (nat, nat) {
    if denominator == 0 {
        (empty, 1)
    } else {
        (numerator, denominator)
    }
}

impl Ratio {
    pub open spec fn parts(self) -> (nat, nat) {
        (self.numerator as nat, self.denominator as nat)
    }
}

/// A ratio that counts as perfect where there was nothing to get wrong.
pub fn rate(numerator: u128, denominator: u128) -> (r: Ratio)
    ensures
        r.parts() == ratio_or(numerator as nat, denominator as nat, 1),
{
    if denominator == 0 {
        Ratio { numerator: 1, denominator: 1 }
    } else {
        Ratio { numerator, denominator }
    }
}

/// A ratio that counts as zero where there was nothing to measure.
pub fn share(numerator: u128, denominator: u128) -> (r: Ratio)
    ensures
        r.parts() == ratio_or(numerator as nat, denominator as nat, 0),
{
    if denominator == 0 {
        Ratio { numerator: 0, denominator: 1 }
    } else {
        Ratio { numerator, denominator }
    }
}

/// How many outcomes landed on a quadrant.
pub open spec fn tally(outcomes: Seq<CaseOutcome>, confusion: Confusion) -> nat
    decreases outcomes.len(),
{
    if outcomes.len() == 0 {
        0
    } else {
        tally(outcomes.drop_last(), confusion) + if outcomes.last().confusion == confusion {
            1nat
        } else {
            0nat
        }
    }
}

/// The boundaries of the outcomes that have one.
pub open spec fn boundaries(outcomes: Seq<CaseOutcome>) -> Seq<Boundary>
    decreases outcomes.len(),
{
    if outcomes.len() == 0 {
        Seq::empty()
    } else {
        let before = boundaries(outcomes.drop_last());
        match outcomes.last().boundary {
            Some(boundary) => before.push(boundary),
            None => before,
        }
    }
}

/// How many boundaries are at most `tolerance` turns off.
pub open spec fn close_ones(all: Seq<Boundary>, tolerance: nat) -> nat
    decreases all.len(),
{
    if all.len() == 0 {
        0
    } else {
        close_ones(all.drop_last(), tolerance) + if all.last().gap() <= tolerance {
            1nat
        } else {
            0nat
        }
    }
}

/// How many turns the boundaries are off, together.
pub open spec fn total_gap(all: Seq<Boundary>) -> nat
    decreases all.len(),
{
    if all.len() == 0 {
        0
    } else {
        total_gap(all.drop_last()) + all.last().gap()
    }
}

/// Aggregated drift-detection metrics of a run. Precision and recall count as
/// perfect where nothing was predicted or expected, and accuracy where nothing
/// was run; the boundary rates count as zero where there is no boundary.
#[derive(Debug, Clone, Copy)]
pub struct DriftMetrics {
    pub total: usize,
    pub true_positives: usize,
    pub false_positives: usize,
    pub true_negatives: usize,
    pub false_negatives: usize,
    pub precision: Ratio,
    pub recall: Ratio,
    pub f1: Ratio,
    pub accuracy: Ratio,
    /// True positives with an expected boundary.
    pub boundary_total: usize,
    pub boundary_exact: usize,
    pub boundary_within_one: usize,
    pub boundary_exact_rate: Ratio,
    pub mean_boundary_distance: Ratio,
}

/// The counts and rates of a run.
pub open spec fn metrics_of(m: DriftMetrics, outcomes: Seq<CaseOutcome>) -> bool {
    let tp = tally(outcomes, Confusion::TruePositive);
    let fp = tally(outcomes, Confusion::FalsePositive);
    let tn = tally(outcomes, Confusion::TrueNegative);
    let fneg = tally(outcomes, Confusion::FalseNegative);
    let bounds = boundaries(outcomes);
    &&& m.total == outcomes.len()
    &&& m.true_positives == tp
    &&& m.false_positives == fp
    &&& m.true_negatives == tn
    &&& m.false_negatives == fneg
    &&& m.precision.parts() == ratio_or(tp, tp + fp, 1)
    &&& m.recall.parts() == ratio_or(tp, tp + fneg, 1)
    &&& m.f1.parts() == ratio_or(2 * tp, 2 * tp + fp + fneg, 1)
    &&& m.accuracy.parts() == ratio_or(tp + tn, outcomes.len(), 1)
    &&& m.boundary_total == bounds.len()
    &&& m.boundary_exact == close_ones(bounds, 0)
    &&& m.boundary_within_one == close_ones(bounds, 1)
    &&& m.boundary_exact_rate.parts() == ratio_or(close_ones(bounds, 0), bounds.len(), 0)
    &&& m.mean_boundary_distance.parts() == ratio_or(total_gap(bounds), bounds.len(), 0)
}

impl DriftMetrics {
    pub fn from_outcomes(outcomes: &Vec<CaseOutcome>) -> (r: Self)
        ensures
            metrics_of(r, outcomes@),
    {
        let mut tp: usize = 0;
        let mut fp: usize = 0;
        let mut tn: usize = 0;
        let mut fneg: usize = 0;
        let mut total: usize = 0;
        let mut exact: usize = 0;
        let mut within_one: usize = 0;
        let mut gap: u128 = 0;
        let ghost all = outcomes@;
        let mut i: usize = 0;
        while i < outcomes.len()
            invariant
                i <= outcomes@.len(),
                all == outcomes@,
                tp == tally(all.take(i as int), Confusion::TruePositive),
                fp == tally(all.take(i as int), Confusion::FalsePositive),
                tn == tally(all.take(i as int), Confusion::TrueNegative),
                fneg == tally(all.take(i as int), Confusion::FalseNegative),
                tp <= i,
                fp <= i,
                tn <= i,
                fneg <= i,
                total == boundaries(all.take(i as int)).len(),
                exact == close_ones(boundaries(all.take(i as int)), 0),
                within_one == close_ones(boundaries(all.take(i as int)), 1),
                gap == total_gap(boundaries(all.take(i as int))),
                total <= i,
                exact <= i,
                within_one <= i,
                gap <= i * 0xffff_ffff_ffff_ffff,
            decreases outcomes@.len() - i,
        {
            proof {
                let next = all.take(i + 1);
                assert(next.drop_last() =~= all.take(i as int));
                assert(next.last() == all[i as int]);
            }
            match outcomes[i].confusion {
                Confusion::TruePositive => {
                    tp += 1;
                },
                Confusion::FalsePositive => {
                    fp += 1;
                },
                Confusion::TrueNegative => {
                    tn += 1;
                },
                Confusion::FalseNegative => {
                    fneg += 1;
                },
            }
            match outcomes[i].boundary {
                Some(boundary) => {
                    proof {
                        let before = boundaries(all.take(i as int));
                        assert(before.push(boundary).drop_last() =~= before);
                        assert(before.push(boundary).last() == boundary);
                    }
                    total += 1;
                    if boundary.is_exact() {
                        exact += 1;
                    }
                    if boundary.within(1) {
                        within_one += 1;
                    }
                    gap += boundary.distance() as u128;
                },
                None => {},
            }
            i += 1;
        }
        assert(all.take(i as int) =~= all);
        let tp_wide: u128 = tp as u128;
        let fp_wide: u128 = fp as u128;
        let tn_wide: u128 = tn as u128;
        let fneg_wide: u128 = fneg as u128;
        DriftMetrics {
            total: outcomes.len(),
            true_positives: tp,
            false_positives: fp,
            true_negatives: tn,
            false_negatives: fneg,
            precision: rate(tp_wide, tp_wide + fp_wide),
            recall: rate(tp_wide, tp_wide + fneg_wide),
            f1: rate(2 * tp_wide, 2 * tp_wide + fp_wide + fneg_wide),
            accuracy: rate(tp_wide + tn_wide, outcomes.len() as u128),
            boundary_total: total,
            boundary_exact: exact,
            boundary_within_one: within_one,
            boundary_exact_rate: share(exact as u128, total as u128),
            mean_boundary_distance: share(gap, total as u128),
        }
    }
}

/// Every outcome counts on exactly one quadrant.
pub proof fn law_quadrants_add_up(outcomes: Seq<CaseOutcome>)
    ensures
        tally(outcomes, Confusion::TruePositive) + tally(outcomes, Confusion::FalsePositive)
            + tally(outcomes, Confusion::TrueNegative) + tally(outcomes, Confusion::FalseNegative)
            == outcomes.len(),
    decreases outcomes.len(),
{
    if outcomes.len() > 0 {
        law_quadrants_add_up(outcomes.drop_last());
    }
}

/// An exact boundary is within one, and both are boundaries.
pub proof fn law_exact_is_within_one(all: Seq<Boundary>)
    ensures
        close_ones(all, 0) <= close_ones(all, 1) <= all.len(),
    decreases all.len(),
{
    if all.len() > 0 {
        law_exact_is_within_one(all.drop_last());
    }
}

/// The F1 score is the harmonic mean of precision and recall: with these as
/// the fractions `p` and `r`, it is `2 p r / (p + r)`, and zero where both
/// are.
pub proof fn law_f1_is_the_harmonic_mean(tp: nat, fp: nat, fneg: nat)
    ensures
        ({
            let p = ratio_or(tp, tp + fp, 1);
            let r = ratio_or(tp, tp + fneg, 1);
            let f = ratio_or(2 * tp, 2 * tp + fp + fneg, 1);
            &&& f.0 * (p.0 * r.1 + r.0 * p.1) == (2 * p.0 * r.0) * f.1
            &&& p.0 == 0 && r.0 == 0 ==> f.0 == 0
        }),
{
    let p = ratio_or(tp, tp + fp, 1);
    let r = ratio_or(tp, tp + fneg, 1);
    if tp > 0 {
        assert((2 * tp) * (tp * (tp + fneg) + tp * (tp + fp)) == (2 * tp * tp) * (2 * tp + fp
            + fneg)) by (nonlinear_arith);
    } else if fp + fneg > 0 {
        assert(0 * (p.0 * r.1 + r.0 * p.1) == (2 * p.0 * r.0) * (fp + fneg)) by (nonlinear_arith)
            requires
                p.0 == 0 || r.0 == 0,
        ;
    } else {
        assert(1 * (p.0 * r.1 + r.0 * p.1) == (2 * p.0 * r.0) * 1) by (nonlinear_arith)
            requires
                p == (1nat, 1nat),
                r == (1nat, 1nat),
        ;
    }
}

} // verus!
