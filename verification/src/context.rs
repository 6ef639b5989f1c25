//! Context-dependent calibrators and significances: the lists of pairs of
//! a match criteria and what applies when it holds, as the context list
//! forms load and apply them.
use vstd::prelude::*;
use crate::calibrator::{Calibrator, CalibratorView};
use crate::lookup::{LookupCriteria, LookupCriteriaView};
use crate::significance::{Significance, SignificanceView};

verus! {

/// A calibrator that applies when its context matches.
#[derive(Debug)]
pub struct ContextCalibrator {
    pub context_match: LookupCriteria,
    pub calibrator: Calibrator,
}

/// The value of a [`ContextCalibrator`].
pub struct ContextCalibratorView {
    pub context_match: LookupCriteriaView,
    pub calibrator: CalibratorView,
}

impl View for ContextCalibrator {
    type V = ContextCalibratorView;

    open spec fn view(&self) -> ContextCalibratorView {
        ContextCalibratorView { context_match: self.context_match@, calibrator: self.calibrator@ }
    }
}

/// A significance that applies when its context matches.
#[derive(Debug)]
pub struct ContextSignificance {
    pub context_match: LookupCriteria,
    pub significance: Significance,
}

/// The value of a [`ContextSignificance`].
pub struct ContextSignificanceView {
    pub context_match: LookupCriteriaView,
    pub significance: SignificanceView,
}

impl View for ContextSignificance {
    type V = ContextSignificanceView;

    open spec fn view(&self) -> ContextSignificanceView {
        ContextSignificanceView {
            context_match: self.context_match@,
            significance: self.significance@,
        }
    }
}

/// The list a form's rows give: none when there are no rows.
pub open spec fn list_of_rows<T>(rows: Seq<T>) -> Option<Seq<T>> {
    if rows.len() == 0 {
        None
    } else {
        Some(rows)
    }
}

/// The rows a form shows for an optional list: its items, or none.
pub open spec fn rows_of_list<T>(list: Option<Seq<T>>) -> Seq<T> {
    match list {
        Some(s) => s,
        None => Seq::empty(),
    }
}

/// The list a form's rows give (see [`list_of_rows`]).
pub fn context_list<T>(rows: Vec<T>) -> (r: Option<Vec<T>>)
    ensures
        match r {
            Some(v) => Some(v@),
            None => None,
        } == list_of_rows(rows@),
{
    if rows.len() == 0 {
        None
    } else {
        Some(rows)
    }
}

/// The rows a form shows for an optional list (see [`rows_of_list`]).
pub fn context_rows<T>(list: Option<Vec<T>>) -> (r: Vec<T>)
    ensures
        r@ == rows_of_list(
            match list {
                Some(v) => Some(v@),
                None => None,
            },
        ),
{
    match list {
        Some(v) => v,
        None => Vec::new(),
    }
}

/// Applies the context calibrator form's rows (see [`list_of_rows`]).
pub fn apply_context_calibrators(
    rows: Vec<ContextCalibrator>,
    list: &mut Option<Vec<ContextCalibrator>>,
)
    ensures
        match *final(list) {
            Some(v) => Some(v@),
            None => None,
        } == list_of_rows(rows@),
{
    *list = context_list(rows);
}

/// Applies the context significance form's rows (see [`list_of_rows`]).
pub fn apply_context_significances(
    rows: Vec<ContextSignificance>,
    list: &mut Option<Vec<ContextSignificance>>,
)
    ensures
        match *final(list) {
            Some(v) => Some(v@),
            None => None,
        } == list_of_rows(rows@),
{
    *list = context_list(rows);
}

/// A form's rows give back the list they show, unless it is a present
/// list with no items, which the form gives back as none.
pub proof fn lemma_context_list_round_trip<T>(list: Option<Seq<T>>)
    requires
        list matches Some(s) ==> s.len() > 0,
    ensures
        list_of_rows(rows_of_list(list)) == list,
{
}

} // verus!
