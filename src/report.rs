//! Endpoint reports and the algebra that folds them: many record checks into
//! one endpoint verdict, many endpoint verdicts into a report per entity.
use vstd::prelude::*;

use crate::error::{ErrorView, VerifierError};
use crate::json::Json;
use crate::location::Url;

verus! {

/// The outcome of checking one endpoint. `valid` is `Some(true)` for a
/// response that met its schemas, `Some(false)` for one that did not, and
/// `None` where no response could be judged. `output` holds the instance that
/// was checked, kept only to draw an identifier from.
pub struct EndpointReport {
    pub entity_name: String,
    pub valid: Option<bool>,
    pub error: Option<VerifierError>,
    pub output: Option<Json>,
    pub url: Option<Url>,
    pub name: String,
}

/// The report that joining `b` into the running verdict `a` gives: a failure
/// replaces a success, and nothing else replaces anything.
pub open spec fn joined_report(a: EndpointReport, b: EndpointReport) -> EndpointReport {
    if a.valid == Some(true) && b.valid != Some(true) {
        b
    } else {
        a
    }
}

/// `reports` folded with `joined_report`, starting from the first of them;
/// `empty` where there is none.
pub open spec fn folded(empty: EndpointReport, reports: Seq<EndpointReport>) -> EndpointReport
    decreases reports.len(),
{
    if reports.len() == 0 {
        empty
    } else if reports.len() == 1 {
        reports[0]
    } else {
        joined_report(folded(empty, reports.drop_last()), reports.last())
    }
}

/// What a report says, without the names it carries: its verdict, its
/// error, and the instance it kept.
pub type Verdict = (Option<bool>, Option<ErrorView>, Option<Json>);

pub open spec fn error_view(e: Option<VerifierError>) -> Option<ErrorView> {
    match e {
        Some(e) => Some(e@),
        None => None,
    }
}

pub open spec fn verdict(r: EndpointReport) -> Verdict {
    (r.valid, error_view(r.error), r.output)
}

pub open spec fn joined_verdict(a: Verdict, b: Verdict) -> Verdict {
    if a.0 == Some(true) && b.0 != Some(true) {
        b
    } else {
        a
    }
}

/// `verdicts` folded with `joined_verdict` from the first on; `empty` where there is none.
pub open spec fn folded_verdicts(empty: Verdict, verdicts: Seq<Verdict>) -> Verdict
    decreases verdicts.len(),
{
    if verdicts.len() == 0 {
        empty
    } else if verdicts.len() == 1 {
        verdicts[0]
    } else {
        joined_verdict(folded_verdicts(empty, verdicts.drop_last()), verdicts.last())
    }
}

/// Whether two reports carry the same names and URL.
pub open spec fn same_place(a: EndpointReport, b: EndpointReport) -> bool {
    &&& a.entity_name@ == b.entity_name@
    &&& a.name@ == b.name@
    &&& a.url is Some == b.url is Some
    &&& a.url is Some ==> a.url->0@ == b.url->0@
}

/// The verdict of a fold is the fold of the verdicts, and where all reports
/// carry the names and URL of `empty`, so does the fold.
pub proof fn lemma_folded_verdict(empty: EndpointReport, reports: Seq<EndpointReport>)
    ensures
        verdict(folded(empty, reports)) == folded_verdicts(verdict(empty), reports.map_values(|r: EndpointReport| verdict(r))),
        (forall|i: int| 0 <= i < reports.len() ==> same_place(#[trigger] reports[i], empty)) ==> same_place(folded(empty, reports), empty),
    decreases reports.len(),
{
    if reports.len() > 1 {
        lemma_folded_verdict(empty, reports.drop_last());
        assert(reports.drop_last().map_values(|r: EndpointReport| verdict(r)) =~= reports.map_values(|r: EndpointReport| verdict(r)).drop_last());
    }
}

impl EndpointReport {
    /// A report on the endpoint `name` of the entity `entity_name`, at `url`, with no verdict.
    pub fn new(entity_name: &str, name: &str, url: Url) -> (r: EndpointReport)
        ensures
            r.entity_name@ == entity_name@,
            r.name@ == name@,
            r.url == Some(url),
            r.valid is None,
            r.error is None,
            r.output is None,
    {
        EndpointReport {
            entity_name: String::from_str(entity_name),
            valid: None,
            error: None,
            output: None,
            url: Some(url),
            name: String::from_str(name),
        }
    }

    /// This report, marked as not judged, for the reason `e`.
    pub fn null(self, e: VerifierError) -> (r: EndpointReport)
        ensures
            r == (EndpointReport { valid: None, error: Some(e), ..self }),
    {
        EndpointReport { valid: None, error: Some(e), ..self }
    }

    /// This report, marked invalid, for the reason `e`.
    pub fn error(self, e: VerifierError) -> (r: EndpointReport)
        ensures
            r == (EndpointReport { valid: Some(false), error: Some(e), ..self }),
    {
        EndpointReport { valid: Some(false), error: Some(e), ..self }
    }

    /// This report, marked valid, keeping `j` as the instance checked.
    pub fn ok(self, j: Option<Json>) -> (r: EndpointReport)
        ensures
            r == (EndpointReport { valid: Some(true), output: j, ..self }),
    {
        EndpointReport { valid: Some(true), output: j, ..self }
    }

    /// This report, at `url`.
    pub fn url(self, url: Url) -> (r: EndpointReport)
        ensures
            r == (EndpointReport { url: Some(url), ..self }),
    {
        EndpointReport { url: Some(url), ..self }
    }

    /// Combines this verdict with the next one, `report2`: a failure takes
    /// the place of a success; a failure stays, and a success keeps its instance.
    pub fn join(self, report2: Self) -> (r: Self)
        ensures
            r == joined_report(self, report2),
            self.valid != Some(true) ==> r == self,
    {
        let replace = match (&self.valid, &report2.valid) {
            (Some(true), Some(true)) => false,
            (Some(true), _) => true,
            _ => false,
        };
        if replace {
            report2
        } else {
            self
        }
    }
}

/// Folds `reports` into one verdict, from the first report on; `empty` where
/// there is no report.
pub fn fold_reports(empty: EndpointReport, reports: Vec<EndpointReport>) -> (r: EndpointReport)
    ensures
        r == folded(empty, reports@),
{
    let ghost all = reports@;
    let mut rest = reports;
    if rest.len() == 0 {
        return empty;
    }
    let total = rest.len();
    let mut acc = rest.remove(0);
    let mut k: usize = 1;
    assert(all.subrange(0, 1) =~= seq![all[0]]);
    while rest.len() > 0
        invariant
            k + rest@.len() == all.len(),
            all.len() == total,
            k >= 1,
            rest@ == all.subrange(k as int, all.len() as int),
            acc == folded(empty, all.subrange(0, k as int)),
        decreases rest@.len(),
    {
        let next = rest.remove(0);
        let ghost pre = all.subrange(0, k as int);
        assert(all.subrange(0, k + 1).drop_last() =~= pre);
        assert(all.subrange(0, k + 1).last() == next);
        assert(rest@ =~= all.subrange(k + 1, all.len() as int));
        acc = acc.join(next);
        k = k + 1;
    }
    assert(all.subrange(0, k as int) =~= all);
    acc
}

/// Once the running verdict has failed, joining any report leaves it as it is.
pub proof fn lemma_join_keeps_failure(x: EndpointReport, y: EndpointReport)
    requires
        x.valid != Some(true),
    ensures
        joined_report(x, y) == x,
{
}

/// Folding reports that are all valid gives the first of them, with its instance.
pub proof fn lemma_fold_valid_keeps_first(empty: EndpointReport, reports: Seq<EndpointReport>)
    requires
        reports.len() > 0,
        forall|i: int| 0 <= i < reports.len() ==> reports[i].valid == Some(true),
    ensures
        folded(empty, reports) == reports[0],
        folded(empty, reports).output == reports[0].output,
    decreases reports.len(),
{
    if reports.len() > 1 {
        lemma_fold_valid_keeps_first(empty, reports.drop_last());
    }
}

/// Folding verdicts that are all valid gives the first of them.
pub proof fn lemma_valid_verdicts_keep_first(empty: Verdict, verdicts: Seq<Verdict>)
    requires
        verdicts.len() > 0,
        forall|i: int| 0 <= i < verdicts.len() ==> (#[trigger] verdicts[i]).0 == Some(true),
    ensures
        folded_verdicts(empty, verdicts) == verdicts[0],
    decreases verdicts.len(),
{
    if verdicts.len() > 1 {
        lemma_valid_verdicts_keep_first(empty, verdicts.drop_last());
    }
}

} // verus!
