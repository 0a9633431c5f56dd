//! The order in which a beacon is checked, as a state machine: the caller asks
//! for the next URL to fetch, fetches it, and hands back what came of it.
//! Framework-level endpoints come first; then, entity by entity, the collection
//! endpoint, and after it the endpoints that need the identifier it yields.
use vstd::prelude::*;

use crate::beacon::{
    framework_endpoints, framework_label, framework_location, framework_schema, framework_verdict, identifier,
    location_url, report_id, under, Beacon, FrameworkEndpoint,
};
use crate::endpoint::{fetched_verdict, registry_doc, BeaconEndpoint};
use crate::error::VerifierError;
use crate::json::{compiled_doc, Json};
use crate::location::{joined, Url};
use crate::model::{plans, step_endpoint, step_reason, Step};
use crate::output::{by_name, pushed, pushed_all, BeaconOutput, Output};
use crate::report::{error_view, verdict, EndpointReport};

verus! {

/// The endpoint whose answer the run is waiting for.
pub enum Pending {
    Framework(FrameworkEndpoint),
    Collection(usize, BeaconEndpoint),
    FollowUp(BeaconEndpoint),
}

/// A run of the checks on one beacon.
pub struct Run {
    pub beacon: Beacon,
    pub output: Output,
    /// The framework-level endpoints not yet asked for, in order.
    pub framework: Vec<FrameworkEndpoint>,
    /// The next entity whose collection endpoint is to be asked for.
    pub entity: usize,
    /// The endpoints of the current entity not yet asked for, in order.
    pub queue: Vec<Step>,
    pub pending: Option<Pending>,
}

/// The number of entities of a beacon's model; none without a model.
pub open spec fn entity_count(b: Beacon) -> int {
    match b.model {
        Some(m) => m.entities@.len() as int,
        None => 0,
    }
}

/// Whether `rep` is the report on the skipped step `s` under `root`.
pub open spec fn skip_report(s: Step, rep: EndpointReport, root: Url) -> bool {
    let ep = step_endpoint(s);
    &&& s is Skip
    &&& rep.entity_name@ == ep.entity_name@
    &&& rep.name@ == ep.name@
    &&& rep.url matches Some(u) && u@ == joined(root@, ep.url@)
    &&& verdict(rep) == (None::<bool>, error_view(step_reason(s)), None::<Json>)
}

/// Whether `rep` is the report on the endpoint `ep` of `b`'s model, judged
/// from `response`.
pub open spec fn endpoint_report(b: Beacon, ep: BeaconEndpoint, response: Result<Json, VerifierError>, rep: EndpointReport) -> bool {
    &&& b.model is Some
    &&& rep.entity_name@ == ep.entity_name@
    &&& rep.name@ == ep.name@
    &&& rep.url matches Some(u) && u@ == joined(b.url@, ep.url@)
    &&& verdict(rep) == fetched_verdict(response, b.framework.responses, registry_doc(b.model->0.registry, ep.entity_schema as int))
}

/// Whether `rep` is the report on the framework-level endpoint `f` of `b`,
/// judged from `response`.
pub open spec fn framework_report(b: Beacon, f: FrameworkEndpoint, response: Result<Json, VerifierError>, rep: EndpointReport) -> bool {
    &&& rep.entity_name@ == framework_label(f)
    &&& rep.name@ == b.name@
    &&& rep.url matches Some(u) && u@ == under(b.url@, framework_location(f))
    &&& verdict(rep) == framework_verdict(compiled_doc(framework_schema(b.framework, f)), response)
}

/// Whether `id` is the identifier that the report `rep` yields.
pub open spec fn yields(rep: EndpointReport, id: Option<String>) -> bool {
    match id {
        Some(t) => report_id(rep.valid, rep.output) == Some(t@),
        None => report_id(rep.valid, rep.output) is None,
    }
}

impl Run {
    pub open spec fn wf(&self) -> bool {
        &&& self.output.wf()
        &&& self.beacon.model matches Some(m) ==> m.wf()
        &&& self.entity <= entity_count(self.beacon)
        &&& self.pending matches Some(Pending::Collection(i, _)) ==> i < entity_count(self.beacon)
        &&& (self.queue@.len() > 0 || self.pending matches Some(Pending::FollowUp(_))) ==> self.beacon.model is Some
    }

    /// A run that has checked nothing yet.
    pub fn new(beacon: Beacon) -> (r: Run)
        requires
            beacon.model matches Some(m) ==> m.wf(),
        ensures
            r.wf(),
            r.beacon == beacon,
            r.pending is None,
            r.entity == 0,
            r.queue@.len() == 0,
            r.framework@ == seq![FrameworkEndpoint::Info, FrameworkEndpoint::Configuration, FrameworkEndpoint::BeaconMap, FrameworkEndpoint::EntryTypes],
            r.output.groups().len() == 0,
    {
        Run { beacon, output: Output::new(), framework: framework_endpoints(), entity: 0, queue: Vec::new(), pending: None }
    }

    /// The URL to fetch next, or `None` once every endpoint has been checked.
    /// Framework-level endpoints come first, in order. Then the endpoints left
    /// of the current entity: those to be reported without a call are reported
    /// on the way, up to the first to be called. Then the collection endpoint
    /// of the next entity.
    pub fn next_request(&mut self) -> (r: Option<Url>)
        requires
            old(self).wf(),
            old(self).pending is None,
        ensures
            final(self).wf(),
            final(self).beacon == old(self).beacon,
            r is Some <==> final(self).pending is Some,
            old(self).framework@.len() > 0 ==> {
                let f = old(self).framework@[0];
                &&& final(self).pending == Some(Pending::Framework(f))
                &&& final(self).framework@ == old(self).framework@.drop_first()
                &&& r matches Some(u) && u@ == under(old(self).beacon.url@, framework_location(f))
                &&& final(self).output == old(self).output
                &&& final(self).queue@ == old(self).queue@
                &&& final(self).entity == old(self).entity
            },
            old(self).framework@.len() == 0 ==> exists|reps: Seq<EndpointReport>| {
                &&& reps.len() <= old(self).queue@.len()
                &&& forall|t: int| 0 <= t < reps.len() ==> skip_report(old(self).queue@[t], #[trigger] reps[t], old(self).beacon.url)
                &&& final(self).output.groups() == #[trigger] pushed_all(old(self).output.groups(), reps)
                &&& final(self).framework@.len() == 0
                &&& if reps.len() < old(self).queue@.len() {
                    &&& old(self).queue@[reps.len() as int] matches Step::Call(ep)
                    &&& final(self).pending == Some(Pending::FollowUp(ep))
                    &&& r matches Some(u) && u@ == joined(old(self).beacon.url@, ep.url@)
                    &&& final(self).queue@ == old(self).queue@.subrange(reps.len() as int + 1, old(self).queue@.len() as int)
                    &&& final(self).entity == old(self).entity
                } else if old(self).entity < entity_count(old(self).beacon) {
                    &&& final(self).queue@.len() == 0
                    &&& final(self).pending matches Some(Pending::Collection(i, ep))
                    &&& i == old(self).entity
                    &&& ep.entity_name@ == old(self).beacon.model->0.entities@[i as int].name@
                    &&& ep.name@ == old(self).beacon.model->0.entities@[i as int].name@ + " all entries"@
                    &&& ep.entity_schema == old(self).beacon.model->0.entities@[i as int].schema
                    &&& ep.url@ == old(self).beacon.model->0.entities@[i as int].url@
                    &&& r matches Some(u) && u@ == joined(old(self).beacon.url@, ep.url@)
                    &&& final(self).entity == old(self).entity + 1
                } else {
                    &&& final(self).queue@.len() == 0
                    &&& r is None
                    &&& final(self).entity == old(self).entity
                }
            },
    {
        if self.framework.len() > 0 {
            let f = self.framework.remove(0);
            let location = f.location();
            let url = location_url(&self.beacon.url, location.as_str());
            self.pending = Some(Pending::Framework(f));
            return Some(url);
        }
        let ghost q0 = self.queue@;
        let ghost g0 = self.output.groups();
        let ghost mut reps: Seq<EndpointReport> = Seq::empty();
        let qlen = self.queue.len();
        let mut k: usize = 0;
        while self.queue.len() > 0
            invariant
                self.wf(),
                self.pending is None,
                self.framework@.len() == 0,
                old(self).framework@.len() == 0,
                self.entity == old(self).entity,
                self.beacon == old(self).beacon,
                q0 == old(self).queue@,
                g0 == old(self).output.groups(),
                k <= q0.len(),
                q0.len() == qlen,
                self.queue@ == q0.subrange(k as int, q0.len() as int),
                reps.len() == k,
                forall|t: int| 0 <= t < k ==> skip_report(q0[t], #[trigger] reps[t], self.beacon.url),
                self.output.groups() == pushed_all(g0, reps),
            decreases self.queue@.len(),
        {
            let step = self.queue.remove(0);
            assert(step == q0[k as int]);
            assert(self.queue@ =~= q0.subrange(k + 1, q0.len() as int));
            match step {
                Step::Call(ep) => {
                    let url = ep.endpoint_url(&self.beacon.url);
                    self.pending = Some(Pending::FollowUp(ep));
                    assert(self.beacon.model is Some);
                    return Some(url);
                },
                Step::Skip(ep, reason) => {
                    let ghost s = Step::Skip(ep, reason);
                    let report = ep.skipped(&self.beacon.url, reason);
                    let ghost old_reps = reps;
                    proof {
                        assert(skip_report(s, report, self.beacon.url));
                        reps = reps.push(report);
                        assert(reps.drop_last() =~= old_reps);
                    }
                    self.output.push(report);
                    proof {
                        assert forall|t: int| 0 <= t < k + 1 implies skip_report(q0[t], #[trigger] reps[t], self.beacon.url) by {
                            if t < k {
                                assert(reps[t] == old_reps[t]);
                            }
                        }
                    }
                    k = k + 1;
                },
            }
        }
        match &self.beacon.model {
            Some(model) => {
                if self.entity < model.entities.len() {
                    let ep = model.collection_endpoint(self.entity);
                    let url = ep.endpoint_url(&self.beacon.url);
                    self.pending = Some(Pending::Collection(self.entity, ep));
                    self.entity = self.entity + 1;
                    Some(url)
                } else {
                    None
                }
            },
            None => None,
        }
    }

    /// Takes what came of fetching the pending endpoint: its report is
    /// recorded, and a collection endpoint's report yields the identifier for
    /// the entity's remaining endpoints.
    pub fn answer(&mut self, response: Result<Json, VerifierError>)
        requires
            old(self).wf(),
            old(self).pending is Some,
        ensures
            final(self).wf(),
            final(self).pending is None,
            final(self).beacon == old(self).beacon,
            final(self).framework@ == old(self).framework@,
            final(self).entity == old(self).entity,
            exists|rep: EndpointReport| {
                &&& final(self).output.groups() == pushed(old(self).output.groups(), rep)
                &&& match old(self).pending->0 {
                    Pending::Framework(f) => framework_report(old(self).beacon, f, response, rep)
                        && final(self).queue@ == old(self).queue@,
                    Pending::FollowUp(ep) => endpoint_report(old(self).beacon, ep, response, rep)
                        && final(self).queue@ == old(self).queue@,
                    Pending::Collection(i, ep) => endpoint_report(old(self).beacon, ep, response, rep)
                        && exists|id: Option<String>| yields(rep, id) && plans(old(self).beacon.model->0, i as int, id, final(self).queue@),
                }
            },
    {
        let pending = self.pending.take();
        match pending {
            Some(Pending::Framework(f)) => {
                let label = f.label();
                let location = f.location();
                let report = self.beacon.validate_against_framework(
                    label.as_str(),
                    location.as_str(),
                    self.beacon.framework.schema_for(f),
                    response,
                );
                let ghost rep = report;
                self.output.push(report);
                assert(framework_report(self.beacon, f, response, rep));
            },
            Some(Pending::Collection(i, ep)) => {
                match &self.beacon.model {
                    Some(model) => {
                        let ghost e = ep;
                        let report = ep.validate(&self.beacon.url, response, &self.beacon.framework.responses, &model.registry);
                        let id = identifier(&report);
                        let ghost witness = id;
                        let ghost rep = report;
                        self.queue = model.endpoints(i, id);
                        self.output.push(report);
                        assert(endpoint_report(self.beacon, e, response, rep));
                        assert(yields(rep, witness));
                        assert(plans(self.beacon.model->0, i as int, witness, self.queue@));
                    },
                    None => {},
                }
            },
            Some(Pending::FollowUp(ep)) => {
                match &self.beacon.model {
                    Some(model) => {
                        let ghost e = ep;
                        let report = ep.validate(&self.beacon.url, response, &self.beacon.framework.responses, &model.registry);
                        let ghost rep = report;
                        self.output.push(report);
                        assert(endpoint_report(self.beacon, e, response, rep));
                    },
                    None => {},
                }
            },
            None => {},
        }
    }

    /// The report on the beacon, made at `last_updated`: the reports gathered,
    /// grouped by entity, each group ordered by endpoint name.
    pub fn finish(self, last_updated: String) -> (r: BeaconOutput)
        requires
            self.wf(),
        ensures
            r.name == self.beacon.name,
            r.url == self.beacon.url,
            r.last_updated == last_updated,
            r.entities@.len() == self.output.groups().len(),
            forall|i: int| 0 <= i < r.entities@.len() ==> {
                &&& (#[trigger] r.entities@[i]).0@ == self.output.groups()[i].0
                &&& by_name(r.entities@[i].1@)
                &&& r.entities@[i].1@.to_multiset() == self.output.groups()[i].1.to_multiset()
            },
    {
        let Run { beacon, output, framework: _, entity: _, queue: _, pending: _ } = self;
        let entities = output.finish();
        BeaconOutput { name: beacon.name, url: beacon.url, last_updated, entities }
    }
}

} // verus!
