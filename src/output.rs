//! Gathering endpoint reports into the beacon's output: one list per entity,
//! each list ordered by display name.
use vstd::prelude::*;

use crate::error::VerifierError;
use crate::location::Url;
use crate::report::EndpointReport;

verus! {

broadcast use vstd::seq_lib::group_to_multiset_ensures;

/// What the output says of one endpoint.
pub struct EndpointOutput {
    pub name: String,
    pub url: Option<Url>,
    pub valid: Option<bool>,
    pub error: Option<VerifierError>,
}

/// Whether `a` comes no later than `b` in the order of their characters' code
/// points, a prefix first.
pub open spec fn text_le(a: Seq<char>, b: Seq<char>) -> bool
    decreases a.len(),
{
    if a.len() == 0 {
        true
    } else if b.len() == 0 {
        false
    } else if (a[0] as u32) != (b[0] as u32) {
        (a[0] as u32) < (b[0] as u32)
    } else {
        text_le(a.subrange(1, a.len() as int), b.subrange(1, b.len() as int))
    }
}

proof fn lemma_text_le_total(a: Seq<char>, b: Seq<char>)
    ensures
        text_le(a, b) || text_le(b, a),
    decreases a.len(),
{
    if a.len() > 0 && b.len() > 0 && (a[0] as u32) == (b[0] as u32) {
        lemma_text_le_total(a.subrange(1, a.len() as int), b.subrange(1, b.len() as int));
    }
}

/// Whether `a` comes no later than `b`; see `text_le`.
pub fn name_le(a: &str, b: &str) -> (r: bool)
    ensures
        r == text_le(a@, b@),
{
    let n = a.unicode_len();
    let m = b.unicode_len();
    let mut i: usize = 0;
    assert(a@.subrange(0, n as int) =~= a@);
    assert(b@.subrange(0, m as int) =~= b@);
    while i < n && i < m
        invariant
            n == a@.len(),
            m == b@.len(),
            i <= n,
            i <= m,
            text_le(a@, b@) == text_le(a@.subrange(i as int, n as int), b@.subrange(i as int, m as int)),
        decreases n - i,
    {
        let x = a.get_char(i) as u32;
        let y = b.get_char(i) as u32;
        let ghost ra = a@.subrange(i as int, n as int);
        let ghost rb = b@.subrange(i as int, m as int);
        assert(ra[0] == a@[i as int]);
        assert(rb[0] == b@[i as int]);
        if x != y {
            return x < y;
        }
        assert(ra.subrange(1, ra.len() as int) =~= a@.subrange(i + 1, n as int));
        assert(rb.subrange(1, rb.len() as int) =~= b@.subrange(i + 1, m as int));
        i = i + 1;
    }
    i == n
}

/// Whether the outputs are ordered by name.
pub open spec fn by_name(s: Seq<EndpointOutput>) -> bool {
    forall|i: int| 0 <= i < s.len() - 1 ==> text_le((#[trigger] s[i]).name@, s[i + 1].name@)
}

/// The outputs ordered by name.
pub fn sort_by_name(v: Vec<EndpointOutput>) -> (r: Vec<EndpointOutput>)
    ensures
        by_name(r@),
        r@.to_multiset() == v@.to_multiset(),
{
    let ghost all = v@;
    let mut rest = v;
    let mut out: Vec<EndpointOutput> = Vec::new();
    let total = rest.len();
    let mut k: usize = 0;
    while rest.len() > 0
        invariant
            k + rest@.len() == all.len(),
            all.len() == total,
            rest@ == all.subrange(k as int, all.len() as int),
            by_name(out@),
            out@.to_multiset() == all.subrange(0, k as int).to_multiset(),
        decreases rest@.len(),
    {
        let x = rest.remove(0);
        assert(rest@ =~= all.subrange(k + 1, all.len() as int));
        let mut p: usize = 0;
        while p < out.len() && name_le(out[p].name.as_str(), x.name.as_str())
            invariant
                p <= out@.len(),
                by_name(out@),
                forall|j: int| 0 <= j < p ==> text_le((#[trigger] out@[j]).name@, x.name@),
            decreases out@.len() - p,
        {
            p = p + 1;
        }
        if p < out.len() {
            proof {
                lemma_text_le_total(out@[p as int].name@, x.name@);
            }
        }
        let ghost before = out@;
        out.insert(p, x);
        assert(out@ == before.insert(p as int, x));
        assert(by_name(out@)) by {
            assert forall|i: int| 0 <= i < out@.len() - 1 implies text_le((#[trigger] out@[i]).name@, out@[i + 1].name@) by {
                if i < p - 1 {
                    assert(out@[i] == before[i] && out@[i + 1] == before[i + 1]);
                } else if i == p - 1 {
                    assert(out@[i] == before[i]);
                } else if i == p {
                    assert(out@[i + 1] == before[i]);
                } else {
                    assert(out@[i] == before[i - 1] && out@[i + 1] == before[i]);
                }
            }
        }
        proof {
            vstd::seq_lib::to_multiset_insert(before, p as int, x);
            assert(all.subrange(0, k + 1) =~= all.subrange(0, k as int).push(x));
        }
        k = k + 1;
    }
    assert(all.subrange(0, k as int) =~= all);
    out
}

/// The output of one endpoint, taken from its report.
pub open spec fn output_of(r: EndpointReport) -> EndpointOutput {
    EndpointOutput { name: r.name, url: r.url, valid: r.valid, error: r.error }
}

/// The position of the entity `name` among the groups.
pub open spec fn group_index(keys: Seq<Seq<char>>, name: Seq<char>) -> Option<int>
    decreases keys.len(),
{
    if keys.len() == 0 {
        None
    } else {
        match group_index(keys.drop_last(), name) {
            Some(i) => Some(i),
            None => if keys.last() == name {
                Some(keys.len() - 1)
            } else {
                None
            },
        }
    }
}

proof fn lemma_group_index(keys: Seq<Seq<char>>, name: Seq<char>)
    ensures
        group_index(keys, name) matches Some(i) ==> 0 <= i < keys.len() && keys[i] == name,
        group_index(keys, name) is None ==> forall|j: int| 0 <= j < keys.len() ==> keys[j] != name,
    decreases keys.len(),
{
    if keys.len() > 0 {
        lemma_group_index(keys.drop_last(), name);
        if group_index(keys, name) is None {
            assert forall|j: int| 0 <= j < keys.len() implies keys[j] != name by {
                if j < keys.len() - 1 {
                    assert(keys.drop_last()[j] == keys[j]);
                }
            }
        }
    }
}

proof fn lemma_group_index_unique(keys: Seq<Seq<char>>, name: Seq<char>, i: int)
    requires
        0 <= i < keys.len(),
        keys[i] == name,
        forall|a: int, b: int| 0 <= a < b < keys.len() ==> keys[a] != keys[b],
    ensures
        group_index(keys, name) == Some(i),
    decreases keys.len(),
{
    if i < keys.len() - 1 {
        lemma_group_index_unique(keys.drop_last(), name, i);
    } else {
        lemma_group_index(keys.drop_last(), name);
    }
}

/// The entity name of a report, and its output.
fn split_report(report: EndpointReport) -> (r: (String, EndpointOutput))
    ensures
        r.0@ == report.entity_name@,
        r.1 == output_of(report),
{
    let EndpointReport { entity_name, valid, error, output: _, url, name } = report;
    (entity_name, EndpointOutput { name, url, valid, error })
}

/// The groups after the output of `report` is added at the end of its
/// entity's group, or in a new group at the end where the entity has none.
pub open spec fn pushed(g: Seq<(Seq<char>, Seq<EndpointOutput>)>, report: EndpointReport) -> Seq<(Seq<char>, Seq<EndpointOutput>)> {
    match group_index(group_names(g), report.entity_name@) {
        Some(k) => g.update(k, (g[k].0, g[k].1.push(output_of(report)))),
        None => g.push((report.entity_name@, seq![output_of(report)])),
    }
}

/// The groups after the outputs of `reports` are added, in order.
pub open spec fn pushed_all(g: Seq<(Seq<char>, Seq<EndpointOutput>)>, reports: Seq<EndpointReport>) -> Seq<(Seq<char>, Seq<EndpointOutput>)>
    decreases reports.len(),
{
    if reports.len() == 0 {
        g
    } else {
        pushed(pushed_all(g, reports.drop_last()), reports.last())
    }
}

/// The reports gathered so far, one group per entity, in the order in which
/// entities first reported.
pub struct Output {
    pub results: Vec<(String, Vec<EndpointOutput>)>,
}

pub open spec fn group_keys(g: Seq<(String, Vec<EndpointOutput>)>) -> Seq<Seq<char>> {
    g.map_values(|e: (String, Vec<EndpointOutput>)| e.0@)
}

pub open spec fn group_names(g: Seq<(Seq<char>, Seq<EndpointOutput>)>) -> Seq<Seq<char>> {
    g.map_values(|e: (Seq<char>, Seq<EndpointOutput>)| e.0)
}

pub open spec fn distinct(keys: Seq<Seq<char>>) -> bool {
    forall|a: int, b: int| 0 <= a < b < keys.len() ==> keys[a] != keys[b]
}

impl Output {
    /// The groups: each entity's name and its endpoints' outputs, in the order pushed.
    pub open spec fn groups(&self) -> Seq<(Seq<char>, Seq<EndpointOutput>)> {
        self.results@.map_values(|e: (String, Vec<EndpointOutput>)| (e.0@, e.1@))
    }

    /// No entity has two groups.
    pub open spec fn wf(&self) -> bool {
        distinct(group_keys(self.results@))
    }

    pub fn new() -> (r: Output)
        ensures
            r.wf(),
            r.groups() == Seq::<(Seq<char>, Seq<EndpointOutput>)>::empty(),
    {
        let r = Output { results: Vec::new() };
        assert(r.groups() =~= Seq::<(Seq<char>, Seq<EndpointOutput>)>::empty());
        r
    }

    /// Adds the output of `report` at the end of its entity's group, opening
    /// the group where the entity has none yet.
    pub fn push(&mut self, report: EndpointReport)
        requires
            old(self).wf(),
        ensures
            final(self).wf(),
            final(self).groups() == pushed(old(self).groups(), report),
    {
        let ghost g = self.groups();
        let ghost keys = group_names(g);
        assert(keys =~= group_keys(self.results@));
        let ghost out = output_of(report);
        let (entity_name, item) = split_report(report);
        let mut k: usize = 0;
        let mut found = false;
        while k < self.results.len() && !found
            invariant
                k <= self.results@.len(),
                keys == group_keys(self.results@),
                g == self.groups(),
                found ==> k < self.results@.len() && keys[k as int] == entity_name@,
                forall|j: int| 0 <= j < k ==> keys[j] != entity_name@,
            decreases self.results@.len() - k + if found { 0int } else { 1int },
        {
            if crate::interface::text_eq(self.results[k].0.as_str(), entity_name.as_str()) {
                found = true;
            } else {
                k = k + 1;
            }
        }
        if found {
            proof {
                lemma_group_index_unique(keys, entity_name@, k as int);
            }
            let ghost before = self.results@;
            let (key, mut list) = self.results.remove(k);
            assert(key@ == g[k as int].0 && list@ == g[k as int].1);
            list.push(item);
            assert(list@ =~= g[k as int].1.push(out));
            let ghost entry = (key@, list@);
            self.results.insert(k, (key, list));
            assert(self.results@ =~= before.update(k as int, self.results@[k as int]));
            assert forall|j: int| 0 <= j < g.len() implies #[trigger] self.groups()[j] == g.update(k as int, entry)[j] by {
                if j != k {
                    assert(self.results@[j] == before[j]);
                }
            }
            assert(self.groups() =~= g.update(k as int, (g[k as int].0, g[k as int].1.push(out))));
            assert(group_keys(self.results@) =~= keys);
        } else {
            proof {
                lemma_group_index(keys, entity_name@);
                if let Some(i) = group_index(keys, entity_name@) {
                    assert(keys[i] == entity_name@);
                }
            }
            let ghost ename = entity_name@;
            let ghost before = self.results@;
            self.results.push((entity_name, vec![item]));
            assert(self.results@[before.len() as int].1@ =~= seq![out]);
            assert(self.groups() =~= g.push((ename, seq![out])));
            assert(group_keys(self.results@) =~= keys.push(ename));
        }
    }

    /// The groups, each ordered by endpoint name.
    pub fn finish(self) -> (r: Vec<(String, Vec<EndpointOutput>)>)
        requires
            self.wf(),
        ensures
            r@.len() == self.groups().len(),
            forall|i: int| 0 <= i < r@.len() ==> {
                &&& (#[trigger] r@[i]).0@ == self.groups()[i].0
                &&& by_name(r@[i].1@)
                &&& r@[i].1@.to_multiset() == self.groups()[i].1.to_multiset()
            },
    {
        let ghost g = self.groups();
        let mut rest = self.results;
        let ghost all = rest@;
        assert(g =~= all.map_values(|e: (String, Vec<EndpointOutput>)| (e.0@, e.1@)));
        let total = rest.len();
        let mut out: Vec<(String, Vec<EndpointOutput>)> = Vec::new();
        let mut k: usize = 0;
        while rest.len() > 0
            invariant
                k + rest@.len() == all.len(),
                all.len() == total,
                g.len() == all.len(),
                g == all.map_values(|e: (String, Vec<EndpointOutput>)| (e.0@, e.1@)),
                rest@ == all.subrange(k as int, all.len() as int),
                out@.len() == k,
                forall|i: int| 0 <= i < k ==> {
                    &&& (#[trigger] out@[i]).0@ == g[i].0
                    &&& by_name(out@[i].1@)
                    &&& out@[i].1@.to_multiset() == g[i].1.to_multiset()
                },
            decreases rest@.len(),
        {
            let (key, list) = rest.remove(0);
            assert(rest@ =~= all.subrange(k + 1, all.len() as int));
            let sorted = sort_by_name(list);
            out.push((key, sorted));
            k = k + 1;
        }
        out
    }
}

/// The report on one beacon: its name and URL, when the report was made, and
/// each entity's endpoint outputs ordered by name.
pub struct BeaconOutput {
    pub name: String,
    pub url: Url,
    pub last_updated: String,
    pub entities: Vec<(String, Vec<EndpointOutput>)>,
}

impl BeaconOutput {
    /// The report on a beacon whose `/info` endpoint could not be reached:
    /// named `Unknown Beacon (<reason>)`, with no entity.
    pub fn unreachable(reason: &str, url: Url, last_updated: String) -> (r: BeaconOutput)
        ensures
            r.name@ == "Unknown Beacon ("@ + reason@ + ")"@,
            r.url == url,
            r.last_updated == last_updated,
            r.entities@.len() == 0,
    {
        let mut name = String::from_str("Unknown Beacon (");
        name.append(reason);
        name.append(")");
        BeaconOutput { name, url, last_updated, entities: Vec::new() }
    }
}

/// Whether every endpoint of an entity was judged valid.
pub open spec fn all_valid(s: Seq<EndpointOutput>) -> bool {
    forall|i: int| 0 <= i < s.len() ==> (#[trigger] s[i]).valid == Some(true)
}

/// Whether every endpoint in `outputs` was judged valid: the entity passes.
pub fn entity_passed(outputs: &Vec<EndpointOutput>) -> (r: bool)
    ensures
        r == all_valid(outputs@),
{
    let mut i: usize = 0;
    while i < outputs.len()
        invariant
            i <= outputs.len(),
            forall|j: int| 0 <= j < i ==> (#[trigger] outputs@[j]).valid == Some(true),
        decreases outputs.len() - i,
    {
        match outputs[i].valid {
            Some(true) => {},
            _ => return false,
        }
        i = i + 1;
    }
    true
}

} // verus!
