//! The entity model: entry types resolved against the endpoint map, each entity
//! bound to its compiled record schema, and the endpoints that checking an
//! entity visits.
use vstd::prelude::*;

use crate::endpoint::{BeaconEndpoint, SchemaRegistry};
use crate::error::VerifierError;
use crate::interface::{text_eq, EntryType};
use crate::beacon::compiled_from;
use crate::json::{compile_schema, Json, Schema};
use crate::location::{copy_url, hierarchical, path_segments, substitute, substituted, url_parts, Url};

verus! {

/// An endpoint that, given an identifier of one entity, returns records of
/// another entry type.
#[derive(Clone, Debug)]
pub struct RelatedEndpoint {
    pub returned_entry_type: String,
    pub url: Url,
}

/// One set of endpoints of the endpoint map: the entry type it serves and its URL templates.
#[derive(Clone, Debug)]
pub struct Endpoint {
    pub entry_type: String,
    pub open_apiendpoints_definition: Option<String>,
    pub root_url: Url,
    pub single_entry_url: Option<Url>,
    pub filtering_terms_url: Option<Url>,
    pub endpoints: Option<Vec<(String, RelatedEndpoint)>>,
}

/// A resolved entity: its display name, its URL templates, and the index of
/// its record schema in the model's registry.
pub struct Entity {
    pub name: String,
    pub url: Url,
    pub url_single: Option<Url>,
    pub schema: usize,
    pub filtering_terms_url: Option<Url>,
    pub related_endpoints: Option<Vec<(String, RelatedEndpoint)>>,
}

/// The resolved model: the entities, the `(id, name)` of each declared entry
/// type, the compiled record schemas (one per referenced schema document),
/// and for each entry type, in the order of `entities_names`, the position of
/// its schema in the registry.
pub struct Model {
    pub entities: Vec<Entity>,
    pub entities_names: Vec<(String, String)>,
    pub registry: SchemaRegistry,
    pub schema_slots: Vec<usize>,
}

pub open spec fn type_refs(types: Seq<(EntryType, Json)>) -> Seq<Seq<char>> {
    types.map_values(|t: (EntryType, Json)| t.0.default_schema.reference_to_schema_definition@)
}

/// Whether some entry type has its schema at position `s`.
pub open spec fn slot_used(slots: Seq<usize>, s: int) -> bool {
    exists|k: int| 0 <= k < slots.len() && #[trigger] slots[k] == s
}

/// The position of a text among `v`; any, where it occurs.
fn find_text(v: &Vec<String>, t: &str) -> (r: Option<usize>)
    ensures
        r matches Some(i) ==> i < v@.len() && v@[i as int]@ == t@,
        r is None ==> forall|i: int| 0 <= i < v@.len() ==> (#[trigger] v@[i])@ != t@,
{
    let mut k: usize = 0;
    while k < v.len()
        invariant
            k <= v@.len(),
            forall|i: int| 0 <= i < k ==> (#[trigger] v@[i])@ != t@,
        decreases v.len() - k,
    {
        if text_eq(v[k].as_str(), t) {
            return Some(k);
        }
        k = k + 1;
    }
    None
}

/// The position of the first entry type whose id is `id`.
pub open spec fn type_index(ids: Seq<Seq<char>>, id: Seq<char>) -> Option<int>
    decreases ids.len(),
{
    if ids.len() == 0 {
        None
    } else {
        match type_index(ids.drop_last(), id) {
            Some(i) => Some(i),
            None => if ids.last() == id {
                Some(ids.len() - 1)
            } else {
                None
            },
        }
    }
}

pub open spec fn first_ids(pairs: Seq<(String, String)>) -> Seq<Seq<char>> {
    pairs.map_values(|p: (String, String)| p.0@)
}

pub open spec fn type_ids(types: Seq<(EntryType, Json)>) -> Seq<Seq<char>> {
    types.map_values(|t: (EntryType, Json)| t.0.id@)
}

proof fn lemma_type_index_bounds(ids: Seq<Seq<char>>, id: Seq<char>)
    ensures
        type_index(ids, id) matches Some(i) ==> 0 <= i < ids.len() && ids[i] == id,
        type_index(ids, id) is None ==> forall|j: int| 0 <= j < ids.len() ==> ids[j] != id,
    decreases ids.len(),
{
    if ids.len() > 0 {
        lemma_type_index_bounds(ids.drop_last(), id);
        if type_index(ids, id) is None {
            assert forall|j: int| 0 <= j < ids.len() implies ids[j] != id by {
                if j < ids.len() - 1 {
                    assert(ids.drop_last()[j] == ids[j]);
                }
            }
        }
    }
}

proof fn lemma_type_index_extend(ids: Seq<Seq<char>>, id: Seq<char>, k: int)
    requires
        0 <= k <= ids.len(),
        type_index(ids.subrange(0, k), id) is Some,
    ensures
        type_index(ids, id) == type_index(ids.subrange(0, k), id),
    decreases ids.len() - k,
{
    if k < ids.len() {
        assert(ids.subrange(0, k + 1).drop_last() =~= ids.subrange(0, k));
        lemma_type_index_extend(ids, id, k + 1);
    } else {
        assert(ids.subrange(0, k) =~= ids);
    }
}

proof fn lemma_type_index_step(ids: Seq<Seq<char>>, id: Seq<char>, k: int)
    requires
        0 <= k < ids.len(),
        type_index(ids.subrange(0, k), id) is None,
    ensures
        ids[k] == id ==> type_index(ids.subrange(0, k + 1), id) == Some(k),
        ids[k] != id ==> type_index(ids.subrange(0, k + 1), id) is None,
{
    assert(ids.subrange(0, k + 1).drop_last() =~= ids.subrange(0, k));
}

/// The position of the first of `ids` that equals `id`.
fn find_index(ids: &Vec<(String, String)>, id: &str) -> (r: Option<usize>)
    ensures
        r matches Some(i) ==> type_index(first_ids(ids@), id@) == Some(i as int),
        r is None ==> type_index(first_ids(ids@), id@) is None,
{
    let ghost all = first_ids(ids@);
    let mut k: usize = 0;
    while k < ids.len()
        invariant
            k <= ids.len(),
            all == first_ids(ids@),
            type_index(all.subrange(0, k as int), id@) is None,
        decreases ids.len() - k,
    {
        proof {
            lemma_type_index_step(all, id@, k as int);
        }
        if text_eq(ids[k].0.as_str(), id) {
            proof {
                lemma_type_index_extend(all, id@, k + 1);
            }
            return Some(k);
        }
        k = k + 1;
    }
    assert(all.subrange(0, k as int) =~= all);
    None
}

/// Whether `t` starts with `http`.
pub open spec fn starts_with_http(t: Seq<char>) -> bool {
    t.len() >= 4 && t.subrange(0, 4) == seq!['h', 't', 't', 'p']
}

/// Segments separated by `/`, with no `/` before the first.
pub open spec fn relative_text(segs: Seq<Seq<char>>) -> Seq<char>
    decreases segs.len(),
{
    if segs.len() == 0 {
        Seq::empty()
    } else if segs.len() == 1 {
        segs[0]
    } else {
        relative_text(segs.drop_last()) + seq!['/'] + segs.last()
    }
}

/// Where the record schema of an entry type lies, relative to the model's
/// root: a reference that is a URL (it starts with `http`) stands for the path
/// of that URL; any other reference is already such a path. `None` for a
/// reference that starts with `http` and is no URL with a hierarchical path.
pub open spec fn schema_location(reference: Seq<char>) -> Option<Seq<char>> {
    if starts_with_http(reference) {
        match url_parts(reference) {
            Some(parts) => if hierarchical(parts.1) {
                Some(relative_text(path_segments(parts.1)))
            } else {
                None
            },
            None => None,
        }
    } else {
        Some(reference)
    }
}

/// The path, relative to the model's root, of the schema that `reference` names.
pub fn schema_path(reference: &str) -> (r: Option<String>)
    ensures
        r matches Some(p) ==> schema_location(reference@) == Some(p@),
        r is None ==> schema_location(reference@) is None,
{
    let n = reference.unicode_len();
    let is_http = n >= 4 && text_eq(reference.substring_char(0, 4), "http");
    proof {
        reveal_strlit("http");
    }
    assert(is_http == starts_with_http(reference@)) by {
        if n >= 4 {
            assert(seq!['h', 't', 't', 'p'] =~= "http"@);
        }
    }
    if !is_http {
        return Some(String::from_str(reference));
    }
    match Url::parse(reference) {
        None => None,
        Some(u) => {
            let mut out = String::new();
            let mut i: usize = 0;
            while i < u.segments.len()
                invariant
                    i <= u.segments.len(),
                    out@ == relative_text(u@.segments.subrange(0, i as int)),
                decreases u.segments.len() - i,
            {
                assert(u@.segments.subrange(0, i + 1).drop_last() =~= u@.segments.subrange(0, i as int));
                if i > 0 {
                    out.append("/");
                    proof {
                        reveal_strlit("/");
                    }
                }
                out.append(u.segments[i].as_str());
                i = i + 1;
            }
            assert(u@.segments.subrange(0, i as int) =~= u@.segments);
            Some(out)
        },
    }
}

/// How an entity of the model stands for an endpoint set: the entry type's
/// display name and schema, and the set's templates as they were.
pub open spec fn resolves_to(e: Entity, set: Endpoint, names: Seq<(String, String)>, slots: Seq<usize>, k: int) -> bool {
    &&& e.name@ == names[k].1@
    &&& e.schema == slots[k]
    &&& e.url == set.root_url
    &&& e.url_single == set.single_entry_url
    &&& e.filtering_terms_url == set.filtering_terms_url
    &&& e.related_endpoints == set.endpoints
}

/// Whether every endpoint set names a declared entry type.
pub open spec fn all_resolved(ids: Seq<Seq<char>>, sets: Seq<Endpoint>) -> bool {
    forall|i: int| 0 <= i < sets.len() ==> (type_index(ids, #[trigger] sets[i].entry_type@) is Some)
}

/// One endpoint of an entity's traversal: one to call, or one to report as
/// not judged, for the reason given, without calling it.
pub enum Step {
    Call(BeaconEndpoint),
    Skip(BeaconEndpoint, VerifierError),
}

pub open spec fn step_endpoint(s: Step) -> BeaconEndpoint {
    match s {
        Step::Call(e) => e,
        Step::Skip(e, _) => e,
    }
}

pub open spec fn step_reason(s: Step) -> Option<VerifierError> {
    match s {
        Step::Call(_) => None,
        Step::Skip(_, r) => Some(r),
    }
}

/// The identifier substituted where none could be drawn from the collection.
pub open spec fn sentinel_id() -> Seq<char> {
    "_id_"@
}

/// The display name of an entry type, or `Unknown entity` where it is not declared.
pub open spec fn entity_display(names: Seq<(String, String)>, id: Seq<char>) -> Seq<char> {
    match type_index(first_ids(names), id) {
        Some(k) => names[k].1@,
        None => "Unknown entity"@,
    }
}

/// The related endpoints of an entity, in the order of their keys.
pub open spec fn related_of(e: Entity) -> Seq<(String, RelatedEndpoint)> {
    match e.related_endpoints {
        Some(v) => v@,
        None => Seq::empty(),
    }
}

/// The single-entry step of entity `e`, with `id` substituted (or the
/// sentinel, in a step that is not called).
pub open spec fn single_step(s: Step, e: Entity, u: Url, id: Option<String>) -> bool {
    let ep = step_endpoint(s);
    &&& ep.entity_name@ == e.name@
    &&& ep.name@ == e.name@ + " single entry"@
    &&& ep.entity_schema == e.schema
    &&& ep.url@ == substituted(u@, "id"@, match id { Some(t) => t@, None => sentinel_id() })
    &&& id is Some ==> s is Call
    &&& id is None ==> step_reason(s) == Some(VerifierError::NoIdentifierAvailable)
}

/// The step of a related endpoint of entity `e`: named after the related
/// entity, held to the related entry type's schema, with `id` substituted.
pub open spec fn related_step(
    s: Step,
    e: Entity,
    rel: RelatedEndpoint,
    names: Seq<(String, String)>,
    slots: Seq<usize>,
    id: Option<String>,
) -> bool {
    let ep = step_endpoint(s);
    let k = type_index(first_ids(names), rel.returned_entry_type@);
    &&& ep.entity_name@ == e.name@
    &&& ep.name@ == entity_display(names, rel.returned_entry_type@) + " related with a "@ + e.name@
    &&& ep.url@ == substituted(rel.url@, "id"@, match id { Some(t) => t@, None => sentinel_id() })
    &&& id is None ==> step_reason(s) == Some(VerifierError::NoIdentifierAvailable)
    &&& (id is Some && k is None) ==> (step_reason(s) matches Some(VerifierError::UnresolvedEntityType(t)) && t@ == rel.returned_entry_type@)
    &&& (id is Some && k is Some) ==> (s is Call && ep.entity_schema == slots[k->0])
}

impl Model {
    /// Each entry type has a schema in the registry, and each entity's schema is in it.
    pub open spec fn wf(&self) -> bool {
        &&& self.schema_slots@.len() == self.entities_names@.len()
        &&& forall|k: int| 0 <= k < self.schema_slots@.len() ==> #[trigger] self.schema_slots@[k] < self.registry.schemas@.len()
        &&& forall|i: int| 0 <= i < self.entities@.len() ==> #[trigger] self.entities@[i].schema < self.registry.schemas@.len()
    }

    /// Resolves the endpoint map against the declared entry types, each with
    /// its record schema document. Each referenced schema is compiled once:
    /// entry types with the same reference share the schema compiled from the
    /// document of the first of them. An entity takes the display name and the
    /// schema of the first entry type with its id. An endpoint set whose entry type is not declared fails the whole
    /// model with `UnresolvedEntityType`.
    pub fn resolve(entry_types: Vec<(EntryType, Json)>, endpoint_sets: Vec<Endpoint>) -> (r: Result<
        Model,
        VerifierError,
    >)
        ensures
            r is Ok <==> all_resolved(type_ids(entry_types@), endpoint_sets@),
            r matches Err(e) ==> exists|i: int|
                0 <= i < endpoint_sets@.len() && type_index(type_ids(entry_types@), endpoint_sets@[i].entry_type@) is None
                    && (e matches VerifierError::UnresolvedEntityType(t) && t@ == endpoint_sets@[i].entry_type@),
            r matches Ok(m) ==> {
                &&& m.wf()
                &&& first_ids(m.entities_names@) == type_ids(entry_types@)
                &&& forall|k: int| 0 <= k < entry_types@.len() ==> (#[trigger] m.entities_names@[k]).1@ == entry_types@[k].0.name@
                &&& forall|k: int| 0 <= k < entry_types@.len() ==> compiled_from(
                    m.registry.schemas@[#[trigger] m.schema_slots@[k] as int],
                    entry_types@[type_index(type_refs(entry_types@), type_refs(entry_types@)[k])->0].1,
                )
                &&& forall|j: int, k: int| 0 <= j < entry_types@.len() && 0 <= k < entry_types@.len() ==> (
                    (#[trigger] m.schema_slots@[j] == #[trigger] m.schema_slots@[k]) <==> type_refs(entry_types@)[j] == type_refs(entry_types@)[k])
                &&& forall|s: int| 0 <= s < m.registry.schemas@.len() ==> #[trigger] slot_used(m.schema_slots@, s)
                &&& m.entities@.len() == endpoint_sets@.len()
                &&& forall|i: int| 0 <= i < endpoint_sets@.len() ==> resolves_to(
                    #[trigger] m.entities@[i],
                    endpoint_sets@[i],
                    m.entities_names@,
                    m.schema_slots@,
                    type_index(type_ids(entry_types@), endpoint_sets@[i].entry_type@)->0,
                )
            },
    {
        let ghost types = entry_types@;
        let ghost refs_all = type_refs(types);
        let mut names: Vec<(String, String)> = Vec::new();
        let mut schemas: Vec<Result<Schema, Json>> = Vec::new();
        let mut refs: Vec<String> = Vec::new();
        let mut slots: Vec<usize> = Vec::new();
        let ghost mut creators: Seq<int> = Seq::empty();
        let mut rest = entry_types;
        let total = rest.len();
        let mut k: usize = 0;
        while rest.len() > 0
            invariant
                types == entry_types@,
                refs_all == type_refs(types),
                k + rest@.len() == types.len(),
                types.len() == total,
                rest@ == types.subrange(k as int, types.len() as int),
                names@.len() == k,
                slots@.len() == k,
                schemas@.len() == refs@.len(),
                creators.len() == refs@.len(),
                first_ids(names@) == type_ids(types).subrange(0, k as int),
                forall|j: int| 0 <= j < k ==> (#[trigger] names@[j]).1@ == types[j].0.name@,
                forall|j: int| 0 <= j < k ==> (#[trigger] slots@[j]) < refs@.len() && refs@[slots@[j] as int]@ == refs_all[j],
                forall|a: int, b: int| 0 <= a < b < refs@.len() ==> (#[trigger] refs@[a])@ != (#[trigger] refs@[b])@,
                forall|s: int| 0 <= s < refs@.len() ==> {
                    let c = #[trigger] creators[s];
                    &&& 0 <= c < k
                    &&& slots@[c] == s
                    &&& refs_all[c] == refs@[s]@
                    &&& type_index(refs_all, refs_all[c]) == Some(c)
                    &&& compiled_from(schemas@[s], types[c].1)
                },
            decreases rest@.len(),
        {
            let ghost before = names@;
            let (t, doc) = rest.remove(0);
            assert(rest@ =~= types.subrange(k + 1, types.len() as int));
            assert(t == types[k as int].0);
            let reference = t.default_schema.reference_to_schema_definition;
            assert(reference@ == refs_all[k as int]);
            match find_text(&refs, reference.as_str()) {
                Some(s) => {
                    slots.push(s);
                },
                None => {
                    proof {
                        assert forall|j: int| 0 <= j < k implies refs_all.subrange(0, k as int)[j] != refs_all[k as int] by {
                            assert(refs@[slots@[j] as int]@ == refs_all[j]);
                        }
                        lemma_type_index_bounds(refs_all.subrange(0, k as int), refs_all[k as int]);
                        lemma_type_index_step(refs_all, refs_all[k as int], k as int);
                        lemma_type_index_extend(refs_all, refs_all[k as int], k + 1);
                    }
                    let slot = refs.len();
                    let ghost old_refs = refs@;
                    let ghost old_schemas = schemas@;
                    let ghost old_creators = creators;
                    schemas.push(compile_schema(doc));
                    refs.push(reference);
                    slots.push(slot);
                    proof {
                        creators = creators.push(k as int);
                        assert forall|a: int, b: int| 0 <= a < b < refs@.len() implies (#[trigger] refs@[a])@ != (#[trigger] refs@[b])@ by {
                            if b == old_refs.len() {
                                assert(refs@[a] == old_refs[a]);
                            }
                        }
                        assert forall|s: int| 0 <= s < refs@.len() implies {
                            let c = #[trigger] creators[s];
                            &&& 0 <= c < k + 1
                            &&& slots@[c] == s
                            &&& refs_all[c] == refs@[s]@
                            &&& type_index(refs_all, refs_all[c]) == Some(c)
                            &&& compiled_from(schemas@[s], types[c].1)
                        } by {
                            if s < old_refs.len() {
                                assert(creators[s] == old_creators[s]);
                                assert(schemas@[s] == old_schemas[s]);
                            }
                        }
                    }
                },
            }
            names.push((t.id, t.name));
            assert(first_ids(names@) =~= first_ids(before).push(types[k as int].0.id@));
            assert(type_ids(types).subrange(0, k + 1) =~= type_ids(types).subrange(0, k as int).push(types[k as int].0.id@));
            k = k + 1;
        }
        proof {
            assert forall|j: int, k2: int| 0 <= j < types.len() && 0 <= k2 < types.len() implies (
                (#[trigger] slots@[j] == #[trigger] slots@[k2]) <==> refs_all[j] == refs_all[k2]) by {
                if refs_all[j] == refs_all[k2] && slots@[j] != slots@[k2] {
                    if slots@[j] < slots@[k2] {
                        assert(refs@[slots@[j] as int]@ != refs@[slots@[k2] as int]@);
                    } else {
                        assert(refs@[slots@[k2] as int]@ != refs@[slots@[j] as int]@);
                    }
                }
            }
            assert forall|j: int| 0 <= j < types.len() implies compiled_from(
                schemas@[#[trigger] slots@[j] as int],
                types[type_index(refs_all, refs_all[j])->0].1,
            ) by {
                let s = slots@[j] as int;
                let c = creators[s];
                assert(refs_all[c] == refs_all[j]);
            }
            assert forall|s: int| 0 <= s < schemas@.len() implies #[trigger] slot_used(slots@, s) by {
                let c = creators[s];
                assert(slots@[c] == s);
            }
        }
        assert(type_ids(types).subrange(0, k as int) =~= type_ids(types));
        let ghost ids = type_ids(types);
        let ghost sets = endpoint_sets@;
        let mut entities: Vec<Entity> = Vec::new();
        let mut rest = endpoint_sets;
        let total = rest.len();
        let mut i: usize = 0;
        while rest.len() > 0
            invariant
                i + rest@.len() == sets.len(),
                sets.len() == total,
                types == entry_types@,
                ids == type_ids(types),
                sets == endpoint_sets@,
                slots@.len() == types.len(),
                forall|j: int| 0 <= j < types.len() ==> (#[trigger] slots@[j]) < schemas@.len(),
                forall|j: int| 0 <= j < types.len() ==> compiled_from(
                    schemas@[#[trigger] slots@[j] as int],
                    types[type_index(type_refs(types), type_refs(types)[j])->0].1,
                ),
                forall|j: int, k2: int| 0 <= j < types.len() && 0 <= k2 < types.len() ==> (
                    (#[trigger] slots@[j] == #[trigger] slots@[k2]) <==> type_refs(types)[j] == type_refs(types)[k2]),
                forall|s: int| 0 <= s < schemas@.len() ==> #[trigger] slot_used(slots@, s),
                rest@ == sets.subrange(i as int, sets.len() as int),
                entities@.len() == i,
                first_ids(names@) == ids,
                names@.len() == types.len(),
                forall|j: int| 0 <= j < i ==> type_index(ids, #[trigger] sets[j].entry_type@) is Some,
                forall|j: int| 0 <= j < i ==> resolves_to(#[trigger] entities@[j], sets[j], names@, slots@, type_index(ids, sets[j].entry_type@)->0),
                forall|j: int| 0 <= j < i ==> #[trigger] entities@[j].schema < schemas@.len(),
            decreases rest@.len(),
        {
            let set = rest.remove(0);
            assert(set == sets[i as int]);
            assert(rest@ =~= sets.subrange(i + 1, sets.len() as int));
            let idx = match find_index(&names, set.entry_type.as_str()) {
                Some(idx) => idx,
                None => {
                    assert(type_index(ids, sets[i as int].entry_type@) is None);
                    assert(!all_resolved(ids, sets));
                    return Err(VerifierError::UnresolvedEntityType(set.entry_type));
                },
            };
            proof {
                lemma_type_index_bounds(ids, set.entry_type@);
            }
            let name = names[idx].1.clone();
            entities.push(Entity {
                name,
                url: set.root_url,
                url_single: set.single_entry_url,
                schema: slots[idx],
                filtering_terms_url: set.filtering_terms_url,
                related_endpoints: set.endpoints,
            });
            i = i + 1;
        }
        let m = Model { entities, entities_names: names, registry: SchemaRegistry { schemas }, schema_slots: slots };
        assert(all_resolved(ids, sets)) by {
            assert forall|j: int| 0 <= j < sets.len() implies type_index(ids, #[trigger] sets[j].entry_type@) is Some by {}
        }
        Ok(m)
    }
}

/// Whether `steps` are the endpoints of entity `i` of `m` that follow its
/// collection endpoint, with the identifier `id`: the single-entry endpoint,
/// if the entity has one, then each related endpoint in order.
pub open spec fn plans(m: Model, i: int, id: Option<String>, steps: Seq<Step>) -> bool {
    let e = m.entities@[i];
    let ns: int = if e.url_single is Some { 1 } else { 0 };
    &&& steps.len() == ns + related_of(e).len()
    &&& e.url_single matches Some(u) ==> single_step(steps[0], e, u, id)
    &&& forall|j: int| 0 <= j < related_of(e).len() ==> related_step(
        #[trigger] steps[ns + j],
        e,
        related_of(e)[j].1,
        m.entities_names@,
        m.schema_slots@,
        id,
    )
}

impl Model {
    /// The collection endpoint of entity `i`: `<name> all entries`, at its URL template.
    pub fn collection_endpoint(&self, i: usize) -> (r: BeaconEndpoint)
        requires
            i < self.entities@.len(),
        ensures
            r.entity_name@ == self.entities@[i as int].name@,
            r.name@ == self.entities@[i as int].name@ + " all entries"@,
            r.entity_schema == self.entities@[i as int].schema,
            r.url@ == self.entities@[i as int].url@,
    {
        let e = &self.entities[i];
        let mut name = e.name.clone();
        name.append(" all entries");
        BeaconEndpoint { entity_name: e.name.clone(), entity_schema: e.schema, name, url: copy_url(&e.url) }
    }

    /// The display name of the entry type `id`, or `Unknown entity`.
    pub fn display_name(&self, id: &str) -> (r: String)
        ensures
            r@ == entity_display(self.entities_names@, id@),
    {
        match find_index(&self.entities_names, id) {
            Some(k) => {
                proof {
                    lemma_type_index_bounds(first_ids(self.entities_names@), id@);
                }
                self.entities_names[k].1.clone()
            },
            None => String::from_str("Unknown entity"),
        }
    }

    /// The endpoints of entity `i` that need an identifier drawn from its
    /// collection: its single-entry endpoint, if it has one, then each related
    /// endpoint. With no identifier, each is still listed, with the sentinel
    /// `_id_` in its URL, to be reported as not judged.
    pub fn endpoints(&self, i: usize, id: Option<String>) -> (r: Vec<Step>)
        requires
            self.wf(),
            i < self.entities@.len(),
        ensures
            plans(*self, i as int, id, r@),
    {
        let e = &self.entities[i];
        let id_text = match &id {
            Some(t) => t.clone(),
            None => String::from_str("_id_"),
        };
        let mut steps: Vec<Step> = Vec::new();
        if let Some(u) = &e.url_single {
            let mut name = e.name.clone();
            name.append(" single entry");
            let ep = BeaconEndpoint {
                entity_name: e.name.clone(),
                entity_schema: e.schema,
                name,
                url: substitute(u, "id", id_text.as_str()),
            };
            let step = match &id {
                Some(_) => Step::Call(ep),
                None => Step::Skip(ep, VerifierError::NoIdentifierAvailable),
            };
            steps.push(step);
        }
        let ghost ns: int = if e.url_single is Some { 1 } else { 0 };
        let ghost rels = related_of(*e);
        if let Some(related) = &e.related_endpoints {
            let mut j: usize = 0;
            while j < related.len()
                invariant
                    self.wf(),
                    rels == related@,
                    ns == (if e.url_single is Some { 1int } else { 0int }),
                    j <= related.len(),
                    steps@.len() == ns + j,
                    e.url_single matches Some(u) ==> single_step(steps@[0], *e, u, id),
                    id_text@ == match id { Some(t) => t@, None => sentinel_id() },
                    forall|t: int| 0 <= t < j ==> related_step(#[trigger] steps@[ns + t], *e, rels[t].1, self.entities_names@, self.schema_slots@, id),
                decreases related.len() - j,
            {
                let rel = &related[j].1;
                let mut name = self.display_name(rel.returned_entry_type.as_str());
                name.append(" related with a ");
                name.append(e.name.as_str());
                let url = substitute(&rel.url, "id", id_text.as_str());
                let found = find_index(&self.entities_names, rel.returned_entry_type.as_str());
                let step = match &id {
                    None => Step::Skip(
                        BeaconEndpoint { entity_name: e.name.clone(), entity_schema: e.schema, name, url },
                        VerifierError::NoIdentifierAvailable,
                    ),
                    Some(_) => match found {
                        Some(k) => {
                            proof {
                                lemma_type_index_bounds(first_ids(self.entities_names@), rel.returned_entry_type@);
                            }
                            Step::Call(BeaconEndpoint { entity_name: e.name.clone(), entity_schema: self.schema_slots[k], name, url })
                        },
                        None => Step::Skip(
                            BeaconEndpoint { entity_name: e.name.clone(), entity_schema: e.schema, name, url },
                            VerifierError::UnresolvedEntityType(rel.returned_entry_type.clone()),
                        ),
                    },
                };
                let ghost before = steps@;
                steps.push(step);
                assert(steps@.len() == before.len() + 1);
                assert(e.url_single is Some ==> steps@[0] == before[0]);
                assert forall|t: int| 0 <= t < j + 1 implies related_step(#[trigger] steps@[ns + t], *e, rels[t].1, self.entities_names@, self.schema_slots@, id) by {
                    if t < j {
                        assert(steps@[ns + t] == before[ns + t]);
                    }
                }
                j = j + 1;
            }
        }
        steps
    }
}

} // verus!
