//! The entity, component-packet and scene state kept beside the Flecs world.
use vstd::prelude::*;
use std::collections::{BTreeMap, BTreeSet};
use vstd::std_specs::btree::{increasing_seq, spec_btree_keys_iter};
use vstd::laws_cmp::obeys_cmp;
use vstd::std_specs::iter::IteratorSpec;
use vstd::std_specs::cmp::OrdSpec;
use crate::api::{
    stable_id_of, AllocatedEntity, CommandModel, CommandResultModel, EcsCommand,
    EcsCommandRequest, EcsCommandResponse, EcsCommandResult, EcsSnapshotRequest,
    EcsWorldSnapshot, EcsWorldSummary, EntityDespawnRequest, EntityDespawnResponse,
    EntityDespawnResult, EntityHandle, EntityListResponse, EntityRecord, EntitySpawnResponse,
};
use crate::config::FlecsEcsPluginConfig;
use crate::json::{
    distinct_keys, lemma_members_model, lemma_remove_distinct, lemma_upsert_distinct,
    members_model, remove_member, remove_member_from, upsert_member, upsert_member_into, Json,
    JsonValue,
};
use crate::text::{decimal, decimal_string, trim_text, trimmed};
use crate::json::{
    clone_members, lemma_members_model_ext, array_of, member, object_of, opt_text_value, text_value, values_model, JsonNumber,
    NumberModel,
};
use crate::scene::{
    extract_scene_entity_records, normalize_scene_payload, normalized_scene,
    scene_entity_records,
};

verus! {

broadcast use {vstd::std_specs::btree::group_btree_axioms, vstd::laws_cmp::group_laws_cmp};

/// `ids` is strictly increasing.
pub open spec fn increasing(ids: Seq<u64>) -> bool {
    forall|i: int, j: int| 0 <= i < j < ids.len() ==> ids[i] < ids[j]
}

proof fn lemma_u64_total_order()
    ensures
        obeys_cmp::<u64>(),
{
}

proof fn lemma_seq_less<K: Ord>(s: Seq<K>, i: int, j: int)
    requires
        obeys_cmp::<K>(),
        increasing_seq(s),
        0 <= i < j < s.len(),
    ensures
        s[i].cmp_spec(&s[j]) is Less,
{
    vstd::std_specs::btree::axiom_increasing_seq_meaning(s);
}

proof fn lemma_increasing_refs(r: Seq<&u64>)
    requires
        increasing_seq(r),
    ensures
        increasing(r.unref()),
{
    lemma_u64_total_order();
    assert(obeys_cmp::<&u64>());
    assert forall|i: int, j: int| 0 <= i < j < r.len() implies r.unref()[i] < r.unref()[j] by {
        lemma_seq_less(r, i, j);
    }
}

/// The ids of `set`, in increasing order.
pub fn sorted_ids(set: &BTreeSet<u64>) -> (out: Vec<u64>)
    ensures
        increasing(out@),
        out@.to_set() == set@,
        out@.len() == set@.len(),
{
    let mut out: Vec<u64> = Vec::new();
    let ghost r = spec_btree_keys_iter(set).remaining();
    proof {
        lemma_u64_total_order();
        assert(r.unref().to_set() == set@);
        lemma_increasing_refs(r);
    }
    for id in it: set.iter()
        invariant
            it.seq() == r,
            out@ == it.seq().take(it.index() as int).map_values(|x: &u64| *x),
    {
        out.push(*id);
    }
    assert(out@ == r.unref());
    out
}


/// The scene that was last loaded.
pub struct FlecsSceneState {
    pub source_path: Option<String>,
    pub schema: Option<String>,
    pub version: Option<u64>,
    pub title: Option<String>,
    pub entity_count: usize,
    pub entity_handles: Vec<EntityHandle>,
}

/// The model of the last loaded scene.
pub struct SceneModel {
    pub source_path: Option<Seq<char>>,
    pub schema: Option<Seq<char>>,
    pub version: Option<u64>,
    pub title: Option<Seq<char>>,
    pub entity_count: usize,
    pub entity_handles: Seq<u64>,
}

pub open spec fn opt_text(o: Option<String>) -> Option<Seq<char>> {
    match o {
        Some(s) => Some(s@),
        None => None,
    }
}

pub open spec fn handle_ids(hs: Seq<EntityHandle>) -> Seq<u64> {
    hs.map_values(|h: EntityHandle| h.stable_id)
}

impl FlecsSceneState {
    pub open spec fn model(&self) -> SceneModel {
        SceneModel {
            source_path: opt_text(self.source_path),
            schema: opt_text(self.schema),
            version: self.version,
            title: opt_text(self.title),
            entity_count: self.entity_count,
            entity_handles: handle_ids(self.entity_handles@),
        }
    }
}

/// The state kept beside the Flecs world: the tick, the ids of the alive
/// entities, the semantic component packets of each entity, and the scene
/// that was last loaded.
///
/// The Flecs world itself stays with the caller: a request first drops, with
/// `prune_dead_entities`, the entities the Flecs world no longer knows; the
/// operations then read and change this state as it stands, take the
/// entities the Flecs world created for them, and return the entities it is
/// to delete and how often it is to be progressed.
pub struct FlecsWorld {
    tick: u64,
    entities_changed_tick: u64,
    alive_entities: BTreeSet<u64>,
    semantic_components: BTreeMap<u64, Vec<(String, JsonValue)>>,
    loaded_scene: Option<FlecsSceneState>,
    progress_on_advance_tick: bool,
}

/// The model of the world state.
pub struct WorldModel {
    pub tick: u64,
    pub entities_changed_tick: u64,
    pub alive: Set<u64>,
    /// For each entity with packets, its packets by component type.
    pub components: Map<u64, Seq<(Seq<char>, Json)>>,
    pub loaded_scene: Option<SceneModel>,
    pub progress_on_advance_tick: bool,
}

pub open spec fn components_model(m: Map<u64, Vec<(String, JsonValue)>>) -> Map<
    u64,
    Seq<(Seq<char>, Json)>,
> {
    Map::new(|k: u64| m.contains_key(k), |k: u64| members_model(m[k]@, m[k]@.len()))
}

pub open spec fn scene_model(s: Option<FlecsSceneState>) -> Option<SceneModel> {
    match s {
        Some(st) => Some(st.model()),
        None => None,
    }
}

/// The invariant of the world state: finitely many alive entities, packets
/// only for alive entities, no empty packet list, and each packet list
/// keyed by distinct component types.
pub open spec fn model_wf(m: WorldModel) -> bool {
    &&& m.alive.finite()
    &&& forall|id: u64| #[trigger] m.components.contains_key(id) ==> m.alive.contains(id)
    &&& forall|id: u64| #[trigger] m.components.contains_key(id) ==> m.components[id].len() > 0
    &&& forall|id: u64| #[trigger] m.components.contains_key(id) ==> distinct_keys(m.components[id])
}

/// Whether `members` has a member named `name`.
pub open spec fn has_key(members: Seq<(Seq<char>, Json)>, name: Seq<char>) -> bool {
    exists|i: int| 0 <= i < members.len() && #[trigger] members[i].0 == name
}

/// Every component type that some entity holds a packet of.
pub open spec fn component_type_names(m: WorldModel) -> Set<Seq<char>> {
    Set::new(
        |n: Seq<char>|
            exists|id: u64| #[trigger] m.components.contains_key(id) && has_key(m.components[id], n),
    )
}

/// The ids in `ids` that name the `k` smallest members of `s`, in increasing
/// order.
pub open spec fn smallest_ids(ids: Seq<u64>, s: Set<u64>, k: nat) -> bool {
    &&& ids.len() == k
    &&& increasing(ids)
    &&& forall|i: int| 0 <= i < ids.len() ==> s.contains(#[trigger] ids[i])
    &&& forall|x: u64| #[trigger] s.contains(x) && !ids.contains(x) ==> forall|i: int|
        0 <= i < ids.len() ==> ids[i] < x
}

pub open spec fn min_nat(a: nat, b: nat) -> nat {
    if a < b {
        a
    } else {
        b
    }
}

impl FlecsWorld {
    pub closed spec fn model(&self) -> WorldModel {
        WorldModel {
            tick: self.tick,
            entities_changed_tick: self.entities_changed_tick,
            alive: self.alive_entities@,
            components: components_model(self.semantic_components@),
            loaded_scene: scene_model(self.loaded_scene),
            progress_on_advance_tick: self.progress_on_advance_tick,
        }
    }

    pub closed spec fn wf(&self) -> bool {
        model_wf(self.model())
    }

    /// A well-formed world's model satisfies the world-state invariant.
    pub proof fn lemma_wf(&self)
        requires
            self.wf(),
        ensures
            model_wf(self.model()),
    {
    }

    /// A world with no entities, tick 0 and no scene.
    pub fn new(config: &FlecsEcsPluginConfig) -> (w: FlecsWorld)
        ensures
            w.wf(),
            w.model() == (WorldModel {
                tick: 0,
                entities_changed_tick: 0,
                alive: Set::empty(),
                components: Map::empty(),
                loaded_scene: None,
                progress_on_advance_tick: config.progress_on_advance_tick,
            }),
    {
        let w = FlecsWorld {
            tick: 0,
            entities_changed_tick: 0,
            alive_entities: BTreeSet::new(),
            semantic_components: BTreeMap::new(),
            loaded_scene: None,
            progress_on_advance_tick: config.progress_on_advance_tick,
        };
        assert(components_model(w.semantic_components@) =~= Map::empty());
        w
    }

    /// Whether an advance of the tick also progresses the Flecs world.
    pub fn progress_on_advance_tick(&self) -> (b: bool)
        ensures
            b == self.model().progress_on_advance_tick,
    {
        self.progress_on_advance_tick
    }

    /// The alive entity ids, in increasing order; the ids whose liveness
    /// the Flecs world is asked about before a request.
    pub fn entity_ids(&self) -> (ids: Vec<u64>)
        requires
            self.wf(),
        ensures
            smallest_ids(ids@, self.model().alive, self.model().alive.len()),
            ids@.to_set() == self.model().alive,
    {
        let ids = sorted_ids(&self.alive_entities);
        proof {
            lemma_sorted_is_smallest(ids@, self.alive_entities@, ids@.len());
        }
        ids
    }
}

/// The model after recording one new entity of the Flecs world.
pub open spec fn spawn_model(m: WorldModel, a: AllocatedEntity) -> WorldModel {
    WorldModel { alive: m.alive.insert(stable_id_of(a)), entities_changed_tick: m.tick, ..m }
}

/// The counts of the world.
pub open spec fn summary_model(m: WorldModel, s: EcsWorldSummary) -> bool {
    &&& s.tick == m.tick
    &&& s.entity_count == m.alive.len()
    &&& s.storage_count == component_type_names(m).len()
    &&& s.resource_count == (if m.loaded_scene is Some {
        1int
    } else {
        0int
    })
    &&& s.entities_changed_tick == m.entities_changed_tick
}

pub open spec fn texts(v: Seq<String>) -> Seq<Seq<char>> {
    v.map_values(|s: String| s@)
}

/// Whether `name` is one of `names`.
fn contains_text(names: &Vec<String>, name: &String) -> (b: bool)
    ensures
        b == texts(names@).contains(name@),
{
    let mut i: usize = 0;
    while i < names.len()
        invariant
            i <= names@.len(),
            forall|j: int| 0 <= j < i ==> names@[j]@ != name@,
        decreases names@.len() - i,
    {
        if names[i] == *name {
            assert(texts(names@)[i as int] == name@);
            return true;
        }
        i = i + 1;
    }
    assert forall|j: int| 0 <= j < texts(names@).len() implies texts(names@)[j] != name@ by {
        assert(names@[j]@ != name@);
    }
    false
}

/// The component types named by the packets of the first `n` of `ids`.
pub open spec fn names_of_ids(c: Map<u64, Seq<(Seq<char>, Json)>>, ids: Seq<u64>, n: int) -> Set<
    Seq<char>,
> {
    Set::new(
        |name: Seq<char>|
            exists|t: int|
                0 <= t < n && #[trigger] c.contains_key(ids[t]) && has_key(c[ids[t]], name),
    )
}

impl FlecsWorld {
    /// Records a new entity that the Flecs world created and returns its
    /// stable id.
    pub fn spawn_empty(&mut self, allocated: AllocatedEntity) -> (id: u64)
        requires
            old(self).wf(),
        ensures
            final(self).wf(),
            id == stable_id_of(allocated),
            final(self).model() == spawn_model(old(self).model(), allocated),
    {
        let stable_id = if allocated.alive_id == 0 {
            allocated.entity
        } else {
            allocated.alive_id
        };
        self.alive_entities.insert(stable_id);
        self.entities_changed_tick = self.tick;
        proof {
            assert(self.model().alive =~= old(self).model().alive.insert(stable_id));
        }
        stable_id
    }

    /// Whether the handle names an alive entity; the null id never does.
    pub fn exists_entity(&self, entity: EntityHandle) -> (b: bool)
        ensures
            b == (entity.stable_id != 0 && self.model().alive.contains(entity.stable_id)),
    {
        entity.stable_id != 0 && self.alive_entities.contains(&entity.stable_id)
    }

    /// The number of distinct component types over all packets.
    pub fn unique_component_type_count(&self) -> (n: usize)
        requires
            self.wf(),
        ensures
            component_type_names(self.model()).finite(),
            n == component_type_names(self.model()).len(),
    {
        let ghost c = self.model().components;
        let ids = sorted_ids(&self.alive_entities);
        let mut names: Vec<String> = Vec::new();
        let mut i: usize = 0;
        while i < ids.len()
            invariant
                i <= ids@.len(),
                c == self.model().components,
                c == components_model(self.semantic_components@),
                texts(names@).no_duplicates(),
                texts(names@).to_set() == names_of_ids(c, ids@, i as int),
            decreases ids@.len() - i,
        {
            let id = ids[i];
            let ghost before = texts(names@);
            match self.semantic_components.get(&id) {
                Some(comps) => {
                    proof {
                        lemma_members_model(comps@, comps@.len());
                    }
                    let mut j: usize = 0;
                    while j < comps.len()
                        invariant
                            j <= comps@.len(),
                            c.contains_key(id),
                            c[id] == members_model(comps@, comps@.len()),
                            forall|t: int| 0 <= t < comps@.len() ==> #[trigger] c[id][t].0 == comps@[t].0@,
                            c[id].len() == comps@.len(),
                            texts(names@).no_duplicates(),
                            texts(names@).to_set() == names_of_ids(c, ids@, i as int).union(
                                Set::new(|n: Seq<char>| exists|t: int| 0 <= t < j && #[trigger] c[id][t].0 == n),
                            ),
                        decreases comps@.len() - j,
                    {
                        let ghost prev = texts(names@);
                        if !contains_text(&names, &comps[j].0) {
                            names.push(comps[j].0.clone());
                            proof {
                                assert(texts(names@) =~= prev.push(comps@[j as int].0@));
                            }
                        }
                        proof {
                            let x = comps@[j as int].0@;
                            let olds = names_of_ids(c, ids@, i as int).union(
                                Set::new(|n: Seq<char>| exists|t: int| 0 <= t < j && #[trigger] c[id][t].0 == n),
                            );
                            let news = names_of_ids(c, ids@, i as int).union(
                                Set::new(|n: Seq<char>| exists|t: int| 0 <= t < j + 1 && #[trigger] c[id][t].0 == n),
                            );
                            assert(c[id][j as int].0 == x);
                            assert(news =~= olds.insert(x)) by {
                                assert forall|n: Seq<char>| news.contains(n) implies olds.insert(x).contains(n) by {
                                    if !names_of_ids(c, ids@, i as int).contains(n) && n != x {
                                        let t = choose|t: int| 0 <= t < j + 1 && #[trigger] c[id][t].0 == n;
                                        assert(t < j);
                                    }
                                }
                            }
                            assert(prev.to_set() == olds);
                            if prev.contains(x) {
                                assert(texts(names@) == prev);
                                assert(olds.insert(x) =~= olds);
                            } else {
                                assert(texts(names@) == prev.push(x));
                                prev.lemma_push_to_set_commute(x);
                            }
                        }
                        j = j + 1;
                    }
                    proof {
                        assert(texts(names@).to_set() =~= names_of_ids(c, ids@, i + 1)) by {
                            assert forall|n: Seq<char>| names_of_ids(c, ids@, i + 1).contains(n)
                                implies texts(names@).to_set().contains(n) by {
                                let t = choose|t: int|
                                    0 <= t < i + 1 && #[trigger] c.contains_key(ids@[t]) && has_key(c[ids@[t]], n);
                                if t == i {
                                    let k = choose|k: int| 0 <= k < c[ids@[t]].len() && #[trigger] c[ids@[t]][k].0 == n;
                                    assert(c[id][k].0 == n);
                                } else {
                                    assert(names_of_ids(c, ids@, i as int).contains(n));
                                }
                            }
                            assert forall|n: Seq<char>| texts(names@).to_set().contains(n)
                                implies names_of_ids(c, ids@, i + 1).contains(n) by {
                                if !names_of_ids(c, ids@, i as int).contains(n) {
                                    let k = choose|k: int| 0 <= k < j && #[trigger] c[id][k].0 == n;
                                    assert(has_key(c[ids@[i as int]], n));
                                } else {
                                    let t = choose|t: int|
                                        0 <= t < i && #[trigger] c.contains_key(ids@[t]) && has_key(c[ids@[t]], n);
                                    assert(0 <= t < i + 1 && c.contains_key(ids@[t]) && has_key(c[ids@[t]], n));
                                }
                            }
                        }
                    }
                },
                None => {
                    proof {
                        assert(texts(names@).to_set() =~= names_of_ids(c, ids@, i + 1)) by {
                            assert forall|n: Seq<char>| names_of_ids(c, ids@, i + 1).contains(n)
                                implies texts(names@).to_set().contains(n) by {
                                let t = choose|t: int|
                                    0 <= t < i + 1 && #[trigger] c.contains_key(ids@[t]) && has_key(c[ids@[t]], n);
                                assert(t != i);
                                assert(names_of_ids(c, ids@, i as int).contains(n));
                            }
                            assert forall|n: Seq<char>| texts(names@).to_set().contains(n)
                                implies names_of_ids(c, ids@, i + 1).contains(n) by {
                                let t = choose|t: int|
                                    0 <= t < i && #[trigger] c.contains_key(ids@[t]) && has_key(c[ids@[t]], n);
                                assert(0 <= t < i + 1 && c.contains_key(ids@[t]) && has_key(c[ids@[t]], n));
                            }
                        }
                    }
                },
            }
            i = i + 1;
        }
        proof {
            assert(names_of_ids(c, ids@, ids@.len() as int) =~= component_type_names(self.model())) by {
                assert forall|n: Seq<char>| component_type_names(self.model()).contains(n)
                    implies names_of_ids(c, ids@, ids@.len() as int).contains(n) by {
                    let id = choose|id: u64| #[trigger] c.contains_key(id) && has_key(c[id], n);
                    assert(ids@.to_set().contains(id));
                    let t = choose|t: int| 0 <= t < ids@.len() && ids@[t] == id;
                    assert(c.contains_key(ids@[t]) && has_key(c[ids@[t]], n));
                }
                assert forall|n: Seq<char>| names_of_ids(c, ids@, ids@.len() as int).contains(n)
                    implies component_type_names(self.model()).contains(n) by {
                    let t = choose|t: int|
                        0 <= t < ids@.len() && #[trigger] c.contains_key(ids@[t]) && has_key(c[ids@[t]], n);
                    assert(c.contains_key(ids@[t]) && has_key(c[ids@[t]], n));
                }
            }
            texts(names@).unique_seq_to_set();
        }
        names.len()
    }

    /// The counts of the world.
    pub fn summary(&self) -> (s: EcsWorldSummary)
        requires
            self.wf(),
        ensures
            summary_model(self.model(), s),
    {
        let storage = self.unique_component_type_count();
        EcsWorldSummary {
            tick: self.tick,
            entity_count: self.alive_entities.len() as u64,
            storage_count: storage as u64,
            resource_count: if self.loaded_scene.is_some() {
                1
            } else {
                0
            },
            entities_changed_tick: self.entities_changed_tick,
        }
    }
}

pub open spec fn record_ids(rs: Seq<EntityRecord>) -> Seq<u64> {
    rs.map_values(|r: EntityRecord| r.handle.stable_id)
}

pub open spec fn all_alive(rs: Seq<EntityRecord>) -> bool {
    forall|i: int| 0 <= i < rs.len() ==> (#[trigger] rs[i]).alive
}

impl FlecsWorld {
    /// The `limit` smallest alive ids, and whether more were left out.
    fn first_alive_ids(&self, limit: usize) -> (r: (Vec<u64>, bool))
        requires
            self.wf(),
        ensures
            smallest_ids(r.0@, self.model().alive, min_nat(limit as nat, self.model().alive.len())),
            r.1 == (self.model().alive.len() > limit),
    {
        let ids = sorted_ids(&self.alive_entities);
        let mut out: Vec<u64> = Vec::new();
        let mut truncated = false;
        let mut i: usize = 0;
        while i < ids.len()
            invariant_except_break
                !truncated,
            invariant
                i <= ids@.len(),
                i <= limit,
                out@ == ids@.take(i as int),
            ensures
                out@ == ids@.take(i as int),
                truncated ==> i == limit && i < ids@.len(),
                !truncated ==> i == ids@.len(),
            decreases ids@.len() - i,
        {
            if out.len() >= limit {
                truncated = true;
                break;
            }
            out.push(ids[i]);
            i = i + 1;
            assert(out@ =~= ids@.take(i as int));
        }
        proof {
            lemma_sorted_is_smallest(ids@, self.alive_entities@, i as nat);
        }
        (out, truncated)
    }

    /// A snapshot of the world: its counts and, when asked for, the
    /// `entity_limit` smallest alive ids.
    pub fn snapshot(&self, req: &EcsSnapshotRequest) -> (r: EcsWorldSnapshot)
        requires
            self.wf(),
        ensures
            summary_model(self.model(), r.summary),
            req.include_entities ==> smallest_ids(
                handle_ids(r.entities@),
                self.model().alive,
                min_nat(req.entity_limit as nat, self.model().alive.len()),
            ) && r.truncated == (self.model().alive.len() > req.entity_limit),
            !req.include_entities ==> r.entities@.len() == 0 && !r.truncated,
    {
        let summary = self.summary();
        let mut entities: Vec<EntityHandle> = Vec::new();
        let mut truncated = false;
        if req.include_entities {
            let (ids, t) = self.first_alive_ids(req.entity_limit);
            truncated = t;
            let mut i: usize = 0;
            while i < ids.len()
                invariant
                    i <= ids@.len(),
                    handle_ids(entities@) == ids@.take(i as int),
                decreases ids@.len() - i,
            {
                let ghost prev = entities@;
                entities.push(EntityHandle::new(ids[i]));
                assert(handle_ids(entities@) =~= handle_ids(prev).push(ids@[i as int]));
                i = i + 1;
                assert(handle_ids(entities@) =~= ids@.take(i as int));
            }
            assert(ids@.take(ids@.len() as int) =~= ids@);
        }
        EcsWorldSnapshot { summary, entities, truncated }
    }

    /// The `limit` smallest alive entities, whether more were left out, and
    /// how many are alive.
    pub fn list_entities(&self, limit: usize) -> (r: EntityListResponse)
        requires
            self.wf(),
        ensures
            smallest_ids(record_ids(r.entities@), self.model().alive, min_nat(limit as nat, self.model().alive.len())),
            all_alive(r.entities@),
            r.truncated == (self.model().alive.len() > limit),
            r.total_count == self.model().alive.len(),
    {
        let (ids, truncated) = self.first_alive_ids(limit);
        let mut entities: Vec<EntityRecord> = Vec::new();
        let mut i: usize = 0;
        while i < ids.len()
            invariant
                i <= ids@.len(),
                record_ids(entities@) == ids@.take(i as int),
                all_alive(entities@),
            decreases ids@.len() - i,
        {
            let ghost prev = entities@;
            entities.push(EntityRecord::alive(EntityHandle::new(ids[i])));
            assert(record_ids(entities@) =~= record_ids(prev).push(ids@[i as int]));
            i = i + 1;
            assert(record_ids(entities@) =~= ids@.take(i as int));
        }
        assert(ids@.take(ids@.len() as int) =~= ids@);
        EntityListResponse {
            entities,
            truncated,
            total_count: self.alive_entities.len() as u64,
        }
    }
}

/// The error for a component packet naming an entity that is not alive.
pub open spec fn not_alive_message(id: u64) -> Seq<char> {
    "entity "@ + decimal(id as nat) + " is not alive in shared Flecs world"@
}

pub open spec fn empty_type_message() -> Seq<char> {
    "component_type must not be empty"@
}

/// The packets an entity holds (none for an entity without packets).
pub open spec fn packets_of(m: WorldModel, id: u64) -> Seq<(Seq<char>, Json)> {
    if m.components.contains_key(id) {
        m.components[id]
    } else {
        Seq::empty()
    }
}

/// Setting the packet of component type `ct` (trimmed) of entity `id`: the
/// type must not be blank and the entity must be alive.
pub open spec fn set_component_model(m: WorldModel, id: u64, ct: Seq<char>, payload: Json) -> Result<
    WorldModel,
    Seq<char>,
> {
    let name = trimmed(ct);
    if name.len() == 0 {
        Err(empty_type_message())
    } else if id == 0 || !m.alive.contains(id) {
        Err(not_alive_message(id))
    } else {
        Ok(
            WorldModel {
                components: m.components.insert(id, upsert_member(packets_of(m, id), name, payload)),
                entities_changed_tick: m.tick,
                ..m
            },
        )
    }
}

/// Removing the packet of component type `ct` (trimmed) of entity `id`; an
/// entity left without packets loses its packet list.
pub open spec fn remove_component_model(m: WorldModel, id: u64, ct: Seq<char>) -> Result<
    WorldModel,
    Seq<char>,
> {
    let name = trimmed(ct);
    if name.len() == 0 {
        Err(empty_type_message())
    } else if id == 0 || !m.alive.contains(id) {
        Err(not_alive_message(id))
    } else {
        let components = if m.components.contains_key(id) {
            let rest = remove_member(m.components[id], name);
            if rest.len() == 0 {
                m.components.remove(id)
            } else {
                m.components.insert(id, rest)
            }
        } else {
            m.components
        };
        Ok(WorldModel { components, entities_changed_tick: m.tick, ..m })
    }
}

fn not_alive_text(id: u64) -> (s: String)
    ensures
        s@ == not_alive_message(id),
{
    let mut s = String::from_str("entity ");
    let digits = decimal_string(id);
    s.append(digits.as_str());
    s.append(" is not alive in shared Flecs world");
    s
}

impl FlecsWorld {
    /// Sets the semantic packet of one component type of an alive entity.
    pub fn set_component_json(&mut self, entity_id: u64, component_type: String, payload: JsonValue) -> (r:
        Result<(), String>)
        requires
            old(self).wf(),
        ensures
            final(self).wf(),
            match set_component_model(old(self).model(), entity_id, component_type@, payload.model()) {
                Ok(m) => r is Ok && final(self).model() == m,
                Err(e) => (r matches Err(msg) && msg@ == e) && final(self).model() == old(self).model(),
            },
    {
        let component_type = trim_text(component_type.as_str());
        if component_type.as_str().is_empty() {
            return Err(String::from_str("component_type must not be empty"));
        }
        if entity_id == 0 || !self.alive_entities.contains(&entity_id) {
            return Err(not_alive_text(entity_id));
        }
        let ghost m0 = self.model();
        let mut comps = match self.semantic_components.remove(&entity_id) {
            Some(v) => v,
            None => Vec::new(),
        };
        proof {
            lemma_members_model(comps@, comps@.len());
            assert(members_model(comps@, comps@.len()) =~= packets_of(m0, entity_id));
        }
        let ghost name = component_type@;
        let ghost pm = payload.model();
        upsert_member_into(&mut comps, component_type, payload);
        self.semantic_components.insert(entity_id, comps);
        self.entities_changed_tick = self.tick;
        proof {
            assert(components_model(self.semantic_components@) =~= m0.components.insert(
                entity_id,
                upsert_member(packets_of(m0, entity_id), name, pm),
            ));
            lemma_upsert_distinct(packets_of(m0, entity_id), name, pm);
        }
        Ok(())
    }

    /// Removes the semantic packet of one component type of an alive entity.
    pub fn remove_component_json(&mut self, entity_id: u64, component_type: String) -> (r: Result<
        (),
        String,
    >)
        requires
            old(self).wf(),
        ensures
            final(self).wf(),
            match remove_component_model(old(self).model(), entity_id, component_type@) {
                Ok(m) => r is Ok && final(self).model() == m,
                Err(e) => (r matches Err(msg) && msg@ == e) && final(self).model() == old(self).model(),
            },
    {
        let component_type = trim_text(component_type.as_str());
        if component_type.as_str().is_empty() {
            return Err(String::from_str("component_type must not be empty"));
        }
        if entity_id == 0 || !self.alive_entities.contains(&entity_id) {
            return Err(not_alive_text(entity_id));
        }
        let ghost m0 = self.model();
        let ghost name = component_type@;
        match self.semantic_components.remove(&entity_id) {
            Some(mut comps) => {
                proof {
                    lemma_members_model(comps@, comps@.len());
                    lemma_remove_distinct(m0.components[entity_id], name);
                }
                remove_member_from(&mut comps, &component_type);
                proof {
                    lemma_members_model(comps@, comps@.len());
                }
                if comps.len() > 0 {
                    self.semantic_components.insert(entity_id, comps);
                    proof {
                        assert(components_model(self.semantic_components@) =~= m0.components.insert(
                            entity_id,
                            remove_member(m0.components[entity_id], name),
                        ));
                    }
                } else {
                    proof {
                        assert(components_model(self.semantic_components@) =~= m0.components.remove(
                            entity_id,
                        ));
                    }
                }
            },
            None => {
                proof {
                    assert(components_model(self.semantic_components@) =~= m0.components);
                }
            },
        }
        self.entities_changed_tick = self.tick;
        Ok(())
    }
}

/// The tick after an advance: one more, saturating at the largest tick.
pub open spec fn advanced_tick(t: u64) -> u64 {
    if t == u64::MAX {
        t
    } else {
        (t + 1) as u64
    }
}

pub open spec fn result_model(index: int, ok: bool, entity_id: Option<u64>, tick: u64, message: Seq<char>) -> CommandResultModel {
    CommandResultModel { index, ok, entity_id, tick, message }
}

/// One command applied to the world: the next world state and the
/// command's outcome. `a` is the entity the Flecs world created for a
/// spawn command.
pub open spec fn apply_command(m: WorldModel, c: CommandModel, index: int, a: AllocatedEntity) -> (
    WorldModel,
    CommandResultModel,
) {
    match c {
        CommandModel::SetTick { tick } => (
            WorldModel { tick, ..m },
            result_model(index, true, None, tick, "tick set by Flecs authority"@),
        ),
        CommandModel::AdvanceTick => {
            let t = advanced_tick(m.tick);
            (
                WorldModel { tick: t, ..m },
                result_model(index, true, None, t, "tick advanced by Flecs authority"@),
            )
        },
        CommandModel::SpawnEmpty => (
            spawn_model(m, a),
            result_model(
                index,
                true,
                Some(stable_id_of(a)),
                m.tick,
                "empty entity spawned in shared Flecs world"@,
            ),
        ),
        CommandModel::SetComponentJson { entity_id, component_type, payload } => match set_component_model(
            m,
            entity_id,
            component_type,
            payload,
        ) {
            Ok(m2) => (
                m2,
                result_model(
                    index,
                    true,
                    Some(entity_id),
                    m.tick,
                    "semantic component packet '"@ + component_type + "' set"@,
                ),
            ),
            Err(e) => (m, result_model(index, false, Some(entity_id), m.tick, e)),
        },
        CommandModel::RemoveComponentJson { entity_id, component_type } => match remove_component_model(
            m,
            entity_id,
            component_type,
        ) {
            Ok(m2) => (
                m2,
                result_model(
                    index,
                    true,
                    Some(entity_id),
                    m.tick,
                    "semantic component packet '"@ + component_type + "' removed"@,
                ),
            ),
            Err(e) => (m, result_model(index, false, Some(entity_id), m.tick, e)),
        },
    }
}

/// How many of the first `n` commands spawn an entity.
pub open spec fn spawn_count(cmds: Seq<CommandModel>, n: nat) -> nat
    decreases n,
{
    if n == 0 || n > cmds.len() {
        0
    } else {
        spawn_count(cmds, (n - 1) as nat) + if cmds[n - 1] is SpawnEmpty {
            1nat
        } else {
            0nat
        }
    }
}

/// How many of the first `n` commands advance the tick.
pub open spec fn advance_count(cmds: Seq<CommandModel>, n: nat) -> nat
    decreases n,
{
    if n == 0 || n > cmds.len() {
        0
    } else {
        advance_count(cmds, (n - 1) as nat) + if cmds[n - 1] is AdvanceTick {
            1nat
        } else {
            0nat
        }
    }
}

/// The world and the outcomes after the first `n` commands; the spawn
/// commands take the created entities of `allocs` in order.
pub open spec fn run_commands(
    m: WorldModel,
    cmds: Seq<CommandModel>,
    allocs: Seq<AllocatedEntity>,
    n: nat,
) -> (WorldModel, Seq<CommandResultModel>)
    decreases n,
{
    if n == 0 || n > cmds.len() {
        (m, Seq::empty())
    } else {
        let prev = run_commands(m, cmds, allocs, (n - 1) as nat);
        let step = apply_command(prev.0, cmds[n - 1], n - 1, allocs[spawn_count(cmds, (n - 1) as nat) as int]);
        (step.0, prev.1.push(step.1))
    }
}

pub open spec fn commands_model(cmds: Seq<EcsCommand>) -> Seq<CommandModel> {
    cmds.map_values(|c: EcsCommand| c.model())
}

pub open spec fn results_model(rs: Seq<EcsCommandResult>) -> Seq<CommandResultModel> {
    rs.map_values(|r: EcsCommandResult| r.model())
}

/// The number of Flecs entities a command envelope needs created.
pub fn command_spawn_count(req: &EcsCommandRequest) -> (n: usize)
    ensures
        n == spawn_count(commands_model(req.commands@), req.commands@.len()),
{
    let ghost cm = commands_model(req.commands@);
    let mut n: usize = 0;
    let mut i: usize = 0;
    while i < req.commands.len()
        invariant
            i <= req.commands@.len(),
            cm == commands_model(req.commands@),
            n == spawn_count(cm, i as nat),
            n <= i,
        decreases req.commands@.len() - i,
    {
        match &req.commands[i] {
            EcsCommand::SpawnEmpty => {
                n = n + 1;
            },
            _ => {},
        }
        i = i + 1;
    }
    n
}

proof fn lemma_count_bounds(cmds: Seq<CommandModel>, n: nat)
    requires
        n <= cmds.len(),
    ensures
        spawn_count(cmds, n) <= n,
        advance_count(cmds, n) <= n,
        forall|k: nat| k <= n ==> spawn_count(cmds, k) <= spawn_count(cmds, n),
    decreases n,
{
    if n > 0 {
        lemma_count_bounds(cmds, (n - 1) as nat);
    }
}

/// The outcome of a command envelope, with how many times the Flecs world
/// is to be progressed for it.
pub struct CommandOutcome {
    pub response: EcsCommandResponse,
    pub progress_steps: usize,
}

impl FlecsWorld {
    /// Applies a command envelope in order, one outcome per command, and
    /// answers with the counts of the world after it. `allocated` holds the
    /// entities the Flecs world created for the spawn commands, in order.
    pub fn command(&mut self, req: EcsCommandRequest, allocated: &Vec<AllocatedEntity>) -> (r:
        CommandOutcome)
        requires
            old(self).wf(),
            allocated@.len() == spawn_count(commands_model(req.commands@), req.commands@.len()),
        ensures
            final(self).wf(),
            ({
                let run = run_commands(
                    old(self).model(),
                    commands_model(req.commands@),
                    allocated@,
                    req.commands@.len(),
                );
                &&& final(self).model() == run.0
                &&& results_model(r.response.results@) == run.1
            }),
            r.response.ok,
            summary_model(final(self).model(), r.response.summary),
            r.progress_steps == (if old(self).model().progress_on_advance_tick {
                advance_count(commands_model(req.commands@), req.commands@.len())
            } else {
                0
            }),
    {
        let ghost m0 = self.model();
        let ghost cm = commands_model(req.commands@);
        let commands = req.commands;
        let mut results: Vec<EcsCommandResult> = Vec::new();
        let mut used: usize = 0;
        let mut advances: usize = 0;
        let mut index: usize = 0;
        proof {
            lemma_count_bounds(cm, cm.len());
        }
        while index < commands.len()
            invariant
                index <= commands@.len(),
                cm == commands_model(commands@),
                cm.len() == commands@.len(),
                allocated@.len() == spawn_count(cm, cm.len()),
                used == spawn_count(cm, index as nat),
                advances == advance_count(cm, index as nat),
                advances <= index,
                self.wf(),
                self.model().progress_on_advance_tick == m0.progress_on_advance_tick,
                self.model() == run_commands(m0, cm, allocated@, index as nat).0,
                results_model(results@) == run_commands(m0, cm, allocated@, index as nat).1,
            decreases commands@.len() - index,
        {
            proof {
                lemma_count_bounds(cm, cm.len());
                lemma_count_bounds(cm, (index + 1) as nat);
            }
            let ghost before = self.model();
            let ghost prev_results = results@;
            let ghost a = allocated@[spawn_count(cm, index as nat) as int];
            let result = match &commands[index] {
                EcsCommand::SetTick { tick } => {
                    self.tick = *tick;
                    EcsCommandResult {
                        index,
                        ok: true,
                        entity_id: None,
                        tick: self.tick,
                        message: String::from_str("tick set by Flecs authority"),
                    }
                },
                EcsCommand::AdvanceTick => {
                    self.tick = if self.tick == u64::MAX {
                        self.tick
                    } else {
                        self.tick + 1
                    };
                    advances = advances + 1;
                    EcsCommandResult {
                        index,
                        ok: true,
                        entity_id: None,
                        tick: self.tick,
                        message: String::from_str("tick advanced by Flecs authority"),
                    }
                },
                EcsCommand::SpawnEmpty => {
                    let stable_id = self.spawn_empty(allocated[used]);
                    used = used + 1;
                    EcsCommandResult {
                        index,
                        ok: true,
                        entity_id: Some(stable_id),
                        tick: self.tick,
                        message: String::from_str("empty entity spawned in shared Flecs world"),
                    }
                },
                EcsCommand::SetComponentJson { entity_id, component_type, payload } => {
                    match self.set_component_json(
                        *entity_id,
                        component_type.clone(),
                        payload.deep_clone(),
                    ) {
                        Ok(()) => {
                            let mut message = String::from_str("semantic component packet '");
                            message.append(component_type.as_str());
                            message.append("' set");
                            EcsCommandResult {
                                index,
                                ok: true,
                                entity_id: Some(*entity_id),
                                tick: self.tick,
                                message,
                            }
                        },
                        Err(message) => EcsCommandResult {
                            index,
                            ok: false,
                            entity_id: Some(*entity_id),
                            tick: self.tick,
                            message,
                        },
                    }
                },
                EcsCommand::RemoveComponentJson { entity_id, component_type } => {
                    match self.remove_component_json(*entity_id, component_type.clone()) {
                        Ok(()) => {
                            let mut message = String::from_str("semantic component packet '");
                            message.append(component_type.as_str());
                            message.append("' removed");
                            EcsCommandResult {
                                index,
                                ok: true,
                                entity_id: Some(*entity_id),
                                tick: self.tick,
                                message,
                            }
                        },
                        Err(message) => EcsCommandResult {
                            index,
                            ok: false,
                            entity_id: Some(*entity_id),
                            tick: self.tick,
                            message,
                        },
                    }
                },
            };
            results.push(result);
            proof {
                let step = apply_command(before, cm[index as int], index as int, a);
                assert(cm[index as int] == commands@[index as int].model());
                assert(self.model() == step.0);
                assert(result.model() == step.1);
                assert(results_model(results@) =~= results_model(prev_results).push(step.1));
            }
            index = index + 1;
        }
        let summary = self.summary();
        let progress_steps = if self.progress_on_advance_tick {
            advances
        } else {
            0
        };
        CommandOutcome {
            response: EcsCommandResponse { ok: true, summary, results },
            progress_steps,
        }
    }
}

/// The most entities one spawn request creates.
pub const ENTITY_SPAWN_HARD_LIMIT: usize = 65536;

/// How many entities a spawn request for `count` creates.
pub open spec fn spawn_batch_model(count: usize) -> usize {
    if count < ENTITY_SPAWN_HARD_LIMIT {
        count
    } else {
        ENTITY_SPAWN_HARD_LIMIT
    }
}

/// How many entities a spawn request for `count` creates: `count`, capped.
pub fn spawn_batch_len(count: usize) -> (n: usize)
    ensures
        n == spawn_batch_model(count),
{
    if count < ENTITY_SPAWN_HARD_LIMIT {
        count
    } else {
        ENTITY_SPAWN_HARD_LIMIT
    }
}

/// The world after recording the first `n` created entities.
pub open spec fn spawn_all(m: WorldModel, allocs: Seq<AllocatedEntity>, n: nat) -> WorldModel
    decreases n,
{
    if n == 0 || n > allocs.len() {
        m
    } else {
        spawn_model(spawn_all(m, allocs, (n - 1) as nat), allocs[n - 1])
    }
}

pub open spec fn allocated_ids(allocs: Seq<AllocatedEntity>) -> Seq<u64> {
    allocs.map_values(|a: AllocatedEntity| stable_id_of(a))
}

/// One handle of a despawn request: the next world, the outcome, and the
/// entity the Flecs world is to delete.
pub open spec fn despawn_step(m: WorldModel, h: EntityHandle) -> (WorldModel, bool, Option<u64>) {
    if h.stable_id != 0 && m.alive.contains(h.stable_id) {
        (
            WorldModel {
                alive: m.alive.remove(h.stable_id),
                components: m.components.remove(h.stable_id),
                entities_changed_tick: m.tick,
                ..m
            },
            true,
            Some(h.stable_id),
        )
    } else {
        (m, false, None)
    }
}

/// The world, the per-handle outcomes and the deleted entities after the
/// first `n` handles.
pub open spec fn despawn_all(m: WorldModel, hs: Seq<EntityHandle>, n: nat) -> (
    WorldModel,
    Seq<bool>,
    Seq<u64>,
)
    decreases n,
{
    if n == 0 || n > hs.len() {
        (m, Seq::empty(), Seq::empty())
    } else {
        let prev = despawn_all(m, hs, (n - 1) as nat);
        let step = despawn_step(prev.0, hs[n - 1]);
        (
            step.0,
            prev.1.push(step.1),
            match step.2 {
                Some(id) => prev.2.push(id),
                None => prev.2,
            },
        )
    }
}

pub open spec fn despawn_message(ok: bool) -> Seq<char> {
    if ok {
        "entity despawned from shared Flecs world"@
    } else {
        "entity does not exist in shared Flecs world"@
    }
}

/// The outcome of a despawn request, with the entities the Flecs world is
/// to delete.
pub struct DespawnOutcome {
    pub response: EntityDespawnResponse,
    pub deleted: Vec<u64>,
}

/// Whether `id` is one of `ids`.
fn contains_id(ids: &Vec<u64>, id: u64) -> (b: bool)
    ensures
        b == ids@.contains(id),
{
    let mut i: usize = 0;
    while i < ids.len()
        invariant
            i <= ids@.len(),
            forall|j: int| 0 <= j < i ==> ids@[j] != id,
        decreases ids@.len() - i,
    {
        if ids[i] == id {
            return true;
        }
        i = i + 1;
    }
    false
}

/// The model after dropping the entities that the Flecs world no longer
/// knows: the null id and those reported not alive.
pub open spec fn prune_model(m: WorldModel, not_alive: Seq<u64>) -> WorldModel {
    let alive = m.alive.filter(|e: u64| e != 0 && !not_alive.contains(e));
    WorldModel { alive, components: m.components.restrict(alive), ..m }
}

/// The model after a shutdown: no entities, no packets, no scene, tick 0.
pub open spec fn shutdown_model(m: WorldModel) -> WorldModel {
    WorldModel {
        tick: 0,
        entities_changed_tick: 0,
        alive: Set::empty(),
        components: Map::empty(),
        loaded_scene: None,
        ..m
    }
}

impl FlecsWorld {
    /// Records the entities the Flecs world created for a spawn request of
    /// `count` entities, and answers with them, the tick and the number of
    /// alive entities.
    pub fn spawn_entities(&mut self, count: usize, allocated: &Vec<AllocatedEntity>) -> (r:
        EntitySpawnResponse)
        requires
            old(self).wf(),
            allocated@.len() == spawn_batch_model(count),
        ensures
            final(self).wf(),
            final(self).model() == spawn_all(old(self).model(), allocated@, allocated@.len()),
            record_ids(r.entities@) == allocated_ids(allocated@),
            all_alive(r.entities@),
            r.tick == final(self).model().tick,
            r.total_count == final(self).model().alive.len(),
    {
        let n = spawn_batch_len(count);
        let ghost m0 = self.model();
        let mut entities: Vec<EntityRecord> = Vec::new();
        let mut i: usize = 0;
        while i < n
            invariant
                i <= n,
                n == allocated@.len(),
                self.wf(),
                self.model() == spawn_all(m0, allocated@, i as nat),
                record_ids(entities@) == allocated_ids(allocated@).take(i as int),
                all_alive(entities@),
            decreases n - i,
        {
            let ghost prev = entities@;
            let stable_id = self.spawn_empty(allocated[i]);
            entities.push(EntityRecord::alive(EntityHandle::new(stable_id)));
            assert(record_ids(entities@) =~= record_ids(prev).push(stable_id));
            i = i + 1;
            assert(record_ids(entities@) =~= allocated_ids(allocated@).take(i as int));
        }
        assert(allocated_ids(allocated@).take(n as int) =~= allocated_ids(allocated@));
        let summary = self.summary();
        EntitySpawnResponse { entities, tick: self.tick, total_count: summary.entity_count }
    }

    /// Despawns the named entities that are alive, one outcome per handle,
    /// and answers whether all of them were, with the tick and the number
    /// of alive entities left.
    pub fn despawn_entities(&mut self, req: EntityDespawnRequest) -> (r: DespawnOutcome)
        requires
            old(self).wf(),
        ensures
            final(self).wf(),
            ({
                let run = despawn_all(old(self).model(), req.entities@, req.entities@.len());
                &&& final(self).model() == run.0
                &&& r.response.results@.len() == req.entities@.len()
                &&& forall|i: int|
                    0 <= i < req.entities@.len() ==> {
                        &&& (#[trigger] r.response.results@[i]).entity == req.entities@[i]
                        &&& r.response.results@[i].ok == run.1[i]
                        &&& r.response.results@[i].message@ == despawn_message(run.1[i])
                    }
                &&& r.response.ok == (forall|i: int| 0 <= i < run.1.len() ==> run.1[i])
                &&& r.deleted@ == run.2
            }),
            r.response.tick == final(self).model().tick,
            r.response.total_count == final(self).model().alive.len(),
    {
        let ghost m0 = self.model();
        let handles = req.entities;
        let mut ok = true;
        let mut results: Vec<EntityDespawnResult> = Vec::new();
        let mut deleted: Vec<u64> = Vec::new();
        let mut i: usize = 0;
        while i < handles.len()
            invariant
                i <= handles@.len(),
                self.wf(),
                self.model() == despawn_all(m0, handles@, i as nat).0,
                despawn_all(m0, handles@, i as nat).1.len() == i,
                results@.len() == i,
                forall|j: int|
                    0 <= j < i ==> {
                        &&& (#[trigger] results@[j]).entity == handles@[j]
                        &&& results@[j].ok == despawn_all(m0, handles@, i as nat).1[j]
                        &&& results@[j].message@ == despawn_message(despawn_all(m0, handles@, i as nat).1[j])
                    },
                ok == (forall|j: int| 0 <= j < i ==> despawn_all(m0, handles@, i as nat).1[j]),
                deleted@ == despawn_all(m0, handles@, i as nat).2,
            decreases handles@.len() - i,
        {
            let ghost before = self.model();
            let ghost prev_flags = despawn_all(m0, handles@, i as nat).1;
            let handle = handles[i];
            let exists = self.exists_entity(handle);
            if exists {
                self.alive_entities.remove(&handle.stable_id);
                self.semantic_components.remove(&handle.stable_id);
                self.entities_changed_tick = self.tick;
                deleted.push(handle.stable_id);
                results.push(EntityDespawnResult {
                    entity: handle,
                    ok: true,
                    message: String::from_str("entity despawned from shared Flecs world"),
                });
                proof {
                    assert(self.model().alive =~= before.alive.remove(handle.stable_id));
                    assert(self.model().components =~= before.components.remove(handle.stable_id));
                }
            } else {
                ok = false;
                results.push(EntityDespawnResult {
                    entity: handle,
                    ok: false,
                    message: String::from_str("entity does not exist in shared Flecs world"),
                });
            }
            proof {
                let flags = despawn_all(m0, handles@, (i + 1) as nat).1;
                assert(flags == prev_flags.push(exists));
                assert forall|j: int| 0 <= j < i + 1 implies {
                    &&& (#[trigger] results@[j]).entity == handles@[j]
                    &&& results@[j].ok == flags[j]
                    &&& results@[j].message@ == despawn_message(flags[j])
                } by {
                    if j < i {
                        assert(flags[j] == prev_flags[j]);
                    }
                }
                if ok {
                    assert forall|j: int| 0 <= j < i + 1 implies flags[j] by {
                        if j < i {
                            assert(prev_flags[j]);
                        }
                    }
                } else {
                    if exists {
                        let j = choose|j: int| 0 <= j < i && !prev_flags[j];
                        assert(!flags[j]);
                    } else {
                        assert(!flags[i as int]);
                    }
                }
            }
            i = i + 1;
        }
        let summary = self.summary();
        DespawnOutcome {
            response: EntityDespawnResponse {
                ok,
                results,
                tick: self.tick,
                total_count: summary.entity_count,
            },
            deleted,
        }
    }

    /// Forgets every entity, packet and scene and resets the ticks; returns
    /// the entities the Flecs world is to delete, in increasing order.
    pub fn shutdown(&mut self) -> (deleted: Vec<u64>)
        requires
            old(self).wf(),
        ensures
            final(self).wf(),
            final(self).model() == shutdown_model(old(self).model()),
            smallest_ids(deleted@, old(self).model().alive, old(self).model().alive.len()),
    {
        let deleted = self.entity_ids();
        self.alive_entities = BTreeSet::new();
        self.tick = 0;
        self.entities_changed_tick = 0;
        self.semantic_components = BTreeMap::new();
        self.loaded_scene = None;
        proof {
            assert(components_model(self.semantic_components@) =~= Map::empty());
        }
        deleted
    }

    /// Drops the entities the Flecs world no longer knows: the null id and
    /// those in `not_alive`, with their packets.
    pub fn prune_dead_entities(&mut self, not_alive: &Vec<u64>)
        requires
            old(self).wf(),
        ensures
            final(self).wf(),
            final(self).model() == prune_model(old(self).model(), not_alive@),
    {
        let ghost m0 = self.model();
        let ghost doomed = |e: u64| e == 0 || not_alive@.contains(e);
        let ids = sorted_ids(&self.alive_entities);
        let mut i: usize = 0;
        while i < ids.len()
            invariant
                i <= ids@.len(),
                ids@.to_set() == m0.alive,
                increasing(ids@),
                doomed == (|e: u64| e == 0 || not_alive@.contains(e)),
                self.model() == (WorldModel {
                    alive: self.model().alive,
                    components: self.model().components,
                    ..m0
                }),
                self.model().alive == m0.alive.filter(|e: u64| !(doomed(e) && ids@.take(i as int).contains(e))),
                self.model().components == m0.components.restrict(self.model().alive),
                self.wf(),
            decreases ids@.len() - i,
        {
            let ghost before = self.model();
            let id = ids[i];
            if id == 0 || contains_id(not_alive, id) {
                self.alive_entities.remove(&id);
                self.semantic_components.remove(&id);
                proof {
                    assert(self.model().alive =~= before.alive.remove(id));
                    assert(self.model().components =~= before.components.remove(id));
                }
            }
            proof {
                assert(ids@.take(i + 1) =~= ids@.take(i as int).push(id));
                assert forall|e: u64| ids@.take(i + 1).contains(e) <==> (ids@.take(i as int).contains(e) || e == id) by {
                    broadcast use vstd::seq_lib::group_seq_properties;
                }
                assert(self.model().alive =~= m0.alive.filter(|e: u64| !(doomed(e) && ids@.take(i + 1).contains(e))));
                assert(self.model().components =~= m0.components.restrict(self.model().alive));
            }
            i = i + 1;
        }
        proof {
            assert(ids@.take(ids@.len() as int) =~= ids@);
            assert forall|e: u64| m0.alive.contains(e) implies ids@.contains(e) by {
                assert(ids@.to_set().contains(e));
            }
            assert(self.model().alive =~= m0.alive.filter(|e: u64| e != 0 && !not_alive@.contains(e)));
            assert(self.model() =~= prune_model(m0, not_alive@));
        }
    }
}

/// The record of where a loaded entity came from: its position in the
/// scene and the scene's source path.
pub open spec fn source_index_json(index: nat, source_path: Option<Seq<char>>) -> Json {
    Json::Object(
        seq![
            ("index"@, Json::Number(NumberModel::PosInt(index as u64))),
            (
                "source_path"@,
                match source_path {
                    Some(p) => Json::Str(p),
                    None => Json::Null,
                },
            ),
        ],
    )
}

pub open spec fn scene_entity_type() -> Seq<char> {
    "newengine.scene.entity"@
}

pub open spec fn scene_source_index_type() -> Seq<char> {
    "newengine.scene.source_index"@
}

/// The world after loading one record: a new entity holding the record and
/// its source index as packets.
pub open spec fn load_record(
    m: WorldModel,
    a: AllocatedEntity,
    index: nat,
    record: Json,
    source_path: Option<Seq<char>>,
) -> WorldModel {
    let m1 = spawn_model(m, a);
    let id = stable_id_of(a);
    let p1 = upsert_member(packets_of(m1, id), scene_entity_type(), record);
    let p2 = upsert_member(p1, scene_source_index_type(), source_index_json(index, source_path));
    WorldModel { components: m1.components.insert(id, p2), ..m1 }
}

/// The world after loading the first `n` records.
pub open spec fn load_records(
    m: WorldModel,
    allocs: Seq<AllocatedEntity>,
    records: Seq<Json>,
    source_path: Option<Seq<char>>,
    n: nat,
) -> WorldModel
    decreases n,
{
    if n == 0 || n > records.len() || n > allocs.len() {
        m
    } else {
        load_record(
            load_records(m, allocs, records, source_path, (n - 1) as nat),
            allocs[n - 1],
            (n - 1) as nat,
            records[n - 1],
            source_path,
        )
    }
}

pub open spec fn json_str_member(v: Json, key: Seq<char>) -> Option<Seq<char>> {
    match v.get(key) {
        Some(x) => x.as_str(),
        None => None,
    }
}

pub open spec fn json_u64_member(v: Json, key: Seq<char>) -> Option<u64> {
    match v.get(key) {
        Some(x) => x.as_u64(),
        None => None,
    }
}

/// The world after loading a scene document.
pub open spec fn load_scene_model(
    m: WorldModel,
    scene: Json,
    source_path: Option<Seq<char>>,
    replace: bool,
    allocs: Seq<AllocatedEntity>,
) -> WorldModel {
    let m0 = if replace {
        shutdown_model(m)
    } else {
        m
    };
    let norm = normalized_scene(scene);
    let records = scene_entity_records(norm);
    let m1 = load_records(m0, allocs, records, source_path, records.len());
    WorldModel {
        loaded_scene: Some(
            SceneModel {
                source_path,
                schema: json_str_member(norm, "schema"@),
                version: json_u64_member(norm, "version"@),
                title: json_str_member(norm, "title"@),
                entity_count: allocs.len() as usize,
                entity_handles: allocated_ids(allocs),
            },
        ),
        ..m1
    }
}

/// The answer to a scene load.
pub struct FlecsSceneLoadResult {
    pub ok: bool,
    pub source_path: Option<String>,
    pub replace: bool,
    pub schema: Option<String>,
    pub version: Option<u64>,
    pub title: Option<String>,
    pub entities: Vec<EntityHandle>,
    pub total_count: u64,
}

/// The outcome of a scene load, with the entities the Flecs world is to
/// delete (those a replacing load drops).
pub struct SceneLoadOutcome {
    pub result: FlecsSceneLoadResult,
    pub deleted: Vec<u64>,
}

/// The number of entities loading `scene_value` creates.
pub fn scene_entity_count(scene_value: &JsonValue) -> (n: usize)
    ensures
        n == scene_entity_records(normalized_scene(scene_value.model())).len(),
{
    let normalized = normalize_scene_payload(scene_value.deep_clone());
    let records = extract_scene_entity_records(&normalized);
    records.len()
}

fn clone_text(s: &Option<String>) -> (r: Option<String>)
    ensures
        opt_text(r) == opt_text(*s),
{
    match s {
        Some(t) => Some(t.clone()),
        None => None,
    }
}

fn source_index_value(index: usize, source_path: &Option<String>) -> (r: JsonValue)
    ensures
        r.model() == source_index_json(index as nat, opt_text(*source_path)),
{
    let mut members: Vec<(String, JsonValue)> = Vec::new();
    members.push(member("index", JsonValue::Number(JsonNumber::PosInt(index as u64))));
    members.push(member("source_path", opt_text_value(source_path)));
    let r = object_of(members);
    proof {
        assert(r.model()->Object_0 =~= source_index_json(index as nat, opt_text(*source_path))->Object_0);
    }
    r
}

fn str_member(v: &JsonValue, key: &str) -> (r: Option<String>)
    ensures
        opt_text(r) == json_str_member(v.model(), key@),
{
    match v.get(key) {
        Some(x) => match x.as_str() {
            Some(s) => Some(s.clone()),
            None => None,
        },
        None => None,
    }
}

fn u64_member(v: &JsonValue, key: &str) -> (r: Option<u64>)
    ensures
        r == json_u64_member(v.model(), key@),
{
    match v.get(key) {
        Some(x) => x.as_u64(),
        None => None,
    }
}

impl FlecsWorld {
    /// Loads a scene document: a replacing load first forgets the world;
    /// every entity record of the scene becomes a new entity holding the
    /// record and its source index as packets; the scene becomes the loaded
    /// scene. `allocated` holds the entities the Flecs world created, one
    /// per record.
    pub fn load_scene_value(
        &mut self,
        scene_value: JsonValue,
        source_path: Option<String>,
        replace: bool,
        allocated: &Vec<AllocatedEntity>,
    ) -> (r: SceneLoadOutcome)
        requires
            old(self).wf(),
            allocated@.len() == scene_entity_records(normalized_scene(scene_value.model())).len(),
        ensures
            final(self).wf(),
            final(self).model() == load_scene_model(
                old(self).model(),
                scene_value.model(),
                opt_text(source_path),
                replace,
                allocated@,
            ),
            r.result.ok,
            opt_text(r.result.source_path) == opt_text(source_path),
            r.result.replace == replace,
            opt_text(r.result.schema) == json_str_member(normalized_scene(scene_value.model()), "schema"@),
            r.result.version == json_u64_member(normalized_scene(scene_value.model()), "version"@),
            opt_text(r.result.title) == json_str_member(normalized_scene(scene_value.model()), "title"@),
            handle_ids(r.result.entities@) == allocated_ids(allocated@),
            r.result.total_count == final(self).model().alive.len(),
            replace ==> smallest_ids(r.deleted@, old(self).model().alive, old(self).model().alive.len()),
            !replace ==> r.deleted@.len() == 0,
    {
        let ghost m_in = self.model();
        let ghost sp = opt_text(source_path);
        let deleted = if replace {
            self.shutdown()
        } else {
            Vec::new()
        };
        let ghost m0 = self.model();
        let normalized = normalize_scene_payload(scene_value);
        let schema = str_member(&normalized, "schema");
        let version = u64_member(&normalized, "version");
        let title = str_member(&normalized, "title");
        let records = extract_scene_entity_records(&normalized);
        let ghost rm = values_model(records@);
        let mut entity_handles: Vec<EntityHandle> = Vec::new();
        let mut index: usize = 0;
        while index < records.len()
            invariant
                index <= records@.len(),
                records@.len() == allocated@.len(),
                rm == values_model(records@),
                sp == opt_text(source_path),
                self.wf(),
                self.model() == load_records(m0, allocated@, rm, sp, index as nat),
                handle_ids(entity_handles@) == allocated_ids(allocated@).take(index as int),
            decreases records@.len() - index,
        {
            let ghost before = self.model();
            let ghost prev = entity_handles@;
            let stable_id = self.spawn_empty(allocated[index]);
            let ghost m1 = self.model();
            let mut comps = match self.semantic_components.remove(&stable_id) {
                Some(v) => v,
                None => Vec::new(),
            };
            proof {
                lemma_members_model(comps@, comps@.len());
                assert(members_model(comps@, comps@.len()) =~= packets_of(m1, stable_id));
            }
            let record = records[index].deep_clone();
            assert(record.model() == rm[index as int]);
            let ghost p1 = upsert_member(packets_of(m1, stable_id), scene_entity_type(), rm[index as int]);
            let k1 = String::from_str("newengine.scene.entity");
            upsert_member_into(&mut comps, k1, record);
            assert(members_model(comps@, comps@.len()) == p1);
            let si = source_index_value(index, &source_path);
            let k2 = String::from_str("newengine.scene.source_index");
            upsert_member_into(&mut comps, k2, si);
            assert(members_model(comps@, comps@.len()) == upsert_member(p1, scene_source_index_type(), source_index_json(index as nat, sp)));
            self.semantic_components.insert(stable_id, comps);
            entity_handles.push(EntityHandle::new(stable_id));
            proof {
                let p2 = upsert_member(p1, scene_source_index_type(), source_index_json(index as nat, sp));
                lemma_upsert_distinct(packets_of(m1, stable_id), scene_entity_type(), rm[index as int]);
                lemma_upsert_distinct(p1, scene_source_index_type(), source_index_json(index as nat, sp));
                assert(components_model(self.semantic_components@) =~= m1.components.insert(stable_id, p2));
                assert(handle_ids(entity_handles@) =~= handle_ids(prev).push(stable_id));
            }
            index = index + 1;
            assert(handle_ids(entity_handles@) =~= allocated_ids(allocated@).take(index as int));
        }
        assert(allocated_ids(allocated@).take(records@.len() as int) =~= allocated_ids(allocated@));
        let mut handles_copy: Vec<EntityHandle> = Vec::new();
        let mut i: usize = 0;
        while i < entity_handles.len()
            invariant
                i <= entity_handles@.len(),
                handles_copy@ == entity_handles@.take(i as int),
            decreases entity_handles@.len() - i,
        {
            handles_copy.push(entity_handles[i]);
            i = i + 1;
            assert(handles_copy@ =~= entity_handles@.take(i as int));
        }
        assert(handles_copy@ =~= entity_handles@);
        self.loaded_scene = Some(FlecsSceneState {
            source_path: clone_text(&source_path),
            schema: clone_text(&schema),
            version,
            title: clone_text(&title),
            entity_count: entity_handles.len(),
            entity_handles: handles_copy,
        });
        let summary = self.summary();
        SceneLoadOutcome {
            result: FlecsSceneLoadResult {
                ok: true,
                source_path,
                replace,
                schema,
                version,
                title,
                entities: entity_handles,
                total_count: summary.entity_count,
            },
            deleted,
        }
    }
}

pub open spec fn handle_json(id: u64) -> Json {
    Json::Object(seq![("stable_id"@, Json::Number(NumberModel::PosInt(id)))])
}

/// An alive entity in a saved scene: its packets and its handle.
pub open spec fn saved_entity_json(m: WorldModel, id: u64) -> Json {
    Json::Object(
        seq![("components"@, Json::Object(packets_of(m, id))), ("handle"@, handle_json(id))],
    )
}

pub open spec fn opt_json_text(o: Option<Seq<char>>) -> Json {
    match o {
        Some(s) => Json::Str(s),
        None => Json::Null,
    }
}

/// The scene last loaded, or an empty one.
pub open spec fn scene_or_empty(m: WorldModel) -> SceneModel {
    match m.loaded_scene {
        Some(s) => s,
        None => SceneModel {
            source_path: None,
            schema: None,
            version: None,
            title: None,
            entity_count: 0,
            entity_handles: Seq::empty(),
        },
    }
}

/// The saved scene document, with the alive entities listed in the order
/// of `ids`.
pub open spec fn saved_scene_json(m: WorldModel, ids: Seq<u64>) -> Json {
    let scene = scene_or_empty(m);
    Json::Object(
        seq![
            ("authority"@, Json::Str("shared-flecs-world"@)),
            ("entities"@, Json::Array(Seq::new(ids.len(), |i: int| saved_entity_json(m, ids[i])))),
            ("loaded_entity_count"@, Json::Number(NumberModel::PosInt(scene.entity_count as u64))),
            (
                "loaded_entity_handles"@,
                Json::Array(
                    Seq::new(
                        scene.entity_handles.len(),
                        |i: int| handle_json(scene.entity_handles[i]),
                    ),
                ),
            ),
            (
                "schema"@,
                Json::Str(
                    match scene.schema {
                        Some(s) => s,
                        None => "newengine.scene.provider_snapshot.v1"@,
                    },
                ),
            ),
            ("source_path"@, opt_json_text(scene.source_path)),
            ("title"@, opt_json_text(scene.title)),
            (
                "version"@,
                Json::Number(
                    NumberModel::PosInt(
                        match scene.version {
                            Some(v) => v,
                            None => 1,
                        },
                    ),
                ),
            ),
        ],
    )
}

fn handle_value(id: u64) -> (r: JsonValue)
    ensures
        r.model() == handle_json(id),
{
    let mut members: Vec<(String, JsonValue)> = Vec::new();
    members.push(member("stable_id", JsonValue::Number(JsonNumber::PosInt(id))));
    let r = object_of(members);
    proof {
        assert(r.model()->Object_0 =~= handle_json(id)->Object_0);
    }
    r
}

impl FlecsWorld {
    fn packets_value(&self, id: u64) -> (r: JsonValue)
        ensures
            r.model() == Json::Object(packets_of(self.model(), id)),
    {
        match self.semantic_components.get(&id) {
            Some(comps) => {
                let c = clone_members(comps);
                proof {
                    lemma_members_model_ext(c@, comps@);
                }
                JsonValue::Object(c)
            },
            None => {
                let empty: Vec<(String, JsonValue)> = Vec::new();
                proof {
                    assert(members_model(empty@, 0) =~= Seq::empty());
                }
                JsonValue::Object(empty)
            },
        }
    }

    /// The scene document of the world: the loaded scene's facts and every
    /// alive entity, in increasing id order, with its packets.
    pub fn save_scene_value(&self) -> (r: JsonValue)
        requires
            self.wf(),
        ensures
            exists|ids: Seq<u64>|
                smallest_ids(ids, self.model().alive, self.model().alive.len())
                    && r.model() == saved_scene_json(self.model(), ids),
    {
        let ghost m = self.model();
        let ids = self.entity_ids();
        let mut entities: Vec<JsonValue> = Vec::new();
        let mut i: usize = 0;
        while i < ids.len()
            invariant
                i <= ids@.len(),
                m == self.model(),
                values_model(entities@) == Seq::new(i as nat, |t: int| saved_entity_json(m, ids@[t])),
            decreases ids@.len() - i,
        {
            let ghost prev = entities@;
            let id = ids[i];
            let mut members: Vec<(String, JsonValue)> = Vec::new();
            members.push(member("components", self.packets_value(id)));
            members.push(member("handle", handle_value(id)));
            let e = object_of(members);
            proof {
                assert(e.model()->Object_0 =~= saved_entity_json(m, id)->Object_0);
            }
            let ghost em = e.model();
            entities.push(e);
            assert(values_model(entities@) =~= values_model(prev).push(em));
            i = i + 1;
            assert(values_model(entities@) =~= Seq::new(i as nat, |t: int| saved_entity_json(m, ids@[t])));
        }
        let (count, hs, schema, version, title, source_path) = match &self.loaded_scene {
            Some(scene) => (
                scene.entity_count,
                &scene.entity_handles,
                match &scene.schema {
                    Some(s) => JsonValue::Str(s.clone()),
                    None => text_value("newengine.scene.provider_snapshot.v1"),
                },
                match scene.version {
                    Some(v) => v,
                    None => 1,
                },
                opt_text_value(&scene.title),
                opt_text_value(&scene.source_path),
            ),
            None => (
                0,
                &Vec::new(),
                text_value("newengine.scene.provider_snapshot.v1"),
                1,
                JsonValue::Null,
                JsonValue::Null,
            ),
        };
        let ghost scene = scene_or_empty(m);
        assert(handle_ids(hs@) == scene.entity_handles);
        let mut handles: Vec<JsonValue> = Vec::new();
        let mut j: usize = 0;
        while j < hs.len()
            invariant
                j <= hs@.len(),
                values_model(handles@) == Seq::new(j as nat, |t: int| handle_json(hs@[t].stable_id)),
            decreases hs@.len() - j,
        {
            let ghost prevh = handles@;
            let hv = handle_value(hs[j].stable_id);
            let ghost hm = hv.model();
            handles.push(hv);
            assert(values_model(handles@) =~= values_model(prevh).push(hm));
            j = j + 1;
            assert(values_model(handles@) =~= Seq::new(j as nat, |t: int| handle_json(hs@[t].stable_id)));
        }
        let mut members: Vec<(String, JsonValue)> = Vec::new();
        members.push(member("authority", text_value("shared-flecs-world")));
        members.push(member("entities", array_of(entities)));
        members.push(member("loaded_entity_count", JsonValue::Number(JsonNumber::PosInt(count as u64))));
        members.push(member("loaded_entity_handles", array_of(handles)));
        members.push(member("schema", schema));
        members.push(member("source_path", source_path));
        members.push(member("title", title));
        members.push(member("version", JsonValue::Number(JsonNumber::PosInt(version))));
        let r = object_of(members);
        proof {
            assert(Seq::new(hs@.len(), |t: int| handle_json(hs@[t].stable_id)) =~= Seq::new(
                scene.entity_handles.len(),
                |t: int| handle_json(scene.entity_handles[t]),
            ));
            assert(r.model()->Object_0 =~= saved_scene_json(m, ids@)->Object_0);
        }
        r
    }
}

proof fn lemma_sorted_is_smallest(ids: Seq<u64>, s: Set<u64>, k: nat)
    requires
        increasing(ids),
        ids.to_set() == s,
        k <= ids.len(),
    ensures
        smallest_ids(ids.take(k as int), s, k),
{
    let t = ids.take(k as int);
    assert forall|i: int| 0 <= i < t.len() implies s.contains(#[trigger] t[i]) by {
        assert(ids.to_set().contains(ids[i]));
    }
    assert forall|x: u64| #[trigger] s.contains(x) && !t.contains(x) implies forall|i: int|
        0 <= i < t.len() ==> t[i] < x by {
        assert(ids.to_set().contains(x));
        let j = choose|j: int| 0 <= j < ids.len() && ids[j] == x;
        if j < k {
            assert(t[j] == x);
        }
        assert forall|i: int| 0 <= i < t.len() implies t[i] < x by {
            assert(ids[i] < ids[j]);
        }
    }
}

} // verus!
