use vstd::prelude::*;
use crate::SceneHandle;
use crate::oracle::view_opt_string;

verus! {

/// One component attached to an entity: an opaque key/value pair, the
/// entity-graph edit this library's mutations perform.
pub struct Attachment {
    pub key: String,
    pub value: String,
}

/// The mathematical model of an attachment.
#[verifier::ext_equal]
pub struct AttachmentModel {
    pub key: Seq<char>,
    pub value: Seq<char>,
}

impl View for Attachment {
    type V = AttachmentModel;

    open spec fn view(&self) -> AttachmentModel {
        AttachmentModel { key: self.key@, value: self.value@ }
    }
}

/// One entity of a loaded scene's entity graph, as this library models it:
/// its name, its raw metadata blob if the authoring pipeline attached one,
/// and the components attached so far. Entities are keyed by their position
/// in the graph.
pub struct EntityRec {
    pub name: String,
    pub extras: Option<String>,
    pub attachments: Vec<Attachment>,
}

/// The mathematical model of one entity.
#[verifier::ext_equal]
pub struct EntityModel {
    pub name: Seq<char>,
    pub extras: Option<Seq<char>>,
    pub attachments: Seq<AttachmentModel>,
}

impl View for EntityRec {
    type V = EntityModel;

    open spec fn view(&self) -> EntityModel {
        EntityModel {
            name: self.name@,
            extras: view_opt_string(self.extras),
            attachments: self.attachments@.map_values(|a: Attachment| a@),
        }
    }
}

/// One deferred entity-graph edit: attach the given key/value component to
/// the entity at the given position. Collected during a parse, applied as one
/// atomic batch afterwards.
pub struct Mutation {
    pub entity: usize,
    pub key: String,
    pub value: String,
}

/// The mathematical model of a mutation.
#[verifier::ext_equal]
pub struct MutationModel {
    pub entity: int,
    pub key: Seq<char>,
    pub value: Seq<char>,
}

impl View for Mutation {
    type V = MutationModel;

    open spec fn view(&self) -> MutationModel {
        MutationModel { entity: self.entity as int, key: self.key@, value: self.value@ }
    }
}

/// The attachment a mutation adds.
pub open spec fn spec_att_of(m: MutationModel) -> AttachmentModel {
    AttachmentModel { key: m.key, value: m.value }
}

/// One entity with a mutation's attachment appended.
pub open spec fn spec_attach(e: EntityModel, m: MutationModel) -> EntityModel {
    EntityModel { attachments: e.attachments.push(spec_att_of(m)), ..e }
}

/// One mutation applied to a graph: appends to the target entity's
/// attachments; a mutation whose target is out of range changes nothing.
pub open spec fn spec_apply_one(g: Seq<EntityModel>, m: MutationModel) -> Seq<EntityModel> {
    if 0 <= m.entity < g.len() {
        g.update(m.entity, spec_attach(g[m.entity], m))
    } else {
        g
    }
}

/// A batch of mutations applied in order, first to last.
pub open spec fn spec_apply_batch(g: Seq<EntityModel>, ms: Seq<MutationModel>) -> Seq<EntityModel>
    decreases ms.len(),
{
    if ms.len() == 0 {
        g
    } else {
        spec_apply_batch(spec_apply_one(g, ms[0]), ms.skip(1))
    }
}

/// The models of a sequence of mutations.
pub open spec fn spec_models(b: Seq<Mutation>) -> Seq<MutationModel> {
    b.map_values(|m: Mutation| m@)
}

/// The subsequence of a batch that targets entity `e`, in batch order.
pub open spec fn spec_proj(ms: Seq<MutationModel>, e: int) -> Seq<MutationModel>
    decreases ms.len(),
{
    if ms.len() == 0 {
        Seq::empty()
    } else if ms[0].entity == e {
        seq![ms[0]] + spec_proj(ms.skip(1), e)
    } else {
        spec_proj(ms.skip(1), e)
    }
}

/// The attachments a sequence of mutations adds, in order.
pub open spec fn spec_atts(ms: Seq<MutationModel>) -> Seq<AttachmentModel>
    decreases ms.len(),
{
    if ms.len() == 0 {
        Seq::empty()
    } else {
        seq![spec_att_of(ms[0])] + spec_atts(ms.skip(1))
    }
}

/// What a batch does to each entity: names, extras and the set of entities
/// are untouched, and each entity's attachments grow by exactly the
/// attachments of the mutations that target it, in batch order.
pub proof fn lemma_apply_batch_parts(g: Seq<EntityModel>, ms: Seq<MutationModel>)
    ensures
        spec_apply_batch(g, ms).len() == g.len(),
        forall|i: int| 0 <= i < g.len() ==> #[trigger] spec_apply_batch(g, ms)[i] == (EntityModel {
            name: g[i].name,
            extras: g[i].extras,
            attachments: g[i].attachments + spec_atts(spec_proj(ms, i)),
        }),
    decreases ms.len(),
{
    if ms.len() == 0 {
        assert forall|i: int| 0 <= i < g.len() implies #[trigger] spec_apply_batch(g, ms)[i] == (
        EntityModel {
            name: g[i].name,
            extras: g[i].extras,
            attachments: g[i].attachments + spec_atts(spec_proj(ms, i)),
        }) by {
            assert(g[i].attachments + spec_atts(spec_proj(ms, i)) =~= g[i].attachments);
            assert(g[i] =~= EntityModel {
                name: g[i].name,
                extras: g[i].extras,
                attachments: g[i].attachments,
            });
        }
    } else {
        let m0 = ms[0];
        let g1 = spec_apply_one(g, m0);
        lemma_apply_batch_parts(g1, ms.skip(1));
        assert forall|i: int| 0 <= i < g.len() implies #[trigger] spec_apply_batch(g, ms)[i] == (
        EntityModel {
            name: g[i].name,
            extras: g[i].extras,
            attachments: g[i].attachments + spec_atts(spec_proj(ms, i)),
        }) by {
            assert(spec_apply_batch(g, ms) == spec_apply_batch(g1, ms.skip(1)));
            if 0 <= m0.entity < g.len() && i == m0.entity {
                assert(g1[i] == spec_attach(g[i], m0));
                let p = spec_proj(ms.skip(1), i);
                assert(spec_proj(ms, i) == seq![m0] + p);
                assert((seq![m0] + p)[0] == m0);
                assert((seq![m0] + p).skip(1) =~= p);
                assert(spec_atts(seq![m0] + p) == seq![spec_att_of(m0)] + spec_atts(p));
                assert(g1[i].attachments + spec_atts(p) =~= g[i].attachments + spec_atts(
                    spec_proj(ms, i),
                ));
            } else {
                assert(g1[i] == g[i]);
                assert(spec_proj(ms, i) == spec_proj(ms.skip(1), i));
            }
        }
    }
}

/// Order independence: two batches that agree, entity by entity, on which
/// mutations target that entity and in what relative order produce the same
/// final graph, whatever the interleaving across distinct entities.
pub proof fn lemma_order_independence(
    g: Seq<EntityModel>,
    ms1: Seq<MutationModel>,
    ms2: Seq<MutationModel>,
)
    requires
        forall|e: int| spec_proj(ms1, e) == spec_proj(ms2, e),
    ensures
        spec_apply_batch(g, ms1) == spec_apply_batch(g, ms2),
{
    lemma_apply_batch_parts(g, ms1);
    lemma_apply_batch_parts(g, ms2);
    assert forall|i: int| 0 <= i < g.len() implies spec_apply_batch(g, ms1)[i] == spec_apply_batch(
        g,
        ms2,
    )[i] by {
        assert(spec_proj(ms1, i) == spec_proj(ms2, i));
    }
    assert(spec_apply_batch(g, ms1) =~= spec_apply_batch(g, ms2));
}

/// This library's model of one loaded scene's entity graph: the entities in
/// graph iteration order, each with its name, optional raw metadata blob, and
/// attached components.
pub struct SceneGraph {
    pub entities: Vec<EntityRec>,
}

impl View for SceneGraph {
    type V = Seq<EntityModel>;

    open spec fn view(&self) -> Seq<EntityModel> {
        self.entities@.map_values(|e: EntityRec| e@)
    }
}

impl SceneGraph {
    pub fn new() -> (r: SceneGraph)
        ensures
            r@ =~= Seq::<EntityModel>::empty(),
    {
        SceneGraph { entities: Vec::new() }
    }

    /// Append one entity, with no attachments yet; returns its position.
    pub fn push_entity(&mut self, name: String, extras: Option<String>) -> (idx: usize)
        ensures
            final(self)@ == old(self)@.push(
                EntityModel {
                    name: name@,
                    extras: view_opt_string(extras),
                    attachments: Seq::empty(),
                },
            ),
            idx == old(self)@.len(),
    {
        let ghost pre = self@;
        let ghost nm = name@;
        let ghost ex = extras;
        let idx: usize = self.entities.len();
        self.entities.push(EntityRec { name, extras, attachments: Vec::new() });
        proof {
            assert(self@ =~~= pre.push(
                EntityModel { name: nm, extras: view_opt_string(ex), attachments: Seq::empty() },
            ));
        }
        idx
    }

    pub fn num_entities(&self) -> (r: usize)
        ensures
            r == self@.len(),
    {
        self.entities.len()
    }

    pub fn name_of(&self, i: usize) -> (r: &String)
        requires
            i < self@.len(),
        ensures
            r@ == self@[i as int].name,
    {
        &self.entities[i].name
    }

    pub fn extras_of(&self, i: usize) -> (r: &Option<String>)
        requires
            i < self@.len(),
        ensures
            view_opt_string(*r) == self@[i as int].extras,
    {
        &self.entities[i].extras
    }

    pub fn attachment_count(&self, i: usize) -> (r: usize)
        requires
            i < self@.len(),
        ensures
            r == self@[i as int].attachments.len(),
    {
        self.entities[i].attachments.len()
    }

    pub fn attachment_key(&self, i: usize, j: usize) -> (r: &String)
        requires
            i < self@.len(),
            j < self@[i as int].attachments.len(),
        ensures
            r@ == self@[i as int].attachments[j as int].key,
    {
        &self.entities[i].attachments[j].key
    }

    pub fn attachment_value(&self, i: usize, j: usize) -> (r: &String)
        requires
            i < self@.len(),
            j < self@[i as int].attachments.len(),
        ensures
            r@ == self@[i as int].attachments[j as int].value,
    {
        &self.entities[i].attachments[j].value
    }

    /// Apply one mutation now. A mutation whose target is out of range
    /// changes nothing.
    pub fn apply(&mut self, m: &Mutation)
        ensures
            final(self)@ == spec_apply_one(old(self)@, m@),
    {
        let ghost pre = self@;
        if m.entity < self.entities.len() {
            let att = Attachment { key: m.key.clone(), value: m.value.clone() };
            let ghost attm = att@;
            let target: &mut EntityRec = &mut self.entities[m.entity];
            target.attachments.push(att);
            proof {
                assert(self.entities@[m.entity as int].attachments@.map_values(
                    |a: Attachment| a@,
                ) =~= pre[m.entity as int].attachments.push(attm));
                assert(self@[m.entity as int] =~= spec_attach(pre[m.entity as int], m@));
                assert(self@ =~= spec_apply_one(pre, m@));
            }
        }
    }

    /// Apply a whole batch of mutations, first to last, as one pass.
    pub fn apply_batch(&mut self, batch: &Vec<Mutation>)
        ensures
            final(self)@ == spec_apply_batch(old(self)@, spec_models(batch@)),
    {
        let ghost g0 = self@;
        let ghost msall = spec_models(batch@);
        let n: usize = batch.len();
        let mut i: usize = 0;
        proof {
            assert(msall.skip(0) =~= msall);
        }
        while i < n
            invariant
                i <= n,
                n == batch@.len(),
                msall == spec_models(batch@),
                spec_apply_batch(self@, msall.skip(i as int)) == spec_apply_batch(g0, msall),
            decreases n - i,
        {
            proof {
                assert(msall.skip(i as int)[0] == msall[i as int]);
                assert(msall[i as int] == batch@[i as int]@);
                assert(msall.skip(i as int).skip(1) =~= msall.skip(i as int + 1));
            }
            let ghost pre = self@;
            self.apply(&batch[i]);
            proof {
                assert(spec_apply_batch(pre, msall.skip(i as int)) == spec_apply_batch(
                    spec_apply_one(pre, msall[i as int]),
                    msall.skip(i as int + 1),
                ));
            }
            i += 1;
        }
        proof {
            assert(msall.skip(n as int) =~= Seq::<MutationModel>::empty());
        }
    }
}

/// One stored scene: the handle it resolves from and its entity graph.
pub struct StoreSlot {
    pub handle: SceneHandle,
    pub graph: SceneGraph,
}

/// First-match lookup of a graph's model in a slot list; `None` if absent.
pub open spec fn spec_lookup(s: Seq<StoreSlot>, h: SceneHandle) -> Option<Seq<EntityModel>>
    decreases s.len(),
{
    if s.len() == 0 {
        Option::None
    } else if s[0].handle == h {
        Option::Some(s[0].graph@)
    } else {
        spec_lookup(s.skip(1), h)
    }
}

/// Lookup distributes over concatenation: the left part wins if it has the
/// handle.
proof fn lemma_lookup_append(a: Seq<StoreSlot>, b: Seq<StoreSlot>, h: SceneHandle)
    ensures
        spec_lookup(a + b, h) == if spec_lookup(a, h) is Some {
            spec_lookup(a, h)
        } else {
            spec_lookup(b, h)
        },
    decreases a.len(),
{
    if a.len() == 0 {
        assert(a + b =~= b);
    } else {
        lemma_lookup_append(a.skip(1), b, h);
        assert((a + b)[0] == a[0]);
        assert((a + b).skip(1) =~= a.skip(1) + b);
    }
}

/// Lookup misses exactly when no slot carries the handle.
proof fn lemma_lookup_none(s: Seq<StoreSlot>, h: SceneHandle)
    ensures
        spec_lookup(s, h) is None <==> (forall|i: int| 0 <= i < s.len() ==> (#[trigger] s[i]).handle
            != h),
    decreases s.len(),
{
    if s.len() == 0 {
    } else {
        lemma_lookup_none(s.skip(1), h);
        assert(forall|i: int| 0 <= i < s.skip(1).len() ==> s.skip(1)[i] == s[i + 1]);
        if s[0].handle != h && spec_lookup(s, h) is None {
            assert forall|i: int| 0 <= i < s.len() implies (#[trigger] s[i]).handle != h by {
                if i > 0 {
                    assert(s.skip(1)[i - 1] == s[i]);
                }
            }
        }
    }
}

/// This library's model of the host's scene-asset store: the resolved scene
/// graphs, keyed by handle. Converting a `Loaded` notification into a usable
/// scene checks resolvability against it; eviction between notification and
/// consumption is modeled by taking the graph out.
///
/// Well-formedness: no two slots share a handle.
pub struct SceneStore {
    pub slots: Vec<StoreSlot>,
}

impl SceneStore {
    /// No two slots share a handle.
    pub open spec fn wf(self) -> bool {
        forall|i: int, j: int| 0 <= i < j < self.slots@.len() ==> (#[trigger] self.slots@[i]).handle
            != (#[trigger] self.slots@[j]).handle
    }

    /// Whether a graph is stored under `h`.
    pub open spec fn spec_has(self, h: SceneHandle) -> bool {
        spec_lookup(self.slots@, h) is Some
    }

    /// The model of the graph stored under `h`.
    pub open spec fn spec_graph(self, h: SceneHandle) -> Seq<EntityModel> {
        match spec_lookup(self.slots@, h) {
            Option::Some(g) => g,
            Option::None => Seq::empty(),
        }
    }

    pub fn new() -> (r: SceneStore)
        ensures
            r.wf(),
            r.slots@.len() == 0,
            forall|h: SceneHandle| !r.spec_has(h),
    {
        let r = SceneStore { slots: Vec::new() };
        proof {
            assert forall|h: SceneHandle| !r.spec_has(h) by {
                lemma_lookup_none(r.slots@, h);
            }
        }
        r
    }

    /// Whether the store can resolve `h` now.
    pub fn contains(&self, h: SceneHandle) -> (r: bool)
        ensures
            r == self.spec_has(h),
    {
        let n: usize = self.slots.len();
        let mut i: usize = 0;
        proof {
            assert(self.slots@.skip(0) =~= self.slots@);
        }
        while i < n
            invariant
                i <= n,
                n == self.slots@.len(),
                spec_lookup(self.slots@.skip(i as int), h) == spec_lookup(self.slots@, h),
            decreases n - i,
        {
            proof {
                assert(self.slots@.skip(i as int)[0] == self.slots@[i as int]);
                assert(self.slots@.skip(i as int).skip(1) =~= self.slots@.skip(i as int + 1));
            }
            if self.slots[i].handle.id == h.id {
                assert(self.slots@[i as int].handle == h);
                return true;
            }
            i += 1;
        }
        assert(self.slots@.skip(n as int) =~= Seq::<StoreSlot>::empty());
        false
    }

    /// Store a graph under a fresh handle.
    pub fn insert(&mut self, handle: SceneHandle, graph: SceneGraph)
        requires
            old(self).wf(),
            !old(self).spec_has(handle),
        ensures
            final(self).wf(),
            final(self).spec_has(handle),
            final(self).spec_graph(handle) == graph@,
            forall|h2: SceneHandle| h2 != handle ==> final(self).spec_has(h2) == old(
                self,
            ).spec_has(h2) && final(self).spec_graph(h2) == old(self).spec_graph(h2),
    {
        let ghost pre = self.slots@;
        let ghost gm = graph@;
        self.slots.push(StoreSlot { handle, graph });
        proof {
            let slot = StoreSlot { handle, graph };
            assert(self.slots@ =~= pre + seq![slot]);
            lemma_lookup_none(pre, handle);
            assert forall|h2: SceneHandle| true implies spec_lookup(self.slots@, h2) == (
            if spec_lookup(pre, h2) is Some {
                spec_lookup(pre, h2)
            } else {
                spec_lookup(seq![slot], h2)
            }) by {
                lemma_lookup_append(pre, seq![slot], h2);
            }
            assert(seq![slot][0] == slot);
            assert(seq![slot].skip(1) =~= Seq::<StoreSlot>::empty());
            assert(spec_lookup(seq![slot], handle) == Option::Some(gm));
            assert forall|h2: SceneHandle| h2 != handle implies spec_lookup(seq![slot], h2)
                is None by {
                lemma_lookup_none(seq![slot], h2);
            }
            assert forall|i: int, j: int|
                0 <= i < j < self.slots@.len() implies (#[trigger] self.slots@[i]).handle != (
            #[trigger] self.slots@[j]).handle by {
                if j == self.slots@.len() - 1 {
                    lemma_lookup_none(pre, handle);
                    assert(pre[i].handle != handle);
                }
            }
        }
    }

    /// Take the graph stored under `h` out of the store, if it resolves;
    /// every other stored scene is untouched. The caller owns the graph for
    /// the duration of one parse-and-apply pass and reinserts it afterwards.
    pub fn take(&mut self, h: SceneHandle) -> (r: Option<SceneGraph>)
        requires
            old(self).wf(),
        ensures
            final(self).wf(),
            r is Some <==> old(self).spec_has(h),
            r matches Some(g) ==> g@ == old(self).spec_graph(h),
            !final(self).spec_has(h),
            forall|h2: SceneHandle| h2 != h ==> final(self).spec_has(h2) == old(self).spec_has(h2)
                && final(self).spec_graph(h2) == old(self).spec_graph(h2),
    {
        let ghost pre = self.slots@;
        let n: usize = self.slots.len();
        let mut i: usize = 0;
        proof {
            assert(self.slots@.skip(0) =~= self.slots@);
        }
        while i < n
            invariant
                i <= n,
                n == self.slots@.len(),
                self.slots@ == pre,
                pre == old(self).slots@,
                forall|a: int, b: int| 0 <= a < b < pre.len() ==> (#[trigger] pre[a]).handle != (
                #[trigger] pre[b]).handle,
                spec_lookup(pre.skip(i as int), h) == spec_lookup(pre, h),
                forall|j: int| 0 <= j < i ==> (#[trigger] pre[j]).handle != h,
            decreases n - i,
        {
            proof {
                assert(pre.skip(i as int)[0] == pre[i as int]);
                assert(pre.skip(i as int).skip(1) =~= pre.skip(i as int + 1));
            }
            if self.slots[i].handle.id == h.id {
                assert(pre[i as int].handle == h);
                let slot = self.slots.remove(i);
                proof {
                    lemma_take_shape(pre, i as int, h);
                    assert(self.slots@ =~= pre.subrange(0, i as int) + pre.subrange(
                        i as int + 1,
                        pre.len() as int,
                    ));
                }
                return Option::Some(slot.graph);
            }
            i += 1;
        }
        proof {
            assert(pre.skip(n as int) =~= Seq::<StoreSlot>::empty());
            lemma_lookup_none(pre, h);
        }
        Option::None
    }
}

/// Removing the first slot that carries `h` from a well-formed slot list
/// removes `h` from the lookup and leaves every other handle's lookup as it
/// was; well-formedness is preserved.
proof fn lemma_take_shape(s: Seq<StoreSlot>, i: int, h: SceneHandle)
    requires
        0 <= i < s.len(),
        s[i].handle == h,
        forall|j: int| 0 <= j < i ==> (#[trigger] s[j]).handle != h,
        forall|a: int, b: int| 0 <= a < b < s.len() ==> (#[trigger] s[a]).handle != (
        #[trigger] s[b]).handle,
    ensures
        ({
            let rest = s.subrange(0, i) + s.subrange(i + 1, s.len() as int);
            &&& spec_lookup(rest, h) is None
            &&& forall|h2: SceneHandle| h2 != h ==> spec_lookup(rest, h2) == spec_lookup(s, h2)
            &&& spec_lookup(s, h) == Option::Some(s[i].graph@)
            &&& forall|a: int, b: int| 0 <= a < b < rest.len() ==> (#[trigger] rest[a]).handle != (
            #[trigger] rest[b]).handle
        }),
{
    let lft = s.subrange(0, i);
    let mid = seq![s[i]];
    let rgt = s.subrange(i + 1, s.len() as int);
    let rest = lft + rgt;
    assert(s =~= lft + (mid + rgt));
    lemma_lookup_append(lft, mid + rgt, h);
    lemma_lookup_append(lft, rgt, h);
    lemma_lookup_none(lft, h);
    assert((mid + rgt)[0] == s[i]);
    assert((mid + rgt).skip(1) =~= rgt);
    assert(spec_lookup(mid + rgt, h) == Option::Some(s[i].graph@));
    assert(spec_lookup(s, h) == Option::Some(s[i].graph@));
    assert forall|j: int| 0 <= j < rgt.len() implies (#[trigger] rgt[j]).handle != h by {
        assert(rgt[j] == s[i + 1 + j]);
    }
    lemma_lookup_none(rgt, h);
    assert(spec_lookup(rest, h) is None);
    assert forall|h2: SceneHandle| h2 != h implies spec_lookup(rest, h2) == spec_lookup(s, h2) by {
        lemma_lookup_append(lft, mid + rgt, h2);
        lemma_lookup_append(lft, rgt, h2);
        assert(spec_lookup(mid + rgt, h2) == spec_lookup(rgt, h2));
    }
    assert forall|a: int, b: int| 0 <= a < b < rest.len() implies (#[trigger] rest[a]).handle != (
    #[trigger] rest[b]).handle by {
        let sa = if a < i {
            a
        } else {
            a + 1
        };
        let sb = if b < i {
            b
        } else {
            b + 1
        };
        assert(rest[a] == s[sa]);
        assert(rest[b] == s[sb]);
    }
}

} // verus!
