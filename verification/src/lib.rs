use vstd::prelude::*;

mod bbu_manager;

mod channel;
mod extras;
mod oracle;
mod scene;

pub use scene::Attachment;
pub use scene::AttachmentModel;
pub use scene::EntityModel;
pub use scene::EntityRec;
pub use scene::Mutation;
pub use scene::MutationModel;
pub use scene::SceneGraph;
pub use scene::SceneStore;
pub use scene::StoreSlot;
pub use scene::spec_lookup;
pub use scene::lemma_apply_batch_parts;
pub use scene::lemma_order_independence;
pub use scene::spec_apply_batch;
pub use scene::spec_apply_one;
pub use scene::spec_att_of;
pub use scene::spec_attach;
pub use scene::spec_atts;
pub use scene::spec_models;
pub use scene::spec_proj;

pub use extras::DecodeError;
pub use extras::decode_payload;
pub use extras::json_doc;
pub use extras::json_is_obj;
pub use extras::json_wf;
pub use extras::payload_key;
pub use extras::spec_decode_result;
pub use extras::spec_envelope_wf;
pub use extras::spec_payload_present;

pub use bbu_manager::BBUEventParseError;
pub use bbu_manager::BBUManager;
pub use bbu_manager::SceneWithId;
pub use bbu_manager::lemma_at_most_once;
pub use bbu_manager::lemma_idle_after_poll;
pub use bbu_manager::lemma_kept_entries;
pub use bbu_manager::lemma_silent_drop;
pub use bbu_manager::spec_emitted;
pub use bbu_manager::spec_kept;
pub use bbu_manager::spec_keeps;
pub use bbu_manager::spec_note;
pub use bbu_manager::spec_terminal;
pub use bbu_manager::spec_terminal_count;
pub use channel::BBUSceneSpawnedEvent;
pub use channel::BBUSceneSpawnedEventWithId;
pub use channel::NoteModel;
pub use channel::NotificationQueue;
pub use channel::NotificationReader;
pub use oracle::LoadState;
pub use oracle::OracleReport;
pub use oracle::OracleView;
pub use oracle::view_opt_string;

verus! {

/// A handle to one externally loaded scene asset, carried by value.
///
/// The asset subsystem that resolves handles to scene data lives outside this
/// library; here a handle is an opaque key that the oracle and the scene store
/// are queried with.
#[derive(Clone, Copy, PartialEq, Eq, Structural, Debug)]
pub struct SceneHandle {
    pub id: u64,
}

impl SceneHandle {
    pub fn new(id: u64) -> (r: SceneHandle)
        ensures
            r.id == id,
    {
        SceneHandle { id }
    }
}

/// A marker for caller-chosen opaque scene identifiers: copyable, carried
/// through notifications, never compared by this library.
pub trait SceneId: Copy + Send + Sync + 'static {

}

/// All the required info for parsing one loaded scene's extras: the caller's
/// opaque id and the handle the scene resolved from. Obtained from a `Loaded`
/// notification via `BBUSceneSpawnedEventWithId::parse`; the caller then takes
/// the scene's graph out of the `SceneStore`, runs `parse` on it, and puts it
/// back.
pub struct BBUScene<Id> {
    pub id: Id,
    pub handle: SceneHandle,
}

/// The positions of the entities that carry a raw metadata blob, in graph
/// iteration order: exactly the entities one parse pass hands to the
/// callback.
pub open spec fn spec_meta_indices(g: Seq<EntityModel>) -> Seq<int>
    decreases g.len(),
{
    if g.len() == 0 {
        Seq::empty()
    } else {
        let rest = spec_meta_indices(g.drop_last());
        if g.last().extras is Some {
            rest.push(g.len() - 1)
        } else {
            rest
        }
    }
}

/// The concatenation of the callback's per-entity mutation lists, in visit
/// order.
pub open spec fn spec_concat(outs: Seq<Vec<Mutation>>) -> Seq<Mutation>
    decreases outs.len(),
{
    if outs.len() == 0 {
        Seq::empty()
    } else {
        spec_concat(outs.drop_last()) + outs.last()@
    }
}

/// One callback visit: entity `i` carries a blob, the callback was handed
/// `i`, the entity's name, and a decode result that is correct for that blob,
/// and it answered with the mutation list `out`.
pub open spec fn spec_callback_step<F: Fn(usize, String, Result<Option<serde_json::Value>, DecodeError>) -> Vec<Mutation>>(
    f: F,
    g: Seq<EntityModel>,
    i: int,
    out: Vec<Mutation>,
) -> bool {
    exists|n: String, d: Result<Option<serde_json::Value>, DecodeError>|
        {
            &&& 0 <= i < g.len()
            &&& n@ == g[i].name
            &&& match g[i].extras {
                Option::Some(blob) => spec_decode_result(blob, d),
                Option::None => false,
            }
            &&& #[trigger] call_ensures(f, (i as usize, n, d), out)
        }
}

/// One whole parse pass over graph `g`: the callback was invoked once per
/// metadata-bearing entity, in graph iteration order, with a correct decode
/// result each time, and the batch is the concatenation of its answers.
pub open spec fn spec_parse_run<F: Fn(usize, String, Result<Option<serde_json::Value>, DecodeError>) -> Vec<Mutation>>(
    f: F,
    g: Seq<EntityModel>,
    outs: Seq<Vec<Mutation>>,
    batch: Seq<Mutation>,
) -> bool {
    let idxs = spec_meta_indices(g);
    &&& outs.len() == idxs.len()
    &&& batch == spec_concat(outs)
    &&& forall|k: int| 0 <= k < idxs.len() ==> spec_callback_step(f, g, idxs[k], #[trigger] outs[k])
}

impl<Id: Copy> BBUScene<Id> {
    /// Parse the scene's extras and apply the resulting changes to its
    /// entity graph.
    ///
    /// Every entity that carries a raw metadata blob is visited once, in
    /// graph iteration order; entities without one are skipped entirely. For
    /// each visited entity the blob is decoded against the optional payload
    /// envelope and the callback receives the entity's position, its name,
    /// and the decode result: it decides per-entity policy and answers with
    /// mutations to enqueue. No mutation is applied while the iteration runs
    /// (the callback never observes a partially mutated graph); after the
    /// last visit the whole batch is applied in one pass, and returned.
    pub fn parse<F: Fn(usize, String, Result<Option<serde_json::Value>, DecodeError>) -> Vec<
        Mutation,
    >>(&self, scene: &mut SceneGraph, parser: F) -> (batch: Vec<Mutation>)
        requires
            forall|i: usize, n: String, d: Result<Option<serde_json::Value>, DecodeError>|
                call_requires(parser, (i, n, d)),
        ensures
            final(scene)@ == spec_apply_batch(old(scene)@, spec_models(batch@)),
            exists|outs: Seq<Vec<Mutation>>| spec_parse_run(parser, old(scene)@, outs, batch@),
    {
        let ghost g = scene@;
        let mut batch: Vec<Mutation> = Vec::new();
        let ghost mut outs: Seq<Vec<Mutation>> = Seq::empty();
        let n: usize = scene.num_entities();
        let mut i: usize = 0;
        proof {
            assert(g.take(0) =~= Seq::<EntityModel>::empty());
            assert(spec_concat(outs) =~= batch@);
        }
        while i < n
            invariant
                i <= n,
                n == g.len(),
                scene@ == g,
                forall|j: usize, nm: String, d: Result<Option<serde_json::Value>, DecodeError>|
                    call_requires(parser, (j, nm, d)),
                outs.len() == spec_meta_indices(g.take(i as int)).len(),
                batch@ == spec_concat(outs),
                forall|k: int| 0 <= k < outs.len() ==> spec_callback_step(
                    parser,
                    g,
                    spec_meta_indices(g.take(i as int))[k],
                    #[trigger] outs[k],
                ),
            decreases n - i,
        {
            let ghost idxs_pre = spec_meta_indices(g.take(i as int));
            proof {
                assert(g.take(i as int + 1).drop_last() =~= g.take(i as int));
                assert(g.take(i as int + 1).last() == g[i as int]);
            }
            match scene.extras_of(i) {
                Option::None => {
                    proof {
                        assert(spec_meta_indices(g.take(i as int + 1)) == idxs_pre);
                    }
                },
                Option::Some(blob) => {
                    let d = decode_payload(blob.as_str());
                    let ghost dd = d;
                    let name = scene.name_of(i).clone();
                    let ghost nm = name;
                    let mut out = parser(i, name, d);
                    proof {
                        let outs_pre = outs;
                        outs = outs.push(out);
                        assert(outs.drop_last() =~= outs_pre);
                        assert(spec_concat(outs) == spec_concat(outs_pre) + out@);
                        assert(g[i as int].extras == Option::Some(blob@));
                        assert(spec_decode_result(blob@, dd));
                        assert(nm@ == g[i as int].name);
                        assert((i as int) as usize == i);
                        assert(call_ensures(parser, ((i as int) as usize, nm, dd), out));
                        assert(spec_callback_step(parser, g, i as int, out));
                        assert(spec_meta_indices(g.take(i as int + 1)) == idxs_pre.push(i as int));
                    }
                    batch.append(&mut out);
                },
            }
            i += 1;
        }
        proof {
            assert(g.take(n as int) =~= g);
            assert(spec_parse_run(parser, g, outs, batch@));
        }
        scene.apply_batch(&batch);
        batch
    }
}

} // verus!
