use std::cell::Cell;

use bevy_blender_utils::BBUScene;
use bevy_blender_utils::BBUSceneSpawnedEventWithId;
use bevy_blender_utils::BBUEventParseError;
use bevy_blender_utils::Mutation;
use bevy_blender_utils::SceneGraph;
use bevy_blender_utils::SceneHandle;
use bevy_blender_utils::SceneStore;

fn graph_with(entities: Vec<(&str, Option<&str>)>) -> SceneGraph {
    let mut g = SceneGraph::new();
    for (name, extras) in entities {
        g.push_entity(String::from(name), extras.map(String::from));
    }
    g
}

fn attachment_pairs(g: &SceneGraph, i: usize) -> Vec<(String, String)> {
    let mut out = Vec::new();
    for j in 0..g.attachment_count(i) {
        out.push((g.attachment_key(i, j).clone(), g.attachment_value(i, j).clone()));
    }
    out
}

#[test]
fn malformed_entity_is_skippable_and_others_mutate() {
    // Three metadata-bearing entities; the second one's blob is malformed.
    let mut g = graph_with(vec![
        ("one", Some("{\"bbu_object_data\": {\"kind\": \"a\"}}")),
        ("two", Some("{\"bbu_object_data\": ")),
        ("three", Some("{\"bbu_object_data\": {\"kind\": \"b\"}}")),
    ]);
    let visits = Cell::new(0usize);
    let scene: BBUScene<u32> = BBUScene { id: 9, handle: SceneHandle::new(1) };
    let batch = scene.parse(&mut g, |entity, _name, decoded| {
        visits.set(visits.get() + 1);
        match decoded {
            Ok(Some(_)) => vec![Mutation {
                entity,
                key: String::from("collider"),
                value: String::from("box"),
            }],
            Ok(None) => vec![],
            Err(_) => vec![],
        }
    });

    // The callback saw all three entities, the bad one included.
    assert_eq!(visits.get(), 3);
    assert_eq!(batch.len(), 2);

    // Exactly entities one and three carry the new component.
    assert_eq!(
        attachment_pairs(&g, 0),
        vec![(String::from("collider"), String::from("box"))]
    );
    assert_eq!(attachment_pairs(&g, 1), vec![]);
    assert_eq!(
        attachment_pairs(&g, 2),
        vec![(String::from("collider"), String::from("box"))]
    );
}

#[test]
fn null_payload_entity_yields_no_mutation() {
    let mut g = graph_with(vec![("empty", Some("{\"bbu_object_data\": null}"))]);
    let saw_none = Cell::new(false);
    let scene: BBUScene<u32> = BBUScene { id: 0, handle: SceneHandle::new(1) };
    let batch = scene.parse(&mut g, |_entity, _name, decoded| {
        if matches!(decoded, Ok(None)) {
            saw_none.set(true);
        }
        vec![]
    });
    assert!(saw_none.get());
    assert_eq!(batch.len(), 0);
    assert_eq!(g.attachment_count(0), 0);
}

#[test]
fn entities_without_blobs_are_never_visited() {
    let mut g = graph_with(vec![
        ("bare", None),
        ("tagged", Some("{\"bbu_object_data\": 1}")),
        ("plain", None),
    ]);
    let visited = Cell::new(0usize);
    let scene: BBUScene<u32> = BBUScene { id: 0, handle: SceneHandle::new(1) };
    scene.parse(&mut g, |entity, name, _decoded| {
        visited.set(visited.get() + 1);
        assert_eq!(entity, 1);
        assert_eq!(name, "tagged");
        vec![]
    });
    assert_eq!(visited.get(), 1);
}

#[test]
fn whole_batch_is_applied_atomically_after_the_scan() {
    // One callback enqueues several mutations across several entities; all of
    // them are visible after parse returns, and none leaked into the graph
    // the callback itself observed (the callback only ever sees decode
    // results, never attachments).
    let mut g = graph_with(vec![
        ("a", Some("{\"bbu_object_data\": {\"n\": 1}}")),
        ("b", Some("{\"bbu_object_data\": {\"n\": 2}}")),
    ]);
    let scene: BBUScene<u32> = BBUScene { id: 0, handle: SceneHandle::new(1) };
    let batch = scene.parse(&mut g, |entity, _name, _decoded| {
        vec![
            Mutation { entity, key: String::from("first"), value: String::from("1") },
            Mutation { entity: 0, key: String::from("shared"), value: String::from("x") },
        ]
    });
    assert_eq!(batch.len(), 4);
    // Entity 0: its own "first", then "shared" from both visits, in order.
    assert_eq!(
        attachment_pairs(&g, 0),
        vec![
            (String::from("first"), String::from("1")),
            (String::from("shared"), String::from("x")),
            (String::from("shared"), String::from("x")),
        ]
    );
    assert_eq!(
        attachment_pairs(&g, 1),
        vec![(String::from("first"), String::from("1"))]
    );
}

#[test]
fn batches_reordered_across_distinct_entities_agree() {
    // The same per-entity mutations, interleaved differently across distinct
    // entities, produce the same final graph.
    let mk = |entity: usize, key: &str| Mutation {
        entity,
        key: String::from(key),
        value: String::from("v"),
    };
    let batch1 = vec![mk(0, "p"), mk(1, "q"), mk(0, "r"), mk(1, "s")];
    let batch2 = vec![mk(1, "q"), mk(0, "p"), mk(1, "s"), mk(0, "r")];

    let mut g1 = graph_with(vec![("a", None), ("b", None)]);
    let mut g2 = graph_with(vec![("a", None), ("b", None)]);
    g1.apply_batch(&batch1);
    g2.apply_batch(&batch2);

    for i in 0..2 {
        assert_eq!(attachment_pairs(&g1, i), attachment_pairs(&g2, i));
    }
}

#[test]
fn out_of_range_mutation_changes_nothing() {
    let mut g = graph_with(vec![("only", None)]);
    g.apply_batch(&vec![Mutation {
        entity: 5,
        key: String::from("k"),
        value: String::from("v"),
    }]);
    assert_eq!(g.num_entities(), 1);
    assert_eq!(g.attachment_count(0), 0);
}

#[test]
fn loaded_event_with_resolvable_scene_parses() {
    let mut store = SceneStore::new();
    let h = SceneHandle::new(3);
    store.insert(h, graph_with(vec![("e", Some("{\"bbu_object_data\": 7}"))]));

    let event: BBUSceneSpawnedEventWithId<u32> = BBUSceneSpawnedEventWithId::Loaded {
        id: 11,
        handle: h,
        path: Some(String::from("scenes/demo.glb")),
    };
    let scene = event.parse(&store).expect("scene must resolve");
    assert_eq!(scene.id, 11);
    assert_eq!(scene.handle, h);

    // Take the graph out, run the parse pass, put it back.
    let mut g = store.take(h).expect("graph stored");
    let batch = scene.parse(&mut g, |entity, _name, decoded| match decoded {
        Ok(Some(_)) => vec![Mutation {
            entity,
            key: String::from("seen"),
            value: String::from("yes"),
        }],
        _ => vec![],
    });
    assert_eq!(batch.len(), 1);
    store.insert(h, g);
    assert!(store.contains(h));
}

#[test]
fn failed_event_with_path_maps_to_asset_load_failed() {
    let store = SceneStore::new();
    let event: BBUSceneSpawnedEventWithId<u32> =
        BBUSceneSpawnedEventWithId::Failed { path: Some(String::from("scenes/bad.glb")) };
    match event.parse(&store) {
        Err(BBUEventParseError::AssetLoadFailed(p)) => assert_eq!(p, "scenes/bad.glb"),
        _ => panic!("expected AssetLoadFailed with the known path"),
    }
}

#[test]
fn failed_event_without_path_maps_to_unknown_path_error() {
    let store = SceneStore::new();
    let event: BBUSceneSpawnedEventWithId<u32> =
        BBUSceneSpawnedEventWithId::Failed { path: None };
    assert!(matches!(
        event.parse(&store),
        Err(BBUEventParseError::AssetLoadFailedUnknownPath)
    ));
}

#[test]
fn evicted_scene_maps_to_no_scene_exist() {
    let store = SceneStore::new();
    let event: BBUSceneSpawnedEventWithId<u32> = BBUSceneSpawnedEventWithId::Loaded {
        id: 1,
        handle: SceneHandle::new(9),
        path: Some(String::from("scenes/gone.glb")),
    };
    match event.parse(&store) {
        Err(BBUEventParseError::NoSceneExist(p)) => assert_eq!(p, "scenes/gone.glb"),
        _ => panic!("expected NoSceneExist with the known path"),
    }

    let event2: BBUSceneSpawnedEventWithId<u32> =
        BBUSceneSpawnedEventWithId::Loaded { id: 1, handle: SceneHandle::new(9), path: None };
    assert!(matches!(
        event2.parse(&store),
        Err(BBUEventParseError::NoSceneExistUnknownPath)
    ));
}

#[test]
fn store_take_removes_only_the_taken_scene() {
    let mut store = SceneStore::new();
    let h1 = SceneHandle::new(1);
    let h2 = SceneHandle::new(2);
    store.insert(h1, graph_with(vec![("a", None)]));
    store.insert(h2, graph_with(vec![("b", None), ("c", None)]));

    let g1 = store.take(h1).expect("h1 stored");
    assert_eq!(g1.num_entities(), 1);
    assert!(!store.contains(h1));
    assert!(store.contains(h2));
    assert!(store.take(h1).is_none());

    let g2 = store.take(h2).expect("h2 stored");
    assert_eq!(g2.num_entities(), 2);
    assert!(!store.contains(h2));
}
