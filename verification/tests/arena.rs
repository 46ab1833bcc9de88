//! Behaviour of the pipeline arena against a stub backend whose compiled
//! objects carry a version counter, so reloads are observable.

use std::cell::Cell;

use voidin::descriptor::{ComputePipelineDescriptor, RenderPipelineDescriptor};
use voidin::handle::TaggedHandle;
use voidin::pipeline::{Arena, Handle, PipelineError};

#[derive(Debug, Clone, PartialEq, Eq)]
struct RenderStub {
    version: u32,
}

#[derive(Debug, Clone, PartialEq, Eq)]
struct ComputeStub {
    version: u32,
}

type StubArena = Arena<RenderStub, ComputeStub>;

fn depth_prepass_descriptor() -> RenderPipelineDescriptor {
    RenderPipelineDescriptor {
        label: Some("Depth Prepass".to_owned()),
        fragment: None,
        ..RenderPipelineDescriptor::default()
    }
}

fn shading_descriptor() -> RenderPipelineDescriptor {
    RenderPipelineDescriptor {
        label: Some("Shading".to_owned()),
        ..RenderPipelineDescriptor::default()
    }
}

#[test]
fn equal_descriptors_share_one_handle_and_one_materialization() {
    let mut arena: StubArena = Arena::new();
    let path = "shaders/geometry.wgsl".to_owned();
    let calls = Cell::new(0u32);

    let h1 = arena
        .process_render_pipeline(&path, shading_descriptor(), |_d| {
            calls.set(calls.get() + 1);
            Ok(RenderStub { version: 1 })
        })
        .unwrap();
    let h2 = arena
        .process_render_pipeline(&path, shading_descriptor(), |_d| {
            calls.set(calls.get() + 1);
            Ok(RenderStub { version: 1 })
        })
        .unwrap();

    assert_eq!(h1, h2);
    assert_eq!(calls.get(), 1);
}

#[test]
fn cache_hit_spans_paths_and_does_not_register_the_second_path() {
    let mut arena: StubArena = Arena::new();
    let first = "shaders/a.wgsl".to_owned();
    let second = "shaders/b.wgsl".to_owned();

    let h1 = arena
        .process_render_pipeline(&first, shading_descriptor(), |_d| {
            Ok(RenderStub { version: 1 })
        })
        .unwrap();
    let h2 = arena
        .process_render_pipeline(&second, shading_descriptor(), |_d| {
            Ok(RenderStub { version: 1 })
        })
        .unwrap();

    assert_eq!(h1, h2);
    assert_eq!(arena.handles_for(&first).unwrap().len(), 1);
    assert!(matches!(
        arena.handles_for(&second),
        Err(PipelineError::UnknownPath)
    ));
}

#[test]
fn materialize_failure_leaves_no_partial_state() {
    let mut arena: StubArena = Arena::new();
    let path = "shaders/broken.wgsl".to_owned();

    let err = arena
        .process_render_pipeline(&path, shading_descriptor(), |_d| {
            Err("layout mismatch".to_owned())
        })
        .unwrap_err();
    match err {
        PipelineError::Materialize(msg) => assert_eq!(msg, "layout mismatch"),
        other => panic!("unexpected error: {:?}", other),
    }
    assert!(matches!(
        arena.handles_for(&path),
        Err(PipelineError::UnknownPath)
    ));

    // The next request materializes from scratch, as if the failed call
    // never happened.
    let calls = Cell::new(0u32);
    let h = arena
        .process_render_pipeline(&path, shading_descriptor(), |_d| {
            calls.set(calls.get() + 1);
            Ok(RenderStub { version: 3 })
        })
        .unwrap();
    assert_eq!(calls.get(), 1);
    assert_eq!(arena.get_pipeline(h).unwrap(), &RenderStub { version: 3 });
}

#[test]
fn get_descriptor_returns_the_originating_descriptor() {
    let mut arena: StubArena = Arena::new();
    let path = "shaders/geometry.wgsl".to_owned();

    let h = arena
        .process_render_pipeline(&path, depth_prepass_descriptor(), |_d| {
            Ok(RenderStub { version: 1 })
        })
        .unwrap();

    let d = arena.get_descriptor(h).unwrap();
    assert_eq!(d.label.as_deref(), Some("Depth Prepass"));
    assert!(d.fragment.is_none());

    // The dispatching trait behind the arena accessors is usable directly.
    let p = h.get_pipeline(&arena).unwrap();
    assert_eq!(p, &RenderStub { version: 1 });
    assert_eq!(h.get_descriptor(&arena).unwrap().label.as_deref(), Some("Depth Prepass"));
}

#[test]
fn foreign_handle_is_rejected() {
    let mut donor: StubArena = Arena::new();
    let path = "shaders/a.wgsl".to_owned();
    let h = donor
        .process_render_pipeline(&path, shading_descriptor(), |_d| {
            Ok(RenderStub { version: 1 })
        })
        .unwrap();

    let empty: StubArena = Arena::new();
    assert!(matches!(
        empty.get_pipeline(h),
        Err(PipelineError::UnknownHandle)
    ));
    assert!(matches!(
        empty.get_descriptor(h),
        Err(PipelineError::UnknownHandle)
    ));
}

#[test]
fn successful_reload_swaps_pipelines_in_place() {
    let mut arena: StubArena = Arena::new();
    let path = "shaders/geometry.wgsl".to_owned();

    let h = arena
        .process_render_pipeline(&path, shading_descriptor(), |_d| {
            Ok(RenderStub { version: 1 })
        })
        .unwrap();
    assert_eq!(arena.get_pipeline(h).unwrap(), &RenderStub { version: 1 });

    let failures = arena
        .reload_pipelines(
            &path,
            || Ok(2u32),
            |m: &u32, _d: &RenderPipelineDescriptor| Ok(RenderStub { version: *m }),
            |m: &u32, _d: &ComputePipelineDescriptor| Ok(ComputeStub { version: *m }),
        )
        .unwrap();

    assert!(failures.is_empty());
    // The handle obtained before the reload is still valid and now
    // observes the pipeline built from the new module.
    assert_eq!(arena.get_pipeline(h).unwrap(), &RenderStub { version: 2 });
}

#[test]
fn failed_compile_on_reload_keeps_every_pipeline() {
    let mut arena: StubArena = Arena::new();
    let path = "shaders/geometry.wgsl".to_owned();

    let h = arena
        .process_render_pipeline(&path, shading_descriptor(), |_d| {
            Ok(RenderStub { version: 1 })
        })
        .unwrap();

    let err = arena
        .reload_pipelines(
            &path,
            || Err("unexpected token".to_owned()),
            |m: &u32, _d: &RenderPipelineDescriptor| Ok(RenderStub { version: *m }),
            |m: &u32, _d: &ComputePipelineDescriptor| Ok(ComputeStub { version: *m }),
        )
        .unwrap_err();

    match err {
        PipelineError::ShaderCompile(msg) => assert_eq!(msg, "unexpected token"),
        other => panic!("unexpected error: {:?}", other),
    }
    assert_eq!(arena.get_pipeline(h).unwrap(), &RenderStub { version: 1 });
}

#[test]
fn reload_of_an_unwatched_path_is_rejected() {
    let mut arena: StubArena = Arena::new();
    let path = "shaders/never-registered.wgsl".to_owned();

    let err = arena
        .reload_pipelines(
            &path,
            || Ok(1u32),
            |m: &u32, _d: &RenderPipelineDescriptor| Ok(RenderStub { version: *m }),
            |m: &u32, _d: &ComputePipelineDescriptor| Ok(ComputeStub { version: *m }),
        )
        .unwrap_err();
    assert!(matches!(err, PipelineError::UnknownPath));
}

#[test]
fn two_descriptors_one_path_reload_replays_both() {
    let mut arena: StubArena = Arena::new();
    let path = "shaders/geometry.wgsl".to_owned();

    let depth = arena
        .process_render_pipeline(&path, depth_prepass_descriptor(), |_d| {
            Ok(RenderStub { version: 1 })
        })
        .unwrap();
    let shading = arena
        .process_render_pipeline(&path, shading_descriptor(), |_d| {
            Ok(RenderStub { version: 1 })
        })
        .unwrap();
    assert_ne!(depth, shading);
    assert_eq!(arena.handles_for(&path).unwrap().len(), 2);

    let calls = Cell::new(0u32);
    let failures = arena
        .reload_pipelines(
            &path,
            || Ok(2u32),
            |m: &u32, _d: &RenderPipelineDescriptor| {
                calls.set(calls.get() + 1);
                Ok(RenderStub { version: *m })
            },
            |m: &u32, _d: &ComputePipelineDescriptor| Ok(ComputeStub { version: *m }),
        )
        .unwrap();

    assert!(failures.is_empty());
    // Materialization was replayed exactly once per registered handle, and
    // no third pipeline came into being.
    assert_eq!(calls.get(), 2);
    assert_eq!(arena.handles_for(&path).unwrap().len(), 2);
    assert_eq!(arena.get_pipeline(depth).unwrap(), &RenderStub { version: 2 });
    assert_eq!(
        arena.get_pipeline(shading).unwrap(),
        &RenderStub { version: 2 }
    );
}

#[test]
fn reload_failure_of_one_handle_does_not_block_the_rest() {
    let mut arena: StubArena = Arena::new();
    let path = "shaders/geometry.wgsl".to_owned();

    let depth = arena
        .process_render_pipeline(&path, depth_prepass_descriptor(), |_d| {
            Ok(RenderStub { version: 1 })
        })
        .unwrap();
    let shading = arena
        .process_render_pipeline(&path, shading_descriptor(), |_d| {
            Ok(RenderStub { version: 1 })
        })
        .unwrap();

    // The edit breaks only the depth-only configuration.
    let failures = arena
        .reload_pipelines(
            &path,
            || Ok(2u32),
            |m: &u32, d: &RenderPipelineDescriptor| {
                if d.fragment.is_none() {
                    Err("missing fragment output".to_owned())
                } else {
                    Ok(RenderStub { version: *m })
                }
            },
            |m: &u32, _d: &ComputePipelineDescriptor| Ok(ComputeStub { version: *m }),
        )
        .unwrap();

    assert_eq!(failures.len(), 1);
    assert_eq!(failures[0].handle, TaggedHandle::Render(depth));
    assert_eq!(failures[0].message, "missing fragment output");
    // The failed slot kept its previous pipeline; the other was swapped.
    assert_eq!(arena.get_pipeline(depth).unwrap(), &RenderStub { version: 1 });
    assert_eq!(
        arena.get_pipeline(shading).unwrap(),
        &RenderStub { version: 2 }
    );
}

#[test]
fn render_and_compute_namespaces_never_alias() {
    let mut arena: StubArena = Arena::new();
    let path = "shaders/geometry.wgsl".to_owned();

    // One pipeline of each kind, so both tables use slot index zero.
    let _render = arena
        .process_render_pipeline(&path, shading_descriptor(), |_d| {
            Ok(RenderStub { version: 1 })
        })
        .unwrap();
    let _compute = arena
        .process_compute_pipeline(&path, ComputePipelineDescriptor::default(), |_d| {
            Ok(ComputeStub { version: 1 })
        })
        .unwrap();

    let tagged = arena.handles_for(&path).unwrap();
    assert_eq!(tagged.len(), 2);
    let tagged_render = tagged[0];
    let tagged_compute = tagged[1];
    assert!(tagged_render.as_render().is_some());
    assert!(tagged_compute.as_compute().is_some());

    // The accessors reject a handle from the other namespace even though
    // the underlying indices coincide.
    assert!(arena.render_pipeline_for(tagged_render).is_ok());
    assert!(matches!(
        arena.compute_pipeline_for(tagged_render),
        Err(PipelineError::UnknownHandle)
    ));
    assert!(arena.compute_pipeline_for(tagged_compute).is_ok());
    assert!(matches!(
        arena.render_pipeline_for(tagged_compute),
        Err(PipelineError::UnknownHandle)
    ));

    // A reload of the shared path replays both kinds, each through its own
    // table.
    let failures = arena
        .reload_pipelines(
            &path,
            || Ok(2u32),
            |m: &u32, _d: &RenderPipelineDescriptor| Ok(RenderStub { version: *m }),
            |m: &u32, _d: &ComputePipelineDescriptor| Ok(ComputeStub { version: *m }),
        )
        .unwrap();
    assert!(failures.is_empty());
    assert_eq!(
        arena.render_pipeline_for(tagged_render).unwrap(),
        &RenderStub { version: 2 }
    );
    assert_eq!(
        arena.compute_pipeline_for(tagged_compute).unwrap(),
        &ComputeStub { version: 2 }
    );
}

#[test]
fn compute_pipelines_deduplicate_and_reload_like_render_ones() {
    let mut arena: StubArena = Arena::new();
    let path = "shaders/simulate.wgsl".to_owned();
    let calls = Cell::new(0u32);

    let h1 = arena
        .process_compute_pipeline(&path, ComputePipelineDescriptor::default(), |_d| {
            calls.set(calls.get() + 1);
            Ok(ComputeStub { version: 1 })
        })
        .unwrap();
    let h2 = arena
        .process_compute_pipeline(&path, ComputePipelineDescriptor::default(), |_d| {
            calls.set(calls.get() + 1);
            Ok(ComputeStub { version: 1 })
        })
        .unwrap();
    assert_eq!(h1, h2);
    assert_eq!(calls.get(), 1);

    let failures = arena
        .reload_pipelines(
            &path,
            || Ok(5u32),
            |m: &u32, _d: &RenderPipelineDescriptor| Ok(RenderStub { version: *m }),
            |m: &u32, _d: &ComputePipelineDescriptor| Ok(ComputeStub { version: *m }),
        )
        .unwrap();
    assert!(failures.is_empty());
    assert_eq!(arena.get_pipeline(h1).unwrap(), &ComputeStub { version: 5 });
}

#[test]
fn from_path_compile_failure_aborts_before_any_state() {
    let mut arena: StubArena = Arena::new();
    let path = "shaders/new.wgsl".to_owned();

    let err = arena
        .process_render_pipeline_from_path(
            &path,
            shading_descriptor(),
            || Err::<u32, String>("unknown identifier".to_owned()),
            |m: &u32, _d: &RenderPipelineDescriptor| Ok(RenderStub { version: *m }),
        )
        .unwrap_err();
    match err {
        PipelineError::ShaderCompile(msg) => assert_eq!(msg, "unknown identifier"),
        other => panic!("unexpected error: {:?}", other),
    }
    assert!(matches!(
        arena.handles_for(&path),
        Err(PipelineError::UnknownPath)
    ));
}

#[test]
fn from_path_hit_still_compiles_but_never_materializes() {
    let mut arena: StubArena = Arena::new();
    let path = "shaders/new.wgsl".to_owned();
    let compiles = Cell::new(0u32);
    let materializations = Cell::new(0u32);

    for _ in 0..2 {
        let _ = arena
            .process_render_pipeline_from_path(
                &path,
                shading_descriptor(),
                || {
                    compiles.set(compiles.get() + 1);
                    Ok(1u32)
                },
                |m: &u32, _d: &RenderPipelineDescriptor| {
                    materializations.set(materializations.get() + 1);
                    Ok(RenderStub { version: *m })
                },
            )
            .unwrap();
    }

    // The module is compiled per request (the file may have changed), but
    // the cached pipeline is reused without asking the backend again.
    assert_eq!(compiles.get(), 2);
    assert_eq!(materializations.get(), 1);
}

#[test]
fn from_path_compiles_once_and_materializes_with_that_module() {
    let mut arena: StubArena = Arena::new();
    let path = "shaders/new.wgsl".to_owned();
    let compiles = Cell::new(0u32);

    let h = arena
        .process_render_pipeline_from_path(
            &path,
            shading_descriptor(),
            || {
                compiles.set(compiles.get() + 1);
                Ok(41u32)
            },
            |m: &u32, _d: &RenderPipelineDescriptor| Ok(RenderStub { version: *m + 1 }),
        )
        .unwrap();
    assert_eq!(compiles.get(), 1);
    assert_eq!(arena.get_pipeline(h).unwrap(), &RenderStub { version: 42 });
    assert_eq!(arena.handles_for(&path).unwrap().len(), 1);
}
