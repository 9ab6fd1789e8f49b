use cells_renderer::error::RenderError;
use cells_renderer::renderer::{
    check_order, complete_frame, frame_passes, pass_reads, pass_writes, DeltaTimer, FrameAction,
    Pass, Renderer, RendererEvent, SurfaceSize, ALBEDO, GEOMETRY_DEPTH, NORMAL, OCCLUSION,
    POSITION, SHADOW_DEPTH, SURFACE,
};

fn size(width: u32, height: u32) -> SurfaceSize {
    SurfaceSize { width, height }
}

#[test]
fn resize_to_nothing_is_ignored() {
    let mut renderer = Renderer::new(size(1024, 768));
    assert!(!renderer.resize(size(0, 0)));
    assert_eq!(renderer.config(), size(1024, 768));
    assert!(!renderer.is_surface_ready());

    assert!(renderer.resize(size(800, 600)));
    assert!(!renderer.resize(size(0, 0)));
    assert!(!renderer.resize(size(0, 480)));
    assert!(!renderer.resize(size(640, 0)));
    assert_eq!(renderer.config(), size(800, 600));
    assert!(renderer.is_surface_ready());
    assert_eq!(
        renderer.run(RendererEvent::Resize(size(0, 0))),
        (RendererEvent::Nothing, FrameAction::Idle)
    );
    assert_eq!(renderer.config(), size(800, 600));
    assert!(renderer.is_surface_ready());
}

#[test]
fn no_frame_before_the_first_configuration() {
    let mut renderer = Renderer::new(size(1024, 768));
    assert_eq!(renderer.run(RendererEvent::Render), (RendererEvent::Render, FrameAction::Idle));
    assert_eq!(renderer.run(RendererEvent::Nothing), (RendererEvent::Nothing, FrameAction::Idle));
    assert_eq!(
        renderer.run(RendererEvent::Resize(size(1280, 720))),
        (RendererEvent::Nothing, FrameAction::Configure(size(1280, 720)))
    );
    assert_eq!(renderer.config(), size(1280, 720));
    assert_eq!(renderer.run(RendererEvent::Render), (RendererEvent::Nothing, FrameAction::Draw));
    assert_eq!(renderer.run(RendererEvent::Render), (RendererEvent::Nothing, FrameAction::Draw));
    assert_eq!(renderer.config(), size(1280, 720));
}

#[test]
fn passes_run_geometry_ssao_shadow_composition() {
    let passes = frame_passes();
    assert_eq!(passes, vec![Pass::Geometry, Pass::Ssao, Pass::Shadow, Pass::Composition]);
    assert!(check_order(&passes));
}

#[test]
fn a_pass_must_find_written_what_it_reads() {
    assert!(check_order(&[]));
    assert!(check_order(&[Pass::Geometry]));
    assert!(check_order(&[Pass::Shadow, Pass::Geometry, Pass::Ssao, Pass::Composition]));
    assert!(!check_order(&[Pass::Ssao, Pass::Geometry, Pass::Shadow, Pass::Composition]));
    assert!(!check_order(&[Pass::Geometry, Pass::Shadow, Pass::Composition, Pass::Ssao]));
    assert!(!check_order(&[Pass::Geometry, Pass::Ssao, Pass::Composition, Pass::Shadow]));
    assert!(!check_order(&[Pass::Composition]));
}

#[test]
fn each_pass_declares_its_targets() {
    assert_eq!(pass_reads(Pass::Geometry), 0);
    assert_eq!(pass_writes(Pass::Geometry), ALBEDO | POSITION | NORMAL | GEOMETRY_DEPTH);
    assert_eq!(pass_reads(Pass::Ssao), ALBEDO | POSITION | NORMAL);
    assert_eq!(pass_writes(Pass::Ssao), OCCLUSION);
    assert_eq!(pass_reads(Pass::Shadow), 0);
    assert_eq!(pass_writes(Pass::Shadow), SHADOW_DEPTH);
    assert_eq!(
        pass_reads(Pass::Composition),
        ALBEDO | POSITION | NORMAL | OCCLUSION | SHADOW_DEPTH
    );
    assert_eq!(pass_writes(Pass::Composition), SURFACE);
    assert_eq!(pass_reads(Pass::Composition), 55);
    assert_eq!(pass_writes(Pass::Geometry), 15);
}

#[test]
fn timer_measures_from_the_last_frame() {
    let timer = DeltaTimer::new(0, 1_000);
    assert_eq!(timer.get_duration(), 0);
    assert_eq!(timer.get_last_render(), 1_000);
    let next = timer.frame_drawn(17_000);
    assert_eq!(next.get_duration(), 16_000);
    assert_eq!(next.get_last_render(), 17_000);
    let back = next.frame_drawn(5);
    assert_eq!(back.get_duration(), 0);
    assert_eq!(back.get_last_render(), 5);
}

#[test]
fn a_frame_without_a_surface_is_lost() {
    let timer = DeltaTimer::new(0, 100);
    assert_eq!(complete_frame(false, &timer, 200), Err(RenderError::SurfaceLost));
    assert_eq!(complete_frame(true, &timer, 250), Ok(DeltaTimer::new(150, 250)));
}
