use prpr_client::sample::{smiley, PathCommand, SampleSystem as FrameSample};
use prpr_client::{run_sample, SampleSystem};

fn expected_smiley() -> Vec<PathCommand> {
    vec![
        PathCommand::BeginPath,
        PathCommand::Arc { x: 75, y: 75, radius: 50, start: 0, end: 2 },
        PathCommand::MoveTo { x: 110, y: 75 },
        PathCommand::Arc { x: 75, y: 75, radius: 35, start: 0, end: 1 },
        PathCommand::MoveTo { x: 65, y: 65 },
        PathCommand::Arc { x: 60, y: 65, radius: 5, start: 0, end: 2 },
        PathCommand::MoveTo { x: 95, y: 65 },
        PathCommand::Arc { x: 90, y: 65, radius: 5, start: 0, end: 2 },
        PathCommand::Stroke,
    ]
}

#[test]
fn smiley_is_head_mouth_and_eyes() {
    assert_eq!(smiley(), expected_smiley());
}

#[test]
fn run_sample_logs_start_message() {
    let run = run_sample();
    assert_eq!(run.message, "create prpr world !!");
    let mut system = run.system;
    assert_eq!(system.render_sample(), expected_smiley());
}

#[test]
fn counter_text_for_early_frames() {
    let mut system = SampleSystem;
    let out = system.update(0, "");
    assert_eq!(out.path, expected_smiley());
    assert_eq!(out.html_text.as_deref(), Some("requestAnimationFrame has been called 0 times."));
    let out = system.update(199, "x");
    assert_eq!(
        out.html_text.as_deref(),
        Some("xrequestAnimationFrame has been called 199 times.")
    );
}

#[test]
fn counter_text_stops_at_frame_200() {
    let mut system = SampleSystem;
    let out = system.update(200, "kept");
    assert_eq!(out.path, expected_smiley());
    assert_eq!(out.html_text, None);
    assert_eq!(system.update(5000, "kept").html_text, None);
}

#[test]
fn frame_sample_appends_frame_modulo_200() {
    let mut system = FrameSample;
    let out = system.render_sample(0, "");
    assert_eq!(out.path, expected_smiley());
    assert_eq!(out.html_text.as_deref(), Some("0 "));
    let out = system.render_sample(1, "0 ");
    assert_eq!(out.html_text.as_deref(), Some("0 1 "));
    let out = system.render_sample(450, "abc");
    assert_eq!(out.html_text.as_deref(), Some("abc50 "));
    let out = system.render_sample(1000, "abc");
    assert_eq!(out.html_text.as_deref(), Some("abc0 "));
}

#[test]
fn frame_sample_clears_after_frame_1000() {
    let mut system = FrameSample;
    assert_eq!(system.render_sample(1001, "anything").html_text.as_deref(), Some("1 "));
    assert_eq!(system.render_sample(1001, "").html_text.as_deref(), Some("1 "));
    assert_eq!(system.render_sample(1399, "old text").html_text.as_deref(), Some("199 "));
}
