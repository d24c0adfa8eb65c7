//! What the sample system draws and writes on each animation frame.
use vstd::prelude::*;
use crate::decimal::{decimal, lemma_decimal_reads_back, read_decimal, u64_to_decimal};

verus! {

/// A step of a 2D canvas path. Coordinates and radii are in canvas pixels; angles are in
/// half turns (units of pi).
#[derive(Clone, Copy, Debug, PartialEq, Eq, Structural)]
pub enum PathCommand {
    BeginPath,
    Arc { x: i32, y: i32, radius: i32, start: u32, end: u32 },
    MoveTo { x: i32, y: i32 },
    Stroke,
}

/// The smiling face stroked on the 2D canvas: a head, a mouth and two eyes.
pub open spec fn smiley_path() -> Seq<PathCommand> {
    seq![
        PathCommand::BeginPath,
        PathCommand::Arc { x: 75, y: 75, radius: 50, start: 0, end: 2 },
        PathCommand::MoveTo { x: 110, y: 75 },
        PathCommand::Arc { x: 75, y: 75, radius: 35, start: 0, end: 1 },
        PathCommand::MoveTo { x: 65, y: 65 },
        PathCommand::Arc { x: 60, y: 65, radius: 5, start: 0, end: 2 },
        PathCommand::MoveTo { x: 95, y: 65 },
        PathCommand::Arc { x: 90, y: 65, radius: 5, start: 0, end: 2 },
        PathCommand::Stroke,
    ]
}

/// The path commands of the smiling face, in drawing order.
pub fn smiley() -> (path: Vec<PathCommand>)
    ensures
        path@ == smiley_path(),
{
    let mut path: Vec<PathCommand> = Vec::new();
    path.push(PathCommand::BeginPath);
    path.push(PathCommand::Arc { x: 75, y: 75, radius: 50, start: 0, end: 2 });
    path.push(PathCommand::MoveTo { x: 110, y: 75 });
    path.push(PathCommand::Arc { x: 75, y: 75, radius: 35, start: 0, end: 1 });
    path.push(PathCommand::MoveTo { x: 65, y: 65 });
    path.push(PathCommand::Arc { x: 60, y: 65, radius: 5, start: 0, end: 2 });
    path.push(PathCommand::MoveTo { x: 95, y: 65 });
    path.push(PathCommand::Arc { x: 90, y: 65, radius: 5, start: 0, end: 2 });
    path.push(PathCommand::Stroke);
    assert(path@ =~= smiley_path());
    path
}

/// What a frame does: the path stroked on the 2D canvas, and the new text of the HTML
/// layer, or none when the frame leaves the text as it is.
pub struct FrameOutput {
    pub path: Vec<PathCommand>,
    pub html_text: Option<String>,
}

/// The HTML layer's text after frame `frame`, given its text before: cleared once the
/// frame number passes 1000, then followed by the frame number modulo 200 and a space.
pub open spec fn sample_html_text(frame: nat, text: Seq<char>) -> Seq<char> {
    (if frame > 1000 {
        Seq::empty()
    } else {
        text
    }) + decimal(frame % 200) + " "@
}

/// The sample system: a cube rendered through WebGL, with a smiling face on the 2D canvas
/// and a running frame count in the HTML layer. The GPU resources live with the caller;
/// this type decides what each frame draws and writes.
pub struct SampleSystem;

impl SampleSystem {
    /// The 2D and HTML part of frame `frame`, given the HTML layer's current text.
    pub fn render_sample(&mut self, frame: u64, html_text: &str) -> (out: FrameOutput)
        ensures
            out.path@ == smiley_path(),
            out.html_text matches Some(t) && t@ == sample_html_text(frame as nat, html_text@),
    {
        let path = smiley();
        let mut text = if frame > 1000 {
            String::new()
        } else {
            String::from_str(html_text)
        };
        let count = u64_to_decimal(frame % 200);
        text.append(count.as_str());
        text.append(" ");
        FrameOutput { path, html_text: Some(text) }
    }
}

/// Past frame 1000 the HTML layer's text no longer depends on what it held before.
pub proof fn lemma_late_frames_forget_text(frame: nat, before: Seq<char>, other: Seq<char>)
    requires
        frame > 1000,
    ensures
        sample_html_text(frame, before) == sample_html_text(frame, other),
{
}

/// Up to frame 1000 each frame keeps the HTML layer's text and appends to it.
pub proof fn lemma_early_frames_append(frame: nat, before: Seq<char>)
    requires
        frame <= 1000,
    ensures
        sample_html_text(frame, before).len() > before.len(),
        sample_html_text(frame, before).subrange(0, before.len() as int) == before,
{
    let after = sample_html_text(frame, before);
    assert(after.subrange(0, before.len() as int) =~= before);
}

/// Each frame's text ends with a space after a number that reads as the frame number
/// modulo 200; before that number stands the old text up to frame 1000, and nothing after.
pub proof fn lemma_sample_text_counts(frame: nat, before: Seq<char>)
    ensures
        ({
            let after = sample_html_text(frame, before);
            let kept: int = if frame > 1000 { 0 } else { before.len() as int };
            &&& after.subrange(0, kept) == before.subrange(0, kept)
            &&& after.last() == ' '
            &&& read_decimal(after.subrange(kept, after.len() - 1)) == frame % 200
        }),
{
    reveal_strlit(" ");
    let after = sample_html_text(frame, before);
    let kept: int = if frame > 1000 { 0 } else { before.len() as int };
    lemma_decimal_reads_back(frame % 200);
    assert(after.subrange(kept, after.len() - 1) =~= decimal(frame % 200));
    assert(after.subrange(0, kept) =~= before.subrange(0, kept));
}

} // verus!
