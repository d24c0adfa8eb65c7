//! The client side of a small WebGL and HTML drawing framework: the styling of HTML
//! elements, and the sample system that draws on each animation frame.
pub mod decimal;
pub mod element;
pub mod sample;
pub mod style;

use vstd::prelude::*;
use crate::decimal::{decimal, lemma_decimal_reads_back, read_decimal, u64_to_decimal};
use crate::sample::{FrameOutput, PathCommand, smiley, smiley_path};

verus! {

/// The message logged when the sample starts.
pub open spec fn start_message() -> Seq<char> {
    "create prpr world !!"@
}

/// The HTML layer's new text after frame `frame`, given its text before: for the first
/// 200 frames a sentence counting the calls is appended; after that nothing is written.
pub open spec fn counter_html_text(frame: nat, text: Seq<char>) -> Option<Seq<char>> {
    if frame < 200 {
        Some(text + "requestAnimationFrame has been called "@ + decimal(frame) + " times."@)
    } else {
        None
    }
}

/// For the first 200 frames the HTML text keeps what it held and gains a sentence whose
/// number reads as the frame number; from frame 200 on nothing is written.
pub proof fn lemma_counter_text_counts(frame: nat, before: Seq<char>)
    ensures
        frame >= 200 ==> counter_html_text(frame, before) is None,
        frame < 200 ==> ({
            let after = counter_html_text(frame, before)->0;
            let lead = "requestAnimationFrame has been called "@;
            let tail = " times."@;
            &&& counter_html_text(frame, before) is Some
            &&& after.subrange(0, before.len() as int) == before
            &&& after.subrange(before.len() as int, (before.len() + lead.len()) as int) == lead
            &&& after.subrange(after.len() - tail.len(), after.len() as int) == tail
            &&& read_decimal(
                after.subrange((before.len() + lead.len()) as int, after.len() - tail.len()),
            ) == frame
        }),
{
    if frame < 200 {
        let after = counter_html_text(frame, before)->0;
        let lead = "requestAnimationFrame has been called "@;
        let tail = " times."@;
        lemma_decimal_reads_back(frame);
        assert(after =~= before + lead + decimal(frame) + tail);
        assert(after.subrange(0, before.len() as int) =~= before);
        assert(after.subrange(before.len() as int, (before.len() + lead.len()) as int) =~= lead);
        assert(after.subrange(after.len() - tail.len(), after.len() as int) =~= tail);
        assert(after.subrange((before.len() + lead.len()) as int, after.len() - tail.len()) =~= decimal(
            frame,
        ));
    }
}

/// The system that `run_sample` starts: a sandbox surface drawn by WebGL each frame,
/// with a smiling face on the 2D canvas and, for the first 200 frames, a count of the
/// frames in the HTML layer. The GPU resources live with the caller; this type decides
/// what each frame draws and writes.
pub struct SampleSystem;

/// The start of the sample: the message to log, and the system to run on every frame.
pub struct SampleRun {
    pub message: String,
    pub system: SampleSystem,
}

impl SampleSystem {
    /// The 2D and HTML part of frame `frame`, given the HTML layer's current text.
    pub fn update(&mut self, frame: u64, html_text: &str) -> (out: FrameOutput)
        ensures
            out.path@ == smiley_path(),
            match out.html_text {
                Some(t) => counter_html_text(frame as nat, html_text@) == Some(t@),
                None => counter_html_text(frame as nat, html_text@) is None,
            },
    {
        let path = self.render_sample();
        if frame < 200 {
            let mut text = String::from_str(html_text);
            text.append("requestAnimationFrame has been called ");
            let count = u64_to_decimal(frame);
            text.append(count.as_str());
            text.append(" times.");
            FrameOutput { path, html_text: Some(text) }
        } else {
            FrameOutput { path, html_text: None }
        }
    }

    /// The smiling face stroked on the 2D canvas each frame.
    pub fn render_sample(&mut self) -> (path: Vec<PathCommand>)
        ensures
            path@ == smiley_path(),
    {
        smiley()
    }
}

/// Starts the sample: says what to log, and gives the system to run.
pub fn run_sample() -> (run: SampleRun)
    ensures
        run.message@ == start_message(),
{
    SampleRun { message: String::from_str("create prpr world !!"), system: SampleSystem }
}

} // verus!
