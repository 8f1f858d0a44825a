//! What a note window decides: its style class and colour rule, the edits
//! its controls make to the note, rolling the window up, the command
//! palette and the meeting-summary blocks.

use vstd::prelude::*;
use crate::block::ChecklistItem;
use crate::db::{Command, Note};
use crate::text::{decimal, has_prefix, push_decimal, push_str, starts_with};

verus! {

/// The style class of note `id`'s window: `note-` and the id.
pub fn note_css_class(id: i64) -> (res: String)
    ensures
        res@ == "note-"@ + decimal(id as int),
{
    let mut res = String::new();
    push_str(&mut res, "note-");
    push_decimal(&mut res, id);
    res
}

/// The style rule that paints note `id`'s window with colour `hex`.
pub fn note_color_css(id: i64, hex: &str) -> (res: String)
    ensures
        res@ == ".note-"@ + decimal(id as int) + " { background-color: "@ + hex@ + "; }"@,
{
    let mut res = String::new();
    push_str(&mut res, ".note-");
    push_decimal(&mut res, id);
    push_str(&mut res, " { background-color: ");
    push_str(&mut res, hex);
    push_str(&mut res, "; }");
    res
}

impl Note {
    /// Gives the note the colour `hex`; returns the command that stores it.
    pub fn recolor(&mut self, hex: &str) -> (cmd: Command)
        ensures
            final(self).id == old(self).id,
            final(self).x == old(self).x,
            final(self).y == old(self).y,
            final(self).width == old(self).width,
            final(self).height == old(self).height,
            final(self).always_on_top == old(self).always_on_top,
            final(self).color@ == hex@,
            cmd matches Command::RecolorNote { id, color } && id == old(self).id && color@ == hex@,
    {
        let mut c = String::new();
        push_str(&mut c, hex);
        let mut stored = String::new();
        push_str(&mut stored, hex);
        self.color = c;
        Command::RecolorNote { id: self.id, color: stored }
    }

    /// The command that stores the note's window size after a resize.
    pub fn resize_command(&self, width: i32, height: i32) -> (cmd: Command)
        ensures
            cmd == (Command::ResizeNote { id: self.id, width, height }),
    {
        Command::ResizeNote { id: self.id, width, height }
    }

    /// The command that stores whether the note stays above other windows.
    pub fn pin_command(&self, always_on_top: bool) -> (cmd: Command)
        ensures
            cmd == (Command::PinNote { id: self.id, always_on_top }),
    {
        Command::PinNote { id: self.id, always_on_top }
    }

    /// The command that moves the note to the recycle bin.
    pub fn trash_command(&self) -> (cmd: Command)
        ensures
            cmd == (Command::TrashNote { id: self.id }),
    {
        Command::TrashNote { id: self.id }
    }
}

/// What a double click on the header does: the canvas is hidden when shown
/// and shown when hidden; rolled up, the window asks for no particular size
/// (`-1`); rolled down, it asks for its note's size, when it has a note.
pub struct Rollup {
    pub canvas_visible: bool,
    pub size: Option<(i32, i32)>,
}

/// The roll-up or roll-down of a window whose canvas is `canvas_visible`.
pub fn rollup(canvas_visible: bool, note: Option<&Note>) -> (res: Rollup)
    ensures
        res.canvas_visible == !canvas_visible,
        canvas_visible ==> res.size == Some((-1i32, -1i32)),
        !canvas_visible ==> match note {
            Some(n) => res.size == Some((n.width, n.height)),
            None => res.size is None,
        },
{
    if canvas_visible {
        Rollup { canvas_visible: false, size: Some((-1, -1)) }
    } else {
        match note {
            Some(n) => Rollup { canvas_visible: true, size: Some((n.width, n.height)) },
            None => Rollup { canvas_visible: true, size: None },
        }
    }
}

/// Ctrl+K opens the command palette.
pub fn is_palette_shortcut(control: bool, key: char) -> (res: bool)
    ensures
        res == (control && key == 'k'),
{
    control && key == 'k'
}

/// The entries of the command palette, in order, as (label, action).
pub open spec fn palette_spec() -> Seq<(Seq<char>, Seq<char>)> {
    seq![
        ("📝 Add Checklist"@, "[CHECKLIST] []"@),
        ("💻 Add Code Snippet"@, "[CODE]\n// type here"@),
        ("⏱️ Add Timer"@, "[TIMER]"@),
        ("🔴 Red Background"@, "#FF6B6B"@),
        ("🔵 Blue Background"@, "#4ECDC4"@),
        ("🟡 Yellow Background"@, "#FFE66D"@),
    ]
}

/// The command palette's entries as (label, action).
pub fn palette_entries() -> (res: Vec<(&'static str, &'static str)>)
    ensures
        res.len() == palette_spec().len(),
        forall|k: int| 0 <= k < res.len() ==> (#[trigger] res@[k]).0@ == palette_spec()[k].0
            && res@[k].1@ == palette_spec()[k].1,
{
    let mut res: Vec<(&'static str, &'static str)> = Vec::new();
    res.push(("📝 Add Checklist", "[CHECKLIST] []"));
    res.push(("💻 Add Code Snippet", "[CODE]\n// type here"));
    res.push(("⏱️ Add Timer", "[TIMER]"));
    res.push(("🔴 Red Background", "#FF6B6B"));
    res.push(("🔵 Blue Background", "#4ECDC4"));
    res.push(("🟡 Yellow Background", "#FFE66D"));
    res
}

/// What choosing a palette action does.
pub enum PaletteChoice {
    /// Paint the note with this colour.
    Recolor { hex: String },
    /// Add a block with this content.
    AddBlock { content: String },
}

/// The effect of a palette action: an action starting with `#` is a
/// colour, any other the content of a new block.
pub fn palette_choice(action: &str) -> (res: PaletteChoice)
    ensures
        has_prefix(action@, "#"@) ==> (res matches PaletteChoice::Recolor { hex } && hex@ == action@),
        !has_prefix(action@, "#"@) ==> (res matches PaletteChoice::AddBlock { content }
            && content@ == action@),
{
    let mut s = String::new();
    push_str(&mut s, action);
    assert(s@ =~= action@);
    if starts_with(action, "#") {
        PaletteChoice::Recolor { hex: s }
    } else {
        PaletteChoice::AddBlock { content: s }
    }
}

/// The request sent for a meeting's transcript: the instructions, a blank
/// line, then the transcript.
pub fn summary_prompt(transcript: &str) -> (res: String)
    ensures
        res@ == "Summarize the meeting and extract action items. Return a JSON object with 'summary' (string) and 'action_items' (array of strings):\n\n"@
            + transcript@,
{
    let mut res = String::new();
    push_str(&mut res, "Summarize the meeting and extract action items. Return a JSON object with 'summary' (string) and 'action_items' (array of strings):\n\n");
    push_str(&mut res, transcript);
    res
}

/// The blocks a finished meeting recording adds to the canvas.
pub struct MeetingBlocks {
    /// The first block: the summary, or the error message.
    pub text: String,
    /// The action items as a checklist, when there are some.
    pub checklist: Option<Vec<ChecklistItem>>,
}

/// The items of a checklist made of `texts`, none ticked, in order.
pub open spec fn unticked(texts: Seq<String>, items: Seq<ChecklistItem>) -> bool {
    items.len() == texts.len() && forall|k: int| 0 <= k < texts.len()
        ==> (#[trigger] items[k]).text == texts[k] && !items[k].checked
}

/// The blocks for the outcome of summarising a meeting: a summary block
/// headed `🎙️ Meeting Summary:` and a checklist of the action items when
/// there are any; on failure, a block with the error message.
pub fn meeting_blocks(outcome: Result<(String, Vec<String>), String>) -> (res: MeetingBlocks)
    ensures
        match outcome {
            Ok((summary, items)) => {
                &&& res.text@ == "🎙️ Meeting Summary:\n\n"@ + summary@
                &&& items.len() == 0 ==> res.checklist is None
                &&& items.len() > 0 ==> (res.checklist matches Some(list)
                    && unticked(items@, list@))
            },
            Err(e) => res.text == e && res.checklist is None,
        },
{
    match outcome {
        Ok((summary, items)) => {
            let mut text = String::new();
            push_str(&mut text, "🎙️ Meeting Summary:\n\n");
            push_str(&mut text, summary.as_str());
            if items.len() == 0 {
                return MeetingBlocks { text, checklist: None };
            }
            let ghost texts = items@;
            let mut list: Vec<ChecklistItem> = Vec::new();
            let mut rest = items;
            assert(texts.skip(0) =~= texts);
            while rest.len() > 0
                invariant
                    list.len() <= texts.len(),
                    rest@ == texts.skip(list.len() as int),
                    unticked(texts.take(list.len() as int), list@),
                decreases rest.len(),
            {
                let t = rest.remove(0);
                let ghost k = list.len() as int;
                list.push(ChecklistItem { text: t, checked: false });
                assert(texts.skip(k).drop_first() =~= texts.skip(k + 1));
                assert forall|j: int| 0 <= j < list.len() implies (#[trigger] list@[j]).text
                    == texts.take(list.len() as int)[j] && !list@[j].checked by {
                    if j < k {
                        assert(texts.take(k)[j] == texts.take(k + 1)[j]);
                    }
                }
            }
            assert(texts.take(list.len() as int) =~= texts);
            MeetingBlocks { text, checklist: Some(list) }
        },
        Err(e) => MeetingBlocks { text: e, checklist: None },
    }
}

} // verus!
