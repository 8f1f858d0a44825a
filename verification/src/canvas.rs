//! The state behind a note's canvas: which note it shows, whether it is in
//! whiteboard mode and the mind-map linking gesture; and what the canvas
//! computes from its blocks: the text it copies, the dot grid it draws and
//! the blocks a link joins.

use vstd::prelude::*;
use crate::block::image_tag;
use crate::text::{has_prefix, push_str, starts_with};

verus! {

/// The plain state of a canvas.
pub struct CanvasState {
    pub note_id: i64,
    pub whiteboard_mode: bool,
    /// The block the linking gesture started from, while one is pending.
    pub linking_from: Option<i64>,
}

/// Size that the canvas asks for in whiteboard mode, in each direction.
pub const WHITEBOARD_EXTENT: i32 = 4000;

/// One press of the link button of block `block_id` while `pending` is the
/// block the gesture started from: the next pending block and the link
/// `(source, target)` to store. The first press remembers the block; the
/// second links the remembered block to this one, unless it is the same
/// block, and either way ends the gesture.
pub open spec fn link_step(pending: Option<i64>, block_id: i64) -> (Option<i64>, Option<(i64, i64)>) {
    match pending {
        None => (Some(block_id), None),
        Some(source) => (None, if source != block_id { Some((source, block_id)) } else { None }),
    }
}

impl CanvasState {
    /// A canvas of no note yet, out of whiteboard mode, with no link pending.
    pub fn new() -> (res: CanvasState)
        ensures
            res.note_id == 0,
            !res.whiteboard_mode,
            res.linking_from is None,
    {
        CanvasState { note_id: 0, whiteboard_mode: false, linking_from: None }
    }

    /// Shows the note `note_id`.
    pub fn load_note(&mut self, note_id: i64)
        ensures
            *final(self) == (CanvasState { note_id, ..*old(self) }),
    {
        self.note_id = note_id;
    }

    /// Whether the canvas is in whiteboard mode.
    pub fn is_whiteboard(&self) -> (res: bool)
        ensures
            res == self.whiteboard_mode,
    {
        self.whiteboard_mode
    }

    /// Enters or leaves whiteboard mode; returns the size the canvas then
    /// asks for: a large square in whiteboard mode, no particular size
    /// (`-1`) otherwise.
    pub fn set_whiteboard_mode(&mut self, enabled: bool) -> (size: (i32, i32))
        ensures
            *final(self) == (CanvasState { whiteboard_mode: enabled, ..*old(self) }),
            enabled ==> size == (WHITEBOARD_EXTENT, WHITEBOARD_EXTENT),
            !enabled ==> size == (-1i32, -1i32),
    {
        self.whiteboard_mode = enabled;
        if enabled {
            (WHITEBOARD_EXTENT, WHITEBOARD_EXTENT)
        } else {
            (-1, -1)
        }
    }

    /// The link button of block `block_id` was pressed (see `link_step`).
    /// Returns the link `(source, target)` to store, if any.
    pub fn start_linking(&mut self, block_id: i64) -> (link: Option<(i64, i64)>)
        ensures
            final(self).note_id == old(self).note_id,
            final(self).whiteboard_mode == old(self).whiteboard_mode,
            (final(self).linking_from, link) == link_step(old(self).linking_from, block_id),
    {
        match self.linking_from {
            None => {
                self.linking_from = Some(block_id);
                None
            },
            Some(source) => {
                self.linking_from = None;
                if source != block_id {
                    Some((source, block_id))
                } else {
                    None
                }
            },
        }
    }
}

/// Two presses of the link button on different blocks, starting with no
/// gesture pending, link the first block to the second and leave no gesture
/// pending; two presses on the same block link nothing and also leave no
/// gesture pending.
pub proof fn law_link_gesture(a: i64, b: i64)
    ensures
        ({
            let (pending, first) = link_step(None, a);
            let (after, second) = link_step(pending, b);
            &&& first is None
            &&& after is None
            &&& second == if a != b { Some((a, b)) } else { None }
        }),
{
}

/// The texts of the blocks that are copied: every block but pictures.
pub open spec fn copied_texts(contents: Seq<Seq<char>>) -> Seq<Seq<char>>
    decreases contents.len(),
{
    if contents.len() == 0 {
        Seq::empty()
    } else {
        let rest = copied_texts(contents.drop_last());
        if has_prefix(contents.last(), image_tag()) {
            rest
        } else {
            rest.push(contents.last())
        }
    }
}

/// `parts` joined with `sep` between neighbours.
pub open spec fn joined(parts: Seq<Seq<char>>, sep: Seq<char>) -> Seq<char>
    decreases parts.len(),
{
    if parts.len() == 0 {
        Seq::empty()
    } else if parts.len() == 1 {
        parts[0]
    } else {
        joined(parts.drop_last(), sep) + sep + parts.last()
    }
}

/// The text the copy button puts on the clipboard for blocks with the given
/// contents, in canvas order: the non-picture contents separated by blank
/// lines.
pub open spec fn all_text(contents: Seq<Seq<char>>) -> Seq<char> {
    joined(copied_texts(contents), "\n\n"@)
}

/// Copying skips pictures and puts a blank line between the texts: two
/// text blocks around a picture copy as the first text, a blank line and
/// the second; a canvas of pictures alone copies nothing.
pub proof fn law_copy_text(a: Seq<char>, picture: Seq<char>, b: Seq<char>)
    requires
        !has_prefix(a, image_tag()),
        !has_prefix(b, image_tag()),
        has_prefix(picture, image_tag()),
    ensures
        all_text(seq![a, picture, b]) == a + seq!['\n', '\n'] + b,
        all_text(seq![picture]) == Seq::<char>::empty(),
        all_text(seq![a]) == a,
{
    reveal_strlit("\n\n");
    let s3 = seq![a, picture, b];
    let s2 = seq![a, picture];
    let s1 = seq![a];
    let s0 = Seq::<Seq<char>>::empty();
    assert(s3.drop_last() =~= s2);
    assert(s2.drop_last() =~= s1);
    assert(s1.drop_last() =~= s0);
    assert(copied_texts(s0) =~= s0);
    assert(copied_texts(s1) =~= seq![a]);
    assert(copied_texts(s2) =~= seq![a]);
    assert(copied_texts(s3) =~= seq![a, b]);
    assert(seq![a, b].drop_last() =~= seq![a]);
    assert(joined(seq![a], "\n\n"@) == a);
    assert(joined(seq![a, b], "\n\n"@) == a + "\n\n"@ + b);
    assert("\n\n"@ =~= seq!['\n', '\n']);
    assert(seq![picture].drop_last() =~= s0);
    assert(copied_texts(seq![picture]) =~= s0);
}

/// Joins the contents of a canvas's blocks, in order, as the copy button does.
pub fn join_block_texts(contents: &Vec<String>) -> (res: String)
    ensures
        res@ == all_text(contents@.map_values(|c: String| c@)),
{
    let ghost cs = contents@.map_values(|c: String| c@);
    let mut res = String::new();
    let mut first = true;
    let mut i: usize = 0;
    proof {
        reveal_strlit("\n\n");
    }
    assert(cs.take(0) =~= Seq::<Seq<char>>::empty());
    while i < contents.len()
        invariant
            i <= contents.len(),
            cs == contents@.map_values(|c: String| c@),
            res@ == all_text(cs.take(i as int)),
            first == (copied_texts(cs.take(i as int)).len() == 0),
            "\n\n"@ == seq!['\n', '\n'],
        decreases contents.len() - i,
    {
        let c = contents[i].as_str();
        assert(cs.take(i + 1).drop_last() =~= cs.take(i as int));
        assert(cs.take(i + 1).last() == c@);
        if !starts_with(c, "[IMAGE]") {
            if !first {
                push_str(&mut res, "\n\n");
            }
            push_str(&mut res, c);
            first = false;
            let ghost parts = copied_texts(cs.take(i + 1));
            assert(parts == copied_texts(cs.take(i as int)).push(c@));
            assert(parts.drop_last() =~= copied_texts(cs.take(i as int)));
            proof {
                if copied_texts(cs.take(i as int)).len() == 0 {
                    assert(parts =~= seq![c@]);
                    assert(res@ =~= joined(parts, "\n\n"@));
                }
            }
        }
        i = i + 1;
    }
    assert(cs.take(contents.len() as int) =~= cs);
    res
}

/// Spacing of the whiteboard's dot grid.
pub const GRID_SPACING: i32 = 28;

/// The grid positions along an axis of length `extent`: the positive
/// multiples of the spacing below `extent`, in increasing order.
pub fn grid_positions(extent: i32) -> (res: Vec<i32>)
    ensures
        forall|k: int| 0 <= k < res.len() ==> #[trigger] res@[k] == GRID_SPACING * (k + 1),
        res.len() == 0 || GRID_SPACING * res.len() < extent,
        extent <= GRID_SPACING * (res.len() + 1),
{
    let mut res: Vec<i32> = Vec::new();
    let mut p: i64 = GRID_SPACING as i64;
    while p < extent as i64
        invariant
            p == GRID_SPACING * (res.len() + 1),
            res.len() == 0 || GRID_SPACING * res.len() < extent,
            forall|k: int| 0 <= k < res.len() ==> #[trigger] res@[k] == GRID_SPACING * (k + 1),
        decreases extent as int + 28 - p as int,
    {
        res.push(p as i32);
        p = p + GRID_SPACING as i64;
    }
    res
}

/// The last position of `ids` that holds `id`.
pub open spec fn last_index_of(ids: Seq<i64>, id: i64) -> Option<int>
    decreases ids.len(),
{
    if ids.len() == 0 {
        None
    } else if ids.last() == id {
        Some(ids.len() - 1)
    } else {
        last_index_of(ids.drop_last(), id)
    }
}

/// Every block can be an end of a link: the position found for `id` holds
/// `id` and no later position does, and nothing is found only when no
/// block has that id.
pub proof fn law_last_index_of(ids: Seq<i64>, id: i64)
    ensures
        match last_index_of(ids, id) {
            Some(k) => {
                &&& 0 <= k < ids.len()
                &&& ids[k] == id
                &&& forall|j: int| k < j < ids.len() ==> ids[j] != id
            },
            None => forall|j: int| 0 <= j < ids.len() ==> ids[j] != id,
        },
    decreases ids.len(),
{
    if ids.len() > 0 && ids.last() != id {
        let init = ids.drop_last();
        law_last_index_of(init, id);
        assert forall|j: int| 0 <= j < ids.len() - 1 implies ids[j] == init[j] by {}
    }
}

/// The blocks that a link from `source` to `target` is drawn between, given
/// the ids of the canvas's blocks in order: for each end the last block with
/// that id. No curve is drawn when either end is missing.
pub fn link_endpoints(ids: &Vec<i64>, source: i64, target: i64) -> (res: Option<(usize, usize)>)
    ensures
        match (last_index_of(ids@, source), last_index_of(ids@, target)) {
            (Some(s), Some(t)) => res == Some((s as usize, t as usize)),
            _ => res is None,
        },
{
    let mut s: Option<usize> = None;
    let mut t: Option<usize> = None;
    let mut i: usize = 0;
    while i < ids.len()
        invariant
            i <= ids.len(),
            match last_index_of(ids@.take(i as int), source) {
                Some(k) => s == Some(k as usize),
                None => s is None,
            },
            match last_index_of(ids@.take(i as int), target) {
                Some(k) => t == Some(k as usize),
                None => t is None,
            },
        decreases ids.len() - i,
    {
        assert(ids@.take(i + 1).drop_last() =~= ids@.take(i as int));
        if ids[i] == source {
            s = Some(i);
        }
        if ids[i] == target {
            t = Some(i);
        }
        i = i + 1;
    }
    assert(ids@.take(ids.len() as int) =~= ids@);
    match (s, t) {
        (Some(a), Some(b)) => Some((a, b)),
        _ => None,
    }
}

} // verus!
