//! The rules for a canvas block's content. A block's kind is written as a
//! tag at the front of its content (`[IMAGE]`, `[FILE]`, `[TIMER]`,
//! `[CODE]`, `[CHECKLIST]`); anything else is markdown text.

use vstd::prelude::*;
use crate::text::{
    chars_of, contains, occurs_in, string_of, starts_with, push_str, push_char, has_prefix, strip_leading,
    strip_leading_all, trimmed, trim, replaced, replace_all, is_white_space, white_space,
    two_digit, push_two_digit,
};

verus! {

pub open spec fn image_tag() -> Seq<char> { "[IMAGE]"@ }
pub open spec fn file_tag() -> Seq<char> { "[FILE]"@ }
pub open spec fn timer_tag() -> Seq<char> { "[TIMER]"@ }
pub open spec fn code_tag() -> Seq<char> { "[CODE]"@ }
pub open spec fn code_header() -> Seq<char> { "[CODE]\n"@ }
pub open spec fn checklist_tag() -> Seq<char> { "[CHECKLIST]"@ }

/// What a block shows, as its content's tag says.
pub enum BlockKind {
    /// A picture of the file at `path`.
    Image { path: String },
    /// A button that opens the file at `path`.
    File { path: String },
    /// A focus timer.
    Timer,
    /// A monospace code view holding `code`.
    Code { code: String },
    /// A checklist, whose items follow the tag as JSON.
    Checklist,
    /// Markdown text.
    Text,
}

/// How a block with content `c` is shown. The tags are tested in the order
/// image, file, timer, code, checklist; the path or code is what remains
/// after every leading copy of the tag (for code, of `[CODE]` and a newline)
/// is removed.
pub open spec fn kind_of(c: Seq<char>, k: BlockKind) -> bool {
    match k {
        BlockKind::Image { path } => has_prefix(c, image_tag())
            && path@ == strip_leading(c, image_tag()),
        BlockKind::File { path } => !has_prefix(c, image_tag()) && has_prefix(c, file_tag())
            && path@ == strip_leading(c, file_tag()),
        BlockKind::Timer => !has_prefix(c, image_tag()) && !has_prefix(c, file_tag())
            && has_prefix(c, timer_tag()),
        BlockKind::Code { code } => !has_prefix(c, image_tag()) && !has_prefix(c, file_tag())
            && !has_prefix(c, timer_tag()) && has_prefix(c, code_tag())
            && code@ == strip_leading(c, code_header()),
        BlockKind::Checklist => !has_prefix(c, image_tag()) && !has_prefix(c, file_tag())
            && !has_prefix(c, timer_tag()) && !has_prefix(c, code_tag())
            && has_prefix(c, checklist_tag()),
        BlockKind::Text => !has_prefix(c, image_tag()) && !has_prefix(c, file_tag())
            && !has_prefix(c, timer_tag()) && !has_prefix(c, code_tag())
            && !has_prefix(c, checklist_tag()),
    }
}

fn strip_str(s: &str, p: &str) -> (res: String)
    ensures
        res@ == strip_leading(s@, p@),
{
    string_of(&strip_leading_all(&chars_of(s), &chars_of(p)))
}

/// The kind of a block with the given content.
pub fn classify(content: &str) -> (res: BlockKind)
    ensures
        kind_of(content@, res),
{
    if starts_with(content, "[IMAGE]") {
        BlockKind::Image { path: strip_str(content, "[IMAGE]") }
    } else if starts_with(content, "[FILE]") {
        BlockKind::File { path: strip_str(content, "[FILE]") }
    } else if starts_with(content, "[TIMER]") {
        BlockKind::Timer
    } else if starts_with(content, "[CODE]") {
        BlockKind::Code { code: strip_str(content, "[CODE]\n") }
    } else if starts_with(content, "[CHECKLIST]") {
        BlockKind::Checklist
    } else {
        BlockKind::Text
    }
}

/// The content a block stores after an edit, given the text of its code
/// view and of its text view: image, checklist, file and timer blocks keep
/// their content (it changes elsewhere); a code block stores `[CODE]`, a
/// newline and the code; any other block stores its text.
pub open spec fn edited_content(old: Seq<char>, code: Seq<char>, text: Seq<char>) -> Seq<char> {
    if has_prefix(old, image_tag()) || has_prefix(old, checklist_tag())
        || has_prefix(old, file_tag()) || has_prefix(old, timer_tag()) {
        old
    } else if has_prefix(old, code_tag()) {
        code_header() + code
    } else {
        text
    }
}

/// The content to store for a block after its views changed.
pub fn content_after_edit(old: &str, code_text: &str, text_view_text: &str) -> (res: String)
    ensures
        res@ == edited_content(old@, code_text@, text_view_text@),
{
    if starts_with(old, "[IMAGE]") || starts_with(old, "[CHECKLIST]") || starts_with(old, "[FILE]")
        || starts_with(old, "[TIMER]") {
        let mut res = String::new();
        push_str(&mut res, old);
        assert(res@ =~= old@);
        res
    } else if starts_with(old, "[CODE]") {
        let mut res = String::new();
        push_str(&mut res, "[CODE]\n");
        push_str(&mut res, code_text);
        assert(res@ =~= code_header() + code_text@);
        res
    } else {
        let mut res = String::new();
        push_str(&mut res, text_view_text);
        assert(res@ =~= text_view_text@);
        res
    }
}

/// Editing a code block keeps it a code block whose code is the edited
/// code (when that code does not itself begin with the code header).
pub proof fn law_code_edit_round_trip(old: Seq<char>, code: Seq<char>, text: Seq<char>)
    requires
        has_prefix(old, code_tag()),
        !has_prefix(old, image_tag()),
        !has_prefix(old, file_tag()),
        !has_prefix(old, timer_tag()),
        !has_prefix(old, checklist_tag()),
        !has_prefix(code, code_header()),
    ensures
        ({
            let new = edited_content(old, code, text);
            &&& has_prefix(new, code_tag())
            &&& !has_prefix(new, image_tag())
            &&& !has_prefix(new, file_tag())
            &&& !has_prefix(new, timer_tag())
            &&& strip_leading(new, code_header()) == code
        }),
{
    reveal_strlit("[CODE]\n");
    reveal_strlit("[CODE]");
    reveal_strlit("[IMAGE]");
    reveal_strlit("[FILE]");
    reveal_strlit("[TIMER]");
    let new = code_header() + code;
    assert(new == edited_content(old, code, text));
    assert(new.take(6) =~= code_tag());
    assert(new[1] == 'C');
    assert(new.take(7) =~= code_header());
    assert(new.skip(7) =~= code);
    assert(strip_leading(code, code_header()) == code);
    assert(strip_leading(new, code_header()) == strip_leading(new.skip(7), code_header()));
    assert(!has_prefix(new, image_tag())) by {
        if has_prefix(new, image_tag()) {
            assert(new.take(7)[1] == image_tag()[1]);
        }
    }
    assert(!has_prefix(new, file_tag())) by {
        if has_prefix(new, file_tag()) {
            assert(new.take(6)[1] == file_tag()[1]);
        }
    }
    assert(!has_prefix(new, timer_tag())) by {
        if has_prefix(new, timer_tag()) {
            assert(new.take(7)[1] == timer_tag()[1]);
        }
    }
}

/// What the read-aloud button speaks for a block with content `c`: nothing
/// for an empty block; otherwise the content without `[CHECKLIST]` tags and
/// without double quotes.
pub open spec fn spoken(c: Seq<char>) -> Option<Seq<char>> {
    if c.len() == 0 {
        None
    } else {
        Some(replaced(replaced(c, checklist_tag(), Seq::empty()), "\""@, Seq::empty()))
    }
}

/// The text to read aloud for a block's content.
pub fn speech_text(content: &str) -> (res: Option<String>)
    ensures
        res.deep_view() == spoken(content@),
{
    let c = chars_of(content);
    if c.len() == 0 {
        return None;
    }
    let empty: Vec<char> = Vec::new();
    let tag = chars_of("[CHECKLIST]");
    let quote = chars_of("\"");
    proof {
        reveal_strlit("[CHECKLIST]");
        reveal_strlit("\"");
    }
    let a = replace_all(&c, &tag, &empty);
    let b = replace_all(&a, &quote, &empty);
    assert(empty@ =~= Seq::<char>::empty());
    Some(string_of(&b))
}

/// Reading a block aloud says nothing only for an empty block; what it says
/// holds no double quote; and a block without quotes and without the
/// checklist tag is read as it is written.
pub proof fn law_spoken(c: Seq<char>)
    ensures
        spoken(c) is None <==> c.len() == 0,
        spoken(c) matches Some(t) ==> forall|k: int| 0 <= k < t.len() ==> #[trigger] t[k] != '"',
        c.len() > 0 && !occurs_in(c, "\""@) && !occurs_in(c, checklist_tag()) ==> spoken(c) == Some(c),
{
    reveal_strlit("\"");
    reveal_strlit("[CHECKLIST]");
    assert("\""@ =~= seq!['"']);
    if c.len() > 0 {
        let a = replaced(c, checklist_tag(), Seq::empty());
        crate::text::law_replaced_deletes(a, '"');
        if !occurs_in(c, "\""@) && !occurs_in(c, checklist_tag()) {
            crate::text::law_replaced_absent(c, checklist_tag(), Seq::empty());
            crate::text::law_replaced_absent(c, "\""@, Seq::empty());
        }
    }
}

/// `c` and `e` are the same character when ASCII letters are compared
/// without case (`e` being lower case).
pub open spec fn same_ignoring_case(c: char, e: char) -> bool {
    c == e || ('a' <= e && e <= 'z' && c as u32 == e as u32 - 32)
}

/// `s` ends with `e` when ASCII letters are compared without case.
pub open spec fn ends_with_ignoring_case(s: Seq<char>, e: Seq<char>) -> bool {
    e.len() <= s.len() && forall|k: int|
        0 <= k < e.len() ==> #[trigger] same_ignoring_case(s[s.len() - e.len() + k], e[k])
}

/// A dropped file is shown as a picture when its path ends in `.png`,
/// `.jpg`, `.jpeg` or `.gif`, in any letter case. (For these extensions this
/// is the same as lower-casing the whole path first: no other character
/// lower-cases to one of theirs.)
pub open spec fn is_image_path(p: Seq<char>) -> bool {
    ends_with_ignoring_case(p, ".png"@) || ends_with_ignoring_case(p, ".jpg"@)
        || ends_with_ignoring_case(p, ".jpeg"@) || ends_with_ignoring_case(p, ".gif"@)
}

fn ends_with_ci(s: &Vec<char>, e: &str) -> (res: bool)
    ensures
        res == ends_with_ignoring_case(s@, e@),
{
    let ec = chars_of(e);
    if ec.len() > s.len() {
        return false;
    }
    let base = s.len() - ec.len();
    let mut k: usize = 0;
    while k < ec.len()
        invariant
            k <= ec.len(),
            base + ec.len() == s.len(),
            ec@ == e@,
            forall|j: int| 0 <= j < k ==> #[trigger] same_ignoring_case(s@[base + j], ec@[j]),
        decreases ec.len() - k,
    {
        let c = s[base + k];
        let x = ec[k];
        let same = c == x || ('a' <= x && x <= 'z' && c as u32 == x as u32 - 32);
        if !same {
            assert(!same_ignoring_case(s@[s.len() - e@.len() + k], e@[k as int]));
            return false;
        }
        k = k + 1;
    }
    true
}

/// The content of a block made for a file dropped on the canvas: the path
/// behind `[IMAGE]` for a picture, behind `[FILE]` otherwise.
pub fn dropped_file_content(path: &str) -> (res: String)
    ensures
        res@ == (if is_image_path(path@) { image_tag() } else { file_tag() }) + path@,
{
    let p = chars_of(path);
    let image = ends_with_ci(&p, ".png") || ends_with_ci(&p, ".jpg") || ends_with_ci(&p, ".jpeg")
        || ends_with_ci(&p, ".gif");
    let mut res = String::new();
    if image {
        push_str(&mut res, "[IMAGE]");
    } else {
        push_str(&mut res, "[FILE]");
    }
    push_str(&mut res, path);
    res
}

proof fn lemma_tag_heads()
    ensures
        image_tag().len() == 7 && image_tag()[0] == '[' && image_tag()[1] == 'I',
        file_tag().len() == 6 && file_tag()[0] == '[' && file_tag()[1] == 'F',
        timer_tag().len() == 7 && timer_tag()[1] == 'T',
        code_tag().len() == 6 && code_tag()[1] == 'C',
        code_header().len() == 7 && code_header()[1] == 'C',
        code_header().take(6) == code_tag(),
        checklist_tag().len() == 11 && checklist_tag()[1] == 'C' && checklist_tag()[2] == 'H',
        code_tag()[2] == 'O',
{
    reveal_strlit("[IMAGE]");
    reveal_strlit("[FILE]");
    reveal_strlit("[TIMER]");
    reveal_strlit("[CODE]");
    reveal_strlit("[CODE]\n");
    reveal_strlit("[CHECKLIST]");
    assert(code_header().take(6) =~= code_tag());
}

proof fn lemma_prefix_of_concat(t: Seq<char>, p: Seq<char>, q: Seq<char>)
    requires
        q.len() <= t.len(),
    ensures
        has_prefix(t + p, q) <==> has_prefix(t, q),
{
    assert((t + p).take(q.len() as int) =~= t.take(q.len() as int));
}

proof fn lemma_strip_once(t: Seq<char>, p: Seq<char>)
    requires
        t.len() > 0,
        !has_prefix(p, t),
    ensures
        strip_leading(t + p, t) == p,
{
    assert((t + p).take(t.len() as int) =~= t);
    assert((t + p).skip(t.len() as int) =~= p);
    assert(strip_leading(p, t) == p);
}

/// Content made of a tag and a path is shown as that kind, with that path,
/// and as nothing else, when the path does not itself begin with the tag;
/// likewise `[CODE]`, a newline and code that does not begin with them.
pub proof fn law_tagged_content(p: Seq<char>, k: BlockKind)
    ensures
        !has_prefix(p, image_tag()) ==> (kind_of(image_tag() + p, k) <==> (k matches
            BlockKind::Image { path } && path@ == p)),
        !has_prefix(p, file_tag()) ==> (kind_of(file_tag() + p, k) <==> (k matches
            BlockKind::File { path } && path@ == p)),
        !has_prefix(p, code_header()) ==> (kind_of(code_header() + p, k) <==> (k matches
            BlockKind::Code { code } && code@ == p)),
{
    lemma_tag_heads();
    let ci = image_tag() + p;
    let cf = file_tag() + p;
    let cc = code_header() + p;
    lemma_prefix_of_concat(image_tag(), p, image_tag());
    lemma_prefix_of_concat(file_tag(), p, file_tag());
    lemma_prefix_of_concat(file_tag(), p, image_tag().take(6));
    lemma_prefix_of_concat(code_header(), p, code_tag());
    assert(has_prefix(cf, image_tag()) ==> cf[1] == image_tag()[1]);
    assert(has_prefix(cc, image_tag()) ==> cc[1] == image_tag()[1]);
    assert(has_prefix(cc, file_tag()) ==> cc[1] == file_tag()[1]);
    assert(has_prefix(cc, timer_tag()) ==> cc[1] == timer_tag()[1]);
    assert(cf[1] == 'F');
    assert(cc[1] == 'C');
    if !has_prefix(p, image_tag()) {
        lemma_strip_once(image_tag(), p);
    }
    if !has_prefix(p, file_tag()) {
        lemma_strip_once(file_tag(), p);
    }
    if !has_prefix(p, code_header()) {
        lemma_strip_once(code_header(), p);
    }
}

/// A file dropped on the canvas comes back as a picture of that file when
/// its path names a picture, and as a button for that file otherwise.
pub proof fn law_dropped_file_kind(path: Seq<char>, k: BlockKind)
    requires
        !has_prefix(path, image_tag()),
        !has_prefix(path, file_tag()),
    ensures
        kind_of((if is_image_path(path) { image_tag() } else { file_tag() }) + path, k) <==> if is_image_path(
            path,
        ) {
            k matches BlockKind::Image { path: p } && p@ == path
        } else {
            k matches BlockKind::File { path: p } && p@ == path
        },
{
    law_tagged_content(path, k);
}

/// Paths of pictures are told by their extension in any letter case:
/// `.png`, `.jpg`, `.jpeg` and `.gif` name pictures, `.txt` does not.
pub proof fn law_image_extensions(p: Seq<char>)
    ensures
        is_image_path(p + ".png"@),
        is_image_path(p + ".PNG"@),
        is_image_path(p + ".jpg"@),
        is_image_path(p + ".JPEG"@),
        is_image_path(p + ".Gif"@),
        !is_image_path(p + ".txt"@),
{
    reveal_strlit(".png");
    reveal_strlit(".PNG");
    reveal_strlit(".jpg");
    reveal_strlit(".JPEG");
    reveal_strlit(".jpeg");
    reveal_strlit(".Gif");
    reveal_strlit(".gif");
    reveal_strlit(".txt");
    let a = p + ".png"@;
    assert forall|k: int| 0 <= k < 4 implies #[trigger] same_ignoring_case(a[a.len() - 4 + k], ".png"@[k]) by {}
    let b = p + ".PNG"@;
    assert forall|k: int| 0 <= k < 4 implies #[trigger] same_ignoring_case(b[b.len() - 4 + k], ".png"@[k]) by {}
    let c = p + ".jpg"@;
    assert forall|k: int| 0 <= k < 4 implies #[trigger] same_ignoring_case(c[c.len() - 4 + k], ".jpg"@[k]) by {}
    let d = p + ".JPEG"@;
    assert forall|k: int| 0 <= k < 5 implies #[trigger] same_ignoring_case(d[d.len() - 5 + k], ".jpeg"@[k]) by {}
    let e = p + ".Gif"@;
    assert forall|k: int| 0 <= k < 4 implies #[trigger] same_ignoring_case(e[e.len() - 4 + k], ".gif"@[k]) by {}
    let f = p + ".txt"@;
    assert(!same_ignoring_case(f[f.len() - 4 + 1], ".png"@[1]));
    assert(!same_ignoring_case(f[f.len() - 4 + 1], ".jpg"@[1]));
    assert(!same_ignoring_case(f[f.len() - 4 + 1], ".gif"@[1]));
    assert(!same_ignoring_case(f[f.len() - 5 + 4], ".jpeg"@[4]));
}

/// The expression before the cursor is the run of characters without white
/// space that ends at the cursor: it starts at the start of the text or
/// just after a white-space character.
pub proof fn law_expression_bounds(text: Seq<char>, cursor: int)
    requires
        0 <= cursor <= text.len(),
    ensures
        0 <= expression_start_of(text, cursor) <= cursor,
        forall|k: int| expression_start_of(text, cursor) <= k < cursor ==> !is_white_space(
            #[trigger] text[k],
        ),
        expression_start_of(text, cursor) == 0 || is_white_space(
            text[expression_start_of(text, cursor) - 1],
        ),
    decreases cursor,
{
    if cursor > 0 && !is_white_space(text[cursor - 1]) {
        law_expression_bounds(text, cursor - 1);
    }
}

/// The final component of a path, as `std::path::Path::file_name` finds it
/// (a function of the path's text alone).
pub uninterp spec fn final_component(path: Seq<char>) -> Option<Seq<char>>;

/// Calls `std::path::Path::file_name` on `path` and turns the name into a
/// string. Claimed: the result is the name `final_component` of the path
/// (the name is a part of valid UTF-8 text, so the conversion loses nothing).
#[verifier::external_body]
fn file_name_of(path: &str) -> (res: Option<String>)
    ensures
        res.deep_view() == final_component(path@),
{
    match std::path::Path::new(path).file_name() {
        Some(name) => Some(name.to_string_lossy().into_owned()),
        None => None,
    }
}

pub open spec fn open_label_prefix() -> Seq<char> { "📎 Open "@ }

/// The label of a file block's button for a file name, when there is one.
pub fn open_file_label(file_name: Option<&str>) -> (res: String)
    ensures
        res@ == open_label_prefix() + match file_name {
            Some(n) => n@,
            None => Seq::empty(),
        },
{
    let mut res = String::new();
    push_str(&mut res, "📎 Open ");
    match file_name {
        Some(n) => {
            push_str(&mut res, n);
        },
        None => {
            assert(res@ =~= open_label_prefix() + Seq::<char>::empty());
        },
    }
    res
}

/// The label of the button of a file block for the file at `path`.
pub fn file_button_label(path: &str) -> (res: String)
    ensures
        res@ == open_label_prefix() + match final_component(path@) {
            Some(n) => n,
            None => Seq::empty(),
        },
{
    let name = file_name_of(path);
    match &name {
        Some(n) => open_file_label(Some(n.as_str())),
        None => open_file_label(None),
    }
}

/// One item of a checklist block.
#[derive(Clone, Debug)]
pub struct ChecklistItem {
    pub text: String,
    pub checked: bool,
}

/// The JSON part of a checklist block's content: what follows the leading
/// `[CHECKLIST]` tags, without surrounding white space.
pub fn checklist_json(content: &str) -> (res: String)
    ensures
        res@ == trimmed(strip_leading(content@, checklist_tag())),
{
    let rest = strip_leading_all(&chars_of(content), &chars_of("[CHECKLIST]"));
    string_of(&trim(&rest))
}

/// The content of a checklist block whose items are written as `json`.
pub fn checklist_content(json: &str) -> (res: String)
    ensures
        res@ == "[CHECKLIST] "@ + json@,
{
    let mut res = String::new();
    push_str(&mut res, "[CHECKLIST] ");
    push_str(&mut res, json);
    res
}

/// Reading back the JSON of checklist content written by
/// `checklist_content` gives the JSON, up to surrounding white space.
pub proof fn law_checklist_round_trip(json: Seq<char>)
    ensures
        trimmed(strip_leading("[CHECKLIST] "@ + json, checklist_tag())) == trimmed(json),
{
    reveal_strlit("[CHECKLIST] ");
    reveal_strlit("[CHECKLIST]");
    let whole = "[CHECKLIST] "@ + json;
    let rest = seq![' '] + json;
    assert(whole.take(11) =~= checklist_tag());
    assert(whole.skip(11) =~= rest);
    assert(!has_prefix(rest, checklist_tag())) by {
        if has_prefix(rest, checklist_tag()) {
            assert(rest.take(11)[0] == checklist_tag()[0]);
        }
    }
    assert(strip_leading(rest, checklist_tag()) == rest);
    assert(is_white_space(' '));
    assert(rest.drop_first() =~= json);
    assert(crate::text::trim_front(rest) == crate::text::trim_front(json));
}

/// The content of a new, empty checklist block.
pub fn empty_checklist() -> (res: &'static str)
    ensures
        res@ == "[CHECKLIST] []"@,
{
    "[CHECKLIST] []"
}

/// The content of a new code block made from the header bar.
pub fn code_template() -> (res: &'static str)
    ensures
        res@ == "[CODE]\n// Write code here..."@,
{
    "[CODE]\n// Write code here..."
}

/// The content of a new timer block.
pub fn timer_template() -> (res: &'static str)
    ensures
        res@ == "[TIMER]"@,
{
    "[TIMER]"
}

/// The items with the `idx`-th one ticked or unticked; `None` when there is
/// no such item.
pub fn set_item_checked(items: Vec<ChecklistItem>, idx: usize, checked: bool)
    -> (res: Option<Vec<ChecklistItem>>)
    ensures
        idx < items.len() <==> res is Some,
        res matches Some(new_items) ==> {
            &&& new_items.len() == items.len()
            &&& new_items@[idx as int].text == items@[idx as int].text
            &&& new_items@[idx as int].checked == checked
            &&& forall|k: int| 0 <= k < items.len() && k != idx ==> new_items@[k] == items@[k]
        },
{
    if idx >= items.len() {
        return None;
    }
    let mut items = items;
    let old_item = items.remove(idx);
    items.insert(idx, ChecklistItem { text: old_item.text, checked });
    Some(items)
}

/// The items with a new, unticked item `text` at the end.
pub fn with_new_item(items: Vec<ChecklistItem>, text: String) -> (res: Vec<ChecklistItem>)
    ensures
        res@ == items@.push(ChecklistItem { text, checked: false }),
{
    let mut items = items;
    items.push(ChecklistItem { text, checked: false });
    items
}

/// Length of a focus session, in seconds.
pub const FOCUS_SECONDS: u64 = 1500;

/// What a focus timer shows on one tick.
pub enum TimerTick {
    /// Still running; the label shows the time left as `MM:SS`.
    Remaining { label: String },
    /// The session is over: the label shows `00:00` and the timer stops.
    Finished,
    /// The timer was stopped; nothing more happens.
    Stopped,
}

/// The `MM:SS` label for `secs` seconds left.
pub open spec fn clock_label(secs: nat) -> Seq<char> {
    two_digit(secs / 60) + ":"@ + two_digit(secs % 60)
}

/// The label of a timer that has not started: the whole session, `25:00`.
pub fn session_label() -> (res: String)
    ensures
        res@ == clock_label(FOCUS_SECONDS as nat),
{
    let mut label = String::new();
    push_two_digit(&mut label, FOCUS_SECONDS / 60);
    push_char(&mut label, ':');
    push_two_digit(&mut label, FOCUS_SECONDS % 60);
    proof {
        reveal_strlit(":");
    }
    assert(label@ =~= clock_label(FOCUS_SECONDS as nat));
    label
}

/// One tick of a focus timer that is `running` and started `elapsed`
/// seconds ago.
pub fn focus_tick(running: bool, elapsed: u64) -> (res: TimerTick)
    ensures
        !running ==> res is Stopped,
        running && elapsed >= FOCUS_SECONDS ==> res is Finished,
        running && elapsed < FOCUS_SECONDS ==> (res matches TimerTick::Remaining { label }
            && label@ == clock_label((FOCUS_SECONDS - elapsed) as nat)),
{
    if !running {
        return TimerTick::Stopped;
    }
    if elapsed >= FOCUS_SECONDS {
        return TimerTick::Finished;
    }
    let rem = FOCUS_SECONDS - elapsed;
    let mut label = String::new();
    push_two_digit(&mut label, rem / 60);
    push_char(&mut label, ':');
    push_two_digit(&mut label, rem % 60);
    proof {
        reveal_strlit(":");
    }
    assert(label@ =~= clock_label(rem as nat));
    TimerTick::Remaining { label }
}

/// Where the expression that ends at `cursor` starts: just after the last
/// white space before `cursor`, or at the start of the text.
pub open spec fn expression_start_of(text: Seq<char>, cursor: int) -> int
    decreases cursor,
{
    if cursor <= 0 {
        0
    } else if is_white_space(text[cursor - 1]) {
        cursor
    } else {
        expression_start_of(text, cursor - 1)
    }
}

/// The expression that ends at `cursor`.
pub open spec fn expression_before(text: Seq<char>, cursor: int) -> Seq<char> {
    text.subrange(expression_start_of(text, cursor), cursor)
}

/// Finds the start of the expression that ends at `cursor`.
pub fn expression_start(text: &Vec<char>, cursor: usize) -> (r: usize)
    requires
        cursor <= text.len(),
    ensures
        r == expression_start_of(text@, cursor as int),
        r <= cursor,
{
    let mut r = cursor;
    while r > 0 && !white_space(text[r - 1])
        invariant
            r <= cursor <= text.len(),
            expression_start_of(text@, cursor as int) == expression_start_of(text@, r as int),
        decreases r,
    {
        r = r - 1;
    }
    r
}

/// Every character of `expr` is ASCII.
pub open spec fn is_ascii_text(expr: Seq<char>) -> bool {
    forall|k: int| 0 <= k < expr.len() ==> ((#[trigger] expr[k]) as u32) < 128
}

/// `expr` may make one of evalexpr's built-ins panic. `str::substring`
/// slices its string at byte offsets, which panics inside a character; an
/// expression of ASCII characters only makes ASCII strings, so it is only a
/// risk in an expression that also holds other characters. `math::abs`,
/// `shl` and `shr` use plain integer operations, which panic on overflow in
/// a build with overflow checks (the default `cargo build`), and whether an
/// operand overflows shows only once it is computed.
pub open spec fn names_panicking_builtin(expr: Seq<char>) -> bool {
    (occurs_in(expr, "substring"@) && !is_ascii_text(expr)) || occurs_in(expr, "abs"@)
        || occurs_in(expr, "shl"@) || occurs_in(expr, "shr"@)
}

fn ascii_only(expr: &Vec<char>) -> (res: bool)
    ensures
        res == is_ascii_text(expr@),
{
    let mut i: usize = 0;
    while i < expr.len()
        invariant
            i <= expr.len(),
            forall|k: int| 0 <= k < i ==> ((#[trigger] expr@[k]) as u32) < 128,
        decreases expr.len() - i,
    {
        if expr[i] as u32 >= 128 {
            return false;
        }
        i = i + 1;
    }
    true
}

fn names_panicking(expr: &Vec<char>) -> (res: bool)
    ensures
        res == names_panicking_builtin(expr@),
{
    (contains(expr, &chars_of("substring")) && !ascii_only(expr)) || contains(expr, &chars_of("abs"))
        || contains(expr, &chars_of("shl")) || contains(expr, &chars_of("shr"))
}

/// The text that `evalexpr::eval` evaluates `expr` to, shown with the
/// value's `Display`; `None` when evaluation fails. A function of `expr`
/// alone: evaluation uses a fresh empty context.
pub uninterp spec fn evaluated(expr: Seq<char>) -> Option<Seq<char>>;

/// Calls `evalexpr::eval` on `expr` and renders the value with its
/// `Display`. Claimed: the result is `evaluated(expr)`; nothing is stated
/// about which expressions evaluate or to what. Expressions that name a
/// built-in that can panic are not handed to it.
#[verifier::external_body]
fn evaluate(expr: &str) -> (res: Option<String>)
    requires
        !names_panicking_builtin(expr@),
    ensures
        res.deep_view() == evaluated(expr@),
{
    match evalexpr::eval(expr) {
        Ok(value) => Some(value.to_string()),
        Err(_) => None,
    }
}

/// A replacement of the characters `[start, end)` of a text by `text`.
pub struct Replacement {
    pub start: usize,
    pub end: usize,
    pub text: String,
}

/// The replacement that the inline calculator makes once an expression
/// `[start, end)` has been evaluated: none when evaluation failed, else the
/// expression gives way to its value.
pub fn calculator_replacement(start: usize, end: usize, value: Option<String>)
    -> (res: Option<Replacement>)
    ensures
        match value {
            Some(v) => res matches Some(r) && r.start == start && r.end == end && r.text == v,
            None => res is None,
        },
{
    match value {
        Some(v) => Some(Replacement { start, end, text: v }),
        None => None,
    }
}

/// Whether the inline calculator can handle the expression that ends at
/// `cursor`: it does unless the expression names a built-in of evalexpr that
/// can panic.
pub fn calculator_accepts(text: &Vec<char>, cursor: usize) -> (res: bool)
    requires
        cursor <= text.len(),
    ensures
        res == !names_panicking_builtin(expression_before(text@, cursor as int)),
{
    let expr = expression_text(text, cursor);
    !names_panicking(&expr)
}

/// The characters of the expression that ends at `cursor`.
pub fn expression_text(text: &Vec<char>, cursor: usize) -> (res: Vec<char>)
    requires
        cursor <= text.len(),
    ensures
        res@ == expression_before(text@, cursor as int),
{
    let start = expression_start(text, cursor);
    let mut expr: Vec<char> = Vec::new();
    let mut j = start;
    while j < cursor
        invariant
            start <= j <= cursor <= text.len(),
            expr@ == text@.subrange(start as int, j as int),
        decreases cursor - j,
    {
        expr.push(text[j]);
        j = j + 1;
    }
    expr
}

/// The expression that the inline calculator evaluates when `=` is typed
/// with the cursor at `cursor`, with where it starts: the text between the
/// last white space and the cursor, unless it is blank.
pub fn calculation_expression(text: &Vec<char>, cursor: usize) -> (res: Option<(usize, String)>)
    requires
        cursor <= text.len(),
    ensures
        ({
            let expr = expression_before(text@, cursor as int);
            if trimmed(expr).len() == 0 {
                res is None
            } else {
                res matches Some((start, e)) && start == expression_start_of(text@, cursor as int)
                    && e@ == expr
            }
        }),
{
    let start = expression_start(text, cursor);
    let expr = expression_text(text, cursor);
    if trim(&expr).len() == 0 {
        return None;
    }
    Some((start, string_of(&expr)))
}

/// The inline calculator, run when `=` is typed with the cursor at
/// `cursor`: the expression between the last white space and the cursor is
/// evaluated and, when that succeeds, replaced by its value. Nothing happens
/// when the expression is blank.
pub fn calculate_before_cursor(text: &Vec<char>, cursor: usize) -> (res: Option<Replacement>)
    requires
        cursor <= text.len(),
        !names_panicking_builtin(expression_before(text@, cursor as int)),
    ensures
        ({
            let expr = expression_before(text@, cursor as int);
            if trimmed(expr).len() == 0 {
                res is None
            } else {
                match evaluated(expr) {
                    Some(v) => res matches Some(x) && x.start == expression_start_of(text@, cursor as int)
                        && x.end == cursor && x.text@ == v,
                    None => res is None,
                }
            }
        }),
{
    match calculation_expression(text, cursor) {
        None => None,
        Some((start, e)) => {
            let value = evaluate(e.as_str());
            calculator_replacement(start, cursor, value)
        },
    }
}

/// The line appended to a text block while the assistant's answer is awaited.
pub fn generating_placeholder() -> (res: &'static str)
    ensures
        res@ == "\n[Generating...]"@,
{
    "\n[Generating...]"
}

/// The block text once the assistant answered `answer`: every placeholder
/// line gives way to a blank line and the answer.
pub fn with_answer(full_text: &str, answer: &str) -> (res: String)
    ensures
        res@ == replaced(full_text@, "\n[Generating...]"@, "\n\n"@ + answer@),
{
    let mut rep = String::new();
    push_str(&mut rep, "\n\n");
    push_str(&mut rep, answer);
    let marker = chars_of("\n[Generating...]");
    proof {
        reveal_strlit("\n[Generating...]");
    }
    let out = replace_all(&chars_of(full_text), &marker, &chars_of(rep.as_str()));
    string_of(&out)
}

} // verus!
