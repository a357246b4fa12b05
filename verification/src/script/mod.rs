//! The story script: its commands, timeline and back-log.
pub mod backlog;
pub mod figure;
pub mod timeline;

use std::collections::HashSet;

use vstd::hash_map::StringHashMap;
use vstd::prelude::*;
use vstd::string::*;
use vstd::utf8::*;

use crate::media::player::PreBgm;
use crate::script::backlog::BackLogItem;
use crate::script::figure::{figure_key, Figure};
use crate::script::timeline::{figure_put, figure_source, figure_taken, pre_items_at, PreItems, Timeline};

verus! {

/// A choice leads to a label of a script: the script's name and the label's name.
pub type Label = (String, String);

/// How many back-log lines are shown at a time.
pub const WINDOW_SIZE: usize = 4;

/// The most the back-log view can be scrolled up from its newest line.
pub open spec fn max_offset_of(len: nat) -> nat {
    if len >= 4 {
        (len - 4) as nat
    } else {
        0
    }
}

/// Where the shown back-log lines end, scrolled up by `offset` lines.
pub open spec fn window_end(len: nat, offset: usize) -> int {
    if len >= offset {
        len - offset
    } else {
        0
    }
}

/// Where the shown back-log lines start.
pub open spec fn window_start(len: nat, offset: usize) -> int {
    let end = window_end(len, offset);
    if end >= 4 {
        end - 4
    } else {
        0
    }
}

/// The scroll offset after moving `current` by `delta`, floored at zero and capped at
/// `max`, with the engine's 32-bit arithmetic.
pub open spec fn offset_after(current: usize, delta: i32, max: usize) -> usize {
    let moved = (current as i32 + delta) as i32;
    let floored: i32 = if moved > 0 {
        moved
    } else {
        0i32
    };
    let cap = max as i32;
    (if floored < cap {
        floored
    } else {
        cap
    }) as usize
}

/// The summary shown for a save: at most the first 18 bytes of `text`, then "...".
pub open spec fn explain_text(text: Seq<char>) -> Seq<char> {
    let bytes = encode_utf8(text);
    (if bytes.len() > 18 {
        decode_utf8(bytes.subrange(0, 18))
    } else {
        text
    }) + seq!['.', '.', '.']
}

/// The state of a script, as the contracts see it.
pub struct ScriptView<C, K> {
    pub name: Seq<char>,
    pub explain: Seq<char>,
    pub offset: usize,
    pub backlog: Seq<BackLogItem>,
    pub commands: Seq<K>,
    pub block: usize,
    pub read_index: usize,
    pub current_bgm: Seq<char>,
    pub pre_voice: Option<(String, String)>,
    pub timeline: Timeline<C>,
    pub clear: Set<usize>,
    pub choices: Map<Seq<char>, Label>,
    pub labels: Map<Seq<char>, usize>,
    pub pre_items: PreItems<C>,
}

impl<C, K> View for Script<C, K> {
    type V = ScriptView<C, K>;

    closed spec fn view(&self) -> ScriptView<C, K> {
        ScriptView {
            name: self.name@,
            explain: self.explain@,
            offset: self.backlog_offset,
            backlog: self.backlog@,
            commands: self.commands@,
            block: self.current_block,
            read_index: self.read_index,
            current_bgm: self.current_bgm@,
            pre_voice: self.pre_voice,
            timeline: self.timeline,
            clear: self.clear@,
            choices: self.choices@,
            labels: self.labels@,
            pre_items: self.pre_items,
        }
    }
}

/// The back-log view shows at most a window of lines, within the log; unscrolled, it shows
/// the newest lines, as many as fit in the window.
pub proof fn law_backlog_window(len: nat, offset: usize)
    ensures
        0 <= window_start(len, offset) <= window_end(len, offset) <= len,
        window_end(len, offset) - window_start(len, offset) <= WINDOW_SIZE,
        offset == 0 ==> window_end(len, offset) == len,
        offset == 0 ==> window_end(len, offset) - window_start(len, offset) == if len >= 4 {
            4
        } else {
            len
        },
{
}

/// Scrolling the back-log view lands between the newest window and the oldest: the moved
/// offset, floored at zero and capped at the most the view can scroll.
pub proof fn law_offset_within_bounds(current: usize, delta: i32, max: usize)
    requires
        current <= i32::MAX,
        max <= i32::MAX,
        i32::MIN <= current + delta <= i32::MAX,
    ensures
        offset_after(current, delta, max) <= max,
        offset_after(current, delta, max) == if current + delta <= 0 {
            0
        } else if current + delta >= max {
            max as int
        } else {
            current + delta
        },
{
    assert((current as i32) as int == current as int);
    assert((max as i32) as int == max as int);
}

/// A label recorded at a block is found there, until it is recorded again.
pub proof fn law_label_found<C, K>(
    before: ScriptView<C, K>,
    after: ScriptView<C, K>,
    label: Seq<char>,
    index: usize,
)
    requires
        after == (ScriptView { labels: before.labels.insert(label, index), ..before }),
    ensures
        after.labels.contains_key(label),
        after.labels[label] == index,
{
}

/// A voice clip set to play is handed out once: the next take gives it, and leaves none.
pub proof fn law_voice_taken_once<C, K>(
    before: ScriptView<C, K>,
    set: ScriptView<C, K>,
    taken: ScriptView<C, K>,
    voice: (String, String),
)
    requires
        set == (ScriptView { pre_voice: Some(voice), ..before }),
        taken == (ScriptView { pre_voice: None, ..set }),
    ensures
        set.pre_voice == Some(voice),
        taken.pre_voice is None,
        taken == (ScriptView { pre_voice: None, ..before }),
{
}

/// The shown window ends exactly `offset` lines before the newest line, and holds the
/// lines just before that point, four of them or all there are; scrolled past the oldest
/// line, it is empty.
pub proof fn law_window_ends_offset_before_newest<T>(log: Seq<T>, offset: usize)
    ensures
        0 <= window_start(log.len(), offset) <= window_end(log.len(), offset) <= log.len(),
        ({
            let shown = log.subrange(
                window_start(log.len(), offset),
                window_end(log.len(), offset),
            );
            &&& offset <= log.len() ==> shown.len() == if log.len() - offset >= 4 {
                4
            } else {
                log.len() - offset
            }
            &&& offset <= log.len() ==> forall|i: int|
                0 <= i < shown.len() ==> #[trigger] shown[i] == log[log.len() - offset
                    - shown.len() + i]
            &&& offset > log.len() ==> shown.len() == 0
        }),
{
}

/// Scrolling the back-log view far enough up always reaches the oldest lines: the view then
/// shows the first four lines of the log.
pub proof fn law_scrolling_far_reaches_oldest_lines(len: nat, current: usize, delta: i32)
    requires
        4 <= len <= i32::MAX,
        current <= i32::MAX,
        i32::MIN <= current + delta <= i32::MAX,
        current + delta >= len - 4,
    ensures
        window_start(len, offset_after(current, delta, max_offset_of(len) as usize)) == 0,
        window_end(len, offset_after(current, delta, max_offset_of(len) as usize)) == 4,
{
    law_offset_within_bounds(current, delta, max_offset_of(len) as usize);
}

/// Wherever the back-log view is scrolled, it shows a full window: four lines, or the whole
/// log when it is shorter.
pub proof fn law_scrolled_view_is_full(len: nat, current: usize, delta: i32)
    requires
        len <= i32::MAX,
        current <= i32::MAX,
        i32::MIN <= current + delta <= i32::MAX,
    ensures
        ({
            let o = offset_after(current, delta, max_offset_of(len) as usize);
            window_end(len, o) - window_start(len, o) == if len >= 4 {
                4
            } else {
                len
            }
        }),
{
    law_offset_within_bounds(current, delta, max_offset_of(len) as usize);
}

/// Encoding a concatenation of characters concatenates their encodings.
proof fn lemma_encode_utf8_concat(a: Seq<char>, b: Seq<char>)
    ensures
        encode_utf8(a + b) == encode_utf8(a) + encode_utf8(b),
    decreases a.len(),
{
    if a.len() == 0 {
        assert(a + b =~= b);
        assert(encode_utf8(a) =~= Seq::<u8>::empty());
        assert(encode_utf8(a) + encode_utf8(b) =~= encode_utf8(b));
    } else {
        lemma_encode_utf8_concat(a.drop_first(), b);
        assert((a + b).drop_first() =~= a.drop_first() + b);
        assert((a + b)[0] == a[0]);
        let head = encode_scalar(a[0] as u32);
        assert(head + (encode_utf8(a.drop_first()) + encode_utf8(b)) =~= (head + encode_utf8(
            a.drop_first(),
        )) + encode_utf8(b));
    }
}

/// A save summary of a text longer than 18 bytes is, byte for byte, the first 18 bytes of
/// the text followed by "...".
pub proof fn law_long_explain_keeps_first_18_bytes(text: Seq<char>)
    requires
        encode_utf8(text).len() > 18,
        is_char_boundary(encode_utf8(text), 18),
    ensures
        encode_utf8(explain_text(text)) == encode_utf8(text).subrange(0, 18) + seq![
            46u8,
            46u8,
            46u8,
        ],
        encode_utf8(explain_text(text)).len() == 21,
{
    let bytes = encode_utf8(text);
    let dots = seq!['.', '.', '.'];
    encode_utf8_valid_utf8(text);
    valid_utf8_split(bytes, 18);
    let front = decode_utf8(bytes.subrange(0, 18));
    decode_utf8_encode_utf8(bytes.subrange(0, 18));
    lemma_encode_utf8_concat(front, dots);
    assert(is_ascii_chars(dots));
    is_ascii_chars_encode_utf8(dots);
    assert(encode_utf8(dots) =~= seq![46u8, 46u8, 46u8]);
}

/// A save summary of a text of at most 18 bytes is the whole text followed by "...".
pub proof fn law_short_explain_keeps_whole_text(text: Seq<char>)
    requires
        encode_utf8(text).len() <= 18,
    ensures
        explain_text(text).len() == text.len() + 3,
        explain_text(text).subrange(0, text.len() as int) == text,
        explain_text(text).subrange(text.len() as int, text.len() + 3int) == seq!['.', '.', '.'],
{
    assert(explain_text(text).subrange(0, text.len() as int) =~= text);
    assert(explain_text(text).subrange(text.len() as int, text.len() + 3int) =~= seq!['.', '.', '.']);
}

/// A script being played: its commands, where play has reached, and what the story set up.
pub struct Script<C, K> {
    name: String,
    explain: String,
    backlog_offset: usize,
    backlog: Vec<BackLogItem>,
    commands: Vec<K>,
    current_block: usize,
    read_index: usize,
    current_bgm: String,
    pre_voice: Option<(String, String)>,
    timeline: Timeline<C>,
    clear: HashSet<usize>,
    choices: StringHashMap<Label>,
    labels: StringHashMap<usize>,
    pre_items: PreItems<C>,
}

impl<C, K> Script<C, K> {
    /// The timeline's figures, and those of the waiting scene, hold one figure per place.
    pub closed spec fn wf(&self) -> bool {
        &&& self.timeline.wf()
        &&& self.pre_items.pre_figures matches Some(f) ==> f.wf()
    }

    /// Names the script.
    pub fn set_name(&mut self, name: &str)
        ensures
            final(self).wf() == old(self).wf(),
            final(self)@ == (ScriptView { name: name@, ..old(self)@ }),
    {
        self.name = name.to_owned();
    }

    /// Hands out the command of the block that play has reached, if the script has one
    /// there, and moves on to the next block.
    pub fn next_command(&mut self) -> (r: Option<&K>)
        requires
            old(self)@.block < usize::MAX,
        ensures
            final(self).wf() == old(self).wf(),
            final(self)@ == (ScriptView {
                block: (old(self)@.block + 1) as usize,
                read_index: if old(self)@.read_index <= old(self)@.block {
                    (old(self)@.read_index + 1) as usize
                } else {
                    old(self)@.read_index
                },
                ..old(self)@
            }),
            match r {
                Some(c) => old(self)@.block < old(self)@.commands.len() && *c
                    == old(self)@.commands[old(self)@.block as int],
                None => old(self)@.block >= old(self)@.commands.len(),
            },
    {
        let block = self.current_block;
        if self.read_index <= block {
            self.read_index = self.read_index + 1;
        }
        self.current_block = block + 1;
        if block < self.commands.len() {
            Some(&self.commands[block])
        } else {
            None
        }
    }

    /// Sets the track now playing.
    pub fn set_current_bgm(&mut self, bgm: String)
        ensures
            final(self).wf() == old(self).wf(),
            final(self)@ == (ScriptView { current_bgm: bgm@, ..old(self)@ }),
    {
        self.current_bgm = bgm;
    }

    /// Sets the voice clip to play next, with its character.
    pub fn set_pre_voice(&mut self, pre_voice: (String, String))
        ensures
            final(self).wf() == old(self).wf(),
            final(self)@ == (ScriptView { pre_voice: Some(pre_voice), ..old(self)@ }),
    {
        self.pre_voice = Some(pre_voice);
    }

    /// Replaces the back-log.
    pub fn set_backlog(&mut self, backlog: Vec<BackLogItem>)
        ensures
            final(self).wf() == old(self).wf(),
            final(self)@ == (ScriptView { backlog: backlog@, ..old(self)@ }),
    {
        self.backlog = backlog;
    }

    /// Records where a choice leads.
    pub fn insert_choice(&mut self, choice: String, label: Label)
        ensures
            final(self).wf() == old(self).wf(),
            final(self)@ == (ScriptView {
                choices: old(self)@.choices.insert(choice@, label),
                ..old(self)@
            }),
    {
        self.choices.insert(choice, label);
    }

    /// Records that the screen is cleared at block `index`.
    pub fn insert_clear(&mut self, index: usize)
        ensures
            final(self).wf() == old(self).wf(),
            final(self)@ == (ScriptView { clear: old(self)@.clear.insert(index), ..old(self)@ }),
    {
        self.clear.insert(index);
    }

    /// Records that `label` stands at block `index`.
    pub fn insert_label(&mut self, label: String, index: usize)
        ensures
            final(self).wf() == old(self).wf(),
            final(self)@ == (ScriptView {
                labels: old(self)@.labels.insert(label@, index),
                ..old(self)@
            }),
    {
        self.labels.insert(label, index);
    }

    /// Appends a block of commands to the script.
    pub fn push_command(&mut self, command: K)
        ensures
            final(self).wf() == old(self).wf(),
            final(self)@ == (ScriptView {
                commands: old(self)@.commands.push(command),
                ..old(self)@
            }),
    {
        self.commands.push(command);
    }

    /// The back-log, handed over whole.
    pub fn take_backlog(self) -> (r: Vec<BackLogItem>)
        ensures
            r@ == self@.backlog,
    {
        self.backlog
    }

    /// The script's name.
    pub fn name(&self) -> (r: &str)
        ensures
            r@ == self@.name,
    {
        self.name.as_str()
    }

    /// The block that play has reached.
    pub fn index(&self) -> (r: usize)
        ensures
            r == self@.block,
    {
        self.current_block
    }

    /// The save summary.
    pub fn explain(&self) -> (r: &str)
        ensures
            r@ == self@.explain,
    {
        self.explain.as_str()
    }

    /// The track now playing.
    pub fn current_bgm(&self) -> (r: &str)
        ensures
            r@ == self@.current_bgm,
    {
        self.current_bgm.as_str()
    }

    /// Takes the voice clip waiting to be played.
    pub fn pre_voice(&mut self) -> (r: Option<(String, String)>)
        ensures
            final(self).wf() == old(self).wf(),
            r == old(self)@.pre_voice,
            final(self)@ == (ScriptView { pre_voice: None, ..old(self)@ }),
    {
        self.pre_voice.take()
    }

    /// The block at which `name` stands, if it is a label of the script.
    pub fn find_label(&self, name: &str) -> (r: Option<&usize>)
        ensures
            match r {
                Some(i) => self@.labels.contains_key(name@) && *i == self@.labels[name@],
                None => !self@.labels.contains_key(name@),
            },
    {
        self.labels.get(name)
    }

    /// Where the choice `name` leads, if it is a choice of the script.
    pub fn get_choice_label(&self, name: &str) -> (r: Option<&Label>)
        ensures
            match r {
                Some(l) => self@.choices.contains_key(name@) && *l == self@.choices[name@],
                None => !self@.choices.contains_key(name@),
            },
    {
        self.choices.get(name)
    }

    /// Whether the screen is cleared at the block that play has reached.
    pub fn in_clear(&self) -> (r: bool)
        ensures
            r == self@.clear.contains(self@.block),
    {
        self.clear.contains(&self.current_block)
    }

    /// Sets the save summary: at most the first 18 bytes of `explain`, then "...".
    pub fn set_explain(&mut self, explain: &str)
        requires
            explain.spec_bytes().len() > 18 ==> is_char_boundary(explain.spec_bytes(), 18),
        ensures
            final(self).wf() == old(self).wf(),
            final(self)@ == (ScriptView { explain: explain_text(explain@), ..old(self)@ }),
    {
        let mut short: &str = explain;
        let bytes: &[u8] = explain.as_bytes();
        if bytes.len() > 18 {
            let (front, _) = explain.split_at(18);
            proof {
                encode_utf8_decode_utf8(front@);
                assert(front.spec_bytes() == explain.spec_bytes().subrange(0, 18));
                assert(encode_utf8(front@) == explain.spec_bytes().subrange(0, 18));
                assert(front@ == decode_utf8(explain.spec_bytes().subrange(0, 18)));
            }
            short = front;
        }
        let text: String = short.to_owned();
        proof {
            reveal_strlit("...");
            assert("..."@ =~= seq!['.', '.', '.']);
            if explain.spec_bytes().len() > 18 {
                assert(short@ == decode_utf8(explain.spec_bytes().subrange(0, 18)));
            }
        }
        self.explain = text.concat("...");
    }

    /// How far the back-log view can be scrolled up: all but the last window of lines.
    fn max_offset(&self) -> (r: usize)
        ensures
            r == max_offset_of(self@.backlog.len()),
    {
        self.backlog.len().saturating_sub(WINDOW_SIZE)
    }

    /// Scrolls the back-log view by `offset` lines, no lower than the newest window and no
    /// higher than the oldest.
    pub fn set_offset(&mut self, offset: i32)
        requires
            i32::MIN <= old(self)@.offset as i32 + offset <= i32::MAX,
        ensures
            final(self).wf() == old(self).wf(),
            final(self)@ == (ScriptView {
                offset: offset_after(
                    old(self)@.offset,
                    offset,
                    max_offset_of(old(self)@.backlog.len()) as usize,
                ),
                ..old(self)@
            }),
    {
        let moved: i32 = self.backlog_offset as i32 + offset;
        let floored: i32 = if moved > 0 {
            moved
        } else {
            0
        };
        let max_offset = self.max_offset();
        let cap: i32 = max_offset as i32;
        let capped: i32 = if floored < cap {
            floored
        } else {
            cap
        };
        self.backlog_offset = capped as usize;
    }

    /// Appends a line to the back-log, said at the block that play has reached.
    pub fn push_backlog(&mut self, name: String, text: String, voice: Option<(String, String)>)
        ensures
            final(self).wf() == old(self).wf(),
            final(self)@ == (ScriptView { backlog: final(self)@.backlog, ..old(self)@ }),
            final(self)@.backlog.len() == old(self)@.backlog.len() + 1,
            final(self)@.backlog.drop_last() == old(self)@.backlog,
            ({
                let item = final(self)@.backlog.last();
                &&& item.front == name
                &&& item.back == text
                &&& item.script@ == old(self)@.name
                &&& item.index == old(self)@.block as i32
                &&& item.chara@ == match voice {
                    Some(v) => v.0@,
                    None => Seq::<char>::empty(),
                }
                &&& item.voice@ == match voice {
                    Some(v) => v.1@,
                    None => Seq::<char>::empty(),
                }
            }),
    {
        let (chara, voice) = match voice {
            Some(v) => v,
            None => (String::new(), String::new()),
        };
        let item = BackLogItem {
            front: name,
            back: text,
            script: self.name.clone(),
            index: self.current_block as i32,
            chara,
            voice,
        };
        self.backlog.push(item);
        proof {
            assert(self.backlog@.drop_last() =~= old(self).backlog@);
        }
    }

    /// The window of back-log lines on view: up to four lines, ending `offset` lines
    /// before the newest.
    pub fn backlog(&self) -> (r: Vec<BackLogItem>)
        ensures
            r@ == self@.backlog.subrange(
                window_start(self@.backlog.len(), self@.offset),
                window_end(self@.backlog.len(), self@.offset),
            ),
    {
        let total = self.backlog.len();
        if total == 0 {
            let r: Vec<BackLogItem> = Vec::new();
            proof {
                assert(r@ =~= self.backlog@.subrange(0, 0));
            }
            return r;
        }
        let end = total.saturating_sub(self.backlog_offset);
        let start = end.saturating_sub(WINDOW_SIZE);
        let mut r: Vec<BackLogItem> = Vec::new();
        let mut i: usize = start;
        while i < end
            invariant
                total == self.backlog@.len(),
                start as int == window_start(self@.backlog.len(), self@.offset),
                end as int == window_end(self@.backlog.len(), self@.offset),
                start <= i <= end <= total,
                r@ == self.backlog@.subrange(start as int, i as int),
            decreases end - i,
        {
            r.push(self.backlog[i].clone());
            proof {
                assert(r@ =~= self.backlog@.subrange(start as int, i + 1));
            }
            i = i + 1;
        }
        r
    }

    /// The voice of the newest back-log line, with its character, unless it has neither.
    pub fn last_voice(&self) -> (r: Option<(String, String)>)
        requires
            self@.backlog.len() > 0,
        ensures
            ({
                let item = self@.backlog.last();
                if item.voice@.len() == 0 && item.chara@.len() == 0 {
                    r is None
                } else {
                    r == Some((item.chara, item.voice))
                }
            }),
    {
        let item: &BackLogItem = self.backlog.last().unwrap();
        if item.voice.as_str().is_empty() && item.chara.as_str().is_empty() {
            return None;
        }
        Some((item.chara.clone(), item.voice.clone()))
    }

    /// Takes the scene waiting to be restored, leaving none.
    pub fn pre_items(&mut self) -> (r: (Option<C>, PreBgm, Option<Figure<C>>))
        ensures
            old(self).wf() ==> final(self).wf(),
            r.0 == old(self)@.pre_items.pre_bg,
            r.1 == old(self)@.pre_items.pre_bgm,
            r.2 == old(self)@.pre_items.pre_figures,
            final(self)@ == (ScriptView { pre_items: final(self)@.pre_items, ..old(self)@ }),
            final(self)@.pre_items.pre_bg is None,
            final(self)@.pre_items.pre_bgm is Keep,
            final(self)@.pre_items.pre_figures is None,
    {
        let mut items: PreItems<C> = PreItems::empty();
        std::mem::swap(&mut self.pre_items, &mut items);
        (items.pre_bg, items.pre_bgm, items.pre_figures)
    }

    /// Records that `command` puts a figure at `distance`+`position` at block `index`.
    pub fn update_figures(&mut self, index: usize, distance: &str, position: &str, command: C)
        requires
            old(self).wf(),
        ensures
            final(self).wf(),
            final(self)@ == (ScriptView { timeline: final(self)@.timeline, ..old(self)@ }),
            final(self)@.timeline.bgm_map() == old(self)@.timeline.bgm_map(),
            final(self)@.timeline.background_map() == old(self)@.timeline.background_map(),
            figure_put(
                old(self)@.timeline.figure_map(),
                final(self)@.timeline.figure_map(),
                index,
                figure_key(distance@, position@),
                command,
            ),
    {
        self.timeline.update_figures(index, distance, position, command);
    }

    /// Records that `command` sets the background at block `index`.
    pub fn insert_background(&mut self, index: usize, command: C)
        requires
            old(self).wf(),
        ensures
            final(self).wf(),
            final(self)@ == (ScriptView { timeline: final(self)@.timeline, ..old(self)@ }),
            final(self)@.timeline.bgm_map() == old(self)@.timeline.bgm_map(),
            final(self)@.timeline.background_map() == old(
                self,
            )@.timeline.background_map().insert(index, command),
            final(self)@.timeline.figure_map() == old(self)@.timeline.figure_map(),
    {
        self.timeline.insert_background(index, command);
    }

    /// Records that `bgm` starts at block `index`.
    pub fn insert_bgm(&mut self, index: usize, bgm: String)
        requires
            old(self).wf(),
        ensures
            final(self).wf(),
            final(self)@ == (ScriptView { timeline: final(self)@.timeline, ..old(self)@ }),
            final(self)@.timeline.bgm_map() == old(self)@.timeline.bgm_map().insert(index, bgm),
            final(self)@.timeline.background_map() == old(self)@.timeline.background_map(),
            final(self)@.timeline.figure_map() == old(self)@.timeline.figure_map(),
    {
        self.timeline.insert_bgm(index, bgm);
    }

    /// Takes back the figure at `distance`+`position` from the last block at or before
    /// `index` that has one there.
    pub fn change_figure(&mut self, index: usize, distance: &str, position: &str) -> (r: C)
        requires
            old(self).wf(),
            exists|i: usize| #[trigger]
                figure_source(
                    old(self)@.timeline.figure_map(),
                    index,
                    figure_key(distance@, position@),
                    i,
                ),
        ensures
            final(self).wf(),
            final(self)@ == (ScriptView { timeline: final(self)@.timeline, ..old(self)@ }),
            final(self)@.timeline.bgm_map() == old(self)@.timeline.bgm_map(),
            final(self)@.timeline.background_map() == old(self)@.timeline.background_map(),
            figure_taken(
                old(self)@.timeline.figure_map(),
                final(self)@.timeline.figure_map(),
                index,
                figure_key(distance@, position@),
                r,
            ),
    {
        self.timeline.change_figure(index, distance, position)
    }

    /// An empty script at its first block.
    pub fn new() -> (r: Self)
        ensures
            r.wf(),
            r@.name == Seq::<char>::empty(),
            r@.explain == Seq::<char>::empty(),
            r@.offset == 0,
            r@.backlog == Seq::<BackLogItem>::empty(),
            r@.commands == Seq::<K>::empty(),
            r@.block == 0,
            r@.read_index == 0,
            r@.current_bgm == Seq::<char>::empty(),
            r@.pre_voice is None,
            r@.timeline.bgm_map() == Map::<usize, String>::empty(),
            r@.timeline.background_map() == Map::<usize, C>::empty(),
            r@.timeline.figure_map() == Map::<usize, Figure<C>>::empty(),
            r@.clear == Set::<usize>::empty(),
            r@.choices == Map::<Seq<char>, Label>::empty(),
            r@.labels == Map::<Seq<char>, usize>::empty(),
            r@.pre_items.pre_bg is None,
            r@.pre_items.pre_bgm is Keep,
            r@.pre_items.pre_figures is None,
    {
        Script {
            name: String::new(),
            explain: String::new(),
            backlog_offset: 0,
            backlog: Vec::new(),
            commands: Vec::new(),
            current_block: 0,
            read_index: 0,
            current_bgm: String::new(),
            pre_voice: None,
            timeline: Timeline::new(),
            clear: HashSet::new(),
            choices: StringHashMap::new(),
            labels: StringHashMap::new(),
            pre_items: PreItems::empty(),
        }
    }
}

impl<C: Clone, K> Script<C, K> {
    /// Jumps to block `jump_index`, if one is given, and sets up the scene as it stood
    /// there to be restored.
    pub fn set_pre_items(&mut self, jump_index: Option<usize>)
        requires
            old(self).wf(),
        ensures
            final(self).wf(),
            match jump_index {
                Some(index) => {
                    &&& final(self)@ == (ScriptView {
                        block: index,
                        pre_items: final(self)@.pre_items,
                        ..old(self)@
                    })
                    &&& pre_items_at(
                        old(self)@.timeline,
                        index,
                        old(self)@.current_bgm,
                        final(self)@.pre_items,
                    )
                },
                None => final(self)@ == old(self)@,
            },
    {
        if let Some(index) = jump_index {
            self.pre_items = self.timeline.pre_items(index, self.current_bgm.as_str());
            self.current_block = index;
        }
    }
}

} // verus!
