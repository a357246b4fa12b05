//! What was set up at each block of the story: music, backgrounds, figures.
use std::collections::BTreeMap;

use vstd::prelude::*;
use vstd::std_specs::iter::IteratorSpec;
use vstd::string::*;

use crate::media::player::PreBgm;
use crate::script::figure::{figure_key, figures_cloned, Figure};

verus! {

/// `k` is the last key of `dom` at or before `index`.
pub open spec fn is_latest(dom: Set<usize>, index: usize, k: usize) -> bool {
    &&& dom.contains(k)
    &&& k <= index
    &&& forall|j: usize| #[trigger] dom.contains(j) && j <= index ==> j <= k
}

/// The last key of `dom` at or before `index`, if there is one.
pub open spec fn latest_key(dom: Set<usize>, index: usize) -> Option<usize> {
    if exists|k: usize| is_latest(dom, index, k) {
        Some(choose|k: usize| is_latest(dom, index, k))
    } else {
        None
    }
}

/// A key that is last at or before `index` is the one `latest_key` names.
pub proof fn lemma_latest_key_unique(dom: Set<usize>, index: usize, k: usize)
    requires
        is_latest(dom, index, k),
    ensures
        latest_key(dom, index) == Some(k),
{
    let c = choose|c: usize| is_latest(dom, index, c);
    assert(is_latest(dom, index, c));
    assert(c <= k && k <= c);
}

/// When no key lies at or before `index`, there is no latest key.
pub proof fn lemma_latest_key_none(dom: Set<usize>, index: usize)
    requires
        forall|j: usize| #[trigger] dom.contains(j) ==> j > index,
    ensures
        latest_key(dom, index) == None::<usize>,
{
    if exists|k: usize| is_latest(dom, index, k) {
        let c = choose|c: usize| is_latest(dom, index, c);
        assert(dom.contains(c));
    }
}

/// The last key of `m` at or before `index`.
fn latest_at<V>(m: &BTreeMap<usize, V>, index: usize) -> (r: Option<usize>)
    ensures
        r == latest_key(m@.dom(), index),
{
    let mut best: Option<usize> = None;
    let ghost keys = m.keys().remaining().unref();
    proof {
        broadcast use vstd::std_specs::btree::axiom_spec_keys_iter;
        assert(keys.to_set() == m@.dom());
    }
    for k in it: m.keys()
        invariant
            keys == it.seq().unref(),
            keys.to_set() == m@.dom(),
            match best {
                Some(b) => {
                    &&& b <= index
                    &&& m@.contains_key(b)
                    &&& forall|i: int| 0 <= i < it.index() && keys[i] <= index ==> keys[i] <= b
                },
                None => forall|i: int| 0 <= i < it.index() ==> keys[i] > index,
            },
    {
        let key: usize = *k;
        proof {
            assert(keys[it.index()] == key);
            assert(keys.to_set().contains(key));
        }
        if key <= index {
            let better = match best {
                Some(b) => b < key,
                None => true,
            };
            if better {
                best = Some(key);
            }
        }
    }
    proof {
        match best {
            Some(b) => {
                assert forall|j: usize| #[trigger] m@.dom().contains(j) && j <= index implies j
                    <= b by {
                    assert(keys.to_set().contains(j));
                    let i = keys.index_of(j);
                }
                lemma_latest_key_unique(m@.dom(), index, b);
            },
            None => {
                assert forall|j: usize| #[trigger] m@.dom().contains(j) implies j > index by {
                    assert(keys.to_set().contains(j));
                    let i = keys.index_of(j);
                }
                lemma_latest_key_none(m@.dom(), index);
            },
        }
    }
    best
}

/// What the scene was like at a block: the last background, music and figures set up
/// at or before it.
pub struct PreItems<C> {
    pub pre_bg: Option<C>,
    pub pre_bgm: PreBgm,
    pub pre_figures: Option<Figure<C>>,
}

impl<C> PreItems<C> {
    /// Nothing set up, the music left as it is.
    pub fn empty() -> (r: Self)
        ensures
            r.pre_bg is None,
            r.pre_bgm is Keep,
            r.pre_figures is None,
    {
        PreItems { pre_bg: None, pre_bgm: PreBgm::Keep, pre_figures: None }
    }
}

/// What the music should do at `index`, given the track set up at each block and the one
/// now playing.
pub open spec fn pre_bgm_at(bgm: Map<usize, String>, index: usize, current: Seq<char>) -> PreBgm {
    match latest_key(bgm.dom(), index) {
        Some(k) => if current != bgm[k]@ {
            PreBgm::Play(bgm[k])
        } else {
            PreBgm::Keep
        },
        None => PreBgm::Stop,
    }
}

/// The block-indexed record of music, backgrounds and figures.
pub struct Timeline<C> {
    bgm: BTreeMap<usize, String>,
    backgrounds: BTreeMap<usize, C>,
    figures: BTreeMap<usize, Figure<C>>,
}

impl<C> Timeline<C> {
    /// The track set up at each block.
    pub closed spec fn bgm_map(&self) -> Map<usize, String> {
        self.bgm@
    }

    /// The background set up at each block.
    pub closed spec fn background_map(&self) -> Map<usize, C> {
        self.backgrounds@
    }

    /// The figures set up at each block.
    pub closed spec fn figure_map(&self) -> Map<usize, Figure<C>> {
        self.figures@
    }

    /// Each block's figures hold one figure per place.
    pub closed spec fn wf(&self) -> bool {
        forall|k: usize| #[trigger] self.figures@.contains_key(k) ==> self.figures@[k].wf()
    }

    /// An empty timeline.
    pub fn new() -> (r: Self)
        ensures
            r.wf(),
            r.bgm_map() == Map::<usize, String>::empty(),
            r.background_map() == Map::<usize, C>::empty(),
            r.figure_map() == Map::<usize, Figure<C>>::empty(),
    {
        Timeline { bgm: BTreeMap::new(), backgrounds: BTreeMap::new(), figures: BTreeMap::new() }
    }

    /// Records that `bgm` starts at block `index`.
    pub fn insert_bgm(&mut self, index: usize, bgm: String)
        requires
            old(self).wf(),
        ensures
            final(self).wf(),
            final(self).bgm_map() == old(self).bgm_map().insert(index, bgm),
            final(self).background_map() == old(self).background_map(),
            final(self).figure_map() == old(self).figure_map(),
    {
        self.bgm.insert(index, bgm);
    }

    /// Records that `command` sets the background at block `index`.
    pub fn insert_background(&mut self, index: usize, command: C)
        requires
            old(self).wf(),
        ensures
            final(self).wf(),
            final(self).bgm_map() == old(self).bgm_map(),
            final(self).background_map() == old(self).background_map().insert(index, command),
            final(self).figure_map() == old(self).figure_map(),
    {
        self.backgrounds.insert(index, command);
    }

    /// Records that `command` puts a figure at the place `distance`+`position` at block
    /// `index`, beside the figures already recorded there.
    pub fn update_figures(&mut self, index: usize, distance: &str, position: &str, command: C)
        requires
            old(self).wf(),
        ensures
            final(self).wf(),
            final(self).bgm_map() == old(self).bgm_map(),
            final(self).background_map() == old(self).background_map(),
            figure_put(
                old(self).figure_map(),
                final(self).figure_map(),
                index,
                figure_key(distance@, position@),
                command,
            ),
    {
        let ghost old_figures = self.figures@;
        let mut figure: Figure<C> = match self.figures.remove(&index) {
            Some(f) => f,
            None => Figure::new(),
        };
        figure.push(distance, position, command);
        self.figures.insert(index, figure);
        proof {
            assert(self.figures@.remove(index) =~= old_figures.remove(index));
            assert forall|k: usize| #[trigger] self.figures@.contains_key(k) implies self.figures@[
                k
            ].wf() by {
                if k != index {
                    assert(old_figures.contains_key(k));
                }
            }
        }
    }

    /// Takes back the figure standing at `distance`+`position` in the last block at or
    /// before `index` that has one there.
    pub fn change_figure(&mut self, index: usize, distance: &str, position: &str) -> (r: C)
        requires
            old(self).wf(),
            exists|i: usize| #[trigger]
                figure_source(old(self).figure_map(), index, figure_key(distance@, position@), i),
        ensures
            final(self).wf(),
            final(self).bgm_map() == old(self).bgm_map(),
            final(self).background_map() == old(self).background_map(),
            figure_taken(
                old(self).figure_map(),
                final(self).figure_map(),
                index,
                figure_key(distance@, position@),
                r,
            ),
    {
        let front: String = distance.to_owned();
        let pos: String = front.concat(position);
        let ghost figs = self.figures@;
        let ghost w = choose|i: usize| #[trigger] figure_source(figs, index, pos@, i);
        let mut i: usize = index;
        loop
            invariant
                self.figures@ == figs,
                self.wf(),
                figure_source(figs, index, pos@, w),
                w <= i <= index,
                forall|j: usize|
                    i < j <= index && #[trigger] figs.contains_key(j) ==> !figs[j]@.contains_key(
                        pos@,
                    ),
            ensures
                self.figures@ == figs,
                self.wf(),
                i <= index,
                figs.contains_key(i),
                figs[i]@.contains_key(pos@),
                forall|j: usize|
                    i < j <= index && #[trigger] figs.contains_key(j) ==> !figs[j]@.contains_key(
                        pos@,
                    ),
            decreases i,
        {
            let found = match self.figures.get(&i) {
                Some(fg) => fg.contains_key(&pos),
                None => false,
            };
            if found {
                break;
            }
            assert(i != w);
            i = i - 1;
        }
        proof {
            assert(figure_source(figs, index, pos@, i));
            lemma_figure_source_unique(figs, index, pos@, i);
        }
        let mut figure: Figure<C> = self.figures.remove(&i).unwrap();
        let c: C = figure.remove(&pos).unwrap();
        self.figures.insert(i, figure);
        proof {
            assert(self.figures@.remove(i) =~= figs.remove(i));
            assert forall|k: usize| #[trigger] self.figures@.contains_key(k) implies self.figures@[
                k
            ].wf() by {
                if k != i {
                    assert(figs.contains_key(k));
                }
            }
        }
        c
    }
}

/// `r` is the scene at block `index` of `t` with `current` playing: what the music should
/// do, a clone of the last background and a clone of the last figures set up at or before
/// the block.
pub open spec fn pre_items_at<C: Clone>(
    t: Timeline<C>,
    index: usize,
    current: Seq<char>,
    r: PreItems<C>,
) -> bool {
    &&& r.pre_bgm == pre_bgm_at(t.bgm_map(), index, current)
    &&& match latest_key(t.background_map().dom(), index) {
        Some(k) => r.pre_bg matches Some(bg) && cloned(t.background_map()[k], bg),
        None => r.pre_bg is None,
    }
    &&& match latest_key(t.figure_map().dom(), index) {
        Some(k) => r.pre_figures matches Some(f) && f.wf() && figures_cloned(
            t.figure_map()[k]@,
            f@,
        ),
        None => r.pre_figures is None,
    }
}

impl<C: Clone> Timeline<C> {
    /// The scene as it stood at block `index`: a clone of the last background and of the
    /// last figures set up at or before it, and what the music should do given that
    /// `current_bgm` is playing.
    pub fn pre_items(&self, index: usize, current_bgm: &str) -> (r: PreItems<C>)
        requires
            self.wf(),
        ensures
            pre_items_at(*self, index, current_bgm@, r),
    {
        let pre_bgm = match latest_at(&self.bgm, index) {
            Some(k) => {
                let bgm: &String = self.bgm.get(&k).unwrap();
                let current: String = current_bgm.to_owned();
                if current == *bgm {
                    PreBgm::Keep
                } else {
                    PreBgm::Play(bgm.clone())
                }
            },
            None => PreBgm::Stop,
        };
        let pre_bg = match latest_at(&self.backgrounds, index) {
            Some(k) => {
                let bg: &C = self.backgrounds.get(&k).unwrap();
                Some(bg.clone())
            },
            None => None,
        };
        let pre_figures = match latest_at(&self.figures, index) {
            Some(k) => {
                let fg: &Figure<C> = self.figures.get(&k).unwrap();
                Some(fg.clone())
            },
            None => None,
        };
        PreItems { pre_bg, pre_bgm, pre_figures }
    }
}

/// `after` is `before` with `command` put at place `key` of block `index`, beside the
/// figures already recorded there.
pub open spec fn figure_put<C>(
    before: Map<usize, Figure<C>>,
    after: Map<usize, Figure<C>>,
    index: usize,
    key: Seq<char>,
    command: C,
) -> bool {
    &&& after.contains_key(index)
    &&& after.remove(index) == before.remove(index)
    &&& after[index]@ == (if before.contains_key(index) {
        before[index]@
    } else {
        Map::<Seq<char>, C>::empty()
    }).insert(key, command)
}

/// `after` is `before` with the figure at place `key`, as seen from block `index`, taken
/// out of the block it was put in, and `r` is that figure.
pub open spec fn figure_taken<C>(
    before: Map<usize, Figure<C>>,
    after: Map<usize, Figure<C>>,
    index: usize,
    key: Seq<char>,
    r: C,
) -> bool {
    let j = figure_source_of(before, index, key);
    &&& figure_source(before, index, key, j)
    &&& r == before[j]@[key]
    &&& after.contains_key(j)
    &&& after.remove(j) == before.remove(j)
    &&& after[j]@ == before[j]@.remove(key)
}

/// A key added at `index` is the latest key seen from any later block `j` up to which no
/// other key lies.
pub proof fn law_latest_after_insert(dom: Set<usize>, index: usize, j: usize)
    requires
        index <= j,
        forall|k: usize| #[trigger] dom.contains(k) ==> !(index < k <= j),
    ensures
        latest_key(dom.insert(index), j) == Some(index),
{
    lemma_latest_key_unique(dom.insert(index), j, index);
}

/// Jumping to a block at or after the last place `bgm` was set up starts `bgm`, unless it
/// is already the track playing.
pub proof fn law_jump_restores_bgm(
    before: Map<usize, String>,
    index: usize,
    bgm: String,
    j: usize,
    current: Seq<char>,
)
    requires
        index <= j,
        forall|k: usize| #[trigger] before.contains_key(k) ==> !(index < k <= j),
    ensures
        pre_bgm_at(before.insert(index, bgm), j, current) == (if current != bgm@ {
            PreBgm::Play(bgm)
        } else {
            PreBgm::Keep
        }),
{
    assert(before.insert(index, bgm).dom() == before.dom().insert(index));
    law_latest_after_insert(before.dom(), index, j);
}

/// Jumping to a block before any track was set up stops the music.
pub proof fn law_jump_before_any_bgm_stops(bgm: Map<usize, String>, j: usize, current: Seq<char>)
    requires
        forall|k: usize| #[trigger] bgm.contains_key(k) ==> k > j,
    ensures
        pre_bgm_at(bgm, j, current) == PreBgm::Stop,
{
    lemma_latest_key_none(bgm.dom(), j);
}

/// Jumping to block `j` restores a clone of the background set up at `index`, when no
/// other background was set up between them.
pub proof fn law_jump_restores_background<C: Clone>(
    t: Timeline<C>,
    index: usize,
    j: usize,
    current: Seq<char>,
    r: PreItems<C>,
)
    requires
        pre_items_at(t, j, current, r),
        t.background_map().contains_key(index),
        index <= j,
        forall|k: usize| index < k <= j ==> !#[trigger] t.background_map().contains_key(k),
    ensures
        r.pre_bg matches Some(bg) && cloned(t.background_map()[index], bg),
{
    lemma_latest_key_unique(t.background_map().dom(), j, index);
}

/// Jumping to block `j` restores a clone of the figures set up at `index`, when no other
/// figures were set up between them.
pub proof fn law_jump_restores_figures<C: Clone>(
    t: Timeline<C>,
    index: usize,
    j: usize,
    current: Seq<char>,
    r: PreItems<C>,
)
    requires
        pre_items_at(t, j, current, r),
        t.figure_map().contains_key(index),
        index <= j,
        forall|k: usize| index < k <= j ==> !#[trigger] t.figure_map().contains_key(k),
    ensures
        r.pre_figures matches Some(f) && figures_cloned(t.figure_map()[index]@, f@),
{
    lemma_latest_key_unique(t.figure_map().dom(), j, index);
}

/// Jumping to a block before any background or figures were set up restores none.
pub proof fn law_jump_before_any_scene<C: Clone>(
    t: Timeline<C>,
    j: usize,
    current: Seq<char>,
    r: PreItems<C>,
)
    requires
        pre_items_at(t, j, current, r),
        forall|k: usize| #[trigger] t.background_map().contains_key(k) ==> k > j,
        forall|k: usize| #[trigger] t.figure_map().contains_key(k) ==> k > j,
    ensures
        r.pre_bg is None,
        r.pre_figures is None,
{
    lemma_latest_key_none(t.background_map().dom(), j);
    lemma_latest_key_none(t.figure_map().dom(), j);
}

/// A figure just put at a block can be taken back from that block: the source of the
/// place, seen from the block itself, is the block.
pub proof fn law_put_figure_can_be_taken<C>(
    before: Map<usize, Figure<C>>,
    after: Map<usize, Figure<C>>,
    index: usize,
    key: Seq<char>,
    command: C,
)
    requires
        figure_put(before, after, index, key, command),
    ensures
        figure_source(after, index, key, index),
        figure_source_of(after, index, key) == index,
{
    assert(figure_source(after, index, key, index));
    lemma_figure_source_unique(after, index, key, index);
}

/// Taking back a figure just put at a block hands back the figure that was put, and leaves
/// the block as it was, less that place.
pub proof fn law_put_then_take_figure<C>(
    first: Map<usize, Figure<C>>,
    second: Map<usize, Figure<C>>,
    third: Map<usize, Figure<C>>,
    index: usize,
    key: Seq<char>,
    command: C,
    r: C,
)
    requires
        figure_put(first, second, index, key, command),
        figure_taken(second, third, index, key, r),
    ensures
        r == command,
        third.contains_key(index),
        third.remove(index) == first.remove(index),
        third[index]@ == (if first.contains_key(index) {
            first[index]@
        } else {
            Map::<Seq<char>, C>::empty()
        }).remove(key),
{
    law_put_figure_can_be_taken(first, second, index, key, command);
    let base = if first.contains_key(index) {
        first[index]@
    } else {
        Map::<Seq<char>, C>::empty()
    };
    assert(base.insert(key, command).remove(key) =~= base.remove(key));
}

/// Two figures put at one block, at the same position but at different distances, are both
/// kept, each at its own place, and taking back the one at a distance hands back that one.
pub proof fn law_figures_at_two_distances_are_both_kept<C>(
    first: Map<usize, Figure<C>>,
    second: Map<usize, Figure<C>>,
    third: Map<usize, Figure<C>>,
    fourth: Map<usize, Figure<C>>,
    index: usize,
    near: Seq<char>,
    far: Seq<char>,
    position: Seq<char>,
    near_figure: C,
    far_figure: C,
    taken: C,
)
    requires
        near != far,
        figure_put(first, second, index, figure_key(near, position), near_figure),
        figure_put(second, third, index, figure_key(far, position), far_figure),
        figure_taken(third, fourth, index, figure_key(near, position), taken),
    ensures
        third[index]@.contains_key(figure_key(near, position)),
        third[index]@.contains_key(figure_key(far, position)),
        third[index]@[figure_key(near, position)] == near_figure,
        third[index]@[figure_key(far, position)] == far_figure,
        taken == near_figure,
        fourth[index]@.contains_key(figure_key(far, position)),
        fourth[index]@[figure_key(far, position)] == far_figure,
{
    let kn = figure_key(near, position);
    let kf = figure_key(far, position);
    crate::script::figure::law_distinct_distances_distinct_places(near, far, position);
    assert(kn != kf);
    assert(third[index]@.contains_key(kn));
    assert(figure_source(third, index, kn, index));
    lemma_figure_source_unique(third, index, kn, index);
}

/// Block `i` is where the figure at `pos`, as seen from block `index`, was put: the last
/// block at or before `index` whose figures have one at `pos`.
pub open spec fn figure_source<C>(
    figs: Map<usize, Figure<C>>,
    index: usize,
    pos: Seq<char>,
    i: usize,
) -> bool {
    &&& i <= index
    &&& figs.contains_key(i)
    &&& figs[i]@.contains_key(pos)
    &&& forall|j: usize|
        i < j <= index && #[trigger] figs.contains_key(j) ==> !figs[j]@.contains_key(pos)
}

/// The block that `figure_source` names.
pub open spec fn figure_source_of<C>(
    figs: Map<usize, Figure<C>>,
    index: usize,
    pos: Seq<char>,
) -> usize {
    choose|i: usize| figure_source(figs, index, pos, i)
}

/// At most one block is the source of a figure.
pub proof fn lemma_figure_source_unique<C>(
    figs: Map<usize, Figure<C>>,
    index: usize,
    pos: Seq<char>,
    i: usize,
)
    requires
        figure_source(figs, index, pos, i),
    ensures
        figure_source_of(figs, index, pos) == i,
{
    let c = figure_source_of(figs, index, pos);
    assert(figure_source(figs, index, pos, c));
    if c < i {
        assert(figs.contains_key(i));
    } else if i < c {
        assert(figs.contains_key(c));
    }
}

} // verus!
