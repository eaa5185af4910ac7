//! Undo/redo history: two stacks of operation groups.

use crate::canvas::{spec_pixel_at, spec_with_pixel, Canvas};
use crate::color::Rgb;
use vstd::prelude::*;

verus! {

/// One pixel change: where it happened, the colour before and after.
#[derive(Clone, Copy, Debug, PartialEq, Eq)]
pub struct HistoryEntry {
    /// Column of the changed pixel.
    pub x: u16,
    /// Row of the changed pixel.
    pub y: u16,
    /// Colour before the change (`None`: the pixel was empty).
    pub old_color: Option<Rgb>,
    /// Colour after the change (`None`: the pixel was erased).
    pub new_color: Option<Rgb>,
}

/// The undo and redo stacks. Each element is one operation: the group of
/// pixel changes made by a single action or a single mouse stroke.
pub struct History {
    undo_stack: Vec<Vec<HistoryEntry>>,
    redo_stack: Vec<Vec<HistoryEntry>>,
}

/// The model of a history: the undo stack and the redo stack, tops last.
pub struct HistoryModel {
    pub undo: Seq<Seq<HistoryEntry>>,
    pub redo: Seq<Seq<HistoryEntry>>,
}

impl View for History {
    type V = HistoryModel;

    closed spec fn view(&self) -> HistoryModel {
        HistoryModel {
            undo: self.undo_stack@.map_values(|g: Vec<HistoryEntry>| g@),
            redo: self.redo_stack@.map_values(|g: Vec<HistoryEntry>| g@),
        }
    }
}

/// The history after recording the group `g`: an empty group changes
/// nothing; otherwise `g` goes on top of the undo stack and the redo stack
/// is emptied.
pub open spec fn spec_after_push(h: HistoryModel, g: Seq<HistoryEntry>) -> HistoryModel {
    if g.len() == 0 {
        h
    } else {
        HistoryModel { undo: h.undo.push(g), redo: Seq::empty() }
    }
}

/// The history after an undo: the top undo group moves to the redo stack.
pub open spec fn spec_after_undo(h: HistoryModel) -> HistoryModel {
    if h.undo.len() == 0 {
        h
    } else {
        HistoryModel { undo: h.undo.drop_last(), redo: h.redo.push(h.undo.last()) }
    }
}

/// The history after a redo: the top redo group moves back to the undo stack.
pub open spec fn spec_after_redo(h: HistoryModel) -> HistoryModel {
    if h.redo.len() == 0 {
        h
    } else {
        HistoryModel { undo: h.undo.push(h.redo.last()), redo: h.redo.drop_last() }
    }
}

/// Copies a group of entries.
fn copy_group(g: &Vec<HistoryEntry>) -> (r: Vec<HistoryEntry>)
    ensures
        r@ == g@,
{
    let mut r: Vec<HistoryEntry> = Vec::new();
    let mut i: usize = 0;
    while i < g.len()
        invariant
            i <= g.len(),
            r@ == g@.take(i as int),
        decreases g.len() - i,
    {
        r.push(g[i]);
        i = i + 1;
        assert(r@ =~= g@.take(i as int));
    }
    assert(g@.take(g.len() as int) =~= g@);
    r
}

impl History {
    /// An empty history.
    pub fn new() -> (h: Self)
        ensures
            h@.undo == Seq::<Seq<HistoryEntry>>::empty(),
            h@.redo == Seq::<Seq<HistoryEntry>>::empty(),
    {
        let h = History { undo_stack: Vec::new(), redo_stack: Vec::new() };
        assert(h@.undo =~= Seq::<Seq<HistoryEntry>>::empty());
        assert(h@.redo =~= Seq::<Seq<HistoryEntry>>::empty());
        h
    }

    /// Records one operation. An empty group is ignored; otherwise it goes on
    /// the undo stack and every redoable operation is discarded.
    pub fn push_undo(&mut self, entries: Vec<HistoryEntry>)
        ensures
            final(self)@ == spec_after_push(old(self)@, entries@),
    {
        if entries.len() == 0 {
            return ;
        }
        let ghost g = entries@;
        self.undo_stack.push(entries);
        self.redo_stack.clear();
        assert(self@.undo =~= old(self)@.undo.push(g));
        assert(self@.redo =~= Seq::<Seq<HistoryEntry>>::empty());
    }

    /// Takes back the most recent operation: returns its group (to be rolled
    /// back) and moves it to the redo stack; `None` when there is nothing to
    /// undo.
    pub fn undo(&mut self) -> (r: Option<Vec<HistoryEntry>>)
        ensures
            final(self)@ == spec_after_undo(old(self)@),
            old(self)@.undo.len() == 0 ==> r is None,
            old(self)@.undo.len() > 0 ==> (r matches Some(g) && g@ == old(self)@.undo.last()),
    {
        match self.undo_stack.pop() {
            None => None,
            Some(entries) => {
                let copy = copy_group(&entries);
                self.redo_stack.push(copy);
                assert(self@.undo =~= old(self)@.undo.drop_last());
                assert(self@.redo =~= old(self)@.redo.push(old(self)@.undo.last()));
                Some(entries)
            },
        }
    }

    /// Replays the most recently undone operation: returns its group (to be
    /// applied again) and moves it back to the undo stack; `None` when there
    /// is nothing to redo.
    pub fn redo(&mut self) -> (r: Option<Vec<HistoryEntry>>)
        ensures
            final(self)@ == spec_after_redo(old(self)@),
            old(self)@.redo.len() == 0 ==> r is None,
            old(self)@.redo.len() > 0 ==> (r matches Some(g) && g@ == old(self)@.redo.last()),
    {
        match self.redo_stack.pop() {
            None => None,
            Some(entries) => {
                let copy = copy_group(&entries);
                self.undo_stack.push(copy);
                assert(self@.redo =~= old(self)@.redo.drop_last());
                assert(self@.undo =~= old(self)@.undo.push(old(self)@.redo.last()));
                Some(entries)
            },
        }
    }

    /// Forgets every operation.
    pub fn clear(&mut self)
        ensures
            final(self)@.undo == Seq::<Seq<HistoryEntry>>::empty(),
            final(self)@.redo == Seq::<Seq<HistoryEntry>>::empty(),
    {
        self.undo_stack.clear();
        self.redo_stack.clear();
        assert(self@.undo =~= Seq::<Seq<HistoryEntry>>::empty());
        assert(self@.redo =~= Seq::<Seq<HistoryEntry>>::empty());
    }

    /// Whether there is an operation to undo.
    pub fn can_undo(&self) -> (r: bool)
        ensures
            r == (self@.undo.len() > 0),
    {
        self.undo_stack.len() > 0
    }

    /// Whether there is an operation to redo.
    pub fn can_redo(&self) -> (r: bool)
        ensures
            r == (self@.redo.len() > 0),
    {
        self.redo_stack.len() > 0
    }
}

/// Undoing an operation and then redoing it leaves the history as it was.
pub proof fn law_redo_after_undo(h: HistoryModel)
    requires
        h.undo.len() > 0,
    ensures
        spec_after_redo(spec_after_undo(h)) == h,
{
    let u = spec_after_undo(h);
    assert(u.redo.last() == h.undo.last());
    assert(u.undo.push(u.redo.last()) =~= h.undo);
    assert(u.redo.drop_last() =~= h.redo);
}

/// Redoing an operation and then undoing it leaves the history as it was.
pub proof fn law_undo_after_redo(h: HistoryModel)
    requires
        h.redo.len() > 0,
    ensures
        spec_after_undo(spec_after_redo(h)) == h,
{
    let r = spec_after_redo(h);
    assert(r.undo.drop_last() =~= h.undo);
    assert(r.redo.push(r.undo.last()) =~= h.redo);
}

/// Recording a non-empty operation leaves nothing to redo, and an undo
/// right after gives that operation back.
pub proof fn law_push_then_undo(h: HistoryModel, g: Seq<HistoryEntry>)
    requires
        g.len() > 0,
    ensures
        spec_after_push(h, g).redo.len() == 0,
        spec_after_push(h, g).undo.last() == g,
        spec_after_undo(spec_after_push(h, g)).undo == h.undo,
        spec_after_undo(spec_after_push(h, g)).redo == seq![g],
{
    let p = spec_after_push(h, g);
    assert(p.undo.drop_last() =~= h.undo);
    assert(Seq::<Seq<HistoryEntry>>::empty().push(g) =~= seq![g]);
}

/// A canvas model after applying the changes of `es` in order, each entry
/// setting its pixel to its new colour (what a redo does).
pub open spec fn spec_apply_forward(m: Map<(u16, u16), Rgb>, es: Seq<HistoryEntry>) -> Map<
    (u16, u16),
    Rgb,
>
    decreases es.len(),
{
    if es.len() == 0 {
        m
    } else {
        let e = es.last();
        spec_with_pixel(spec_apply_forward(m, es.drop_last()), (e.x, e.y), e.new_color)
    }
}

/// A canvas model after rolling back the changes of `es`, the last entry
/// first, each entry setting its pixel to its old colour (what an undo does).
pub open spec fn spec_apply_backward(m: Map<(u16, u16), Rgb>, es: Seq<HistoryEntry>) -> Map<
    (u16, u16),
    Rgb,
>
    decreases es.len(),
{
    if es.len() == 0 {
        m
    } else {
        let e = es.first();
        spec_with_pixel(spec_apply_backward(m, es.drop_first()), (e.x, e.y), e.old_color)
    }
}

/// `es` was recorded while painting on `m`: each entry's old colour is the
/// colour its pixel had just before that entry's change.
pub open spec fn spec_recorded_on(m: Map<(u16, u16), Rgb>, es: Seq<HistoryEntry>) -> bool {
    forall|i: int|
        0 <= i < es.len() ==> #[trigger] es[i].old_color == spec_pixel_at(
            spec_apply_forward(m, es.take(i)),
            (es[i].x, es[i].y),
        )
}

/// Rolls the changes of `entries` back on `canvas`, the last change first.
pub fn roll_back(canvas: &mut Canvas, entries: &Vec<HistoryEntry>)
    ensures
        final(canvas)@ == spec_apply_backward(old(canvas)@, entries@),
{
    let ghost start = canvas@;
    let mut i: usize = entries.len();
    while i > 0
        invariant
            i <= entries.len(),
            canvas@ == spec_apply_backward(start, entries@.subrange(i as int, entries@.len() as int)),
        decreases i,
    {
        let e = entries[i - 1];
        canvas.set_pixel(e.x, e.y, e.old_color);
        assert(entries@.subrange(i - 1, entries@.len() as int).drop_first() =~= entries@.subrange(
            i as int,
            entries@.len() as int,
        ));
        i = i - 1;
    }
    assert(entries@.subrange(0, entries@.len() as int) =~= entries@);
}

/// Applies the changes of `entries` to `canvas`, in order.
pub fn replay(canvas: &mut Canvas, entries: &Vec<HistoryEntry>)
    ensures
        final(canvas)@ == spec_apply_forward(old(canvas)@, entries@),
{
    let ghost start = canvas@;
    let mut i: usize = 0;
    while i < entries.len()
        invariant
            i <= entries.len(),
            canvas@ == spec_apply_forward(start, entries@.take(i as int)),
        decreases entries.len() - i,
    {
        let e = entries[i];
        canvas.set_pixel(e.x, e.y, e.new_color);
        assert(entries@.take(i + 1).drop_last() =~= entries@.take(i as int));
        i = i + 1;
    }
    assert(entries@.take(entries@.len() as int) =~= entries@);
}

/// Setting a pixel and then restoring its previous colour gives the model back.
pub proof fn lemma_restore_pixel(m: Map<(u16, u16), Rgb>, p: (u16, u16), c: Option<Rgb>)
    ensures
        spec_with_pixel(spec_with_pixel(m, p, c), p, spec_pixel_at(m, p)) == m,
{
    assert(spec_with_pixel(spec_with_pixel(m, p, c), p, spec_pixel_at(m, p)) =~= m);
}

/// Rolling back `s` followed by `e` rolls back `e` first, then `s`.
pub proof fn lemma_backward_push(m: Map<(u16, u16), Rgb>, s: Seq<HistoryEntry>, e: HistoryEntry)
    ensures
        spec_apply_backward(m, s.push(e)) == spec_apply_backward(
            spec_with_pixel(m, (e.x, e.y), e.old_color),
            s,
        ),
    decreases s.len(),
{
    let m2 = spec_with_pixel(m, (e.x, e.y), e.old_color);
    if s.len() == 0 {
        assert(s.push(e).drop_first() =~= Seq::<HistoryEntry>::empty());
        assert(spec_apply_backward(m, s.push(e).drop_first()) == m);
        assert(spec_apply_backward(m2, s) == m2);
    } else {
        assert(s.push(e).drop_first() =~= s.drop_first().push(e));
        assert(s.push(e).first() == s.first());
        lemma_backward_push(m, s.drop_first(), e);
        assert(spec_apply_backward(m2, s) == spec_with_pixel(
            spec_apply_backward(m2, s.drop_first()),
            (s.first().x, s.first().y),
            s.first().old_color,
        ));
    }
}

/// Applying a group that was recorded on `m` and then rolling it back gives
/// `m` again: an undo exactly reverses the operation it takes back.
pub proof fn law_undo_reverses_apply(m: Map<(u16, u16), Rgb>, es: Seq<HistoryEntry>)
    requires
        spec_recorded_on(m, es),
    ensures
        spec_apply_backward(spec_apply_forward(m, es), es) == m,
    decreases es.len(),
{
    if es.len() > 0 {
        let s = es.drop_last();
        let e = es.last();
        assert(es =~= s.push(e));
        assert forall|i: int| 0 <= i < s.len() implies #[trigger] s[i].old_color == spec_pixel_at(
            spec_apply_forward(m, s.take(i)),
            (s[i].x, s[i].y),
        ) by {
            assert(s.take(i) =~= es.take(i));
            assert(es[i] == s[i]);
        }
        law_undo_reverses_apply(m, s);
        let f = spec_apply_forward(m, s);
        assert(es.take(es.len() - 1) =~= s);
        assert(es[es.len() - 1].old_color == spec_pixel_at(f, (e.x, e.y)));
        lemma_backward_push(spec_apply_forward(m, es), s, e);
        lemma_restore_pixel(f, (e.x, e.y), e.new_color);
    }
}

/// The canvas model after applying the groups of an undo stack, bottom
/// first, to `base`.
pub open spec fn spec_replay_all(base: Map<(u16, u16), Rgb>, groups: Seq<Seq<HistoryEntry>>) -> Map<
    (u16, u16),
    Rgb,
>
    decreases groups.len(),
{
    if groups.len() == 0 {
        base
    } else {
        spec_apply_forward(spec_replay_all(base, groups.drop_last()), groups.last())
    }
}

/// The groups of an undo stack were recorded one after the other starting
/// from `base`: each on the canvas that the groups below it produce.
pub open spec fn spec_undo_chain(base: Map<(u16, u16), Rgb>, groups: Seq<Seq<HistoryEntry>>) -> bool
    decreases groups.len(),
{
    groups.len() == 0 || (spec_undo_chain(base, groups.drop_last()) && spec_recorded_on(
        spec_replay_all(base, groups.drop_last()),
        groups.last(),
    ))
}

/// The groups of a redo stack can be replayed from `top`, the top group
/// first: each was recorded on the canvas that redoing the ones above it
/// produces.
pub open spec fn spec_redo_chain(top: Map<(u16, u16), Rgb>, groups: Seq<Seq<HistoryEntry>>) -> bool
    decreases groups.len(),
{
    groups.len() == 0 || (spec_recorded_on(top, groups.last()) && spec_redo_chain(
        spec_apply_forward(top, groups.last()),
        groups.drop_last(),
    ))
}

/// Pushing a group on an undo stack: the replayed canvas gains that group's
/// changes, and the stack is a chain exactly when the stack below is one and
/// the group was recorded on the canvas that the stack below produces.
pub proof fn lemma_undo_chain_push(
    base: Map<(u16, u16), Rgb>,
    groups: Seq<Seq<HistoryEntry>>,
    g: Seq<HistoryEntry>,
)
    ensures
        spec_replay_all(base, groups.push(g)) == spec_apply_forward(spec_replay_all(base, groups), g),
        spec_undo_chain(base, groups.push(g)) == (spec_undo_chain(base, groups) && spec_recorded_on(
            spec_replay_all(base, groups),
            g,
        )),
{
    assert(groups.push(g).drop_last() =~= groups);
    assert(groups.push(g).last() == g);
}

/// Pushing a group on a redo stack: the stack is a chain from `top` exactly
/// when the group was recorded on `top` and the stack below is a chain from
/// the canvas that the group produces.
pub proof fn lemma_redo_chain_push(
    top: Map<(u16, u16), Rgb>,
    groups: Seq<Seq<HistoryEntry>>,
    g: Seq<HistoryEntry>,
)
    ensures
        spec_redo_chain(top, groups.push(g)) == (spec_recorded_on(top, g) && spec_redo_chain(
            spec_apply_forward(top, g),
            groups,
        )),
{
    assert(groups.push(g).drop_last() =~= groups);
    assert(groups.push(g).last() == g);
}

/// Undoing a recorded group and redoing it gives back the painted canvas.
pub proof fn law_redo_reapplies(m: Map<(u16, u16), Rgb>, es: Seq<HistoryEntry>)
    requires
        spec_recorded_on(m, es),
    ensures
        spec_apply_forward(spec_apply_backward(spec_apply_forward(m, es), es), es)
            == spec_apply_forward(m, es),
{
    law_undo_reverses_apply(m, es);
}

/// Whether some change of `es` is at pixel `p`.
pub open spec fn spec_touches(es: Seq<HistoryEntry>, p: (u16, u16)) -> bool {
    exists|i: int| 0 <= i < es.len() && #[trigger] es[i].x == p.0 && es[i].y == p.1
}

/// Applying `es` leaves the pixels it does not touch as they were, and sets
/// the pixels it touches independently of what they showed before.
pub proof fn lemma_forward_at(
    m1: Map<(u16, u16), Rgb>,
    m2: Map<(u16, u16), Rgb>,
    es: Seq<HistoryEntry>,
    p: (u16, u16),
)
    ensures
        !spec_touches(es, p) ==> spec_pixel_at(spec_apply_forward(m1, es), p) == spec_pixel_at(m1, p),
        spec_touches(es, p) ==> spec_pixel_at(spec_apply_forward(m1, es), p) == spec_pixel_at(
            spec_apply_forward(m2, es),
            p,
        ),
    decreases es.len(),
{
    if es.len() > 0 {
        let e = es.last();
        let s = es.drop_last();
        lemma_forward_at(m1, m2, s, p);
        crate::canvas::law_get_after_set(spec_apply_forward(m1, s), (e.x, e.y), e.new_color, p);
        crate::canvas::law_get_after_set(spec_apply_forward(m2, s), (e.x, e.y), e.new_color, p);
        if (e.x, e.y) != p {
            if spec_touches(es, p) {
                let i = choose|i: int| 0 <= i < es.len() && #[trigger] es[i].x == p.0 && es[i].y == p.1;
                assert(i < s.len());
                assert(s[i] == es[i]);
            }
            if spec_touches(s, p) {
                let i = choose|i: int| 0 <= i < s.len() && #[trigger] s[i].x == p.0 && s[i].y == p.1;
                assert(es[i] == s[i]);
            }
        } else {
            assert(es[es.len() - 1] == e);
        }
    }
}

/// Rolling `es` back leaves the pixels it does not touch as they were.
pub proof fn lemma_backward_untouched(m: Map<(u16, u16), Rgb>, es: Seq<HistoryEntry>, p: (u16, u16))
    requires
        !spec_touches(es, p),
    ensures
        spec_pixel_at(spec_apply_backward(m, es), p) == spec_pixel_at(m, p),
    decreases es.len(),
{
    if es.len() > 0 {
        let e = es.first();
        let s = es.drop_first();
        assert(!spec_touches(s, p)) by {
            if spec_touches(s, p) {
                let i = choose|i: int| 0 <= i < s.len() && #[trigger] s[i].x == p.0 && s[i].y == p.1;
                assert(es[i + 1] == s[i]);
            }
        }
        assert(es[0] == e);
        lemma_backward_untouched(m, s, p);
        crate::canvas::law_get_after_set(spec_apply_backward(m, s), (e.x, e.y), e.old_color, p);
    }
}

/// Rolling a group back and applying it again gives back any canvas that
/// shows that group applied (whatever it was applied to).
pub proof fn law_reapply_after_roll_back(m: Map<(u16, u16), Rgb>, es: Seq<HistoryEntry>)
    ensures
        spec_apply_forward(spec_apply_backward(spec_apply_forward(m, es), es), es)
            == spec_apply_forward(m, es),
{
    let f = spec_apply_forward(m, es);
    let b = spec_apply_backward(f, es);
    let r = spec_apply_forward(b, es);
    assert forall|p: (u16, u16)| #[trigger] spec_pixel_at(r, p) == spec_pixel_at(f, p) by {
        lemma_forward_at(b, m, es, p);
        lemma_forward_at(m, b, es, p);
        if !spec_touches(es, p) {
            lemma_backward_untouched(f, es, p);
        }
    }
    assert forall|p: (u16, u16)| #[trigger] r.contains_key(p) == f.contains_key(p) by {
        assert(spec_pixel_at(r, p) == spec_pixel_at(f, p));
    }
    assert(r.dom() =~= f.dom());
    assert forall|p: (u16, u16)| r.contains_key(p) implies #[trigger] r[p] == f[p] by {
        assert(spec_pixel_at(r, p) == spec_pixel_at(f, p));
    }
    assert(r =~= f);
}

} // verus!
