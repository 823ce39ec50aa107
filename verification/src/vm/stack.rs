//! The call frames of the machine and its global variables.

use vstd::prelude::*;
use crate::bytecode::{ThetaValue, ValView};
use super::names::NameTable;

verus! {

/// The values of a sequence, seen mathematically.
pub open spec fn values_view(s: Seq<ThetaValue>) -> Seq<ValView> {
    s.map_values(|v: ThetaValue| v@)
}

/// A slot of a frame, seen mathematically.
pub open spec fn slot_view(o: Option<ThetaValue>) -> Option<ValView> {
    match o {
        Some(v) => Some(v@),
        None => None,
    }
}

/// A borrowed value, if there is one, seen mathematically.
pub open spec fn ref_view(o: Option<&ThetaValue>) -> Option<ValView> {
    match o {
        Some(v) => Some(v@),
        None => None,
    }
}

/// The slots of a frame, seen mathematically.
pub open spec fn slots_view(s: Seq<Option<ThetaValue>>) -> Seq<Option<ValView>> {
    s.map_values(|o: Option<ThetaValue>| slot_view(o))
}

/// A call frame seen mathematically: its parameters, its return address and its
/// slots, which hold the locals and, above them, the values being computed with.
pub struct FrameView {
    pub params: Seq<ValView>,
    pub rip: nat,
    pub locals: Seq<Option<ValView>>,
}

/// The frame that a call with `params` starts with.
pub open spec fn fresh_call(params: Seq<ValView>) -> FrameView {
    FrameView { params, rip: 0, locals: seq![] }
}

/// The frame of one call.
#[derive(Debug)]
pub struct ThetaCallFrame {
    params: Vec<ThetaValue>,
    rip: usize,
    locals: Vec<Option<ThetaValue>>,
}

impl View for ThetaCallFrame {
    type V = FrameView;

    closed spec fn view(&self) -> FrameView {
        FrameView { params: values_view(self.params@), rip: self.rip as nat, locals: slots_view(self.locals@) }
    }
}

impl ThetaCallFrame {
    /// A frame for a call with `params`, with room kept for `locals_required` slots.
    pub fn new(params: Vec<ThetaValue>, locals_required: usize) -> (r: ThetaCallFrame)
        ensures
            r@ == fresh_call(values_view(params@)),
    {
        let locals: Vec<Option<ThetaValue>> = Vec::with_capacity(locals_required);
        let r = ThetaCallFrame { params, rip: 0, locals };
        assert(slots_view(r.locals@) =~= seq![]);
        r
    }
}

/// The call stack seen mathematically: the global variables and the frames,
/// innermost last.
pub struct StackView {
    pub globals: Map<Seq<char>, ValView>,
    pub frames: Seq<FrameView>,
}

impl StackView {
    /// The innermost frame.
    pub open spec fn top(self) -> FrameView {
        self.frames.last()
    }

    /// The stack with its innermost frame replaced by `f`.
    pub open spec fn with_top(self, f: FrameView) -> StackView {
        StackView { frames: self.frames.update(self.frames.len() - 1, f), ..self }
    }

    /// The stack with the innermost frame's slots replaced by `locals`.
    pub open spec fn with_locals(self, locals: Seq<Option<ValView>>) -> StackView {
        self.with_top(FrameView { locals, ..self.top() })
    }

    /// The stack after `v` is pushed onto the innermost frame.
    pub open spec fn pushed(self, v: ValView) -> StackView {
        self.with_locals(self.top().locals.push(Some(v)))
    }

    /// What the top slot of the innermost frame holds, if there is one.
    pub open spec fn peeked(self) -> Option<ValView> {
        if self.top().locals.len() == 0 {
            None
        } else {
            self.top().locals.last()
        }
    }

    /// The stack after the top slot of the innermost frame is taken off (nothing
    /// changes where there is none).
    pub open spec fn popped(self) -> StackView {
        if self.top().locals.len() == 0 {
            self
        } else {
            self.with_locals(self.top().locals.drop_last())
        }
    }

    /// The values in the two top slots of the innermost frame, the upper one
    /// second, where both slots hold one.
    pub open spec fn top_pair(self) -> Option<(ValView, ValView)> {
        let l = self.top().locals;
        if l.len() >= 2 && l[l.len() - 2] is Some && l[l.len() - 1] is Some {
            Some((l[l.len() - 2]->0, l[l.len() - 1]->0))
        } else {
            None
        }
    }

    /// The stack with the two top slots of the innermost frame taken off.
    pub open spec fn without_top_pair(self) -> StackView {
        let l = self.top().locals;
        self.with_locals(l.subrange(0, l.len() - 2))
    }

    /// What slot `li` of the innermost frame holds, if it exists and holds a value.
    pub open spec fn local(self, li: int) -> Option<ValView> {
        if 0 <= li < self.top().locals.len() {
            self.top().locals[li]
        } else {
            None
        }
    }
}

/// The stack that a machine starts with: one frame and no globals.
pub open spec fn initial_stack() -> StackView {
    StackView { globals: Map::empty(), frames: seq![fresh_call(seq![])] }
}

/// The call stack of the machine and its global variables.
#[derive(Debug)]
pub struct ThetaStack {
    globals: NameTable<ThetaValue>,
    frames: Vec<ThetaCallFrame>,
}

impl View for ThetaStack {
    type V = StackView;

    closed spec fn view(&self) -> StackView {
        StackView {
            globals: self.globals@.map_values(|v: ThetaValue| v@),
            frames: self.frames@.map_values(|f: ThetaCallFrame| f@),
        }
    }
}

impl ThetaStack {
    /// The table of globals keeps each name once.
    pub closed spec fn wf(&self) -> bool {
        self.globals.wf()
    }

    pub fn new() -> (r: ThetaStack)
        ensures
            r.wf(),
            r@ == initial_stack(),
    {
        let frame = ThetaCallFrame::new(Vec::new(), 0);
        assert(frame@.params =~= seq![]);
        assert(frame@ == fresh_call(seq![]));
        let r = ThetaStack { globals: NameTable::new(), frames: vec![frame] };
        assert(r@.globals =~= Map::<Seq<char>, ValView>::empty());
        assert(r@.frames =~= seq![fresh_call(seq![])]);
        r
    }

    /// The innermost frame, if there is one.
    pub fn curr_frame(&self) -> (r: Option<&ThetaCallFrame>)
        ensures
            r is Some <==> self@.frames.len() > 0,
            r is Some ==> r->0@ == self@.top(),
    {
        if self.frames.len() == 0 {
            None
        } else {
            Some(&self.frames[self.frames.len() - 1])
        }
    }

    /// Enters a call with `params`.
    pub fn push_frame(&mut self, params: Vec<ThetaValue>, locals_required: usize)
        ensures
            final(self).wf() == old(self).wf(),
            final(self)@ == (StackView {
                frames: old(self)@.frames.push(fresh_call(values_view(params@))),
                ..old(self)@
            }),
    {
        let f = ThetaCallFrame::new(params, locals_required);
        self.frames.push(f);
        assert(self@.frames =~= old(self)@.frames.push(fresh_call(values_view(params@))));
    }

    /// Leaves the innermost call, giving back its frame.
    pub fn pop_frame(&mut self) -> (r: Option<ThetaCallFrame>)
        ensures
            final(self).wf() == old(self).wf(),
            old(self)@.frames.len() == 0 ==> r is None && final(self)@ == old(self)@,
            old(self)@.frames.len() > 0 ==> r is Some && r->0@ == old(self)@.top()
                && final(self)@ == (StackView { frames: old(self)@.frames.drop_last(), ..old(self)@ }),
    {
        let r = self.frames.pop();
        proof {
            if old(self)@.frames.len() > 0 {
                assert(self@.frames =~= old(self)@.frames.drop_last());
            }
        }
        r
    }

    /// Leaves only a fresh outermost frame.
    pub fn clean_frame(&mut self)
        ensures
            final(self).wf() == old(self).wf(),
            final(self)@ == (StackView { frames: seq![fresh_call(seq![])], ..old(self)@ }),
    {
        let frame = ThetaCallFrame::new(Vec::new(), 0);
        assert(frame@.params =~= seq![]);
        assert(frame@ == fresh_call(seq![]));
        self.frames = vec![frame];
        assert(self@.frames =~= seq![fresh_call(seq![])]);
    }

    /// Adds `size` empty slots to the innermost frame.
    pub fn alloc_framespace(&mut self, size: usize)
        requires
            old(self)@.frames.len() > 0,
            old(self)@.top().locals.len() + size <= usize::MAX,
        ensures
            final(self).wf() == old(self).wf(),
            final(self)@ == old(self)@.with_locals(
                old(self)@.top().locals + Seq::new(size as nat, |i: int| None::<ValView>),
            ),
    {
        let n = self.frames.len() - 1;
        let ghost before = self.frames@[n as int].locals@;
        let mut k: usize = 0;
        while k < size
            invariant
                n == self.frames@.len() - 1,
                n == old(self).frames@.len() - 1,
                k <= size,
                self.globals == old(self).globals,
                before == old(self).frames@[n as int].locals@,
                before.len() + size <= usize::MAX,
                forall|j: int| 0 <= j < n ==> self.frames@[j] == old(self).frames@[j],
                self.frames@[n as int].params == old(self).frames@[n as int].params,
                self.frames@[n as int].rip == old(self).frames@[n as int].rip,
                self.frames@[n as int].locals@ =~= before + Seq::new(k as nat, |i: int| None::<ThetaValue>),
            decreases size - k,
        {
            self.frames[n].locals.push(None);
            k = k + 1;
            assert(self.frames@[n as int].locals@ =~= before + Seq::new(k as nat, |i: int| None::<ThetaValue>));
        }
        let ghost want = old(self)@.with_locals(
            old(self)@.top().locals + Seq::new(size as nat, |i: int| None::<ValView>),
        );
        assert(slots_view(self.frames@[n as int].locals@) =~= want.top().locals);
        assert(self@.frames =~= want.frames);
    }

    /// Pushes `loc` onto the innermost frame.
    pub fn push(&mut self, loc: ThetaValue)
        requires
            old(self)@.frames.len() > 0,
        ensures
            final(self).wf() == old(self).wf(),
            final(self)@ == old(self)@.pushed(loc@),
    {
        let n = self.frames.len() - 1;
        self.frames[n].locals.push(Some(loc));
        let ghost want = old(self)@.pushed(loc@);
        assert(slots_view(self.frames@[n as int].locals@) =~= want.top().locals);
        assert(self@.frames =~= want.frames);
    }

    /// Takes the top slot off the innermost frame, giving back the value it held.
    pub fn pop(&mut self) -> (r: Option<ThetaValue>)
        requires
            old(self)@.frames.len() > 0,
        ensures
            final(self).wf() == old(self).wf(),
            slot_view(r) == old(self)@.peeked(),
            final(self)@ == old(self)@.popped(),
    {
        let n = self.frames.len() - 1;
        let slot = self.frames[n].locals.pop();
        let ghost want = old(self)@.popped();
        assert(slots_view(self.frames@[n as int].locals@) =~= want.top().locals);
        assert(self@.frames =~= want.frames);
        match slot {
            Some(v) => v,
            None => None,
        }
    }

    /// The value in the top slot of the innermost frame, if there is one.
    pub fn peek(&self) -> (r: Option<&ThetaValue>)
        requires
            self@.frames.len() > 0,
        ensures
            ref_view(r) == self@.peeked(),
    {
        let n = self.frames.len() - 1;
        let k = self.frames[n].locals.len();
        if k == 0 {
            None
        } else {
            match &self.frames[n].locals[k - 1] {
                Some(v) => Some(v),
                None => None,
            }
        }
    }

    /// The values in the two top slots of the innermost frame, as `top_pair` says.
    pub fn top_two(&self) -> (r: Option<(&ThetaValue, &ThetaValue)>)
        requires
            self@.frames.len() > 0,
        ensures
            match r {
                Some((a, b)) => self@.top_pair() == Some((a@, b@)),
                None => self@.top_pair() is None,
            },
    {
        let n = self.frames.len() - 1;
        let locals = &self.frames[n].locals;
        let k = locals.len();
        if k < 2 {
            return None;
        }
        match (&locals[k - 2], &locals[k - 1]) {
            (Some(a), Some(b)) => Some((a, b)),
            _ => None,
        }
    }

    /// The number of slots of the innermost frame.
    pub fn frame_len(&self) -> (r: usize)
        requires
            self@.frames.len() > 0,
        ensures
            r == self@.top().locals.len(),
    {
        self.frames[self.frames.len() - 1].locals.len()
    }

    /// Takes the two top slots off the innermost frame.
    pub fn drop_two(&mut self)
        requires
            old(self)@.frames.len() > 0,
            old(self)@.top().locals.len() >= 2,
        ensures
            final(self).wf() == old(self).wf(),
            final(self)@ == old(self)@.without_top_pair(),
    {
        let n = self.frames.len() - 1;
        self.frames[n].locals.pop();
        self.frames[n].locals.pop();
        let ghost want = old(self)@.without_top_pair();
        assert(slots_view(self.frames@[n as int].locals@) =~= want.top().locals);
        assert(self@.frames =~= want.frames);
    }

    /// Copies the value in the top slot of the innermost frame into slot `li`.
    pub fn set_local(&mut self, li: usize)
        requires
            old(self)@.frames.len() > 0,
            old(self)@.peeked() is Some,
            li < old(self)@.top().locals.len(),
        ensures
            final(self).wf() == old(self).wf(),
            final(self)@ == old(self)@.with_locals(
                old(self)@.top().locals.update(li as int, old(self)@.peeked()),
            ),
    {
        let tv = match self.peek() {
            Some(v) => v.duplicate(),
            None => {
                assert(false);
                ThetaValue::Bool(false)
            },
        };
        let n = self.frames.len() - 1;
        self.frames[n].locals.set(li, Some(tv));
        let ghost want = old(self)@.with_locals(
            old(self)@.top().locals.update(li as int, old(self)@.peeked()),
        );
        assert(slots_view(self.frames@[n as int].locals@) =~= want.top().locals);
        assert(self@.frames =~= want.frames);
    }

    /// The value in slot `li` of the innermost frame, if the slot exists and holds one.
    pub fn get_local(&self, li: usize) -> (r: Option<&ThetaValue>)
        requires
            self@.frames.len() > 0,
        ensures
            ref_view(r) == self@.local(li as int),
    {
        let n = self.frames.len() - 1;
        if li < self.frames[n].locals.len() {
            match &self.frames[n].locals[li] {
                Some(v) => Some(v),
                None => None,
            }
        } else {
            None
        }
    }

    /// The global variables.
    pub fn globals(&self) -> (r: &NameTable<ThetaValue>)
        ensures
            r@.map_values(|v: ThetaValue| v@) == self@.globals,
            r.wf() == self.wf(),
    {
        &self.globals
    }

    /// Gives the global `name` the value `value`.
    pub fn define_global(&mut self, name: String, value: ThetaValue)
        requires
            old(self).wf(),
        ensures
            final(self).wf(),
            final(self)@ == (StackView { globals: old(self)@.globals.insert(name@, value@), ..old(self)@ }),
    {
        self.globals.insert(name, value);
        assert(self@.globals =~= old(self)@.globals.insert(name@, value@));
    }

    /// The value of the global `name`, if it has one.
    pub fn get_global(&self, name: &String) -> (r: Option<&ThetaValue>)
        requires
            self.wf(),
        ensures
            r is Some <==> self@.globals.contains_key(name@),
            r is Some ==> r->0@ == self@.globals[name@],
    {
        self.globals.get(name)
    }
}

/// Pushing a value and taking it off again leaves the stack as it was, and the
/// value pushed is the one on top.
pub proof fn lemma_push_then_pop(s: StackView, v: ValView)
    requires
        s.frames.len() > 0,
    ensures
        s.pushed(v).peeked() == Some(v),
        s.pushed(v).popped() == s,
{
    let p = s.pushed(v);
    assert(p.top().locals =~= s.top().locals.push(Some(v)));
    assert(p.top().locals.drop_last() =~= s.top().locals);
    assert(p.popped().frames =~= s.frames);
}

} // verus!
