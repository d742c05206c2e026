use vstd::prelude::*;

verus! {

/// One change to the image that can be undone and redone. Frame-carrying
/// variants hold the frames that the change replaced.
pub enum UndoFrame<I> {
    Rotate(i32),
    FlipHorizontal,
    FlipVertical,
    Crop { frames: Vec<I>, rotation: i32 },
    Resize(Vec<I>),
    Color(Vec<I>),
    ColorSpace(Vec<I>),
}

/// A change edits the pixels (and must be saved), unlike a rotation or a flip.
pub open spec fn edits_pixels<I>(f: UndoFrame<I>) -> bool {
    match f {
        UndoFrame::Rotate(..) => false,
        UndoFrame::FlipHorizontal => false,
        UndoFrame::FlipVertical => false,
        _ => true,
    }
}

impl<I> UndoFrame<I> {
    /// True for the changes that edit the pixels.
    pub fn is_edit(&self) -> (r: bool)
        ensures
            r == edits_pixels(*self),
    {
        match self {
            UndoFrame::Rotate(..) => false,
            UndoFrame::FlipHorizontal => false,
            UndoFrame::FlipVertical => false,
            UndoFrame::Crop { .. } => true,
            UndoFrame::Resize(..) => true,
            UndoFrame::Color(..) => true,
            UndoFrame::ColorSpace(..) => true,
        }
    }
}

/// The abstract state of an [`UndoStack`]: the changes, oldest first; how
/// many of the newest have been undone; and whether the image is saved.
pub struct UndoStackView<I> {
    pub frames: Seq<UndoFrame<I>>,
    pub undone: int,
    pub saved: bool,
}

impl<I> UndoStackView<I> {
    pub open spec fn wf(self) -> bool {
        0 <= self.undone <= self.frames.len()
    }

    /// Position of the change the next undo reverts.
    pub open spec fn undo_position(self) -> int {
        self.frames.len() - self.undone - 1
    }

    /// Position of the change the next redo applies again.
    pub open spec fn redo_position(self) -> int {
        self.frames.len() - self.undone
    }
}

/// The state after pushing `f`: undone changes are dropped and `f` is newest.
pub open spec fn after_push<I>(v: UndoStackView<I>, f: UndoFrame<I>) -> UndoStackView<I> {
    UndoStackView {
        frames: v.frames.take(v.frames.len() - v.undone).push(f),
        undone: 0,
        saved: v.saved && !edits_pixels(f),
    }
}

/// The state after an undo, where the caller left `kept` in the reverted change.
pub open spec fn after_undo<I>(v: UndoStackView<I>, kept: UndoFrame<I>) -> UndoStackView<I> {
    UndoStackView {
        frames: v.frames.update(v.undo_position(), kept),
        undone: v.undone + 1,
        saved: v.saved && !edits_pixels(v.frames[v.undo_position()]),
    }
}

/// The state after a redo, where the caller left `kept` in the applied change.
pub open spec fn after_redo<I>(v: UndoStackView<I>, kept: UndoFrame<I>) -> UndoStackView<I> {
    UndoStackView {
        frames: v.frames.update(v.redo_position(), kept),
        undone: v.undone - 1,
        saved: v.saved && !edits_pixels(v.frames[v.redo_position()]),
    }
}

/// Whether some change is unsaved: there is a pixel edit and no save since.
pub open spec fn has_unsaved_edit<I>(v: UndoStackView<I>) -> bool {
    !v.saved && exists|i: int| 0 <= i < v.frames.len() && edits_pixels(#[trigger] v.frames[i])
}

/// The history of changes of the image on screen.
pub struct UndoStack<I> {
    stack: Vec<UndoFrame<I>>,
    index: usize,
    saved: bool,
}

impl<I> View for UndoStack<I> {
    type V = UndoStackView<I>;

    closed spec fn view(&self) -> UndoStackView<I> {
        UndoStackView { frames: self.stack@, undone: self.index as int, saved: self.saved }
    }
}

impl<I> UndoStack<I> {
    /// An empty, saved history.
    pub fn new() -> (r: UndoStack<I>)
        ensures
            r@.frames.len() == 0,
            r@.undone == 0,
            r@.saved,
    {
        UndoStack { stack: Vec::new(), index: 0, saved: true }
    }

    /// Forgets every change; the image counts as saved.
    pub fn clear(&mut self)
        ensures
            final(self)@.frames.len() == 0,
            final(self)@.undone == 0,
            final(self)@.saved,
    {
        self.stack.clear();
        self.index = 0;
        self.saved = true;
    }

    /// Records a change. Changes that were undone can no longer be redone.
    pub fn push(&mut self, frame: UndoFrame<I>)
        requires
            old(self)@.wf(),
        ensures
            final(self)@ == after_push(old(self)@, frame),
            final(self)@.wf(),
    {
        let keep = self.stack.len() - self.index;
        self.stack.truncate(keep);
        self.index = 0;
        if frame.is_edit() {
            self.saved = false;
        }
        self.stack.push(frame);
    }

    /// Steps back over the newest change not yet undone and hands it out, so
    /// that the caller can revert it (and keep what it replaces in it).
    pub fn undo(&mut self) -> (r: Option<&mut UndoFrame<I>>)
        requires
            old(self)@.wf(),
        ensures
            final(self)@.wf(),
            old(self)@.undone < old(self)@.frames.len() ==> {
                let i = old(self)@.undo_position();
                &&& r matches Some(f)
                &&& *f == old(self)@.frames[i]
                &&& final(self)@ == after_undo(old(self)@, *final(f))
            },
            old(self)@.undone >= old(self)@.frames.len() ==> r is None && final(self)@ == old(
                self,
            )@,
    {
        if self.stack.len() - self.index > 0 {
            self.index = self.index + 1;
            let index = self.stack.len() - self.index;
            if self.stack[index].is_edit() {
                self.saved = false;
            }
            Some(&mut self.stack[index])
        } else {
            None
        }
    }

    /// Steps forward over the oldest undone change and hands it out, so that
    /// the caller can apply it again.
    pub fn redo(&mut self) -> (r: Option<&mut UndoFrame<I>>)
        requires
            old(self)@.wf(),
        ensures
            final(self)@.wf(),
            old(self)@.undone > 0 ==> {
                let i = old(self)@.redo_position();
                &&& r matches Some(f)
                &&& *f == old(self)@.frames[i]
                &&& final(self)@ == after_redo(old(self)@, *final(f))
            },
            old(self)@.undone == 0 ==> r is None && final(self)@ == old(self)@,
    {
        if self.index > 0 {
            let index = self.stack.len() - self.index;
            self.index = self.index - 1;
            if self.stack[index].is_edit() {
                self.saved = false;
            }
            Some(&mut self.stack[index])
        } else {
            None
        }
    }

    /// The change the next undo hands out, if there is one.
    pub fn next_undo(&self) -> (r: Option<&UndoFrame<I>>)
        requires
            self@.wf(),
        ensures
            self@.undone < self@.frames.len() ==> r == Some(&self@.frames[self@.undo_position()]),
            self@.undone >= self@.frames.len() ==> r is None,
    {
        if self.stack.len() - self.index > 0 {
            Some(&self.stack[self.stack.len() - self.index - 1])
        } else {
            None
        }
    }

    /// The change the next redo hands out, if there is one.
    pub fn next_redo(&self) -> (r: Option<&UndoFrame<I>>)
        requires
            self@.wf(),
        ensures
            self@.undone > 0 ==> r == Some(&self@.frames[self@.redo_position()]),
            self@.undone == 0 ==> r is None,
    {
        if self.index > 0 {
            Some(&self.stack[self.stack.len() - self.index])
        } else {
            None
        }
    }

    /// True when the image has pixel edits that were not saved.
    pub fn is_edited(&self) -> (r: bool)
        ensures
            r == has_unsaved_edit(self@),
    {
        if self.saved {
            return false;
        }
        let mut i: usize = 0;
        while i < self.stack.len()
            invariant
                i <= self.stack.len(),
                !self.saved,
                forall|k: int| 0 <= k < i ==> !edits_pixels(#[trigger] self.stack@[k]),
            decreases self.stack.len() - i,
        {
            if self.stack[i].is_edit() {
                assert(edits_pixels(self@.frames[i as int]));
                return true;
            }
            i = i + 1;
        }
        false
    }

    /// Marks the image as saved.
    pub fn set_saved(&mut self)
        ensures
            final(self)@.frames == old(self)@.frames,
            final(self)@.undone == old(self)@.undone,
            final(self)@.saved,
    {
        self.saved = true;
    }
}

/// An undo right after a push hands out the pushed change.
pub proof fn undo_after_push_reverts_it<I>(v: UndoStackView<I>, f: UndoFrame<I>)
    requires
        v.wf(),
    ensures
        after_push(v, f).wf(),
        after_push(v, f).undone < after_push(v, f).frames.len(),
        after_push(v, f).frames[after_push(v, f).undo_position()] == f,
{
}

/// A redo right after an undo applies the same change again and returns to
/// the same point of the history.
pub proof fn redo_after_undo_returns<I>(v: UndoStackView<I>, kept: UndoFrame<I>, again: UndoFrame<I>)
    requires
        v.wf(),
        v.undone < v.frames.len(),
    ensures
        after_undo(v, kept).wf(),
        after_undo(v, kept).undone > 0,
        after_undo(v, kept).redo_position() == v.undo_position(),
        after_undo(v, kept).frames[v.undo_position()] == kept,
        after_redo(after_undo(v, kept), again).undone == v.undone,
        after_redo(after_undo(v, kept), again).frames == v.frames.update(v.undo_position(), again),
{
}

/// An undo right after a redo reverts the same change and returns to the
/// same point of the history.
pub proof fn undo_after_redo_returns<I>(v: UndoStackView<I>, kept: UndoFrame<I>, again: UndoFrame<I>)
    requires
        v.wf(),
        v.undone > 0,
    ensures
        after_redo(v, kept).wf(),
        after_redo(v, kept).undone < after_redo(v, kept).frames.len(),
        after_redo(v, kept).undo_position() == v.redo_position(),
        after_undo(after_redo(v, kept), again).undone == v.undone,
        after_undo(after_redo(v, kept), again).frames == v.frames.update(v.redo_position(), again),
{
}

/// A saved image has no unsaved edit, whatever its history.
pub proof fn saved_is_not_edited<I>(v: UndoStackView<I>)
    requires
        v.saved,
    ensures
        !has_unsaved_edit(v),
{
}

/// Pushing a pixel edit makes the image count as edited.
pub proof fn push_edit_marks_edited<I>(v: UndoStackView<I>, f: UndoFrame<I>)
    requires
        v.wf(),
        edits_pixels(f),
    ensures
        has_unsaved_edit(after_push(v, f)),
{
    let w = after_push(v, f);
    assert(edits_pixels(w.frames[w.frames.len() - 1]));
}

/// The changes that edit pixels are the crops, resizes, color changes and
/// color-space changes; rotations and flips only change how the image is shown.
pub proof fn pixel_edits_are_the_frame_edits<I>(f: UndoFrame<I>)
    ensures
        edits_pixels(f) <==> (f is Crop || f is Resize || f is Color || f is ColorSpace),
{
}

/// Redoing a pixel edit changes the pixels again: the image is unsaved
/// afterwards, even when it was saved just before, and counts as edited when
/// the change is handed back as it was.
pub proof fn redo_of_edit_is_unsaved<I>(v: UndoStackView<I>, kept: UndoFrame<I>)
    requires
        v.wf(),
        v.undone > 0,
        !(v.frames[v.redo_position()] is Rotate || v.frames[v.redo_position()] is FlipHorizontal
            || v.frames[v.redo_position()] is FlipVertical),
    ensures
        !after_redo(v, kept).saved,
        kept == v.frames[v.redo_position()] ==> has_unsaved_edit(after_redo(v, kept)),
{
    let w = after_redo(v, kept);
    if kept == v.frames[v.redo_position()] {
        assert(w.frames[v.redo_position()] == kept);
        assert(edits_pixels(w.frames[v.redo_position()]));
    }
}

/// Undoing a pixel edit changes the pixels back: the image is unsaved
/// afterwards, even when it was saved just before, and counts as edited when
/// the change is handed back as it was.
pub proof fn undo_of_edit_is_unsaved<I>(v: UndoStackView<I>, kept: UndoFrame<I>)
    requires
        v.wf(),
        v.undone < v.frames.len(),
        !(v.frames[v.undo_position()] is Rotate || v.frames[v.undo_position()] is FlipHorizontal
            || v.frames[v.undo_position()] is FlipVertical),
    ensures
        !after_undo(v, kept).saved,
        kept == v.frames[v.undo_position()] ==> has_unsaved_edit(after_undo(v, kept)),
{
    let w = after_undo(v, kept);
    if kept == v.frames[v.undo_position()] {
        assert(w.frames[v.undo_position()] == kept);
        assert(edits_pixels(w.frames[v.undo_position()]));
    }
}

/// Undoing or redoing a rotation or a flip leaves the saved state as it was.
pub proof fn view_changes_keep_saved_state<I>(v: UndoStackView<I>, kept: UndoFrame<I>)
    requires
        v.wf(),
    ensures
        v.undone < v.frames.len() && (v.frames[v.undo_position()] is Rotate
            || v.frames[v.undo_position()] is FlipHorizontal
            || v.frames[v.undo_position()] is FlipVertical) ==> after_undo(v, kept).saved == v.saved,
        v.undone > 0 && (v.frames[v.redo_position()] is Rotate
            || v.frames[v.redo_position()] is FlipHorizontal
            || v.frames[v.redo_position()] is FlipVertical) ==> after_redo(v, kept).saved == v.saved,
{
}

/// Pushing a change drops the undone changes, makes it the newest and leaves
/// nothing to redo; a pixel edit leaves the image unsaved.
pub proof fn push_records_newest<I>(v: UndoStackView<I>, f: UndoFrame<I>)
    requires
        v.wf(),
    ensures
        after_push(v, f).frames == v.frames.take(v.frames.len() - v.undone).push(f),
        after_push(v, f).undone == 0,
        (f is Crop || f is Resize || f is Color || f is ColorSpace) ==> !after_push(v, f).saved,
        (f is Rotate || f is FlipHorizontal || f is FlipVertical) ==> after_push(v, f).saved
            == v.saved,
{
}

} // verus!
