use vstd::prelude::*;

use crate::image_list::{
    backward, forward, forward_backward_inverse, trashed_position, ImageList, ImageListEntry,
    ImageListView,
};
use crate::preferences::SortOrder;

verus! {

/// A request to the viewer. `J` is an edit of the pixels (resize, color,
/// crop, color space), which the caller runs itself on the image on screen.
#[derive(Debug)]
pub enum Op<J> {
    LoadPath(String, bool),
    LoadBytes(Vec<u8>),
    Next,
    Prev,
    Save(String),
    Edit(J),
    FlipHorizontal,
    FlipVertical,
    Rotate(i32),
    Undo,
    Redo,
    Close,
    Copy,
    Paste,
    Delete(String),
}

/// An answer that needs no work: it goes straight back to the viewer.
#[derive(Debug, Clone, Copy, PartialEq, Eq, Structural)]
pub enum Signal {
    Rotate(i32),
    FlipHorizontal,
    FlipVertical,
    Undo,
    Redo,
    Close,
    Done,
}

/// What the caller has to do for a queued request.
#[derive(Debug, PartialEq, Eq)]
pub enum Action<J> {
    /// Another request is still running: this one is dropped.
    Busy,
    /// Load the image at `path`; ask first when there are unsaved edits.
    /// `prefetch` is the neighbour to load ahead after a step through the list.
    Load { path: String, use_cache: bool, edited_prompt: bool, prefetch: Option<String> },
    /// Decode an image handed over as bytes.
    LoadBytes(Vec<u8>),
    /// Save the image on screen at the path.
    Save(String),
    /// Nothing runs: a save was asked for with no image on screen.
    Stalled,
    /// Send the signal back at once.
    Send(Signal),
    /// Ask whether to drop the unsaved edits, and close if so.
    ConfirmClose,
    /// Run the edit on the image on screen.
    Edit(J),
    /// Copy the image on screen to the clipboard.
    Copy,
    /// Load the image on the clipboard.
    Paste,
    /// Move the file at the path to the trash.
    Trash(String),
}

/// The request works on the image on screen, so there must be one.
pub open spec fn needs_view<J>(op: Op<J>) -> bool {
    op is Edit || op is Copy
}

/// The action for a request that does not move through the list.
pub open spec fn direct_action<J>(op: Op<J>, edited: bool, has_view: bool) -> Action<J> {
    match op {
        Op::LoadPath(path, use_cache) => Action::Load {
            path,
            use_cache,
            edited_prompt: edited,
            prefetch: None,
        },
        Op::LoadBytes(bytes) => Action::LoadBytes(bytes),
        Op::Save(path) => if has_view {
            Action::Save(path)
        } else {
            Action::Stalled
        },
        Op::Edit(job) => Action::Edit(job),
        Op::FlipHorizontal => Action::Send(Signal::FlipHorizontal),
        Op::FlipVertical => Action::Send(Signal::FlipVertical),
        Op::Rotate(dir) => Action::Send(Signal::Rotate(dir)),
        Op::Undo => Action::Send(Signal::Undo),
        Op::Redo => Action::Send(Signal::Redo),
        Op::Close => if edited {
            Action::ConfirmClose
        } else {
            Action::Send(Signal::Close)
        },
        Op::Copy => Action::Copy,
        Op::Paste => Action::Paste,
        Op::Delete(path) => Action::Trash(path),
        Op::Next | Op::Prev => Action::Busy,
    }
}

/// `a` loads the entry at `i` of `l` from the cache, asking first when
/// `edited`, and loads the entry at `ahead` in advance.
pub open spec fn loads_entry<J>(
    a: Action<J>,
    l: Seq<ImageListEntry>,
    i: int,
    ahead: int,
    edited: bool,
) -> bool {
    &&& a matches Action::Load { path, use_cache, edited_prompt, prefetch }
    &&& path@ == l[i].path@
    &&& use_cache
    &&& edited_prompt == edited
    &&& prefetch matches Some(q) && q@ == l[ahead].path@
}

/// `after` is `before` with the position moved to `i`.
pub open spec fn moved_to(before: ImageListView, after: ImageListView, i: int) -> bool {
    &&& after.list == before.list
    &&& after.dir == before.dir
    &&& after.sort_order == before.sort_order
    &&& after.index == i
}

/// What queuing `op` on an idle queue does to the list and asks of the caller.
pub open spec fn queued<J>(
    op: Op<J>,
    edited: bool,
    has_view: bool,
    before: ImageListView,
    after: ImageListView,
    a: Action<J>,
) -> bool {
    match op {
        Op::Next => match before.list {
            None => after == before && a == Action::<J>::Send(Signal::Done),
            Some(l) => {
                let i = forward(before.index, l.len() as int);
                moved_to(before, after, i) && loads_entry(a, l, i, forward(i, l.len() as int), edited)
            },
        },
        Op::Prev => match before.list {
            None => after == before && a == Action::<J>::Send(Signal::Done),
            Some(l) => {
                let i = backward(before.index, l.len() as int);
                moved_to(before, after, i) && loads_entry(
                    a,
                    l,
                    i,
                    backward(i, l.len() as int),
                    edited,
                )
            },
        },
        _ => after == before && a == direct_action(op, edited, has_view),
    }
}

/// Takes one request at a time: while one runs, the others are dropped.
pub struct OpQueue {
    working: bool,
    image_list: ImageList,
}

impl OpQueue {
    /// A request is running.
    pub closed spec fn is_working(&self) -> bool {
        self.working
    }

    /// The list of the directory on screen.
    pub closed spec fn list(&self) -> ImageListView {
        self.image_list@
    }

    /// The list of the directory on screen.
    pub fn image_list(&self) -> (r: &ImageList)
        ensures
            r@ == self.list(),
    {
        &self.image_list
    }

    /// The list of the directory on screen, to change it.
    pub fn image_list_mut(&mut self) -> (r: &mut ImageList)
        ensures
            r@ == old(self).list(),
            final(self).list() == final(r)@,
            final(self).is_working() == old(self).is_working(),
    {
        &mut self.image_list
    }

    /// An idle queue with no listed directory.
    pub fn new() -> (r: OpQueue)
        ensures
            !r.is_working(),
            r.list() == (ImageListView {
                list: None,
                index: 0,
                dir: None,
                sort_order: SortOrder::MetadataTime,
            }),
    {
        OpQueue { working: false, image_list: ImageList::new() }
    }

    /// Whether a request is running.
    pub fn working(&self) -> (r: bool)
        ensures
            r == self.is_working(),
    {
        self.working
    }

    /// Marks the running request as finished, or a new one as running.
    pub fn set_working(&mut self, working: bool)
        ensures
            final(self).is_working() == working,
            final(self).list() == old(self).list(),
    {
        self.working = working;
    }

    /// Queues `op`. `edited` tells whether the image on screen has unsaved
    /// edits and `has_view` whether there is an image on screen. An idle
    /// queue starts the request and is busy until [`OpQueue::set_working`]
    /// clears it; a busy one drops it.
    pub fn queue<J>(&mut self, op: Op<J>, edited: bool, has_view: bool) -> (a: Action<J>)
        requires
            old(self).list().wf(),
            !old(self).is_working() && (op is Next || op is Prev) ==> old(self).list().not_empty(),
            !old(self).is_working() && needs_view(op) ==> has_view,
        ensures
            final(self).is_working(),
            final(self).list().wf(),
            old(self).is_working() ==> a is Busy && final(self).list() == old(self).list(),
            !old(self).is_working() ==> queued(
                op,
                edited,
                has_view,
                old(self).list(),
                final(self).list(),
                a,
            ),
    {
        if self.working {
            return Action::Busy;
        }
        self.working = true;
        match op {
            Op::Next => match self.image_list.next() {
                Some(path) => Action::Load {
                    path,
                    use_cache: true,
                    edited_prompt: edited,
                    prefetch: self.image_list.prefetch_forward(),
                },
                None => Action::Send(Signal::Done),
            },
            Op::Prev => match self.image_list.prev() {
                Some(path) => Action::Load {
                    path,
                    use_cache: true,
                    edited_prompt: edited,
                    prefetch: self.image_list.prefetch_backward(),
                },
                None => Action::Send(Signal::Done),
            },
            Op::LoadPath(path, use_cache) => Action::Load {
                path,
                use_cache,
                edited_prompt: edited,
                prefetch: None,
            },
            Op::LoadBytes(bytes) => Action::LoadBytes(bytes),
            Op::Save(path) => if has_view {
                Action::Save(path)
            } else {
                Action::Stalled
            },
            Op::Edit(job) => Action::Edit(job),
            Op::FlipHorizontal => Action::Send(Signal::FlipHorizontal),
            Op::FlipVertical => Action::Send(Signal::FlipVertical),
            Op::Rotate(dir) => Action::Send(Signal::Rotate(dir)),
            Op::Undo => Action::Send(Signal::Undo),
            Op::Redo => Action::Send(Signal::Redo),
            Op::Close => if edited {
                Action::ConfirmClose
            } else {
                Action::Send(Signal::Close)
            },
            Op::Copy => Action::Copy,
            Op::Paste => Action::Paste,
            Op::Delete(path) => Action::Trash(path),
        }
    }

    /// The file at `path` went to the trash: it leaves the list, and the new
    /// current image (the one that takes its place, or the new last one) is
    /// loaded; the viewer closes when no image is left.
    pub fn trashed<J>(&mut self, path: &str) -> (a: Action<J>)
        requires
            old(self).list().wf(),
            old(self).list().has_current(),
        ensures
            final(self).is_working() == old(self).is_working(),
            final(self).list().wf(),
            final(self).list().dir == old(self).list().dir,
            final(self).list().sort_order == old(self).list().sort_order,
            match old(self).list().list {
                None => a == Action::<J>::Send(Signal::Close) && final(self).list().list is None
                    && final(self).list().index == old(self).list().index,
                Some(l) => {
                    let i = old(self).list().index;
                    if l[i].path@ == path@ {
                        let rest = l.remove(i);
                        &&& final(self).list().list == Some(rest)
                        &&& if rest.len() > 0 {
                            let j = trashed_position(i, rest.len() as int);
                            &&& final(self).list().index == j
                            &&& a matches Action::Load { path: next, use_cache, edited_prompt, prefetch }
                                && next@ == rest[j].path@ && use_cache && !edited_prompt
                                && prefetch is None
                        } else {
                            a == Action::<J>::Send(Signal::Close) && final(self).list().index == i
                        }
                    } else {
                        &&& final(self).list().list == Some(l)
                        &&& final(self).list().index == i
                        &&& a == Action::<J>::Send(Signal::Close)
                    }
                },
            },
    {
        match self.image_list.trash(path) {
            Some(next) => Action::Load {
                path: next,
                use_cache: true,
                edited_prompt: false,
                prefetch: None,
            },
            None => Action::Send(Signal::Close),
        }
    }
}

/// Going to the next image and then back to the previous one returns to the
/// image first on screen: the list and the position are as before, and the
/// second step loads that image.
pub proof fn next_then_prev_returns<J>(
    e1: bool,
    e2: bool,
    has_view: bool,
    before: ImageListView,
    mid: ImageListView,
    after: ImageListView,
    a1: Action<J>,
    a2: Action<J>,
)
    requires
        before.wf(),
        before.has_current(),
        before.list is Some,
        queued(Op::<J>::Next, e1, has_view, before, mid, a1),
        queued(Op::<J>::Prev, e2, has_view, mid, after, a2),
    ensures
        after == before,
        a2 matches Action::Load { path, .. } && path@ == before.list->0[before.index].path@,
{
    forward_backward_inverse(before.index, before.list->0.len() as int);
}

/// Going to the previous image and then to the next one returns to the image
/// first on screen.
pub proof fn prev_then_next_returns<J>(
    e1: bool,
    e2: bool,
    has_view: bool,
    before: ImageListView,
    mid: ImageListView,
    after: ImageListView,
    a1: Action<J>,
    a2: Action<J>,
)
    requires
        before.wf(),
        before.has_current(),
        before.list is Some,
        queued(Op::<J>::Prev, e1, has_view, before, mid, a1),
        queued(Op::<J>::Next, e2, has_view, mid, after, a2),
    ensures
        after == before,
        a2 matches Action::Load { path, .. } && path@ == before.list->0[before.index].path@,
{
    forward_backward_inverse(before.index, before.list->0.len() as int);
}

/// Unsaved edits are never dropped without asking: with edits, closing asks
/// first, and loading another image (by path or by stepping through the
/// list) asks before it replaces the image; without edits nothing asks.
pub proof fn unsaved_edits_are_asked_about<J>(
    op: Op<J>,
    edited: bool,
    has_view: bool,
    before: ImageListView,
    after: ImageListView,
    a: Action<J>,
)
    requires
        before.wf(),
        before.has_current(),
        queued(op, edited, has_view, before, after, a),
    ensures
        op is Close ==> (a is ConfirmClose <==> edited) && (!edited ==> a == Action::<J>::Send(
            Signal::Close,
        )),
        op is LoadPath || ((op is Next || op is Prev) && before.list is Some) ==> (
        a matches Action::Load { edited_prompt, .. } && edited_prompt == edited),
{
}

/// Stepping forward loads the image one further along the list, wrapping to
/// the first after the last, and loads the one after it ahead; stepping back
/// does the opposite.
pub proof fn steps_wrap_around<J>(
    edited: bool,
    has_view: bool,
    before: ImageListView,
    after: ImageListView,
    a: Action<J>,
    back: bool,
)
    requires
        before.wf(),
        before.has_current(),
        before.list is Some,
        queued(if back { Op::<J>::Prev } else { Op::<J>::Next }, edited, has_view, before, after, a),
    ensures
        ({
            let l = before.list->0;
            let n = l.len() as int;
            let i = before.index;
            let j = if back {
                if i == 0 { n - 1 } else { i - 1 }
            } else {
                if i == n - 1 { 0 } else { i + 1 }
            };
            let k = if back {
                if j == 0 { n - 1 } else { j - 1 }
            } else {
                if j == n - 1 { 0 } else { j + 1 }
            };
            &&& after.index == j
            &&& after.list == before.list
            &&& a matches Action::Load { path, use_cache, prefetch, .. }
            &&& path@ == l[j].path@
            &&& use_cache
            &&& prefetch matches Some(q) && q@ == l[k].path@
        }),
{
}

} // verus!
