use vstd::prelude::*;

use crate::cache::Cache;
use crate::image_list::{ImageList, ImageListView};
use crate::image_view::{mirror_for, rem4, rotate_back_restores, toggled, turned, Flip, Orientation};
use crate::undo_stack::{after_push, after_redo, after_undo, UndoFrame, UndoStack, UndoStackView};

verus! {

/// The image on screen: its frames and how it is turned and mirrored.
pub struct Shown<I> {
    pub frames: Vec<I>,
    pub orientation: Orientation,
}

/// The outcome of a finished request, as it reaches the image on screen.
pub enum Applied<I> {
    /// A new image was loaded.
    Loaded(Vec<I>),
    Rotate(i32),
    FlipHorizontal,
    FlipVertical,
    Resize(Vec<I>),
    Color(Vec<I>),
    ColorSpace(Vec<I>),
    /// The cropped frames and the rotation the image had when it was cropped.
    Crop(Vec<I>, i32),
    Undo,
    Redo,
    Close,
    Saved,
    Done,
}

/// The undo record of a mirroring of the unrotated image.
pub open spec fn mirror_frame<I>(m: Flip) -> UndoFrame<I> {
    match m {
        Flip::Horizontal => UndoFrame::FlipHorizontal,
        Flip::Vertical => UndoFrame::FlipVertical,
    }
}

/// An empty, saved history.
pub open spec fn cleared<I>() -> UndoStackView<I> {
    UndoStackView { frames: Seq::empty(), undone: 0, saved: true }
}

/// `o` turned to `rotation`.
pub open spec fn with_rotation(o: Orientation, rotation: int) -> Orientation {
    Orientation { rotation: rotation as i32, ..o }
}

/// What undoing (`back`) or redoing the change `f` does to the image `s`: the
/// image after it, and what the change keeps to be redone or undone again.
pub open spec fn reverted<I>(s: Shown<I>, f: UndoFrame<I>, back: bool) -> (Shown<I>, UndoFrame<I>) {
    let o = s.orientation;
    match f {
        UndoFrame::Rotate(r) => (
            Shown {
                frames: s.frames,
                orientation: with_rotation(
                    o,
                    turned(
                        o.rotation as int,
                        if back {
                            -r
                        } else {
                            r as int
                        },
                    ),
                ),
            },
            f,
        ),
        UndoFrame::FlipHorizontal => (
            Shown { frames: s.frames, orientation: toggled(o, Flip::Horizontal) },
            f,
        ),
        UndoFrame::FlipVertical => (
            Shown { frames: s.frames, orientation: toggled(o, Flip::Vertical) },
            f,
        ),
        UndoFrame::Crop { frames, rotation } => (
            Shown { frames, orientation: with_rotation(o, rem4(rotation as int)) },
            UndoFrame::Crop { frames: s.frames, rotation: o.rotation },
        ),
        UndoFrame::Resize(frames) => (Shown { frames, orientation: o }, UndoFrame::Resize(s.frames)),
        UndoFrame::Color(frames) => (Shown { frames, orientation: o }, UndoFrame::Color(s.frames)),
        UndoFrame::ColorSpace(frames) => (
            Shown { frames, orientation: o },
            UndoFrame::ColorSpace(s.frames),
        ),
    }
}

/// Undoing (`back`) or redoing `f` on an image turned by `rotation` stays
/// within `i32`.
pub open spec fn turn_fits<I>(f: UndoFrame<I>, rotation: i32, back: bool) -> bool {
    f matches UndoFrame::Rotate(r) ==> if back {
        r != i32::MIN && i32::MIN <= rotation - r <= i32::MAX
    } else {
        i32::MIN <= rotation + r <= i32::MAX
    }
}

/// Whether undoing (`back`) or redoing `f` on an image turned by `rotation`
/// stays within `i32`.
pub fn check_turn_fits<I>(f: &UndoFrame<I>, rotation: i32, back: bool) -> (r: bool)
    ensures
        r == turn_fits(*f, rotation, back),
{
    match f {
        UndoFrame::Rotate(r) => {
            if back {
                *r != i32::MIN && (rotation as i64) - (*r as i64) >= i32::MIN as i64 && (
                rotation as i64) - (*r as i64) <= i32::MAX as i64
            } else {
                (rotation as i64) + (*r as i64) >= i32::MIN as i64 && (rotation as i64) + (
                *r as i64) <= i32::MAX as i64
            }
        },
        _ => true,
    }
}

/// The history and the image on screen after `out`. `color_changed` tells
/// whether new color-space frames differ in layout from those on screen.
pub open spec fn output_effect<I>(
    st: UndoStackView<I>,
    v: Option<Shown<I>>,
    out: Applied<I>,
    color_changed: bool,
) -> (UndoStackView<I>, Option<Shown<I>>) {
    match out {
        Applied::Loaded(frames) => (
            cleared(),
            Some(
                Shown {
                    frames,
                    orientation: Orientation {
                        rotation: 0,
                        horizontal_flip: false,
                        vertical_flip: false,
                    },
                },
            ),
        ),
        Applied::Rotate(d) => match v {
            Some(s) => (
                after_push(st, UndoFrame::Rotate(d)),
                Some(
                    Shown {
                        frames: s.frames,
                        orientation: with_rotation(
                            s.orientation,
                            turned(s.orientation.rotation as int, d as int),
                        ),
                    },
                ),
            ),
            None => (st, v),
        },
        Applied::FlipHorizontal => match v {
            Some(s) => {
                let m = mirror_for(s.orientation.rotation as int, Flip::Horizontal);
                (
                    after_push(st, mirror_frame(m)),
                    Some(Shown { frames: s.frames, orientation: toggled(s.orientation, m) }),
                )
            },
            None => (st, v),
        },
        Applied::FlipVertical => match v {
            Some(s) => {
                let m = mirror_for(s.orientation.rotation as int, Flip::Vertical);
                (
                    after_push(st, mirror_frame(m)),
                    Some(Shown { frames: s.frames, orientation: toggled(s.orientation, m) }),
                )
            },
            None => (st, v),
        },
        Applied::Resize(frames) => match v {
            Some(s) => (
                after_push(st, UndoFrame::Resize(s.frames)),
                Some(Shown { frames, orientation: s.orientation }),
            ),
            None => (st, v),
        },
        Applied::Color(frames) => match v {
            Some(s) => (
                after_push(st, UndoFrame::Color(s.frames)),
                Some(Shown { frames, orientation: s.orientation }),
            ),
            None => (st, v),
        },
        Applied::ColorSpace(frames) => match v {
            Some(s) => if color_changed {
                (
                    after_push(st, UndoFrame::ColorSpace(s.frames)),
                    Some(Shown { frames, orientation: s.orientation }),
                )
            } else {
                (st, v)
            },
            None => (st, v),
        },
        Applied::Crop(frames, rotation) => match v {
            Some(s) => (
                after_push(st, UndoFrame::Crop { frames: s.frames, rotation }),
                Some(Shown { frames, orientation: with_rotation(s.orientation, 0) }),
            ),
            None => (st, v),
        },
        Applied::Undo => if st.undone < st.frames.len() && v is Some {
            let r = reverted(v->0, st.frames[st.undo_position()], true);
            (after_undo(st, r.1), Some(r.0))
        } else {
            (st, v)
        },
        Applied::Redo => if st.undone > 0 && v is Some {
            let r = reverted(v->0, st.frames[st.redo_position()], false);
            (after_redo(st, r.1), Some(r.0))
        } else {
            (st, v)
        },
        Applied::Close => (cleared(), None),
        Applied::Saved => (UndoStackView { saved: true, ..st }, v),
        Applied::Done => (st, v),
    }
}

/// Undoes (`back`) or redoes `frame` on the image `s`, leaving in `frame`
/// what is needed to redo or undo it again.
fn revert<I>(s: &mut Shown<I>, frame: &mut UndoFrame<I>, back: bool)
    requires
        turn_fits(*old(frame), old(s).orientation.rotation, back),
    ensures
        (*final(s), *final(frame)) == reverted(*old(s), *old(frame), back),
{
    match frame {
        UndoFrame::Rotate(r) => {
            if back {
                s.orientation.rotate(-*r);
            } else {
                s.orientation.rotate(*r);
            }
        },
        UndoFrame::FlipHorizontal => {
            s.orientation.toggle(Flip::Horizontal);
        },
        UndoFrame::FlipVertical => {
            s.orientation.toggle(Flip::Vertical);
        },
        UndoFrame::Crop { frames, rotation } => {
            std::mem::swap(&mut s.frames, frames);
            s.orientation.swap_rotation(rotation);
        },
        UndoFrame::Resize(frames) => {
            std::mem::swap(&mut s.frames, frames);
        },
        UndoFrame::Color(frames) => {
            std::mem::swap(&mut s.frames, frames);
        },
        UndoFrame::ColorSpace(frames) => {
            std::mem::swap(&mut s.frames, frames);
        },
    }
}

/// Records `f` as the newest change of a history.
fn record<I>(stack: &mut UndoStack<I>, f: UndoFrame<I>)
    requires
        old(stack)@.wf(),
    ensures
        final(stack)@ == after_push(old(stack)@, f),
{
    stack.push(f);
}

/// Applies a finished request to the history and the image on screen: each
/// change is recorded so that it can be undone, an undo or a redo reverts or
/// reapplies the change it hands out, loading or closing starts a new history.
pub fn apply_output<I>(
    stack: &mut UndoStack<I>,
    view: &mut Option<Shown<I>>,
    out: Applied<I>,
    color_changed: bool,
)
    requires
        old(stack)@.wf(),
        out is Rotate || out is FlipHorizontal || out is FlipVertical ==> (*old(view)) is Some,
        out matches Applied::Rotate(d) ==> ((*old(view)) is Some ==> i32::MIN <= (*old(view))->0.orientation.rotation + d <= i32::MAX),
        out is Undo && old(stack)@.undone < old(stack)@.frames.len() ==> (*old(view)) is Some
            && turn_fits(
            old(stack)@.frames[old(stack)@.undo_position()],
            (*old(view))->0.orientation.rotation,
            true,
        ),
        out is Redo && old(stack)@.undone > 0 ==> (*old(view)) is Some && turn_fits(
            old(stack)@.frames[old(stack)@.redo_position()],
            (*old(view))->0.orientation.rotation,
            false,
        ),
    ensures
        final(stack)@.wf(),
        (final(stack)@, *final(view)) == output_effect(
            old(stack)@,
            *old(view),
            out,
            color_changed,
        ),
{
    match out {
        Applied::Loaded(frames) => {
            stack.clear();
            assert(stack@.frames =~= Seq::<UndoFrame<I>>::empty());
            *view = Some(Shown { frames, orientation: Orientation::new() });
        },
        Applied::Rotate(d) => {
            match view {
                Some(s) => {
                    s.orientation.rotate(d);
                    record(stack, UndoFrame::Rotate(d));
                },
                None => {},
            }
        },
        Applied::FlipHorizontal => {
            match view {
                Some(s) => {
                    let m = s.orientation.flip(Flip::Horizontal);
                    let f = match m {
                        Flip::Horizontal => UndoFrame::FlipHorizontal,
                        Flip::Vertical => UndoFrame::FlipVertical,
                    };
                    record(stack, f);
                },
                None => {},
            }
        },
        Applied::FlipVertical => {
            match view {
                Some(s) => {
                    let m = s.orientation.flip(Flip::Vertical);
                    let f = match m {
                        Flip::Horizontal => UndoFrame::FlipHorizontal,
                        Flip::Vertical => UndoFrame::FlipVertical,
                    };
                    record(stack, f);
                },
                None => {},
            }
        },
        Applied::Resize(frames) => {
            match view {
                Some(s) => {
                    let mut frames = frames;
                    std::mem::swap(&mut s.frames, &mut frames);
                    record(stack, UndoFrame::Resize(frames));
                },
                None => {},
            }
        },
        Applied::Color(frames) => {
            match view {
                Some(s) => {
                    let mut frames = frames;
                    std::mem::swap(&mut s.frames, &mut frames);
                    record(stack, UndoFrame::Color(frames));
                },
                None => {},
            }
        },
        Applied::ColorSpace(frames) => {
            match view {
                Some(s) => {
                    if color_changed {
                        let mut frames = frames;
                        std::mem::swap(&mut s.frames, &mut frames);
                        record(stack, UndoFrame::ColorSpace(frames));
                    }
                },
                None => {},
            }
        },
        Applied::Crop(frames, rotation) => {
            match view {
                Some(s) => {
                    s.orientation.set_rotation(0);
                    let mut frames = frames;
                    std::mem::swap(&mut s.frames, &mut frames);
                    record(stack, UndoFrame::Crop { frames, rotation });
                },
                None => {},
            }
        },
        Applied::Undo => {
            match stack.undo() {
                Some(frame) => {
                    match view {
                        Some(s) => {
                            revert(s, frame, true);
                        },
                        None => {},
                    }
                },
                None => {},
            }
        },
        Applied::Redo => {
            match stack.redo() {
                Some(frame) => {
                    match view {
                        Some(s) => {
                            revert(s, frame, false);
                        },
                        None => {},
                    }
                },
                None => {},
            }
        },
        Applied::Close => {
            *view = None;
            stack.clear();
            assert(stack@.frames =~= Seq::<UndoFrame<I>>::empty());
        },
        Applied::Saved => {
            stack.set_saved();
        },
        Applied::Done => {},
    }
}

/// A change to the image on screen followed by an undo gives back the image
/// as it was: its frames, its rotation and its mirroring.
pub proof fn change_then_undo_restores<I>(
    st: UndoStackView<I>,
    s: Shown<I>,
    out: Applied<I>,
    color_changed: bool,
)
    requires
        st.wf(),
        0 <= s.orientation.rotation < 4,
        out is Rotate || out is FlipHorizontal || out is FlipVertical || out is Resize
            || out is Color || (out is ColorSpace && color_changed) || out is Crop,
        out matches Applied::Crop(_, r) ==> r == s.orientation.rotation,
    ensures
        ({
            let first = output_effect(st, Some(s), out, color_changed);
            output_effect(first.0, first.1, Applied::Undo, color_changed).1 == Some(s)
        }),
{
    let first = output_effect(st, Some(s), out, color_changed);
    let st1 = first.0;
    assert(st1.undone == 0);
    assert(st1.undone < st1.frames.len());
    assert(st1.undo_position() == st1.frames.len() - 1);
    match out {
        Applied::Rotate(d) => {
            rotate_back_restores(s.orientation.rotation as int, d as int);
            let t = turned(s.orientation.rotation as int, d as int);
            assert(0 <= t < 4);
            assert(turned(t, -d) == s.orientation.rotation);
        },
        Applied::Crop(_, r) => {
            vstd::arithmetic::div_mod::lemma_small_mod(r as nat, 4);
        },
        _ => {},
    }
}

/// Reverting a change and then applying it again, or the other way round,
/// gives back the image it started from.
proof fn revert_twice_restores<I>(s: Shown<I>, f: UndoFrame<I>, back: bool)
    requires
        0 <= s.orientation.rotation < 4,
    ensures
        ({
            let a = reverted(s, f, back);
            reverted(a.0, a.1, !back).0 == s
        }),
{
    let o = s.orientation;
    match f {
        UndoFrame::Rotate(d) => {
            rotate_back_restores(o.rotation as int, d as int);
            rotate_back_restores(o.rotation as int, -d);
            let t = turned(o.rotation as int, if back { -d } else { d as int });
            assert(0 <= t < 4);
        },
        UndoFrame::Crop { frames, rotation } => {
            vstd::arithmetic::div_mod::lemma_small_mod(o.rotation as nat, 4);
        },
        _ => {},
    }
}

/// A redo right after an undo brings back the image that was on screen
/// before the undo, and the history is as far back as it was.
pub proof fn undo_then_redo_restores<I>(st: UndoStackView<I>, s: Shown<I>, color_changed: bool)
    requires
        st.wf(),
        st.undone < st.frames.len(),
        0 <= s.orientation.rotation < 4,
    ensures
        ({
            let a = output_effect(st, Some(s), Applied::Undo, color_changed);
            let b = output_effect(a.0, a.1, Applied::Redo, color_changed);
            b.1 == Some(s) && b.0.undone == st.undone
        }),
{
    let r = reverted(s, st.frames[st.undo_position()], true);
    let a = after_undo(st, r.1);
    assert(a.redo_position() == st.undo_position());
    assert(a.frames[a.redo_position()] == r.1);
    revert_twice_restores(s, st.frames[st.undo_position()], true);
}

/// An undo right after a redo brings back the image that was on screen
/// before the redo, and the history is as far back as it was.
pub proof fn redo_then_undo_restores<I>(st: UndoStackView<I>, s: Shown<I>, color_changed: bool)
    requires
        st.wf(),
        st.undone > 0,
        0 <= s.orientation.rotation < 4,
    ensures
        ({
            let a = output_effect(st, Some(s), Applied::Redo, color_changed);
            let b = output_effect(a.0, a.1, Applied::Undo, color_changed);
            b.1 == Some(s) && b.0.undone == st.undone
        }),
{
    let r = reverted(s, st.frames[st.redo_position()], false);
    let a = after_redo(st, r.1);
    assert(a.undo_position() == st.redo_position());
    assert(a.frames[a.undo_position()] == r.1);
    revert_twice_restores(s, st.frames[st.redo_position()], false);
}

/// Closes the image on screen: the view is gone, the history starts over,
/// the listed directory is forgotten and the cache of decoded images is emptied.
pub fn close_image<I>(
    stack: &mut UndoStack<I>,
    view: &mut Option<Shown<I>>,
    list: &mut ImageList,
    cache: &mut Cache,
)
    requires
        old(stack)@.wf(),
        old(cache).wf(),
    ensures
        final(stack)@ == cleared::<I>(),
        *final(view) is None,
        final(list)@ == (ImageListView {
            list: None,
            index: 0,
            dir: None,
            sort_order: old(list)@.sort_order,
        }),
        final(cache).wf(),
        final(cache)@.entries.len() == 0,
        final(cache)@.total_size == 0,
        final(cache)@.max_size == old(cache)@.max_size,
{
    apply_output(stack, view, Applied::Close, false);
    list.clear();
    cache.clear();
}

/// A newly loaded image is shown upright and unmirrored, whatever was on
/// screen before and however it was turned, and its history starts empty
/// and saved.
pub proof fn loaded_image_starts_upright<I>(
    st: UndoStackView<I>,
    v: Option<Shown<I>>,
    frames: Vec<I>,
    color_changed: bool,
)
    ensures
        ({
            let r = output_effect(st, v, Applied::Loaded(frames), color_changed);
            &&& r.1 == Some(
                Shown {
                    frames,
                    orientation: Orientation {
                        rotation: 0,
                        horizontal_flip: false,
                        vertical_flip: false,
                    },
                },
            )
            &&& r.0.frames.len() == 0
            &&& r.0.undone == 0
            &&& r.0.saved
        }),
{
}

/// Closing leaves no image on screen and an empty, saved history, whatever
/// was there before.
pub proof fn close_forgets_image<I>(st: UndoStackView<I>, v: Option<Shown<I>>, color_changed: bool)
    ensures
        ({
            let r = output_effect(st, v, Applied::Close, color_changed);
            &&& r.1 is None
            &&& r.0.frames.len() == 0
            &&& r.0.undone == 0
            &&& r.0.saved
        }),
{
}

/// Saving keeps the image on screen and its history, and marks it saved.
pub proof fn saving_keeps_image<I>(st: UndoStackView<I>, v: Option<Shown<I>>, color_changed: bool)
    ensures
        ({
            let r = output_effect(st, v, Applied::Saved, color_changed);
            &&& r.1 == v
            &&& r.0.frames == st.frames
            &&& r.0.undone == st.undone
            &&& r.0.saved
        }),
{
}

/// A rotation turns the image on screen by `d` quarter turns, counted from 0
/// to 3, keeps its frames and mirroring, and is recorded as the newest change
/// with nothing left to redo.
pub proof fn rotation_turns_image<I>(st: UndoStackView<I>, s: Shown<I>, d: i32, color_changed: bool)
    requires
        st.wf(),
    ensures
        ({
            let r = output_effect(st, Some(s), Applied::Rotate(d), color_changed);
            let o = r.1->0.orientation;
            &&& r.1 is Some
            &&& r.1->0.frames == s.frames
            &&& 0 <= o.rotation < 4
            &&& (o.rotation - s.orientation.rotation - d) % 4 == 0
            &&& o.horizontal_flip == s.orientation.horizontal_flip
            &&& o.vertical_flip == s.orientation.vertical_flip
            &&& r.0.frames == st.frames.take(st.frames.len() - st.undone).push(UndoFrame::Rotate(d))
            &&& r.0.undone == 0
            &&& r.0.saved == st.saved
        }),
{
    let t = (s.orientation.rotation + d) % 4;
    assert(0 <= t < 4);
    vstd::arithmetic::div_mod::lemma_fundamental_div_mod(s.orientation.rotation + d, 4);
    let q = (s.orientation.rotation + d) / 4;
    assert(t - s.orientation.rotation - d == -q * 4);
    vstd::arithmetic::div_mod::lemma_mod_multiples_basic(-q, 4);
}

/// A horizontal flip mirrors what is on screen left to right: on an upright
/// or upside-down image the stored image is mirrored horizontally, on an
/// image turned on its side vertically. The frames and the rotation stay, and
/// the mirroring of the stored image is recorded.
pub proof fn horizontal_flip_mirrors_screen<I>(st: UndoStackView<I>, s: Shown<I>, color_changed: bool)
    requires
        st.wf(),
    ensures
        ({
            let r = output_effect(st, Some(s), Applied::FlipHorizontal, color_changed);
            let o = r.1->0.orientation;
            let upright = s.orientation.rotation % 2 == 0;
            &&& r.1 is Some
            &&& r.1->0.frames == s.frames
            &&& o.rotation == s.orientation.rotation
            &&& upright ==> o.horizontal_flip != s.orientation.horizontal_flip
                && o.vertical_flip == s.orientation.vertical_flip
                && r.0.frames.last() is FlipHorizontal
            &&& !upright ==> o.vertical_flip != s.orientation.vertical_flip
                && o.horizontal_flip == s.orientation.horizontal_flip
                && r.0.frames.last() is FlipVertical
            &&& r.0.undone == 0
            &&& r.0.saved == st.saved
        }),
{
}

/// A vertical flip mirrors what is on screen top to bottom: on an upright or
/// upside-down image the stored image is mirrored vertically, on an image
/// turned on its side horizontally. The frames and the rotation stay.
pub proof fn vertical_flip_mirrors_screen<I>(st: UndoStackView<I>, s: Shown<I>, color_changed: bool)
    requires
        st.wf(),
    ensures
        ({
            let r = output_effect(st, Some(s), Applied::FlipVertical, color_changed);
            let o = r.1->0.orientation;
            let upright = s.orientation.rotation % 2 == 0;
            &&& r.1 is Some
            &&& r.1->0.frames == s.frames
            &&& o.rotation == s.orientation.rotation
            &&& upright ==> o.vertical_flip != s.orientation.vertical_flip
                && o.horizontal_flip == s.orientation.horizontal_flip
                && r.0.frames.last() is FlipVertical
            &&& !upright ==> o.horizontal_flip != s.orientation.horizontal_flip
                && o.vertical_flip == s.orientation.vertical_flip
                && r.0.frames.last() is FlipHorizontal
            &&& r.0.undone == 0
            &&& r.0.saved == st.saved
        }),
{
}

/// A resize or a color change shows the new frames with the same
/// orientation, records the frames it replaced as the newest change, and
/// leaves the image unsaved.
pub proof fn pixel_edit_replaces_frames<I>(
    st: UndoStackView<I>,
    s: Shown<I>,
    frames: Vec<I>,
    color_changed: bool,
)
    requires
        st.wf(),
    ensures
        ({
            let r = output_effect(st, Some(s), Applied::Resize(frames), color_changed);
            &&& r.1 == Some(Shown { frames, orientation: s.orientation })
            &&& r.0.frames == st.frames.take(st.frames.len() - st.undone).push(
                UndoFrame::Resize(s.frames),
            )
            &&& r.0.undone == 0
            &&& !r.0.saved
        }),
        ({
            let r = output_effect(st, Some(s), Applied::Color(frames), color_changed);
            &&& r.1 == Some(Shown { frames, orientation: s.orientation })
            &&& r.0.frames == st.frames.take(st.frames.len() - st.undone).push(
                UndoFrame::Color(s.frames),
            )
            &&& r.0.undone == 0
            &&& !r.0.saved
        }),
{
}

/// A crop shows the cropped frames upright, keeping the mirroring, and
/// records the frames it replaced with the rotation they were shown in.
pub proof fn crop_shows_upright<I>(
    st: UndoStackView<I>,
    s: Shown<I>,
    frames: Vec<I>,
    rotation: i32,
    color_changed: bool,
)
    requires
        st.wf(),
    ensures
        ({
            let r = output_effect(st, Some(s), Applied::Crop(frames, rotation), color_changed);
            &&& r.1 == Some(
                Shown {
                    frames,
                    orientation: Orientation {
                        rotation: 0,
                        horizontal_flip: s.orientation.horizontal_flip,
                        vertical_flip: s.orientation.vertical_flip,
                    },
                },
            )
            &&& r.0.frames == st.frames.take(st.frames.len() - st.undone).push(
                UndoFrame::Crop { frames: s.frames, rotation },
            )
            &&& r.0.undone == 0
            &&& !r.0.saved
        }),
{
}

} // verus!
