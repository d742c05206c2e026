use simp::op_queue::{Action, Op, OpQueue, Signal};
use simp::image_list::ImageListEntry;
use simp::image_view::Orientation;
use simp::cache::Cache;
use simp::image_list::ImageList;
use simp::output::{apply_output, close_image, Applied, Shown};
use simp::preferences::SortOrder;
use simp::undo_stack::{UndoFrame, UndoStack};

fn rotation_of(frame: &UndoFrame<u8>) -> Option<i32> {
    match frame {
        UndoFrame::Rotate(r) => Some(*r),
        _ => None,
    }
}

#[test]
fn new_stack_is_saved_and_has_nothing_to_undo() {
    let mut stack: UndoStack<u8> = UndoStack::new();
    assert!(!stack.is_edited());
    assert!(stack.undo().is_none());
    assert!(stack.redo().is_none());
}

#[test]
fn undo_hands_out_the_newest_change_and_redo_brings_it_back() {
    let mut stack: UndoStack<u8> = UndoStack::new();
    stack.push(UndoFrame::Rotate(1));
    stack.push(UndoFrame::Rotate(-1));
    assert_eq!(stack.undo().and_then(|f| rotation_of(f)), Some(-1));
    assert_eq!(stack.undo().and_then(|f| rotation_of(f)), Some(1));
    assert!(stack.undo().is_none());
    assert_eq!(stack.redo().and_then(|f| rotation_of(f)), Some(1));
    assert_eq!(stack.redo().and_then(|f| rotation_of(f)), Some(-1));
    assert!(stack.redo().is_none());
}

#[test]
fn push_after_undo_drops_the_undone_changes() {
    let mut stack: UndoStack<u8> = UndoStack::new();
    stack.push(UndoFrame::Rotate(1));
    stack.push(UndoFrame::Rotate(2));
    assert!(stack.undo().is_some());
    stack.push(UndoFrame::Rotate(3));
    assert!(stack.redo().is_none());
    assert_eq!(stack.undo().and_then(|f| rotation_of(f)), Some(3));
    assert_eq!(stack.undo().and_then(|f| rotation_of(f)), Some(1));
    assert!(stack.undo().is_none());
}

#[test]
fn undo_lets_the_caller_keep_what_it_replaced() {
    let mut stack: UndoStack<u8> = UndoStack::new();
    stack.push(UndoFrame::Resize(vec![1, 2]));
    if let Some(UndoFrame::Resize(frames)) = stack.undo() {
        assert_eq!(*frames, vec![1, 2]);
        *frames = vec![7];
    } else {
        panic!("expected a resize");
    }
    match stack.redo() {
        Some(UndoFrame::Resize(frames)) => assert_eq!(*frames, vec![7]),
        _ => panic!("expected a resize"),
    }
}

#[test]
fn only_pixel_edits_count_as_unsaved() {
    let mut stack: UndoStack<u8> = UndoStack::new();
    stack.push(UndoFrame::Rotate(1));
    stack.push(UndoFrame::FlipHorizontal);
    stack.push(UndoFrame::FlipVertical);
    assert!(!stack.is_edited());
    stack.push(UndoFrame::Color(vec![0]));
    assert!(stack.is_edited());
    stack.set_saved();
    assert!(!stack.is_edited());
    stack.push(UndoFrame::Crop { frames: vec![0], rotation: 1 });
    assert!(stack.is_edited());
    stack.clear();
    assert!(!stack.is_edited());
    assert!(stack.undo().is_none());
}

#[test]
fn undoing_a_saved_edit_marks_the_image_edited() {
    let mut stack: UndoStack<u8> = UndoStack::new();
    stack.push(UndoFrame::ColorSpace(vec![0]));
    stack.set_saved();
    assert!(!stack.is_edited());
    assert!(stack.undo().is_some());
    assert!(stack.is_edited());
}

#[test]
fn frames_know_whether_they_edit_pixels() {
    assert!(!UndoFrame::<u8>::Rotate(1).is_edit());
    assert!(!UndoFrame::<u8>::FlipHorizontal.is_edit());
    assert!(!UndoFrame::<u8>::FlipVertical.is_edit());
    assert!(UndoFrame::<u8>::Resize(vec![]).is_edit());
    assert!(UndoFrame::<u8>::Color(vec![]).is_edit());
    assert!(UndoFrame::<u8>::ColorSpace(vec![]).is_edit());
    assert!(UndoFrame::<u8>::Crop { frames: vec![], rotation: 0 }.is_edit());
}

fn dir_entry(path: &str) -> ImageListEntry {
    ImageListEntry {
        path: path.to_string(),
        accessed: None,
        created: None,
        modified: None,
        exif_date: None,
        size: 0,
    }
}

#[test]
fn queue_takes_one_request_at_a_time() {
    let mut queue = OpQueue::new();
    assert!(!queue.working());
    let a: Action<()> = queue.queue(Op::Rotate(1), false, true);
    assert_eq!(a, Action::Send(Signal::Rotate(1)));
    assert!(queue.working());
    let b: Action<()> = queue.queue(Op::Undo, false, true);
    assert_eq!(b, Action::Busy);
    queue.set_working(false);
    let c: Action<()> = queue.queue(Op::Undo, false, true);
    assert_eq!(c, Action::Send(Signal::Undo));
}

#[test]
fn queue_answers_each_request() {
    let cases: Vec<(Op<u8>, bool, bool, Action<u8>)> = vec![
        (
            Op::LoadPath("a.png".to_string(), false),
            true,
            true,
            Action::Load {
                path: "a.png".to_string(),
                use_cache: false,
                edited_prompt: true,
                prefetch: None,
            },
        ),
        (Op::LoadBytes(vec![1, 2]), false, false, Action::LoadBytes(vec![1, 2])),
        (Op::Save("b.png".to_string()), false, true, Action::Save("b.png".to_string())),
        (Op::Save("b.png".to_string()), false, false, Action::Stalled),
        (Op::Edit(5), false, true, Action::Edit(5)),
        (Op::FlipHorizontal, false, true, Action::Send(Signal::FlipHorizontal)),
        (Op::FlipVertical, false, true, Action::Send(Signal::FlipVertical)),
        (Op::Redo, false, true, Action::Send(Signal::Redo)),
        (Op::Close, false, true, Action::Send(Signal::Close)),
        (Op::Close, true, true, Action::ConfirmClose),
        (Op::Copy, false, true, Action::Copy),
        (Op::Paste, false, false, Action::Paste),
        (Op::Delete("c.png".to_string()), false, true, Action::Trash("c.png".to_string())),
        (Op::Next, false, false, Action::Send(Signal::Done)),
        (Op::Prev, false, false, Action::Send(Signal::Done)),
    ];
    for (op, edited, has_view, expected) in cases {
        let mut queue = OpQueue::new();
        assert_eq!(queue.queue(op, edited, has_view), expected);
        assert!(queue.working());
    }
}

#[test]
fn next_and_prev_load_the_neighbours() {
    let mut queue = OpQueue::new();
    let list = queue.image_list_mut();
    list.set_sort_order(simp::preferences::SortOrder::Name);
    list.change_dir("/p/b", Some("/p"), "/p");
    list.finish_scan("/p/b", dir_entry("/p/b"), vec![dir_entry("/p/a"), dir_entry("/p/c")]);
    let a: Action<()> = queue.queue(Op::Next, true, true);
    assert_eq!(
        a,
        Action::Load {
            path: "/p/c".to_string(),
            use_cache: true,
            edited_prompt: true,
            prefetch: Some("/p/a".to_string()),
        }
    );
    queue.set_working(false);
    let b: Action<()> = queue.queue(Op::Prev, false, true);
    assert_eq!(
        b,
        Action::Load {
            path: "/p/b".to_string(),
            use_cache: true,
            edited_prompt: false,
            prefetch: Some("/p/a".to_string()),
        }
    );
    assert_eq!(queue.image_list().index(), 1);
}

#[test]
fn trashing_loads_the_next_image_or_closes() {
    let mut queue = OpQueue::new();
    let list = queue.image_list_mut();
    list.set_sort_order(simp::preferences::SortOrder::Name);
    list.change_dir("/p/a", Some("/p"), "/p");
    list.finish_scan("/p/a", dir_entry("/p/a"), vec![dir_entry("/p/b")]);
    let t: Action<()> = queue.queue(Op::Delete("/p/a".to_string()), false, true);
    assert_eq!(t, Action::Trash("/p/a".to_string()));
    let next: Action<()> = queue.trashed("/p/a");
    assert_eq!(
        next,
        Action::Load {
            path: "/p/b".to_string(),
            use_cache: true,
            edited_prompt: false,
            prefetch: None,
        }
    );
    let last: Action<()> = queue.trashed("/p/b");
    assert_eq!(last, Action::Send(Signal::Close));
    assert_eq!(queue.image_list().len(), Some(0));
}

#[test]
fn trashing_the_last_image_loads_the_one_before() {
    let mut queue = OpQueue::new();
    let list = queue.image_list_mut();
    list.set_sort_order(simp::preferences::SortOrder::Name);
    list.change_dir("/p/b", Some("/p"), "/p");
    list.finish_scan("/p/b", dir_entry("/p/b"), vec![dir_entry("/p/a")]);
    assert_eq!(queue.image_list().index(), 1);
    let next: Action<()> = queue.trashed("/p/b");
    assert_eq!(
        next,
        Action::Load {
            path: "/p/a".to_string(),
            use_cache: true,
            edited_prompt: false,
            prefetch: None,
        }
    );
    assert_eq!(queue.image_list().index(), 0);
}

fn shown_frames(frames: Vec<u8>) -> Option<Shown<u8>> {
    Some(Shown { frames, orientation: Orientation::new() })
}

#[test]
fn a_rotation_is_undone_and_redone() {
    let mut stack: UndoStack<u8> = UndoStack::new();
    let mut view = shown_frames(vec![1]);
    apply_output(&mut stack, &mut view, Applied::Rotate(1), false);
    assert_eq!(view.as_ref().unwrap().orientation.rotation, 1);
    apply_output(&mut stack, &mut view, Applied::Rotate(-1), false);
    apply_output(&mut stack, &mut view, Applied::Rotate(-1), false);
    assert_eq!(view.as_ref().unwrap().orientation.rotation, 3);
    apply_output(&mut stack, &mut view, Applied::Undo, false);
    apply_output(&mut stack, &mut view, Applied::Undo, false);
    assert_eq!(view.as_ref().unwrap().orientation.rotation, 1);
    apply_output(&mut stack, &mut view, Applied::Undo, false);
    assert_eq!(view.as_ref().unwrap().orientation, Orientation::new());
    apply_output(&mut stack, &mut view, Applied::Redo, false);
    assert_eq!(view.as_ref().unwrap().orientation.rotation, 1);
}

#[test]
fn a_flip_on_a_sideways_image_is_recorded_and_undone() {
    let mut stack: UndoStack<u8> = UndoStack::new();
    let mut view = shown_frames(vec![1]);
    apply_output(&mut stack, &mut view, Applied::Rotate(1), false);
    apply_output(&mut stack, &mut view, Applied::FlipHorizontal, false);
    let o = view.as_ref().unwrap().orientation;
    assert!(o.vertical_flip && !o.horizontal_flip);
    assert!(matches!(stack.next_undo(), Some(UndoFrame::FlipVertical)));
    apply_output(&mut stack, &mut view, Applied::Undo, false);
    let o = view.as_ref().unwrap().orientation;
    assert!(!o.vertical_flip && !o.horizontal_flip && o.rotation == 1);
    assert!(!stack.is_edited());
}

#[test]
fn pixel_edits_swap_frames_back_and_forth() {
    let mut stack: UndoStack<u8> = UndoStack::new();
    let mut view = shown_frames(vec![1]);
    apply_output(&mut stack, &mut view, Applied::Resize(vec![2, 2]), false);
    assert_eq!(view.as_ref().unwrap().frames, vec![2, 2]);
    assert!(stack.is_edited());
    apply_output(&mut stack, &mut view, Applied::Undo, false);
    assert_eq!(view.as_ref().unwrap().frames, vec![1]);
    apply_output(&mut stack, &mut view, Applied::Redo, false);
    assert_eq!(view.as_ref().unwrap().frames, vec![2, 2]);
    apply_output(&mut stack, &mut view, Applied::Color(vec![3]), false);
    apply_output(&mut stack, &mut view, Applied::Saved, false);
    assert!(!stack.is_edited());
    apply_output(&mut stack, &mut view, Applied::Undo, false);
    assert_eq!(view.as_ref().unwrap().frames, vec![2, 2]);
}

#[test]
fn a_crop_resets_the_rotation_and_its_undo_restores_it() {
    let mut stack: UndoStack<u8> = UndoStack::new();
    let mut view = shown_frames(vec![1]);
    apply_output(&mut stack, &mut view, Applied::Rotate(1), false);
    apply_output(&mut stack, &mut view, Applied::Crop(vec![9], 1), false);
    assert_eq!(view.as_ref().unwrap().frames, vec![9]);
    assert_eq!(view.as_ref().unwrap().orientation.rotation, 0);
    apply_output(&mut stack, &mut view, Applied::Undo, false);
    assert_eq!(view.as_ref().unwrap().frames, vec![1]);
    assert_eq!(view.as_ref().unwrap().orientation.rotation, 1);
}

#[test]
fn an_unchanged_color_space_is_not_recorded() {
    let mut stack: UndoStack<u8> = UndoStack::new();
    let mut view = shown_frames(vec![1]);
    apply_output(&mut stack, &mut view, Applied::ColorSpace(vec![5]), false);
    assert_eq!(view.as_ref().unwrap().frames, vec![1]);
    assert!(stack.next_undo().is_none());
    apply_output(&mut stack, &mut view, Applied::ColorSpace(vec![5]), true);
    assert_eq!(view.as_ref().unwrap().frames, vec![5]);
}

#[test]
fn loading_and_closing_start_a_new_history() {
    let mut stack: UndoStack<u8> = UndoStack::new();
    let mut view = None;
    apply_output(&mut stack, &mut view, Applied::Loaded(vec![4]), false);
    assert_eq!(view.as_ref().unwrap().frames, vec![4]);
    apply_output(&mut stack, &mut view, Applied::Resize(vec![6]), false);
    apply_output(&mut stack, &mut view, Applied::Loaded(vec![7]), false);
    assert!(stack.next_undo().is_none());
    assert!(!stack.is_edited());
    apply_output(&mut stack, &mut view, Applied::Resize(vec![8]), false);
    apply_output(&mut stack, &mut view, Applied::Close, false);
    assert!(view.is_none());
    assert!(stack.next_undo().is_none());
    apply_output(&mut stack, &mut view, Applied::Done, false);
    apply_output(&mut stack, &mut view, Applied::Resize(vec![1]), false);
    assert!(view.is_none());
}

#[test]
fn redo_after_undo_brings_back_the_crop_and_the_flip() {
    let mut stack: UndoStack<u8> = UndoStack::new();
    let mut view = shown_frames(vec![1]);
    apply_output(&mut stack, &mut view, Applied::Rotate(1), false);
    apply_output(&mut stack, &mut view, Applied::Crop(vec![9], 1), false);
    apply_output(&mut stack, &mut view, Applied::FlipVertical, false);
    let after: (Vec<u8>, Orientation) = {
        let s = view.as_ref().unwrap();
        (s.frames.clone(), s.orientation)
    };
    assert!(after.1.vertical_flip && after.1.rotation == 0);
    apply_output(&mut stack, &mut view, Applied::Undo, false);
    apply_output(&mut stack, &mut view, Applied::Undo, false);
    assert_eq!(view.as_ref().unwrap().frames, vec![1]);
    assert_eq!(view.as_ref().unwrap().orientation.rotation, 1);
    apply_output(&mut stack, &mut view, Applied::Redo, false);
    apply_output(&mut stack, &mut view, Applied::Redo, false);
    assert_eq!(view.as_ref().unwrap().frames, after.0);
    assert_eq!(view.as_ref().unwrap().orientation, after.1);
    apply_output(&mut stack, &mut view, Applied::Undo, false);
    apply_output(&mut stack, &mut view, Applied::Redo, false);
    assert_eq!(view.as_ref().unwrap().orientation, after.1);
}

#[test]
fn closing_forgets_the_image_the_directory_and_the_cache() {
    let mut stack: UndoStack<u8> = UndoStack::new();
    let mut view = shown_frames(vec![1]);
    apply_output(&mut stack, &mut view, Applied::Resize(vec![2]), false);
    let mut list = ImageList::new();
    list.set_sort_order(SortOrder::Size);
    list.change_dir("/d/b", Some("/d"), "/d");
    list.finish_scan("/d/b", dir_entry("/d/b"), vec![dir_entry("/d/a")]);
    assert!(list.len().is_some());
    let mut cache = Cache::new(100);
    cache.put("/d/b".to_string(), 10);
    close_image(&mut stack, &mut view, &mut list, &mut cache);
    assert!(view.is_none());
    assert!(stack.undo().is_none());
    assert!(stack.redo().is_none());
    assert!(!stack.is_edited());
    assert_eq!(list.len(), None);
    assert_eq!(list.next(), None);
    assert_eq!(list.sort_order(), SortOrder::Size);
    assert!(!cache.contains("/d/b"));
    assert!(cache.put("/d/c".to_string(), 99).evicted.is_empty());
}
