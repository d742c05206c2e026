use simp::image_list::{next_index, prev_index, sort_list, DirChange, ImageList, ImageListEntry};
use simp::preferences::SortOrder;

fn entry(path: &str) -> ImageListEntry {
    ImageListEntry {
        path: path.to_string(),
        accessed: None,
        created: None,
        modified: None,
        exif_date: None,
        size: 0,
    }
}

fn paths(list: &[ImageListEntry]) -> Vec<&str> {
    list.iter().map(|e| e.path.as_str()).collect()
}

#[test]
fn sort_by_name_is_natural() {
    let mut list = vec![entry("img10.png"), entry("img2.png"), entry("img1.png")];
    sort_list(&mut list, SortOrder::Name);
    assert_eq!(paths(&list), vec!["img1.png", "img2.png", "img10.png"]);
}

#[test]
fn sort_by_size_is_ascending_and_stable() {
    let mut a = entry("a");
    a.size = 30;
    let mut b = entry("b");
    b.size = 10;
    let mut c = entry("c");
    c.size = 30;
    let mut d = entry("d");
    d.size = 20;
    let mut list = vec![a, b, c, d];
    sort_list(&mut list, SortOrder::Size);
    assert_eq!(paths(&list), vec!["b", "d", "a", "c"]);
}

#[test]
fn missing_times_come_first() {
    let mut a = entry("a");
    a.modified = Some(3);
    let b = entry("b");
    let mut c = entry("c");
    c.modified = Some(-5);
    let mut list = vec![a, b, c];
    sort_list(&mut list, SortOrder::ModifiedTime);
    assert_eq!(paths(&list), vec!["b", "c", "a"]);

    let mut x = entry("x");
    x.accessed = Some(1);
    let y = entry("y");
    let mut list = vec![x, y];
    sort_list(&mut list, SortOrder::AccessTime);
    assert_eq!(paths(&list), vec!["y", "x"]);

    let mut p = entry("p");
    p.created = Some(9);
    let mut q = entry("q");
    q.created = Some(8);
    let mut list = vec![p, q];
    sort_list(&mut list, SortOrder::CreatedTime);
    assert_eq!(paths(&list), vec!["q", "p"]);
}

#[test]
fn metadata_time_prefers_exif_then_modified_then_epoch() {
    let mut a = entry("a");
    a.exif_date = Some(100);
    a.modified = Some(1);
    let mut b = entry("b");
    b.modified = Some(50);
    let c = entry("c");
    let mut d = entry("d");
    d.modified = Some(-1);
    let mut list = vec![a, b, c, d];
    sort_list(&mut list, SortOrder::MetadataTime);
    assert_eq!(paths(&list), vec!["d", "c", "b", "a"]);
}

#[test]
fn sorting_a_sorted_list_changes_nothing() {
    let mut list = vec![entry("a1"), entry("a2"), entry("a10"), entry("b")];
    let before = list.clone();
    sort_list(&mut list, SortOrder::Name);
    assert_eq!(list, before);
    sort_list(&mut list, SortOrder::Name);
    assert_eq!(list, before);
}

#[test]
fn empty_list_sorts_to_empty() {
    let mut list: Vec<ImageListEntry> = Vec::new();
    sort_list(&mut list, SortOrder::Size);
    assert!(list.is_empty());
}

#[test]
fn index_steps_wrap() {
    assert_eq!(next_index(0, 3), 1);
    assert_eq!(next_index(2, 3), 0);
    assert_eq!(next_index(0, 1), 0);
    assert_eq!(prev_index(0, 3), 2);
    assert_eq!(prev_index(2, 3), 1);
    assert_eq!(prev_index(0, 1), 0);
    for len in 1..5usize {
        for i in 0..len {
            assert_eq!(prev_index(next_index(i, len), len), i);
            assert_eq!(next_index(prev_index(i, len), len), i);
        }
    }
}

fn scanned(order: SortOrder) -> ImageList {
    let mut list = ImageList::new();
    if order != list.sort_order() {
        list.set_sort_order(order);
    }
    assert_eq!(list.change_dir("/pics/b.png", Some("/pics"), "/pics"), DirChange::Scan);
    let (next, prev) = list.finish_scan(
        "/pics/b.png",
        entry("/pics/b.png"),
        vec![entry("/pics/c.png"), entry("/pics/a.png")],
    );
    assert_eq!(next, "/pics/c.png");
    assert_eq!(prev, "/pics/a.png");
    list
}

#[test]
fn new_list_is_empty_and_ordered_by_metadata() {
    let list = ImageList::new();
    assert_eq!(list.len(), None);
    assert_eq!(list.index(), 0);
    assert!(list.has_current());
    assert_eq!(list.sort_order(), SortOrder::MetadataTime);
    assert_eq!(list.prefetch_forward(), None);
    assert_eq!(list.prefetch_backward(), None);
}

#[test]
fn next_and_prev_walk_and_wrap() {
    let mut list = scanned(SortOrder::Name);
    assert_eq!(list.len(), Some(3));
    assert_eq!(list.index(), 1);
    assert_eq!(list.next().as_deref(), Some("/pics/c.png"));
    assert_eq!(list.next().as_deref(), Some("/pics/a.png"));
    assert_eq!(list.index(), 0);
    assert_eq!(list.prev().as_deref(), Some("/pics/c.png"));
    assert_eq!(list.prefetch_forward().as_deref(), Some("/pics/a.png"));
    assert_eq!(list.prefetch_backward().as_deref(), Some("/pics/b.png"));
}

#[test]
fn next_without_list_gives_nothing() {
    let mut list = ImageList::new();
    assert_eq!(list.next(), None);
    assert_eq!(list.prev(), None);
}

#[test]
fn changing_sort_order_keeps_the_same_image() {
    let mut a = entry("/d/a");
    a.size = 3;
    let mut b = entry("/d/b");
    b.size = 1;
    let mut c = entry("/d/c");
    c.size = 2;
    let mut list = ImageList::new();
    list.set_sort_order(SortOrder::Name);
    list.change_dir("/d/b", Some("/d"), "/d");
    list.finish_scan("/d/b", b, vec![a, c]);
    assert_eq!(list.index(), 1);
    list.set_sort_order(SortOrder::Size);
    // sizes 1, 2, 3: b, c, a
    assert_eq!(list.index(), 0);
    assert_eq!(list.prefetch_forward().as_deref(), Some("/d/c"));
    assert_eq!(list.sort_order(), SortOrder::Size);
}

#[test]
fn trash_removes_the_current_image() {
    let mut list = scanned(SortOrder::Name);
    assert_eq!(list.trash("/pics/b.png").as_deref(), Some("/pics/c.png"));
    assert_eq!(list.len(), Some(2));
    assert_eq!(list.index(), 1);
    // the last image gives way to the one before it
    assert_eq!(list.trash("/pics/c.png").as_deref(), Some("/pics/a.png"));
    assert_eq!(list.len(), Some(1));
    assert_eq!(list.index(), 0);
    // no image is left
    assert_eq!(list.trash("/pics/a.png"), None);
    assert_eq!(list.len(), Some(0));
}

#[test]
fn trash_of_another_path_keeps_the_list() {
    let mut list = scanned(SortOrder::Name);
    assert_eq!(list.trash("/pics/a.png"), None);
    assert_eq!(list.len(), Some(3));
}

#[test]
fn change_dir_decisions() {
    let mut list = scanned(SortOrder::Name);
    // same parent as the listed directory
    assert_eq!(list.change_dir("/pics/a.png", Some("/pics"), "/pics"), DirChange::Unchanged);
    assert_eq!(list.index(), 1);
    // the listed directory, given without the parent path
    assert_eq!(list.change_dir("/pics/a.png", None, "/pics"), DirChange::Located);
    assert_eq!(list.index(), 0);
    // another directory
    assert_eq!(list.change_dir("/other/x.png", Some("/other"), "/other"), DirChange::Scan);
    assert_eq!(list.len(), Some(3));
}

#[test]
fn clear_forgets_the_directory() {
    let mut list = scanned(SortOrder::Name);
    list.clear();
    assert_eq!(list.len(), None);
    assert_eq!(list.index(), 0);
    assert_eq!(list.sort_order(), SortOrder::Name);
}
