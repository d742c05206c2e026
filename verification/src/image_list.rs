use std::cmp::Ordering;

use vstd::prelude::*;

use crate::natural_cmp::{
    natural_cmp, natural_order, natural_order_antisymmetric, natural_order_transitive,
};
use crate::preferences::SortOrder;
use crate::text::str_eq;

verus! {

/// One image file of the listed directory, with the keys it can be sorted by.
/// Times are nanoseconds since the Unix epoch, negative before it.
#[derive(Debug, Clone, PartialEq, Eq)]
pub struct ImageListEntry {
    pub path: String,
    pub accessed: Option<i128>,
    pub created: Option<i128>,
    pub modified: Option<i128>,
    pub exif_date: Option<i128>,
    pub size: u64,
}

/// `a` is later than `b`, where a missing time comes before every time.
pub open spec fn option_later(a: Option<i128>, b: Option<i128>) -> bool {
    match (a, b) {
        (Some(x), Some(y)) => x > y,
        (Some(_), None) => true,
        _ => false,
    }
}

/// The time an entry is ordered by under `SortOrder::MetadataTime`:
/// the exif date, else the modification time, else the epoch.
pub open spec fn metadata_time(e: ImageListEntry) -> i128 {
    match e.exif_date {
        Some(t) => t,
        None => match e.modified {
            Some(t) => t,
            None => 0,
        },
    }
}

/// `a` belongs after `b` under the given sort order.
pub open spec fn entry_after(a: ImageListEntry, b: ImageListEntry, order: SortOrder) -> bool {
    match order {
        SortOrder::AccessTime => option_later(a.accessed, b.accessed),
        SortOrder::CreatedTime => option_later(a.created, b.created),
        SortOrder::MetadataTime => metadata_time(a) > metadata_time(b),
        SortOrder::ModifiedTime => option_later(a.modified, b.modified),
        SortOrder::Name => natural_order(a.path@, b.path@) == Ordering::Greater,
        SortOrder::Size => a.size > b.size,
    }
}

/// Inserts `x` into `sorted` behind every element it does not belong before:
/// one step of a stable insertion sort.
pub open spec fn insert_sorted(sorted: Seq<ImageListEntry>, x: ImageListEntry, order: SortOrder) -> Seq<
    ImageListEntry,
>
    decreases sorted.len(),
{
    if sorted.len() == 0 || !entry_after(sorted.last(), x, order) {
        sorted.push(x)
    } else {
        insert_sorted(sorted.drop_last(), x, order).push(sorted.last())
    }
}

/// The stable sort of `s` by `order`: entries with equal keys keep their order.
pub open spec fn sorted_by(s: Seq<ImageListEntry>, order: SortOrder) -> Seq<ImageListEntry>
    decreases s.len(),
{
    if s.len() == 0 {
        Seq::empty()
    } else {
        insert_sorted(sorted_by(s.drop_last(), order), s.last(), order)
    }
}

/// No entry of `s` belongs after the entry that follows it.
pub open spec fn is_sorted(s: Seq<ImageListEntry>, order: SortOrder) -> bool {
    forall|i: int| 0 <= i < s.len() - 1 ==> !entry_after(#[trigger] s[i], s[i + 1], order)
}

/// Exec form of [`entry_after`].
fn entry_after_exec(a: &ImageListEntry, b: &ImageListEntry, order: SortOrder) -> (r: bool)
    ensures
        r == entry_after(*a, *b, order),
{
    match order {
        SortOrder::AccessTime => option_later_exec(a.accessed, b.accessed),
        SortOrder::CreatedTime => option_later_exec(a.created, b.created),
        SortOrder::MetadataTime => metadata_time_exec(a) > metadata_time_exec(b),
        SortOrder::ModifiedTime => option_later_exec(a.modified, b.modified),
        SortOrder::Name => match natural_cmp(a.path.as_str(), b.path.as_str()) {
            Ordering::Greater => true,
            _ => false,
        },
        SortOrder::Size => a.size > b.size,
    }
}

fn option_later_exec(a: Option<i128>, b: Option<i128>) -> (r: bool)
    ensures
        r == option_later(a, b),
{
    match (a, b) {
        (Some(x), Some(y)) => x > y,
        (Some(_), None) => true,
        _ => false,
    }
}

fn metadata_time_exec(e: &ImageListEntry) -> (r: i128)
    ensures
        r == metadata_time(*e),
{
    match e.exif_date {
        Some(t) => t,
        None => match e.modified {
            Some(t) => t,
            None => 0,
        },
    }
}

proof fn lemma_insert_sorted_split(s: Seq<ImageListEntry>, x: ImageListEntry, order: SortOrder, p: int)
    requires
        0 <= p <= s.len(),
        forall|q: int| p <= q < s.len() ==> entry_after(#[trigger] s[q], x, order),
    ensures
        insert_sorted(s, x, order) == insert_sorted(s.take(p), x, order) + s.skip(p),
    decreases s.len() - p,
{
    if p < s.len() {
        lemma_insert_sorted_split(s, x, order, p + 1);
        let t = s.take(p + 1);
        assert(t.drop_last() =~= s.take(p));
        assert(t.last() == s[p]);
        assert(insert_sorted(t, x, order) == insert_sorted(s.take(p), x, order).push(s[p]));
        assert(insert_sorted(s.take(p), x, order).push(s[p]) + s.skip(p + 1) =~= insert_sorted(
            s.take(p),
            x,
            order,
        ) + s.skip(p));
    } else {
        assert(s.take(p) =~= s);
        assert(s.skip(p) =~= Seq::<ImageListEntry>::empty());
        assert(insert_sorted(s, x, order) + s.skip(p) =~= insert_sorted(s, x, order));
    }
}

/// Inserts `x` into `out` at the place a stable insertion sort puts it.
fn insert_entry(out: &mut Vec<ImageListEntry>, x: ImageListEntry, order: SortOrder)
    ensures
        final(out)@ == insert_sorted(old(out)@, x, order),
{
    let mut p: usize = out.len();
    while p > 0 && entry_after_exec(&out[p - 1], &x, order)
        invariant
            p <= out.len(),
            forall|q: int| p <= q < out@.len() ==> entry_after(#[trigger] out@[q], x, order),
        decreases p,
    {
        p = p - 1;
    }
    proof {
        lemma_insert_sorted_split(out@, x, order, p as int);
        let t = out@.take(p as int);
        if t.len() > 0 {
            assert(t.last() == out@[p - 1]);
        }
        assert(insert_sorted(t, x, order) == t.push(x));
    }
    let ghost before = out@;
    out.insert(p, x);
    assert(out@ =~= before.take(p as int).push(x) + before.skip(p as int));
}

/// Sorts the entries by `order`. The sort is stable: entries with equal keys
/// keep their relative order.
pub fn sort_list(list: &mut Vec<ImageListEntry>, sort_order: SortOrder)
    ensures
        final(list)@ == sorted_by(old(list)@, sort_order),
{
    let ghost orig = list@;
    let n: usize = list.len();
    let mut out: Vec<ImageListEntry> = Vec::new();
    let mut k: usize = 0;
    assert(orig.take(0) =~= Seq::<ImageListEntry>::empty());
    while list.len() > 0
        invariant
            k <= orig.len(),
            list@ == orig.skip(k as int),
            list.len() == orig.len() - k,
            orig.len() == n,
            out@ == sorted_by(orig.take(k as int), sort_order),
        decreases list.len(),
    {
        assert(k < orig.len());
        let x = list.remove(0);
        proof {
            let t = orig.take(k + 1);
            assert(t.drop_last() =~= orig.take(k as int));
            assert(t.last() == x);
        }
        insert_entry(&mut out, x, sort_order);
        k = k + 1;
        assert(list@ =~= orig.skip(k as int));
    }
    assert(orig.take(k as int) =~= orig);
    *list = out;
}

/// Two entries never each belong after the other.
pub proof fn entry_after_asymmetric(a: ImageListEntry, b: ImageListEntry, order: SortOrder)
    ensures
        entry_after(a, b, order) ==> !entry_after(b, a, order),
{
    natural_order_antisymmetric(a.path@, b.path@);
}

proof fn lemma_insert_sorted_facts(s: Seq<ImageListEntry>, x: ImageListEntry, order: SortOrder)
    ensures
        insert_sorted(s, x, order).len() == s.len() + 1,
        insert_sorted(s, x, order).to_multiset() =~= s.to_multiset().insert(x),
        insert_sorted(s, x, order).last() == x || (s.len() > 0 && insert_sorted(s, x, order).last()
            == s.last()),
        is_sorted(s, order) ==> is_sorted(insert_sorted(s, x, order), order),
    decreases s.len(),
{
    broadcast use vstd::seq_lib::group_to_multiset_ensures;

    if s.len() == 0 || !entry_after(s.last(), x, order) {
    } else {
        let dl = s.drop_last();
        lemma_insert_sorted_facts(dl, x, order);
        assert(dl.push(s.last()) =~= s);
        let r = insert_sorted(dl, x, order);
        if is_sorted(s, order) {
            assert(is_sorted(dl, order)) by {
                assert forall|i: int| 0 <= i < dl.len() - 1 implies !entry_after(
                    #[trigger] dl[i],
                    dl[i + 1],
                    order,
                ) by {
                    assert(dl[i] == s[i] && dl[i + 1] == s[i + 1]);
                }
            }
            entry_after_asymmetric(s.last(), x, order);
            if r.last() != x {
                assert(s[s.len() - 2] == dl.last());
            }
            let rr = r.push(s.last());
            assert forall|i: int| 0 <= i < rr.len() - 1 implies !entry_after(
                #[trigger] rr[i],
                rr[i + 1],
                order,
            ) by {
                if i < rr.len() - 2 {
                    assert(rr[i] == r[i] && rr[i + 1] == r[i + 1]);
                } else {
                    assert(rr[i] == r.last());
                }
            }
        }
    }
}

/// Sorting keeps exactly the entries it was given.
pub proof fn sorted_by_permutes(s: Seq<ImageListEntry>, order: SortOrder)
    ensures
        sorted_by(s, order).to_multiset() =~= s.to_multiset(),
        sorted_by(s, order).len() == s.len(),
    decreases s.len(),
{
    broadcast use vstd::seq_lib::group_to_multiset_ensures;

    if s.len() > 0 {
        sorted_by_permutes(s.drop_last(), order);
        lemma_insert_sorted_facts(sorted_by(s.drop_last(), order), s.last(), order);
        assert(s.drop_last().push(s.last()) =~= s);
    }
}

/// After sorting, no entry belongs after the one that follows it.
pub proof fn sorted_by_is_sorted(s: Seq<ImageListEntry>, order: SortOrder)
    ensures
        is_sorted(sorted_by(s, order), order),
    decreases s.len(),
{
    if s.len() > 0 {
        sorted_by_is_sorted(s.drop_last(), order);
        lemma_insert_sorted_facts(sorted_by(s.drop_last(), order), s.last(), order);
    }
}

/// A list that is already in order is left as it is.
pub proof fn sorted_by_keeps_sorted(s: Seq<ImageListEntry>, order: SortOrder)
    requires
        is_sorted(s, order),
    ensures
        sorted_by(s, order) == s,
    decreases s.len(),
{
    if s.len() > 0 {
        let dl = s.drop_last();
        assert(is_sorted(dl, order)) by {
            assert forall|i: int| 0 <= i < dl.len() - 1 implies !entry_after(
                #[trigger] dl[i],
                dl[i + 1],
                order,
            ) by {
                assert(dl[i] == s[i] && dl[i + 1] == s[i + 1]);
            }
        }
        sorted_by_keeps_sorted(dl, order);
        if dl.len() > 0 {
            assert(dl.last() == s[s.len() - 2]);
        }
        assert(dl.push(s.last()) =~= s);
    }
}

/// "Does not belong after" chains: if `a` does not belong after `b` and `b`
/// does not belong after `c`, then `a` does not belong after `c`.
proof fn lemma_not_after_transitive(
    a: ImageListEntry,
    b: ImageListEntry,
    c: ImageListEntry,
    order: SortOrder,
)
    requires
        !entry_after(a, b, order),
        !entry_after(b, c, order),
    ensures
        !entry_after(a, c, order),
{
    if order == SortOrder::Name {
        natural_order_transitive(a.path@, b.path@, c.path@);
    }
}

proof fn lemma_sorted_pairwise(s: Seq<ImageListEntry>, order: SortOrder, i: int, j: int)
    requires
        is_sorted(s, order),
        0 <= i < j < s.len(),
    ensures
        !entry_after(s[i], s[j], order),
    decreases j - i,
{
    assert(!entry_after(s[j - 1], s[j], order));
    if j > i + 1 {
        lemma_sorted_pairwise(s, order, i, j - 1);
        lemma_not_after_transitive(s[i], s[j - 1], s[j], order);
    }
}

/// After sorting, no entry belongs after any entry that comes later in the list.
pub proof fn sorted_by_in_order(s: Seq<ImageListEntry>, order: SortOrder)
    ensures
        forall|i: int, j: int|
            0 <= i < j < sorted_by(s, order).len() ==> !entry_after(
                #[trigger] sorted_by(s, order)[i],
                #[trigger] sorted_by(s, order)[j],
                order,
            ),
{
    let r = sorted_by(s, order);
    sorted_by_is_sorted(s, order);
    assert forall|i: int, j: int| 0 <= i < j < r.len() implies !entry_after(
        #[trigger] r[i],
        #[trigger] r[j],
        order,
    ) by {
        lemma_sorted_pairwise(r, order, i, j);
    }
}

/// Neither entry belongs after the other: they have the same key.
pub open spec fn tied(a: ImageListEntry, b: ImageListEntry, order: SortOrder) -> bool {
    !entry_after(a, b, order) && !entry_after(b, a, order)
}

/// The entries of `s` that have the key of `e`, in their order in `s`.
pub open spec fn ties(s: Seq<ImageListEntry>, e: ImageListEntry, order: SortOrder) -> Seq<
    ImageListEntry,
>
    decreases s.len(),
{
    if s.len() == 0 {
        Seq::empty()
    } else if tied(s.last(), e, order) {
        ties(s.drop_last(), e, order).push(s.last())
    } else {
        ties(s.drop_last(), e, order)
    }
}

/// An entry that belongs after `x` does not have the key of an entry tied with `x`.
proof fn lemma_after_is_not_tied(
    y: ImageListEntry,
    x: ImageListEntry,
    e: ImageListEntry,
    order: SortOrder,
)
    requires
        entry_after(y, x, order),
        tied(x, e, order),
    ensures
        !tied(y, e, order),
{
    if order == SortOrder::Name && tied(y, e, order) {
        natural_order_transitive(y.path@, e.path@, x.path@);
    }
}

proof fn lemma_insert_keeps_ties(
    t: Seq<ImageListEntry>,
    x: ImageListEntry,
    e: ImageListEntry,
    order: SortOrder,
)
    ensures
        ties(insert_sorted(t, x, order), e, order) == if tied(x, e, order) {
            ties(t, e, order).push(x)
        } else {
            ties(t, e, order)
        },
    decreases t.len(),
{
    if t.len() == 0 || !entry_after(t.last(), x, order) {
        let r = t.push(x);
        assert(r.drop_last() =~= t);
    } else {
        let dl = t.drop_last();
        lemma_insert_keeps_ties(dl, x, e, order);
        let inner = insert_sorted(dl, x, order);
        let r = inner.push(t.last());
        assert(r.drop_last() =~= inner);
        if tied(x, e, order) {
            lemma_after_is_not_tied(t.last(), x, e, order);
        }
    }
}

/// Sorting is stable: the entries with the key of any entry `e` keep their
/// order.
pub proof fn sorted_by_is_stable(s: Seq<ImageListEntry>, order: SortOrder, e: ImageListEntry)
    ensures
        ties(sorted_by(s, order), e, order) == ties(s, e, order),
    decreases s.len(),
{
    if s.len() > 0 {
        sorted_by_is_stable(s.drop_last(), order, e);
        lemma_insert_keeps_ties(sorted_by(s.drop_last(), order), s.last(), e, order);
    }
}

/// Sorting twice gives the same list as sorting once.
pub proof fn sorted_by_idempotent(s: Seq<ImageListEntry>, order: SortOrder)
    ensures
        sorted_by(sorted_by(s, order), order) == sorted_by(s, order),
{
    sorted_by_is_sorted(s, order);
    sorted_by_keeps_sorted(sorted_by(s, order), order);
}

/// The position after `index` in a list of `len` entries, wrapping to the start.
pub open spec fn forward(index: int, len: int) -> int {
    if len <= index + 1 {
        0
    } else {
        index + 1
    }
}

/// The position before `index` in a list of `len` entries, wrapping to the end.
pub open spec fn backward(index: int, len: int) -> int {
    if index == 0 {
        len - 1
    } else {
        index - 1
    }
}

/// The position after `index`, wrapping to 0 at the end of a list of `len` entries.
pub fn next_index(index: usize, len: usize) -> (r: usize)
    requires
        index < usize::MAX,
    ensures
        r == forward(index as int, len as int),
{
    let next = index + 1;
    if len <= next {
        0
    } else {
        next
    }
}

/// The position before `index`, wrapping to the last entry of a list of `len` entries.
pub fn prev_index(index: usize, len: usize) -> (r: usize)
    requires
        index == 0 ==> len > 0,
    ensures
        r == backward(index as int, len as int),
{
    let current = index;
    if current == 0 {
        len - 1
    } else {
        current - 1
    }
}

/// Stepping forward and then back returns to the same image, and so does
/// stepping back and then forward.
pub proof fn forward_backward_inverse(index: int, len: int)
    requires
        0 <= index < len,
    ensures
        backward(forward(index, len), len) == index,
        forward(backward(index, len), len) == index,
        0 <= forward(index, len) < len,
        0 <= backward(index, len) < len,
{
}

/// Position of the last entry among the first `n` of `s` whose path is `p`.
pub open spec fn last_match(s: Seq<ImageListEntry>, p: Seq<char>, n: int) -> Option<int>
    decreases n,
{
    if n <= 0 {
        None
    } else if s[n - 1].path@ == p {
        Some(n - 1)
    } else {
        last_match(s, p, n - 1)
    }
}

proof fn lemma_last_match(s: Seq<ImageListEntry>, p: Seq<char>, n: int)
    requires
        0 <= n <= s.len(),
    ensures
        last_match(s, p, n) matches Some(k) ==> 0 <= k < n && s[k].path@ == p,
        (exists|k: int| 0 <= k < n && #[trigger] s[k].path@ == p) ==> last_match(s, p, n) is Some,
    decreases n,
{
    if n > 0 {
        lemma_last_match(s, p, n - 1);
        if exists|k: int| 0 <= k < n && #[trigger] s[k].path@ == p {
            let k = choose|k: int| 0 <= k < n && #[trigger] s[k].path@ == p;
            if k < n - 1 {
                assert(0 <= k < n - 1 && s[k].path@ == p);
            }
        }
    }
}

/// Finds the last entry of `list` whose path is `p`.
fn find_last(list: &Vec<ImageListEntry>, p: &str) -> (r: Option<usize>)
    ensures
        r matches Some(k) ==> last_match(list@, p@, list@.len() as int) == Some(k as int),
        r is None ==> last_match(list@, p@, list@.len() as int) is None,
{
    let mut found: Option<usize> = None;
    let mut i: usize = 0;
    while i < list.len()
        invariant
            i <= list.len(),
            found matches Some(k) ==> last_match(list@, p@, i as int) == Some(k as int),
            found is None ==> last_match(list@, p@, i as int) is None,
        decreases list.len() - i,
    {
        if str_eq(list[i].path.as_str(), p) {
            found = Some(i);
        }
        i = i + 1;
    }
    found
}

/// The position of the new current image after the image at `i` left a list
/// that now holds `len` images: the same position, or the last one when the
/// removed image was last.
pub open spec fn trashed_position(i: int, len: int) -> int {
    if i < len {
        i
    } else {
        len - 1
    }
}

/// The abstract state of an [`ImageList`].
pub struct ImageListView {
    pub list: Option<Seq<ImageListEntry>>,
    pub index: int,
    pub dir: Option<Seq<char>>,
    pub sort_order: SortOrder,
}

impl ImageListView {
    /// The position stays within the list, one past its end at most.
    pub open spec fn wf(self) -> bool {
        &&& 0 <= self.index
        &&& self.list matches Some(l) ==> self.index <= l.len()
    }

    /// The position names an entry whenever there is a list.
    pub open spec fn has_current(self) -> bool {
        self.list matches Some(l) ==> self.index < l.len()
    }

    /// There is no list, or it holds at least one entry.
    pub open spec fn not_empty(self) -> bool {
        self.list matches Some(l) ==> l.len() > 0
    }
}

/// What [`ImageList::change_dir`] decided.
#[derive(Debug, Clone, Copy, PartialEq, Eq, Structural)]
pub enum DirChange {
    /// The image is in the directory already listed: nothing changes.
    Unchanged,
    /// The listed directory holds the image: the position moved to it.
    Located,
    /// Another directory: it must be scanned and handed to [`ImageList::finish_scan`].
    Scan,
}

/// The images of the current directory in their sort order, and the position
/// of the image on screen.
pub struct ImageList {
    list: Option<Vec<ImageListEntry>>,
    index: usize,
    path: Option<String>,
    sort_order: SortOrder,
}

impl View for ImageList {
    type V = ImageListView;

    closed spec fn view(&self) -> ImageListView {
        ImageListView {
            list: match self.list {
                Some(l) => Some(l@),
                None => None,
            },
            index: self.index as int,
            dir: match self.path {
                Some(p) => Some(p@),
                None => None,
            },
            sort_order: self.sort_order,
        }
    }
}

impl ImageList {
    /// An empty list, ordered by the default sort order.
    pub fn new() -> (r: ImageList)
        ensures
            r@ == (ImageListView {
                list: None,
                index: 0,
                dir: None,
                sort_order: SortOrder::MetadataTime,
            }),
    {
        ImageList { list: None, index: 0, path: None, sort_order: SortOrder::MetadataTime }
    }

    /// Forgets the listed directory.
    pub fn clear(&mut self)
        ensures
            final(self)@ == (ImageListView {
                list: None,
                index: 0,
                dir: None,
                sort_order: old(self)@.sort_order,
            }),
    {
        self.list = None;
        self.path = None;
        self.index = 0;
    }

    /// The position of the image on screen.
    pub fn index(&self) -> (r: usize)
        ensures
            r as int == self@.index,
    {
        self.index
    }

    /// The number of listed images, if a directory has been listed.
    pub fn len(&self) -> (r: Option<usize>)
        ensures
            match (r, self@.list) {
                (Some(n), Some(l)) => n == l.len(),
                (None, None) => true,
                _ => false,
            },
    {
        match &self.list {
            Some(l) => Some(l.len()),
            None => None,
        }
    }

    /// True when there is no list or the position names one of its entries.
    pub fn has_current(&self) -> (r: bool)
        ensures
            r == self@.has_current(),
    {
        match &self.list {
            Some(l) => self.index < l.len(),
            None => true,
        }
    }

    /// The current sort order.
    pub fn sort_order(&self) -> (r: SortOrder)
        ensures
            r == self@.sort_order,
    {
        self.sort_order
    }

    /// Orders the list by `sort_order` and keeps the position on the same image.
    pub fn set_sort_order(&mut self, sort_order: SortOrder)
        requires
            old(self)@.wf(),
            old(self)@.has_current(),
        ensures
            final(self)@.wf(),
            final(self)@.dir == old(self)@.dir,
            final(self)@.sort_order == sort_order,
            old(self)@.sort_order == sort_order ==> final(self)@ == old(self)@,
            old(self)@.sort_order != sort_order ==> match old(self)@.list {
                None => final(self)@.list is None && final(self)@.index == old(self)@.index,
                Some(l) => {
                    let sorted = sorted_by(l, sort_order);
                    &&& final(self)@.list == Some(sorted)
                    &&& last_match(sorted, l[old(self)@.index].path@, sorted.len() as int) == Some(
                        final(self)@.index,
                    )
                    &&& sorted[final(self)@.index].path@ == l[old(self)@.index].path@
                    &&& forall|j: int|
                        final(self)@.index < j < sorted.len() ==> #[trigger] sorted[j].path@
                            != l[old(self)@.index].path@
                },
            },
    {
        if self.sort_order == sort_order {
            return;
        }
        self.sort_order = sort_order;
        let current = self.index;
        match self.list.take() {
            None => {},
            Some(mut list) => {
                let ghost l = list@;
                let current_path = list[current].path.clone();
                sort_list(&mut list, sort_order);
                proof {
                    sorted_by_permutes(l, sort_order);
                    lemma_contains_after_permute(l, list@, current as int);
                    lemma_last_match(list@, current_path@, list@.len() as int);
                    last_match_is_last_entry(list@, current_path@, list@.len() as int);
                }
                match find_last(&list, current_path.as_str()) {
                    Some(k) => {
                        self.index = k;
                    },
                    None => {},
                }
                self.list = Some(list);
            },
        }
    }

    /// Moves to the next image, wrapping to the first, and gives its path.
    pub fn next(&mut self) -> (r: Option<String>)
        requires
            old(self)@.wf(),
            old(self)@.not_empty(),
        ensures
            final(self)@.wf(),
            final(self)@.list == old(self)@.list,
            final(self)@.dir == old(self)@.dir,
            final(self)@.sort_order == old(self)@.sort_order,
            match old(self)@.list {
                None => r is None && final(self)@.index == old(self)@.index,
                Some(l) => {
                    &&& final(self)@.index == forward(old(self)@.index, l.len() as int)
                    &&& r matches Some(p) && p@ == l[final(self)@.index].path@
                },
            },
    {
        match &self.list {
            None => None,
            Some(list) => {
                let index = if self.index >= list.len() - 1 {
                    0
                } else {
                    self.index + 1
                };
                self.index = index;
                Some(list[index].path.clone())
            },
        }
    }

    /// Moves to the previous image, wrapping to the last, and gives its path.
    pub fn prev(&mut self) -> (r: Option<String>)
        requires
            old(self)@.wf(),
            old(self)@.not_empty(),
        ensures
            final(self)@.wf(),
            final(self)@.list == old(self)@.list,
            final(self)@.dir == old(self)@.dir,
            final(self)@.sort_order == old(self)@.sort_order,
            match old(self)@.list {
                None => r is None && final(self)@.index == old(self)@.index,
                Some(l) => {
                    &&& final(self)@.index == backward(old(self)@.index, l.len() as int)
                    &&& r matches Some(p) && p@ == l[final(self)@.index].path@
                },
            },
    {
        match &self.list {
            None => None,
            Some(list) => {
                let index = prev_index(self.index, list.len());
                self.index = index;
                Some(list[index].path.clone())
            },
        }
    }

    /// The image to load ahead after a step forward: the one after the current.
    pub fn prefetch_forward(&self) -> (r: Option<String>)
        requires
            self@.wf(),
            self@.has_current(),
        ensures
            match self@.list {
                None => r is None,
                Some(l) => r matches Some(p) && p@ == l[forward(self@.index, l.len() as int)].path@,
            },
    {
        match &self.list {
            None => None,
            Some(list) => Some(list[next_index(self.index, list.len())].path.clone()),
        }
    }

    /// The image to load ahead after a step back: the one before the current.
    pub fn prefetch_backward(&self) -> (r: Option<String>)
        requires
            self@.wf(),
            self@.has_current(),
        ensures
            match self@.list {
                None => r is None,
                Some(l) => r matches Some(p) && p@ == l[backward(self@.index, l.len() as int)].path@,
            },
    {
        match &self.list {
            None => None,
            Some(list) => Some(list[prev_index(self.index, list.len())].path.clone()),
        }
    }

    /// Removes the current image when its path is `path`, and gives the path
    /// of the new current image: the one that takes its place, or the new last
    /// one when the removed image was last. `None` when no image is left, or
    /// when the current image is not at `path`.
    pub fn trash(&mut self, path: &str) -> (r: Option<String>)
        requires
            old(self)@.wf(),
            old(self)@.has_current(),
        ensures
            final(self)@.wf(),
            final(self)@.dir == old(self)@.dir,
            final(self)@.sort_order == old(self)@.sort_order,
            match old(self)@.list {
                None => r is None && final(self)@.list is None && final(self)@.index == old(
                    self,
                )@.index,
                Some(l) => {
                    let i = old(self)@.index;
                    if l[i].path@ == path@ {
                        let rest = l.remove(i);
                        &&& final(self)@.list == Some(rest)
                        &&& if rest.len() > 0 {
                            &&& final(self)@.index == trashed_position(i, rest.len() as int)
                            &&& r matches Some(p) && p@ == rest[final(self)@.index].path@
                        } else {
                            r is None && final(self)@.index == i
                        }
                    } else {
                        &&& r is None
                        &&& final(self)@.list == Some(l)
                        &&& final(self)@.index == i
                    }
                },
            },
    {
        match &mut self.list {
            None => None,
            Some(list) => {
                let index = self.index;
                if str_eq(list[index].path.as_str(), path) {
                    list.remove(index);
                    if list.len() == 0 {
                        None
                    } else {
                        if index >= list.len() {
                            self.index = list.len() - 1;
                        }
                        Some(list[self.index].path.clone())
                    }
                } else {
                    None
                }
            },
        }
    }

    /// Decides what showing the image at `path` does to the list. `parent` is
    /// the path's parent and `dir` the directory that holds it (`.` for a bare
    /// file name). When a scan is needed the directory is remembered.
    pub fn change_dir(&mut self, path: &str, parent: Option<&str>, dir: &str) -> (r: DirChange)
        requires
            old(self)@.wf(),
        ensures
            final(self)@.wf(),
            final(self)@.sort_order == old(self)@.sort_order,
            final(self)@.list == old(self)@.list,
            match (old(self)@.dir, parent) {
                (Some(current), Some(new)) if current == new@ => r == DirChange::Unchanged,
                _ => {
                    if old(self)@.dir == Some(dir@) && old(self)@.list is Some {
                        &&& r == DirChange::Located
                        &&& final(self)@.dir == old(self)@.dir
                        &&& match last_match(old(self)@.list->0, path@, old(self)@.list->0.len() as int) {
                            Some(k) => final(self)@.index == k,
                            None => final(self)@.index == old(self)@.index,
                        }
                        &&& (last_match(old(self)@.list->0, path@, old(self)@.list->0.len() as int) is Some
                            ==> old(self)@.list->0[final(self)@.index].path@ == path@ && forall|j: int|
                            final(self)@.index < j < old(self)@.list->0.len() ==> #[trigger] old(
                                self,
                            )@.list->0[j].path@ != path@)
                    } else {
                        &&& r == DirChange::Scan
                        &&& final(self)@.dir == Some(dir@)
                        &&& final(self)@.index == old(self)@.index
                    }
                },
            },
            r == DirChange::Unchanged ==> final(self)@ == old(self)@,
    {
        if let Some(current) = &self.path {
            if let Some(new) = parent {
                if str_eq(current.as_str(), new) {
                    return DirChange::Unchanged;
                }
            }
        }
        let same_dir = match &self.path {
            Some(p) => str_eq(p.as_str(), dir),
            None => false,
        };
        if same_dir {
            if let Some(list) = &self.list {
                match find_last(list, path) {
                    Some(k) => {
                        proof {
                            lemma_last_match(list@, path@, list@.len() as int);
                            last_match_is_last_entry(list@, path@, list@.len() as int);
                        }
                        self.index = k;
                    },
                    None => {},
                }
                return DirChange::Located;
            }
        }
        self.path = Some(String::from_str(dir));
        DirChange::Scan
    }

    /// Installs the scanned directory: `first` is the image on screen and
    /// `found` the supported images of its directory. The list is sorted, the
    /// position moves to the image at `path`, and the paths of the images
    /// after and before it are given to be loaded ahead.
    pub fn finish_scan(&mut self, path: &str, first: ImageListEntry, found: Vec<ImageListEntry>) -> (r: (
        String,
        String,
    ))
        requires
            old(self)@.wf(),
            first.path@ == path@,
        ensures
            final(self)@.wf(),
            final(self)@.has_current(),
            final(self)@.not_empty(),
            final(self)@.dir == old(self)@.dir,
            final(self)@.sort_order == old(self)@.sort_order,
            ({
                let all = seq![first].add(found@);
                let sorted = sorted_by(all, old(self)@.sort_order);
                &&& final(self)@.list == Some(sorted)
                &&& last_match(sorted, path@, sorted.len() as int) == Some(final(self)@.index)
                &&& sorted[final(self)@.index].path@ == path@
                &&& forall|j: int|
                    final(self)@.index < j < sorted.len() ==> #[trigger] sorted[j].path@ != path@
                &&& r.0@ == sorted[forward(final(self)@.index, sorted.len() as int)].path@
                &&& r.1@ == sorted[backward(final(self)@.index, sorted.len() as int)].path@
            }),
    {
        let ghost all = seq![first].add(found@);
        let mut list: Vec<ImageListEntry> = Vec::new();
        list.push(first);
        let mut found = found;
        let ghost f = found@;
        let n: usize = found.len();
        let mut k: usize = 0;
        while found.len() > 0
            invariant
                k <= f.len(),
                found@ == f.skip(k as int),
                found.len() == f.len() - k,
                f.len() == n,
                list@ == all.take(k + 1),
                all == seq![first].add(f),
                all[0].path@ == path@,
            decreases found.len(),
        {
            let x = found.remove(0);
            list.push(x);
            k = k + 1;
            assert(found@ =~= f.skip(k as int));
            assert(list@ =~= all.take(k + 1));
        }
        assert(list@ =~= all);
        sort_list(&mut list, self.sort_order);
        proof {
            sorted_by_permutes(all, self.sort_order);
            lemma_contains_after_permute(all, list@, 0);
            lemma_last_match(list@, path@, list@.len() as int);
            last_match_is_last_entry(list@, path@, list@.len() as int);
        }
        match find_last(&list, path) {
            Some(k) => {
                self.index = k;
            },
            None => {},
        }
        let next = list[next_index(self.index, list.len())].path.clone();
        let prev = list[prev_index(self.index, list.len())].path.clone();
        self.list = Some(list);
        (next, prev)
    }
}

/// An entry of `a` is still present in `b` when `b` holds the same entries.
proof fn lemma_contains_after_permute(a: Seq<ImageListEntry>, b: Seq<ImageListEntry>, i: int)
    requires
        0 <= i < a.len(),
        a.to_multiset() =~= b.to_multiset(),
    ensures
        exists|k: int| 0 <= k < b.len() && #[trigger] b[k] == a[i],
{
    broadcast use vstd::seq_lib::group_to_multiset_ensures;

    assert(a.contains(a[i]));
    assert(a.to_multiset().count(a[i]) > 0);
    assert(b.contains(a[i]));
}

/// Changing the sort order keeps the same image on screen.
pub proof fn set_sort_order_keeps_current(before: ImageListView, after: ImageListView)
    requires
        before.wf(),
        before.has_current(),
        before.list is Some,
        before.sort_order != after.sort_order,
        after.list == Some(sorted_by(before.list->0, after.sort_order)),
        last_match(
            after.list->0,
            before.list->0[before.index].path@,
            after.list->0.len() as int,
        ) == Some(after.index),
    ensures
        after.list->0[after.index].path@ == before.list->0[before.index].path@,
        after.list->0.len() == before.list->0.len(),
{
    sorted_by_permutes(before.list->0, after.sort_order);
    lemma_last_match(after.list->0, before.list->0[before.index].path@, after.list->0.len() as int);
}

/// Under the EXIF date order, photos with EXIF dates come in the order of
/// those dates, whatever their modification times; photos without one come
/// in the order of their modification times (a missing time counting as the
/// epoch), and a photo with an EXIF date is placed against one without by
/// comparing its EXIF date with the other's modification time.
pub proof fn exif_date_order(s: Seq<ImageListEntry>)
    ensures
        forall|i: int, j: int|
            #![trigger sorted_by(s, SortOrder::MetadataTime)[i], sorted_by(s, SortOrder::MetadataTime)[j]]
            0 <= i < j < sorted_by(s, SortOrder::MetadataTime).len() ==> {
                let a = sorted_by(s, SortOrder::MetadataTime)[i];
                let b = sorted_by(s, SortOrder::MetadataTime)[j];
                let am = match a.modified {
                    Some(m) => m,
                    None => 0,
                };
                let bm = match b.modified {
                    Some(m) => m,
                    None => 0,
                };
                match (a.exif_date, b.exif_date) {
                    (Some(x), Some(y)) => x <= y,
                    (None, None) => am <= bm,
                    (Some(x), None) => x <= bm,
                    (None, Some(y)) => am <= y,
                }
            },
{
    sorted_by_in_order(s, SortOrder::MetadataTime);
}

/// Under the size order, sizes never decrease along the sorted list.
pub proof fn size_order(s: Seq<ImageListEntry>)
    ensures
        forall|i: int, j: int|
            #![trigger sorted_by(s, SortOrder::Size)[i], sorted_by(s, SortOrder::Size)[j]]
            0 <= i < j < sorted_by(s, SortOrder::Size).len() ==> sorted_by(s, SortOrder::Size)[i].size
                <= sorted_by(s, SortOrder::Size)[j].size,
{
    sorted_by_in_order(s, SortOrder::Size);
}

/// Under the name order, no path comes after a later path in natural order.
pub proof fn name_order(s: Seq<ImageListEntry>)
    ensures
        forall|i: int, j: int|
            #![trigger sorted_by(s, SortOrder::Name)[i], sorted_by(s, SortOrder::Name)[j]]
            0 <= i < j < sorted_by(s, SortOrder::Name).len() ==> natural_order(
                sorted_by(s, SortOrder::Name)[i].path@,
                sorted_by(s, SortOrder::Name)[j].path@,
            ) != Ordering::Greater,
{
    sorted_by_in_order(s, SortOrder::Name);
}

/// A time that may be missing never comes after a later one: missing times
/// come first, then the times in increasing order.
pub open spec fn time_not_after(a: Option<i128>, b: Option<i128>) -> bool {
    match (a, b) {
        (Some(x), Some(y)) => x <= y,
        (Some(_), None) => false,
        _ => true,
    }
}

/// Under the file time orders, entries without the time come first and the
/// others follow in increasing order of that time.
pub proof fn file_time_orders(s: Seq<ImageListEntry>)
    ensures
        forall|i: int, j: int|
            #![trigger sorted_by(s, SortOrder::ModifiedTime)[i], sorted_by(s, SortOrder::ModifiedTime)[j]]
            0 <= i < j < sorted_by(s, SortOrder::ModifiedTime).len() ==> time_not_after(
                sorted_by(s, SortOrder::ModifiedTime)[i].modified,
                sorted_by(s, SortOrder::ModifiedTime)[j].modified,
            ),
        forall|i: int, j: int|
            #![trigger sorted_by(s, SortOrder::AccessTime)[i], sorted_by(s, SortOrder::AccessTime)[j]]
            0 <= i < j < sorted_by(s, SortOrder::AccessTime).len() ==> time_not_after(
                sorted_by(s, SortOrder::AccessTime)[i].accessed,
                sorted_by(s, SortOrder::AccessTime)[j].accessed,
            ),
        forall|i: int, j: int|
            #![trigger sorted_by(s, SortOrder::CreatedTime)[i], sorted_by(s, SortOrder::CreatedTime)[j]]
            0 <= i < j < sorted_by(s, SortOrder::CreatedTime).len() ==> time_not_after(
                sorted_by(s, SortOrder::CreatedTime)[i].created,
                sorted_by(s, SortOrder::CreatedTime)[j].created,
            ),
{
    sorted_by_in_order(s, SortOrder::ModifiedTime);
    sorted_by_in_order(s, SortOrder::AccessTime);
    sorted_by_in_order(s, SortOrder::CreatedTime);
}

/// The position found for a path is that of its last entry: the entry there
/// has the path and no later entry has it; there is one whenever some entry
/// has the path.
pub proof fn last_match_is_last_entry(s: Seq<ImageListEntry>, p: Seq<char>, n: int)
    requires
        0 <= n <= s.len(),
    ensures
        last_match(s, p, n) matches Some(k) ==> {
            &&& 0 <= k < n
            &&& s[k].path@ == p
            &&& forall|j: int| k < j < n ==> s[j].path@ != p
        },
        (exists|k: int| 0 <= k < n && #[trigger] s[k].path@ == p) <==> last_match(s, p, n) is Some,
    decreases n,
{
    lemma_last_match(s, p, n);
    if n > 0 {
        last_match_is_last_entry(s, p, n - 1);
    }
}

/// Trashing the current image shows the image that came after it, or, when
/// it was the last, the image that came before it.
pub proof fn trash_shows_neighbour(l: Seq<ImageListEntry>, i: int)
    requires
        0 <= i < l.len(),
        l.len() > 1,
    ensures
        ({
            let rest = l.remove(i);
            let k = trashed_position(i, rest.len() as int);
            &&& 0 <= k < rest.len()
            &&& rest[k] == if i + 1 < l.len() {
                l[i + 1]
            } else {
                l[i - 1]
            }
        }),
{
}

} // verus!
