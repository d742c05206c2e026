use vstd::prelude::*;

use crate::text::str_eq;

verus! {

/// The paths named by the strings of `v`.
pub open spec fn path_set(v: Seq<String>) -> Set<Seq<char>> {
    Set::new(|p: Seq<char>| exists|i: int| 0 <= i < v.len() && #[trigger] v[i]@ == p)
}

/// The image that should be shown once it is loaded, and the paths being loaded.
pub struct ImageLoader {
    pub target_file: Option<String>,
    pub loading: Vec<String>,
}

impl ImageLoader {
    /// No target and nothing loading.
    pub fn new() -> (r: ImageLoader)
        ensures
            r.target_file is None,
            r.loading@.len() == 0,
    {
        ImageLoader { target_file: None, loading: Vec::new() }
    }
}

impl Default for ImageLoader {
    fn default() -> (r: ImageLoader)
        ensures
            r.target_file is None,
            r.loading@.len() == 0,
    {
        ImageLoader::new()
    }
}

/// The abstract state of a [`LoadingInfo`].
pub struct LoadingView {
    pub target: Option<Seq<char>>,
    pub loading: Set<Seq<char>>,
}

/// Which image is wanted on screen, and which paths are being decoded, so
/// that no path is decoded twice at once.
pub struct LoadingInfo {
    target_file: Option<String>,
    loading: Vec<String>,
}

impl View for LoadingInfo {
    type V = LoadingView;

    closed spec fn view(&self) -> LoadingView {
        LoadingView {
            target: match self.target_file {
                Some(p) => Some(p@),
                None => None,
            },
            loading: path_set(self.loading@),
        }
    }
}

/// True when some string of `v` is `p`.
fn holds(v: &Vec<String>, p: &str) -> (r: bool)
    ensures
        r == path_set(v@).contains(p@),
{
    let mut i: usize = 0;
    while i < v.len()
        invariant
            i <= v.len(),
            forall|k: int| 0 <= k < i ==> v@[k]@ != p@,
        decreases v.len() - i,
    {
        if str_eq(v[i].as_str(), p) {
            assert(v@[i as int]@ == p@);
            return true;
        }
        i = i + 1;
    }
    false
}

impl LoadingInfo {
    /// No target and nothing loading.
    pub fn new() -> (r: LoadingInfo)
        ensures
            r@.target is None,
            r@.loading == Set::<Seq<char>>::empty(),
    {
        let r = LoadingInfo { target_file: None, loading: Vec::new() };
        assert(r@.loading =~= Set::<Seq<char>>::empty());
        r
    }

    /// The image wanted on screen.
    pub fn target(&self) -> (r: Option<String>)
        ensures
            match (r, self@.target) {
                (Some(p), Some(t)) => p@ == t,
                (None, None) => true,
                _ => false,
            },
    {
        match &self.target_file {
            Some(p) => Some(p.clone()),
            None => None,
        }
    }

    /// Adds `path` to the paths being loaded when it is not among them yet;
    /// true when the caller must start loading it.
    fn start(&mut self, path: &str) -> (r: bool)
        ensures
            final(self)@.target == old(self)@.target,
            r == !old(self)@.loading.contains(path@),
            final(self)@.loading == old(self)@.loading.insert(path@),
    {
        if holds(&self.loading, path) {
            assert(self@.loading.insert(path@) =~= self@.loading);
            false
        } else {
            let ghost before = self.loading@;
            self.loading.push(String::from_str(path));
            assert(path_set(self.loading@) =~= path_set(before).insert(path@)) by {
                assert(self.loading@[before.len() as int]@ == path@);
                assert forall|p: Seq<char>| path_set(self.loading@).contains(p) implies path_set(
                    before,
                ).insert(path@).contains(p) by {
                    let i = choose|i: int| 0 <= i < self.loading@.len() && #[trigger] self.loading@[i]@ == p;
                    if i < before.len() {
                        assert(before[i]@ == p);
                    }
                }
                assert forall|p: Seq<char>| path_set(before).contains(p) implies path_set(
                    self.loading@,
                ).contains(p) by {
                    let i = choose|i: int| 0 <= i < before.len() && #[trigger] before[i]@ == p;
                    assert(self.loading@[i]@ == p);
                }
            }
            true
        }
    }

    /// Makes `path` the image wanted on screen; true when it must be loaded
    /// now, false when it is being loaded already.
    pub fn request(&mut self, path: &str) -> (r: bool)
        ensures
            final(self)@.target == Some(path@),
            r == !old(self)@.loading.contains(path@),
            final(self)@.loading == old(self)@.loading.insert(path@),
    {
        self.target_file = Some(String::from_str(path));
        self.start(path)
    }

    /// Records that `path` is loaded ahead of time; true when it must be loaded
    /// now, false when it is being loaded already.
    pub fn prefetch(&mut self, path: &str) -> (r: bool)
        ensures
            final(self)@.target == old(self)@.target,
            r == !old(self)@.loading.contains(path@),
            final(self)@.loading == old(self)@.loading.insert(path@),
    {
        self.start(path)
    }

    /// Drops `path` from the paths being loaded.
    fn forget(&mut self, path: &str)
        ensures
            final(self)@.loading == old(self)@.loading.remove(path@),
            final(self)@.target == old(self)@.target,
    {
        let ghost before = self.loading@;
        let mut kept: Vec<String> = Vec::new();
        let mut rest: Vec<String> = Vec::new();
        std::mem::swap(&mut rest, &mut self.loading);
        assert(rest@ == before);
        let mut k: usize = 0;
        let n: usize = rest.len();
        while rest.len() > 0
            invariant
                k <= n,
                n == before.len(),
                rest@ == before.skip(k as int),
                rest.len() == n - k,
                path_set(kept@) =~= path_set(before.take(k as int)).remove(path@),
            decreases rest.len(),
        {
            let x = rest.remove(0);
            let ghost prev_kept = kept@;
            proof {
                assert(x == before[k as int]);
            }
            if !str_eq(x.as_str(), path) {
                kept.push(x);
            }
            k = k + 1;
            proof {
                assert(rest@ =~= before.skip(k as int));
                let t = before.take(k as int);
                assert forall|p: Seq<char>| path_set(kept@).contains(p) <==> path_set(t).remove(
                    path@,
                ).contains(p) by {
                    if path_set(kept@).contains(p) {
                        let i = choose|i: int| 0 <= i < kept@.len() && #[trigger] kept@[i]@ == p;
                        if i < prev_kept.len() {
                            assert(prev_kept[i]@ == p);
                            assert(path_set(prev_kept).contains(p));
                            let j = choose|j: int|
                                0 <= j < before.take(k - 1).len() && #[trigger] before.take(
                                    k - 1,
                                )[j]@ == p;
                            assert(t[j]@ == p);
                        } else {
                            assert(t[k - 1]@ == p);
                        }
                    }
                    if path_set(t).remove(path@).contains(p) {
                        let j = choose|j: int| 0 <= j < t.len() && #[trigger] t[j]@ == p;
                        if j < k - 1 {
                            assert(before.take(k - 1)[j]@ == p);
                            assert(path_set(prev_kept).contains(p));
                            let i = choose|i: int| 0 <= i < prev_kept.len() && #[trigger] prev_kept[i]@ == p;
                            assert(kept@[i]@ == p);
                        } else {
                            assert(kept@[kept@.len() - 1]@ == p);
                        }
                    }
                }
                assert(path_set(kept@) =~= path_set(t).remove(path@));
            }
        }
        assert(before.take(k as int) =~= before);
        self.loading = kept;
    }

    /// Records that loading ahead of time `path` ended; true when it was the
    /// image wanted on screen, which is then no longer waited for.
    pub fn finish(&mut self, path: &str) -> (r: bool)
        ensures
            final(self)@.loading == old(self)@.loading.remove(path@),
            r == (old(self)@.target == Some(path@)),
            final(self)@.target == (if r {
                None
            } else {
                old(self)@.target
            }),
    {
        self.forget(path);
        let was_target = match &self.target_file {
            Some(t) => str_eq(t.as_str(), path),
            None => false,
        };
        if was_target {
            self.target_file = None;
        }
        was_target
    }

    /// Records that loading the requested image `path` ended: it is no longer
    /// loading, and no image is waited for any more.
    pub fn complete(&mut self, path: &str)
        ensures
            final(self)@.loading == old(self)@.loading.remove(path@),
            final(self)@.target is None,
    {
        self.forget(path);
        self.target_file = None;
    }
}

/// A path is decoded once at a time: after a request or a load ahead of `p`,
/// asking for `p` again starts nothing, and once its loading ends (`finish`
/// or `complete`) it can start again.
pub proof fn each_path_loads_once(v: LoadingView, p: Seq<char>)
    ensures
        v.loading.insert(p).contains(p),
        !v.loading.insert(p).remove(p).contains(p),
{
}

} // verus!
