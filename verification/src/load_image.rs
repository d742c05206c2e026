use vstd::prelude::*;

use crate::extensions::{
    heif_list, is_heif, is_jxl, is_photoshop, is_qoi, is_raster, is_undetectable_raster,
    is_vector, jxl_list, photoshop_list, qoi_list, raster_list, undetectable_raster_list,
    vector_list,
};

verus! {

#[verifier::external_type_specification]
#[verifier::external_body]
pub struct ExIoError(std::io::Error);

/// Why an image could not be loaded.
#[derive(Debug)]
pub enum LoadError {
    /// The file could not be read.
    Io(std::io::Error),
    /// No decoder accepted the bytes; names the source of the bytes.
    Decoding(String),
}

impl From<std::io::Error> for LoadError {
    fn from(err: std::io::Error) -> (r: LoadError) {
        LoadError::Io(err)
    }
}

impl vstd::std_specs::convert::FromSpecImpl<std::io::Error> for LoadError {
    open spec fn obeys_from_spec() -> bool {
        true
    }

    open spec fn from_spec(v: std::io::Error) -> LoadError {
        LoadError::Io(v)
    }
}

/// The decoders an image is tried with.
#[derive(Debug, Clone, Copy, PartialEq, Eq, Structural)]
pub enum Loader {
    Raw,
    Svg,
    Psd,
    Raster,
    UndetectableRaster,
    Jxl,
    Heif,
    Qoi,
}

/// The order in which decoders are tried when nothing is known of the file.
pub open spec fn default_order() -> Seq<Loader> {
    seq![
        Loader::Raw,
        Loader::Svg,
        Loader::Psd,
        Loader::Raster,
        Loader::UndetectableRaster,
        Loader::Jxl,
        Loader::Heif,
        Loader::Qoi,
    ]
}

/// `s` with its first element and the element at `j` exchanged.
pub open spec fn swap_front(s: Seq<Loader>, j: int) -> Seq<Loader> {
    s.update(0, s[j]).update(j, s[0])
}

/// The order in which decoders are tried for a file with the (lower case)
/// extension `ext`: the decoder its extension names goes first.
pub open spec fn loader_order_for(ext: Seq<char>) -> Seq<Loader> {
    let s = if qoi_list().contains(ext) {
        swap_front(default_order(), 7)
    } else {
        default_order()
    };
    if heif_list().contains(ext) {
        swap_front(s, 6)
    } else if jxl_list().contains(ext) {
        swap_front(s, 5)
    } else if raster_list().contains(ext) {
        swap_front(s, 3)
    } else if vector_list().contains(ext) {
        swap_front(s, 1)
    } else if photoshop_list().contains(ext) {
        swap_front(s, 2)
    } else if undetectable_raster_list().contains(ext) {
        swap_front(s, 4)
    } else {
        s
    }
}

fn swap_first(order: &mut Vec<Loader>, j: usize)
    requires
        j < old(order).len(),
    ensures
        final(order)@ == swap_front(old(order)@, j as int),
{
    let first = order[0];
    let other = order[j];
    order.set(0, other);
    order.set(j, first);
}

/// The order in which the decoders are tried for a file with the (lower case)
/// extension `extension`; the empty extension stands for bytes of unknown origin.
pub fn loader_order(extension: &str) -> (r: Vec<Loader>)
    ensures
        r@ == loader_order_for(extension@),
        r@.len() == 8,
{
    let mut loaders = vec![
        Loader::Raw,
        Loader::Svg,
        Loader::Psd,
        Loader::Raster,
        Loader::UndetectableRaster,
        Loader::Jxl,
        Loader::Heif,
        Loader::Qoi,
    ];
    assert(loaders@ == default_order());
    if is_qoi(extension) {
        swap_first(&mut loaders, 7);
    }
    if is_heif(extension) {
        swap_first(&mut loaders, 6);
    } else if is_jxl(extension) {
        swap_first(&mut loaders, 5);
    } else if is_raster(extension) {
        swap_first(&mut loaders, 3);
    } else if is_vector(extension) {
        swap_first(&mut loaders, 1);
    } else if is_photoshop(extension) {
        swap_first(&mut loaders, 2);
    } else if is_undetectable_raster(extension) {
        swap_first(&mut loaders, 4);
    }
    loaders
}

/// Every decoder is tried exactly once, whatever the extension.
pub proof fn loader_order_tries_each_once(ext: Seq<char>)
    ensures
        loader_order_for(ext).len() == 8,
        loader_order_for(ext).to_multiset() =~= default_order().to_multiset(),
{
    broadcast use vstd::seq_lib::group_to_multiset_ensures;

    let d = default_order();
    let q = swap_front(d, 7);
    lemma_swap_front_permutes(d, 7);
    let s = if qoi_list().contains(ext) {
        q
    } else {
        d
    };
    lemma_swap_front_permutes(s, 6);
    lemma_swap_front_permutes(s, 5);
    lemma_swap_front_permutes(s, 3);
    lemma_swap_front_permutes(s, 1);
    lemma_swap_front_permutes(s, 2);
    lemma_swap_front_permutes(s, 4);
}

proof fn lemma_swap_front_permutes(s: Seq<Loader>, j: int)
    requires
        0 <= j < s.len(),
    ensures
        swap_front(s, j).len() == s.len(),
        swap_front(s, j).to_multiset() =~= s.to_multiset(),
{
    broadcast use vstd::seq_lib::group_to_multiset_ensures;

    let t = s.update(0, s[j]);
    assert(t.to_multiset() =~= s.to_multiset().insert(s[j]).remove(s[0]));
    assert(t.update(j, s[0]).to_multiset() =~= t.to_multiset().insert(s[0]).remove(t[j]));
    if j == 0 {
        assert(swap_front(s, j) =~= s);
    } else {
        assert(t[j] == s[j]);
    }
}

/// The EXIF entries `rexif` reads from the bytes of an image, in order, as
/// (tag name, readable value, whether the tag is unknown to `rexif`, whether
/// it is the `DateTime` tag); empty when the bytes hold no EXIF data it can read.
pub uninterp spec fn exif_entries(bytes: Seq<u8>) -> Seq<(Seq<char>, Seq<char>, bool, bool)>;

/// The plain value of an entry read by [`read_exif`].
pub open spec fn entry_view(e: (String, String, bool, bool)) -> (Seq<char>, Seq<char>, bool, bool) {
    (e.0@, e.1@, e.2, e.3)
}

/// Calls `rexif::parse_buffer_quiet` and turns each entry into its tag's
/// name (`Display`), its `value_more_readable` text, whether the tag is
/// `ExifTag::UnknownToMe` and whether it is `ExifTag::DateTime`; a parse
/// error gives no entry. Claims only that the
/// result is [`exif_entries`] of the bytes: what `rexif` reads is not restated.
#[verifier::external_body]
pub(crate) fn read_exif(bytes: &[u8]) -> (r: Vec<(String, String, bool, bool)>)
    ensures
        r@.map_values(|e: (String, String, bool, bool)| entry_view(e)) == exif_entries(bytes@),
{
    match rexif::parse_buffer_quiet(bytes).0 {
        Ok(exif) => exif.entries.into_iter().map(|e| (
            e.tag.to_string(),
            e.value_more_readable.to_string(),
            e.tag == rexif::ExifTag::UnknownToMe,
            e.tag == rexif::ExifTag::DateTime,
        )).collect(),
        Err(_) => Vec::new(),
    }
}

/// The (tag, value) pairs of the entries whose tag is known, in order.
pub open spec fn known_entries(e: Seq<(Seq<char>, Seq<char>, bool, bool)>) -> Seq<(Seq<char>, Seq<char>)>
    decreases e.len(),
{
    if e.len() == 0 {
        Seq::empty()
    } else if e.last().2 {
        known_entries(e.drop_last())
    } else {
        known_entries(e.drop_last()).push((e.last().0, e.last().1))
    }
}

/// The plain value of a metadata pair.
pub open spec fn pair_view(p: (String, String)) -> (Seq<char>, Seq<char>) {
    (p.0@, p.1@)
}

/// Keeps the entries whose tag is known, as (tag, value) pairs.
pub fn keep_known(entries: Vec<(String, String, bool, bool)>) -> (r: Vec<(String, String)>)
    ensures
        r@.map_values(|p: (String, String)| pair_view(p)) == known_entries(
            entries@.map_values(|e: (String, String, bool, bool)| entry_view(e)),
        ),
{
    let ghost all = entries@.map_values(|e: (String, String, bool, bool)| entry_view(e));
    let mut out: Vec<(String, String)> = Vec::new();
    let mut rest = entries;
    let ghost orig = rest@;
    let n = rest.len();
    let mut k: usize = 0;
    proof {
        assert(all.take(0) =~= Seq::<(Seq<char>, Seq<char>, bool, bool)>::empty());
        assert(out@.map_values(|p: (String, String)| pair_view(p)) =~= known_entries(all.take(0)));
    }
    while rest.len() > 0
        invariant
            k <= n,
            n == orig.len(),
            all == orig.map_values(|e: (String, String, bool, bool)| entry_view(e)),
            rest@ == orig.skip(k as int),
            rest.len() == n - k,
            out@.map_values(|p: (String, String)| pair_view(p)) == known_entries(all.take(k as int)),
        decreases rest.len(),
    {
        let (tag, value, unknown, _) = rest.remove(0);
        proof {
            let t = all.take(k + 1);
            assert(t.drop_last() =~= all.take(k as int));
            assert(t.last() == entry_view(orig[k as int]));
        }
        let ghost before = out@;
        if !unknown {
            out.push((tag, value));
            proof {
                assert(out@.map_values(|p: (String, String)| pair_view(p)) =~= before.map_values(
                    |p: (String, String)| pair_view(p),
                ).push(pair_view(out@[out@.len() - 1])));
            }
        }
        k = k + 1;
        assert(rest@ =~= orig.skip(k as int));
    }
    assert(all.take(k as int) =~= all);
    out
}

/// The text a decoding error names its source by: the path, or `from stdin`
/// for bytes that came without one.
pub open spec fn source_name(path: Option<Seq<char>>) -> Seq<char> {
    match path {
        Some(p) => p,
        None => "from stdin"@,
    }
}

/// Decodes `bytes` with the decoders in the order [`loader_order`] gives for
/// the (lower case) `extension`: the first that succeeds wins, and the known
/// EXIF entries of the bytes come with its frames. When no decoder succeeds,
/// the error names `path`, or `from stdin` when there is none. `decode` runs
/// one decoder on the bytes.
pub fn load_from_bytes<T, F: Fn(Loader, &[u8]) -> Option<T>>(
    bytes: &[u8],
    path: Option<&str>,
    extension: &str,
    decode: F,
) -> (r: Result<(T, Vec<(String, String)>), LoadError>)
    requires
        forall|l: Loader| decode.requires((l, bytes)),
    ensures
        match r {
            Ok((frames, metadata)) => {
                &&& exists|k: int|
                    0 <= k < 8 && decode.ensures((loader_order_for(extension@)[k], bytes), Some(frames))
                        && forall|j: int|
                        0 <= j < k ==> decode.ensures((loader_order_for(extension@)[j], bytes), None)
                &&& metadata@.map_values(|p: (String, String)| pair_view(p)) == known_entries(
                    exif_entries(bytes@),
                )
            },
            Err(LoadError::Decoding(source)) => {
                &&& source@ == source_name(
                    match path {
                        Some(p) => Some(p@),
                        None => None,
                    },
                )
                &&& forall|j: int|
                    0 <= j < 8 ==> decode.ensures((loader_order_for(extension@)[j], bytes), None)
            },
            Err(LoadError::Io(_)) => false,
        },
{
    let order = loader_order(extension);
    let mut i: usize = 0;
    while i < order.len()
        invariant
            order@ == loader_order_for(extension@),
            order@.len() == 8,
            i <= 8,
            forall|l: Loader| decode.requires((l, bytes)),
            forall|j: int| 0 <= j < i ==> decode.ensures((order@[j], bytes), None),
        decreases 8 - i,
    {
        match decode(order[i], bytes) {
            Some(frames) => {
                let entries = read_exif(bytes);
                let metadata = keep_known(entries);
                return Ok((frames, metadata));
            },
            None => {},
        }
        i = i + 1;
    }
    let source = match path {
        Some(p) => String::from_str(p),
        None => {
            proof {
                reveal_strlit("from stdin");
            }
            String::from_str("from stdin")
        },
    };
    Err(LoadError::Decoding(source))
}

/// The decoder tried first is the one the extension names: HEIF, then JPEG
/// XL, raster, vector, Photoshop and undetectable raster extensions in that
/// precedence, then QOI; a file with none of these extensions is tried as a
/// camera raw first. The decoder that would have gone first is tried where
/// the chosen one stood.
pub proof fn extension_decoder_goes_first(ext: Seq<char>)
    ensures
        heif_list().contains(ext) ==> loader_order_for(ext)[0] == Loader::Heif,
        !heif_list().contains(ext) && jxl_list().contains(ext) ==> loader_order_for(ext)[0]
            == Loader::Jxl,
        !heif_list().contains(ext) && !jxl_list().contains(ext) && raster_list().contains(ext)
            ==> loader_order_for(ext)[0] == Loader::Raster,
        !heif_list().contains(ext) && !jxl_list().contains(ext) && !raster_list().contains(ext)
            && vector_list().contains(ext) ==> loader_order_for(ext)[0] == Loader::Svg,
        !heif_list().contains(ext) && !jxl_list().contains(ext) && !raster_list().contains(ext)
            && !vector_list().contains(ext) && photoshop_list().contains(ext) ==> loader_order_for(
            ext,
        )[0] == Loader::Psd,
        !heif_list().contains(ext) && !jxl_list().contains(ext) && !raster_list().contains(ext)
            && !vector_list().contains(ext) && !photoshop_list().contains(ext)
            && undetectable_raster_list().contains(ext) ==> loader_order_for(ext)[0]
            == Loader::UndetectableRaster,
        !heif_list().contains(ext) && !jxl_list().contains(ext) && !raster_list().contains(ext)
            && !vector_list().contains(ext) && !photoshop_list().contains(ext)
            && !undetectable_raster_list().contains(ext) ==> loader_order_for(ext)[0] == (if qoi_list().contains(ext) {
            Loader::Qoi
        } else {
            Loader::Raw
        }),
{
}

/// The metadata kept from the EXIF entries is exactly the (tag, value) pairs
/// of the entries whose tag is known, in their order.
pub proof fn known_entries_are_the_known_tags(e: Seq<(Seq<char>, Seq<char>, bool, bool)>)
    ensures
        known_entries(e) == e.filter(|x: (Seq<char>, Seq<char>, bool, bool)| !x.2).map_values(
            |x: (Seq<char>, Seq<char>, bool, bool)| (x.0, x.1),
        ),
    decreases e.len(),
{
    reveal(Seq::filter);
    if e.len() > 0 {
        known_entries_are_the_known_tags(e.drop_last());
        let f = e.drop_last().filter(|x: (Seq<char>, Seq<char>, bool, bool)| !x.2);
        if !e.last().2 {
            assert(f.push(e.last()).map_values(|x: (Seq<char>, Seq<char>, bool, bool)| (x.0, x.1))
                =~= f.map_values(|x: (Seq<char>, Seq<char>, bool, bool)| (x.0, x.1)).push(
                (e.last().0, e.last().1),
            ));
        }
    } else {
        assert(e.filter(|x: (Seq<char>, Seq<char>, bool, bool)| !x.2).map_values(
            |x: (Seq<char>, Seq<char>, bool, bool)| (x.0, x.1),
        ) =~= Seq::<(Seq<char>, Seq<char>)>::empty());
    }
}

} // verus!
