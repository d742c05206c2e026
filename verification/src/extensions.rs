use vstd::prelude::*;

use crate::text::str_eq;

verus! {

/// Extensions of JPEG XL files.
pub open spec fn jxl_list() -> Seq<Seq<char>> {
    seq!["jxl"@]
}

/// Extensions of HEIF files.
pub open spec fn heif_list() -> Seq<Seq<char>> {
    seq!["heif"@, "heic"@]
}

/// Extensions of QOI files.
pub open spec fn qoi_list() -> Seq<Seq<char>> {
    seq!["qoi"@]
}

/// Extensions of the raster formats the image decoder knows.
pub open spec fn raster_list() -> Seq<Seq<char>> {
    seq![
        "png"@, "jpg"@, "jpeg"@, "jpe"@, "jif"@, "jfif"@, "gif"@, "bmp"@, "ico"@, "tiff"@,
        "webp"@, "avif"@, "pnm"@, "pbm"@, "pgm"@, "ppm"@, "pam"@, "dds"@, "tga"@, "ff"@,
        "farbfeld"@, "exr"@, "qoi"@, "hdr"@,
    ]
}

/// Extensions of raster formats that cannot be recognised from their bytes.
pub open spec fn undetectable_raster_list() -> Seq<Seq<char>> {
    seq!["tga"@]
}

/// Extensions of vector formats.
pub open spec fn vector_list() -> Seq<Seq<char>> {
    seq!["svg"@]
}

/// Extensions of camera raw formats.
pub open spec fn raw_list() -> Seq<Seq<char>> {
    seq![
        "raw"@, "mrw"@, "arw"@, "srf"@, "sr2"@, "mef"@, "orf"@, "srw"@, "erf"@, "kdc"@, "dcs"@,
        "rw2"@, "raf"@, "dcr"@, "dng"@, "pef"@, "crw"@, "iiq"@, "3fr"@, "nrw"@, "nef"@, "mos"@,
        "cr2"@, "ari"@,
    ]
}

/// Extensions of Photoshop files.
pub open spec fn photoshop_list() -> Seq<Seq<char>> {
    seq!["psd"@]
}

/// Every extension a directory listing keeps: raster, vector, Photoshop and
/// camera raw files.
pub open spec fn supported_list() -> Seq<Seq<char>> {
    raster_list() + vector_list() + photoshop_list() + raw_list()
}

/// True when `list` holds `ext`.
fn list_has(list: &Vec<&str>, ext: &str) -> (r: bool)
    ensures
        r == exists|i: int| 0 <= i < list@.len() && #[trigger] list@[i]@ == ext@,
{
    let mut i: usize = 0;
    while i < list.len()
        invariant
            i <= list.len(),
            forall|k: int| 0 <= k < i ==> list@[k]@ != ext@,
        decreases list.len() - i,
    {
        if str_eq(list[i], ext) {
            return true;
        }
        i = i + 1;
    }
    false
}

/// Whether `ext` is a JPEG XL extension.
pub fn is_jxl(ext: &str) -> (r: bool)
    ensures
        r == jxl_list().contains(ext@),
{
    let list: Vec<&str> = vec!["jxl"];
    let r = list_has(&list, ext);
    proof {
        if r {
            let i = choose|i: int| 0 <= i < list@.len() && #[trigger] list@[i]@ == ext@;
            assert(jxl_list()[i] == ext@);
        }
    }
    r
}

/// Whether `ext` is a HEIF extension.
pub fn is_heif(ext: &str) -> (r: bool)
    ensures
        r == heif_list().contains(ext@),
{
    let list: Vec<&str> = vec!["heif", "heic"];
    let r = list_has(&list, ext);
    proof {
        if r {
            let i = choose|i: int| 0 <= i < list@.len() && #[trigger] list@[i]@ == ext@;
            assert(heif_list()[i] == ext@);
        }
    }
    r
}

/// Whether `ext` is a QOI extension.
pub fn is_qoi(ext: &str) -> (r: bool)
    ensures
        r == qoi_list().contains(ext@),
{
    let list: Vec<&str> = vec!["qoi"];
    let r = list_has(&list, ext);
    proof {
        if r {
            let i = choose|i: int| 0 <= i < list@.len() && #[trigger] list@[i]@ == ext@;
            assert(qoi_list()[i] == ext@);
        }
    }
    r
}

/// Whether `ext` is a raster extension.
pub fn is_raster(ext: &str) -> (r: bool)
    ensures
        r == raster_list().contains(ext@),
{
    let list: Vec<&str> = vec![
        "png", "jpg", "jpeg", "jpe", "jif", "jfif", "gif", "bmp", "ico", "tiff", "webp", "avif",
        "pnm", "pbm", "pgm", "ppm", "pam", "dds", "tga", "ff", "farbfeld", "exr", "qoi", "hdr",
    ];
    let r = list_has(&list, ext);
    proof {
        assert(list@.len() == raster_list().len());
        if r {
            let i = choose|i: int| 0 <= i < list@.len() && #[trigger] list@[i]@ == ext@;
            assert(raster_list()[i] == ext@);
        } else {
            assert forall|i: int| 0 <= i < raster_list().len() implies raster_list()[i] != ext@ by {
                assert(list@[i]@ == raster_list()[i]);
            }
        }
    }
    r
}

/// Whether `ext` is a raster extension that must be decoded without detection.
pub fn is_undetectable_raster(ext: &str) -> (r: bool)
    ensures
        r == undetectable_raster_list().contains(ext@),
{
    let list: Vec<&str> = vec!["tga"];
    let r = list_has(&list, ext);
    proof {
        if r {
            let i = choose|i: int| 0 <= i < list@.len() && #[trigger] list@[i]@ == ext@;
            assert(undetectable_raster_list()[i] == ext@);
        }
    }
    r
}

/// Whether `ext` is a vector extension.
pub fn is_vector(ext: &str) -> (r: bool)
    ensures
        r == vector_list().contains(ext@),
{
    let list: Vec<&str> = vec!["svg"];
    let r = list_has(&list, ext);
    proof {
        if r {
            let i = choose|i: int| 0 <= i < list@.len() && #[trigger] list@[i]@ == ext@;
            assert(vector_list()[i] == ext@);
        }
    }
    r
}

/// Whether `ext` is a camera raw extension.
pub fn is_raw(ext: &str) -> (r: bool)
    ensures
        r == raw_list().contains(ext@),
{
    let list: Vec<&str> = vec![
        "raw", "mrw", "arw", "srf", "sr2", "mef", "orf", "srw", "erf", "kdc", "dcs", "rw2", "raf",
        "dcr", "dng", "pef", "crw", "iiq", "3fr", "nrw", "nef", "mos", "cr2", "ari",
    ];
    let r = list_has(&list, ext);
    proof {
        assert(list@.len() == raw_list().len());
        if r {
            let i = choose|i: int| 0 <= i < list@.len() && #[trigger] list@[i]@ == ext@;
            assert(raw_list()[i] == ext@);
        } else {
            assert forall|i: int| 0 <= i < raw_list().len() implies raw_list()[i] != ext@ by {
                assert(list@[i]@ == raw_list()[i]);
            }
        }
    }
    r
}

/// Whether `ext` is a Photoshop extension.
pub fn is_photoshop(ext: &str) -> (r: bool)
    ensures
        r == photoshop_list().contains(ext@),
{
    let list: Vec<&str> = vec!["psd"];
    let r = list_has(&list, ext);
    proof {
        if r {
            let i = choose|i: int| 0 <= i < list@.len() && #[trigger] list@[i]@ == ext@;
            assert(photoshop_list()[i] == ext@);
        }
    }
    r
}

/// Whether a directory listing keeps files with the (lower case) extension `ext`.
pub fn is_supported(ext: &str) -> (r: bool)
    ensures
        r == supported_list().contains(ext@),
{
    let r = is_raster(ext) || is_vector(ext) || is_photoshop(ext) || is_raw(ext);
    proof {
        let a = raster_list();
        let b = vector_list();
        let c = photoshop_list();
        let d = raw_list();
        let s = supported_list();
        assert(s =~= a + b + c + d);
        if r {
            if a.contains(ext@) {
                let i = choose|i: int| 0 <= i < a.len() && a[i] == ext@;
                assert(s[i] == ext@);
            } else if b.contains(ext@) {
                let i = choose|i: int| 0 <= i < b.len() && b[i] == ext@;
                assert(s[a.len() + i] == ext@);
            } else if c.contains(ext@) {
                let i = choose|i: int| 0 <= i < c.len() && c[i] == ext@;
                assert(s[a.len() + b.len() + i] == ext@);
            } else {
                let i = choose|i: int| 0 <= i < d.len() && d[i] == ext@;
                assert(s[a.len() + b.len() + c.len() + i] == ext@);
            }
        } else {
            assert forall|i: int| 0 <= i < s.len() implies s[i] != ext@ by {
                if i < a.len() {
                    assert(s[i] == a[i]);
                } else if i < a.len() + b.len() {
                    assert(s[i] == b[i - a.len()]);
                } else if i < a.len() + b.len() + c.len() {
                    assert(s[i] == c[i - a.len() - b.len()]);
                } else {
                    assert(s[i] == d[i - a.len() - b.len() - c.len()]);
                }
            }
        }
    }
    r
}

} // verus!
