use vstd::prelude::*;

use crate::text::str_eq;

verus! {

/// The encoder an image is saved with.
#[derive(Debug, Clone, Copy, PartialEq, Eq, Structural)]
pub enum SaveFormat {
    Png,
    /// Asks for a quality first.
    Jpeg,
    Ico,
    Tga,
    Farbfeld,
    Tiff,
    Gif,
    /// Asks for a quality first; animated when there is more than one frame.
    WebP,
    Exr,
    /// An extension no encoder is known for: saved as PNG, with the
    /// extension of the path changed to `png`.
    PngRenamed,
}

/// The format chosen for the (lower case) extension `ext`.
pub open spec fn format_for(ext: Seq<char>) -> SaveFormat {
    if ext == "png"@ {
        SaveFormat::Png
    } else if ext == "jpg"@ || ext == "jpeg"@ || ext == "jpe"@ || ext == "jif"@ || ext == "jfif"@ {
        SaveFormat::Jpeg
    } else if ext == "ico"@ {
        SaveFormat::Ico
    } else if ext == "tga"@ {
        SaveFormat::Tga
    } else if ext == "ff"@ || ext == "farbfeld"@ {
        SaveFormat::Farbfeld
    } else if ext == "tiff"@ || ext == "tif"@ {
        SaveFormat::Tiff
    } else if ext == "gif"@ {
        SaveFormat::Gif
    } else if ext == "webp"@ {
        SaveFormat::WebP
    } else if ext == "exr"@ {
        SaveFormat::Exr
    } else {
        SaveFormat::PngRenamed
    }
}

/// Chooses the encoder from the lower case extension of the target path
/// (`png` when the path has none).
pub fn save_format(ext: &str) -> (r: SaveFormat)
    ensures
        r == format_for(ext@),
{
    if str_eq(ext, "png") {
        SaveFormat::Png
    } else if str_eq(ext, "jpg") || str_eq(ext, "jpeg") || str_eq(ext, "jpe") || str_eq(ext, "jif")
        || str_eq(ext, "jfif") {
        SaveFormat::Jpeg
    } else if str_eq(ext, "ico") {
        SaveFormat::Ico
    } else if str_eq(ext, "tga") {
        SaveFormat::Tga
    } else if str_eq(ext, "ff") || str_eq(ext, "farbfeld") {
        SaveFormat::Farbfeld
    } else if str_eq(ext, "tiff") || str_eq(ext, "tif") {
        SaveFormat::Tiff
    } else if str_eq(ext, "gif") {
        SaveFormat::Gif
    } else if str_eq(ext, "webp") {
        SaveFormat::WebP
    } else if str_eq(ext, "exr") {
        SaveFormat::Exr
    } else {
        SaveFormat::PngRenamed
    }
}

/// Whether a WebP file is written as an animation: more than one frame.
pub fn webp_is_animated(frame_count: usize) -> (r: bool)
    ensures
        r == (frame_count > 1),
{
    frame_count > 1
}

/// The quarter turns, clockwise, that bring the stored frames to the
/// orientation on screen for a view rotated by `rotation` quarter turns
/// counter-clockwise; `None` for a rotation outside `0..4`.
pub fn export_turns(rotation: i32) -> (r: Option<u8>)
    ensures
        0 <= rotation < 4 ==> r == Some(((4 - rotation) % 4) as u8),
        !(0 <= rotation < 4) ==> r is None,
{
    match rotation {
        0 => Some(0),
        1 => Some(3),
        2 => Some(2),
        3 => Some(1),
        _ => None,
    }
}

/// Which extensions each encoder is chosen for: `png`; the JPEG extensions
/// `jpg`, `jpeg`, `jpe`, `jif`, `jfif`; `ico`; `tga`; `ff` and `farbfeld`;
/// `tiff` and `tif`; `gif`; `webp`; `exr`. Any other extension is saved as
/// PNG under a renamed path.
pub proof fn save_format_by_extension(ext: Seq<char>)
    ensures
        format_for(ext) == SaveFormat::Png <==> ext == "png"@,
        format_for(ext) == SaveFormat::Jpeg <==> (ext == "jpg"@ || ext == "jpeg"@ || ext == "jpe"@
            || ext == "jif"@ || ext == "jfif"@),
        format_for(ext) == SaveFormat::Ico <==> ext == "ico"@,
        format_for(ext) == SaveFormat::Tga <==> ext == "tga"@,
        format_for(ext) == SaveFormat::Farbfeld <==> (ext == "ff"@ || ext == "farbfeld"@),
        format_for(ext) == SaveFormat::Tiff <==> (ext == "tiff"@ || ext == "tif"@),
        format_for(ext) == SaveFormat::Gif <==> ext == "gif"@,
        format_for(ext) == SaveFormat::WebP <==> ext == "webp"@,
        format_for(ext) == SaveFormat::Exr <==> ext == "exr"@,
{
    reveal_strlit("png");
    reveal_strlit("jpg");
    reveal_strlit("jpeg");
    reveal_strlit("jpe");
    reveal_strlit("jif");
    reveal_strlit("jfif");
    reveal_strlit("ico");
    reveal_strlit("tga");
    reveal_strlit("ff");
    reveal_strlit("farbfeld");
    reveal_strlit("tiff");
    reveal_strlit("tif");
    reveal_strlit("gif");
    reveal_strlit("webp");
    reveal_strlit("exr");
    if ext == "png"@ {
        assert(ext.len() == 3 && ext[0] == 'p' && ext[1] == 'n' && ext[2] == 'g');
    }
    if ext == "jpg"@ {
        assert(ext.len() == 3 && ext[0] == 'j' && ext[1] == 'p' && ext[2] == 'g');
    }
    if ext == "jpeg"@ {
        assert(ext.len() == 4 && ext[0] == 'j' && ext[1] == 'p' && ext[2] == 'e' && ext[3] == 'g');
    }
    if ext == "jpe"@ {
        assert(ext.len() == 3 && ext[0] == 'j' && ext[1] == 'p' && ext[2] == 'e');
    }
    if ext == "jif"@ {
        assert(ext.len() == 3 && ext[0] == 'j' && ext[1] == 'i' && ext[2] == 'f');
    }
    if ext == "jfif"@ {
        assert(ext.len() == 4 && ext[0] == 'j' && ext[1] == 'f' && ext[2] == 'i' && ext[3] == 'f');
    }
    if ext == "ico"@ {
        assert(ext.len() == 3 && ext[0] == 'i' && ext[1] == 'c' && ext[2] == 'o');
    }
    if ext == "tga"@ {
        assert(ext.len() == 3 && ext[0] == 't' && ext[1] == 'g' && ext[2] == 'a');
    }
    if ext == "ff"@ {
        assert(ext.len() == 2 && ext[0] == 'f' && ext[1] == 'f');
    }
    if ext == "farbfeld"@ {
        assert(ext.len() == 8 && ext[0] == 'f' && ext[1] == 'a' && ext[2] == 'r' && ext[3] == 'b' && ext[4] == 'f' && ext[5] == 'e' && ext[6] == 'l' && ext[7] == 'd');
    }
    if ext == "tiff"@ {
        assert(ext.len() == 4 && ext[0] == 't' && ext[1] == 'i' && ext[2] == 'f' && ext[3] == 'f');
    }
    if ext == "tif"@ {
        assert(ext.len() == 3 && ext[0] == 't' && ext[1] == 'i' && ext[2] == 'f');
    }
    if ext == "gif"@ {
        assert(ext.len() == 3 && ext[0] == 'g' && ext[1] == 'i' && ext[2] == 'f');
    }
    if ext == "webp"@ {
        assert(ext.len() == 4 && ext[0] == 'w' && ext[1] == 'e' && ext[2] == 'b' && ext[3] == 'p');
    }
    if ext == "exr"@ {
        assert(ext.len() == 3 && ext[0] == 'e' && ext[1] == 'x' && ext[2] == 'r');
    }
}

} // verus!
