use vstd::prelude::*;

verus! {

/// The key by which the images of a directory are ordered.
#[derive(Debug, Clone, Copy, PartialEq, Eq, Structural)]
pub enum SortOrder {
    AccessTime,
    CreatedTime,
    MetadataTime,
    ModifiedTime,
    Name,
    Size,
}

/// Whether the list runs from the smallest key or from the largest.
#[derive(Debug, Clone, Copy, PartialEq, Eq, Structural)]
pub enum SortDirection {
    Forward,
    Backward,
}

impl Default for SortOrder {
    fn default() -> (r: SortOrder)
        ensures
            r == SortOrder::MetadataTime,
    {
        SortOrder::MetadataTime
    }
}

impl Default for SortDirection {
    fn default() -> (r: SortDirection)
        ensures
            r == SortDirection::Forward,
    {
        SortDirection::Forward
    }
}

/// The label shown for a sort order.
pub open spec fn order_label(o: SortOrder) -> Seq<char> {
    match o {
        SortOrder::AccessTime => "Accessed"@,
        SortOrder::CreatedTime => "Created"@,
        SortOrder::MetadataTime => "Date (from exif)"@,
        SortOrder::ModifiedTime => "Modified"@,
        SortOrder::Name => "Name"@,
        SortOrder::Size => "Size"@,
    }
}

/// The label shown for a sort direction, which depends on the sort order.
pub open spec fn direction_label(d: SortDirection, o: SortOrder) -> Seq<char> {
    match (d, o) {
        (SortDirection::Forward, SortOrder::Name) => "A-Z"@,
        (SortDirection::Backward, SortOrder::Name) => "Z-A"@,
        (SortDirection::Forward, SortOrder::Size) => "Smallest first"@,
        (SortDirection::Backward, SortOrder::Size) => "Largest first"@,
        (SortDirection::Forward, _) => "Newest first"@,
        (SortDirection::Backward, _) => "Oldest first"@,
    }
}

impl SortOrder {
    /// The label of this sort order.
    pub fn as_ref(&self) -> (r: &'static str)
        ensures
            r@ == order_label(*self),
    {
        match self {
            SortOrder::AccessTime => "Accessed",
            SortOrder::CreatedTime => "Created",
            SortOrder::MetadataTime => "Date (from exif)",
            SortOrder::ModifiedTime => "Modified",
            SortOrder::Name => "Name",
            SortOrder::Size => "Size",
        }
    }
}

impl SortDirection {
    /// The label of this direction for the given sort order.
    pub fn as_str_from_order(&self, sort_order: SortOrder) -> (r: &'static str)
        ensures
            r@ == direction_label(*self, sort_order),
    {
        match (self, sort_order) {
            (SortDirection::Forward, SortOrder::AccessTime) => "Newest first",
            (SortDirection::Backward, SortOrder::AccessTime) => "Oldest first",
            (SortDirection::Forward, SortOrder::CreatedTime) => "Newest first",
            (SortDirection::Backward, SortOrder::CreatedTime) => "Oldest first",
            (SortDirection::Forward, SortOrder::MetadataTime) => "Newest first",
            (SortDirection::Backward, SortOrder::MetadataTime) => "Oldest first",
            (SortDirection::Forward, SortOrder::ModifiedTime) => "Newest first",
            (SortDirection::Backward, SortOrder::ModifiedTime) => "Oldest first",
            (SortDirection::Forward, SortOrder::Name) => "A-Z",
            (SortDirection::Backward, SortOrder::Name) => "Z-A",
            (SortDirection::Forward, SortOrder::Size) => "Smallest first",
            (SortDirection::Backward, SortOrder::Size) => "Largest first",
        }
    }
}

/// The JPEG quality kept within 1 to 100.
pub fn clamp_jpeg_quality(quality: u8) -> (r: u8)
    ensures
        r == (if quality < 1 {
            1
        } else if quality > 100 {
            100
        } else {
            quality
        }),
{
    if quality < 1 {
        1
    } else if quality > 100 {
        100
    } else {
        quality
    }
}

} // verus!
