use vstd::prelude::*;

verus! {

/// Remainder of `x` by 4 with the sign of `x`, as the `%` operator computes it.
pub open spec fn rem4(x: int) -> int {
    if x >= 0 {
        x % 4
    } else {
        -((-x) % 4)
    }
}

/// The quarter turn, from 0 to 3, reached by turning `rotation` quarter turns
/// by `rot` more (negative turns go the other way).
pub open spec fn turned(rotation: int, rot: int) -> int {
    (rotation + rot) % 4
}

/// Turns the image by `rot` quarter turns; the result is always in `0..4`.
pub fn rotate(rotation: i32, rot: i32) -> (r: i32)
    requires
        i32::MIN <= rotation + rot <= i32::MAX,
    ensures
        r == turned(rotation as int, rot as int),
        0 <= r < 4,
{
    let mut r = rotation + rot;
    r = r % 4;
    assert(r == rem4(rotation + rot));
    while r < 0
        invariant
            -4 < r < 4,
            r % 4 == (rotation + rot) % 4,
        decreases 4 - r,
    {
        r = r + 4;
    }
    r
}

/// Sets the rotation to `rot`, reduced as the `%` operator does (a negative
/// value stays negative).
pub fn set_rotation(rot: i32) -> (r: i32)
    ensures
        r == rem4(rot as int),
{
    rot % 4
}

/// Exchanges the rotation on screen with `rot`, then reduces the new rotation
/// as [`set_rotation`] does.
pub fn swap_rotation(rotation: &mut i32, rot: &mut i32)
    ensures
        *final(rotation) == rem4(*old(rot) as int),
        *final(rot) == *old(rotation),
{
    std::mem::swap(rotation, rot);
    *rotation = *rotation % 4;
}

/// True when the image lies on its side, so its width and height are exchanged.
pub fn is_sideways(rotation: i32) -> (r: bool)
    ensures
        r == (rotation as int % 2 != 0),
{
    rotation % 2 != 0
}

/// A mirroring of the image.
#[derive(Debug, Clone, Copy, PartialEq, Eq, Structural)]
pub enum Flip {
    Horizontal,
    Vertical,
}

/// The other mirroring.
pub open spec fn other(f: Flip) -> Flip {
    match f {
        Flip::Horizontal => Flip::Vertical,
        Flip::Vertical => Flip::Horizontal,
    }
}

/// The mirroring of the unrotated image that looks like `requested` on screen.
pub open spec fn mirror_for(rotation: int, requested: Flip) -> Flip {
    if rotation % 2 != 0 {
        other(requested)
    } else {
        requested
    }
}

/// The mirroring to apply to the unrotated image so that it looks mirrored
/// along `requested` on screen: on its side, horizontal and vertical exchange.
pub fn flip_for_rotation(rotation: i32, requested: Flip) -> (r: Flip)
    ensures
        r == mirror_for(rotation as int, requested),
        (rotation as int % 2 != 0) ==> r != requested,
        (rotation as int % 2 == 0) ==> r == requested,
{
    if is_sideways(rotation) {
        match requested {
            Flip::Horizontal => Flip::Vertical,
            Flip::Vertical => Flip::Horizontal,
        }
    } else {
        requested
    }
}

/// Turning back by the same amount restores the rotation.
pub proof fn rotate_back_restores(rotation: int, rot: int)
    requires
        0 <= rotation < 4,
    ensures
        turned(turned(rotation, rot), -rot) == rotation,
{
    let t = (rotation + rot) % 4;
    vstd::arithmetic::div_mod::lemma_fundamental_div_mod(rotation + rot, 4);
    let q = (rotation + rot) / 4;
    assert(t + -rot == rotation + (-q) * 4);
    vstd::arithmetic::div_mod::lemma_mod_multiples_vanish(-q, rotation, 4);
    vstd::arithmetic::div_mod::lemma_small_mod(rotation as nat, 4);
}

/// Turning by a and then by b is turning by a + b.
pub proof fn rotate_composes(rotation: int, a: int, b: int)
    ensures
        turned(turned(rotation, a), b) == turned(rotation, a + b),
{
    vstd::arithmetic::div_mod::lemma_add_mod_noop(rotation + a, b, 4);
    vstd::arithmetic::div_mod::lemma_mod_twice(b, 4);
    vstd::arithmetic::div_mod::lemma_add_mod_noop((rotation + a) % 4, b, 4);
    vstd::arithmetic::div_mod::lemma_mod_twice(rotation + a, 4);
}

/// How the image on screen is turned (in quarter turns) and mirrored.
#[derive(Debug, Clone, Copy, PartialEq, Eq, Structural)]
pub struct Orientation {
    pub rotation: i32,
    pub horizontal_flip: bool,
    pub vertical_flip: bool,
}

/// `o` mirrored once more along `f`.
pub open spec fn toggled(o: Orientation, f: Flip) -> Orientation {
    match f {
        Flip::Horizontal => Orientation { horizontal_flip: !o.horizontal_flip, ..o },
        Flip::Vertical => Orientation { vertical_flip: !o.vertical_flip, ..o },
    }
}

impl Orientation {
    /// Upright and not mirrored.
    pub fn new() -> (r: Orientation)
        ensures
            r == (Orientation { rotation: 0, horizontal_flip: false, vertical_flip: false }),
    {
        Orientation { rotation: 0, horizontal_flip: false, vertical_flip: false }
    }

    /// Turns by `rot` quarter turns; the rotation ends in `0..4`.
    pub fn rotate(&mut self, rot: i32)
        requires
            i32::MIN <= old(self).rotation + rot <= i32::MAX,
        ensures
            *final(self) == (Orientation { rotation: turned(old(self).rotation as int, rot as int) as i32, ..*old(self) }),
    {
        self.rotation = rotate(self.rotation, rot);
    }

    /// Sets the rotation to `rot`, reduced as the `%` operator does.
    pub fn set_rotation(&mut self, rot: i32)
        ensures
            *final(self) == (Orientation { rotation: rem4(rot as int) as i32, ..*old(self) }),
    {
        self.rotation = set_rotation(rot);
    }

    /// Exchanges the rotation with `rot`, reducing the new rotation as
    /// [`Orientation::set_rotation`] does.
    pub fn swap_rotation(&mut self, rot: &mut i32)
        ensures
            *final(self) == (Orientation { rotation: rem4(*old(rot) as int) as i32, ..*old(self) }),
            *final(rot) == old(self).rotation,
    {
        swap_rotation(&mut self.rotation, rot);
    }

    /// Mirrors the unrotated image along `mirror`, as an undo or a redo of a
    /// recorded mirroring does.
    pub fn toggle(&mut self, mirror: Flip)
        ensures
            *final(self) == toggled(*old(self), mirror),
    {
        match mirror {
            Flip::Horizontal => {
                self.horizontal_flip = !self.horizontal_flip;
            },
            Flip::Vertical => {
                self.vertical_flip = !self.vertical_flip;
            },
        }
    }

    /// Mirrors the image along `requested` as seen on screen, and gives the
    /// mirroring of the unrotated image that was applied, to be recorded.
    pub fn flip(&mut self, requested: Flip) -> (applied: Flip)
        ensures
            applied == mirror_for(old(self).rotation as int, requested),
            *final(self) == toggled(*old(self), applied),
    {
        let applied = flip_for_rotation(self.rotation, requested);
        self.toggle(applied);
        applied
    }
}

/// Undoing a mirroring, by applying the recorded mirroring again, restores
/// the orientation.
pub proof fn flip_then_undo_restores(o: Orientation, requested: Flip)
    ensures
        toggled(toggled(o, mirror_for(o.rotation as int, requested)), mirror_for(
            o.rotation as int,
            requested,
        )) == o,
{
}

/// A mirroring as seen on screen does not change the rotation, and on a
/// sideways image it mirrors the unrotated image along the other axis.
pub proof fn flip_keeps_rotation(o: Orientation, requested: Flip)
    ensures
        toggled(o, mirror_for(o.rotation as int, requested)).rotation == o.rotation,
        o.rotation % 2 != 0 ==> mirror_for(o.rotation as int, requested) == other(requested),
{
}

/// The next step of an animation: the frame to show, whether it changed, and
/// how long to wait before the next step (`None`: no step is due).
#[derive(Debug, Clone, Copy, PartialEq, Eq, Structural)]
pub struct AnimationStep {
    pub index: usize,
    pub advanced: bool,
    pub wait: Option<u128>,
}

/// Steps an animation of `frame_count` frames showing frame `index`, when
/// `elapsed` nanoseconds passed since it was shown and it is shown for `delay`
/// nanoseconds. A paused animation or a still image never steps.
pub fn animation_step(playing: bool, frame_count: usize, index: usize, elapsed: u128, delay: u128) -> (r:
    AnimationStep)
    requires
        playing && frame_count > 1 ==> index < frame_count,
    ensures
        !playing || frame_count <= 1 ==> r == (AnimationStep { index, advanced: false, wait: None }),
        playing && frame_count > 1 && elapsed > delay ==> r == (AnimationStep {
            index: if index + 1 >= frame_count {
                0
            } else {
                (index + 1) as usize
            },
            advanced: true,
            wait: Some(delay),
        }),
        playing && frame_count > 1 && elapsed <= delay ==> r == (AnimationStep {
            index,
            advanced: false,
            wait: Some((delay - elapsed) as u128),
        }),
{
    if !playing || frame_count <= 1 {
        return AnimationStep { index, advanced: false, wait: None };
    }
    if elapsed > delay {
        let mut next = index + 1;
        if next >= frame_count {
            next = 0;
        }
        AnimationStep { index: next, advanced: true, wait: Some(delay) }
    } else {
        AnimationStep { index, advanced: false, wait: Some(delay - elapsed) }
    }
}

/// The size of the image as shown: on its side, width and height exchange.
pub open spec fn shown_size(width: int, height: int, rotation: int) -> (int, int) {
    if rotation % 2 != 0 {
        (height, width)
    } else {
        (width, height)
    }
}

/// The pixel of the stored image of `width` by `height` pixels that is shown
/// at `(x, y)`: the turn is undone first, then the mirroring.
pub open spec fn source_of(x: int, y: int, width: int, height: int, o: Orientation) -> (int, int) {
    let turned_back = if o.rotation == 1 {
        (y, height - x - 1)
    } else if o.rotation == 2 {
        (width - x - 1, height - y - 1)
    } else if o.rotation == 3 {
        (width - y - 1, x)
    } else {
        (x, y)
    };
    let px = if o.horizontal_flip {
        width - turned_back.0 - 1
    } else {
        turned_back.0
    };
    let py = if o.vertical_flip {
        height - turned_back.1 - 1
    } else {
        turned_back.1
    };
    (px, py)
}

/// The pixel of the stored image that is shown at `(x, y)`, for an image of
/// `width` by `height` pixels shown with orientation `o`.
pub fn source_pixel(x: u32, y: u32, width: u32, height: u32, o: Orientation) -> (r: (u32, u32))
    requires
        0 <= o.rotation < 4,
        x < shown_size(width as int, height as int, o.rotation as int).0,
        y < shown_size(width as int, height as int, o.rotation as int).1,
    ensures
        (r.0 as int, r.1 as int) == source_of(x as int, y as int, width as int, height as int, o),
        r.0 < width,
        r.1 < height,
{
    let (mut px, mut py) = match o.rotation {
        1 => (y, height - x - 1),
        2 => (width - x - 1, height - y - 1),
        3 => (width - y - 1, x),
        _ => (x, y),
    };
    if o.horizontal_flip {
        px = width - px - 1;
    }
    if o.vertical_flip {
        py = height - py - 1;
    }
    (px, py)
}

/// Two different pixels on screen show two different pixels of the image.
pub proof fn source_pixel_one_to_one(
    x1: int,
    y1: int,
    x2: int,
    y2: int,
    width: int,
    height: int,
    o: Orientation,
)
    requires
        0 <= o.rotation < 4,
        0 <= x1 < shown_size(width, height, o.rotation as int).0,
        0 <= y1 < shown_size(width, height, o.rotation as int).1,
        0 <= x2 < shown_size(width, height, o.rotation as int).0,
        0 <= y2 < shown_size(width, height, o.rotation as int).1,
        source_of(x1, y1, width, height, o) == source_of(x2, y2, width, height, o),
    ensures
        x1 == x2 && y1 == y2,
{
}

/// A turn lands on a quarter turn from 0 to 3 that differs from the sum of
/// the rotation and the turn by whole turns.
pub proof fn turn_lands_in_range(rotation: int, rot: int)
    ensures
        0 <= turned(rotation, rot) < 4,
        (turned(rotation, rot) - rotation - rot) % 4 == 0,
{
    vstd::arithmetic::div_mod::lemma_fundamental_div_mod(rotation + rot, 4);
    let q = (rotation + rot) / 4;
    assert(turned(rotation, rot) - rotation - rot == -q * 4);
    vstd::arithmetic::div_mod::lemma_mod_multiples_basic(-q, 4);
}

/// Setting a rotation keeps the remainder of the division by 4 that truncates
/// toward zero: it differs from the value by whole turns, lies strictly
/// between -4 and 4, and has the sign of the value.
pub proof fn set_rotation_truncates(x: int)
    ensures
        -4 < rem4(x) < 4,
        (x - rem4(x)) % 4 == 0,
        x >= 0 ==> rem4(x) >= 0,
        x < 0 ==> rem4(x) <= 0,
{
    if x >= 0 {
        vstd::arithmetic::div_mod::lemma_fundamental_div_mod(x, 4);
        let q = x / 4;
        assert(x - rem4(x) == q * 4);
        vstd::arithmetic::div_mod::lemma_mod_multiples_basic(q, 4);
    } else {
        vstd::arithmetic::div_mod::lemma_fundamental_div_mod(-x, 4);
        let q = (-x) / 4;
        assert(x - rem4(x) == -q * 4);
        vstd::arithmetic::div_mod::lemma_mod_multiples_basic(-q, 4);
    }
}

/// The turn by `rotation` quarter turns with no mirroring.
pub open spec fn plain_turn(rotation: i32) -> Orientation {
    Orientation { rotation, horizontal_flip: false, vertical_flip: false }
}

/// A half turn is two quarter turns and three quarter turns are a half turn
/// and a quarter turn, each quarter turn showing the stored image's left
/// column as the top row, read upwards; mirroring then reflects the stored
/// image across its width or height.
pub proof fn turns_compose_from_quarter_turns(x: int, y: int, width: int, height: int, o: Orientation)
    ensures
        source_of(x, 0, width, height, plain_turn(1)) == (0int, height - 1 - x),
        ({
            let (a, b) = source_of(x, y, height, width, plain_turn(1));
            source_of(x, y, width, height, plain_turn(2)) == source_of(a, b, width, height, plain_turn(1))
        }),
        ({
            let (a, b) = source_of(x, y, width, height, plain_turn(1));
            source_of(x, y, width, height, plain_turn(3)) == source_of(a, b, width, height, plain_turn(2))
        }),
        ({
            let (a, b) = source_of(x, y, width, height, plain_turn(o.rotation));
            &&& source_of(x, y, width, height, o).0 == if o.horizontal_flip {
                width - 1 - a
            } else {
                a
            }
            &&& source_of(x, y, width, height, o).1 == if o.vertical_flip {
                height - 1 - b
            } else {
                b
            }
        }),
{
}

} // verus!
