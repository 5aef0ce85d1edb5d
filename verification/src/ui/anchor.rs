use vstd::prelude::*;

verus! {

/// Where an element is pinned inside the drawable area.
#[derive(Clone, Copy, Debug, PartialEq, Eq, Structural)]
pub enum Anchor {
    CenterCenter,
    Topleft,
    TopCenter,
    TopRight,
    RightCenter,
    BotRight,
    BotCenter,
    BotLeft,
    LeftCenter,
}

/// Alignment along one axis.
#[derive(Clone, Copy, Debug, PartialEq, Eq, Structural)]
pub enum Align {
    /// Against the left (or top) edge.
    Start,
    /// In the middle.
    Middle,
    /// Against the right (or bottom) edge.
    End,
}

/// A coordinate given in halves: twice its value is
/// `screen_w * W + screen_h * H + size_x * w + size_y * h`, where `W x H` is
/// the drawable area and `w x h` the element's size.
#[derive(Clone, Copy, Debug, PartialEq, Eq, Structural)]
pub struct HalfForm {
    pub screen_w: i8,
    pub screen_h: i8,
    pub size_x: i8,
    pub size_y: i8,
}

/// The centre of an element, one [`HalfForm`] per axis.
#[derive(Clone, Copy, Debug, PartialEq, Eq, Structural)]
pub struct CenterForm {
    pub x: HalfForm,
    pub y: HalfForm,
}

/// Twice the value of a coordinate, for a drawable area `sw x sh` and an element `w x h`.
pub open spec fn twice(f: HalfForm, sw: int, sh: int, w: int, h: int) -> int {
    f.screen_w * sw + f.screen_h * sh + f.size_x * w + f.size_y * h
}

/// Horizontal alignment of an anchor.
pub open spec fn horizontal(a: Anchor) -> Align {
    match a {
        Anchor::Topleft | Anchor::BotLeft | Anchor::LeftCenter => Align::Start,
        Anchor::CenterCenter | Anchor::TopCenter | Anchor::BotCenter => Align::Middle,
        Anchor::TopRight | Anchor::RightCenter | Anchor::BotRight => Align::End,
    }
}

/// Vertical alignment of an anchor.
pub open spec fn vertical(a: Anchor) -> Align {
    match a {
        Anchor::Topleft | Anchor::TopCenter | Anchor::TopRight => Align::Start,
        Anchor::CenterCenter | Anchor::RightCenter | Anchor::LeftCenter => Align::Middle,
        Anchor::BotRight | Anchor::BotCenter | Anchor::BotLeft => Align::End,
    }
}

/// Twice the centre along an axis of length `len` for an element of extent
/// `ext`: `ext` at the start, `len` in the middle, `2 len - ext` at the end.
pub open spec fn aligned_twice(al: Align, len: int, ext: int) -> int {
    match al {
        Align::Start => ext,
        Align::Middle => len,
        Align::End => 2 * len - ext,
    }
}

/// The horizontal centre of an element aligned `al`, as a form.
pub open spec fn x_form(al: Align) -> HalfForm {
    match al {
        Align::Start => HalfForm { screen_w: 0, screen_h: 0, size_x: 1, size_y: 0 },
        Align::Middle => HalfForm { screen_w: 1, screen_h: 0, size_x: 0, size_y: 0 },
        Align::End => HalfForm { screen_w: 2, screen_h: 0, size_x: -1i8, size_y: 0 },
    }
}

/// The vertical centre of an element aligned `al`, as a form.
pub open spec fn y_form(al: Align) -> HalfForm {
    match al {
        Align::Start => HalfForm { screen_w: 0, screen_h: 0, size_x: 0, size_y: 1 },
        Align::Middle => HalfForm { screen_w: 0, screen_h: 1, size_x: 0, size_y: 0 },
        Align::End => HalfForm { screen_w: 0, screen_h: 2, size_x: 0, size_y: -1i8 },
    }
}

/// The centre of an element pinned by `a`: the horizontal form of its
/// horizontal alignment and the vertical form of its vertical alignment.
pub open spec fn spec_centre_form(a: Anchor) -> CenterForm {
    CenterForm { x: x_form(horizontal(a)), y: y_form(vertical(a)) }
}

fn x_form_of(al: Align) -> (f: HalfForm)
    ensures
        f == x_form(al),
{
    match al {
        Align::Start => HalfForm { screen_w: 0, screen_h: 0, size_x: 1, size_y: 0 },
        Align::Middle => HalfForm { screen_w: 1, screen_h: 0, size_x: 0, size_y: 0 },
        Align::End => HalfForm { screen_w: 2, screen_h: 0, size_x: -1i8, size_y: 0 },
    }
}

fn y_form_of(al: Align) -> (f: HalfForm)
    ensures
        f == y_form(al),
{
    match al {
        Align::Start => HalfForm { screen_w: 0, screen_h: 0, size_x: 0, size_y: 1 },
        Align::Middle => HalfForm { screen_w: 0, screen_h: 1, size_x: 0, size_y: 0 },
        Align::End => HalfForm { screen_w: 0, screen_h: 2, size_x: 0, size_y: -1i8 },
    }
}

impl Anchor {
    pub fn horizontal(&self) -> (al: Align)
        ensures
            al == horizontal(*self),
    {
        match self {
            Anchor::Topleft | Anchor::BotLeft | Anchor::LeftCenter => Align::Start,
            Anchor::CenterCenter | Anchor::TopCenter | Anchor::BotCenter => Align::Middle,
            Anchor::TopRight | Anchor::RightCenter | Anchor::BotRight => Align::End,
        }
    }

    pub fn vertical(&self) -> (al: Align)
        ensures
            al == vertical(*self),
    {
        match self {
            Anchor::Topleft | Anchor::TopCenter | Anchor::TopRight => Align::Start,
            Anchor::CenterCenter | Anchor::RightCenter | Anchor::LeftCenter => Align::Middle,
            Anchor::BotRight | Anchor::BotCenter | Anchor::BotLeft => Align::End,
        }
    }

    /// The centre of an element pinned by this anchor in a drawable area: the
    /// x coordinate follows the horizontal alignment over the width, the y
    /// coordinate the vertical alignment over the height.
    pub fn compute_form(&self) -> (c: CenterForm)
        ensures
            c == spec_centre_form(*self),
    {
        CenterForm { x: x_form_of(self.horizontal()), y: y_form_of(self.vertical()) }
    }

    /// The centre of an element pinned by this anchor, as a value over the
    /// screen size and the element's size: the same centre as
    /// [`Anchor::compute_form`] gives, left to be evaluated.
    pub fn as_value(&self) -> (c: CenterForm)
        ensures
            c == spec_centre_form(*self),
    {
        self.compute_form()
    }
}

proof fn lemma_small_product(c: int, v: int)
    ensures
        c == 0 ==> c * v == 0,
        c == 1 ==> c * v == v,
        c == 2 ==> c * v == 2 * v,
        c == -1 ==> c * v == -v,
{
    assert(c == 0 ==> c * v == 0) by (nonlinear_arith);
    assert(c == 1 ==> c * v == v) by (nonlinear_arith);
    assert(c == 2 ==> c * v == 2 * v) by (nonlinear_arith);
    assert(c == -1 ==> c * v == -v) by (nonlinear_arith);
}

proof fn lemma_twice(f: HalfForm, sw: int, sh: int, w: int, h: int)
    ensures
        f.screen_w == 0 || f.screen_w == 1 || f.screen_w == 2 || f.screen_w == -1 ==> (
        f.screen_h == 0 || f.screen_h == 1 || f.screen_h == 2 || f.screen_h == -1) ==> (f.size_x
            == 0 || f.size_x == 1 || f.size_x == 2 || f.size_x == -1) ==> (f.size_y == 0
            || f.size_y == 1 || f.size_y == 2 || f.size_y == -1) ==> twice(f, sw, sh, w, h) == (
        if f.screen_w == 0 {
            0
        } else if f.screen_w == 1 {
            sw
        } else if f.screen_w == 2 {
            2 * sw
        } else {
            -sw
        }) + (if f.screen_h == 0 {
            0
        } else if f.screen_h == 1 {
            sh
        } else if f.screen_h == 2 {
            2 * sh
        } else {
            -sh
        }) + (if f.size_x == 0 {
            0
        } else if f.size_x == 1 {
            w
        } else if f.size_x == 2 {
            2 * w
        } else {
            -w
        }) + (if f.size_y == 0 {
            0
        } else if f.size_y == 1 {
            h
        } else if f.size_y == 2 {
            2 * h
        } else {
            -h
        }),
{
    lemma_small_product(f.screen_w as int, sw);
    lemma_small_product(f.screen_h as int, sh);
    lemma_small_product(f.size_x as int, w);
    lemma_small_product(f.size_y as int, h);
}

/// The forms mean what the alignment says: twice the horizontal centre is
/// `w` at the start, `W` in the middle and `2W - w` at the end, and likewise
/// vertically over `H` and `h`.
pub proof fn law_forms_follow_alignment(al: Align, sw: int, sh: int, w: int, h: int)
    ensures
        twice(x_form(al), sw, sh, w, h) == aligned_twice(al, sw, w),
        twice(y_form(al), sw, sh, w, h) == aligned_twice(al, sh, h),
{
    lemma_twice(x_form(al), sw, sh, w, h);
    lemma_twice(y_form(al), sw, sh, w, h);
}

/// The centre by value is the computed centre, for every anchor: evaluated
/// over a drawable area `sw x sh` and an element `w x h`, twice its x is the
/// horizontal alignment's centre over the width and twice its y the
/// vertical alignment's centre over the height.
pub proof fn law_value_is_computed_centre(a: Anchor, sw: int, sh: int, w: int, h: int)
    ensures
        twice(spec_centre_form(a).x, sw, sh, w, h) == aligned_twice(horizontal(a), sw, w),
        twice(spec_centre_form(a).y, sw, sh, w, h) == aligned_twice(vertical(a), sh, h),
{
    law_forms_follow_alignment(horizontal(a), sw, sh, w, h);
    law_forms_follow_alignment(vertical(a), sw, sh, w, h);
}

/// An element no larger than the drawable area and pinned by any anchor lies
/// entirely inside the area: `0 <= x - w/2` and `x + w/2 <= W`, and the same
/// vertically.
pub proof fn law_anchored_element_fits(a: Anchor, sw: int, sh: int, w: int, h: int)
    requires
        0 <= w <= sw,
        0 <= h <= sh,
    ensures
        0 <= aligned_twice(horizontal(a), sw, w) - w,
        aligned_twice(horizontal(a), sw, w) + w <= 2 * sw,
        0 <= aligned_twice(vertical(a), sh, h) - h,
        aligned_twice(vertical(a), sh, h) + h <= 2 * sh,
{
}

/// Anchors opposite across the centre place an element symmetrically: the
/// two centres add up to the whole area along the axis where they differ.
pub proof fn law_opposite_anchors_are_symmetric(sw: int, w: int)
    ensures
        aligned_twice(Align::Start, sw, w) + aligned_twice(Align::End, sw, w) == 2 * sw,
        aligned_twice(Align::Middle, sw, w) * 2 == 2 * sw,
{
}

} // verus!
