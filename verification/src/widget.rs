//! The widget tree of a banner: images, texts and containers that lay their elements out
//! along a direction, and the sizes of each.
use vstd::prelude::*;

use crate::config::spacing::{sat_sub, Spacing};
use crate::layout::{
    along, compile_image, fitted_margin, image_fits_reducibly, Alignment, ContainerPlane, Direction,
    Offset, Position, RectSize,
};
use crate::text_layout::{
    layout_spec, line_words, lines_view, width_bound, words_bounded, words_wf, TextRect,
};

verus! {

/// An image widget: the size of its image where it has one, its margin, and its size once
/// laid out.
#[derive(Debug)]
pub struct WImage {
    pub image: Option<RectSize>,
    pub margin: Spacing,
    pub rect_size: Option<RectSize>,
}

/// A container: its size once laid out, the spacing inside its border, the direction and
/// alignment of its elements, and the elements.
#[derive(Debug)]
pub struct Container {
    pub rect_size: Option<RectSize>,
    pub spacing: Spacing,
    pub direction: Direction,
    pub alignment: Alignment,
    pub elements: Vec<Widget>,
}

/// A widget of a banner; one that could not be laid out is unknown and takes no room.
#[derive(Debug)]
pub enum Widget {
    Image(WImage),
    Text(TextRect),
    Container(Container),
    Unknown,
}

/// The height of `n` lines of a text: the lines, the space between each two, and the margin.
pub open spec fn lines_height(t: TextRect, n: nat) -> int {
    n * t.line_height + (if n > 0 {
        n - 1
    } else {
        0
    }) * t.line_spacing + t.margin.top + t.margin.bottom
}

/// The height of a text: that of its lines.
pub open spec fn text_height(t: TextRect) -> nat {
    lines_height(t, t.lines@.len()) as nat
}

/// The length of a widget along an axis (its width where `horizontal`, else its height): an
/// image takes its laid-out size, a text its width or height, a container the sum of its
/// elements along its own direction and the largest of them across it; an unknown widget
/// takes nothing.
pub open spec fn widget_len(w: Widget, horizontal: bool) -> nat
    decreases w, 1nat,
{
    match w {
        Widget::Image(i) => match i.rect_size {
            Some(r) => if horizontal {
                r.width as nat
            } else {
                r.height as nat
            },
            None => 0,
        },
        Widget::Text(t) => if horizontal {
            t.width as nat
        } else {
            text_height(t)
        },
        Widget::Container(c) => if (c.direction == Direction::Horizontal) == horizontal {
            lens_sum(c.elements@, horizontal)
        } else {
            lens_max(c.elements@, horizontal)
        },
        Widget::Unknown => 0,
    }
}

/// The sum of the lengths of some widgets along an axis.
pub open spec fn lens_sum(ws: Seq<Widget>, horizontal: bool) -> nat
    decreases ws, 0nat,
{
    if ws.len() == 0 {
        0
    } else {
        lens_sum(ws.drop_last(), horizontal) + widget_len(ws.last(), horizontal)
    }
}

/// The largest length of some widgets along an axis, 0 for none.
pub open spec fn lens_max(ws: Seq<Widget>, horizontal: bool) -> nat
    decreases ws, 0nat,
{
    if ws.len() == 0 {
        0
    } else if lens_max(ws.drop_last(), horizontal) >= widget_len(ws.last(), horizontal) {
        lens_max(ws.drop_last(), horizontal)
    } else {
        widget_len(ws.last(), horizontal)
    }
}

/// Whether every image of a widget has been laid out.
pub open spec fn sized(w: Widget) -> bool
    decreases w, 1nat,
{
    match w {
        Widget::Image(i) => i.rect_size is Some,
        Widget::Container(c) => all_sized(c.elements@),
        _ => true,
    }
}

/// Whether every image of some widgets has been laid out.
pub open spec fn all_sized(ws: Seq<Widget>) -> bool
    decreases ws, 0nat,
{
    ws.len() == 0 || (all_sized(ws.drop_last()) && sized(ws.last()))
}

/// Whether the sizes of a widget can be computed: its images are laid out and its lengths
/// fit in `usize`.
pub open spec fn measurable(w: Widget) -> bool {
    sized(w) && widget_len(w, true) <= usize::MAX && widget_len(w, false) <= usize::MAX
}

/// Each widget among some is no longer than their sum and their largest.
proof fn lemma_len_bounded(ws: Seq<Widget>, i: int, horizontal: bool)
    requires
        0 <= i < ws.len(),
    ensures
        widget_len(ws[i], horizontal) <= lens_sum(ws, horizontal),
        widget_len(ws[i], horizontal) <= lens_max(ws, horizontal),
    decreases ws.len(),
{
    if i < ws.len() - 1 {
        lemma_len_bounded(ws.drop_last(), i, horizontal);
        assert(ws.drop_last()[i] == ws[i]);
    }
}

/// Each widget among some laid out ones is laid out.
proof fn lemma_all_sized(ws: Seq<Widget>, i: int)
    requires
        0 <= i < ws.len(),
        all_sized(ws),
    ensures
        sized(ws[i]),
    decreases ws.len(),
{
    if i < ws.len() - 1 {
        lemma_all_sized(ws.drop_last(), i);
        assert(ws.drop_last()[i] == ws[i]);
    }
}

/// The lengths of a prefix: its sum is at most that of the whole, and so is its largest.
proof fn lemma_prefix_lens(ws: Seq<Widget>, k: int, horizontal: bool)
    requires
        0 <= k <= ws.len(),
    ensures
        lens_sum(ws.subrange(0, k), horizontal) <= lens_sum(ws, horizontal),
        lens_max(ws.subrange(0, k), horizontal) <= lens_max(ws, horizontal),
    decreases ws.len() - k,
{
    if k < ws.len() {
        lemma_prefix_lens(ws, k + 1, horizontal);
        let p = ws.subrange(0, k + 1);
        assert(p.drop_last() =~= ws.subrange(0, k));
    } else {
        assert(ws.subrange(0, k) =~= ws);
    }
}

/// The length of a widget along an axis (see [`widget_len`]).
fn len_along(w: &Widget, horizontal: bool) -> (r: usize)
    requires
        sized(*w),
        widget_len(*w, horizontal) <= usize::MAX,
        horizontal || widget_len(*w, true) <= usize::MAX,
        !horizontal || widget_len(*w, false) <= usize::MAX,
    ensures
        r == widget_len(*w, horizontal),
    decreases w,
{
    match w {
        Widget::Image(i) => {
            let size = i.rect_size.unwrap();
            if horizontal {
                size.width
            } else {
                size.height
            }
        },
        Widget::Text(t) => {
            if horizontal {
                t.width()
            } else {
                t.height()
            }
        },
        Widget::Container(c) => c.len_along(horizontal),
        Widget::Unknown => 0,
    }
}

impl Container {
    /// The length of the container along an axis (see [`widget_len`]).
    fn len_along(&self, horizontal: bool) -> (r: usize)
        requires
            sized(Widget::Container(*self)),
            widget_len(Widget::Container(*self), horizontal) <= usize::MAX,
            widget_len(Widget::Container(*self), !horizontal) <= usize::MAX,
        ensures
            r == widget_len(Widget::Container(*self), horizontal),
        decreases *self,
    {
        let sum = (self.direction == Direction::Horizontal) == horizontal;
        let ghost ws = self.elements@;
        let mut acc: usize = 0;
        let mut i: usize = 0;
        while i < self.elements.len()
            invariant
                ws == self.elements@,
                i <= ws.len(),
                all_sized(ws),
                sum ==> acc == lens_sum(ws.subrange(0, i as int), horizontal),
                !sum ==> acc == lens_max(ws.subrange(0, i as int), horizontal),
                sum ==> lens_sum(ws, horizontal) <= usize::MAX,
                !sum ==> lens_max(ws, horizontal) <= usize::MAX,
                (self.direction == Direction::Horizontal) == !horizontal ==> lens_sum(ws, !horizontal) <= usize::MAX,
                (self.direction == Direction::Horizontal) != !horizontal ==> lens_max(ws, !horizontal) <= usize::MAX,
            decreases ws.len() - i,
        {
            proof {
                lemma_all_sized(ws, i as int);
                lemma_len_bounded(ws, i as int, horizontal);
                lemma_len_bounded(ws, i as int, !horizontal);
                lemma_prefix_lens(ws, i + 1, horizontal);
                assert(ws.subrange(0, i + 1).drop_last() =~= ws.subrange(0, i as int));
                assert(ws.subrange(0, i + 1).last() == ws[i as int]);
                assert(decreases_to!(*self => self.elements));
                assert(decreases_to!(self.elements => self.elements@));
                assert(decreases_to!(self.elements@ => self.elements@[i as int]));
            }
            let l = len_along(&self.elements[i], horizontal);
            if sum {
                acc = acc + l;
            } else if l > acc {
                acc = l;
            }
            i = i + 1;
        }
        assert(ws.subrange(0, ws.len() as int) =~= ws);
        acc
    }

    pub fn width(&self) -> (r: usize)
        requires
            measurable(Widget::Container(*self)),
        ensures
            r == widget_len(Widget::Container(*self), true),
    {
        self.len_along(true)
    }

    pub fn height(&self) -> (r: usize)
        requires
            measurable(Widget::Container(*self)),
        ensures
            r == widget_len(Widget::Container(*self), false),
    {
        self.len_along(false)
    }

    /// The length along the container's direction.
    pub fn main_len(&self) -> (r: usize)
        requires
            measurable(Widget::Container(*self)),
        ensures
            r == widget_len(Widget::Container(*self), self.direction == Direction::Horizontal),
    {
        match self.direction {
            Direction::Horizontal => self.width(),
            Direction::Vertical => self.height(),
        }
    }

    /// The length across the container's direction.
    pub fn auxiliary_len(&self) -> (r: usize)
        requires
            measurable(Widget::Container(*self)),
        ensures
            r == widget_len(Widget::Container(*self), self.direction == Direction::Vertical),
    {
        match self.direction {
            Direction::Horizontal => self.height(),
            Direction::Vertical => self.width(),
        }
    }

    /// How the elements are placed along the direction.
    pub fn main_axis_alignment(&self) -> (r: Position)
        ensures
            r == (match self.direction {
                Direction::Horizontal => self.alignment.horizontal,
                Direction::Vertical => self.alignment.vertical,
            }),
    {
        match self.direction {
            Direction::Horizontal => self.alignment.horizontal,
            Direction::Vertical => self.alignment.vertical,
        }
    }

    /// How the elements are placed across the direction.
    pub fn auxiliary_axis_alignment(&self) -> (r: Position)
        ensures
            r == (match self.direction {
                Direction::Horizontal => self.alignment.vertical,
                Direction::Vertical => self.alignment.horizontal,
            }),
    {
        match self.direction {
            Direction::Horizontal => self.alignment.vertical,
            Direction::Vertical => self.alignment.horizontal,
        }
    }
}

impl Widget {
    pub fn is_container(&self) -> (r: bool)
        ensures
            r == (*self is Container),
    {
        match self {
            Widget::Container(_) => true,
            _ => false,
        }
    }

    pub fn is_unknown(&self) -> (r: bool)
        ensures
            r == (*self is Unknown),
    {
        match self {
            Widget::Unknown => true,
            _ => false,
        }
    }

    pub fn width(&self) -> (r: usize)
        requires
            measurable(*self),
        ensures
            r == widget_len(*self, true),
    {
        len_along(self, true)
    }

    pub fn height(&self) -> (r: usize)
        requires
            measurable(*self),
        ensures
            r == widget_len(*self, false),
    {
        len_along(self, false)
    }

    /// The length along a direction: the width for a horizontal one, else the height.
    pub fn len_by_direction(&self, direction: &Direction) -> (r: usize)
        requires
            measurable(*self),
        ensures
            r == widget_len(*self, *direction == Direction::Horizontal),
    {
        match direction {
            Direction::Horizontal => self.width(),
            Direction::Vertical => self.height(),
        }
    }
}

// ---------------------------------------------------------------------------
// Laying a widget out
// ---------------------------------------------------------------------------

/// The space given to an element of a container: `main` along the container's direction and
/// `aux` across it.
pub open spec fn plane_rect(direction: Direction, main: int, aux: usize) -> RectSize {
    let (width, height) = along(direction, main as usize, aux);
    RectSize { width, height }
}

/// The space inside a container given `rect`: the size less its spacing, stopping at zero.
pub open spec fn inner_rect(rect: RectSize, spacing: Spacing) -> RectSize {
    RectSize {
        width: sat_sub(rect.width as int, spacing.left + spacing.right) as usize,
        height: sat_sub(rect.height as int, spacing.top + spacing.bottom) as usize,
    }
}

/// The number of lines of a text laid out in `rect` less its margin (see [`layout_spec`]).
pub open spec fn text_lines_in(t: TextRect, rect: RectSize) -> nat {
    text_layout_in(t, rect).0.len()
}

/// The layout of a text in `rect` less its margin (see [`layout_spec`]).
pub open spec fn text_layout_in(t: TextRect, rect: RectSize) -> (
    Seq<(int, Seq<Seq<crate::text_layout::Glyph>>, int)>,
    Seq<Seq<crate::text_layout::Glyph>>,
) {
    layout_spec(
        line_words(t.words@),
        sat_sub(rect.width as int, t.margin.left + t.margin.right),
        sat_sub(rect.height as int, t.margin.top + t.margin.bottom),
        t.wrap,
        t.spacebar_width,
        t.line_height as int,
        t.line_height + t.line_spacing,
        t.ellipsis,
        t.ellipsize_at,
    )
}

/// The length along an axis of a widget once laid out in `rect`: an image fitted into the
/// space (nothing where it has no size or is larger than the space), a text as wide as the
/// space and as high as its lines, a container the sum of its elements along its direction
/// and the largest across it, each element laid out in what the ones before it left.
pub open spec fn compiled_len(w: Widget, rect: RectSize, horizontal: bool) -> nat
    decreases w, 0int,
{
    match w {
        Widget::Image(i) => match i.image {
            None => 0,
            Some(img) => if img.width > rect.width || img.height > rect.height {
                0
            } else {
                let m = fitted_margin(img, rect, i.margin);
                if horizontal {
                    (img.width + m.left + m.right) as nat
                } else {
                    (img.height + m.top + m.bottom) as nat
                }
            },
        },
        Widget::Text(t) => if horizontal {
            rect.width as nat
        } else {
            lines_height(t, text_lines_in(t, rect)) as nat
        },
        Widget::Container(c) => {
            let inner = inner_rect(rect, c.spacing);
            let (main, aux) = along(c.direction, inner.width, inner.height);
            if (c.direction == Direction::Horizontal) == horizontal {
                elems_used(c.elements@, c.elements@.len() as int, main as int, aux, c.direction)
            } else {
                elems_across(c.elements@, c.elements@.len() as int, main as int, aux, c.direction)
            }
        },
        Widget::Unknown => 0,
    }
}

/// What the first `k` elements of a container take along its direction, each laid out in
/// what the ones before it left of `main`, with `aux` across.
pub open spec fn elems_used(ws: Seq<Widget>, k: int, main: int, aux: usize, direction: Direction) -> nat
    decreases ws, k,
{
    if k <= 0 || k > ws.len() {
        0
    } else {
        let before = elems_used(ws, k - 1, main, aux, direction);
        before + compiled_len(
            ws[k - 1],
            plane_rect(direction, main - before, aux),
            direction == Direction::Horizontal,
        )
    }
}

/// The largest length across a container's direction of its first `k` elements, laid out as
/// in [`elems_used`].
pub open spec fn elems_across(ws: Seq<Widget>, k: int, main: int, aux: usize, direction: Direction) -> nat
    decreases ws, k,
{
    if k <= 0 || k > ws.len() {
        0
    } else {
        let m = elems_across(ws, k - 1, main, aux, direction);
        let l = compiled_len(
            ws[k - 1],
            plane_rect(direction, main - elems_used(ws, k - 1, main, aux, direction), aux),
            direction != Direction::Horizontal,
        );
        if m >= l {
            m
        } else {
            l
        }
    }
}

/// What a text needs to be laid out: well-formed words no wider than the width bound, a space
/// and an ellipsis within it, and a step between lines that is not zero.
pub open spec fn text_ready(t: TextRect) -> bool {
    &&& words_wf(t.words@)
    &&& words_bounded(line_words(t.words@))
    &&& t.spacebar_width <= width_bound()
    &&& t.ellipsis.advance_width <= width_bound()
    &&& 0 < t.line_height + t.line_spacing <= usize::MAX
}

/// Whether a widget can be laid out in `rect`: the margins of an image that fits can be
/// reduced, a text is ready and its height fits in `usize`, and the elements of a container
/// each fit in what the ones before them left, and its lengths fit in `usize`.
pub open spec fn compile_fits(w: Widget, rect: RectSize) -> bool
    decreases w, 0int,
{
    match w {
        Widget::Image(i) => match i.image {
            None => true,
            Some(img) => img.width + 510 <= usize::MAX && img.height + 510 <= usize::MAX && (
            img.width <= rect.width && img.height <= rect.height ==> image_fits_reducibly(
                img,
                rect,
                i.margin,
            )),
        },
        Widget::Text(t) => text_ready(t) && rect.width <= width_bound() && lines_height(
            t,
            text_lines_in(t, rect),
        ) <= usize::MAX,
        Widget::Container(c) => {
            let inner = inner_rect(rect, c.spacing);
            let (main, aux) = along(c.direction, inner.width, inner.height);
            &&& elems_fit(c.elements@, c.elements@.len() as int, main as int, aux, c.direction)
            &&& compiled_len(w, rect, true) <= usize::MAX
            &&& compiled_len(w, rect, false) <= usize::MAX
        },
        Widget::Unknown => true,
    }
}

/// Whether the first `k` elements of a container can each be laid out in what the ones
/// before them left of `main`, without taking more than is there.
pub open spec fn elems_fit(ws: Seq<Widget>, k: int, main: int, aux: usize, direction: Direction) -> bool
    decreases ws, k,
{
    if k <= 0 || k > ws.len() {
        true
    } else {
        let before = elems_used(ws, k - 1, main, aux, direction);
        &&& elems_fit(ws, k - 1, main, aux, direction)
        &&& compile_fits(ws[k - 1], plane_rect(direction, main - before, aux))
        &&& elems_used(ws, k, main, aux, direction) <= main
    }
}

/// A text laid out in `rect`: as wide as it, its lines and the words left over those of
/// [`text_layout_in`], the rest as it was.
pub open spec fn text_compiled(t: TextRect, t2: TextRect, rect: RectSize) -> bool {
    &&& t2.width == rect.width
    &&& lines_view(t2.lines@) == text_layout_in(t, rect).0
    &&& line_words(t2.words@) == text_layout_in(t, rect).1
    &&& t2.wrap == t.wrap
    &&& t2.spacebar_width == t.spacebar_width
    &&& t2.line_height == t.line_height
    &&& t2.line_spacing == t.line_spacing
    &&& t2.ellipsize_at == t.ellipsize_at
    &&& t2.ellipsis == t.ellipsis
    &&& t2.justification == t.justification
    &&& t2.margin == t.margin
}

/// A container laid out in `rect`: it keeps the size, its spacing, direction and alignment,
/// and none of its elements is unknown.
pub open spec fn container_compiled(c: Container, c2: Container, rect: RectSize) -> bool {
    &&& c2.rect_size == Some(rect)
    &&& c2.spacing == c.spacing
    &&& c2.direction == c.direction
    &&& c2.alignment == c.alignment
    &&& all_sized(c2.elements@)
    &&& forall|i: int| 0 <= i < c2.elements@.len() ==> !(#[trigger] c2.elements@[i] is Unknown)
}

/// What a widget becomes once laid out in `rect`: an image that has a size no larger than the
/// space keeps it with its margins fitted and its laid-out size, any other image becomes
/// unknown; a text and a container are laid out (see [`text_compiled`] and
/// [`container_compiled`]); an unknown widget stays so.
pub open spec fn compiled_shape(w: Widget, w2: Widget, rect: RectSize) -> bool {
    match w {
        Widget::Image(i) => match i.image {
            Some(img) => if img.width > rect.width || img.height > rect.height {
                w2 is Unknown
            } else {
                let m = fitted_margin(img, rect, i.margin);
                w2 == Widget::Image(
                    WImage {
                        image: i.image,
                        margin: m,
                        rect_size: Some(
                            RectSize {
                                width: (img.width + m.left + m.right) as usize,
                                height: (img.height + m.top + m.bottom) as usize,
                            },
                        ),
                    },
                )
            },
            None => w2 is Unknown,
        },
        Widget::Text(t) => w2 matches Widget::Text(t2) && text_compiled(t, t2, rect),
        Widget::Container(c) => w2 matches Widget::Container(c2) && container_compiled(c, c2, rect),
        Widget::Unknown => w2 is Unknown,
    }
}

/// A widget that can be laid out has lengths that fit in `usize` once laid out.
proof fn lemma_fits_bounded(w: Widget, rect: RectSize)
    requires
        compile_fits(w, rect),
    ensures
        compiled_len(w, rect, true) <= usize::MAX,
        compiled_len(w, rect, false) <= usize::MAX,
{
}

/// Elements that can be laid out can be so up to any point.
proof fn lemma_elems_fit_prefix(ws: Seq<Widget>, k: int, j: int, main: int, aux: usize, direction: Direction)
    requires
        0 <= j <= k <= ws.len(),
        elems_fit(ws, k, main, aux, direction),
    ensures
        elems_fit(ws, j, main, aux, direction),
    decreases k,
{
    if j < k {
        lemma_elems_fit_prefix(ws, k - 1, j, main, aux, direction);
    }
}

impl Widget {
    /// Lays the widget out in `rect_size` (see [`compiled_shape`] and [`compiled_len`]): an
    /// image that cannot be shown there becomes unknown.
    pub fn compile(&mut self, rect_size: RectSize)
        requires
            compile_fits(*old(self), rect_size),
        ensures
            compiled_shape(*old(self), *final(self), rect_size),
            sized(*final(self)),
            widget_len(*final(self), true) == compiled_len(*old(self), rect_size, true),
            widget_len(*final(self), false) == compiled_len(*old(self), rect_size, false),
        decreases *old(self),
    {
        let mut w = Widget::Unknown;
        std::mem::swap(&mut w, self);
        *self = match w {
            Widget::Image(image) => match compile_image(image.image, rect_size, image.margin) {
                Some((size, margin)) => Widget::Image(
                    WImage { image: image.image, margin, rect_size: Some(size) },
                ),
                None => Widget::Unknown,
            },
            Widget::Text(mut text) => {
                text.compile(rect_size);
                proof {
                    assert(text.lines@.len() == lines_view(text.lines@).len());
                }
                Widget::Text(text)
            },
            Widget::Container(mut container) => {
                container.compile(rect_size);
                Widget::Container(container)
            },
            Widget::Unknown => Widget::Unknown,
        };
    }
}

impl Container {
    /// Lays the container out in `rect_size`: each element in what the ones before it left of
    /// the space inside the spacing, along the direction; the elements that became unknown
    /// are dropped.
    pub fn compile(&mut self, rect_size: RectSize)
        requires
            compile_fits(Widget::Container(*old(self)), rect_size),
        ensures
            container_compiled(*old(self), *final(self), rect_size),
            widget_len(Widget::Container(*final(self)), true) == compiled_len(
                Widget::Container(*old(self)),
                rect_size,
                true,
            ),
            widget_len(Widget::Container(*final(self)), false) == compiled_len(
                Widget::Container(*old(self)),
                rect_size,
                false,
            ),
        decreases *old(self),
    {
        self.rect_size = Some(rect_size);
        let mut inner = rect_size;
        inner.shrink_by(&self.spacing);
        let mut plane = ContainerPlane::new(inner, self.direction);
        let mut rest: Vec<Widget> = Vec::new();
        std::mem::swap(&mut rest, &mut self.elements);
        let ghost ws = rest@;
        assert(ws.len() == rest.len());
        let ghost main0 = plane.main_len as int;
        let ghost aux = plane.auxiliary_len;
        let direction = self.direction;
        let horizontal = match direction {
            Direction::Horizontal => true,
            Direction::Vertical => false,
        };
        let mut kept: Vec<Widget> = Vec::new();
        let mut i: usize = 0;
        while rest.len() > 0
            invariant
                ws == old(self).elements@,
                ws.len() <= usize::MAX,
                i <= ws.len(),
                rest@ == ws.subrange(i as int, ws.len() as int),
                direction == old(self).direction,
                horizontal == (direction == Direction::Horizontal),
                plane.direction == direction,
                plane.auxiliary_len == aux,
                plane.main_len == main0 - elems_used(ws, i as int, main0, aux, direction),
                elems_fit(ws, ws.len() as int, main0, aux, direction),
                all_sized(kept@),
                forall|k: int| 0 <= k < kept@.len() ==> !(#[trigger] kept@[k] is Unknown),
                lens_sum(kept@, horizontal) == elems_used(ws, i as int, main0, aux, direction),
                lens_max(kept@, !horizontal) == elems_across(ws, i as int, main0, aux, direction),
                self.rect_size == Some(rect_size),
                self.spacing == old(self).spacing,
                self.direction == old(self).direction,
                self.alignment == old(self).alignment,
            decreases rest.len(),
        {
            assert(rest@.len() == ws.len() - i);
            let ghost before = elems_used(ws, i as int, main0, aux, direction);
            let mut w = rest.remove(0);
            proof {
                assert(w == ws[i as int]);
                lemma_elems_fit_prefix(ws, ws.len() as int, i + 1, main0, aux, direction);
                assert(decreases_to!(*old(self) => old(self).elements));
                assert(decreases_to!(old(self).elements => old(self).elements@));
                assert(decreases_to!(old(self).elements@ => old(self).elements@[i as int]));
            }
            let r = plane.as_rect_size();
            assert(r == plane_rect(direction, main0 - before, aux));
            w.compile(r);
            proof {
                lemma_fits_bounded(ws[i as int], r);
            }
            let l = w.len_by_direction(&direction);
            plane.main_len = plane.main_len - l;
            let ghost kept_before = kept@;
            if !w.is_unknown() {
                kept.push(w);
                proof {
                    assert(kept@.drop_last() =~= kept_before);
                }
            }
            i = i + 1;
            proof {
                assert(rest@ =~= ws.subrange(i as int, ws.len() as int));
            }
        }
        proof {
            assert(ws.subrange(i as int, ws.len() as int).len() == 0);
        }
        self.elements = kept;
    }
}

// ---------------------------------------------------------------------------
// Placing the elements of a container
// ---------------------------------------------------------------------------

/// Where the elements of a laid-out container start along its direction, from `offset`: past
/// the spacing, moved by the main alignment of the content in the whole size.
pub open spec fn main_start(c: Container, offset: Offset) -> int {
    let rs = c.rect_size->0;
    let (init_main, _) = along(c.direction, (c.spacing.left + offset.x) as usize, (c.spacing.top + offset.y) as usize);
    let (full_main, _) = along(c.direction, rs.width, rs.height);
    init_main + crate::layout::initial_pos(
        main_alignment(c),
        full_main,
        widget_len(Widget::Container(c), c.direction == Direction::Horizontal) as usize,
    )
}

/// How a container places its elements along its direction.
pub open spec fn main_alignment(c: Container) -> Position {
    match c.direction {
        Direction::Horizontal => c.alignment.horizontal,
        Direction::Vertical => c.alignment.vertical,
    }
}

/// How a container places its elements across its direction.
pub open spec fn aux_alignment(c: Container) -> Position {
    match c.direction {
        Direction::Horizontal => c.alignment.vertical,
        Direction::Vertical => c.alignment.horizontal,
    }
}

/// The lengths of the space inside a laid-out container, along and across its direction.
pub open spec fn inner_lens(c: Container) -> (usize, usize) {
    let inner = inner_rect(c.rect_size->0, c.spacing);
    along(c.direction, inner.width, inner.height)
}

/// The gap between two elements of a container: where they are spread, what the space
/// inside leaves beyond the content, shared between the gaps; else nothing.
pub open spec fn element_gap(c: Container) -> int {
    let n = c.elements@.len();
    if main_alignment(c) == Position::SpaceBetween && n != 1 {
        (inner_lens(c).0 - widget_len(Widget::Container(c), c.direction == Direction::Horizontal))
            / (n - 1)
    } else {
        0
    }
}

/// Where element `k` of a laid-out container is drawn from `offset`: along the direction,
/// past the elements before it and a gap after each; across it, placed by the auxiliary
/// alignment in the space inside, except a container, which starts at the side.
pub open spec fn element_offset(c: Container, offset: Offset, k: int) -> Offset {
    let ws = c.elements@;
    let horizontal = c.direction == Direction::Horizontal;
    let (_, init_aux) = along(c.direction, (c.spacing.left + offset.x) as usize, (c.spacing.top + offset.y) as usize);
    let main = main_start(c, offset) + lens_sum(ws.subrange(0, k), horizontal) + k * element_gap(c);
    let aux = if ws[k] is Container {
        init_aux as int
    } else {
        init_aux + crate::layout::initial_pos(
            aux_alignment(c),
            inner_lens(c).1,
            widget_len(ws[k], !horizontal) as usize,
        )
    };
    let (x, y) = along(c.direction, main as usize, aux as usize);
    Offset { x, y }
}

/// Whether the elements of a container can be placed from `offset`: it is laid out, the
/// alignments fit the content in their spaces, spread elements are at least two and fit in
/// the space inside, and every position fits in `usize`.
pub open spec fn offsets_fit(c: Container, offset: Offset) -> bool {
    let ws = c.elements@;
    let n = ws.len();
    let horizontal = c.direction == Direction::Horizontal;
    let rs = c.rect_size->0;
    let (full_main, _) = along(c.direction, rs.width, rs.height);
    let (_, init_aux) = along(c.direction, (c.spacing.left + offset.x) as usize, (c.spacing.top + offset.y) as usize);
    &&& c.rect_size is Some
    &&& measurable(Widget::Container(c))
    &&& c.spacing.left + offset.x <= usize::MAX
    &&& c.spacing.top + offset.y <= usize::MAX
    &&& crate::layout::fits(
        main_alignment(c),
        full_main,
        widget_len(Widget::Container(c), horizontal) as usize,
    )
    &&& main_alignment(c) == Position::SpaceBetween && n != 1 ==> n >= 2 && widget_len(
        Widget::Container(c),
        horizontal,
    ) <= inner_lens(c).0
    &&& main_start(c, offset) + lens_sum(ws, horizontal) + n * element_gap(c) <= usize::MAX
    &&& forall|k: int|
        0 <= k < n && !(ws[k] is Container) ==> {
            &&& crate::layout::fits(
                aux_alignment(c),
                inner_lens(c).1,
                widget_len(#[trigger] ws[k], !horizontal) as usize,
            )
            &&& init_aux + crate::layout::initial_pos(
                aux_alignment(c),
                inner_lens(c).1,
                widget_len(ws[k], !horizontal) as usize,
            ) <= usize::MAX
        }
}

impl Container {
    /// Where each element of the laid-out container is drawn from `offset` (see
    /// [`element_offset`]).
    pub fn element_offsets(&self, offset: &Offset) -> (r: Vec<Offset>)
        requires
            offsets_fit(*self, *offset),
        ensures
            r@.len() == self.elements@.len(),
            forall|k: int| 0 <= k < r@.len() ==> r@[k] == element_offset(*self, *offset, k),
    {
        let ghost ws = self.elements@;
        let ghost horizontal = self.direction == Direction::Horizontal;
        let rect_size = self.rect_size.unwrap();
        let mut plane = ContainerPlane::new(rect_size, self.direction);
        let initial_plane = ContainerPlane::new_only_offset(
            Offset::from_spacing(&self.spacing).plus(*offset),
            self.direction,
        );
        plane.relocate(&initial_plane.as_offset());
        let main_len = self.main_len();
        let main_alignment = self.main_axis_alignment();
        let across_alignment = self.auxiliary_axis_alignment();
        plane.main_axis_offset = plane.main_axis_offset + main_alignment.compute_initial_pos(
            plane.main_len,
            main_len,
        );
        plane.shrink_rect_size_by(&self.spacing);
        let n = self.elements.len();
        let gap: usize = match main_alignment {
            Position::SpaceBetween => {
                if n == 1 {
                    0
                } else {
                    (plane.main_len - main_len) / (n - 1)
                }
            },
            _ => 0,
        };
        assert(gap == element_gap(*self));
        let ghost start = plane.main_axis_offset;
        assert(start == main_start(*self, *offset));
        let mut r: Vec<Offset> = Vec::new();
        let mut i: usize = 0;
        while i < n
            invariant
                ws == self.elements@,
                n == ws.len(),
                offsets_fit(*self, *offset),
                horizontal == (self.direction == Direction::Horizontal),
                i <= n,
                r@.len() == i,
                forall|k: int| 0 <= k < i ==> r@[k] == element_offset(*self, *offset, k),
                plane.direction == self.direction,
                (plane.main_len, plane.auxiliary_len) == inner_lens(*self),
                plane.main_axis_offset == start + lens_sum(ws.subrange(0, i as int), horizontal) + i * gap,
                plane.auxiliary_axis_offset == initial_plane.auxiliary_axis_offset,
                initial_plane.auxiliary_axis_offset == along(
                    self.direction,
                    (self.spacing.left + offset.x) as usize,
                    (self.spacing.top + offset.y) as usize,
                ).1,
                start == main_start(*self, *offset),
                gap == element_gap(*self),
                across_alignment == aux_alignment(*self),
                all_sized(ws),
            decreases n - i,
        {
            proof {
                lemma_all_sized(ws, i as int);
                lemma_len_bounded(ws, i as int, true);
                lemma_len_bounded(ws, i as int, false);
                lemma_prefix_lens(ws, i + 1, horizontal);
                assert(ws.subrange(0, i + 1).drop_last() =~= ws.subrange(0, i as int));
                assert(ws.subrange(0, i + 1).last() == ws[i as int]);
                assert((i + 1) * gap <= n * gap) by (nonlinear_arith)
                    requires
                        i + 1 <= n,
                        gap >= 0,
                ;
                assert((i + 1) * gap == i * gap + gap) by (nonlinear_arith);
            }
            let element = &self.elements[i];
            if !element.is_container() {
                let across = element.len_by_direction(&self.direction.orthogonalize());
                plane.auxiliary_axis_offset = initial_plane.auxiliary_axis_offset + across_alignment.compute_initial_pos(
                    plane.auxiliary_len,
                    across,
                );
            }
            r.push(plane.as_offset());
            let along_len = element.len_by_direction(&self.direction);
            plane.main_axis_offset = plane.main_axis_offset + along_len + gap;
            plane.auxiliary_axis_offset = initial_plane.auxiliary_axis_offset;
            i = i + 1;
        }
        r
    }
}

} // verus!
