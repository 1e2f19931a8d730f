//! Pixel-sink contract for a rendering target, and an in-memory target
//! that tracks which rows changed since the last upload.
use vstd::prelude::*;

verus! {

/// The eight hues of the attribute-cell palette.
#[derive(Clone, Copy, PartialEq, Eq, Structural, Debug)]
pub enum ZXColor {
    Black,
    Blue,
    Red,
    Purple,
    Green,
    Cyan,
    Yellow,
    White,
}

/// Brightness shared by a run of eight horizontally adjacent pixels.
#[derive(Clone, Copy, PartialEq, Eq, Structural, Debug)]
pub enum ZXBrightness {
    Normal,
    Bright,
}

/// Which surface a frame buffer stands for.
#[derive(Clone, Copy, PartialEq, Eq, Structural, Debug)]
pub enum FrameBufferSource {
    Screen,
    Border,
}

/// One visible colour: a hue with a brightness.
#[derive(Clone, Copy, PartialEq, Eq, Structural, Debug)]
pub struct Pixel {
    pub color: ZXColor,
    pub brightness: ZXBrightness,
}

/// Row-major index of pixel (`x`, `y`) on a surface `w` pixels wide.
pub open spec fn pixel_index(w: nat, x: nat, y: nat) -> int {
    (y * w + x) as int
}

/// The pixel store after writing `p` at (`x`, `y`).
pub open spec fn with_pixel(s: Seq<Pixel>, w: nat, x: nat, y: nat, p: Pixel) -> Seq<Pixel> {
    s.update(pixel_index(w, x, y), p)
}

/// The pixel store after writing the run `colors` with brightness `b`,
/// starting at (`x`, `y`) and going right.
pub open spec fn with_run(
    s: Seq<Pixel>,
    w: nat,
    x: nat,
    y: nat,
    colors: Seq<ZXColor>,
    b: ZXBrightness,
) -> Seq<Pixel> {
    Seq::new(
        s.len(),
        |i: int|
            if pixel_index(w, x, y) <= i < pixel_index(w, x, y) + colors.len() {
                Pixel { color: colors[i - pixel_index(w, x, y)], brightness: b }
            } else {
                s[i]
            },
    )
}

/// The pixel store after writing `colors` one pixel at a time, left to right.
pub open spec fn one_by_one(
    s: Seq<Pixel>,
    w: nat,
    x: nat,
    y: nat,
    colors: Seq<ZXColor>,
    b: ZXBrightness,
) -> Seq<Pixel>
    decreases colors.len(),
{
    if colors.len() == 0 {
        s
    } else {
        with_pixel(
            one_by_one(s, w, x, y, colors.drop_last(), b),
            w,
            (x + colors.len() - 1) as nat,
            y,
            Pixel { color: colors.last(), brightness: b },
        )
    }
}

/// A pixel inside a `w` by `h` surface has an index inside its store.
pub proof fn lemma_index_in_bounds(w: nat, h: nat, x: nat, y: nat)
    requires
        x < w,
        y < h,
    ensures
        0 <= pixel_index(w, x, y) < w * h,
{
    assert(y * w + x < (y + 1) * w) by (nonlinear_arith)
        requires
            x < w,
    ;
    assert((y + 1) * w <= h * w) by (nonlinear_arith)
        requires
            y + 1 <= h,
    ;
    assert(h * w == w * h) by (nonlinear_arith);
}

/// Writing a run of colours that share one brightness leaves the surface
/// exactly as writing the same colours one pixel at a time, left to right.
pub proof fn lemma_run_is_pixel_by_pixel(
    s: Seq<Pixel>,
    w: nat,
    h: nat,
    x: nat,
    y: nat,
    colors: Seq<ZXColor>,
    b: ZXBrightness,
)
    requires
        s.len() == w * h,
        x + colors.len() <= w,
        y < h,
    ensures
        with_run(s, w, x, y, colors, b) == one_by_one(s, w, x, y, colors, b),
    decreases colors.len(),
{
    if colors.len() == 0 {
        assert(with_run(s, w, x, y, colors, b) =~= s);
    } else {
        let rest = colors.drop_last();
        lemma_run_is_pixel_by_pixel(s, w, h, x, y, rest, b);
        let last_x = (x + colors.len() - 1) as nat;
        lemma_index_in_bounds(w, h, last_x, y);
        assert(pixel_index(w, last_x, y) == pixel_index(w, x, y) + rest.len()) by (nonlinear_arith)
            requires
                last_x == x + rest.len(),
        ;
        assert(with_run(s, w, x, y, colors, b) =~= with_pixel(
            with_run(s, w, x, y, rest, b),
            w,
            last_x,
            y,
            Pixel { color: colors.last(), brightness: b },
        ));
    }
}

/// On any rendering target, `set_colors` leaves the pixels exactly as the
/// eight `set_color` calls for the same run would, left to right, with the
/// same brightness.
pub proof fn lemma_set_colors_is_eight_set_color<F: FrameBuffer>(
    fb: &F,
    x: nat,
    y: nat,
    colors: Seq<ZXColor>,
    b: ZXBrightness,
)
    requires
        fb.wf(),
        colors.len() == 8,
        x + 8 <= fb.width(),
        y < fb.height(),
    ensures
        with_run(fb.pixels(), fb.width(), x, y, colors, b) == one_by_one(
            fb.pixels(),
            fb.width(),
            x,
            y,
            colors,
            b,
        ),
{
    fb.lemma_pixel_count();
    lemma_run_is_pixel_by_pixel(fb.pixels(), fb.width(), fb.height(), x, y, colors, b);
}

/// A rendering target that the emulation pipeline paints into.
///
/// Coordinates outside the surface are a contract violation: every writer
/// must keep `x < width` and `y < height`.
pub trait FrameBuffer: Sized {
    type Context: Clone;

    spec fn wf(&self) -> bool;

    spec fn width(&self) -> nat;

    spec fn height(&self) -> nat;

    /// The pixels, row by row.
    spec fn pixels(&self) -> Seq<Pixel>;

    /// Whether the pixel (`x`, `y`) is marked as changed since the last reset.
    spec fn is_dirty(&self, x: nat, y: nat) -> bool;

    /// A well-formed surface holds one pixel per coordinate.
    proof fn lemma_pixel_count(&self)
        requires
            self.wf(),
        ensures
            self.pixels().len() == self.width() * self.height(),
    ;

    /// Creates a surface of `width` by `height` pixels.
    fn new(width: usize, height: usize, source: FrameBufferSource, context: Self::Context) -> (r:
        Self)
        requires
            width * height <= usize::MAX,
        ensures
            r.wf(),
            r.width() == width,
            r.height() == height,
            r.pixels().len() == width * height,
            forall|x: nat, y: nat| !r.is_dirty(x, y),
    ;

    /// Sets the pixel at (`x`, `y`) to `color` with `brightness`.
    fn set_color(&mut self, x: usize, y: usize, color: ZXColor, brightness: ZXBrightness)
        requires
            old(self).wf(),
            x < old(self).width(),
            y < old(self).height(),
        ensures
            final(self).wf(),
            final(self).width() == old(self).width(),
            final(self).height() == old(self).height(),
            final(self).pixels() == with_pixel(
                old(self).pixels(),
                old(self).width(),
                x as nat,
                y as nat,
                Pixel { color, brightness },
            ),
            final(self).is_dirty(x as nat, y as nat),
            forall|i: nat, j: nat| old(self).is_dirty(i, j) ==> final(self).is_dirty(i, j),
    ;

    /// Sets eight horizontally adjacent pixels, starting at (`x`, `y`),
    /// all with `brightness`.
    fn set_colors(&mut self, x: usize, y: usize, colors: [ZXColor; 8], brightness: ZXBrightness)
        requires
            old(self).wf(),
            x + 8 <= old(self).width(),
            y < old(self).height(),
        ensures
            final(self).wf(),
            final(self).width() == old(self).width(),
            final(self).height() == old(self).height(),
            final(self).pixels() == with_run(
                old(self).pixels(),
                old(self).width(),
                x as nat,
                y as nat,
                colors@,
                brightness,
            ),
            forall|i: nat| x <= i < x + 8 ==> #[trigger] final(self).is_dirty(i, y as nat),
            forall|i: nat, j: nat| old(self).is_dirty(i, j) ==> final(self).is_dirty(i, j),
    ;

    /// Forgets every change made so far; the pixels stay as they are.
    fn reset_dirty_regions(&mut self)
        requires
            old(self).wf(),
        ensures
            final(self).wf(),
            final(self).width() == old(self).width(),
            final(self).height() == old(self).height(),
            final(self).pixels() == old(self).pixels(),
            forall|x: nat, y: nat| !final(self).is_dirty(x, y),
    ;
}

/// Ascending list of the rows flagged in `flags`.
pub open spec fn dirty_rows_of(flags: Seq<bool>) -> Seq<usize>
    decreases flags.len(),
{
    if flags.len() == 0 {
        Seq::empty()
    } else {
        let rest = dirty_rows_of(flags.drop_last());
        if flags.last() {
            rest.push((flags.len() - 1) as usize)
        } else {
            rest
        }
    }
}

/// A backend handle naming the texture that a surface is uploaded to.
#[derive(Clone, Copy, PartialEq, Eq, Structural, Debug)]
pub struct SurfaceHandle {
    pub id: u32,
}

/// An in-memory surface that records changes with row granularity.
pub struct PixelBuffer {
    width: usize,
    height: usize,
    source: FrameBufferSource,
    context: SurfaceHandle,
    pixels: Vec<Pixel>,
    row_dirty: Vec<bool>,
}

impl PixelBuffer {
    /// The per-row change flags, top row first.
    pub closed spec fn row_flags(&self) -> Seq<bool> {
        self.row_dirty@
    }

    pub closed spec fn spec_source(&self) -> FrameBufferSource {
        self.source
    }

    pub closed spec fn spec_context(&self) -> SurfaceHandle {
        self.context
    }

    /// A `width` by `height` surface, every pixel black at normal
    /// brightness, and nothing dirty.
    pub fn blank(width: usize, height: usize, source: FrameBufferSource, context: SurfaceHandle) -> (r:
        PixelBuffer)
        requires
            width * height <= usize::MAX,
        ensures
            r.wf(),
            r.width() == width,
            r.height() == height,
            r.pixels() == Seq::new(
                (width * height) as nat,
                |i: int| Pixel { color: ZXColor::Black, brightness: ZXBrightness::Normal },
            ),
            forall|x: nat, y: nat| !r.is_dirty(x, y),
            r.spec_source() == source,
            r.spec_context() == context,
    {
        let total: usize = width * height;
        let blank = Pixel { color: ZXColor::Black, brightness: ZXBrightness::Normal };
        let mut pixels: Vec<Pixel> = Vec::new();
        let mut i: usize = 0;
        while i < total
            invariant
                i <= total,
                pixels@ == Seq::new(i as nat, |k: int| blank),
            decreases total - i,
        {
            pixels.push(blank);
            i = i + 1;
            assert(pixels@ =~= Seq::new(i as nat, |k: int| blank));
        }
        let mut row_dirty: Vec<bool> = Vec::new();
        let mut j: usize = 0;
        while j < height
            invariant
                j <= height,
                row_dirty@.len() == j,
                forall|k: int| 0 <= k < j ==> !row_dirty@[k],
            decreases height - j,
        {
            row_dirty.push(false);
            j = j + 1;
        }
        PixelBuffer { width, height, source, context, pixels, row_dirty }
    }

    /// The role this surface was created for.
    pub fn source(&self) -> (r: FrameBufferSource)
        ensures
            r == self.spec_source(),
    {
        self.source
    }

    /// The backend handle given at construction.
    pub fn context(&self) -> (r: SurfaceHandle)
        ensures
            r == self.spec_context(),
    {
        self.context
    }

    /// Reads the pixel at (`x`, `y`).
    pub fn pixel(&self, x: usize, y: usize) -> (r: Pixel)
        requires
            self.wf(),
            x < self.width(),
            y < self.height(),
        ensures
            pixel_index(self.width(), x as nat, y as nat) < self.pixels().len(),
            r == self.pixels()[pixel_index(self.width(), x as nat, y as nat)],
    {
        proof {
            lemma_index_in_bounds(self.width as nat, self.height as nat, x as nat, y as nat);
        }
        self.pixels[y * self.width + x]
    }

    /// The rows changed since the last reset, top to bottom.
    pub fn dirty_rows(&self) -> (r: Vec<usize>)
        requires
            self.wf(),
        ensures
            r@ == dirty_rows_of(self.row_flags()),
            forall|x: nat, y: nat| #[trigger] self.is_dirty(x, y) ==> r@.contains(y as usize),
    {
        let mut r: Vec<usize> = Vec::new();
        let mut i: usize = 0;
        while i < self.height
            invariant
                self.wf(),
                i <= self.height,
                r@ == dirty_rows_of(self.row_dirty@.take(i as int)),
            decreases self.height - i,
        {
            assert(self.row_dirty@.take(i + 1).drop_last() =~= self.row_dirty@.take(i as int));
            if self.row_dirty[i] {
                r.push(i);
            }
            i = i + 1;
        }
        assert(self.row_dirty@.take(i as int) =~= self.row_dirty@);
        proof {
            assert forall|x: nat, y: nat| #[trigger] self.is_dirty(x, y) implies r@.contains(
                y as usize,
            ) by {
                lemma_flagged_row_listed(self.row_dirty@, y);
            }
        }
        r
    }
}

/// Every flagged row appears in the list of dirty rows.
proof fn lemma_flagged_row_listed(flags: Seq<bool>, y: nat)
    requires
        y < flags.len(),
        flags[y as int],
        flags.len() <= usize::MAX + 1,
    ensures
        dirty_rows_of(flags).contains(y as usize),
    decreases flags.len(),
{
    let rest = dirty_rows_of(flags.drop_last());
    if y == flags.len() - 1 {
        assert(dirty_rows_of(flags).last() == y as usize);
    } else {
        lemma_flagged_row_listed(flags.drop_last(), y);
        let k = choose|k: int| 0 <= k < rest.len() && rest[k] == y as usize;
        if flags.last() {
            assert(dirty_rows_of(flags)[k] == y as usize);
        }
    }
}

/// After the change flags are cleared, the list of dirty rows is empty,
/// whatever was written before.
pub proof fn lemma_reset_leaves_no_dirty_rows(b: &PixelBuffer)
    requires
        b.wf(),
        forall|x: nat, y: nat| !b.is_dirty(x, y),
    ensures
        dirty_rows_of(b.row_flags()) == Seq::<usize>::empty(),
{
    assert forall|i: int| 0 <= i < b.row_dirty@.len() implies !b.row_dirty@[i] by {
        if b.width > 0 {
            assert(!b.is_dirty(0, i as nat));
        }
    }
    lemma_no_flags_no_rows(b.row_dirty@);
}

proof fn lemma_no_flags_no_rows(flags: Seq<bool>)
    requires
        forall|i: int| 0 <= i < flags.len() ==> !flags[i],
    ensures
        dirty_rows_of(flags) == Seq::<usize>::empty(),
    decreases flags.len(),
{
    if flags.len() > 0 {
        lemma_no_flags_no_rows(flags.drop_last());
    }
}

impl FrameBuffer for PixelBuffer {
    type Context = SurfaceHandle;

    closed spec fn wf(&self) -> bool {
        &&& self.pixels@.len() == self.width * self.height
        &&& self.row_dirty@.len() == self.height
        &&& self.width * self.height <= usize::MAX
        &&& self.width == 0 ==> forall|k: int| 0 <= k < self.height ==> !self.row_dirty@[k]
    }

    closed spec fn width(&self) -> nat {
        self.width as nat
    }

    closed spec fn height(&self) -> nat {
        self.height as nat
    }

    closed spec fn pixels(&self) -> Seq<Pixel> {
        self.pixels@
    }

    closed spec fn is_dirty(&self, x: nat, y: nat) -> bool {
        x < self.width && y < self.height && self.row_dirty@[y as int]
    }

    proof fn lemma_pixel_count(&self) {
    }

    /// Every pixel starts black at normal brightness, and nothing is dirty.
    fn new(width: usize, height: usize, source: FrameBufferSource, context: SurfaceHandle) -> (r: Self) {
        PixelBuffer::blank(width, height, source, context)
    }

    fn set_color(&mut self, x: usize, y: usize, color: ZXColor, brightness: ZXBrightness) {
        proof {
            lemma_index_in_bounds(self.width as nat, self.height as nat, x as nat, y as nat);
        }
        let idx = y * self.width + x;
        self.pixels.set(idx, Pixel { color, brightness });
        self.row_dirty.set(y, true);
    }

    fn set_colors(&mut self, x: usize, y: usize, colors: [ZXColor; 8], brightness: ZXBrightness) {
        let ghost start = self.pixels@;
        let mut i: usize = 0;
        while i < 8
            invariant
                self.wf(),
                self.width == old(self).width,
                self.height == old(self).height,
                x + 8 <= self.width,
                y < self.height,
                0 <= i <= 8,
                start == old(self).pixels@,
                self.pixels@ == one_by_one(
                    start,
                    self.width as nat,
                    x as nat,
                    y as nat,
                    colors@.take(i as int),
                    brightness,
                ),
                forall|a: nat| x <= a < x + i ==> #[trigger] self.is_dirty(a, y as nat),
                forall|a: nat, b: nat| old(self).is_dirty(a, b) ==> self.is_dirty(a, b),
            decreases 8 - i,
        {
            let ghost before = colors@.take(i as int);
            self.set_color(x + i, y, colors[i], brightness);
            assert(colors@.take(i + 1).drop_last() =~= before);
            i = i + 1;
        }
        assert(colors@.take(8) =~= colors@);
        proof {
            lemma_run_is_pixel_by_pixel(
                start,
                self.width as nat,
                self.height as nat,
                x as nat,
                y as nat,
                colors@,
                brightness,
            );
        }
    }

    fn reset_dirty_regions(&mut self) {
        let mut i: usize = 0;
        while i < self.row_dirty.len()
            invariant
                self.wf(),
                self.width == old(self).width,
                self.height == old(self).height,
                self.pixels@ == old(self).pixels@,
                i <= self.row_dirty@.len(),
                forall|k: int| 0 <= k < i ==> !self.row_dirty@[k],
            decreases self.row_dirty@.len() - i,
        {
            self.row_dirty.set(i, false);
            i = i + 1;
        }
    }
}

} // verus!
