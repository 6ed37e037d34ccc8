use vstd::prelude::*;
use vstd::arithmetic::div_mod::{lemma_fundamental_div_mod, lemma_fundamental_div_mod_converse};
use vstd::arithmetic::mul::lemma_mul_inequality;

verus! {

/// Number of sub-pixel steps in one logical pixel: the compositor reports
/// pointer positions as 24.8 fixed-point numbers.
pub const SUBPIXELS: i64 = 256;

/// Whether a fixed-point coordinate `p` (in 1/256ths of a logical pixel)
/// lies in the closed interval `[lo, lo + len]` of logical pixels.
pub open spec fn within(p: int, lo: int, len: int) -> bool {
    lo * 256 <= p && p <= (lo + len) * 256
}

/// The state of a button as the contracts see it.
pub struct ButtonView {
    pub name: Seq<char>,
    pub x: int,
    pub y: int,
    pub width: int,
    pub height: int,
    pub color: Seq<u8>,
    pub default_color: Seq<u8>,
    pub clicked_color: Seq<u8>,
}

impl ButtonView {
    /// The current color is one of the button's two colors.
    pub open spec fn wf(self) -> bool {
        self.color == self.default_color || self.color == self.clicked_color
    }

    /// The closed rectangle `[x, x + width] x [y, y + height]` holds the
    /// point, given in fixed-point coordinates.
    pub open spec fn contains_point(self, px: int, py: int) -> bool {
        within(px, self.x, self.width) && within(py, self.y, self.height)
    }

    /// The button after one click: the default color becomes the clicked
    /// color, and any other color becomes the default color.
    pub open spec fn toggled(self) -> ButtonView {
        ButtonView {
            color: if self.color == self.default_color {
                self.clicked_color
            } else {
                self.default_color
            },
            ..self
        }
    }

    pub open spec fn is_clicked(self) -> bool {
        self.color == self.clicked_color
    }

    /// The rectangle lies inside a buffer of `len` bytes whose rows are
    /// `stride` bytes apart, at four bytes per pixel.
    pub open spec fn fits(self, len: int, stride: int) -> bool {
        &&& 0 <= self.x && 0 <= self.y && 0 <= self.width && 0 <= self.height
        &&& 0 < stride
        &&& (self.x + self.width) * 4 <= stride
        &&& (self.y + self.height) * stride <= len
    }

    /// Byte `i` of a buffer with the given stride belongs to a pixel of the
    /// rectangle.
    pub open spec fn covers(self, stride: int, i: int) -> bool {
        &&& self.y <= i / stride < self.y + self.height
        &&& self.x * 4 <= i % stride < (self.x + self.width) * 4
    }

    /// The buffer `canvas` after the rectangle has been filled with the
    /// current color.
    pub open spec fn painted(self, canvas: Seq<u8>, stride: int) -> Seq<u8> {
        Seq::new(
            canvas.len(),
            |i: int|
                if self.covers(stride, i) {
                    self.color[(i % stride) % 4]
                } else {
                    canvas[i]
                },
        )
    }
}

/// Clicking a button twice gives back the color it had.
pub proof fn lemma_toggle_involution(b: ButtonView)
    requires
        b.wf(),
    ensures
        b.toggled().toggled() == b,
{
}

/// Where byte `row * stride + rem` of a buffer lies, for `rem` inside a row.
proof fn lemma_byte_position(stride: int, row: int, rem: int)
    requires
        0 <= rem < stride,
    ensures
        (row * stride + rem) / stride == row,
        (row * stride + rem) % stride == rem,
{
    lemma_fundamental_div_mod_converse(row * stride + rem, stride, row, rem);
}

/// A rectangular toggle button of the panel.
pub struct Button {
    pub name: String,
    x: i32,
    y: i32,
    width: i32,
    height: i32,
    color: [u8; 4],
    default_color: [u8; 4],
    clicked_color: [u8; 4],
}

impl View for Button {
    type V = ButtonView;

    closed spec fn view(&self) -> ButtonView {
        ButtonView {
            name: self.name@,
            x: self.x as int,
            y: self.y as int,
            width: self.width as int,
            height: self.height as int,
            color: self.color@,
            default_color: self.default_color@,
            clicked_color: self.clicked_color@,
        }
    }
}

fn same_color(a: &[u8; 4], b: &[u8; 4]) -> (r: bool)
    ensures
        r == (a@ == b@),
{
    let r = a[0] == b[0] && a[1] == b[1] && a[2] == b[2] && a[3] == b[3];
    if r {
        assert(a@ =~= b@);
    }
    r
}

impl Button {
    /// A button over the rectangle at `(x, y)` of the given size, showing its
    /// default color.
    pub fn new(
        name: String,
        x: i32,
        y: i32,
        width: i32,
        height: i32,
        default_color: [u8; 4],
        clicked_color: [u8; 4],
    ) -> (r: Self)
        ensures
            r@ == (ButtonView {
                name: name@,
                x: x as int,
                y: y as int,
                width: width as int,
                height: height as int,
                color: default_color@,
                default_color: default_color@,
                clicked_color: clicked_color@,
            }),
            r@.wf(),
    {
        Self { name, x, y, width, height, color: default_color, default_color, clicked_color }
    }

    /// The rectangle as `(x, y, width, height)` in logical pixels.
    pub fn rect(&self) -> (r: (i32, i32, i32, i32))
        ensures
            r.0 == self@.x && r.1 == self@.y && r.2 == self@.width && r.3 == self@.height,
    {
        (self.x, self.y, self.width, self.height)
    }

    /// The color the button shows now.
    pub fn color(&self) -> (r: [u8; 4])
        ensures
            r@ == self@.color,
    {
        self.color
    }

    /// Hit test of a point given in fixed-point coordinates (1/256ths of a
    /// logical pixel); both edges of the rectangle count as inside.
    pub fn contains(&self, px: i32, py: i32) -> (r: bool)
        ensures
            r == self@.contains_point(px as int, py as int),
    {
        let left = self.x as i64 * SUBPIXELS;
        let right = (self.x as i64 + self.width as i64) * SUBPIXELS;
        let top = self.y as i64 * SUBPIXELS;
        let bottom = (self.y as i64 + self.height as i64) * SUBPIXELS;
        px as i64 >= left && px as i64 <= right && py as i64 >= top && py as i64 <= bottom
    }

    /// Switches between the default and the clicked color.
    pub fn click(&mut self)
        ensures
            final(self)@ == old(self)@.toggled(),
    {
        if same_color(&self.color, &self.default_color) {
            self.color = self.clicked_color;
        } else {
            self.color = self.default_color;
        }
    }

    /// Fills every pixel of the button's rectangle in `canvas`, whose rows are
    /// `stride` bytes apart, with the current color; other bytes keep their
    /// value.
    pub fn draw(&self, canvas: &mut [u8], stride: i32)
        requires
            self@.fits(old(canvas)@.len() as int, stride as int),
        ensures
            final(canvas)@ == self@.painted(old(canvas)@, stride as int),
    {
        let ghost v = self@;
        let ghost start = canvas@;
        let ghost len = canvas@.len() as int;
        let n = canvas.len();
        let ghost st = stride as int;
        let stride_u = stride as usize;
        let x0 = self.x as usize;
        let x1 = x0 + self.width as usize;
        let y1 = self.y as usize + self.height as usize;
        let mut row = self.y as usize;
        while row < y1
            invariant
                v == self@,
                v.fits(len, st),
                stride_u as int == st,
                x0 as int == v.x,
                x1 as int == v.x + v.width,
                y1 as int == v.y + v.height,
                v.y <= row <= y1,
                canvas@.len() == len,
                start.len() == len,
                n == len,
                forall|i: int|
                    0 <= i < len ==> #[trigger] canvas@[i] == if v.covers(st, i) && i / st < row {
                        v.color[(i % st) % 4]
                    } else {
                        start[i]
                    },
            decreases y1 - row,
        {
            let mut col = x0;
            proof {
                lemma_mul_inequality(row as int + 1, y1 as int, st);
            }
            while col < x1
                invariant
                    v == self@,
                    v.fits(len, st),
                    stride_u as int == st,
                    x0 as int == v.x,
                    x1 as int == v.x + v.width,
                    y1 as int == v.y + v.height,
                    v.y <= row < y1,
                    (row + 1) * st <= len,
                    x0 <= col <= x1,
                    canvas@.len() == len,
                    start.len() == len,
                    n == len,
                    forall|i: int|
                        0 <= i < len ==> #[trigger] canvas@[i] == if v.covers(st, i) && (i / st < row
                            || (i / st == row && i % st < col * 4)) {
                            v.color[(i % st) % 4]
                        } else {
                            start[i]
                        },
                decreases x1 - col,
            {
                proof {
                    assert((row + 1) * st == row * st + st) by (nonlinear_arith);
                }
                let base = row * stride_u + col * 4;
                let mut k: usize = 0;
                while k < 4
                    invariant
                        v == self@,
                        v.fits(len, st),
                        stride_u as int == st,
                        x0 as int == v.x,
                        x1 as int == v.x + v.width,
                        v.y <= row < v.y + v.height,
                        (row + 1) * st <= len,
                        x0 <= col < x1,
                        base == row * st + col * 4,
                        row * st + st <= len,
                        k <= 4,
                        canvas@.len() == len,
                        start.len() == len,
                        n == len,
                        forall|i: int|
                            0 <= i < len ==> #[trigger] canvas@[i] == if v.covers(st, i) && (i / st
                                < row || (i / st == row && i % st < col * 4 + k)) {
                                v.color[(i % st) % 4]
                            } else {
                                start[i]
                            },
                    decreases 4 - k,
                {
                    proof {
                        lemma_byte_position(st, row as int, col * 4 + k);
                    }
                    let ghost before = canvas@;
                    canvas[base + k] = self.color[k];
                    proof {
                        let off = base + k;
                        assert((col * 4 + k) % 4 == k as int);
                        assert forall|i: int| 0 <= i < len implies #[trigger] canvas@[i] == if v.covers(
                            st,
                            i,
                        ) && (i / st < row || (i / st == row && i % st < col * 4 + k + 1)) {
                            v.color[(i % st) % 4]
                        } else {
                            start[i]
                        } by {
                            if i != off {
                                assert(canvas@[i] == before[i]);
                                if i / st == row && i % st == col * 4 + k {
                                    lemma_fundamental_div_mod(i, st);
                                    assert(i == row * st + col * 4 + k) by (nonlinear_arith)
                                        requires
                                            i == st * (i / st) + i % st,
                                            i / st == row,
                                            i % st == col * 4 + k,
                                    ;
                                }
                            }
                        }
                    }
                    k = k + 1;
                }
                col = col + 1;
            }
            row = row + 1;
        }
        assert(canvas@ =~= v.painted(start, st));
    }
}

} // verus!
