use vstd::prelude::*;

verus! {

/// What a picture holds: its size in pixels and its RGBA bytes, row by row from the top,
/// four bytes per pixel.
pub ghost struct PictureView {
    pub width: u32,
    pub height: u32,
    pub pixels: Seq<u8>,
}

impl PictureView {
    /// There are exactly four bytes for each pixel.
    pub open spec fn wf(self) -> bool {
        self.pixels.len() == self.width as int * self.height as int * 4
    }
}

/// An RGBA image: `width` times `height` pixels, four bytes each.
pub struct Picture {
    width: u32,
    height: u32,
    rgba: Vec<u8>,
}

impl View for Picture {
    type V = PictureView;

    closed spec fn view(&self) -> PictureView {
        PictureView { width: self.width, height: self.height, pixels: self.rgba@ }
    }
}

impl Picture {
    #[verifier::type_invariant]
    spec fn has_four_bytes_per_pixel(self) -> bool {
        self.rgba@.len() == self.width as int * self.height as int * 4
    }

    /// A picture of the given size from its RGBA bytes; `None` unless there are exactly
    /// four bytes per pixel.
    pub fn new(width: u32, height: u32, rgba: Vec<u8>) -> (r: Option<Picture>)
        ensures
            r is Some <==> rgba@.len() == width as int * height as int * 4,
            r matches Some(p) ==> p@ == (PictureView { width, height, pixels: rgba@ }),
    {
        let len = rgba.len();
        let ok = match (width as usize).checked_mul(height as usize) {
            Some(n) => match n.checked_mul(4) {
                Some(m) => m == len,
                None => false,
            },
            None => false,
        };
        if ok {
            Some(Picture { width, height, rgba })
        } else {
            proof {
                if rgba@.len() == width as int * height as int * 4 {
                    assert(width as int * height as int <= len) by (nonlinear_arith)
                        requires
                            len == width as int * height as int * 4,
                    ;
                }
            }
            None
        }
    }

    /// The width in pixels.
    pub fn width(&self) -> (r: u32)
        ensures
            r == self@.width,
            self@.wf(),
    {
        proof {
            use_type_invariant(self);
        }
        self.width
    }

    /// The height in pixels.
    pub fn height(&self) -> (r: u32)
        ensures
            r == self@.height,
            self@.wf(),
    {
        proof {
            use_type_invariant(self);
        }
        self.height
    }

    /// The RGBA bytes.
    pub fn rgba(&self) -> (r: &[u8])
        ensures
            r@ == self@.pixels,
            self@.wf(),
    {
        proof {
            use_type_invariant(self);
        }
        self.rgba.as_slice()
    }

    /// The RGBA bytes, taking the picture apart.
    pub fn into_rgba(self) -> (r: Vec<u8>)
        ensures
            r@ == self@.pixels,
            self@.wf(),
    {
        proof {
            use_type_invariant(&self);
        }
        self.rgba
    }
}

/// The four bytes of `v`, least significant first.
pub open spec fn le32(v: u32) -> Seq<u8> {
    seq![(v % 256) as u8, ((v / 256) % 256) as u8, ((v / 65536) % 256) as u8, (v / 16777216) as u8]
}

/// The two bytes of `v`, least significant first.
pub open spec fn le16(v: u16) -> Seq<u8> {
    seq![(v % 256) as u8, (v / 256) as u8]
}

/// The length of one row of a 24-bit DIB: three bytes per pixel, rounded up to a
/// multiple of four.
pub open spec fn dib_stride(width: u32) -> nat {
    ((width as nat * 3 + 3) / 4 * 4) as nat
}

/// The 40-byte `BITMAPINFOHEADER` of a 24-bit uncompressed DIB: header size 40, width,
/// height (positive, so rows run bottom-up), one plane, 24 bits per pixel, no
/// compression, the pixel data size (kept to its low 32 bits), and zero resolution and
/// palette fields.
pub open spec fn dib_header(width: u32, height: u32, pixel_bytes: nat) -> Seq<u8> {
    le32(40) + le32(width) + le32(height) + le16(1) + le16(24) + le32(0) + le32(
        (pixel_bytes % 0x1_0000_0000) as u32,
    ) + Seq::new(16, |i: int| 0u8)
}

/// The blue, green and red bytes of the first `x` pixels of row `row` of the picture.
pub open spec fn bgr_prefix(p: PictureView, row: int, x: int) -> Seq<u8>
    decreases x,
{
    if x <= 0 {
        Seq::<u8>::empty()
    } else {
        let i = (row * p.width + x - 1) * 4;
        bgr_prefix(p, row, x - 1) + seq![p.pixels[i + 2], p.pixels[i + 1], p.pixels[i]]
    }
}

/// Row `y` of the DIB, counted from the bottom: the picture row `height - 1 - y` as
/// blue, green, red bytes, padded with zeros to the row length.
pub open spec fn dib_row(p: PictureView, y: int) -> Seq<u8> {
    bgr_prefix(p, p.height - 1 - y, p.width as int) + Seq::new(
        (dib_stride(p.width) - p.width * 3) as nat,
        |i: int| 0u8,
    )
}

/// The first `n` DIB rows, bottom row first.
pub open spec fn dib_rows(p: PictureView, n: int) -> Seq<u8>
    decreases n,
{
    if n <= 0 {
        Seq::<u8>::empty()
    } else {
        dib_rows(p, n - 1) + dib_row(p, n - 1)
    }
}

/// The 24-bit device-independent bitmap of a picture: the header, then all rows from the
/// bottom up.
pub open spec fn dib_of(p: PictureView) -> Seq<u8> {
    dib_header(p.width, p.height, dib_stride(p.width) * (p.height as nat)) + dib_rows(p, p.height as int)
}

proof fn lemma_stride_bounds(w: u32)
    ensures
        w as nat * 3 <= dib_stride(w),
        dib_stride(w) <= w as nat * 3 + 3,
        dib_stride(w) % 4 == 0,
{
}

proof fn lemma_dib_rows_len(p: PictureView, n: int)
    requires
        n >= 0,
    ensures
        dib_rows(p, n).len() == n * dib_stride(p.width),
    decreases n,
{
    if n > 0 {
        lemma_dib_rows_len(p, n - 1);
        lemma_bgr_prefix_len(p, p.height - n, p.width as int);
        lemma_stride_bounds(p.width);
        assert(dib_row(p, n - 1).len() == dib_stride(p.width));
        assert(dib_rows(p, n) == dib_rows(p, n - 1) + dib_row(p, n - 1));
        assert(n * dib_stride(p.width) == (n - 1) * dib_stride(p.width) + dib_stride(p.width))
            by (nonlinear_arith);
        assert(dib_rows(p, n).len() == dib_rows(p, n - 1).len() + dib_row(p, n - 1).len());
    } else {
        assert(n * dib_stride(p.width) == 0) by (nonlinear_arith)
            requires
                n == 0,
        ;
    }
}

proof fn lemma_bgr_prefix_len(p: PictureView, row: int, x: int)
    requires
        x >= 0,
    ensures
        bgr_prefix(p, row, x).len() == 3 * x,
    decreases x,
{
    if x > 0 {
        lemma_bgr_prefix_len(p, row, x - 1);
    }
}

fn push_le32(out: &mut Vec<u8>, v: u32)
    ensures
        final(out)@ == old(out)@ + le32(v),
{
    out.push((v % 256) as u8);
    out.push(((v / 256) % 256) as u8);
    out.push(((v / 65536) % 256) as u8);
    out.push((v / 16777216) as u8);
    assert(final(out)@ =~= old(out)@ + le32(v));
}

fn push_le16(out: &mut Vec<u8>, v: u16)
    ensures
        final(out)@ == old(out)@ + le16(v),
{
    out.push((v % 256) as u8);
    out.push((v / 256) as u8);
    assert(final(out)@ =~= old(out)@ + le16(v));
}

fn push_zeros(out: &mut Vec<u8>, n: usize)
    ensures
        final(out)@ == old(out)@ + Seq::new(n as nat, |i: int| 0u8),
{
    let mut k: usize = 0;
    while k < n
        invariant
            k <= n,
            out@ == old(out)@ + Seq::new(k as nat, |i: int| 0u8),
        decreases n - k,
    {
        out.push(0u8);
        k = k + 1;
        assert(out@ =~= old(out)@ + Seq::new(k as nat, |i: int| 0u8));
    }
}

/// The message for a picture with no pixels.
pub open spec fn empty_picture_error() -> Seq<char> {
    "图片尺寸无效"@
}

/// The message for a picture too large to convert.
pub open spec fn picture_too_large_error() -> Seq<char> {
    "图片过大"@
}

/// The picture as a 24-bit Windows DIB (`CF_DIB` clipboard data): a 40-byte header, then
/// the rows bottom-up as blue, green, red bytes, each row padded with zeros to a multiple
/// of four bytes. A picture without pixels is refused, and so is one whose DIB would not
/// fit in memory.
pub fn dib_bytes(picture: &Picture) -> (r: Result<Vec<u8>, String>)
    ensures
        picture@.width == 0 || picture@.height == 0 ==> (r matches Err(e) && e@
            == empty_picture_error()),
        picture@.width > 0 && picture@.height > 0 && 40 + dib_stride(picture@.width)
            * picture@.height > usize::MAX ==> (r matches Err(e) && e@ == picture_too_large_error()),
        picture@.width > 0 && picture@.height > 0 && 40 + dib_stride(picture@.width)
            * picture@.height <= usize::MAX ==> (r matches Ok(v) && v@ == dib_of(picture@)
            && v@.len() == 40 + dib_stride(picture@.width) * picture@.height),
{
    let w = picture.width();
    let h = picture.height();
    let rgba = picture.rgba();
    let len = rgba.len();
    let ghost p = picture@;
    if w == 0 || h == 0 {
        return Err(String::from_str("图片尺寸无效"));
    }
    let wu = w as usize;
    let hu = h as usize;
    proof {
        assert(wu * 4 <= len) by (nonlinear_arith)
            requires
                len == wu * hu * 4,
                hu >= 1,
        ;
        lemma_stride_bounds(w);
    }
    let row_stride = ((wu * 3 + 3) / 4) * 4;
    assert(row_stride == dib_stride(w));
    let pixel_bytes = match row_stride.checked_mul(hu) {
        Some(n) => n,
        None => {
            return Err(String::from_str("图片过大"));
        },
    };
    let total = match 40usize.checked_add(pixel_bytes) {
        Some(n) => n,
        None => {
            return Err(String::from_str("图片过大"));
        },
    };
    let mut dib: Vec<u8> = Vec::with_capacity(total);
    push_le32(&mut dib, 40);
    push_le32(&mut dib, w);
    push_le32(&mut dib, h);
    push_le16(&mut dib, 1);
    push_le16(&mut dib, 24);
    push_le32(&mut dib, 0);
    let size_field = ((pixel_bytes as u64) % 0x1_0000_0000u64) as u32;
    push_le32(&mut dib, size_field);
    push_zeros(&mut dib, 16);
    let ghost header = dib_header(w, h, dib_stride(w) * (h as nat));
    assert(dib@ =~= header);
    let mut y: usize = 0;
    while y < hu
        invariant
            p == picture@,
            p.width == w,
            p.height == h,
            wu == w,
            hu == h,
            hu >= 1,
            rgba@ == p.pixels,
            len == rgba@.len(),
            len == wu * hu * 4,
            row_stride == dib_stride(w),
            row_stride >= wu * 3,
            y <= hu,
            dib@ == header + dib_rows(p, y as int),
        decreases hu - y,
    {
        let source_y = hu - 1 - y;
        let mut x: usize = 0;
        let ghost before = dib@;
        while x < wu
            invariant
                p == picture@,
                p.width == w,
                p.height == h,
                wu == w,
                hu == h,
                rgba@ == p.pixels,
                len == rgba@.len(),
                len == wu * hu * 4,
                y < hu,
                source_y == hu - 1 - y,
                x <= wu,
                dib@ == before + bgr_prefix(p, source_y as int, x as int),
            decreases wu - x,
        {
            proof {
                assert((source_y * wu + x) * 4 + 3 < len) by (nonlinear_arith)
                    requires
                        len == wu * hu * 4,
                        source_y < hu,
                        x < wu,
                ;
            }
            let i = (source_y * wu + x) * 4;
            dib.push(rgba[i + 2]);
            dib.push(rgba[i + 1]);
            dib.push(rgba[i]);
            x = x + 1;
            assert(dib@ =~= before + bgr_prefix(p, source_y as int, x as int));
        }
        push_zeros(&mut dib, row_stride - wu * 3);
        assert(dib_rows(p, y + 1) == dib_rows(p, y as int) + dib_row(p, y as int));
        assert(dib@ =~= header + dib_rows(p, y + 1));
        y = y + 1;
    }
    proof {
        lemma_dib_rows_len(p, h as int);
    }
    Ok(dib)
}

/// The bytes of the `n` picture rows from `top` on, each cut to the columns from `left`
/// up to (not including) `right`.
pub open spec fn crop_rows(p: PictureView, left: int, right: int, top: int, n: int) -> Seq<u8>
    decreases n,
{
    if n <= 0 {
        Seq::<u8>::empty()
    } else {
        let row = top + n - 1;
        crop_rows(p, left, right, top, n - 1) + p.pixels.subrange(
            (row * p.width + left) * 4,
            (row * p.width + right) * 4,
        )
    }
}

proof fn lemma_crop_rows_len(p: PictureView, left: int, right: int, top: int, n: int)
    requires
        n >= 0,
        0 <= left <= right <= p.width,
        0 <= top,
        top + n <= p.height,
        p.wf(),
    ensures
        crop_rows(p, left, right, top, n).len() == n * ((right - left) * 4),
    decreases n,
{
    if n > 0 {
        lemma_crop_rows_len(p, left, right, top, n - 1);
        let row = top + n - 1;
        let w = p.width as int;
        assert((row * w + right) * 4 <= p.pixels.len()) by (nonlinear_arith)
            requires
                p.pixels.len() == w * p.height * 4,
                0 <= row < p.height,
                right <= w,
        ;
        assert(0 <= (row * w + left) * 4) by (nonlinear_arith)
            requires
                0 <= row,
                0 <= left,
                0 <= w,
        ;
        assert((row * w + right) * 4 - (row * w + left) * 4 == (right - left) * 4);
        assert(n * ((right - left) * 4) == (n - 1) * ((right - left) * 4) + (right - left) * 4)
            by (nonlinear_arith);
    } else {
        assert(n * ((right - left) * 4) == 0) by (nonlinear_arith)
            requires
                n == 0,
        ;
    }
}

/// The message for a selection without area.
pub open spec fn selection_too_small_error() -> Seq<char> {
    "截图区域太小"@
}

/// Cuts the rectangle with columns `left..right` and rows `top..bottom` out of the
/// picture. An empty rectangle is refused.
pub fn crop_pixels(picture: &Picture, left: u32, top: u32, right: u32, bottom: u32) -> (r: Result<
    Picture,
    String,
>)
    requires
        left <= picture@.width,
        right <= picture@.width,
        top <= picture@.height,
        bottom <= picture@.height,
    ensures
        r is Err <==> (right <= left || bottom <= top),
        r matches Err(e) ==> e@ == selection_too_small_error(),
        r matches Ok(c) ==> {
            &&& c@.width == right - left
            &&& c@.height == bottom - top
            &&& c@.pixels == crop_rows(
                picture@,
                left as int,
                right as int,
                top as int,
                bottom - top,
            )
        },
{
    let sw = picture.width();
    let sh = picture.height();
    let source = picture.rgba();
    let len = source.len();
    let ghost p = picture@;
    if right <= left || bottom <= top {
        return Err(String::from_str("截图区域太小"));
    }
    let width = right - left;
    let height = bottom - top;
    let swu = sw as usize;
    proof {
        assert(width as int * height as int * 4 <= len) by (nonlinear_arith)
            requires
                len == sw as int * sh as int * 4,
                width <= sw,
                height <= sh,
        ;
    }
    let mut cropped: Vec<u8> = Vec::with_capacity(width as usize * height as usize * 4);
    let mut row: u32 = top;
    assert(cropped@ =~= crop_rows(p, left as int, right as int, top as int, 0));
    while row < bottom
        invariant
            p == picture@,
            p.wf(),
            p.width == sw,
            swu == sw,
            source@ == p.pixels,
            len == source@.len(),
            left < right <= sw,
            top <= row <= bottom <= p.height,
            cropped@ == crop_rows(p, left as int, right as int, top as int, row - top),
        decreases bottom - row,
    {
        proof {
            assert((row as int * swu + right) * 4 <= len) by (nonlinear_arith)
                requires
                    len == swu * p.height * 4,
                    row < p.height,
                    right <= swu,
            ;
        }
        let start = (row as usize * swu + left as usize) * 4;
        let end = (row as usize * swu + right as usize) * 4;
        let ghost before = cropped@;
        let mut i = start;
        while i < end
            invariant
                start <= i <= end <= len,
                source@ == p.pixels,
                len == source@.len(),
                cropped@ == before + p.pixels.subrange(start as int, i as int),
            decreases end - i,
        {
            cropped.push(source[i]);
            i = i + 1;
            assert(cropped@ =~= before + p.pixels.subrange(start as int, i as int));
        }
        row = row + 1;
        assert(cropped@ =~= crop_rows(p, left as int, right as int, top as int, row - top));
    }
    proof {
        lemma_crop_rows_len(p, left as int, right as int, top as int, height as int);
        assert(height as int * ((width as int) * 4) == width as int * height as int * 4)
            by (nonlinear_arith);
    }
    Ok(Picture { width, height, rgba: cropped })
}

/// The fourteen anchor points of the check mark on the tray icon; each covers a 2x2
/// block of pixels from the point rightwards and downwards.
pub open spec fn check_mark_points() -> Seq<(u32, u32)> {
    seq![
        (9u32, 17u32),
        (10u32, 18u32),
        (11u32, 19u32),
        (12u32, 20u32),
        (13u32, 20u32),
        (14u32, 19u32),
        (15u32, 18u32),
        (16u32, 17u32),
        (17u32, 16u32),
        (18u32, 15u32),
        (19u32, 14u32),
        (20u32, 13u32),
        (21u32, 12u32),
        (22u32, 11u32),
    ]
}

/// Pixel `(x, y)` belongs to the check mark.
pub open spec fn on_check_mark(x: int, y: int) -> bool {
    exists|k: int|
        0 <= k < 14 && #[trigger] check_mark_points()[k].0 <= x <= check_mark_points()[k].0 + 1
            && check_mark_points()[k].1 <= y <= check_mark_points()[k].1 + 1
}

/// Pixel `(x, y)` of a `size`-wide icon lies in the disk centred at `(size - 1) / 2` with
/// radius `(size - 3) / 2`: `(x - c)^2 + (y - c)^2 <= r^2`, multiplied out by four.
pub open spec fn in_icon_disk(size: int, x: int, y: int) -> bool {
    let d = size - 1;
    (2 * x - d) * (2 * x - d) + (2 * y - d) * (2 * y - d) <= (size - 3) * (size - 3)
}

/// The RGBA bytes of pixel `(x, y)` of the success icon: opaque white on the check mark,
/// opaque green (40, 184, 124) elsewhere in the disk, transparent outside.
pub open spec fn icon_pixel(size: int, x: int, y: int) -> Seq<u8> {
    if on_check_mark(x, y) {
        seq![255u8, 255u8, 255u8, 255u8]
    } else if in_icon_disk(size, x, y) {
        seq![40u8, 184u8, 124u8, 255u8]
    } else {
        seq![0u8, 0u8, 0u8, 0u8]
    }
}

/// The first `x` pixels of icon row `y`.
pub open spec fn icon_row_prefix(size: int, y: int, x: int) -> Seq<u8>
    decreases x,
{
    if x <= 0 {
        Seq::<u8>::empty()
    } else {
        icon_row_prefix(size, y, x - 1) + icon_pixel(size, x - 1, y)
    }
}

/// The first `n` rows of the icon, top row first.
pub open spec fn icon_rows(size: int, n: int) -> Seq<u8>
    decreases n,
{
    if n <= 0 {
        Seq::<u8>::empty()
    } else {
        icon_rows(size, n - 1) + icon_row_prefix(size, n - 1, size)
    }
}

proof fn lemma_icon_rows_len(size: int, n: int)
    requires
        n >= 0,
        size >= 0,
    ensures
        icon_rows(size, n).len() == n * (size * 4),
    decreases n,
{
    if n > 0 {
        lemma_icon_rows_len(size, n - 1);
        lemma_icon_row_prefix_len(size, n - 1, size);
        assert(n * (size * 4) == (n - 1) * (size * 4) + size * 4) by (nonlinear_arith);
        assert(icon_rows(size, n).len() == icon_rows(size, n - 1).len() + icon_row_prefix(
            size,
            n - 1,
            size,
        ).len());
    } else {
        assert(n * (size * 4) == 0) by (nonlinear_arith)
            requires
                n == 0,
        ;
    }
}

proof fn lemma_icon_row_prefix_len(size: int, y: int, x: int)
    requires
        x >= 0,
    ensures
        icon_row_prefix(size, y, x).len() == 4 * x,
    decreases x,
{
    if x > 0 {
        lemma_icon_row_prefix_len(size, y, x - 1);
    }
}

fn on_check_mark_exec(x: u32, y: u32) -> (r: bool)
    ensures
        r == on_check_mark(x as int, y as int),
{
    let points: [(u32, u32); 14] = [
        (9, 17),
        (10, 18),
        (11, 19),
        (12, 20),
        (13, 20),
        (14, 19),
        (15, 18),
        (16, 17),
        (17, 16),
        (18, 15),
        (19, 14),
        (20, 13),
        (21, 12),
        (22, 11),
    ];
    assert(points@ =~= check_mark_points());
    let mut k: usize = 0;
    while k < 14
        invariant
            k <= 14,
            points@ == check_mark_points(),
            forall|j: int|
                0 <= j < k ==> !(#[trigger] check_mark_points()[j].0 <= x <= check_mark_points()[j].0 + 1
                    && check_mark_points()[j].1 <= y <= check_mark_points()[j].1 + 1),
        decreases 14 - k,
    {
        let (px, py) = points[k];
        if px <= x && x <= px + 1 && py <= y && y <= py + 1 {
            assert(check_mark_points()[k as int].0 <= x <= check_mark_points()[k as int].0 + 1);
            return true;
        }
        k = k + 1;
    }
    false
}

fn in_icon_disk_exec(size: u32, x: u32, y: u32) -> (r: bool)
    requires
        size <= 32767,
        x < size,
        y < size,
    ensures
        r == in_icon_disk(size as int, x as int, y as int),
{
    let d = size as i64 - 1;
    let dx = 2 * (x as i64) - d;
    let dy = 2 * (y as i64) - d;
    let radius = size as i64 - 3;
    proof {
        assert(dx * dx <= 65536 * 65536) by (nonlinear_arith)
            requires
                -65536 <= dx <= 65536,
        ;
        assert(dy * dy <= 65536 * 65536) by (nonlinear_arith)
            requires
                -65536 <= dy <= 65536,
        ;
        assert(0 <= dx * dx) by (nonlinear_arith);
        assert(0 <= dy * dy) by (nonlinear_arith);
        assert(0 <= radius * radius) by (nonlinear_arith);
        assert(radius * radius <= 65536 * 65536) by (nonlinear_arith)
            requires
                -65536 <= radius <= 65536,
        ;
    }
    dx * dx + dy * dy <= radius * radius
}

/// The RGBA bytes of the `size` x `size` tray icon shown after a screenshot was saved: a
/// green disk with a white check mark on a transparent ground, row by row from the top.
/// The disk test is the single-precision one of the icon's drawing, which computes
/// exactly for icons up to 2048 pixels wide; larger icons are not drawn.
pub fn success_tray_icon_rgba(size: u32) -> (r: Vec<u8>)
    requires
        size <= 2048,
    ensures
        r@ == icon_rows(size as int, size as int),
        r@.len() == size as int * size as int * 4,
{
    proof {
        assert(size as int * size as int * 4 <= 2048 * 2048 * 4) by (nonlinear_arith)
            requires
                size <= 2048,
        ;
    }
    let mut rgba: Vec<u8> = Vec::with_capacity((size * size * 4) as usize);
    let mut y: u32 = 0;
    assert(rgba@ =~= icon_rows(size as int, 0));
    while y < size
        invariant
            size <= 2048,
            y <= size,
            rgba@ == icon_rows(size as int, y as int),
        decreases size - y,
    {
        let ghost before = rgba@;
        let mut x: u32 = 0;
        assert(rgba@ =~= before + icon_row_prefix(size as int, y as int, 0));
        while x < size
            invariant
                size <= 2048,
                y < size,
                x <= size,
                rgba@ == before + icon_row_prefix(size as int, y as int, x as int),
            decreases size - x,
        {
            let ghost prev = rgba@;
            if on_check_mark_exec(x, y) {
                rgba.push(255);
                rgba.push(255);
                rgba.push(255);
                rgba.push(255);
            } else if in_icon_disk_exec(size, x, y) {
                rgba.push(40);
                rgba.push(184);
                rgba.push(124);
                rgba.push(255);
            } else {
                rgba.push(0);
                rgba.push(0);
                rgba.push(0);
                rgba.push(0);
            }
            assert(rgba@ =~= prev + icon_pixel(size as int, x as int, y as int));
            x = x + 1;
            assert(rgba@ =~= before + icon_row_prefix(size as int, y as int, x as int));
        }
        y = y + 1;
        assert(rgba@ =~= icon_rows(size as int, y as int));
    }
    proof {
        lemma_icon_rows_len(size as int, size as int);
        assert(size as int * (size as int * 4) == size as int * size as int * 4)
            by (nonlinear_arith);
    }
    rgba
}

/// Screen pixels in blue, green, red, reserved order turned into opaque RGBA: in every
/// whole group of four bytes the first and third change places and the fourth becomes
/// 255; bytes after the last whole group stay as they are.
pub open spec fn opaque_rgba(bgra: Seq<u8>) -> Seq<u8>
    decreases bgra.len(),
{
    if bgra.len() < 4 {
        bgra
    } else {
        seq![bgra[2], bgra[1], bgra[0], 255u8] + opaque_rgba(bgra.subrange(4, bgra.len() as int))
    }
}

/// The message for a capture area without pixels.
pub open spec fn empty_capture_error() -> Seq<char> {
    "截图区域无效"@
}

/// Refuses a capture area without pixels.
pub fn check_capture_area(width: u32, height: u32) -> (r: Result<(), String>)
    ensures
        r is Ok <==> (width > 0 && height > 0),
        r matches Err(e) ==> e@ == empty_capture_error(),
{
    if width == 0 || height == 0 {
        Err(String::from_str("截图区域无效"))
    } else {
        Ok(())
    }
}

/// The picture of a captured screen area from the pixels the screen gave in BGRA order:
/// each pixel turned into RGBA and made opaque.
pub fn picture_from_screen_pixels(width: u32, height: u32, bgra: &[u8]) -> (r: Picture)
    requires
        bgra@.len() == width as int * height as int * 4,
    ensures
        r@ == (PictureView { width, height, pixels: opaque_rgba(bgra@) }),
{
    let n = bgra.len();
    let mut out: Vec<u8> = Vec::with_capacity(n);
    let mut i: usize = 0;
    assert(bgra@.subrange(0, n as int) =~= bgra@);
    while n - i >= 4
        invariant
            n == bgra@.len(),
            i <= n,
            out@.len() == i,
            out@ + opaque_rgba(bgra@.subrange(i as int, n as int)) == opaque_rgba(bgra@),
        decreases n - i,
    {
        let ghost rest = bgra@.subrange(i as int, n as int);
        out.push(bgra[i + 2]);
        out.push(bgra[i + 1]);
        out.push(bgra[i]);
        out.push(255u8);
        assert(rest.subrange(4, rest.len() as int) =~= bgra@.subrange(i + 4, n as int));
        assert(seq![rest[2], rest[1], rest[0], 255u8] =~= seq![bgra@[i + 2], bgra@[i + 1], bgra@[i as int], 255u8]);
        i = i + 4;
        assert(out@ + opaque_rgba(bgra@.subrange(i as int, n as int)) =~= opaque_rgba(bgra@));
    }
    let ghost tail = bgra@.subrange(i as int, n as int);
    assert(opaque_rgba(tail) == tail);
    while i < n
        invariant
            n == bgra@.len(),
            i <= n,
            out@ + bgra@.subrange(i as int, n as int) == opaque_rgba(bgra@),
        decreases n - i,
    {
        out.push(bgra[i]);
        i = i + 1;
        assert(out@ + bgra@.subrange(i as int, n as int) =~= opaque_rgba(bgra@));
    }
    assert(out@ =~= opaque_rgba(bgra@));
    proof {
        lemma_opaque_rgba_len(bgra@);
    }
    Picture { width, height, rgba: out }
}

proof fn lemma_opaque_rgba_len(bgra: Seq<u8>)
    ensures
        opaque_rgba(bgra).len() == bgra.len(),
    decreases bgra.len(),
{
    if bgra.len() >= 4 {
        lemma_opaque_rgba_len(bgra.subrange(4, bgra.len() as int));
    }
}

proof fn lemma_full_rows(p: PictureView, n: int)
    requires
        p.wf(),
        0 <= n <= p.height,
    ensures
        crop_rows(p, 0, p.width as int, 0, n) == p.pixels.subrange(0, n * p.width * 4),
    decreases n,
{
    let w = p.width as int;
    if n > 0 {
        lemma_full_rows(p, n - 1);
        assert(((n - 1) * w + w) * 4 == n * w * 4) by (nonlinear_arith);
        assert(((n - 1) * w + 0) * 4 == (n - 1) * w * 4);
        assert(n * w * 4 <= p.pixels.len()) by (nonlinear_arith)
            requires
                p.pixels.len() == w * p.height * 4,
                n <= p.height,
                0 <= w,
        ;
        assert(0 <= (n - 1) * w * 4) by (nonlinear_arith)
            requires
                1 <= n,
                0 <= w,
        ;
        assert(p.pixels.subrange(0, (n - 1) * w * 4) + p.pixels.subrange(
            (n - 1) * w * 4,
            n * w * 4,
        ) =~= p.pixels.subrange(0, n * w * 4));
    } else {
        assert(n * w * 4 == 0) by (nonlinear_arith)
            requires
                n == 0,
        ;
        assert(p.pixels.subrange(0, 0) =~= Seq::<u8>::empty());
    }
}

/// Cropping a picture to its whole area gives back its pixels unchanged.
pub proof fn crop_of_whole_picture_is_identity(p: PictureView)
    requires
        p.wf(),
    ensures
        crop_rows(p, 0, p.width as int, 0, p.height as int) == p.pixels,
{
    lemma_full_rows(p, p.height as int);
    assert(p.pixels.subrange(0, p.height * p.width * 4) =~= p.pixels) by {
        assert(p.height * p.width * 4 == p.pixels.len()) by (nonlinear_arith)
            requires
                p.pixels.len() == p.width * p.height * 4,
        ;
    }
}

/// Byte `c` (0 blue, 1 green, 2 red) of pixel `x` in row `y` of a picture's DIB, rows
/// counted from the bottom: the byte at `40 + y * stride + 3 * x + c`.
pub open spec fn dib_pixel_byte(p: PictureView, y: int, x: int, c: int) -> u8 {
    dib_of(p)[40 + y * dib_stride(p.width) + 3 * x + c]
}

/// Byte `k` of DIB row `y`, counted from the start of the row.
pub open spec fn dib_row_byte(p: PictureView, y: int, k: int) -> u8 {
    dib_of(p)[40 + y * dib_stride(p.width) + k]
}

/// Byte `c` (0 red, 1 green, 2 blue, 3 alpha) of pixel `(x, row)` of the picture.
pub open spec fn picture_byte(p: PictureView, row: int, x: int, c: int) -> u8 {
    p.pixels[(row * p.width + x) * 4 + c]
}

proof fn lemma_bgr_prefix_index(p: PictureView, row: int, x: int, j: int, c: int)
    requires
        0 <= j < x,
        0 <= c < 3,
    ensures
        bgr_prefix(p, row, x)[3 * j + c] == p.pixels[(row * p.width + j) * 4 + 2 - c],
    decreases x,
{
    lemma_bgr_prefix_len(p, row, x - 1);
    if j < x - 1 {
        lemma_bgr_prefix_index(p, row, x - 1, j, c);
    }
}

proof fn lemma_dib_rows_index(p: PictureView, n: int, y: int, k: int)
    requires
        0 <= y < n,
        0 <= k < dib_stride(p.width),
    ensures
        dib_rows(p, n)[y * dib_stride(p.width) + k] == dib_row(p, y)[k],
    decreases n,
{
    let st = dib_stride(p.width) as int;
    lemma_dib_rows_len(p, n - 1);
    lemma_stride_bounds(p.width);
    lemma_bgr_prefix_len(p, p.height - 1 - y, p.width as int);
    lemma_bgr_prefix_len(p, p.height - n, p.width as int);
    assert(dib_row(p, y).len() == st);
    assert(dib_row(p, n - 1).len() == st);
    assert(dib_rows(p, n) == dib_rows(p, n - 1) + dib_row(p, n - 1));
    if y < n - 1 {
        lemma_dib_rows_index(p, n - 1, y, k);
        assert(y * st + k < (n - 1) * st) by (nonlinear_arith)
            requires
                0 <= y < n - 1,
                0 <= k < st,
        ;
    } else {
        assert(y * st + k - (n - 1) * st == k) by (nonlinear_arith)
            requires
                y == n - 1,
        ;
    }
}

/// The DIB of a picture holds every pixel where Windows looks for it: DIB row `y`
/// (counted from the bottom) is picture row `height - 1 - y`, its pixel `x` stands at
/// byte `40 + y * stride + 3 * x` as blue, green, red (the picture's bytes 2, 1, 0), the
/// bytes after the pixels up to the row length are zero, and the DIB is the 40-byte
/// header and `height` rows long.
pub proof fn dib_pixel_layout(p: PictureView)
    requires
        p.wf(),
    ensures
        dib_of(p).len() == 40 + dib_stride(p.width) * p.height,
        forall|y: int, x: int, c: int|
            0 <= y < p.height && 0 <= x < p.width && 0 <= c < 3 ==> #[trigger] dib_pixel_byte(
                p,
                y,
                x,
                c,
            ) == picture_byte(p, p.height - 1 - y, x, 2 - c),
        forall|y: int, k: int|
            0 <= y < p.height && p.width * 3 <= k < dib_stride(p.width) ==> #[trigger] dib_row_byte(
                p,
                y,
                k,
            ) == 0,
{
    let w = p.width as int;
    let h = p.height as int;
    let st = dib_stride(p.width) as int;
    let header = dib_header(p.width, p.height, dib_stride(p.width) * (p.height as nat));
    lemma_dib_rows_len(p, h);
    lemma_stride_bounds(p.width);
    assert(header.len() == 40);
    assert forall|y: int, x: int, c: int|
        0 <= y < h && 0 <= x < w && 0 <= c < 3 implies #[trigger] dib_pixel_byte(p, y, x, c)
        == picture_byte(p, h - 1 - y, x, 2 - c) by {
        assert(3 * x + c < st);
        lemma_dib_rows_index(p, h, y, 3 * x + c);
        assert(y * st + 3 * x + c < h * st) by (nonlinear_arith)
            requires
                0 <= y < h,
                0 <= 3 * x + c < st,
        ;
        lemma_bgr_prefix_len(p, h - 1 - y, w);
        lemma_bgr_prefix_index(p, h - 1 - y, w, x, c);
        assert(dib_row(p, y)[3 * x + c] == bgr_prefix(p, h - 1 - y, w)[3 * x + c]);
    }
    assert forall|y: int, k: int|
        0 <= y < h && w * 3 <= k < st implies #[trigger] dib_row_byte(p, y, k) == 0 by {
        lemma_dib_rows_index(p, h, y, k);
        assert(y * st + k < h * st) by (nonlinear_arith)
            requires
                0 <= y < h,
                0 <= k < st,
        ;
        lemma_bgr_prefix_len(p, h - 1 - y, w);
    }
}

} // verus!
