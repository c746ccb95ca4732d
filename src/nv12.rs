use vstd::arithmetic::div_mod::lemma_fundamental_div_mod_converse;
use vstd::prelude::*;

verus! {

broadcast use vstd::string::to_string_from_display_ensures_for_str;

/// Packs strided luma/chroma planes into a contiguous NV12 buffer.
pub struct NV12Organizer;

/// Errors of the checked NV12 packing.
#[derive(Debug, Clone)]
pub enum NV12Error {
    InvalidStride(String),
    InsufficientData(String),
    IndexOutOfBounds(String),
}

/// Size in bytes of an NV12 image: a full luma plane and a half-height
/// interleaved chroma plane.
pub open spec fn nv12_size(width: int, height: int) -> int {
    width * height * 3 / 2
}

/// The `rows` rows of a strided plane, `width` bytes each, with the padding
/// between `width` and `stride` left out.
pub open spec fn plane_rows(src: Seq<u8>, stride: int, width: int, rows: int) -> Seq<u8> {
    Seq::new((width * rows) as nat, |k: int| src[(k / width) * stride + k % width])
}

/// The visible pixels of both planes: the luma rows, then the chroma rows.
pub open spec fn packed_planes(
    luma: Seq<u8>,
    luma_stride: int,
    chroma: Seq<u8>,
    chroma_stride: int,
    width: int,
    height: int,
) -> Seq<u8> {
    plane_rows(luma, luma_stride, width, height) + plane_rows(chroma, chroma_stride, width, height / 2)
}

/// The NV12 buffer built from the planes: the packed pixels, then zero
/// bytes up to `nv12_size` (there are some only when `height` is odd).
pub open spec fn nv12_layout(
    luma: Seq<u8>,
    luma_stride: int,
    chroma: Seq<u8>,
    chroma_stride: int,
    width: int,
    height: int,
) -> Seq<u8> {
    packed_planes(luma, luma_stride, chroma, chroma_stride, width, height) + Seq::new(
        (nv12_size(width, height) - width * height - width * (height / 2)) as nat,
        |i: int| 0u8,
    )
}

/// What the checked variant owes its caller: the strides and buffer
/// lengths that the packing needs.
pub open spec fn planes_valid(
    luma_len: int,
    luma_stride: int,
    chroma_len: int,
    chroma_stride: int,
    width: int,
    height: int,
) -> bool {
    &&& luma_stride >= width
    &&& chroma_stride >= width
    &&& height * luma_stride <= luma_len
    &&& (height / 2) * chroma_stride <= chroma_len
}

proof fn lemma_row_index(k: int, width: int, row: int)
    requires
        width > 0,
        row * width <= k < row * width + width,
    ensures
        k / width == row,
        k % width == k - row * width,
{
    lemma_fundamental_div_mod_converse(k, width, row, k - row * width);
}

proof fn lemma_row_fits(row: int, rows: int, stride: int, width: int)
    requires
        0 <= row < rows,
        0 <= width <= stride,
    ensures
        row * stride + width <= rows * stride,
        row * width + width <= rows * width,
{
    assert((row + 1) * stride <= rows * stride) by (nonlinear_arith)
        requires
            row + 1 <= rows,
            stride >= 0,
    ;
    assert((row + 1) * width <= rows * width) by (nonlinear_arith)
        requires
            row + 1 <= rows,
            width >= 0,
    ;
    assert((row + 1) * stride == row * stride + stride) by (nonlinear_arith);
    assert((row + 1) * width == row * width + width) by (nonlinear_arith);
}

proof fn lemma_size_covers_planes(width: int, height: int)
    requires
        width >= 0,
        height >= 0,
    ensures
        width * height + width * (height / 2) <= nv12_size(width, height),
        width * height <= width * height + width * (height / 2),
{
    assert(2 * (width * (height / 2)) <= width * height) by (nonlinear_arith)
        requires
            width >= 0,
            height >= 0,
    {
        assert(2 * (height / 2) <= height);
        assert(width * (2 * (height / 2)) <= width * height) by (nonlinear_arith)
            requires
                width >= 0,
                2 * (height / 2) <= height,
        ;
    }
    assert(width * (height / 2) >= 0) by (nonlinear_arith)
        requires
            width >= 0,
            height >= 0,
    ;
}

/// Copies `width` bytes of `src` from `src_offset` into `out` at `out_offset`.
fn copy_row(src: &[u8], src_offset: usize, out: &mut [u8], out_offset: usize, width: usize)
    requires
        src_offset + width <= src@.len(),
        out_offset + width <= old(out)@.len(),
    ensures
        final(out)@.len() == old(out)@.len(),
        forall|i: int|
            0 <= i < final(out)@.len() ==> #[trigger] final(out)@[i] == if out_offset <= i
                < out_offset + width {
                src@[src_offset + i - out_offset]
            } else {
                old(out)@[i]
            },
{
    let src_len = src.len();
    let out_len = out.len();
    let mut x: usize = 0;
    while x < width
        invariant
            x <= width,
            src_len == src@.len(),
            out_len == old(out)@.len(),
            src_offset + width <= src@.len(),
            out_offset + width <= old(out)@.len(),
            out@.len() == old(out)@.len(),
            forall|i: int|
                0 <= i < out@.len() ==> #[trigger] out@[i] == if out_offset <= i < out_offset
                    + x {
                    src@[src_offset + i - out_offset]
                } else {
                    old(out)@[i]
                },
        decreases width - x,
    {
        out[out_offset + x] = src[src_offset + x];
        x = x + 1;
    }
}

impl NV12Error {
    /// The error's text, its kind followed by the detail it carries.
    pub fn message(&self) -> (r: String)
        ensures
            r@ == match self {
                NV12Error::InvalidStride(m) => "Invalid stride: "@ + m@,
                NV12Error::InsufficientData(m) => "Insufficient data: "@ + m@,
                NV12Error::IndexOutOfBounds(m) => "Index out of bounds: "@ + m@,
            },
    {
        let (prefix, detail) = match self {
            NV12Error::InvalidStride(m) => ("Invalid stride: ", m),
            NV12Error::InsufficientData(m) => ("Insufficient data: ", m),
            NV12Error::IndexOutOfBounds(m) => ("Index out of bounds: ", m),
        };
        let text = prefix.to_string();
        text.concat(detail.as_str())
    }
}

impl NV12Organizer {
    /// Packs a strided luma plane and a strided half-height chroma plane
    /// into one NV12 buffer of `width * height * 3 / 2` bytes, dropping the
    /// row padding of both.
    pub fn organize_nv12_data(
        luminance_bytes: &[u8],
        luminance_stride: usize,
        chrominance_bytes: &[u8],
        chrominance_stride: usize,
        width: usize,
        height: usize,
    ) -> (r: Result<Vec<u8>, NV12Error>)
        requires
            nv12_size(width as int, height as int) <= usize::MAX,
        ensures
            match r {
                Ok(out) => {
                    &&& planes_valid(
                        luminance_bytes@.len() as int,
                        luminance_stride as int,
                        chrominance_bytes@.len() as int,
                        chrominance_stride as int,
                        width as int,
                        height as int,
                    )
                    &&& out@ == nv12_layout(
                        luminance_bytes@,
                        luminance_stride as int,
                        chrominance_bytes@,
                        chrominance_stride as int,
                        width as int,
                        height as int,
                    )
                },
                Err(NV12Error::InvalidStride(_)) => luminance_stride < width || chrominance_stride
                    < width,
                Err(NV12Error::InsufficientData(_)) => {
                    &&& luminance_stride >= width
                    &&& chrominance_stride >= width
                    &&& (height * luminance_stride > luminance_bytes@.len() || (height / 2)
                        * chrominance_stride > chrominance_bytes@.len())
                },
                Err(NV12Error::IndexOutOfBounds(_)) => false,
            },
    {
        Self::validate_parameters(
            luminance_bytes,
            luminance_stride,
            chrominance_bytes,
            chrominance_stride,
            width,
            height,
        )?;

        proof {
            lemma_size_covers_planes(width as int, height as int);
            assert(width * height <= height * luminance_stride) by (nonlinear_arith)
                requires
                    width <= luminance_stride,
            ;
            assert(width * (height / 2) <= (height / 2) * chrominance_stride) by (nonlinear_arith)
                requires
                    width <= chrominance_stride,
            ;
        }
        let nv12_size = Self::calculate_nv12_size(width, height);
        let mut nv12_output = vec![0u8; nv12_size];

        Self::copy_luminance_plane(
            luminance_bytes,
            luminance_stride,
            nv12_output.as_mut_slice(),
            width,
            height,
        )?;

        Self::copy_chrominance_plane(
            chrominance_bytes,
            chrominance_stride,
            nv12_output.as_mut_slice(),
            width,
            height,
        )?;

        proof {
            let layout = nv12_layout(
                luminance_bytes@,
                luminance_stride as int,
                chrominance_bytes@,
                chrominance_stride as int,
                width as int,
                height as int,
            );
            assert(nv12_output@ =~= layout);
        }
        Ok(nv12_output)
    }

    /// Total NV12 size, `width * height * 3 / 2`.
    pub fn calculate_nv12_size(width: usize, height: usize) -> (r: usize)
        requires
            nv12_size(width as int, height as int) <= usize::MAX,
        ensures
            r == nv12_size(width as int, height as int),
    {
        proof {
            assert(width * height <= nv12_size(width as int, height as int)) by (nonlinear_arith)
                requires
                    width >= 0,
                    height >= 0,
            ;
        }
        let pixels = width * height;
        pixels + pixels / 2
    }

    fn validate_parameters(
        luminance_bytes: &[u8],
        luminance_stride: usize,
        chrominance_bytes: &[u8],
        chrominance_stride: usize,
        width: usize,
        height: usize,
    ) -> (r: Result<(), NV12Error>)
        ensures
            match r {
                Ok(()) => planes_valid(
                    luminance_bytes@.len() as int,
                    luminance_stride as int,
                    chrominance_bytes@.len() as int,
                    chrominance_stride as int,
                    width as int,
                    height as int,
                ),
                Err(NV12Error::InvalidStride(_)) => luminance_stride < width || chrominance_stride
                    < width,
                Err(NV12Error::InsufficientData(_)) => {
                    &&& luminance_stride >= width
                    &&& chrominance_stride >= width
                    &&& (height * luminance_stride > luminance_bytes@.len() || (height / 2)
                        * chrominance_stride > chrominance_bytes@.len())
                },
                Err(NV12Error::IndexOutOfBounds(_)) => false,
            },
    {
        let luminance_len = luminance_bytes.len();
        let chrominance_len = chrominance_bytes.len();
        if luminance_stride < width {
            return Err(NV12Error::InvalidStride("luminance_stride < width".to_string()));
        }
        if chrominance_stride < width {
            return Err(NV12Error::InvalidStride("chrominance_stride < width".to_string()));
        }
        match height.checked_mul(luminance_stride) {
            Some(required_y_size) if luminance_len >= required_y_size => {},
            _ => {
                return Err(NV12Error::InsufficientData("luminance buffer too small".to_string()));
            },
        }
        let uv_height = height / 2;
        match uv_height.checked_mul(chrominance_stride) {
            Some(required_uv_size) if chrominance_len >= required_uv_size => {},
            _ => {
                return Err(
                    NV12Error::InsufficientData("chrominance buffer too small".to_string()),
                );
            },
        }
        Ok(())
    }

    fn copy_luminance_plane(
        luminance_bytes: &[u8],
        luminance_stride: usize,
        nv12_output: &mut [u8],
        width: usize,
        height: usize,
    ) -> (r: Result<(), NV12Error>)
        requires
            luminance_stride >= width,
            height * luminance_stride <= luminance_bytes@.len(),
            width * height <= old(nv12_output)@.len(),
        ensures
            r is Ok,
            final(nv12_output)@.len() == old(nv12_output)@.len(),
            forall|k: int|
                0 <= k < final(nv12_output)@.len() ==> #[trigger] final(nv12_output)@[k] == if k
                    < width * height {
                    plane_rows(luminance_bytes@, luminance_stride as int, width as int, height as int)[k]
                } else {
                    old(nv12_output)@[k]
                },
    {
        let ghost rows = plane_rows(luminance_bytes@, luminance_stride as int, width as int, height as int);
        let luminance_len = luminance_bytes.len();
        let output_len = nv12_output.len();
        let mut output_offset: usize = 0;
        let mut y: usize = 0;
        while y < height
            invariant
                y <= height,
                output_offset == y * width,
                luminance_len == luminance_bytes@.len(),
                output_len == old(nv12_output)@.len(),
                luminance_stride >= width,
                height * luminance_stride <= luminance_bytes@.len(),
                width * height <= old(nv12_output)@.len(),
                rows == plane_rows(luminance_bytes@, luminance_stride as int, width as int, height as int),
                nv12_output@.len() == old(nv12_output)@.len(),
                forall|k: int|
                    0 <= k < nv12_output@.len() ==> #[trigger] nv12_output@[k] == if k < y
                        * width {
                        rows[k]
                    } else {
                        old(nv12_output)@[k]
                    },
            decreases height - y,
        {
            proof {
                lemma_row_fits(y as int, height as int, luminance_stride as int, width as int);
                assert(width * height == height * width) by (nonlinear_arith);
            }
            let src_offset = y * luminance_stride;
            let src_end = src_offset + width;
            if src_end > luminance_len {
                return Err(NV12Error::IndexOutOfBounds("luminance data".to_string()));
            }
            let output_end = output_offset + width;
            if output_end > nv12_output.len() {
                return Err(NV12Error::IndexOutOfBounds("output buffer".to_string()));
            }
            copy_row(luminance_bytes, src_offset, nv12_output, output_offset, width);
            proof {
                assert((y + 1) * width == y * width + width) by (nonlinear_arith);
                assert forall|k: int| 0 <= k < nv12_output@.len() implies #[trigger] nv12_output@[k]
                    == if k < (y + 1) * width {
                    rows[k]
                } else {
                    old(nv12_output)@[k]
                } by {
                    if y * width <= k < y * width + width {
                        lemma_row_index(k, width as int, y as int);
                        assert(k < width * height);
                    }
                }
            }
            output_offset = output_end;
            y = y + 1;
        }
        assert(height * width == width * height) by (nonlinear_arith);
        Ok(())
    }

    fn copy_chrominance_plane(
        chrominance_bytes: &[u8],
        chrominance_stride: usize,
        nv12_output: &mut [u8],
        width: usize,
        height: usize,
    ) -> (r: Result<(), NV12Error>)
        requires
            chrominance_stride >= width,
            (height / 2) * chrominance_stride <= chrominance_bytes@.len(),
            width * height + width * (height / 2) <= old(nv12_output)@.len(),
        ensures
            r is Ok,
            final(nv12_output)@.len() == old(nv12_output)@.len(),
            forall|k: int|
                0 <= k < final(nv12_output)@.len() ==> #[trigger] final(nv12_output)@[k] == if width
                    * height <= k < width * height + width * (height / 2) {
                    plane_rows(
                        chrominance_bytes@,
                        chrominance_stride as int,
                        width as int,
                        (height / 2) as int,
                    )[k - width * height]
                } else {
                    old(nv12_output)@[k]
                },
    {
        let ghost rows = plane_rows(
            chrominance_bytes@,
            chrominance_stride as int,
            width as int,
            (height / 2) as int,
        );
        proof {
            assert(width * height >= 0) by (nonlinear_arith)
                requires
                    width >= 0,
                    height >= 0,
            ;
        }
        let chrominance_len = chrominance_bytes.len();
        let output_len = nv12_output.len();
        let y_plane_size = width * height;
        let mut output_offset: usize = y_plane_size;
        assert(height * width == width * height) by (nonlinear_arith);
        let uv_height = height / 2;
        let mut y: usize = 0;
        while y < uv_height
            invariant
                y <= uv_height,
                uv_height == height / 2,
                y_plane_size == width * height,
                output_offset == y_plane_size + y * width,
                chrominance_len == chrominance_bytes@.len(),
                output_len == old(nv12_output)@.len(),
                chrominance_stride >= width,
                uv_height * chrominance_stride <= chrominance_bytes@.len(),
                y_plane_size + width * uv_height <= old(nv12_output)@.len(),
                rows == plane_rows(chrominance_bytes@, chrominance_stride as int, width as int, uv_height as int),
                nv12_output@.len() == old(nv12_output)@.len(),
                forall|k: int|
                    0 <= k < nv12_output@.len() ==> #[trigger] nv12_output@[k] == if y_plane_size
                        <= k < y_plane_size + y * width {
                        rows[k - y_plane_size]
                    } else {
                        old(nv12_output)@[k]
                    },
            decreases uv_height - y,
        {
            proof {
                lemma_row_fits(y as int, uv_height as int, chrominance_stride as int, width as int);
                assert(width * uv_height == uv_height * width) by (nonlinear_arith);
            }
            let src_offset = y * chrominance_stride;
            let src_end = src_offset + width;
            if src_end > chrominance_len {
                return Err(NV12Error::IndexOutOfBounds("chrominance data".to_string()));
            }
            let output_end = output_offset + width;
            if output_end > nv12_output.len() {
                return Err(NV12Error::IndexOutOfBounds("output buffer".to_string()));
            }
            copy_row(chrominance_bytes, src_offset, nv12_output, output_offset, width);
            proof {
                assert((y + 1) * width == y * width + width) by (nonlinear_arith);
                assert forall|k: int| 0 <= k < nv12_output@.len() implies #[trigger] nv12_output@[k]
                    == if y_plane_size <= k < y_plane_size + (y + 1) * width {
                    rows[k - y_plane_size]
                } else {
                    old(nv12_output)@[k]
                } by {
                    if y_plane_size + y * width <= k < y_plane_size + y * width + width {
                        lemma_row_index(k - y_plane_size, width as int, y as int);
                        assert(k - y_plane_size < width * uv_height);
                    }
                }
            }
            output_offset = output_end;
            y = y + 1;
        }
        assert(uv_height * width == width * uv_height) by (nonlinear_arith);
        Ok(())
    }

    /// Splits an NV12 buffer into its luma plane (`width * height` bytes)
    /// and the chroma plane that follows it.
    pub fn get_nv12_planes(nv12_data: &[u8], width: usize, height: usize) -> (r: (&[u8], &[u8]))
        requires
            width * height <= nv12_data@.len(),
        ensures
            r.0@ == nv12_data@.subrange(0, width * height),
            r.1@ == nv12_data@.subrange(width * height, nv12_data@.len() as int),
    {
        let total = nv12_data.len();
        assert(width * height <= total);
        let y_plane_size = width * height;
        nv12_data.split_at(y_plane_size)
    }

    /// Mutable form of `get_nv12_planes`.
    pub fn get_nv12_planes_mut(nv12_data: &mut [u8], width: usize, height: usize) -> (r: (
        &mut [u8],
        &mut [u8],
    ))
        requires
            width * height <= old(nv12_data)@.len(),
        ensures
            r.0@ == old(nv12_data)@.subrange(0, width * height),
            r.1@ == old(nv12_data)@.subrange(width * height, old(nv12_data)@.len() as int),
            final(nv12_data)@ == final(r.0)@ + final(r.1)@,
    {
        let total = nv12_data.len();
        assert(width * height <= total);
        let y_plane_size = width * height;
        nv12_data.split_at_mut(y_plane_size)
    }

    /// The same packing as `organize_nv12_data` into a buffer of the
    /// caller's, for the capture hot path: the strides and lengths are the
    /// caller's obligation instead of being checked, and bytes of the output
    /// past the packed planes are left as they were.
    pub fn organize_nv12_data_unchecked(
        luminance_bytes: &[u8],
        luminance_stride: usize,
        chrominance_bytes: &[u8],
        chrominance_stride: usize,
        width: usize,
        height: usize,
        nv12_output: &mut [u8],
    )
        requires
            planes_valid(
                luminance_bytes@.len() as int,
                luminance_stride as int,
                chrominance_bytes@.len() as int,
                chrominance_stride as int,
                width as int,
                height as int,
            ),
            width * height + width * (height / 2) <= old(nv12_output)@.len(),
        ensures
            final(nv12_output)@ == packed_planes(
                luminance_bytes@,
                luminance_stride as int,
                chrominance_bytes@,
                chrominance_stride as int,
                width as int,
                height as int,
            ) + old(nv12_output)@.skip(width * height + width * (height / 2)),
    {
        let ghost packed = packed_planes(
            luminance_bytes@,
            luminance_stride as int,
            chrominance_bytes@,
            chrominance_stride as int,
            width as int,
            height as int,
        );
        let ghost luma_len = width * height;
        let ghost total = width * height + width * (height / 2);
        proof {
            lemma_size_covers_planes(width as int, height as int);
        }
        let luminance_len = luminance_bytes.len();
        let chrominance_len = chrominance_bytes.len();
        let output_len = nv12_output.len();
        let mut output_offset: usize = 0;
        let mut y: usize = 0;
        while y < height
            invariant
                y <= height,
                output_offset == y * width,
                luminance_len == luminance_bytes@.len(),
                chrominance_len == chrominance_bytes@.len(),
                output_len == old(nv12_output)@.len(),
                planes_valid(
                    luminance_bytes@.len() as int,
                    luminance_stride as int,
                    chrominance_bytes@.len() as int,
                    chrominance_stride as int,
                    width as int,
                    height as int,
                ),
                luma_len == width * height,
                total == width * height + width * (height / 2),
                luma_len <= total <= old(nv12_output)@.len(),
                packed == packed_planes(
                    luminance_bytes@,
                    luminance_stride as int,
                    chrominance_bytes@,
                    chrominance_stride as int,
                    width as int,
                    height as int,
                ),
                nv12_output@.len() == old(nv12_output)@.len(),
                forall|k: int|
                    0 <= k < nv12_output@.len() ==> #[trigger] nv12_output@[k] == if k < y
                        * width {
                        packed[k]
                    } else {
                        old(nv12_output)@[k]
                    },
            decreases height - y,
        {
            proof {
                lemma_row_fits(y as int, height as int, luminance_stride as int, width as int);
                assert(width * height == height * width) by (nonlinear_arith);
            }
            copy_row(luminance_bytes, y * luminance_stride, nv12_output, output_offset, width);
            proof {
                assert((y + 1) * width == y * width + width) by (nonlinear_arith);
                assert forall|k: int| 0 <= k < nv12_output@.len() implies #[trigger] nv12_output@[k]
                    == if k < (y + 1) * width {
                    packed[k]
                } else {
                    old(nv12_output)@[k]
                } by {
                    if y * width <= k < y * width + width {
                        lemma_row_index(k, width as int, y as int);
                        assert(k < width * height);
                    }
                }
            }
            output_offset = output_offset + width;
            y = y + 1;
        }
        assert(height * width == width * height) by (nonlinear_arith);
        let uv_height = height / 2;
        let mut y: usize = 0;
        while y < uv_height
            invariant
                y <= uv_height,
                uv_height == height / 2,
                output_offset == luma_len + y * width,
                luminance_len == luminance_bytes@.len(),
                chrominance_len == chrominance_bytes@.len(),
                output_len == old(nv12_output)@.len(),
                planes_valid(
                    luminance_bytes@.len() as int,
                    luminance_stride as int,
                    chrominance_bytes@.len() as int,
                    chrominance_stride as int,
                    width as int,
                    height as int,
                ),
                luma_len == width * height,
                total == luma_len + width * uv_height,
                total <= old(nv12_output)@.len(),
                packed == packed_planes(
                    luminance_bytes@,
                    luminance_stride as int,
                    chrominance_bytes@,
                    chrominance_stride as int,
                    width as int,
                    height as int,
                ),
                nv12_output@.len() == old(nv12_output)@.len(),
                forall|k: int|
                    0 <= k < nv12_output@.len() ==> #[trigger] nv12_output@[k] == if k < luma_len
                        + y * width {
                        packed[k]
                    } else {
                        old(nv12_output)@[k]
                    },
            decreases uv_height - y,
        {
            proof {
                lemma_row_fits(y as int, uv_height as int, chrominance_stride as int, width as int);
                assert(width * uv_height == uv_height * width) by (nonlinear_arith);
            }
            copy_row(chrominance_bytes, y * chrominance_stride, nv12_output, output_offset, width);
            proof {
                assert((y + 1) * width == y * width + width) by (nonlinear_arith);
                assert forall|k: int| 0 <= k < nv12_output@.len() implies #[trigger] nv12_output@[k]
                    == if k < luma_len + (y + 1) * width {
                    packed[k]
                } else {
                    old(nv12_output)@[k]
                } by {
                    if luma_len + y * width <= k < luma_len + y * width + width {
                        lemma_row_index(k - luma_len, width as int, y as int);
                        assert(k - luma_len < width * uv_height);
                    }
                }
            }
            output_offset = output_offset + width;
            y = y + 1;
        }
        proof {
            assert(uv_height * width == width * uv_height) by (nonlinear_arith);
            assert(nv12_output@ =~= packed + old(nv12_output)@.skip(total));
        }
    }
}

/// Where byte `k` of a packed plane comes from in its strided source.
pub open spec fn source_offset(stride: int, width: int, k: int) -> int {
    (k / width) * stride + k % width
}

proof fn lemma_plane_rows_len(width: int, rows: int)
    requires
        width >= 0,
        rows >= 0,
    ensures
        width * rows >= 0,
{
    assert(width * rows >= 0) by (nonlinear_arith)
        requires
            width >= 0,
            rows >= 0,
    ;
}

/// Within `width * rows` bytes, byte `k` lies in row `k / width`, at column
/// `k % width`, which is less than the width.
proof fn lemma_packed_position(k: int, width: int, rows: int)
    requires
        0 <= k < width * rows,
        width >= 0,
    ensures
        width > 0,
        0 <= k / width < rows,
        0 <= k % width < width,
{
    assert(width > 0) by (nonlinear_arith)
        requires
            0 <= k < width * rows,
            width >= 0,
    ;
    vstd::arithmetic::div_mod::lemma_fundamental_div_mod(k, width);
    vstd::arithmetic::div_mod::lemma_mod_pos_bound(k, width);
    assert(0 <= k / width < rows) by (nonlinear_arith)
        requires
            0 <= k < width * rows,
            k == width * (k / width) + k % width,
            0 <= k % width < width,
            width > 0,
    ;
}

/// With both strides equal to the width the packed planes are the plain
/// concatenation of the first `width * height` luma bytes and the first
/// `width * (height / 2)` chroma bytes.
pub proof fn lemma_unpadded_is_concatenation(
    luma: Seq<u8>,
    chroma: Seq<u8>,
    width: int,
    height: int,
)
    requires
        width >= 0,
        height >= 0,
        planes_valid(luma.len() as int, width, chroma.len() as int, width, width, height),
    ensures
        packed_planes(luma, width, chroma, width, width, height) == luma.take(width * height)
            + chroma.take(width * (height / 2)),
{
    lemma_plane_rows_len(width, height);
    lemma_plane_rows_len(width, height / 2);
    assert(width * height == height * width) by (nonlinear_arith);
    assert(width * (height / 2) == (height / 2) * width) by (nonlinear_arith);
    let luma_rows = plane_rows(luma, width, width, height);
    let chroma_rows = plane_rows(chroma, width, width, height / 2);
    assert forall|k: int| 0 <= k < width * height implies #[trigger] luma_rows[k] == luma[k] by {
        lemma_packed_position(k, width, height);
        vstd::arithmetic::div_mod::lemma_fundamental_div_mod(k, width);
        assert((k / width) * width == width * (k / width)) by (nonlinear_arith);
    }
    assert forall|k: int| 0 <= k < width * (height / 2) implies #[trigger] chroma_rows[k]
        == chroma[k] by {
        lemma_packed_position(k, width, height / 2);
        vstd::arithmetic::div_mod::lemma_fundamental_div_mod(k, width);
        assert((k / width) * width == width * (k / width)) by (nonlinear_arith);
    }
    assert(luma_rows =~= luma.take(width * height));
    assert(chroma_rows =~= chroma.take(width * (height / 2)));
}

/// Byte `k` of a plane packed from a strided source is read from a visible
/// pixel: the source offset falls in one of the first `rows` rows, in a
/// column below the width, never in the padding.
pub proof fn lemma_packed_byte_is_visible(
    src: Seq<u8>,
    stride: int,
    width: int,
    rows: int,
    k: int,
)
    requires
        0 <= width <= stride,
        0 <= k < width * rows,
    ensures
        plane_rows(src, stride, width, rows)[k] == src[source_offset(stride, width, k)],
        source_offset(stride, width, k) / stride == k / width,
        source_offset(stride, width, k) / stride < rows,
        source_offset(stride, width, k) % stride == k % width,
        source_offset(stride, width, k) % stride < width,
{
    lemma_packed_position(k, width, rows);
    lemma_fundamental_div_mod_converse(
        source_offset(stride, width, k),
        stride,
        k / width,
        k % width,
    );
}

/// In the checked packing's output no padding byte appears: each luma byte
/// is read from a luma column below the width, and each chroma byte from a
/// chroma column below the width.
pub proof fn lemma_output_skips_padding(
    luma: Seq<u8>,
    luma_stride: int,
    chroma: Seq<u8>,
    chroma_stride: int,
    width: int,
    height: int,
)
    requires
        width >= 0,
        height >= 0,
        planes_valid(luma.len() as int, luma_stride, chroma.len() as int, chroma_stride, width, height),
    ensures
        forall|k: int|
            0 <= k < width * height ==> {
                &&& #[trigger] nv12_layout(luma, luma_stride, chroma, chroma_stride, width, height)[k]
                    == luma[source_offset(luma_stride, width, k)]
                &&& source_offset(luma_stride, width, k) % luma_stride < width
            },
        forall|k: int|
            width * height <= k < width * height + width * (height / 2) ==> {
                &&& #[trigger] nv12_layout(luma, luma_stride, chroma, chroma_stride, width, height)[k]
                    == chroma[source_offset(chroma_stride, width, k - width * height)]
                &&& source_offset(chroma_stride, width, k - width * height) % chroma_stride < width
            },
{
    lemma_plane_rows_len(width, height);
    lemma_plane_rows_len(width, height / 2);
    let layout = nv12_layout(luma, luma_stride, chroma, chroma_stride, width, height);
    assert forall|k: int| 0 <= k < width * height implies {
        &&& #[trigger] layout[k] == luma[source_offset(luma_stride, width, k)]
        &&& source_offset(luma_stride, width, k) % luma_stride < width
    } by {
        assert(width * height == height * width) by (nonlinear_arith);
        lemma_packed_byte_is_visible(luma, luma_stride, width, height, k);
    }
    assert forall|k: int| width * height <= k < width * height + width * (height / 2) implies {
        &&& #[trigger] layout[k] == chroma[source_offset(chroma_stride, width, k - width * height)]
        &&& source_offset(chroma_stride, width, k - width * height) % chroma_stride < width
    } by {
        assert(width * height == height * width) by (nonlinear_arith);
        assert(width * (height / 2) == (height / 2) * width) by (nonlinear_arith);
        lemma_packed_byte_is_visible(chroma, chroma_stride, width, height / 2, k - width * height);
    }
}

/// The unchecked packing, run on a zeroed buffer of `nv12_size` bytes,
/// leaves exactly the buffer that the checked packing returns.
pub proof fn lemma_unchecked_matches_checked(
    luma: Seq<u8>,
    luma_stride: int,
    chroma: Seq<u8>,
    chroma_stride: int,
    width: int,
    height: int,
)
    requires
        width >= 0,
        height >= 0,
        planes_valid(luma.len() as int, luma_stride, chroma.len() as int, chroma_stride, width, height),
    ensures
        packed_planes(luma, luma_stride, chroma, chroma_stride, width, height) + Seq::new(
            nv12_size(width, height) as nat,
            |i: int| 0u8,
        ).skip(width * height + width * (height / 2)) == nv12_layout(
            luma,
            luma_stride,
            chroma,
            chroma_stride,
            width,
            height,
        ),
{
    lemma_size_covers_planes(width, height);
    let zeros = Seq::new(nv12_size(width, height) as nat, |i: int| 0u8);
    let tail = Seq::new(
        (nv12_size(width, height) - width * height - width * (height / 2)) as nat,
        |i: int| 0u8,
    );
    assert(zeros.skip(width * height + width * (height / 2)) =~= tail);
}

} // verus!
