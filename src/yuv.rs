use crate::nv12::plane_rows;
use vstd::arithmetic::div_mod::lemma_fundamental_div_mod_converse;
use vstd::prelude::*;

verus! {

/// Whether `rows` rows of `width` bytes, `stride` apart from `start` on,
/// all lie within `len` bytes.
pub open spec fn rows_fit(len: int, start: int, stride: int, width: int, rows: int) -> bool {
    rows == 0 || start + (rows - 1) * stride + width <= len
}

/// The planar I420 image packed from a luma plane and a chroma buffer that
/// holds the U plane and, one plane later, the V plane; empty when any row
/// lies outside its buffer.
pub open spec fn i420_packed(
    lu: Seq<u8>,
    lu_stride: int,
    ch: Seq<u8>,
    ch_stride: int,
    width: int,
    height: int,
) -> Seq<u8> {
    let cw = width / 2;
    let chh = height / 2;
    let v_start = chh * ch_stride;
    if rows_fit(lu.len() as int, 0, lu_stride, width, height) && rows_fit(
        ch.len() as int,
        0,
        ch_stride,
        cw,
        chh,
    ) && rows_fit(ch.len() as int, v_start, ch_stride, cw, chh) {
        plane_rows(lu, lu_stride, width, height) + plane_rows(ch, ch_stride, cw, chh) + plane_rows(
            ch.skip(v_start),
            ch_stride,
            cw,
            chh,
        )
    } else {
        Seq::empty()
    }
}

proof fn lemma_row_step(row: int, stride: int)
    requires
        row >= 0,
        stride >= 0,
    ensures
        (row + 1) * stride == row * stride + stride,
        row * stride >= 0,
{
    assert((row + 1) * stride == row * stride + stride) by (nonlinear_arith);
    assert(row * stride >= 0) by (nonlinear_arith)
        requires
            row >= 0,
            stride >= 0,
    ;
}

proof fn lemma_rows_monotone(row: int, rows: int, stride: int)
    requires
        0 <= row < rows,
        stride >= 0,
    ensures
        row * stride <= (rows - 1) * stride,
{
    assert(row * stride <= (rows - 1) * stride) by (nonlinear_arith)
        requires
            row <= rows - 1,
            stride >= 0,
    ;
}

/// Appends `rows` rows of `width` bytes, `stride` apart from `start` on,
/// to `out`; gives up, returning false, at the first row that lies outside
/// `src`.
fn append_rows(
    out: &mut Vec<u8>,
    src: &Vec<u8>,
    start: usize,
    stride: usize,
    width: usize,
    rows: usize,
) -> (r: bool)
    ensures
        r == rows_fit(src@.len() as int, start as int, stride as int, width as int, rows as int),
        r ==> final(out)@ == old(out)@ + plane_rows(
            src@.skip(start as int),
            stride as int,
            width as int,
            rows as int,
        ),
{
    let ghost want = plane_rows(src@.skip(start as int), stride as int, width as int, rows as int);
    let ghost base = old(out)@;
    let src_len = src.len();
    let mut row: usize = 0;
    while row < rows
        invariant
            row <= rows,
            src_len == src@.len(),
            want == plane_rows(src@.skip(start as int), stride as int, width as int, rows as int),
            row > 0 ==> start + (row - 1) * stride + width <= src@.len(),
            out@.len() == base.len() + row * width,
            forall|k: int| 0 <= k < base.len() ==> #[trigger] out@[k] == base[k],
            forall|k: int|
                0 <= k < row * width ==> #[trigger] out@[base.len() + k] == src@[start + (k
                    / width as int) * stride + k % (width as int)],
        decreases rows - row,
    {
        proof {
            lemma_row_step(row as int, stride as int);
            lemma_row_step(row as int, width as int);
        }
        let row_start = match row.checked_mul(stride) {
            Some(offset) => start.checked_add(offset),
            None => None,
        };
        let row_end = match row_start {
            Some(s) => s.checked_add(width),
            None => None,
        };
        let (row_start, row_end) = match (row_start, row_end) {
            (Some(s), Some(e)) if e <= src_len => (s, e),
            _ => {
                proof {
                    lemma_rows_monotone(row as int, rows as int, stride as int);
                }
                return false;
            },
        };
        let mut x: usize = row_start;
        while x < row_end
            invariant
                row_start <= x <= row_end,
                row_start == start + row * stride,
                row_end == row_start + width,
                row_end <= src@.len(),
                out@.len() == base.len() + row * width + (x - row_start),
                forall|k: int| 0 <= k < base.len() ==> #[trigger] out@[k] == base[k],
                forall|k: int|
                    0 <= k < row * width + (x - row_start) ==> #[trigger] out@[base.len() + k]
                        == src@[start + (k / width as int) * stride + k % (width as int)],
            decreases row_end - x,
        {
            proof {
                let k = row * width + (x - row_start);
                lemma_fundamental_div_mod_converse(k, width as int, row as int, x - row_start);
            }
            out.push(src[x]);
            x = x + 1;
        }
        row = row + 1;
    }
    proof {
        if rows > 0 {
            assert(rows_fit(src@.len() as int, start as int, stride as int, width as int, rows as int));
        }
        assert forall|k: int| 0 <= k < rows * width implies #[trigger] want[k] == src@[start + (k
            / width as int) * stride + k % (width as int)] by {
            assert(width > 0) by (nonlinear_arith)
                requires
                    k < rows * width,
                    0 <= k,
            ;
            vstd::arithmetic::div_mod::lemma_fundamental_div_mod(k, width as int);
            vstd::arithmetic::div_mod::lemma_mod_pos_bound(k, width as int);
            assert(k / width as int <= rows - 1) by (nonlinear_arith)
                requires
                    k < rows * width,
                    k == width * (k / width as int) + k % (width as int),
                    k % (width as int) >= 0,
                    width > 0,
            ;
            lemma_rows_monotone(k / width as int, rows as int, stride as int);
        }
        assert(rows * width == width * rows) by (nonlinear_arith);
        assert forall|i: int| 0 <= i < out@.len() implies #[trigger] out@[i] == (base + want)[i] by {
            if i >= base.len() {
                let k = i - base.len();
                assert(out@[base.len() + k] == want[k]);
            }
        }
        assert(out@ =~= base + want);
    }
    true
}

/// Packs a luma plane and the U and V planes that follow each other in
/// `ch_data`, all with row padding, into planar I420: the luma rows
/// (`width` bytes each), then the U rows and the V rows (`width / 2` bytes
/// each, `height / 2` rows). The result is empty when a row lies outside
/// its buffer, and when a dimension or stride is negative.
pub fn get_yuv_corrected(
    lu_data: &Vec<u8>,
    lu_stride: i32,
    ch_data: &Vec<u8>,
    ch_stride: i32,
    width: i32,
    height: i32,
) -> (r: Vec<u8>)
    ensures
        r@ == if lu_stride < 0 || ch_stride < 0 || width < 0 || height < 0 {
            Seq::empty()
        } else {
            i420_packed(
                lu_data@,
                lu_stride as int,
                ch_data@,
                ch_stride as int,
                width as int,
                height as int,
            )
        },
{
    if lu_stride < 0 || ch_stride < 0 || width < 0 || height < 0 {
        return Vec::new();
    }
    let width_u = width as usize;
    let height_u = height as usize;
    let lu_stride_u = lu_stride as usize;
    let ch_stride_u = ch_stride as usize;
    let ch_width_u = (width / 2) as usize;
    let ch_height_u = (height / 2) as usize;

    let mut result: Vec<u8> = Vec::new();
    if !append_rows(&mut result, lu_data, 0, lu_stride_u, width_u, height_u) {
        return Vec::new();
    }
    if !append_rows(&mut result, ch_data, 0, ch_stride_u, ch_width_u, ch_height_u) {
        return Vec::new();
    }
    proof {
        assert(ch_height_u * ch_stride_u <= 0x7fff_ffff * 0x7fff_ffff) by (nonlinear_arith)
            requires
                ch_height_u <= 0x7fff_ffff,
                ch_stride_u <= 0x7fff_ffff,
        ;
    }
    let v_start = (ch_height_u as u64) * (ch_stride_u as u64);
    if v_start > ch_data.len() as u64 {
        proof {
            assert(ch_height_u > 0) by (nonlinear_arith)
                requires
                    v_start == ch_height_u * ch_stride_u,
                    v_start > 0,
            ;
            lemma_row_step((ch_height_u - 1) as int, ch_stride_u as int);
        }
        return Vec::new();
    }
    if !append_rows(&mut result, ch_data, v_start as usize, ch_stride_u, ch_width_u, ch_height_u) {
        return Vec::new();
    }
    proof {
        assert(lu_data@.skip(0) =~= lu_data@);
        assert(ch_data@.skip(0) =~= ch_data@);
    }
    result
}

} // verus!
