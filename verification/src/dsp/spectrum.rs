//! Bookkeeping of the live spectrum tap: which I/Q bytes a batch uses, when a batch is due,
//! the fft-shift reordering of bins, and the rolling waterfall of intensity rows.
//!
//! The floating-point stages (windowing, FFT, dB conversion, smoothing, quantisation to
//! intensities) happen outside this module; the waterfall receives each FFT row as `u8`
//! intensities in natural bin order.

use vstd::prelude::*;

verus! {

/// FFT length.
pub const FFT_SIZE: usize = 1024;

/// Number of historical FFT rows kept for the waterfall.
pub const WATERFALL_ROWS: usize = 256;

/// Number of cells in the waterfall grid.
pub const WATERFALL_CELLS: usize = WATERFALL_ROWS * FFT_SIZE;

/// Number of I/Q bytes one FFT consumes: an I byte and a Q byte per sample.
pub const IQ_BATCH_BYTES: usize = 2 * FFT_SIZE;

/// The natural (FFT output) bin shown at display position `shifted`: the upper half of the
/// natural order comes first, so 0 Hz lands at the centre.
pub open spec fn natural_bin(shifted: int) -> int {
    if shifted < FFT_SIZE / 2 {
        shifted + FFT_SIZE / 2
    } else {
        shifted - FFT_SIZE / 2
    }
}

/// A row of intensities in natural bin order, reordered for display.
pub open spec fn shifted_row(row: Seq<u8>) -> Seq<u8> {
    Seq::new(FFT_SIZE as nat, |k: int| row[natural_bin(k)])
}

/// The natural bin shown at display position `shifted`.
pub fn natural_bin_of(shifted: usize) -> (r: usize)
    requires
        shifted < FFT_SIZE,
    ensures
        r == natural_bin(shifted as int),
        r < FFT_SIZE,
{
    let half = FFT_SIZE / 2;
    if shifted < half {
        shifted + half
    } else {
        shifted - half
    }
}

/// The fft-shift reordering is its own inverse, so every natural bin is shown exactly once.
pub proof fn natural_bin_involution(k: int)
    requires
        0 <= k < FFT_SIZE,
    ensures
        0 <= natural_bin(k) < FFT_SIZE,
        natural_bin(natural_bin(k)) == k,
{
}

/// Display position `k` shows natural bin `k + 512` wrapped to the 1024 bins: the spectrum
/// is rotated by half its width, keeping each half in order.
pub proof fn fft_shift_rotates_by_half(k: int)
    requires
        0 <= k < 1024,
    ensures
        natural_bin(k) == (k + 512) % 1024,
{
}

/// Where the bytes of an FFT batch start: the last `IQ_BATCH_BYTES` bytes of a transfer are
/// used, the most recent samples. A transfer shorter than that yields no batch.
pub fn iq_batch_start(len: usize) -> (r: Option<usize>)
    ensures
        len < IQ_BATCH_BYTES ==> r is None,
        len >= IQ_BATCH_BYTES ==> r == Some((len - IQ_BATCH_BYTES) as usize),
{
    if len < IQ_BATCH_BYTES {
        None
    } else {
        Some(len - IQ_BATCH_BYTES)
    }
}

/// Whether a new FFT is due: always for the first batch, otherwise once at least the minimum
/// period has passed since the last accepted batch.
pub fn fft_due(since_last_nanos: Option<u128>, min_period_nanos: u128) -> (r: bool)
    ensures
        r == match since_last_nanos {
            None => true,
            Some(elapsed) => elapsed >= min_period_nanos,
        },
{
    match since_last_nanos {
        None => true,
        Some(elapsed) => elapsed >= min_period_nanos,
    }
}

/// The grid after a row (natural bin order) is written fft-shifted over row `head`.
pub open spec fn pushed_cells(cells: Seq<u8>, head: nat, row: Seq<u8>) -> Seq<u8> {
    Seq::new(
        cells.len(),
        |i: int|
            if head * FFT_SIZE <= i < (head + 1) * FFT_SIZE {
                row[natural_bin(i - head * FFT_SIZE)]
            } else {
                cells[i]
            },
    )
}

/// Row `r` of a row-major grid.
pub open spec fn row_of(cells: Seq<u8>, r: int) -> Seq<u8> {
    cells.subrange(r * FFT_SIZE, r * FFT_SIZE + FFT_SIZE)
}

/// The rows of a grid oldest first, walking forward from the head row.
pub open spec fn rows_oldest_first(cells: Seq<u8>, head: nat) -> Seq<Seq<u8>> {
    Seq::new(WATERFALL_ROWS as nat, |k: int| row_of(cells, (head + k) % (WATERFALL_ROWS as int)))
}

proof fn row_cell_bounds(r: int, h: int, j: int)
    by (nonlinear_arith)
    requires
        0 <= r < WATERFALL_ROWS,
        0 <= h < WATERFALL_ROWS,
        0 <= j < FFT_SIZE,
    ensures
        0 <= r * FFT_SIZE + j < WATERFALL_CELLS,
        (h * FFT_SIZE <= r * FFT_SIZE + j < (h + 1) * FFT_SIZE) <==> r == h,
{
}

/// Pushing a row scrolls the waterfall: read oldest first from the new head, the rows are
/// the previous rows without the oldest one, followed by the new row fft-shifted.
pub proof fn push_row_scrolls(cells: Seq<u8>, head: nat, row: Seq<u8>)
    requires
        cells.len() == WATERFALL_CELLS,
        head < WATERFALL_ROWS,
        row.len() == FFT_SIZE,
    ensures
        rows_oldest_first(pushed_cells(cells, head, row), (head + 1) % (WATERFALL_ROWS as nat))
            == rows_oldest_first(cells, head).drop_first().push(shifted_row(row)),
{
    let rows = WATERFALL_ROWS as int;
    let pc = pushed_cells(cells, head, row);
    let new_head = (head + 1) % (WATERFALL_ROWS as nat);
    let lhs = rows_oldest_first(pc, new_head);
    let rhs = rows_oldest_first(cells, head).drop_first().push(shifted_row(row));
    assert forall|k: int| 0 <= k < rows implies #[trigger] lhs[k] == rhs[k] by {
        let r = (new_head + k) % rows;
        if k < rows - 1 {
            assert(r == (head + (k + 1)) % rows);
            assert(r != head);
            assert forall|j: int| 0 <= j < FFT_SIZE implies #[trigger] row_of(pc, r)[j] == row_of(cells, r)[j] by {
                row_cell_bounds(r, head as int, j);
            }
            assert(row_of(pc, r) =~= row_of(cells, r));
        } else {
            assert(r == head);
            assert forall|j: int| 0 <= j < FFT_SIZE implies #[trigger] row_of(pc, r)[j] == shifted_row(row)[j] by {
                row_cell_bounds(r, head as int, j);
            }
            assert(row_of(pc, r) =~= shifted_row(row));
        }
    }
    assert(lhs =~= rhs);
}

/// A pushed row lands in the head row rotated by half its width: cell `k` of that row holds
/// natural bin `(k + 512) mod 1024`, and every other cell is unchanged.
pub proof fn pushed_row_is_rotated(cells: Seq<u8>, head: nat, row: Seq<u8>, i: int)
    requires
        cells.len() == WATERFALL_CELLS,
        head < WATERFALL_ROWS,
        row.len() == FFT_SIZE,
        0 <= i < WATERFALL_CELLS,
    ensures
        head * 1024 <= i < head * 1024 + 1024 ==> pushed_cells(cells, head, row)[i] == row[(i - head
            * 1024 + 512) % 1024],
        !(head * 1024 <= i < head * 1024 + 1024) ==> pushed_cells(cells, head, row)[i] == cells[i],
{
}

/// Rolling waterfall: `WATERFALL_ROWS` rows of `FFT_SIZE` intensities, stored row-major in a
/// flat ring. `head` is the row that holds the oldest data; each new row overwrites it.
pub struct Waterfall {
    cells: Vec<u8>,
    head: usize,
    generation: u64,
}

impl Waterfall {
    /// The grid has `WATERFALL_CELLS` cells and the head names one of its rows.
    pub closed spec fn wf(self) -> bool {
        &&& self.cells@.len() == WATERFALL_CELLS
        &&& self.head < WATERFALL_ROWS
    }

    /// A well-formed waterfall holds `WATERFALL_CELLS` cells and its head names a row.
    pub proof fn wf_shape(&self)
        requires
            self.wf(),
        ensures
            self.cells().len() == WATERFALL_CELLS,
            self.head() < WATERFALL_ROWS,
    {
    }

    /// The grid cells, row-major.
    pub closed spec fn cells(self) -> Seq<u8> {
        self.cells@
    }

    /// Index of the oldest row.
    pub closed spec fn head(self) -> nat {
        self.head as nat
    }

    /// Number of rows pushed so far, wrapping at `u64::MAX`.
    pub closed spec fn generation(self) -> u64 {
        self.generation
    }

    /// An all-zero waterfall with its oldest row at index 0 and no row pushed.
    pub fn new() -> (r: Self)
        ensures
            r.wf(),
            r.cells().len() == WATERFALL_CELLS,
            r.cells() == Seq::new(WATERFALL_CELLS as nat, |i: int| 0u8),
            r.head() == 0,
            r.generation() == 0,
    {
        let cells = vec![0u8; WATERFALL_CELLS];
        let r = Waterfall { cells, head: 0, generation: 0 };
        assert(r.cells() =~= Seq::new(WATERFALL_CELLS as nat, |i: int| 0u8));
        r
    }

    /// Index of the oldest row. The newest row is the one before it, cyclically.
    pub fn head_row(&self) -> (r: usize)
        requires
            self.wf(),
        ensures
            r == self.head(),
            r < WATERFALL_ROWS,
    {
        self.head
    }

    /// Number of rows pushed so far, wrapping at `u64::MAX`.
    pub fn generation_count(&self) -> (r: u64)
        ensures
            r == self.generation(),
    {
        self.generation
    }

    /// Push a new row, given in natural bin order: it is written fft-shifted over the oldest
    /// row, the head moves one row on, and the generation counter is bumped.
    pub fn push_row(&mut self, intensities: &[u8])
        requires
            old(self).wf(),
            intensities@.len() == FFT_SIZE,
        ensures
            final(self).wf(),
            final(self).cells() == pushed_cells(old(self).cells(), old(self).head(), intensities@),
            final(self).head() == (old(self).head() + 1) % (WATERFALL_ROWS as nat),
            final(self).generation() == old(self).generation().wrapping_add(1),
    {
        let head = self.head;
        let row_offset = head * FFT_SIZE;
        assert(row_offset + FFT_SIZE <= WATERFALL_CELLS) by (nonlinear_arith)
            requires
                head < WATERFALL_ROWS,
                row_offset == head * FFT_SIZE,
        ;
        let ghost old_cells = self.cells@;
        for shifted in 0..FFT_SIZE
            invariant
                self.cells@.len() == WATERFALL_CELLS,
                self.head == head,
                self.generation == old(self).generation,
                intensities@.len() == FFT_SIZE,
                row_offset + FFT_SIZE <= WATERFALL_CELLS,
                forall|i: int|
                    0 <= i < WATERFALL_CELLS ==> #[trigger] self.cells@[i] == if row_offset <= i
                        < row_offset + shifted {
                        intensities@[natural_bin(i - row_offset)]
                    } else {
                        old_cells[i]
                    },
        {
            let natural = natural_bin_of(shifted);
            self.cells.set(row_offset + shifted, intensities[natural]);
        }
        self.head = (head + 1) % WATERFALL_ROWS;
        self.generation = self.generation.wrapping_add(1);
        assert(self.cells@ =~= pushed_cells(old_cells, head as nat, intensities@));
    }

    /// Copy the grid into a caller-provided buffer, resizing it when its length differs, so
    /// that a reader can reuse one buffer across frames.
    pub fn copy_cells_into(&self, out: &mut Vec<u8>)
        requires
            self.wf(),
        ensures
            final(out)@ == self.cells(),
    {
        let n = self.cells.len();
        if out.len() != n {
            out.resize(n, 0);
        }
        for i in 0..n
            invariant
                n == self.cells@.len(),
                out@.len() == n,
                forall|j: int| 0 <= j < i ==> out@[j] == self.cells@[j],
        {
            out.set(i, self.cells[i]);
        }
        assert(out@ =~= self.cells@);
    }
}

} // verus!
