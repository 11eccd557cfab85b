use vstd::prelude::*;

verus! {

/// The number of rows that each thread renders at least.
pub open spec fn section_base(rows: int, threads: int) -> int {
    rows / threads
}

/// The first row of the section that thread `row` renders.
pub open spec fn section_offset(rows: int, threads: int, row: int) -> int {
    let rem = rows % threads;
    section_base(rows, threads) * row + if row < rem {
        row
    } else {
        rem
    }
}

/// The number of rows that thread `row` renders: the first `rows % threads`
/// threads take one row more than the others.
pub open spec fn section_height(rows: int, threads: int, row: int) -> int {
    section_base(rows, threads) + if row < rows % threads {
        1int
    } else {
        0
    }
}

/// Renders with several producers at once, each one on a horizontal section of
/// the rows.
pub struct ThreadedProducer<F> {
    threads: usize,
    make_producer: F,
}

impl<F> ThreadedProducer<F> {
    pub fn new(threads: usize, make_producer: F) -> (r: Self)
        ensures
            r.threads() == threads,
            r.make_producer() == make_producer,
    {
        Self { threads, make_producer }
    }

    pub closed spec fn threads(&self) -> usize {
        self.threads
    }

    /// The amount of threads (and of sections).
    pub fn thread_count(&self) -> (r: usize)
        ensures
            r == self.threads(),
    {
        self.threads
    }

    /// The function that makes each thread's producer.
    pub fn make_producer_mut(&mut self) -> (r: &mut F)
        ensures
            *r == old(self).make_producer(),
            final(self).threads() == old(self).threads(),
            final(self).make_producer() == *final(r),
    {
        &mut self.make_producer
    }

    pub closed spec fn make_producer(&self) -> F {
        self.make_producer
    }

    /// The section of `rows` rows that thread `section_row` renders: its first
    /// row and its number of rows.
    pub fn section(&self, rows: u64, section_row: u64) -> (r: (u64, u64))
        requires
            self.threads() > 0,
            section_row < self.threads(),
        ensures
            r.0 == section_offset(rows as int, self.threads() as int, section_row as int),
            r.1 == section_height(rows as int, self.threads() as int, section_row as int),
    {
        let threads = self.threads as u64;
        let section_h = rows / threads;
        let section_h_rem = rows % threads;
        proof {
            lemma_base_times_row(rows as int, threads as int, section_row as int);
        }
        let extra = if section_row < section_h_rem {
            section_row
        } else {
            section_h_rem
        };
        let offset = section_h * section_row + extra;
        let height = section_h + if section_row < section_h_rem {
            1u64
        } else {
            0u64
        };
        (offset, height)
    }
}

/// `rows / threads * row` stays within `rows` for `row <= threads`, leaving
/// room for `min(row, rows % threads)`.
proof fn lemma_base_times_row(rows: int, threads: int, row: int)
    requires
        0 <= rows,
        0 < threads,
        0 <= row <= threads,
    ensures
        0 <= section_base(rows, threads) * row,
        section_base(rows, threads) * row + (if row < rows % threads {
            row
        } else {
            rows % threads
        }) <= rows,
        section_base(rows, threads) * threads + rows % threads == rows,
        section_base(rows, threads) <= section_base(rows, threads) * threads,
        0 <= rows % threads < threads,
{
    let b = rows / threads;
    let m = rows % threads;
    vstd::arithmetic::div_mod::lemma_fundamental_div_mod(rows, threads);
    assert(0 <= b * row <= b * threads) by (nonlinear_arith)
        requires
            0 <= b,
            0 <= row <= threads,
    ;
    assert(b * threads == threads * b) by (nonlinear_arith);
    assert(b <= b * threads) by (nonlinear_arith)
        requires
            0 <= b,
            1 <= threads,
    ;
    vstd::arithmetic::div_mod::lemma_mod_pos_bound(rows, threads);
}

/// The sections split the rows in order and without gaps or overlaps: the
/// first starts at row zero, each one ends where the next starts, the last ends
/// at `rows`, and the heights differ by at most one.
pub proof fn lemma_sections_tile(rows: int, threads: int, row: int)
    requires
        0 <= rows,
        0 < threads,
        0 <= row < threads,
    ensures
        section_offset(rows, threads, 0) == 0,
        section_offset(rows, threads, row) + section_height(rows, threads, row)
            == section_offset(rows, threads, row + 1),
        section_offset(rows, threads, threads) == rows,
        section_base(rows, threads) <= section_height(rows, threads, row) <= section_base(
            rows,
            threads,
        ) + 1,
        0 <= section_offset(rows, threads, row),
        section_offset(rows, threads, row) + section_height(rows, threads, row) <= rows,
{
    let b = section_base(rows, threads);
    lemma_base_times_row(rows, threads, row);
    lemma_base_times_row(rows, threads, row + 1);
    lemma_base_times_row(rows, threads, threads);
    assert(b * (row + 1) == b * row + b) by (nonlinear_arith);
    assert(b * 0 == 0);
    vstd::arithmetic::div_mod::lemma_mod_pos_bound(rows, threads);
}

} // verus!
