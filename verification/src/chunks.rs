//! Column-chunk partition of a frame for the worker pool.
//!
//! A frame of `width` columns is split into contiguous chunks. The number of
//! chunks is `ceil(width / chunk_size)`; a worker assigned chunk `i` then
//! derives the column range it owns from the chunk index and the chunk count
//! alone. The partition covers every column exactly once.

use vstd::arithmetic::div_mod::{
    lemma_div_is_ordered_by_denominator, lemma_div_pos_is_pos, lemma_fundamental_div_mod,
    lemma_remainder_lower, lemma_remainder_upper,
};
use vstd::prelude::*;

verus! {

/// Number of sections a frame of `width` columns is split into when each
/// section holds at most `chunk_size` columns.
pub open spec fn spec_chunk_count(width: int, chunk_size: int) -> int {
    (width - 1) / chunk_size + 1
}

/// Width of one section when `width` columns are split into
/// `number_of_sections` sections of equal size (the last may be shorter).
pub open spec fn spec_section_width(width: int, number_of_sections: int) -> int {
    (width - 1) / number_of_sections + 1
}

/// First column of a section.
pub open spec fn spec_section_start(section_number: int, number_of_sections: int, width: int) -> int {
    spec_section_width(width, number_of_sections) * section_number
}

/// One past the last column of a section.
pub open spec fn spec_section_end(section_number: int, number_of_sections: int, width: int) -> int {
    let raw = spec_section_width(width, number_of_sections) * (section_number + 1);
    if raw <= width {
        raw
    } else {
        width
    }
}

/// Column `x` is owned by section `section_number`.
pub open spec fn column_in_section(
    x: int,
    section_number: int,
    number_of_sections: int,
    width: int,
) -> bool {
    spec_section_start(section_number, number_of_sections, width) <= x
        < spec_section_end(section_number, number_of_sections, width)
}

/// Number of column chunks a frame of the given width is split into.
pub fn chunk_count(width: usize, chunk_size: usize) -> (n: usize)
    requires
        width >= 1,
        chunk_size >= 1,
    ensures
        n == spec_chunk_count(width as int, chunk_size as int),
        1 <= n <= width,
{
    proof {
        lemma_div_is_ordered_by_denominator((width - 1) as int, 1, chunk_size as int);
    }
    (width - 1) / chunk_size + 1
}

/// Column range `[start, end)` owned by one section, as the worker for that
/// section computes it.
pub fn section_bounds(section_number: usize, number_of_sections: usize, image_width: usize) -> (r:
    (usize, usize))
    requires
        1 <= number_of_sections <= image_width,
        section_number < number_of_sections,
        image_width <= usize::MAX / 2,
    ensures
        r.0 == spec_section_start(section_number as int, number_of_sections as int, image_width as int),
        r.1 == spec_section_end(section_number as int, number_of_sections as int, image_width as int),
        r.1 <= image_width,
{
    let section_width = (image_width - 1) / number_of_sections + 1;
    proof {
        lemma_section_width_bounds(image_width as int, number_of_sections as int);
        assert(section_width * section_number <= section_width * (number_of_sections - 1))
            by (nonlinear_arith)
            requires
                section_number <= number_of_sections - 1,
                section_width >= 1,
        ;
        assert(section_width * (number_of_sections - 1) <= image_width + number_of_sections - 1
            - section_width) by (nonlinear_arith)
            requires
                section_width * number_of_sections <= image_width + number_of_sections - 1,
                section_width >= 1,
        ;
        assert(section_width * (section_number + 1) == section_width * section_number
            + section_width) by (nonlinear_arith);
    }
    let start = section_width * section_number;
    let raw_end_hi = section_width * (section_number + 1);
    let end = if raw_end_hi <= image_width {
        raw_end_hi
    } else {
        image_width
    };
    (start, end)
}

/// The section width is at least 1, and `number_of_sections` sections of that
/// width are enough to cover the frame without reaching past
/// `width + number_of_sections - 1`.
proof fn lemma_section_width_bounds(width: int, n: int)
    requires
        1 <= n <= width,
    ensures
        spec_section_width(width, n) >= 1,
        spec_section_width(width, n) * n >= width,
        spec_section_width(width, n) * n <= width + n - 1,
{
    let q = (width - 1) / n;
    lemma_fundamental_div_mod(width - 1, n);
    lemma_remainder_lower(width - 1, n);
    lemma_remainder_upper(width - 1, n);
    lemma_div_pos_is_pos(width - 1, n);
    assert((q + 1) * n == q * n + n) by (nonlinear_arith);
}

/// Every column of the frame belongs to exactly one section: the one with
/// index `x / section_width`. This is the partition the scheduler relies on:
/// no column is traced twice and none is skipped, for any frame width and any
/// section count between 1 and the width.
pub proof fn lemma_sections_partition_columns(x: int, number_of_sections: int, width: int)
    requires
        1 <= number_of_sections <= width,
        0 <= x < width,
    ensures
        ({
            let sw = spec_section_width(width, number_of_sections);
            let i = x / sw;
            &&& 0 <= i < number_of_sections
            &&& column_in_section(x, i, number_of_sections, width)
            &&& forall|j: int|
                0 <= j < number_of_sections && j != i ==> !column_in_section(
                    x,
                    j,
                    number_of_sections,
                    width,
                )
        }),
{
    let n = number_of_sections;
    let sw = spec_section_width(width, n);
    lemma_section_width_bounds(width, n);
    let i = x / sw;
    lemma_fundamental_div_mod(x, sw);
    lemma_remainder_lower(x, sw);
    lemma_remainder_upper(x, sw);
    lemma_div_pos_is_pos(x, sw);
    assert(sw * i <= x < sw * (i + 1)) by {
        assert(sw * (i + 1) == sw * i + sw) by (nonlinear_arith);
    }
    assert(i < n) by {
        if i >= n {
            assert(sw * i >= sw * n) by (nonlinear_arith)
                requires
                    i >= n,
                    sw >= 1,
            ;
        }
    }
    assert forall|j: int| 0 <= j < n && j != i implies !column_in_section(x, j, n, width) by {
        if j < i {
            assert(sw * (j + 1) <= sw * i) by (nonlinear_arith)
                requires
                    j + 1 <= i,
                    sw >= 1,
            ;
        } else {
            assert(sw * j >= sw * (i + 1)) by (nonlinear_arith)
                requires
                    j >= i + 1,
                    sw >= 1,
            ;
        }
    }
}

/// Seconds between two snapshot saves of the in-progress frame, scaled to the
/// number of columns the render has to finish.
pub fn dump_interval_secs(lines_total: usize) -> (s: usize)
    requires
        lines_total <= usize::MAX / 10,
    ensures
        s == 10 * lines_total as int / 250,
{
    10 * lines_total / 250
}

} // verus!
