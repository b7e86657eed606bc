//! What the panels of a figure of vector fields show.

use vstd::prelude::*;

verus! {

/// The number of arrows that a panel holds at most.
pub const MOST_ARROWS: usize = 400;

/// How far apart the cells with an arrow are, so that a panel does not hold too many.
pub open spec fn arrow_stride(cells: nat) -> nat {
    let stride = (cells + MOST_ARROWS - 1) / MOST_ARROWS as int;
    if stride > 1 {
        stride as nat
    } else {
        1
    }
}

/// The number of cells with an arrow.
pub open spec fn arrow_count(cells: nat) -> nat {
    ((cells + arrow_stride(cells) - 1) / arrow_stride(cells) as int) as nat
}

/// Lists the cells that are given an arrow: the first, and then every one a stride apart.
pub fn arrow_cells(cells: usize) -> (places: Vec<usize>)
    ensures
        places.len() == arrow_count(cells as nat),
        forall|i: int|
            0 <= i < places.len() ==> #[trigger] places@[i] == i * arrow_stride(cells as nat),
        forall|i: int| 0 <= i < places.len() ==> #[trigger] places@[i] < cells,
{
    let full: usize = cells / MOST_ARROWS;
    let stride: usize = if cells % MOST_ARROWS > 0 {
        full + 1
    } else if full > 1 {
        full
    } else {
        1
    };
    assert(stride == arrow_stride(cells as nat));
    let mut places: Vec<usize> = Vec::new();
    let mut next: usize = 0;
    assert(0 * stride == 0 && (0 - 1) * stride == -stride) by (nonlinear_arith);
    while next < cells
        invariant_except_break
            stride == arrow_stride(cells as nat),
            stride > 0,
            next == places.len() * stride,
            next < cells || cells == 0,
            forall|i: int| 0 <= i < places.len() ==> #[trigger] places@[i] == i * stride,
            forall|i: int| 0 <= i < places.len() ==> #[trigger] places@[i] < cells,
            (places.len() - 1) * stride < cells,
        ensures
            stride == arrow_stride(cells as nat),
            stride > 0,
            forall|i: int| 0 <= i < places.len() ==> #[trigger] places@[i] == i * stride,
            forall|i: int| 0 <= i < places.len() ==> #[trigger] places@[i] < cells,
            (places.len() - 1) * stride < cells <= places.len() * stride,
        decreases cells - next,
    {
        let ghost before = places.len() as int;
        places.push(next);
        assert((before + 1) * stride == before * stride + stride) by (nonlinear_arith);
        if cells - next <= stride {
            break;
        }
        next = next + stride;
    }
    proof {
        lemma_rounded_up(cells as int, stride as int, places.len() as int);
    }
    places
}

proof fn lemma_rounded_up(total: int, part: int, count: int)
    requires
        0 < part,
        (count - 1) * part < total <= count * part,
    ensures
        (total + part - 1) / part == count,
{
    let rest = total - 1 - (count - 1) * part;
    assert(0 <= rest < part) by (nonlinear_arith)
        requires
            (count - 1) * part < total <= count * part,
            rest == total - 1 - (count - 1) * part,
    ;
    assert(total + part - 1 == count * part + rest) by (nonlinear_arith)
        requires
            rest == total - 1 - (count - 1) * part,
    ;
    vstd::arithmetic::div_mod::lemma_fundamental_div_mod_converse(
        total + part - 1,
        part,
        count,
        rest,
    );
}

/// No panel holds more arrows than it may, and one with any cells holds at least one.
pub proof fn lemma_arrow_count(cells: nat)
    ensures
        arrow_count(cells) <= MOST_ARROWS,
        cells > 0 ==> arrow_count(cells) >= 1,
        cells <= MOST_ARROWS ==> arrow_count(cells) == cells,
{
    let stride = arrow_stride(cells) as int;
    let total = cells as int;
    assert(total <= MOST_ARROWS * stride);
    assert((total + stride - 1) / stride <= MOST_ARROWS) by (nonlinear_arith)
        requires
            total <= 400 * stride,
            0 < stride,
            MOST_ARROWS == 400,
    ;
    assert(total > 0 ==> (total + stride - 1) / stride >= 1) by (nonlinear_arith)
        requires
            0 < stride,
    ;
    assert((total + stride - 1) / stride >= 0) by (nonlinear_arith)
        requires
            0 < stride,
            0 <= total,
    ;
    if cells <= MOST_ARROWS {
        assert(stride == 1);
    }
}

/// The numbers under the title of a panel, as texts.
#[derive(Debug)]
pub struct PanelNumbers {
    pub l2_error: String,
    pub path_contrast: String,
    pub hole_loop: String,
    pub leakage: String,
}

/// The line under the title of a panel.
pub open spec fn number_line(numbers: PanelNumbers) -> Seq<char> {
    "E1="@ + numbers.l2_error@ + "  contrast="@ + numbers.path_contrast@ + "  loop="@
        + numbers.hole_loop@ + "  leakage="@ + numbers.leakage@
}

/// Writes the lines over a panel: its title, and its numbers where it shows a model.
pub fn panel_lines(title: &str, numbers: &Option<PanelNumbers>) -> (lines: Vec<String>)
    ensures
        match numbers {
            Some(given) => lines.len() == 2 && lines@[0]@ == title@ && lines@[1]@ == number_line(
                *given,
            ),
            None => lines.len() == 1 && lines@[0]@ == title@,
        },
{
    let mut lines: Vec<String> = Vec::new();
    lines.push(String::from_str(title));
    match numbers {
        Some(given) => {
            let mut line = String::from_str("E1=");
            line.append(given.l2_error.as_str());
            line.append("  contrast=");
            line.append(given.path_contrast.as_str());
            line.append("  loop=");
            line.append(given.hole_loop.as_str());
            line.append("  leakage=");
            line.append(given.leakage.as_str());
            lines.push(line);
        },
        None => {},
    }
    lines
}

} // verus!
