use vstd::prelude::*;
use vstd::string::StringExecFns;

use crate::cpu::{CPU, CpuV};

verus! {

// Text rendering of the framebuffer, the dump the debugger collaborator
// shows an operator.  Building the text is core logic; printing it is not
// and stays with the collaborator.

/// A dashed border line: three blanks, one dash per screen column, newline.
pub open spec fn spec_dash_line() -> Seq<char> {
    "   "@ + "----------------------------------------------------------------"@ + "\n"@
}

/// The label character for one decimal digit.
pub open spec fn spec_digit_str(d: int) -> Seq<char> {
    if d == 0 {
        "0"@
    } else if d == 1 {
        "1"@
    } else if d == 2 {
        "2"@
    } else if d == 3 {
        "3"@
    } else if d == 4 {
        "4"@
    } else if d == 5 {
        "5"@
    } else if d == 6 {
        "6"@
    } else if d == 7 {
        "7"@
    } else if d == 8 {
        "8"@
    } else {
        "9"@
    }
}

/// How one pixel prints: a filled block when lit, a blank when dark.
pub open spec fn spec_pixel_str(b: bool) -> Seq<char> {
    if b {
        "\u{25A0}"@
    } else {
        " "@
    }
}

/// The first `x` pixel characters of screen row `y`, leftmost first.
pub open spec fn spec_row_pixels(c: CpuV, y: int, x: int) -> Seq<char>
    decreases x,
{
    if x <= 0 {
        Seq::empty()
    } else {
        spec_row_pixels(c, y, x - 1) + spec_pixel_str(c.vram[(x - 1) * 32 + y])
    }
}

/// One rendered screen row: two-digit label, the 64 pixels between bars,
/// newline.
pub open spec fn spec_row(c: CpuV, y: int) -> Seq<char> {
    spec_digit_str(y / 10) + spec_digit_str(y % 10) + "|"@ + spec_row_pixels(c, y, 64) + "|\n"@
}

/// The first `y` rendered screen rows, top first.
pub open spec fn spec_rows(c: CpuV, y: int) -> Seq<char>
    decreases y,
{
    if y <= 0 {
        Seq::empty()
    } else {
        spec_rows(c, y - 1) + spec_row(c, y - 1)
    }
}

/// The complete framebuffer dump: all 32 rows between two dashed borders.
pub open spec fn spec_view(c: CpuV) -> Seq<char> {
    spec_dash_line() + spec_rows(c, 32) + spec_dash_line()
}

/// The label text for one decimal digit.
fn digit_str(d: u8) -> (r: &'static str)
    requires
        d < 10,
    ensures
        r@ == spec_digit_str(d as int),
{
    match d {
        0 => "0",
        1 => "1",
        2 => "2",
        3 => "3",
        4 => "4",
        5 => "5",
        6 => "6",
        7 => "7",
        8 => "8",
        _ => "9",
    }
}

impl CPU {
    /// Renders the framebuffer as text: one line per screen row between
    /// dashed borders, each row labeled with its two-digit number and drawn
    /// with a filled block per lit pixel.
    pub fn view(&self) -> (r: String)
        requires
            self.wf(),
        ensures
            r@ == spec_view(self.abs()),
    {
        let mut out = String::new();
        out.append("   ");
        out.append("----------------------------------------------------------------");
        out.append("\n");
        proof {
            assert(out@ =~= spec_dash_line() + spec_rows(self.abs(), 0));
        }
        let mut y: usize = 0;
        while y < 32
            invariant
                self.wf(),
                y <= 32,
                out@ == spec_dash_line() + spec_rows(self.abs(), y as int),
            decreases 32 - y,
        {
            out.append(digit_str((y / 10) as u8));
            out.append(digit_str((y % 10) as u8));
            out.append("|");
            proof {
                assert(out@ =~= spec_dash_line() + spec_rows(self.abs(), y as int) + spec_digit_str(
                    y as int / 10,
                ) + spec_digit_str(y as int % 10) + "|"@ + spec_row_pixels(self.abs(), y as int, 0));
            }
            let mut x: usize = 0;
            while x < 64
                invariant
                    self.wf(),
                    y < 32,
                    x <= 64,
                    out@ == spec_dash_line() + spec_rows(self.abs(), y as int) + spec_digit_str(
                        y as int / 10,
                    ) + spec_digit_str(y as int % 10) + "|"@ + spec_row_pixels(
                        self.abs(),
                        y as int,
                        x as int,
                    ),
                decreases 64 - x,
            {
                let pixel = self.vram[x * 32 + y];
                if pixel {
                    out.append("\u{25A0}");
                } else {
                    out.append(" ");
                }
                x = x + 1;
            }
            out.append("|");
            out.append("\n");
            proof {
                assert("|"@ + "\n"@ =~= "|\n"@) by {
                    reveal_strlit("|");
                    reveal_strlit("\n");
                    reveal_strlit("|\n");
                }
                assert(out@ =~= spec_dash_line() + spec_rows(self.abs(), y as int + 1));
            }
            y = y + 1;
        }
        out.append("   ");
        out.append("----------------------------------------------------------------");
        out.append("\n");
        proof {
            assert(out@ =~= spec_view(self.abs()));
        }
        out
    }
}

} // verus!
