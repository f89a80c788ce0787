use vstd::prelude::*;

use crate::cpu::{CPU, CpuV, mask12};

verus! {

// Sprite drawing (DXYN).  A sprite is `n` bytes read from memory at the
// index register; byte `r` paints row `r`, its most significant bit at the
// left.  The origin wraps into the 64x32 frame via modulo on the starting
// coordinates only; columns past the right edge and rows past the bottom
// edge are clipped, never wrapped.  Pixels combine by XOR, and VF reports
// whether any set sprite bit landed on an already-set pixel.

/// Whether bit `c` (counted from the left, 0-based) of sprite byte `b` is
/// set.
pub open spec fn spec_bit(b: u8, c: int) -> bool {
    if c == 0 {
        b & 0x80 != 0
    } else if c == 1 {
        b & 0x40 != 0
    } else if c == 2 {
        b & 0x20 != 0
    } else if c == 3 {
        b & 0x10 != 0
    } else if c == 4 {
        b & 0x08 != 0
    } else if c == 5 {
        b & 0x04 != 0
    } else if c == 6 {
        b & 0x02 != 0
    } else if c == 7 {
        b & 0x01 != 0
    } else {
        false
    }
}

/// Whether a draw with origin `(x0, y0)` flips pixel `(px, py)` once its
/// first `i` rows, plus the first `c` columns of row `i`, have been painted.
/// The fully painted sprite of `n` rows is the case `i == n`, `c == 0`.
pub open spec fn spec_part_hit(
    pre: CpuV,
    x0: int,
    y0: int,
    i: int,
    c: int,
    px: int,
    py: int,
) -> bool {
    let r = py - y0;
    let col = px - x0;
    &&& 0 <= r
    &&& (r < i || (r == i && col < c))
    &&& py < 32
    &&& 0 <= col < 8
    &&& px < 64
    &&& spec_bit(pre.mem[mask12(pre.index + r) as int], col)
}

/// The framebuffer after the partial draw: every hit pixel is flipped.
pub open spec fn spec_part_vram(pre: CpuV, x0: int, y0: int, i: int, c: int) -> Seq<bool> {
    Seq::new(
        2048,
        |p: int|
            if spec_part_hit(pre, x0, y0, i, c, p / 32, p % 32) {
                !pre.vram[p]
            } else {
                pre.vram[p]
            },
    )
}

/// Whether the partial draw turned off a pixel that was on: the collision
/// that DXYN records in VF.
pub open spec fn spec_part_collision(pre: CpuV, x0: int, y0: int, i: int, c: int) -> bool {
    exists|px: int, py: int|
        spec_part_hit(pre, x0, y0, i, c, px, py) && pre.vram[px * 32 + py]
}

/// The whole CPU state after `Display(x, y, n)`: the framebuffer XOR-ed
/// with the sprite, and VF holding 1 exactly when a collision occurred.
pub open spec fn spec_display(pre: CpuV, x: u8, y: u8, n: u8) -> CpuV {
    let x0 = (pre.vs[x as int] % 64) as int;
    let y0 = (pre.vs[y as int] % 32) as int;
    CpuV {
        vram: spec_part_vram(pre, x0, y0, n as int, 0),
        vs: pre.vs.update(
            15,
            if spec_part_collision(pre, x0, y0, n as int, 0) {
                1u8
            } else {
                0u8
            },
        ),
        ..pre
    }
}

/// The bit the drawing loop extracts by shifting equals `spec_bit`.
proof fn lemma_sprite_bit(b: u8, col: u8)
    requires
        col < 8,
    ensures
        ((b >> ((7 - col) as u8)) & 0x01 == 1) <==> spec_bit(b, col as int),
{
    assert(((b >> ((7 - col) as u8)) & 0x01 == 1) <==> (if col == 0 {
        b & 0x80 != 0
    } else if col == 1 {
        b & 0x40 != 0
    } else if col == 2 {
        b & 0x20 != 0
    } else if col == 3 {
        b & 0x10 != 0
    } else if col == 4 {
        b & 0x08 != 0
    } else if col == 5 {
        b & 0x04 != 0
    } else if col == 6 {
        b & 0x02 != 0
    } else {
        b & 0x01 != 0
    })) by (bit_vector)
        requires
            col < 8,
    ;
}

/// Two partial draws record the same collision flag when every hit of the
/// first is a hit of the second and every hit of the second on a lit pixel
/// is a hit of the first.
proof fn lemma_collision_eq(pre: CpuV, x0: int, y0: int, i: int, c: int, i2: int, c2: int)
    requires
        forall|qx: int, qy: int| #[trigger]
            spec_part_hit(pre, x0, y0, i, c, qx, qy) ==> spec_part_hit(
                pre,
                x0,
                y0,
                i2,
                c2,
                qx,
                qy,
            ),
        forall|qx: int, qy: int| #[trigger]
            spec_part_hit(pre, x0, y0, i2, c2, qx, qy) && pre.vram[qx * 32 + qy]
                ==> spec_part_hit(pre, x0, y0, i, c, qx, qy),
    ensures
        spec_part_collision(pre, x0, y0, i2, c2) == spec_part_collision(pre, x0, y0, i, c),
{
    if spec_part_collision(pre, x0, y0, i, c) {
        let (qx, qy) = choose|qx: int, qy: int|
            spec_part_hit(pre, x0, y0, i, c, qx, qy) && pre.vram[qx * 32 + qy];
        assert(spec_part_hit(pre, x0, y0, i2, c2, qx, qy) && pre.vram[qx * 32 + qy]);
        assert(spec_part_collision(pre, x0, y0, i2, c2));
    }
    if spec_part_collision(pre, x0, y0, i2, c2) {
        let (qx, qy) = choose|qx: int, qy: int|
            spec_part_hit(pre, x0, y0, i2, c2, qx, qy) && pre.vram[qx * 32 + qy];
        assert(spec_part_hit(pre, x0, y0, i, c, qx, qy) && pre.vram[qx * 32 + qy]);
        assert(spec_part_collision(pre, x0, y0, i, c));
    }
}

impl CPU {
    /// Draws the `n`-byte sprite at memory[index..] to the screen at the
    /// coordinates held in registers `x` and `y`.
    pub(crate) fn op_dxyn(&mut self, x: u8, y: u8, n: u8)
        requires
            old(self).wf(),
            x < 16,
            y < 16,
            n < 16,
        ensures
            final(self).wf(),
            final(self).abs() == spec_display(old(self).abs(), x, y, n),
    {
        let ghost pre: CpuV = self.abs();
        let vx: u8 = self.vs[x as usize] % 64;
        let vy0: u8 = self.vs[y as usize] % 32;
        let ghost x0: int = vx as int;
        let ghost y0: int = vy0 as int;

        self.vs[15] = 0;
        proof {
            assert(self.vram@ =~= spec_part_vram(pre, x0, y0, 0, 0));
            assert(!spec_part_collision(pre, x0, y0, 0, 0));
            assert(self.abs().stack == old(self).abs().stack);
        }
        let mut i: u8 = 0;
        while i < n
            invariant
                self.wf(),
                x < 16,
                y < 16,
                i <= n,
                n < 16,
                vx < 64,
                vy0 < 32,
                x0 == vx as int,
                y0 == vy0 as int,
                pre.mem.len() == 4096,
                pre.vram.len() == 2048,
                pre.vs.len() == 16,
                self.abs().mem == pre.mem,
                self.abs().stack == pre.stack,
                self.abs().pc == pre.pc,
                self.abs().index == pre.index,
                self.abs().delay == pre.delay,
                self.abs().beep == pre.beep,
                pre.index < 4096,
                self.abs().vram == spec_part_vram(pre, x0, y0, i as int, 0),
                self.abs().vs == pre.vs.update(
                    15,
                    if spec_part_collision(pre, x0, y0, i as int, 0) {
                        1u8
                    } else {
                        0u8
                    },
                ),
            decreases n - i,
        {
            let sprite_row: u8 = self.ram.read((self.index + (i as u16)) % 4096);
            let yy: usize = (vy0 as usize) + (i as usize);
            if yy < 32 {
                let mut col: u8 = 0;
                while col < 8 && vx + col < 64
                    invariant
                        self.wf(),
                        col <= 8,
                        i < n,
                        n < 16,
                        vx < 64,
                        vy0 < 32,
                        x0 == vx as int,
                        y0 == vy0 as int,
                        yy == vy0 as int + i as int,
                        yy < 32,
                        sprite_row == pre.mem[mask12(pre.index + i as int) as int],
                        pre.mem.len() == 4096,
                        pre.vram.len() == 2048,
                        pre.vs.len() == 16,
                        self.abs().mem == pre.mem,
                        self.abs().stack == pre.stack,
                        self.abs().pc == pre.pc,
                        self.abs().index == pre.index,
                        self.abs().delay == pre.delay,
                        self.abs().beep == pre.beep,
                        pre.index < 4096,
                        self.abs().vram == spec_part_vram(pre, x0, y0, i as int, col as int),
                        self.abs().vs == pre.vs.update(
                            15,
                            if spec_part_collision(pre, x0, y0, i as int, col as int) {
                                1u8
                            } else {
                                0u8
                            },
                        ),
                    decreases 8 - col,
                {
                    let sprite_pixel: u8 = (sprite_row >> (7 - col)) & 0x01;
                    proof {
                        lemma_sprite_bit(sprite_row, col);
                    }
                    let ghost px: int = x0 + col as int;
                    let ghost pyy: int = yy as int;
                    let ghost p0: int = px * 32 + pyy;
                    proof {
                        assert(p0 / 32 == px && p0 % 32 == pyy) by (nonlinear_arith)
                            requires
                                p0 == px * 32 + pyy,
                                0 <= pyy,
                                pyy < 32,
                                0 <= px,
                        ;
                        // the pixel this column touches has not been painted yet
                        assert(!spec_part_hit(pre, x0, y0, i as int, col as int, px, pyy));
                        assert(self.vram@[p0] == pre.vram[p0]);
                    }
                    if sprite_pixel == 1 {
                        let idx: usize = ((vx + col) as usize) * 32 + yy;
                        let screen_pixel: bool = self.vram[idx];
                        if screen_pixel {
                            self.vram[idx] = false;
                            self.vs[15] = 1;
                        } else {
                            self.vram[idx] = true;
                        }
                        proof {
                            assert(self.vram@ =~= spec_part_vram(
                                pre,
                                x0,
                                y0,
                                i as int,
                                col as int + 1,
                            )) by {
                                assert forall|p: int| 0 <= p < 2048 && p != p0 implies #[trigger]
                                    spec_part_hit(
                                        pre,
                                        x0,
                                        y0,
                                        i as int,
                                        col as int + 1,
                                        p / 32,
                                        p % 32,
                                    ) == spec_part_hit(
                                    pre,
                                    x0,
                                    y0,
                                    i as int,
                                    col as int,
                                    p / 32,
                                    p % 32,
                                ) by {
                                    assert(p == (p / 32) * 32 + (p % 32)) by (nonlinear_arith)
                                        requires
                                            0 <= p < 2048,
                                    ;
                                }
                            }
                            assert forall|qx: int, qy: int| #[trigger]
                                spec_part_hit(pre, x0, y0, i as int, col as int, qx, qy)
                                    implies spec_part_hit(
                                pre,
                                x0,
                                y0,
                                i as int,
                                col as int + 1,
                                qx,
                                qy,
                            ) by {}
                            if screen_pixel {
                                assert(spec_part_hit(pre, x0, y0, i as int, col as int + 1, px, pyy)
                                    && pre.vram[px * 32 + pyy]);
                                assert(spec_part_collision(pre, x0, y0, i as int, col as int + 1));
                                assert(self.abs().vs =~= pre.vs.update(15, 1u8));
                            } else {
                                assert forall|qx: int, qy: int| #[trigger]
                                    spec_part_hit(pre, x0, y0, i as int, col as int + 1, qx, qy)
                                        && pre.vram[qx * 32 + qy] implies spec_part_hit(
                                    pre,
                                    x0,
                                    y0,
                                    i as int,
                                    col as int,
                                    qx,
                                    qy,
                                ) by {
                                    if qx == px && qy == pyy {
                                        assert(!pre.vram[p0]);
                                    }
                                }
                                lemma_collision_eq(
                                    pre,
                                    x0,
                                    y0,
                                    i as int,
                                    col as int,
                                    i as int,
                                    col as int + 1,
                                );
                            }
                        }
                    } else {
                        proof {
                            assert forall|qx: int, qy: int| #[trigger]
                                spec_part_hit(pre, x0, y0, i as int, col as int + 1, qx, qy)
                                    implies spec_part_hit(pre, x0, y0, i as int, col as int, qx, qy) by {
                                if qx == px && qy == pyy {
                                    assert(!spec_bit(sprite_row, col as int));
                                }
                            }
                            assert forall|qx: int, qy: int| #[trigger]
                                spec_part_hit(pre, x0, y0, i as int, col as int, qx, qy)
                                    implies spec_part_hit(
                                pre,
                                x0,
                                y0,
                                i as int,
                                col as int + 1,
                                qx,
                                qy,
                            ) by {}
                            assert(self.vram@ =~= spec_part_vram(
                                pre,
                                x0,
                                y0,
                                i as int,
                                col as int + 1,
                            ));
                            lemma_collision_eq(
                                pre,
                                x0,
                                y0,
                                i as int,
                                col as int,
                                i as int,
                                col as int + 1,
                            );
                        }
                    }
                    col = col + 1;
                }
                proof {
                    // columns past the right edge or past 8 add no hits
                    assert forall|qx: int, qy: int| #[trigger]
                        spec_part_hit(pre, x0, y0, i as int + 1, 0, qx, qy) implies spec_part_hit(
                        pre,
                        x0,
                        y0,
                        i as int,
                        col as int,
                        qx,
                        qy,
                    ) by {}
                    assert forall|qx: int, qy: int| #[trigger]
                        spec_part_hit(pre, x0, y0, i as int, col as int, qx, qy)
                            implies spec_part_hit(pre, x0, y0, i as int + 1, 0, qx, qy) by {}
                    assert(self.vram@ =~= spec_part_vram(pre, x0, y0, i as int + 1, 0));
                    lemma_collision_eq(
                        pre,
                        x0,
                        y0,
                        i as int,
                        col as int,
                        i as int + 1,
                        0,
                    );
                }
            } else {
                proof {
                    // rows past the bottom edge add no hits
                    assert forall|qx: int, qy: int| #[trigger]
                        spec_part_hit(pre, x0, y0, i as int + 1, 0, qx, qy) implies spec_part_hit(
                        pre,
                        x0,
                        y0,
                        i as int,
                        0,
                        qx,
                        qy,
                    ) by {}
                    assert forall|qx: int, qy: int| #[trigger]
                        spec_part_hit(pre, x0, y0, i as int, 0, qx, qy) implies spec_part_hit(
                        pre,
                        x0,
                        y0,
                        i as int + 1,
                        0,
                        qx,
                        qy,
                    ) by {}
                    assert(self.vram@ =~= spec_part_vram(pre, x0, y0, i as int + 1, 0));
                    lemma_collision_eq(pre, x0, y0, i as int, 0, i as int + 1, 0);
                }
            }
            i = i + 1;
        }
        proof {
            assert(self.abs() =~= spec_display(pre, x, y, n));
        }
    }
}

} // verus!
