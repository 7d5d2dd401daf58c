//! Laws relating several operations of the machine, proved once and for all
//! inputs: sprite drawing is an involution on the framebuffer with an exact
//! collision report, a call followed by a return lands on the instruction
//! after the call, and the key-wait opcode freezes the program counter until
//! a key arrives.
use vstd::prelude::*;

use crate::cpu::Cpu;
use crate::cpu::cell_index;
use crate::cpu::is_first_pressed;
use crate::cpu::nib1;
use crate::cpu::nib2;
use crate::cpu::nib3;
use crate::cpu::nib4;
use crate::cpu::op_call;
use crate::cpu::op_draw;
use crate::cpu::op_ret;
use crate::cpu::row_collides;
use crate::cpu::row_covers;
use crate::cpu::sprite_collides;
use crate::cpu::sprite_covers;
use crate::cpu::sprite_pixel;
use crate::cpu::step_effect;
use crate::cpu::same_state;

verus! {

/// A sprite row collides on `screen` exactly when one of its set bits lands
/// on a lit cell.
proof fn lemma_row_collides_iff(b: u8, x0: int, yrow: int, cols: int, screen: Seq<bool>)
    requires
        screen.len() == 2048,
        0 <= cols <= 8,
    ensures
        row_collides(b, x0, yrow, cols, screen) <==> exists|idx: int|
            0 <= idx < 2048 && #[trigger] row_covers(b, x0, yrow, cols, idx) && screen[idx],
    decreases cols,
{
    if cols > 0 {
        lemma_row_collides_iff(b, x0, yrow, cols - 1, screen);
        let cell = cell_index(x0 + cols - 1, yrow);
        assert(0 <= cell < 2048);
        if row_collides(b, x0, yrow, cols, screen) {
            if row_collides(b, x0, yrow, cols - 1, screen) {
                let idx0 = choose|idx: int|
                    0 <= idx < 2048 && #[trigger] row_covers(b, x0, yrow, cols - 1, idx)
                        && screen[idx];
                assert(row_covers(b, x0, yrow, cols, idx0) && screen[idx0]);
            } else {
                assert(sprite_pixel(b, cols - 1) && screen[cell]);
                assert(row_covers(b, x0, yrow, cols, cell) && screen[cell]);
            }
        }
        if exists|idx: int|
            0 <= idx < 2048 && #[trigger] row_covers(b, x0, yrow, cols, idx) && screen[idx] {
            let idx0 = choose|idx: int|
                0 <= idx < 2048 && #[trigger] row_covers(b, x0, yrow, cols, idx) && screen[idx];
            if row_covers(b, x0, yrow, cols - 1, idx0) {
                assert(row_collides(b, x0, yrow, cols - 1, screen));
            } else {
                assert(sprite_pixel(b, cols - 1) && idx0 == cell);
            }
            assert(row_collides(b, x0, yrow, cols, screen));
        }
    }
}

/// A sprite collides on `screen` exactly when one of its set bits lands on a
/// lit cell.
proof fn lemma_sprite_collides_iff(
    ram: Seq<u8>,
    i: int,
    x0: int,
    y0: int,
    rows: int,
    screen: Seq<bool>,
)
    requires
        screen.len() == 2048,
    ensures
        sprite_collides(ram, i, x0, y0, rows, screen) <==> exists|idx: int|
            0 <= idx < 2048 && #[trigger] sprite_covers(ram, i, x0, y0, rows, idx) && screen[idx],
    decreases rows,
{
    if rows > 0 {
        lemma_sprite_collides_iff(ram, i, x0, y0, rows - 1, screen);
        lemma_row_collides_iff(ram[i + rows - 1], x0, y0 + rows - 1, 8, screen);
        if sprite_collides(ram, i, x0, y0, rows, screen) {
            if sprite_collides(ram, i, x0, y0, rows - 1, screen) {
                let idx0 = choose|idx: int|
                    0 <= idx < 2048 && #[trigger] sprite_covers(ram, i, x0, y0, rows - 1, idx)
                        && screen[idx];
                assert(sprite_covers(ram, i, x0, y0, rows, idx0) && screen[idx0]);
            } else {
                let idx0 = choose|idx: int|
                    0 <= idx < 2048 && #[trigger] row_covers(
                        ram[i + rows - 1],
                        x0,
                        y0 + rows - 1,
                        8,
                        idx,
                    ) && screen[idx];
                assert(sprite_covers(ram, i, x0, y0, rows, idx0) && screen[idx0]);
            }
        }
        if exists|idx: int|
            0 <= idx < 2048 && #[trigger] sprite_covers(ram, i, x0, y0, rows, idx)
                && screen[idx] {
            let idx0 = choose|idx: int|
                0 <= idx < 2048 && #[trigger] sprite_covers(ram, i, x0, y0, rows, idx)
                    && screen[idx];
            if sprite_covers(ram, i, x0, y0, rows - 1, idx0) {
                assert(sprite_collides(ram, i, x0, y0, rows - 1, screen));
            } else {
                assert(row_covers(ram[i + rows - 1], x0, y0 + rows - 1, 8, idx0)
                    && screen[idx0]);
                assert(row_collides(ram[i + rows - 1], x0, y0 + rows - 1, 8, screen));
            }
            assert(sprite_collides(ram, i, x0, y0, rows, screen));
        }
    } else {
        if exists|idx: int|
            0 <= idx < 2048 && #[trigger] sprite_covers(ram, i, x0, y0, rows, idx)
                && screen[idx] {
            let idx0 = choose|idx: int|
                0 <= idx < 2048 && #[trigger] sprite_covers(ram, i, x0, y0, rows, idx)
                    && screen[idx];
            assert(false);
        }
    }
}

/// Drawing any sprite on an all-unlit framebuffer never reports a collision:
/// the flag register comes out 0.
pub proof fn lemma_draw_on_unlit_no_collision(
    pre: Cpu,
    post: Cpu,
    fpc: int,
    x: int,
    y: int,
    n: int,
)
    requires
        pre.wf(),
        0 <= x < 16,
        0 <= y < 16,
        forall|j: int| 0 <= j < 2048 ==> !pre.screen@[j],
        op_draw(pre, post, fpc, x, y, n),
    ensures
        post.v_reg@[15] == 0u8,
{
    let ram = pre.ram@;
    let i = pre.i_reg as int;
    let x0 = pre.v_reg@[x] as int;
    let y0 = pre.v_reg@[y] as int;
    lemma_sprite_collides_iff(ram, i, x0, y0, n, pre.screen@);
    if sprite_collides(ram, i, x0, y0, n, pre.screen@) {
        let idx0 = choose|idx: int|
            0 <= idx < 2048 && #[trigger] sprite_covers(ram, i, x0, y0, n, idx)
                && pre.screen@[idx];
        assert(false);
    }
}

/// Drawing the identical sprite twice in succession at the identical spot on
/// an all-unlit framebuffer restores the all-unlit framebuffer, and the
/// second draw reports a collision exactly when the sprite covers any cell
/// at all. The operand registers must not be the flag register, which the
/// first draw overwrites.
pub proof fn lemma_draw_twice_restores(
    s0: Cpu,
    s1: Cpu,
    s2: Cpu,
    fpc1: int,
    fpc2: int,
    x: int,
    y: int,
    n: int,
)
    requires
        s0.wf(),
        0 <= x < 16,
        0 <= y < 16,
        x != 15,
        y != 15,
        forall|j: int| 0 <= j < 2048 ==> !s0.screen@[j],
        op_draw(s0, s1, fpc1, x, y, n),
        op_draw(s1, s2, fpc2, x, y, n),
    ensures
        forall|j: int| 0 <= j < 2048 ==> !s2.screen@[j],
        s2.v_reg@[15] == (if exists|idx: int|
            0 <= idx < 2048 && #[trigger] sprite_covers(
                s0.ram@,
                s0.i_reg as int,
                s0.v_reg@[x] as int,
                s0.v_reg@[y] as int,
                n,
                idx,
            ) {
            1u8
        } else {
            0u8
        }),
{
    let ram = s0.ram@;
    let i = s0.i_reg as int;
    let x0 = s0.v_reg@[x] as int;
    let y0 = s0.v_reg@[y] as int;
    assert(s1.ram@ == ram);
    assert(s1.i_reg == s0.i_reg);
    assert(s1.v_reg@ == s0.v_reg@.update(15, if sprite_collides(ram, i, x0, y0, n, s0.screen@) {
        1u8
    } else {
        0u8
    }));
    assert(s1.v_reg@[x] == s0.v_reg@[x]);
    assert(s1.v_reg@[y] == s0.v_reg@[y]);
    assert(forall|j: int|
        0 <= j < 2048 ==> s1.screen@[j] == sprite_covers(ram, i, x0, y0, n, j));
    assert(forall|j: int|
        0 <= j < 2048 ==> s2.screen@[j] == (s1.screen@[j] != sprite_covers(ram, i, x0, y0, n, j)));
    lemma_sprite_collides_iff(ram, i, x0, y0, n, s1.screen@);
    if sprite_collides(ram, i, x0, y0, n, s1.screen@) {
        let idx0 = choose|idx: int|
            0 <= idx < 2048 && #[trigger] sprite_covers(ram, i, x0, y0, n, idx)
                && s1.screen@[idx];
        assert(exists|idx: int|
            0 <= idx < 2048 && #[trigger] sprite_covers(ram, i, x0, y0, n, idx));
    }
    if exists|idx: int| 0 <= idx < 2048 && #[trigger] sprite_covers(ram, i, x0, y0, n, idx) {
        let idx0 = choose|idx: int|
            0 <= idx < 2048 && #[trigger] sprite_covers(ram, i, x0, y0, n, idx);
        assert(s1.screen@[idx0]);
        assert(sprite_collides(ram, i, x0, y0, n, s1.screen@));
    }
}

/// A call followed by a matching return puts the program counter back on the
/// instruction following the call, and frees the stack slot the call used.
pub proof fn lemma_call_then_return(
    s0: Cpu,
    s1: Cpu,
    s2: Cpu,
    fpc1: int,
    fpc2: int,
    op: u16,
)
    requires
        s0.wf(),
        s0.sp < 16,
        0 <= fpc1 < 0x10000,
        op_call(s0, s1, fpc1, op),
        op_ret(s1, s2, fpc2),
    ensures
        s2.pc == fpc1,
        s2.sp == s0.sp,
{
    assert(s1.stack@[s0.sp as int] == fpc1 as u16);
}

/// Stepping on the key-wait opcode with no key pressed changes nothing at
/// all: the program counter rewinds to the instruction itself, so the next
/// step fetches it again.
pub proof fn lemma_wait_key_blocks(pre: Cpu, post: Cpu, op: u16, rnd: u8)
    requires
        pre.wf(),
        nib1(op) == 0xF,
        nib3(op) == 0,
        nib4(op) == 0xA,
        forall|i: int| 0 <= i < 16 ==> !pre.keys@[i],
        step_effect(pre, post, pre.pc + 2, op, rnd),
    ensures
        same_state(pre, post),
{
    if exists|i: int| 0 <= i < 16 && pre.keys@[i] {
        let i0 = choose|i: int| 0 <= i < 16 && pre.keys@[i];
        assert(false);
    }
}

/// Stepping on the key-wait opcode with key `k` pressed and none below it
/// advances the program counter past the instruction and writes `k` into the
/// destination register.
pub proof fn lemma_wait_key_captures(pre: Cpu, post: Cpu, op: u16, rnd: u8, k: int)
    requires
        pre.wf(),
        nib1(op) == 0xF,
        nib3(op) == 0,
        nib4(op) == 0xA,
        is_first_pressed(pre.keys@, k),
        step_effect(pre, post, pre.pc + 2, op, rnd),
    ensures
        post.pc == pre.pc + 2,
        post.v_reg@ == pre.v_reg@.update(nib2(op) as int, k as u8),
{
    let x = nib2(op) as int;
    assert(0 <= k < 16 && pre.keys@[k]);
    let i0 = choose|i: int|
        is_first_pressed(pre.keys@, i) && post.v_reg@ == pre.v_reg@.update(x, i as u8);
    if i0 < k {
        assert(pre.keys@[i0]);
        assert(false);
    }
    if k < i0 {
        assert(pre.keys@[k]);
        assert(false);
    }
}

} // verus!
