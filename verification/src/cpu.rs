//! The machine state and the fetch-decode-execute cycle.
use vstd::prelude::*;

verus! {

pub const SCREEN_WIDTH: usize = 64;
pub const SCREEN_HEIGHT: usize = 32;
pub const FONTSET_SIZE: usize = 80;
pub const NUM_KEYS: usize = 16;
pub const NUM_REGS: usize = 16;
pub const RAM_SIZE: usize = 4096;
pub const STACK_SIZE: usize = 16;
pub const START_ADDR: u16 = 0x200;

/// A fault surfaced to the driver instead of a panic: either the fetched
/// instruction word matches none of the 35 defined opcodes, or a malformed
/// program drove an address or the call stack out of range, or a program
/// image does not fit above the reserved low memory.
#[derive(Clone, Copy, Debug, PartialEq, Eq)]
pub enum Fault {
    UnknownOpcode,
    CorruptState,
    ProgramTooLarge,
}

/// The whole machine state: memory, sixteen general registers, the address
/// register, the program counter, the call stack, the two countdown timers,
/// the key-state array and the framebuffer.
pub struct Cpu {
    /// Delay timer, decremented toward zero by the external cadence.
    pub dt: u8,
    /// Address register, the pointer used by the memory-indirect opcodes.
    pub i_reg: u16,
    /// One pressed/released flag per logical key.
    pub keys: Vec<bool>,
    /// Program counter.
    pub pc: u16,
    /// 4096 bytes of memory; the glyph table sits at addresses 0..80.
    pub ram: Vec<u8>,
    /// 64x32 framebuffer, cell (x, y) at index x + 64 * y.
    pub screen: Vec<bool>,
    /// Stack pointer: the count of used call-stack slots.
    pub sp: u16,
    /// Sound timer, decremented toward zero by the external cadence.
    pub st: u8,
    /// Return addresses of the calls now in progress.
    pub stack: Vec<u16>,
    /// The sixteen general registers; register 0xF doubles as the
    /// carry/borrow/collision flag.
    pub v_reg: Vec<u8>,
}

/// The built-in glyph table: 16 glyphs of 5 bytes each, one per
/// hexadecimal digit.
pub open spec fn fontset() -> Seq<u8> {
    seq![
        0xF0u8, 0x90u8, 0x90u8, 0x90u8, 0xF0u8, // 0
        0x20u8, 0x60u8, 0x20u8, 0x20u8, 0x70u8, // 1
        0xF0u8, 0x10u8, 0xF0u8, 0x80u8, 0xF0u8, // 2
        0xF0u8, 0x10u8, 0xF0u8, 0x10u8, 0xF0u8, // 3
        0x90u8, 0x90u8, 0xF0u8, 0x10u8, 0x10u8, // 4
        0xF0u8, 0x80u8, 0xF0u8, 0x10u8, 0xF0u8, // 5
        0xF0u8, 0x80u8, 0xF0u8, 0x90u8, 0xF0u8, // 6
        0xF0u8, 0x10u8, 0x20u8, 0x40u8, 0x40u8, // 7
        0xF0u8, 0x90u8, 0xF0u8, 0x90u8, 0xF0u8, // 8
        0xF0u8, 0x90u8, 0xF0u8, 0x10u8, 0xF0u8, // 9
        0xF0u8, 0x90u8, 0xF0u8, 0x90u8, 0x90u8, // A
        0xE0u8, 0x90u8, 0xE0u8, 0x90u8, 0xE0u8, // B
        0xF0u8, 0x80u8, 0x80u8, 0x80u8, 0xF0u8, // C
        0xE0u8, 0x90u8, 0x90u8, 0x90u8, 0xE0u8, // D
        0xF0u8, 0x80u8, 0xF0u8, 0x80u8, 0xF0u8, // E
        0xF0u8, 0x80u8, 0xF0u8, 0x80u8, 0x80u8, // F
    ]
}

/// The glyph table stands unharmed at addresses 0..80.
pub open spec fn fontset_loaded(ram: Seq<u8>) -> bool {
    forall|j: int| 0 <= j < 80 ==> ram[j] == fontset()[j]
}

impl Cpu {
    /// The structural invariant: every array has its fixed size and the
    /// stack pointer counts at most the 16 slots that exist.
    pub open spec fn wf(&self) -> bool {
        &&& self.ram@.len() == 4096
        &&& self.screen@.len() == 2048
        &&& self.v_reg@.len() == 16
        &&& self.stack@.len() == 16
        &&& self.keys@.len() == 16
        &&& self.sp <= 16
    }

    /// The post-construction state: program counter at the program start
    /// address, everything zeroed but the glyph table.
    pub open spec fn is_reset(&self) -> bool {
        &&& self.wf()
        &&& self.pc == 0x200u16
        &&& self.i_reg == 0u16
        &&& self.sp == 0u16
        &&& self.dt == 0u8
        &&& self.st == 0u8
        &&& fontset_loaded(self.ram@)
        &&& forall|j: int| 80 <= j < 4096 ==> self.ram@[j] == 0u8
        &&& forall|j: int| 0 <= j < 2048 ==> !self.screen@[j]
        &&& forall|j: int| 0 <= j < 16 ==> self.v_reg@[j] == 0u8
        &&& forall|j: int| 0 <= j < 16 ==> self.stack@[j] == 0u16
        &&& forall|j: int| 0 <= j < 16 ==> !self.keys@[j]
    }
}

fn zero_bytes(n: usize) -> (v: Vec<u8>)
    ensures
        v@.len() == n,
        forall|j: int| 0 <= j < n ==> v@[j] == 0u8,
{
    let mut v: Vec<u8> = Vec::new();
    let mut k: usize = 0;
    while k < n
        invariant
            k <= n,
            v@.len() == k,
            forall|j: int| 0 <= j < k ==> v@[j] == 0u8,
        decreases n - k,
    {
        v.push(0);
        k += 1;
    }
    v
}

fn zero_words(n: usize) -> (v: Vec<u16>)
    ensures
        v@.len() == n,
        forall|j: int| 0 <= j < n ==> v@[j] == 0u16,
{
    let mut v: Vec<u16> = Vec::new();
    let mut k: usize = 0;
    while k < n
        invariant
            k <= n,
            v@.len() == k,
            forall|j: int| 0 <= j < k ==> v@[j] == 0u16,
        decreases n - k,
    {
        v.push(0);
        k += 1;
    }
    v
}

fn unlit_cells(n: usize) -> (v: Vec<bool>)
    ensures
        v@.len() == n,
        forall|j: int| 0 <= j < n ==> !v@[j],
{
    let mut v: Vec<bool> = Vec::new();
    let mut k: usize = 0;
    while k < n
        invariant
            k <= n,
            v@.len() == k,
            forall|j: int| 0 <= j < k ==> !v@[j],
        decreases n - k,
    {
        v.push(false);
        k += 1;
    }
    v
}

// ---------------------------------------------------------------------------
// Decoding the 16-bit instruction word into its four nibble fields.
// ---------------------------------------------------------------------------

/// Highest nibble of an instruction word.
pub open spec fn nib1(op: u16) -> u16 {
    (op & 0xF000) >> 12
}

/// Second nibble, the X register operand.
pub open spec fn nib2(op: u16) -> u16 {
    (op & 0x0F00) >> 8
}

/// Third nibble, the Y register operand.
pub open spec fn nib3(op: u16) -> u16 {
    (op & 0x00F0) >> 4
}

/// Lowest nibble.
pub open spec fn nib4(op: u16) -> u16 {
    op & 0x000F
}

/// The 12-bit address immediate.
pub open spec fn addr_nnn(op: u16) -> u16 {
    op & 0x0FFF
}

/// The 8-bit immediate.
pub open spec fn imm_nn(op: u16) -> u8 {
    (op & 0x00FF) as u8
}

/// The instruction word fetched big-endian from two consecutive memory bytes.
pub open spec fn word_at(ram: Seq<u8>, pc: int) -> u16 {
    ((ram[pc] as u16) << 8) | (ram[pc + 1] as u16)
}

/// An 8-bit addition wrapped modulo 256.
pub open spec fn wrap8(a: int) -> u8 {
    if a > 255 {
        (a - 256) as u8
    } else {
        a as u8
    }
}

/// A 16-bit addition wrapped modulo 2^16.
pub open spec fn wrap16(a: int) -> u16 {
    if a > 0xFFFF {
        (a - 0x10000) as u16
    } else {
        a as u16
    }
}

// ---------------------------------------------------------------------------
// Frame conditions: which parts of the state an opcode leaves alone.
// ---------------------------------------------------------------------------

pub open spec fn same_mem(a: Cpu, b: Cpu) -> bool {
    b.ram == a.ram
}

pub open spec fn same_screen(a: Cpu, b: Cpu) -> bool {
    b.screen == a.screen
}

pub open spec fn same_regs(a: Cpu, b: Cpu) -> bool {
    b.v_reg == a.v_reg
}

pub open spec fn same_call_stack(a: Cpu, b: Cpu) -> bool {
    b.stack == a.stack && b.sp == a.sp
}

pub open spec fn same_pc(a: Cpu, b: Cpu) -> bool {
    b.pc == a.pc
}

pub open spec fn same_i_reg(a: Cpu, b: Cpu) -> bool {
    b.i_reg == a.i_reg
}

pub open spec fn same_timers(a: Cpu, b: Cpu) -> bool {
    b.dt == a.dt && b.st == a.st
}

pub open spec fn same_keys(a: Cpu, b: Cpu) -> bool {
    b.keys == a.keys
}

/// Nothing observable changed at all.
pub open spec fn same_state(a: Cpu, b: Cpu) -> bool {
    &&& same_mem(a, b)
    &&& same_screen(a, b)
    &&& same_regs(a, b)
    &&& same_call_stack(a, b)
    &&& same_pc(a, b)
    &&& same_i_reg(a, b)
    &&& same_timers(a, b)
    &&& same_keys(a, b)
}

/// Only the general registers may differ.
pub open spec fn only_regs_change(a: Cpu, b: Cpu) -> bool {
    &&& same_mem(a, b)
    &&& same_screen(a, b)
    &&& same_call_stack(a, b)
    &&& same_i_reg(a, b)
    &&& same_timers(a, b)
    &&& same_keys(a, b)
}

/// Only the program counter may differ.
pub open spec fn only_pc_changes(a: Cpu, b: Cpu) -> bool {
    &&& same_mem(a, b)
    &&& same_screen(a, b)
    &&& same_regs(a, b)
    &&& same_call_stack(a, b)
    &&& same_i_reg(a, b)
    &&& same_timers(a, b)
    &&& same_keys(a, b)
}

/// Only the program counter and the call stack may differ.
pub open spec fn only_pc_stack_change(a: Cpu, b: Cpu) -> bool {
    &&& same_mem(a, b)
    &&& same_screen(a, b)
    &&& same_regs(a, b)
    &&& same_i_reg(a, b)
    &&& same_timers(a, b)
    &&& same_keys(a, b)
}

/// Only the address register may differ.
pub open spec fn only_i_reg_changes(a: Cpu, b: Cpu) -> bool {
    &&& same_mem(a, b)
    &&& same_screen(a, b)
    &&& same_regs(a, b)
    &&& same_call_stack(a, b)
    &&& same_timers(a, b)
    &&& same_keys(a, b)
}

/// Only memory may differ.
pub open spec fn only_mem_changes(a: Cpu, b: Cpu) -> bool {
    &&& same_screen(a, b)
    &&& same_regs(a, b)
    &&& same_call_stack(a, b)
    &&& same_i_reg(a, b)
    &&& same_timers(a, b)
    &&& same_keys(a, b)
}

/// Only the framebuffer and the general registers may differ.
pub open spec fn only_screen_regs_change(a: Cpu, b: Cpu) -> bool {
    &&& same_mem(a, b)
    &&& same_call_stack(a, b)
    &&& same_i_reg(a, b)
    &&& same_timers(a, b)
    &&& same_keys(a, b)
}


// ---------------------------------------------------------------------------
// The semantics of each opcode, as a relation between the state right after
// the fetch advanced the program counter and the state after execution.
// These predicates never read `pre.pc`; the program counter current after the
// fetch is passed separately as `fpc`.
// ---------------------------------------------------------------------------

/// 00E0: every framebuffer cell goes unlit.
pub open spec fn op_cls(pre: Cpu, post: Cpu, fpc: int) -> bool {
    &&& only_screen_regs_change(pre, post)
    &&& same_regs(pre, post)
    &&& post.pc == fpc
    &&& post.screen@.len() == 2048
    &&& forall|j: int| 0 <= j < 2048 ==> !post.screen@[j]
}

/// 00EE: the return address on top of the call stack becomes the program
/// counter and the slot is freed.
pub open spec fn op_ret(pre: Cpu, post: Cpu, fpc: int) -> bool {
    &&& only_pc_stack_change(pre, post)
    &&& post.stack == pre.stack
    &&& post.sp == pre.sp - 1
    &&& post.pc == pre.stack@[pre.sp - 1]
}

/// 1NNN: jump to the 12-bit address.
pub open spec fn op_jump(pre: Cpu, post: Cpu, fpc: int, op: u16) -> bool {
    &&& only_pc_changes(pre, post)
    &&& post.pc == addr_nnn(op)
}

/// 2NNN: the program counter current after the fetch (pointing at the
/// instruction following the call) is pushed, then control moves to NNN.
pub open spec fn op_call(pre: Cpu, post: Cpu, fpc: int, op: u16) -> bool {
    &&& only_pc_stack_change(pre, post)
    &&& post.stack@ == pre.stack@.update(pre.sp as int, fpc as u16)
    &&& post.sp == pre.sp + 1
    &&& post.pc == addr_nnn(op)
}

/// The skip family: one more instruction slot is skipped when the condition
/// holds.
pub open spec fn op_skip(pre: Cpu, post: Cpu, fpc: int, cond: bool) -> bool {
    &&& only_pc_changes(pre, post)
    &&& post.pc == if cond { fpc + 2 } else { fpc }
}

/// A write of one value into one general register.
pub open spec fn op_set_reg(pre: Cpu, post: Cpu, fpc: int, x: int, val: u8) -> bool {
    &&& only_regs_change(pre, post)
    &&& post.pc == fpc
    &&& post.v_reg@ == pre.v_reg@.update(x, val)
}

/// 8XY4: 8-bit addition; the flag register reports exactly whether the
/// addition overflowed.
pub open spec fn op_add(pre: Cpu, post: Cpu, fpc: int, x: int, y: int) -> bool {
    let s = pre.v_reg@[x] + pre.v_reg@[y];
    &&& only_regs_change(pre, post)
    &&& post.pc == fpc
    &&& post.v_reg@ == pre.v_reg@.update(x, wrap8(s)).update(
        15,
        if s > 255 { 1u8 } else { 0u8 },
    )
}

/// 8XY5 and 8XY7: 8-bit subtraction into X; the flag register is 0 exactly
/// when a borrow occurred, 1 when none did.
pub open spec fn op_sub(pre: Cpu, post: Cpu, fpc: int, x: int, lhs: u8, rhs: u8) -> bool {
    let d = if lhs >= rhs { (lhs - rhs) as u8 } else { (lhs - rhs + 256) as u8 };
    &&& only_regs_change(pre, post)
    &&& post.pc == fpc
    &&& post.v_reg@ == pre.v_reg@.update(x, d).update(
        15,
        if lhs >= rhs { 1u8 } else { 0u8 },
    )
}

/// 8XY6: shift right in place; the flag register takes the original least
/// significant bit.
pub open spec fn op_shr(pre: Cpu, post: Cpu, fpc: int, x: int) -> bool {
    let vx = pre.v_reg@[x];
    &&& only_regs_change(pre, post)
    &&& post.pc == fpc
    &&& post.v_reg@ == pre.v_reg@.update(x, vx >> 1).update(15, vx & 1)
}

/// 8XYE: shift left in place; the flag register takes the original most
/// significant bit.
pub open spec fn op_shl(pre: Cpu, post: Cpu, fpc: int, x: int) -> bool {
    let vx = pre.v_reg@[x];
    &&& only_regs_change(pre, post)
    &&& post.pc == fpc
    &&& post.v_reg@ == pre.v_reg@.update(x, vx << 1).update(15, (vx >> 7) & 1)
}

/// BNNN: jump to NNN displaced by register 0.
pub open spec fn op_jump_v0(pre: Cpu, post: Cpu, fpc: int, op: u16) -> bool {
    &&& only_pc_changes(pre, post)
    &&& post.pc == pre.v_reg@[0] + addr_nnn(op)
}

/// ANNN: the address register takes the 12-bit immediate.
pub open spec fn op_set_i(pre: Cpu, post: Cpu, fpc: int, op: u16) -> bool {
    &&& only_i_reg_changes(pre, post)
    &&& post.pc == fpc
    &&& post.i_reg == addr_nnn(op)
}

/// FX1E: the address register grows by VX, wrapping modulo 2^16.
pub open spec fn op_add_i(pre: Cpu, post: Cpu, fpc: int, x: int) -> bool {
    &&& only_i_reg_changes(pre, post)
    &&& post.pc == fpc
    &&& post.i_reg == wrap16(pre.i_reg + pre.v_reg@[x])
}

/// FX29: the address register takes the address of VX's 5-byte glyph.
pub open spec fn op_font(pre: Cpu, post: Cpu, fpc: int, x: int) -> bool {
    &&& only_i_reg_changes(pre, post)
    &&& post.pc == fpc
    &&& post.i_reg == pre.v_reg@[x] * 5
}

/// FX15: the delay timer takes VX.
pub open spec fn op_set_dt(pre: Cpu, post: Cpu, fpc: int, x: int) -> bool {
    &&& same_mem(pre, post)
    &&& same_screen(pre, post)
    &&& same_regs(pre, post)
    &&& same_call_stack(pre, post)
    &&& same_i_reg(pre, post)
    &&& same_keys(pre, post)
    &&& post.pc == fpc
    &&& post.st == pre.st
    &&& post.dt == pre.v_reg@[x]
}

/// FX18: the sound timer takes VX.
pub open spec fn op_set_st(pre: Cpu, post: Cpu, fpc: int, x: int) -> bool {
    &&& same_mem(pre, post)
    &&& same_screen(pre, post)
    &&& same_regs(pre, post)
    &&& same_call_stack(pre, post)
    &&& same_i_reg(pre, post)
    &&& same_keys(pre, post)
    &&& post.pc == fpc
    &&& post.dt == pre.dt
    &&& post.st == pre.v_reg@[x]
}

/// FX33: the decimal digits of VX land in the three memory cells at the
/// address register: hundreds, tens, ones.
pub open spec fn op_bcd(pre: Cpu, post: Cpu, fpc: int, x: int) -> bool {
    let i = pre.i_reg as int;
    let vx = pre.v_reg@[x];
    &&& only_mem_changes(pre, post)
    &&& post.pc == fpc
    &&& post.ram@ == pre.ram@.update(i, (vx / 100) as u8).update(
        i + 1,
        ((vx / 10) % 10) as u8,
    ).update(i + 2, (vx % 10) as u8)
}

/// FX55: registers 0 through X go to memory at the address register, which
/// itself stays put.
pub open spec fn op_store_regs(pre: Cpu, post: Cpu, fpc: int, x: int) -> bool {
    let i = pre.i_reg as int;
    &&& only_mem_changes(pre, post)
    &&& post.pc == fpc
    &&& post.ram@.len() == pre.ram@.len()
    &&& forall|j: int| 0 <= j <= x ==> post.ram@[i + j] == pre.v_reg@[j]
    &&& forall|j: int| 0 <= j < pre.ram@.len() && !(i <= j <= i + x) ==> post.ram@[j]
        == pre.ram@[j]
}

/// FX65: registers 0 through X are filled from memory at the address
/// register, which itself stays put.
pub open spec fn op_load_regs(pre: Cpu, post: Cpu, fpc: int, x: int) -> bool {
    let i = pre.i_reg as int;
    &&& only_regs_change(pre, post)
    &&& post.pc == fpc
    &&& post.v_reg@.len() == 16
    &&& forall|j: int| 0 <= j <= x ==> post.v_reg@[j] == pre.ram@[i + j]
    &&& forall|j: int| x < j < 16 ==> post.v_reg@[j] == pre.v_reg@[j]
}

// ---------------------------------------------------------------------------
// Key waiting.
// ---------------------------------------------------------------------------

/// Some key is currently pressed.
pub open spec fn any_key_pressed(keys: Seq<bool>) -> bool {
    exists|i: int| 0 <= i < 16 && keys[i]
}

/// Key `i` is pressed and no lower-numbered key is.
pub open spec fn is_first_pressed(keys: Seq<bool>, i: int) -> bool {
    &&& 0 <= i < 16
    &&& keys[i]
    &&& forall|j: int| 0 <= j < i ==> !keys[j]
}

/// FX0A: with no key pressed, the program counter rewinds behind the fetch so
/// the same instruction runs again on the next step; once a key is pressed,
/// the lowest pressed index lands in VX and execution proceeds.
pub open spec fn op_wait_key(pre: Cpu, post: Cpu, fpc: int, x: int) -> bool {
    if any_key_pressed(pre.keys@) {
        &&& only_regs_change(pre, post)
        &&& post.pc == fpc
        &&& exists|i: int|
            is_first_pressed(pre.keys@, i) && post.v_reg@ == pre.v_reg@.update(x, i as u8)
    } else {
        &&& only_pc_changes(pre, post)
        &&& post.pc == fpc - 2
    }
}

// ---------------------------------------------------------------------------
// Sprite drawing.
// ---------------------------------------------------------------------------

/// Bit `c` (counted from the most significant) of a sprite row byte.
pub open spec fn sprite_pixel(b: u8, c: int) -> bool {
    b & (0x80u8 >> (c as u8)) != 0
}

/// The framebuffer index of the cell at raw coordinates (cx, cy), each
/// wrapped into the 64x32 grid.
pub open spec fn cell_index(cx: int, cy: int) -> int {
    (cx % 64) + 64 * (cy % 32)
}

/// Whether the first `cols` bits of a sprite row drawn at raw row `yrow`,
/// horizontal origin `x0`, hit framebuffer cell `idx`.
pub open spec fn row_covers(b: u8, x0: int, yrow: int, cols: int, idx: int) -> bool
    decreases cols,
{
    if cols <= 0 {
        false
    } else {
        row_covers(b, x0, yrow, cols - 1, idx) || (sprite_pixel(b, cols - 1) && idx
            == cell_index(x0 + cols - 1, yrow))
    }
}

/// Whether the first `rows` rows of the sprite at memory address `i`, drawn
/// at origin (x0, y0), hit framebuffer cell `idx`. Rows wrap modulo 32 and
/// columns modulo 64, so no two sprite bits of a sprite up to 15 rows tall
/// share a cell.
pub open spec fn sprite_covers(
    ram: Seq<u8>,
    i: int,
    x0: int,
    y0: int,
    rows: int,
    idx: int,
) -> bool
    decreases rows,
{
    if rows <= 0 {
        false
    } else {
        sprite_covers(ram, i, x0, y0, rows - 1, idx) || row_covers(
            ram[i + rows - 1],
            x0,
            y0 + rows - 1,
            8,
            idx,
        )
    }
}

/// Whether the first `cols` bits of a sprite row land on a cell lit in
/// `screen`.
pub open spec fn row_collides(b: u8, x0: int, yrow: int, cols: int, screen: Seq<bool>) -> bool
    decreases cols,
{
    if cols <= 0 {
        false
    } else {
        row_collides(b, x0, yrow, cols - 1, screen) || (sprite_pixel(b, cols - 1)
            && screen[cell_index(x0 + cols - 1, yrow)])
    }
}

/// Whether any bit of the first `rows` sprite rows lands on a cell lit in
/// `screen`.
pub open spec fn sprite_collides(
    ram: Seq<u8>,
    i: int,
    x0: int,
    y0: int,
    rows: int,
    screen: Seq<bool>,
) -> bool
    decreases rows,
{
    if rows <= 0 {
        false
    } else {
        sprite_collides(ram, i, x0, y0, rows - 1, screen) || row_collides(
            ram[i + rows - 1],
            x0,
            y0 + rows - 1,
            8,
            screen,
        )
    }
}

/// DXYN: each set sprite bit flips its (wrapped) framebuffer cell; the flag
/// register reports exactly whether some flip turned a lit cell unlit.
pub open spec fn op_draw(pre: Cpu, post: Cpu, fpc: int, x: int, y: int, n: int) -> bool {
    let x0 = pre.v_reg@[x] as int;
    let y0 = pre.v_reg@[y] as int;
    let i = pre.i_reg as int;
    &&& only_screen_regs_change(pre, post)
    &&& post.pc == fpc
    &&& post.screen@.len() == 2048
    &&& forall|idx: int|
        0 <= idx < 2048 ==> post.screen@[idx] == (pre.screen@[idx] != sprite_covers(
            pre.ram@,
            i,
            x0,
            y0,
            n,
            idx,
        ))
    &&& post.v_reg@ == pre.v_reg@.update(
        15,
        if sprite_collides(pre.ram@, i, x0, y0, n, pre.screen@) { 1u8 } else { 0u8 },
    )
}

// ---------------------------------------------------------------------------
// Dispatch: the defined opcode set, the fault conditions, and the one-step
// transition relation.
// ---------------------------------------------------------------------------

/// The 35 defined nibble patterns (the all-zero word is the explicit no-op).
pub open spec fn op_known(op: u16) -> bool {
    let d1 = nib1(op);
    let d2 = nib2(op);
    let d3 = nib3(op);
    let d4 = nib4(op);
    ||| (d1 == 0 && d2 == 0 && d3 == 0 && d4 == 0)
    ||| (d1 == 0 && d2 == 0 && d3 == 0xE && d4 == 0)
    ||| (d1 == 0 && d2 == 0 && d3 == 0xE && d4 == 0xE)
    ||| d1 == 1
    ||| d1 == 2
    ||| d1 == 3
    ||| d1 == 4
    ||| (d1 == 5 && d4 == 0)
    ||| d1 == 6
    ||| d1 == 7
    ||| (d1 == 8 && (d4 == 0 || d4 == 1 || d4 == 2 || d4 == 3 || d4 == 4 || d4 == 5 || d4 == 6
        || d4 == 7 || d4 == 0xE))
    ||| (d1 == 9 && d4 == 0)
    ||| d1 == 0xA
    ||| d1 == 0xB
    ||| d1 == 0xC
    ||| d1 == 0xD
    ||| (d1 == 0xE && d3 == 9 && d4 == 0xE)
    ||| (d1 == 0xE && d3 == 0xA && d4 == 1)
    ||| (d1 == 0xF && d3 == 0 && d4 == 7)
    ||| (d1 == 0xF && d3 == 0 && d4 == 0xA)
    ||| (d1 == 0xF && d3 == 1 && d4 == 5)
    ||| (d1 == 0xF && d3 == 1 && d4 == 8)
    ||| (d1 == 0xF && d3 == 1 && d4 == 0xE)
    ||| (d1 == 0xF && d3 == 2 && d4 == 9)
    ||| (d1 == 0xF && d3 == 3 && d4 == 3)
    ||| (d1 == 0xF && d3 == 5 && d4 == 5)
    ||| (d1 == 0xF && d3 == 6 && d4 == 5)
}

/// A known opcode drives an access out of range in state `c`: a return on an
/// empty stack, a call on a full one, a sprite or register-block transfer
/// past the end of memory, or a key test with a register value past the 16
/// keys.
pub open spec fn op_out_of_bounds(c: Cpu, op: u16) -> bool {
    let d1 = nib1(op);
    let d2 = nib2(op);
    let d3 = nib3(op);
    let d4 = nib4(op);
    if d1 == 0 && d2 == 0 && d3 == 0xE && d4 == 0xE {
        c.sp == 0
    } else if d1 == 2 {
        c.sp >= 16
    } else if d1 == 0xD {
        c.i_reg + d4 > 4096
    } else if d1 == 0xE && ((d3 == 9 && d4 == 0xE) || (d3 == 0xA && d4 == 1)) {
        c.v_reg@[d2 as int] >= 16
    } else if d1 == 0xF && d3 == 3 && d4 == 3 {
        c.i_reg + 3 > 4096
    } else if d1 == 0xF && (d3 == 5 || d3 == 6) && d4 == 5 {
        c.i_reg + d2 + 1 > 4096
    } else {
        false
    }
}

/// The complete transition relation of one executed instruction: `pre` is
/// the state right after the fetch advanced the program counter to `fpc`,
/// `post` the state after execution, `rnd` the byte drawn from the driver's
/// random source.
pub open spec fn step_effect(pre: Cpu, post: Cpu, fpc: int, op: u16, rnd: u8) -> bool {
    let d1 = nib1(op);
    let d2 = nib2(op);
    let d3 = nib3(op);
    let d4 = nib4(op);
    let x = d2 as int;
    let y = d3 as int;
    let vx = pre.v_reg@[x];
    let vy = pre.v_reg@[y];
    let nn = imm_nn(op);
    if d1 == 0 && d2 == 0 && d3 == 0 && d4 == 0 {
        only_pc_changes(pre, post) && post.pc == fpc
    } else if d1 == 0 && d2 == 0 && d3 == 0xE && d4 == 0 {
        op_cls(pre, post, fpc)
    } else if d1 == 0 && d2 == 0 && d3 == 0xE && d4 == 0xE {
        op_ret(pre, post, fpc)
    } else if d1 == 1 {
        op_jump(pre, post, fpc, op)
    } else if d1 == 2 {
        op_call(pre, post, fpc, op)
    } else if d1 == 3 {
        op_skip(pre, post, fpc, vx == nn)
    } else if d1 == 4 {
        op_skip(pre, post, fpc, vx != nn)
    } else if d1 == 5 {
        op_skip(pre, post, fpc, vx == vy)
    } else if d1 == 6 {
        op_set_reg(pre, post, fpc, x, nn)
    } else if d1 == 7 {
        op_set_reg(pre, post, fpc, x, wrap8(vx + nn))
    } else if d1 == 8 && d4 == 0 {
        op_set_reg(pre, post, fpc, x, vy)
    } else if d1 == 8 && d4 == 1 {
        op_set_reg(pre, post, fpc, x, vx | vy)
    } else if d1 == 8 && d4 == 2 {
        op_set_reg(pre, post, fpc, x, vx & vy)
    } else if d1 == 8 && d4 == 3 {
        op_set_reg(pre, post, fpc, x, vx ^ vy)
    } else if d1 == 8 && d4 == 4 {
        op_add(pre, post, fpc, x, y)
    } else if d1 == 8 && d4 == 5 {
        op_sub(pre, post, fpc, x, vx, vy)
    } else if d1 == 8 && d4 == 6 {
        op_shr(pre, post, fpc, x)
    } else if d1 == 8 && d4 == 7 {
        op_sub(pre, post, fpc, x, vy, vx)
    } else if d1 == 8 && d4 == 0xE {
        op_shl(pre, post, fpc, x)
    } else if d1 == 9 {
        op_skip(pre, post, fpc, vx != vy)
    } else if d1 == 0xA {
        op_set_i(pre, post, fpc, op)
    } else if d1 == 0xB {
        op_jump_v0(pre, post, fpc, op)
    } else if d1 == 0xC {
        op_set_reg(pre, post, fpc, x, rnd & nn)
    } else if d1 == 0xD {
        op_draw(pre, post, fpc, x, y, d4 as int)
    } else if d1 == 0xE && d3 == 9 && d4 == 0xE {
        op_skip(pre, post, fpc, pre.keys@[vx as int])
    } else if d1 == 0xE && d3 == 0xA && d4 == 1 {
        op_skip(pre, post, fpc, !pre.keys@[vx as int])
    } else if d1 == 0xF && d3 == 0 && d4 == 7 {
        op_set_reg(pre, post, fpc, x, pre.dt)
    } else if d1 == 0xF && d3 == 0 && d4 == 0xA {
        op_wait_key(pre, post, fpc, x)
    } else if d1 == 0xF && d3 == 1 && d4 == 5 {
        op_set_dt(pre, post, fpc, x)
    } else if d1 == 0xF && d3 == 1 && d4 == 8 {
        op_set_st(pre, post, fpc, x)
    } else if d1 == 0xF && d3 == 1 && d4 == 0xE {
        op_add_i(pre, post, fpc, x)
    } else if d1 == 0xF && d3 == 2 && d4 == 9 {
        op_font(pre, post, fpc, x)
    } else if d1 == 0xF && d3 == 3 && d4 == 3 {
        op_bcd(pre, post, fpc, x)
    } else if d1 == 0xF && d3 == 5 && d4 == 5 {
        op_store_regs(pre, post, fpc, x)
    } else if d1 == 0xF && d3 == 6 && d4 == 5 {
        op_load_regs(pre, post, fpc, x)
    } else {
        false
    }
}

impl Cpu {
    /// Copies the glyph table into addresses 0..80, leaving the rest of
    /// memory and all other state alone.
    fn seed_fontset(&mut self)
        requires
            old(self).ram@.len() == 4096,
        ensures
            final(self).ram@.len() == 4096,
            fontset_loaded(final(self).ram@),
            forall|j: int| 80 <= j < 4096 ==> final(self).ram@[j] == old(self).ram@[j],
            final(self).screen@ == old(self).screen@,
            final(self).v_reg@ == old(self).v_reg@,
            final(self).stack@ == old(self).stack@,
            final(self).keys@ == old(self).keys@,
            final(self).pc == old(self).pc,
            final(self).i_reg == old(self).i_reg,
            final(self).sp == old(self).sp,
            final(self).dt == old(self).dt,
            final(self).st == old(self).st,
    {
        let table: [u8; 80] = [
            0xF0, 0x90, 0x90, 0x90, 0xF0, 0x20, 0x60, 0x20, 0x20, 0x70,
            0xF0, 0x10, 0xF0, 0x80, 0xF0, 0xF0, 0x10, 0xF0, 0x10, 0xF0,
            0x90, 0x90, 0xF0, 0x10, 0x10, 0xF0, 0x80, 0xF0, 0x10, 0xF0,
            0xF0, 0x80, 0xF0, 0x90, 0xF0, 0xF0, 0x10, 0x20, 0x40, 0x40,
            0xF0, 0x90, 0xF0, 0x90, 0xF0, 0xF0, 0x90, 0xF0, 0x10, 0xF0,
            0xF0, 0x90, 0xF0, 0x90, 0x90, 0xE0, 0x90, 0xE0, 0x90, 0xE0,
            0xF0, 0x80, 0x80, 0x80, 0xF0, 0xE0, 0x90, 0x90, 0x90, 0xE0,
            0xF0, 0x80, 0xF0, 0x80, 0xF0, 0xF0, 0x80, 0xF0, 0x80, 0x80,
        ];
        proof {
            assert(table@ =~= fontset());
        }
        let mut k: usize = 0;
        while k < FONTSET_SIZE
            invariant
                k <= 80,
                table@ == fontset(),
                self.ram@.len() == 4096,
                forall|j: int| 0 <= j < k ==> self.ram@[j] == fontset()[j],
                forall|j: int| 80 <= j < 4096 ==> self.ram@[j] == old(self).ram@[j],
                self.screen@ == old(self).screen@,
                self.v_reg@ == old(self).v_reg@,
                self.stack@ == old(self).stack@,
                self.keys@ == old(self).keys@,
                self.pc == old(self).pc,
                self.i_reg == old(self).i_reg,
                self.sp == old(self).sp,
                self.dt == old(self).dt,
                self.st == old(self).st,
            decreases 80 - k,
        {
            let b: u8 = table[k];
            self.ram.set(k, b);
            k += 1;
        }
    }

    /// Builds the machine in its reset state: program counter at 0x200,
    /// all registers, timers, keys, stack and framebuffer cleared, and the
    /// glyph table seeded at addresses 0..80.
    pub fn new() -> (cpu: Self)
        ensures
            cpu.is_reset(),
    {
        let mut new_emu = Self {
            pc: START_ADDR,
            ram: zero_bytes(RAM_SIZE),
            screen: unlit_cells(SCREEN_WIDTH * SCREEN_HEIGHT),
            v_reg: zero_bytes(NUM_REGS),
            i_reg: 0,
            sp: 0,
            stack: zero_words(STACK_SIZE),
            keys: unlit_cells(NUM_KEYS),
            dt: 0,
            st: 0,
        };
        new_emu.seed_fontset();
        new_emu
    }

    /// Reinitializes everything to the post-construction state, whatever
    /// execution has done since.
    pub fn reset(&mut self)
        ensures
            final(self).is_reset(),
    {
        self.pc = START_ADDR;
        self.ram = zero_bytes(RAM_SIZE);
        self.screen = unlit_cells(SCREEN_WIDTH * SCREEN_HEIGHT);
        self.v_reg = zero_bytes(NUM_REGS);
        self.i_reg = 0;
        self.sp = 0;
        self.stack = zero_words(STACK_SIZE);
        self.keys = unlit_cells(NUM_KEYS);
        self.dt = 0;
        self.st = 0;
        self.seed_fontset();
    }
}

// ---------------------------------------------------------------------------
// Wrap-around coordinates never alias within one sprite: columns of one row
// land on distinct cells, and distinct rows land on distinct rows of cells.
// ---------------------------------------------------------------------------

proof fn lemma_wrap64_inj(a: int, c1: int, c2: int)
    requires
        0 <= a < 256,
        0 <= c1 < 8,
        0 <= c2 < 8,
        c1 != c2,
    ensures
        (a + c1) % 64 != (a + c2) % 64,
{
    let au = a as u16;
    let c1u = c1 as u16;
    let c2u = c2 as u16;
    assert((au + c1u) % 64 != (au + c2u) % 64) by (bit_vector)
        requires
            au < 256,
            c1u < 8,
            c2u < 8,
            c1u != c2u,
    ;
}

proof fn lemma_wrap32_inj(a: int, r1: int, r2: int)
    requires
        0 <= a < 256,
        0 <= r1 < 16,
        0 <= r2 < 16,
        r1 != r2,
    ensures
        (a + r1) % 32 != (a + r2) % 32,
{
    let au = a as u16;
    let r1u = r1 as u16;
    let r2u = r2 as u16;
    assert((au + r1u) % 32 != (au + r2u) % 32) by (bit_vector)
        requires
            au < 256,
            r1u < 16,
            r2u < 16,
            r1u != r2u,
    ;
}

/// Bits before column `c` of the same sprite row never hit the cell that
/// column `c` targets.
proof fn lemma_row_fresh(b: u8, x0: int, yrow: int, cols: int, c: int)
    requires
        0 <= x0 < 256,
        0 <= cols <= c < 8,
    ensures
        !row_covers(b, x0, yrow, cols, cell_index(x0 + c, yrow)),
    decreases cols,
{
    if cols > 0 {
        lemma_row_fresh(b, x0, yrow, cols - 1, c);
        lemma_wrap64_inj(x0, c, cols - 1);
    }
}

/// A sprite row drawn at a raw row whose wrapped value differs from `cyr`'s
/// never hits a cell in row `cyr % 32`.
proof fn lemma_row_misses_y(b: u8, x0: int, yrow: int, cols: int, cxr: int, cyr: int)
    requires
        0 <= cols <= 8,
        cyr % 32 != yrow % 32,
    ensures
        !row_covers(b, x0, yrow, cols, cell_index(cxr, cyr)),
    decreases cols,
{
    if cols > 0 {
        lemma_row_misses_y(b, x0, yrow, cols - 1, cxr, cyr);
    }
}

/// Rows before row `r` of the same sprite never hit the cell that row `r`,
/// column `c` targets.
proof fn lemma_sprite_fresh(ram: Seq<u8>, i: int, x0: int, y0: int, rows: int, r: int, c: int)
    requires
        0 <= x0 < 256,
        0 <= y0 < 256,
        0 <= rows <= r < 16,
        0 <= c < 8,
    ensures
        !sprite_covers(ram, i, x0, y0, rows, cell_index(x0 + c, y0 + r)),
    decreases rows,
{
    if rows > 0 {
        lemma_sprite_fresh(ram, i, x0, y0, rows - 1, r, c);
        lemma_wrap32_inj(y0, rows - 1, r);
        lemma_row_misses_y(ram[i + rows - 1], x0, y0 + rows - 1, 8, x0 + c, y0 + r);
    }
}

// ---------------------------------------------------------------------------
// The call stack.
// ---------------------------------------------------------------------------

impl Cpu {
    fn push(&mut self, val: u16)
        requires
            old(self).wf(),
            old(self).sp < 16,
        ensures
            final(self).wf(),
            only_pc_stack_change(*old(self), *final(self)),
            same_pc(*old(self), *final(self)),
            final(self).stack@ == old(self).stack@.update(old(self).sp as int, val),
            final(self).sp == old(self).sp + 1,
    {
        let sp = self.sp as usize;
        self.stack.set(sp, val);
        self.sp += 1;
    }

    fn pop(&mut self) -> (val: u16)
        requires
            old(self).wf(),
            old(self).sp > 0,
        ensures
            final(self).wf(),
            only_pc_stack_change(*old(self), *final(self)),
            same_pc(*old(self), *final(self)),
            final(self).stack == old(self).stack,
            final(self).sp == old(self).sp - 1,
            val == old(self).stack@[old(self).sp - 1],
    {
        self.sp -= 1;
        self.stack[self.sp as usize]
    }
}

// ---------------------------------------------------------------------------
// The opcode handlers, each verified against its transition predicate. They
// run on the state the fetch left behind, so `old(self).pc` is the address of
// the following instruction.
// ---------------------------------------------------------------------------

impl Cpu {
    fn opcode_00e0(&mut self)
        requires
            old(self).wf(),
        ensures
            final(self).wf(),
            op_cls(*old(self), *final(self), old(self).pc as int),
    {
        self.screen = unlit_cells(SCREEN_WIDTH * SCREEN_HEIGHT);
    }

    fn opcode_00ee(&mut self) -> (r: Result<(), Fault>)
        requires
            old(self).wf(),
        ensures
            final(self).wf(),
            (r is Ok) <==> old(self).sp > 0,
            r is Ok ==> op_ret(*old(self), *final(self), old(self).pc as int),
            r is Err ==> same_state(*old(self), *final(self)) && r == Err::<(), Fault>(
                Fault::CorruptState,
            ),
    {
        if self.sp == 0 {
            return Err(Fault::CorruptState);
        }
        let ret_addr = self.pop();
        self.pc = ret_addr;
        Ok(())
    }

    fn opcode_1nnn(&mut self, op: u16)
        requires
            old(self).wf(),
        ensures
            final(self).wf(),
            op_jump(*old(self), *final(self), old(self).pc as int, op),
    {
        let nnn = op & 0xFFF;
        self.pc = nnn;
    }

    fn opcode_2nnn(&mut self, op: u16) -> (r: Result<(), Fault>)
        requires
            old(self).wf(),
        ensures
            final(self).wf(),
            (r is Ok) <==> old(self).sp < 16,
            r is Ok ==> op_call(*old(self), *final(self), old(self).pc as int, op),
            r is Err ==> same_state(*old(self), *final(self)) && r == Err::<(), Fault>(
                Fault::CorruptState,
            ),
    {
        if self.sp >= 16 {
            return Err(Fault::CorruptState);
        }
        let nnn = op & 0xFFF;
        self.push(self.pc);
        self.pc = nnn;
        Ok(())
    }

    fn opcode_3xnn(&mut self, op: u16, digit2: u16)
        requires
            old(self).wf(),
            digit2 < 16,
            old(self).pc <= 4096,
        ensures
            final(self).wf(),
            op_skip(
                *old(self),
                *final(self),
                old(self).pc as int,
                old(self).v_reg@[digit2 as int] == imm_nn(op),
            ),
    {
        let x = digit2 as usize;
        let nn = (op & 0xFF) as u8;
        if self.v_reg[x] == nn {
            self.pc += 2;
        }
    }

    fn opcode_4xnn(&mut self, op: u16, digit2: u16)
        requires
            old(self).wf(),
            digit2 < 16,
            old(self).pc <= 4096,
        ensures
            final(self).wf(),
            op_skip(
                *old(self),
                *final(self),
                old(self).pc as int,
                old(self).v_reg@[digit2 as int] != imm_nn(op),
            ),
    {
        let x = digit2 as usize;
        let nn = (op & 0xFF) as u8;
        if self.v_reg[x] != nn {
            self.pc += 2;
        }
    }

    fn opcode_5xy0(&mut self, digit2: u16, digit3: u16)
        requires
            old(self).wf(),
            digit2 < 16,
            digit3 < 16,
            old(self).pc <= 4096,
        ensures
            final(self).wf(),
            op_skip(
                *old(self),
                *final(self),
                old(self).pc as int,
                old(self).v_reg@[digit2 as int] == old(self).v_reg@[digit3 as int],
            ),
    {
        let x = digit2 as usize;
        let y = digit3 as usize;
        if self.v_reg[x] == self.v_reg[y] {
            self.pc += 2;
        }
    }

    fn opcode_6xnn(&mut self, op: u16, digit2: u16)
        requires
            old(self).wf(),
            digit2 < 16,
        ensures
            final(self).wf(),
            op_set_reg(*old(self), *final(self), old(self).pc as int, digit2 as int, imm_nn(op)),
    {
        let x = digit2 as usize;
        let nn = (op & 0xFF) as u8;
        self.v_reg.set(x, nn);
    }

    fn opcode_7xnn(&mut self, op: u16, digit2: u16)
        requires
            old(self).wf(),
            digit2 < 16,
        ensures
            final(self).wf(),
            op_set_reg(
                *old(self),
                *final(self),
                old(self).pc as int,
                digit2 as int,
                wrap8(old(self).v_reg@[digit2 as int] + imm_nn(op)),
            ),
    {
        let x = digit2 as usize;
        let nn = (op & 0xFF) as u8;
        let vx = self.v_reg[x];
        self.v_reg.set(x, vx.wrapping_add(nn));
    }

    fn opcode_8xy0(&mut self, digit2: u16, digit3: u16)
        requires
            old(self).wf(),
            digit2 < 16,
            digit3 < 16,
        ensures
            final(self).wf(),
            op_set_reg(
                *old(self),
                *final(self),
                old(self).pc as int,
                digit2 as int,
                old(self).v_reg@[digit3 as int],
            ),
    {
        let x = digit2 as usize;
        let y = digit3 as usize;
        let vy = self.v_reg[y];
        self.v_reg.set(x, vy);
    }

    fn opcode_8xy1(&mut self, digit2: u16, digit3: u16)
        requires
            old(self).wf(),
            digit2 < 16,
            digit3 < 16,
        ensures
            final(self).wf(),
            op_set_reg(
                *old(self),
                *final(self),
                old(self).pc as int,
                digit2 as int,
                old(self).v_reg@[digit2 as int] | old(self).v_reg@[digit3 as int],
            ),
    {
        let x = digit2 as usize;
        let y = digit3 as usize;
        let v: u8 = self.v_reg[x] | self.v_reg[y];
        self.v_reg.set(x, v);
    }

    fn opcode_8xy2(&mut self, digit2: u16, digit3: u16)
        requires
            old(self).wf(),
            digit2 < 16,
            digit3 < 16,
        ensures
            final(self).wf(),
            op_set_reg(
                *old(self),
                *final(self),
                old(self).pc as int,
                digit2 as int,
                old(self).v_reg@[digit2 as int] & old(self).v_reg@[digit3 as int],
            ),
    {
        let x = digit2 as usize;
        let y = digit3 as usize;
        let v: u8 = self.v_reg[x] & self.v_reg[y];
        self.v_reg.set(x, v);
    }

    fn opcode_8xy3(&mut self, digit2: u16, digit3: u16)
        requires
            old(self).wf(),
            digit2 < 16,
            digit3 < 16,
        ensures
            final(self).wf(),
            op_set_reg(
                *old(self),
                *final(self),
                old(self).pc as int,
                digit2 as int,
                old(self).v_reg@[digit2 as int] ^ old(self).v_reg@[digit3 as int],
            ),
    {
        let x = digit2 as usize;
        let y = digit3 as usize;
        let v: u8 = self.v_reg[x] ^ self.v_reg[y];
        self.v_reg.set(x, v);
    }

    fn opcode_8xy4(&mut self, digit2: u16, digit3: u16)
        requires
            old(self).wf(),
            digit2 < 16,
            digit3 < 16,
        ensures
            final(self).wf(),
            op_add(*old(self), *final(self), old(self).pc as int, digit2 as int, digit3 as int),
    {
        let x = digit2 as usize;
        let y = digit3 as usize;
        let sum: u16 = self.v_reg[x] as u16 + self.v_reg[y] as u16;
        let new_vx: u8 = if sum > 255 { (sum - 256) as u8 } else { sum as u8 };
        let new_vf: u8 = if sum > 255 { 1 } else { 0 };
        self.v_reg.set(x, new_vx);
        self.v_reg.set(15, new_vf);
    }

    fn opcode_8xy5(&mut self, digit2: u16, digit3: u16)
        requires
            old(self).wf(),
            digit2 < 16,
            digit3 < 16,
        ensures
            final(self).wf(),
            op_sub(
                *old(self),
                *final(self),
                old(self).pc as int,
                digit2 as int,
                old(self).v_reg@[digit2 as int],
                old(self).v_reg@[digit3 as int],
            ),
    {
        let x = digit2 as usize;
        let y = digit3 as usize;
        let vx = self.v_reg[x];
        let vy = self.v_reg[y];
        let new_vx: u8 = if vx >= vy { vx - vy } else { ((vx as u16 + 256) - vy as u16) as u8 };
        let new_vf: u8 = if vx >= vy { 1 } else { 0 };
        self.v_reg.set(x, new_vx);
        self.v_reg.set(15, new_vf);
    }

    fn opcode_8xy6(&mut self, digit2: u16)
        requires
            old(self).wf(),
            digit2 < 16,
        ensures
            final(self).wf(),
            op_shr(*old(self), *final(self), old(self).pc as int, digit2 as int),
    {
        let x = digit2 as usize;
        let vx = self.v_reg[x];
        let lsb: u8 = vx & 1;
        self.v_reg.set(x, vx >> 1);
        self.v_reg.set(15, lsb);
    }

    fn opcode_8xy7(&mut self, digit2: u16, digit3: u16)
        requires
            old(self).wf(),
            digit2 < 16,
            digit3 < 16,
        ensures
            final(self).wf(),
            op_sub(
                *old(self),
                *final(self),
                old(self).pc as int,
                digit2 as int,
                old(self).v_reg@[digit3 as int],
                old(self).v_reg@[digit2 as int],
            ),
    {
        let x = digit2 as usize;
        let y = digit3 as usize;
        let vx = self.v_reg[x];
        let vy = self.v_reg[y];
        let new_vx: u8 = if vy >= vx { vy - vx } else { ((vy as u16 + 256) - vx as u16) as u8 };
        let new_vf: u8 = if vy >= vx { 1 } else { 0 };
        self.v_reg.set(x, new_vx);
        self.v_reg.set(15, new_vf);
    }

    fn opcode_8xye(&mut self, digit2: u16)
        requires
            old(self).wf(),
            digit2 < 16,
        ensures
            final(self).wf(),
            op_shl(*old(self), *final(self), old(self).pc as int, digit2 as int),
    {
        let x = digit2 as usize;
        let vx = self.v_reg[x];
        let msb: u8 = (vx >> 7) & 1;
        self.v_reg.set(x, vx << 1);
        self.v_reg.set(15, msb);
    }

    fn opcode_9xy0(&mut self, digit2: u16, digit3: u16)
        requires
            old(self).wf(),
            digit2 < 16,
            digit3 < 16,
            old(self).pc <= 4096,
        ensures
            final(self).wf(),
            op_skip(
                *old(self),
                *final(self),
                old(self).pc as int,
                old(self).v_reg@[digit2 as int] != old(self).v_reg@[digit3 as int],
            ),
    {
        let x = digit2 as usize;
        let y = digit3 as usize;
        if self.v_reg[x] != self.v_reg[y] {
            self.pc += 2;
        }
    }

    fn opcode_annn(&mut self, op: u16)
        requires
            old(self).wf(),
        ensures
            final(self).wf(),
            op_set_i(*old(self), *final(self), old(self).pc as int, op),
    {
        let nnn = op & 0xFFF;
        self.i_reg = nnn;
    }

    fn opcode_bnnn(&mut self, op: u16)
        requires
            old(self).wf(),
        ensures
            final(self).wf(),
            op_jump_v0(*old(self), *final(self), old(self).pc as int, op),
    {
        let nnn = op & 0xFFF;
        proof {
            assert(op & 0xFFF <= 4095) by (bit_vector);
        }
        self.pc = (self.v_reg[0] as u16) + nnn;
    }

    fn opcode_cxnn(&mut self, op: u16, digit2: u16, rnd: u8)
        requires
            old(self).wf(),
            digit2 < 16,
        ensures
            final(self).wf(),
            op_set_reg(
                *old(self),
                *final(self),
                old(self).pc as int,
                digit2 as int,
                rnd & imm_nn(op),
            ),
    {
        let x = digit2 as usize;
        let nn = (op & 0xFF) as u8;
        self.v_reg.set(x, rnd & nn);
    }

    fn opcode_ex9e(&mut self, digit2: u16) -> (r: Result<(), Fault>)
        requires
            old(self).wf(),
            digit2 < 16,
            old(self).pc <= 4096,
        ensures
            final(self).wf(),
            (r is Ok) <==> old(self).v_reg@[digit2 as int] < 16,
            r is Ok ==> op_skip(
                *old(self),
                *final(self),
                old(self).pc as int,
                old(self).keys@[old(self).v_reg@[digit2 as int] as int],
            ),
            r is Err ==> same_state(*old(self), *final(self)) && r == Err::<(), Fault>(
                Fault::CorruptState,
            ),
    {
        let x = digit2 as usize;
        let vx = self.v_reg[x];
        if vx >= 16 {
            return Err(Fault::CorruptState);
        }
        let key = self.keys[vx as usize];
        if key {
            self.pc += 2;
        }
        Ok(())
    }

    fn opcode_exa1(&mut self, digit2: u16) -> (r: Result<(), Fault>)
        requires
            old(self).wf(),
            digit2 < 16,
            old(self).pc <= 4096,
        ensures
            final(self).wf(),
            (r is Ok) <==> old(self).v_reg@[digit2 as int] < 16,
            r is Ok ==> op_skip(
                *old(self),
                *final(self),
                old(self).pc as int,
                !old(self).keys@[old(self).v_reg@[digit2 as int] as int],
            ),
            r is Err ==> same_state(*old(self), *final(self)) && r == Err::<(), Fault>(
                Fault::CorruptState,
            ),
    {
        let x = digit2 as usize;
        let vx = self.v_reg[x];
        if vx >= 16 {
            return Err(Fault::CorruptState);
        }
        let key = self.keys[vx as usize];
        if !key {
            self.pc += 2;
        }
        Ok(())
    }

    fn opcode_fx07(&mut self, digit2: u16)
        requires
            old(self).wf(),
            digit2 < 16,
        ensures
            final(self).wf(),
            op_set_reg(
                *old(self),
                *final(self),
                old(self).pc as int,
                digit2 as int,
                old(self).dt,
            ),
    {
        let x = digit2 as usize;
        let dt = self.dt;
        self.v_reg.set(x, dt);
    }

    fn opcode_fx0a(&mut self, digit2: u16)
        requires
            old(self).wf(),
            digit2 < 16,
            old(self).pc >= 2,
        ensures
            final(self).wf(),
            op_wait_key(*old(self), *final(self), old(self).pc as int, digit2 as int),
    {
        let x = digit2 as usize;
        let mut i: usize = 0;
        while i < 16 && !self.keys[i]
            invariant
                i <= 16,
                self.keys@.len() == 16,
                forall|j: int| 0 <= j < i ==> !self.keys@[j],
            decreases 16 - i,
        {
            i += 1;
        }
        if i < 16 {
            proof {
                assert(is_first_pressed(self.keys@, i as int));
                assert(any_key_pressed(self.keys@));
            }
            self.v_reg.set(x, i as u8);
        } else {
            proof {
                assert(!any_key_pressed(self.keys@));
            }
            self.pc -= 2;
        }
    }

    fn opcode_fx15(&mut self, digit2: u16)
        requires
            old(self).wf(),
            digit2 < 16,
        ensures
            final(self).wf(),
            op_set_dt(*old(self), *final(self), old(self).pc as int, digit2 as int),
    {
        let x = digit2 as usize;
        self.dt = self.v_reg[x];
    }

    fn opcode_fx18(&mut self, digit2: u16)
        requires
            old(self).wf(),
            digit2 < 16,
        ensures
            final(self).wf(),
            op_set_st(*old(self), *final(self), old(self).pc as int, digit2 as int),
    {
        let x = digit2 as usize;
        self.st = self.v_reg[x];
    }

    fn opcode_fx1e(&mut self, digit2: u16)
        requires
            old(self).wf(),
            digit2 < 16,
        ensures
            final(self).wf(),
            op_add_i(*old(self), *final(self), old(self).pc as int, digit2 as int),
    {
        let x = digit2 as usize;
        let vx = self.v_reg[x] as u16;
        self.i_reg = self.i_reg.wrapping_add(vx);
    }

    fn opcode_fx29(&mut self, digit2: u16)
        requires
            old(self).wf(),
            digit2 < 16,
        ensures
            final(self).wf(),
            op_font(*old(self), *final(self), old(self).pc as int, digit2 as int),
    {
        let x = digit2 as usize;
        let c = self.v_reg[x] as u16;
        self.i_reg = c * 5;
    }

    fn opcode_fx33(&mut self, digit2: u16) -> (r: Result<(), Fault>)
        requires
            old(self).wf(),
            digit2 < 16,
        ensures
            final(self).wf(),
            (r is Ok) <==> old(self).i_reg + 3 <= 4096,
            r is Ok ==> op_bcd(*old(self), *final(self), old(self).pc as int, digit2 as int),
            r is Err ==> same_state(*old(self), *final(self)) && r == Err::<(), Fault>(
                Fault::CorruptState,
            ),
    {
        if self.i_reg > 4093 {
            return Err(Fault::CorruptState);
        }
        let x = digit2 as usize;
        let vx = self.v_reg[x];
        let i = self.i_reg as usize;
        let hundreds: u8 = vx / 100;
        let tens: u8 = (vx / 10) % 10;
        let ones: u8 = vx % 10;
        self.ram.set(i, hundreds);
        self.ram.set(i + 1, tens);
        self.ram.set(i + 2, ones);
        Ok(())
    }

    fn opcode_fx55(&mut self, digit2: u16) -> (r: Result<(), Fault>)
        requires
            old(self).wf(),
            digit2 < 16,
        ensures
            final(self).wf(),
            (r is Ok) <==> old(self).i_reg + digit2 + 1 <= 4096,
            r is Ok ==> op_store_regs(*old(self), *final(self), old(self).pc as int, digit2 as int),
            r is Err ==> same_state(*old(self), *final(self)) && r == Err::<(), Fault>(
                Fault::CorruptState,
            ),
    {
        let x = digit2 as usize;
        if self.i_reg as usize + x > 4095 {
            return Err(Fault::CorruptState);
        }
        let i = self.i_reg as usize;
        let mut idx: usize = 0;
        while idx <= x
            invariant
                idx <= x + 1,
                x < 16,
                i + x <= 4095,
                i == old(self).i_reg,
                self.ram@.len() == 4096,
                old(self).wf(),
                forall|j: int| 0 <= j < idx ==> self.ram@[i + j] == old(self).v_reg@[j],
                forall|j: int|
                    0 <= j < 4096 && !(i <= j < i + idx) ==> self.ram@[j] == old(self).ram@[j],
                self.screen == old(self).screen,
                self.v_reg == old(self).v_reg,
                self.stack == old(self).stack,
                self.keys == old(self).keys,
                self.pc == old(self).pc,
                self.i_reg == old(self).i_reg,
                self.sp == old(self).sp,
                self.dt == old(self).dt,
                self.st == old(self).st,
            decreases x + 1 - idx,
        {
            let v = self.v_reg[idx];
            self.ram.set(i + idx, v);
            idx += 1;
        }
        Ok(())
    }

    fn opcode_fx65(&mut self, digit2: u16) -> (r: Result<(), Fault>)
        requires
            old(self).wf(),
            digit2 < 16,
        ensures
            final(self).wf(),
            (r is Ok) <==> old(self).i_reg + digit2 + 1 <= 4096,
            r is Ok ==> op_load_regs(*old(self), *final(self), old(self).pc as int, digit2 as int),
            r is Err ==> same_state(*old(self), *final(self)) && r == Err::<(), Fault>(
                Fault::CorruptState,
            ),
    {
        let x = digit2 as usize;
        if self.i_reg as usize + x > 4095 {
            return Err(Fault::CorruptState);
        }
        let i = self.i_reg as usize;
        let mut idx: usize = 0;
        while idx <= x
            invariant
                idx <= x + 1,
                x < 16,
                i + x <= 4095,
                i == old(self).i_reg,
                self.v_reg@.len() == 16,
                old(self).wf(),
                forall|j: int| 0 <= j < idx ==> self.v_reg@[j] == old(self).ram@[i + j],
                forall|j: int| idx <= j < 16 ==> self.v_reg@[j] == old(self).v_reg@[j],
                self.ram == old(self).ram,
                self.screen == old(self).screen,
                self.stack == old(self).stack,
                self.keys == old(self).keys,
                self.pc == old(self).pc,
                self.i_reg == old(self).i_reg,
                self.sp == old(self).sp,
                self.dt == old(self).dt,
                self.st == old(self).st,
            decreases x + 1 - idx,
        {
            let v = self.ram[i + idx];
            self.v_reg.set(idx, v);
            idx += 1;
        }
        Ok(())
    }

    fn opcode_dxyn(&mut self, digit2: u16, digit3: u16, digit4: u16) -> (r: Result<(), Fault>)
        requires
            old(self).wf(),
            digit2 < 16,
            digit3 < 16,
            digit4 < 16,
        ensures
            final(self).wf(),
            (r is Ok) <==> old(self).i_reg + digit4 <= 4096,
            r is Ok ==> op_draw(
                *old(self),
                *final(self),
                old(self).pc as int,
                digit2 as int,
                digit3 as int,
                digit4 as int,
            ),
            r is Err ==> same_state(*old(self), *final(self)) && r == Err::<(), Fault>(
                Fault::CorruptState,
            ),
    {
        let n = digit4 as usize;
        if self.i_reg as usize + n > 4096 {
            return Err(Fault::CorruptState);
        }
        let x_coord = self.v_reg[digit2 as usize];
        let y_coord = self.v_reg[digit3 as usize];
        let ghost ram0 = self.ram@;
        let ghost scr0 = self.screen@;
        let ghost i0 = self.i_reg as int;
        let ghost x0 = x_coord as int;
        let ghost y0 = y_coord as int;
        let mut flipped = false;
        let mut row: usize = 0;
        while row < n
            invariant
                row <= n,
                n < 16,
                i0 + n <= 4096,
                ram0 == old(self).ram@,
                scr0 == old(self).screen@,
                i0 == old(self).i_reg as int,
                x0 == x_coord as int,
                y0 == y_coord as int,
                x_coord == old(self).v_reg@[digit2 as int],
                y_coord == old(self).v_reg@[digit3 as int],
                old(self).wf(),
                self.screen@.len() == 2048,
                forall|idx: int|
                    0 <= idx < 2048 ==> self.screen@[idx] == (scr0[idx] != sprite_covers(
                        ram0,
                        i0,
                        x0,
                        y0,
                        row as int,
                        idx,
                    )),
                flipped == sprite_collides(ram0, i0, x0, y0, row as int, scr0),
                self.ram == old(self).ram,
                self.v_reg == old(self).v_reg,
                self.stack == old(self).stack,
                self.keys == old(self).keys,
                self.pc == old(self).pc,
                self.i_reg == old(self).i_reg,
                self.sp == old(self).sp,
                self.dt == old(self).dt,
                self.st == old(self).st,
            decreases n - row,
        {
            let addr = self.i_reg as usize + row;
            let pixels = self.ram[addr];
            let mut col: usize = 0;
            while col < 8
                invariant
                    col <= 8,
                    row < n,
                    n < 16,
                    i0 + n <= 4096,
                    ram0 == old(self).ram@,
                    scr0 == old(self).screen@,
                    i0 == old(self).i_reg as int,
                    x0 == x_coord as int,
                    y0 == y_coord as int,
                    x_coord == old(self).v_reg@[digit2 as int],
                    y_coord == old(self).v_reg@[digit3 as int],
                    old(self).wf(),
                    self.screen@.len() == 2048,
                    pixels == ram0[i0 + row],
                    forall|idx: int|
                        0 <= idx < 2048 ==> self.screen@[idx] == (scr0[idx] != (sprite_covers(
                            ram0,
                            i0,
                            x0,
                            y0,
                            row as int,
                            idx,
                        ) || row_covers(pixels, x0, y0 + row, col as int, idx))),
                    flipped == (sprite_collides(ram0, i0, x0, y0, row as int, scr0)
                        || row_collides(pixels, x0, y0 + row, col as int, scr0)),
                    self.ram == old(self).ram,
                    self.v_reg == old(self).v_reg,
                    self.stack == old(self).stack,
                    self.keys == old(self).keys,
                    self.pc == old(self).pc,
                    self.i_reg == old(self).i_reg,
                    self.sp == old(self).sp,
                    self.dt == old(self).dt,
                    self.st == old(self).st,
                decreases 8 - col,
            {
                if pixels & (0x80u8 >> (col as u8)) != 0 {
                    let xx = (x_coord as usize + col) % 64;
                    let yy = (y_coord as usize + row) % 32;
                    let idx = xx + 64 * yy;
                    proof {
                        assert(idx == cell_index(x0 + col, y0 + row));
                        lemma_sprite_fresh(ram0, i0, x0, y0, row as int, row as int, col as int);
                        lemma_row_fresh(pixels, x0, y0 + row, col as int, col as int);
                        assert(sprite_pixel(pixels, col as int));
                    }
                    let cur = self.screen[idx];
                    if cur {
                        flipped = true;
                    }
                    self.screen.set(idx, !cur);
                    proof {
                        let ghost cnew = col as int + 1;
                        assert forall|j: int| 0 <= j < 2048 implies self.screen@[j] == (scr0[j]
                            != (sprite_covers(ram0, i0, x0, y0, row as int, j) || row_covers(
                            pixels,
                            x0,
                            y0 + row,
                            cnew,
                            j,
                        ))) by {
                            assert(row_covers(pixels, x0, y0 + row, cnew, j) == (row_covers(
                                pixels,
                                x0,
                                y0 + row,
                                col as int,
                                j,
                            ) || (sprite_pixel(pixels, col as int) && j == cell_index(
                                x0 + col,
                                y0 + row,
                            ))));
                        }
                        assert(row_collides(pixels, x0, y0 + row, cnew, scr0) == (row_collides(
                            pixels,
                            x0,
                            y0 + row,
                            col as int,
                            scr0,
                        ) || (sprite_pixel(pixels, col as int) && scr0[cell_index(
                            x0 + col,
                            y0 + row,
                        )])));
                        assert(cur == scr0[idx as int]);
                    }
                } else {
                    proof {
                        let ghost cnew = col as int + 1;
                        assert(!sprite_pixel(pixels, col as int));
                        assert forall|j: int| 0 <= j < 2048 implies #[trigger] row_covers(
                            pixels,
                            x0,
                            y0 + row,
                            cnew,
                            j,
                        ) == row_covers(pixels, x0, y0 + row, col as int, j) by {
                            assert(row_covers(pixels, x0, y0 + row, cnew, j) == (row_covers(
                                pixels,
                                x0,
                                y0 + row,
                                col as int,
                                j,
                            ) || (sprite_pixel(pixels, col as int) && j == cell_index(
                                x0 + col,
                                y0 + row,
                            ))));
                        }
                        assert(row_collides(pixels, x0, y0 + row, cnew, scr0) == row_collides(
                            pixels,
                            x0,
                            y0 + row,
                            col as int,
                            scr0,
                        ));
                    }
                }
                col += 1;
            }
            proof {
                let ghost rnew = row as int + 1;
                assert forall|j: int| 0 <= j < 2048 implies sprite_covers(
                    ram0,
                    i0,
                    x0,
                    y0,
                    rnew,
                    j,
                ) == (sprite_covers(ram0, i0, x0, y0, row as int, j) || row_covers(
                    pixels,
                    x0,
                    y0 + row,
                    8,
                    j,
                )) by {}
                assert(sprite_collides(ram0, i0, x0, y0, rnew, scr0) == (sprite_collides(
                    ram0,
                    i0,
                    x0,
                    y0,
                    row as int,
                    scr0,
                ) || row_collides(pixels, x0, y0 + row, 8, scr0)));
            }
            row += 1;
        }
        if flipped {
            self.v_reg.set(15, 1);
        } else {
            self.v_reg.set(15, 0);
        }
        Ok(())
    }
}

// ---------------------------------------------------------------------------
// The fetch-decode-execute cycle.
// ---------------------------------------------------------------------------

impl Cpu {
    /// Reads the two instruction bytes at the program counter, combines them
    /// big-endian, and advances the program counter past them.
    fn fetch(&mut self) -> (op: u16)
        requires
            old(self).wf(),
            old(self).pc <= 4094,
        ensures
            final(self).wf(),
            only_pc_changes(*old(self), *final(self)),
            final(self).pc == old(self).pc + 2,
            op == word_at(old(self).ram@, old(self).pc as int),
    {
        let higher_byte = self.ram[self.pc as usize] as u16;
        let lower_byte = self.ram[(self.pc + 1) as usize] as u16;
        let op = (higher_byte << 8) | lower_byte;
        self.pc += 2;
        op
    }

    /// Decodes the four nibble fields of `op` and runs the one opcode they
    /// select, on a state whose program counter the fetch has already
    /// advanced. The ghost `pre0` is the state before the fetch; it agrees
    /// with the current state on everything but the program counter, and the
    /// transition is stated against it.
    fn execute(&mut self, op: u16, rnd: u8, Ghost(pre0): Ghost<Cpu>) -> (r: Result<(), Fault>)
        requires
            old(self).wf(),
            2 <= old(self).pc <= 4096,
            pre0.ram == old(self).ram,
            pre0.screen == old(self).screen,
            pre0.v_reg == old(self).v_reg,
            pre0.stack == old(self).stack,
            pre0.sp == old(self).sp,
            pre0.i_reg == old(self).i_reg,
            pre0.dt == old(self).dt,
            pre0.st == old(self).st,
            pre0.keys == old(self).keys,
        ensures
            final(self).wf(),
            (r is Ok) <==> (op_known(op) && !op_out_of_bounds(pre0, op)),
            r is Ok ==> step_effect(pre0, *final(self), old(self).pc as int, op, rnd),
            r is Err ==> same_state(*old(self), *final(self)),
            r is Err ==> r == Err::<(), Fault>(
                if op_known(op) {
                    Fault::CorruptState
                } else {
                    Fault::UnknownOpcode
                },
            ),
    {
        let digit1 = (op & 0xF000) >> 12;
        let digit2 = (op & 0x0F00) >> 8;
        let digit3 = (op & 0x00F0) >> 4;
        let digit4 = op & 0x000F;
        proof {
            assert((op & 0xF000) >> 12 < 16 && (op & 0x0F00) >> 8 < 16 && (op & 0x00F0) >> 4 < 16
                && (op & 0x000F) < 16) by (bit_vector);
        }
        match (digit1, digit2, digit3, digit4) {
            (0, 0, 0, 0) => Ok(()),
            (0, 0, 0xE, 0) => {
                self.opcode_00e0();
                Ok(())
            },
            (0, 0, 0xE, 0xE) => self.opcode_00ee(),
            (1, _, _, _) => {
                self.opcode_1nnn(op);
                Ok(())
            },
            (2, _, _, _) => self.opcode_2nnn(op),
            (3, _, _, _) => {
                self.opcode_3xnn(op, digit2);
                Ok(())
            },
            (4, _, _, _) => {
                self.opcode_4xnn(op, digit2);
                Ok(())
            },
            (5, _, _, 0) => {
                self.opcode_5xy0(digit2, digit3);
                Ok(())
            },
            (6, _, _, _) => {
                self.opcode_6xnn(op, digit2);
                Ok(())
            },
            (7, _, _, _) => {
                self.opcode_7xnn(op, digit2);
                Ok(())
            },
            (8, _, _, 0) => {
                self.opcode_8xy0(digit2, digit3);
                Ok(())
            },
            (8, _, _, 1) => {
                self.opcode_8xy1(digit2, digit3);
                Ok(())
            },
            (8, _, _, 2) => {
                self.opcode_8xy2(digit2, digit3);
                Ok(())
            },
            (8, _, _, 3) => {
                self.opcode_8xy3(digit2, digit3);
                Ok(())
            },
            (8, _, _, 4) => {
                self.opcode_8xy4(digit2, digit3);
                Ok(())
            },
            (8, _, _, 5) => {
                self.opcode_8xy5(digit2, digit3);
                Ok(())
            },
            (8, _, _, 6) => {
                self.opcode_8xy6(digit2);
                Ok(())
            },
            (8, _, _, 7) => {
                self.opcode_8xy7(digit2, digit3);
                Ok(())
            },
            (8, _, _, 0xE) => {
                self.opcode_8xye(digit2);
                Ok(())
            },
            (9, _, _, 0) => {
                self.opcode_9xy0(digit2, digit3);
                Ok(())
            },
            (0xA, _, _, _) => {
                self.opcode_annn(op);
                Ok(())
            },
            (0xB, _, _, _) => {
                self.opcode_bnnn(op);
                Ok(())
            },
            (0xC, _, _, _) => {
                self.opcode_cxnn(op, digit2, rnd);
                Ok(())
            },
            (0xD, _, _, _) => self.opcode_dxyn(digit2, digit3, digit4),
            (0xE, _, 9, 0xE) => self.opcode_ex9e(digit2),
            (0xE, _, 0xA, 1) => self.opcode_exa1(digit2),
            (0xF, _, 0, 7) => {
                self.opcode_fx07(digit2);
                Ok(())
            },
            (0xF, _, 0, 0xA) => {
                self.opcode_fx0a(digit2);
                Ok(())
            },
            (0xF, _, 1, 5) => {
                self.opcode_fx15(digit2);
                Ok(())
            },
            (0xF, _, 1, 8) => {
                self.opcode_fx18(digit2);
                Ok(())
            },
            (0xF, _, 1, 0xE) => {
                self.opcode_fx1e(digit2);
                Ok(())
            },
            (0xF, _, 2, 9) => {
                self.opcode_fx29(digit2);
                Ok(())
            },
            (0xF, _, 3, 3) => self.opcode_fx33(digit2),
            (0xF, _, 5, 5) => self.opcode_fx55(digit2),
            (0xF, _, 6, 5) => self.opcode_fx65(digit2),
            (_, _, _, _) => Err(Fault::UnknownOpcode),
        }
    }

    /// One step: fetches the instruction word at the program counter,
    /// advances the program counter by 2, and executes the word. The byte
    /// `random_byte` is the driver's draw from its random source; only the
    /// random opcode reads it. On any fault the machine state is exactly as
    /// it was before the call.
    pub fn tick(&mut self, random_byte: u8) -> (r: Result<(), Fault>)
        requires
            old(self).wf(),
        ensures
            final(self).wf(),
            (r is Ok) <==> (old(self).pc <= 4094 && op_known(
                word_at(old(self).ram@, old(self).pc as int),
            ) && !op_out_of_bounds(*old(self), word_at(old(self).ram@, old(self).pc as int))),
            r is Ok ==> step_effect(
                *old(self),
                *final(self),
                old(self).pc + 2,
                word_at(old(self).ram@, old(self).pc as int),
                random_byte,
            ),
            r is Err ==> same_state(*old(self), *final(self)),
            r is Err ==> r == Err::<(), Fault>(
                if old(self).pc <= 4094 && !op_known(word_at(old(self).ram@, old(self).pc as int)) {
                    Fault::UnknownOpcode
                } else {
                    Fault::CorruptState
                },
            ),
    {
        if self.pc > 4094 {
            return Err(Fault::CorruptState);
        }
        let op = self.fetch();
        let r = self.execute(op, random_byte, Ghost(*old(self)));
        if r.is_err() {
            self.pc -= 2;
        }
        r
    }

    /// Decrements the delay timer by one when it is nonzero; at zero the
    /// tick is a no-op.
    pub fn tick_timers(&mut self)
        ensures
            final(self).dt == if old(self).dt > 0 {
                (old(self).dt - 1) as u8
            } else {
                0u8
            },
            same_mem(*old(self), *final(self)),
            same_screen(*old(self), *final(self)),
            same_regs(*old(self), *final(self)),
            same_call_stack(*old(self), *final(self)),
            same_pc(*old(self), *final(self)),
            same_i_reg(*old(self), *final(self)),
            same_keys(*old(self), *final(self)),
            final(self).st == old(self).st,
    {
        if self.dt > 0 {
            self.dt -= 1;
        }
    }

    /// Decrements the sound timer by one when it is nonzero, and reports
    /// whether the tone should sound for this tick: exactly when the value
    /// before the decrement was 1, so the tick that brings the timer to zero
    /// is the last audible one. The caller pulses the audio device when the
    /// result is true.
    pub fn tick_timers_beep(&mut self) -> (beep: bool)
        ensures
            beep == (old(self).st == 1),
            final(self).st == if old(self).st > 0 {
                (old(self).st - 1) as u8
            } else {
                0u8
            },
            same_mem(*old(self), *final(self)),
            same_screen(*old(self), *final(self)),
            same_regs(*old(self), *final(self)),
            same_call_stack(*old(self), *final(self)),
            same_pc(*old(self), *final(self)),
            same_i_reg(*old(self), *final(self)),
            same_keys(*old(self), *final(self)),
            final(self).dt == old(self).dt,
    {
        let mut beep = false;
        if self.st > 0 {
            if self.st == 1 {
                beep = true;
            }
            self.st -= 1;
        }
        beep
    }

    /// Records one key going down or up. The driver supplies indices from
    /// the fixed 16-key pad.
    pub fn keypress(&mut self, idx: usize, pressed: bool)
        requires
            old(self).wf(),
            idx < 16,
        ensures
            final(self).wf(),
            final(self).keys@ == old(self).keys@.update(idx as int, pressed),
            same_mem(*old(self), *final(self)),
            same_screen(*old(self), *final(self)),
            same_regs(*old(self), *final(self)),
            same_call_stack(*old(self), *final(self)),
            same_pc(*old(self), *final(self)),
            same_i_reg(*old(self), *final(self)),
            same_timers(*old(self), *final(self)),
    {
        self.keys.set(idx, pressed);
    }

    /// Copies a program image verbatim into memory starting at the program
    /// start address. An image longer than the space above the reserved low
    /// memory is rejected before any byte is copied.
    pub fn load(&mut self, data: &[u8]) -> (r: Result<(), Fault>)
        requires
            old(self).wf(),
        ensures
            final(self).wf(),
            (r is Ok) <==> data@.len() <= 3584,
            r is Ok ==> {
                &&& forall|j: int|
                    0 <= j < data@.len() ==> final(self).ram@[512 + j] == data@[j]
                &&& forall|j: int|
                    0 <= j < 4096 && !(512 <= j < 512 + data@.len()) ==> final(self).ram@[j]
                        == old(self).ram@[j]
                &&& only_mem_changes(*old(self), *final(self))
                &&& same_pc(*old(self), *final(self))
            },
            r is Err ==> same_state(*old(self), *final(self)) && r == Err::<(), Fault>(
                Fault::ProgramTooLarge,
            ),
    {
        if data.len() > 3584 {
            return Err(Fault::ProgramTooLarge);
        }
        let len = data.len();
        let mut k: usize = 0;
        while k < len
            invariant
                k <= len,
                len == data@.len(),
                len <= 3584,
                old(self).wf(),
                self.ram@.len() == 4096,
                forall|j: int| 0 <= j < k ==> self.ram@[512 + j] == data@[j],
                forall|j: int|
                    0 <= j < 4096 && !(512 <= j < 512 + k) ==> self.ram@[j] == old(self).ram@[j],
                self.screen == old(self).screen,
                self.v_reg == old(self).v_reg,
                self.stack == old(self).stack,
                self.keys == old(self).keys,
                self.pc == old(self).pc,
                self.i_reg == old(self).i_reg,
                self.sp == old(self).sp,
                self.dt == old(self).dt,
                self.st == old(self).st,
            decreases len - k,
        {
            let b = data[k];
            self.ram.set(512 + k, b);
            k += 1;
        }
        Ok(())
    }
}

} // verus!
