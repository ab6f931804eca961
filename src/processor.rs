//! The interpreter core: machine state, instruction decoding and the
//! semantics of every instruction.
use vstd::prelude::*;

use crate::font::{font_spec, fontset, FONT_BYTES};
use crate::keys::KeyState;
use crate::{
    CHIP8_RAM, CHIP8_SCREEN_CELLS, CHIP8_SCREEN_HEIGHT, CHIP8_SCREEN_WIDTH, OPCODE_SIZE,
    PROGRAM_CAPACITY, PROGRAM_START, STACK_DEPTH,
};

verus! {

/// A condition that the interpreter reports and then steps over.
#[derive(Clone, Copy, Debug, PartialEq, Eq, Structural)]
pub enum Fault {
    /// The instruction word matches no instruction; it was treated as a no-op.
    InvalidOpcode(u16),
    /// A call found all stack frames in use; it was treated as a no-op.
    StackOverflow(u16),
    /// A return found the stack empty; it was treated as a no-op.
    StackUnderflow(u16),
}

/// What one instruction does to the program counter.
#[derive(Clone, Copy, Debug, PartialEq, Eq, Structural)]
pub enum ProgramCounter {
    /// Advance to the next instruction.
    Next,
    /// Advance past the next instruction.
    Skip,
    /// Continue at the given address.
    Jump(usize),
    /// Stay on this instruction: it waits for a key.
    Wait,
}

impl ProgramCounter {
    pub fn skip_if(cond: bool) -> (r: ProgramCounter)
        ensures
            r == (if cond { ProgramCounter::Skip } else { ProgramCounter::Next }),
    {
        if cond {
            return ProgramCounter::Skip;
        }
        ProgramCounter::Next
    }
}

/// The signals that one cycle hands back to the front end.
#[derive(Clone, Copy, Debug, PartialEq, Eq)]
pub struct Signals {
    /// The framebuffer was drawn to and should be shown.
    pub display: bool,
    /// The framebuffer was cleared and the screen should be cleared.
    pub clear: bool,
    /// The instruction waits for a key: the cycle did not complete, and the
    /// next cycle runs the same instruction again.
    pub awaiting_key: bool,
    /// A condition that was stepped over, if any.
    pub fault: Option<Fault>,
}

/// The machine state of a CHIP-8 interpreter.
///
/// The framebuffer is stored row after row: the pixel at column `c` of row
/// `r` is `vram[r * CHIP8_SCREEN_WIDTH + c]`, and is 0 (off) or 1 (on).
pub struct Processor {
    /// The general registers V0 to VF.
    pub reg: [u8; 16],
    /// The return addresses of the calls in progress, the latest at `sp - 1`.
    pub stack: [usize; STACK_DEPTH],
    pub ram: [u8; CHIP8_RAM],
    pub vram: [u8; CHIP8_SCREEN_CELLS],
    pub pc: usize,
    pub sp: usize,
    /// The index register I.
    pub i: u16,
    pub delay_timer: u8,
    pub sound_timer: u8,
    /// Set when the last instruction drew to the framebuffer.
    pub display_flag: bool,
    /// Set when the last instruction cleared the framebuffer.
    pub clear_flag: bool,
    /// Set when the last instruction waits for a key.
    pub awaiting_key: bool,
    /// The condition that the last instruction stepped over, if any.
    pub fault: Option<Fault>,
}

/// The mathematical model of a [`Processor`].
#[verifier::ext_equal]
pub struct ProcessorModel {
    pub reg: Seq<u8>,
    pub stack: Seq<usize>,
    pub ram: Seq<u8>,
    pub vram: Seq<u8>,
    pub pc: usize,
    pub sp: usize,
    pub i: u16,
    pub delay_timer: u8,
    pub sound_timer: u8,
    pub display_flag: bool,
    pub clear_flag: bool,
    pub awaiting_key: bool,
    pub fault: Option<Fault>,
}

impl View for Processor {
    type V = ProcessorModel;

    open spec fn view(&self) -> ProcessorModel {
        ProcessorModel {
            reg: self.reg@,
            stack: self.stack@,
            ram: self.ram@,
            vram: self.vram@,
            pc: self.pc,
            sp: self.sp,
            i: self.i,
            delay_timer: self.delay_timer,
            sound_timer: self.sound_timer,
            display_flag: self.display_flag,
            clear_flag: self.clear_flag,
            awaiting_key: self.awaiting_key,
            fault: self.fault,
        }
    }
}

impl ProcessorModel {
    /// The program counter addresses memory, the stack pointer is within the
    /// stack, and every pixel is off or on.
    pub open spec fn wf(self) -> bool {
        &&& self.reg.len() == 16
        &&& self.stack.len() == STACK_DEPTH
        &&& self.ram.len() == CHIP8_RAM
        &&& self.vram.len() == CHIP8_SCREEN_CELLS
        &&& self.pc < CHIP8_RAM
        &&& self.sp <= STACK_DEPTH
        &&& forall|p: int| 0 <= p < CHIP8_SCREEN_CELLS ==> #[trigger] self.vram[p] <= 1
    }
}

impl Processor {
    pub open spec fn wf(&self) -> bool {
        self@.wf()
    }
}

/// The memory address `k` bytes past `base`; addresses wrap at the end of memory.
pub open spec fn addr(base: int, k: int) -> int {
    (base + k) % (CHIP8_RAM as int)
}

/// The instruction word at the program counter, high byte first.
pub open spec fn fetch_spec(m: ProcessorModel) -> u16 {
    (m.ram[m.pc as int] as u16) << 8u16 | m.ram[addr(m.pc as int, 1)] as u16
}

/// Bits 12 to 15: the instruction family.
pub open spec fn family_of(op: u16) -> u16 {
    (op & 0xF000) >> 12u16
}

/// Bits 8 to 11: the first register operand.
pub open spec fn x_of(op: u16) -> u16 {
    (op & 0x0F00) >> 8u16
}

/// Bits 4 to 7: the second register operand.
pub open spec fn y_of(op: u16) -> u16 {
    (op & 0x00F0) >> 4u16
}

/// Bits 0 to 3: a nibble operand.
pub open spec fn n_of(op: u16) -> u16 {
    op & 0x000F
}

/// Bits 0 to 7: a byte operand.
pub open spec fn kk_of(op: u16) -> u16 {
    op & 0x00FF
}

/// Bits 0 to 11: an address operand.
pub open spec fn nnn_of(op: u16) -> u16 {
    op & 0x0FFF
}

pub proof fn lemma_fields_bounded(op: u16)
    ensures
        family_of(op) < 16,
        x_of(op) < 16,
        y_of(op) < 16,
        n_of(op) < 16,
        kk_of(op) < 256,
        nnn_of(op) < 4096,
{
    assert(family_of(op) < 16 && x_of(op) < 16 && y_of(op) < 16 && n_of(op) < 16
        && kk_of(op) < 256 && nnn_of(op) < 4096) by (bit_vector);
}


/// The program counter after an instruction with the given disposition.
pub open spec fn next_pc(pc: usize, d: ProgramCounter) -> usize {
    match d {
        ProgramCounter::Next => ((pc + OPCODE_SIZE) % (CHIP8_RAM as int)) as usize,
        ProgramCounter::Skip => ((pc + 2 * OPCODE_SIZE) % (CHIP8_RAM as int)) as usize,
        ProgramCounter::Jump(a) => (a % CHIP8_RAM) as usize,
        ProgramCounter::Wait => pc,
    }
}

/// The state after an instruction with the given disposition.
pub open spec fn apply_pc(m: ProcessorModel, d: ProgramCounter) -> ProcessorModel {
    ProcessorModel { pc: next_pc(m.pc, d), ..m }
}

pub open spec fn skip_if_spec(cond: bool) -> ProgramCounter {
    if cond {
        ProgramCounter::Skip
    } else {
        ProgramCounter::Next
    }
}

/// The state after reporting a fault and stepping over the instruction.
pub open spec fn faulted(m: ProcessorModel, f: Fault) -> (ProcessorModel, ProgramCounter) {
    (ProcessorModel { fault: Some(f), ..m }, ProgramCounter::Next)
}

/// The state with register `x` set to `v`.
pub open spec fn set_reg(m: ProcessorModel, x: int, v: u8) -> ProcessorModel {
    ProcessorModel { reg: m.reg.update(x, v), ..m }
}

/// Family 0: 00E0 clears the screen, 00EE returns from a subroutine; any
/// other word of the family is invalid.
pub open spec fn op_0_spec(m: ProcessorModel, op: u16) -> (ProcessorModel, ProgramCounter) {
    if op == 0x00E0 {
        (
            ProcessorModel {
                vram: Seq::new(CHIP8_SCREEN_CELLS as nat, |p: int| 0u8),
                clear_flag: true,
                ..m
            },
            ProgramCounter::Next,
        )
    } else if op == 0x00EE {
        if m.sp == 0 {
            faulted(m, Fault::StackUnderflow(op))
        } else {
            (
                ProcessorModel { sp: (m.sp - 1) as usize, ..m },
                ProgramCounter::Jump(m.stack[m.sp - 1]),
            )
        }
    } else {
        faulted(m, Fault::InvalidOpcode(op))
    }
}

/// Family 2: push the address of the next instruction and jump.
pub open spec fn op_2_spec(m: ProcessorModel, op: u16) -> (ProcessorModel, ProgramCounter) {
    if m.sp >= STACK_DEPTH {
        faulted(m, Fault::StackOverflow(op))
    } else {
        (
            ProcessorModel {
                stack: m.stack.update(m.sp as int, (m.pc + OPCODE_SIZE) as usize),
                sp: (m.sp + 1) as usize,
                ..m
            },
            ProgramCounter::Jump(nnn_of(op) as usize),
        )
    }
}

/// 5xy0: skip if Vx == Vy; a nonzero low nibble is invalid.
pub open spec fn op_5_spec(m: ProcessorModel, op: u16) -> (ProcessorModel, ProgramCounter) {
    if n_of(op) == 0 {
        (m, skip_if_spec(m.reg[x_of(op) as int] == m.reg[y_of(op) as int]))
    } else {
        faulted(m, Fault::InvalidOpcode(op))
    }
}

/// 9xy0: skip if Vx != Vy; a nonzero low nibble is invalid.
pub open spec fn op_9_spec(m: ProcessorModel, op: u16) -> (ProcessorModel, ProgramCounter) {
    if n_of(op) == 0 {
        (m, skip_if_spec(m.reg[x_of(op) as int] != m.reg[y_of(op) as int]))
    } else {
        faulted(m, Fault::InvalidOpcode(op))
    }
}

/// Family 8: register to register arithmetic and logic. Each step reads the
/// registers as the previous step left them.
pub open spec fn op_8_spec(m: ProcessorModel, op: u16) -> (ProcessorModel, ProgramCounter) {
    let x = x_of(op) as int;
    let y = y_of(op) as int;
    let vx = m.reg[x];
    let vy = m.reg[y];
    if n_of(op) == 0x0 {
        (set_reg(m, x, vy), ProgramCounter::Next)
    } else if n_of(op) == 0x1 {
        (set_reg(m, x, vx | vy), ProgramCounter::Next)
    } else if n_of(op) == 0x2 {
        (set_reg(m, x, vx & vy), ProgramCounter::Next)
    } else if n_of(op) == 0x3 {
        (set_reg(m, x, vx ^ vy), ProgramCounter::Next)
    } else if n_of(op) == 0x4 {
        let sum = vx + vy;
        let m1 = set_reg(m, x, (sum % 256) as u8);
        (set_reg(m1, 0xF, if sum > 0xFF { 1u8 } else { 0u8 }), ProgramCounter::Next)
    } else if n_of(op) == 0x5 {
        let m1 = set_reg(m, 0xF, if vx > vy { 1u8 } else { 0u8 });
        (set_reg(m1, x, ((m1.reg[x] - m1.reg[y]) % 256) as u8), ProgramCounter::Next)
    } else if n_of(op) == 0x6 {
        let m1 = set_reg(m, 0xF, vx & 1);
        (set_reg(m1, x, m1.reg[x] >> 1u8), ProgramCounter::Next)
    } else if n_of(op) == 0x7 {
        let m1 = set_reg(m, 0xF, if vy > vx { 1u8 } else { 0u8 });
        (set_reg(m1, x, ((m1.reg[y] - m1.reg[x]) % 256) as u8), ProgramCounter::Next)
    } else if n_of(op) == 0xE {
        let m1 = set_reg(m, 0xF, vx >> 7u8);
        (set_reg(m1, x, m1.reg[x] << 1u8), ProgramCounter::Next)
    } else {
        faulted(m, Fault::InvalidOpcode(op))
    }
}


/// Row of framebuffer cell `p`.
pub open spec fn row_of(p: int) -> int {
    p / (CHIP8_SCREEN_WIDTH as int)
}

/// Column of framebuffer cell `p`.
pub open spec fn col_of(p: int) -> int {
    p % (CHIP8_SCREEN_WIDTH as int)
}

/// Bit `b` of a sprite row, counted from the most significant bit, as 0 or 1.
pub open spec fn sprite_bit(data: u8, b: int) -> u8 {
    (data >> ((7 - b) as u8)) & 1u8
}

/// The sprite of a draw instruction: origin (`vx`, `vy`), clipped to
/// `rows` rows and `cols` columns at the screen's edges.
pub struct Sprite {
    pub vx: int,
    pub vy: int,
    pub rows: int,
    pub cols: int,
}

/// The sprite that instruction `op` draws in state `m`. Only the origin
/// wraps; rows and columns past the screen's edges are not drawn.
pub open spec fn sprite_of(m: ProcessorModel, op: u16) -> Sprite {
    let vx = m.reg[x_of(op) as int] as int % (CHIP8_SCREEN_WIDTH as int);
    let vy = m.reg[y_of(op) as int] as int % (CHIP8_SCREEN_HEIGHT as int);
    let n = n_of(op) as int;
    Sprite {
        vx,
        vy,
        rows: if n < CHIP8_SCREEN_HEIGHT - vy { n } else { CHIP8_SCREEN_HEIGHT - vy },
        cols: if 8 < CHIP8_SCREEN_WIDTH - vx { 8 } else { CHIP8_SCREEN_WIDTH - vx },
    }
}

/// Cell `p` of the framebuffer is covered by sprite `s`.
pub open spec fn covers(s: Sprite, p: int) -> bool {
    &&& 0 <= p < CHIP8_SCREEN_CELLS
    &&& s.vy <= row_of(p) < s.vy + s.rows
    &&& s.vx <= col_of(p) < s.vx + s.cols
}

/// The sprite bit that lands on cell `p`: sprite rows are read from memory
/// at I onwards.
pub open spec fn bit_at(m: ProcessorModel, s: Sprite, p: int) -> u8 {
    sprite_bit(m.ram[addr(m.i as int, row_of(p) - s.vy)], col_of(p) - s.vx)
}

/// Drawing sprite `s` turns an already lit pixel off.
pub open spec fn collides(m: ProcessorModel, s: Sprite) -> bool {
    exists|p: int| #[trigger] covers(s, p) && bit_at(m, s, p) == 1 && m.vram[p] == 1
}

/// The framebuffer after drawing sprite `s`: each covered pixel is XORed
/// with its sprite bit.
pub open spec fn drawn(m: ProcessorModel, s: Sprite) -> Seq<u8> {
    Seq::new(
        CHIP8_SCREEN_CELLS as nat,
        |p: int|
            if covers(s, p) {
                m.vram[p] ^ bit_at(m, s, p)
            } else {
                m.vram[p]
            },
    )
}

/// Family D: draw a sprite; VF tells whether a lit pixel was turned off.
pub open spec fn op_d_spec(m: ProcessorModel, op: u16) -> (ProcessorModel, ProgramCounter) {
    let s = sprite_of(m, op);
    (
        ProcessorModel {
            vram: drawn(m, s),
            reg: m.reg.update(0xF, if collides(m, s) { 1u8 } else { 0u8 }),
            display_flag: true,
            ..m
        },
        ProgramCounter::Next,
    )
}

/// Family E: skip on the state of the key named by Vx.
pub open spec fn op_e_spec(m: ProcessorModel, op: u16, keys: KeyState) -> (ProcessorModel, ProgramCounter) {
    let vx = m.reg[x_of(op) as int];
    if kk_of(op) == 0x9E {
        (m, skip_if_spec(keys.is_pressed_spec(vx)))
    } else if kk_of(op) == 0xA1 {
        (m, skip_if_spec(!keys.is_pressed_spec(vx)))
    } else {
        faulted(m, Fault::InvalidOpcode(op))
    }
}

/// Memory after storing registers V0 to V(`count` - 1) from address I on.
pub open spec fn store_regs(ram: Seq<u8>, reg: Seq<u8>, i: u16, count: nat) -> Seq<u8>
    decreases count,
{
    if count == 0 {
        ram
    } else {
        store_regs(ram, reg, i, (count - 1) as nat).update(
            addr(i as int, count - 1),
            reg[count - 1],
        )
    }
}

/// Registers after loading V0 to V(`count` - 1) from address I on.
pub open spec fn load_regs(reg: Seq<u8>, ram: Seq<u8>, i: u16, count: nat) -> Seq<u8>
    decreases count,
{
    if count == 0 {
        reg
    } else {
        load_regs(reg, ram, i, (count - 1) as nat).update(
            count - 1,
            ram[addr(i as int, count - 1)],
        )
    }
}

/// Family F: timers, key wait, index register, BCD and block transfers.
pub open spec fn op_f_spec(m: ProcessorModel, op: u16, keys: KeyState) -> (ProcessorModel, ProgramCounter) {
    let x = x_of(op) as int;
    let vx = m.reg[x];
    if kk_of(op) == 0x07 {
        (set_reg(m, x, m.delay_timer), ProgramCounter::Next)
    } else if kk_of(op) == 0x0A {
        match keys.key_press_spec() {
            Some(k) => (set_reg(m, x, k), ProgramCounter::Next),
            None => (ProcessorModel { awaiting_key: true, ..m }, ProgramCounter::Wait),
        }
    } else if kk_of(op) == 0x15 {
        (ProcessorModel { delay_timer: vx, ..m }, ProgramCounter::Next)
    } else if kk_of(op) == 0x18 {
        (ProcessorModel { sound_timer: vx, ..m }, ProgramCounter::Next)
    } else if kk_of(op) == 0x1E {
        (ProcessorModel { i: ((m.i + vx) % 0x10000) as u16, ..m }, ProgramCounter::Next)
    } else if kk_of(op) == 0x29 {
        (ProcessorModel { i: (vx * 5) as u16, ..m }, ProgramCounter::Next)
    } else if kk_of(op) == 0x33 {
        let ram = m.ram.update(addr(m.i as int, 0), vx / 100).update(
            addr(m.i as int, 1),
            (vx / 10) % 10,
        ).update(addr(m.i as int, 2), vx % 10);
        (ProcessorModel { ram, ..m }, ProgramCounter::Next)
    } else if kk_of(op) == 0x55 {
        (
            ProcessorModel { ram: store_regs(m.ram, m.reg, m.i, (x + 1) as nat), ..m },
            ProgramCounter::Next,
        )
    } else if kk_of(op) == 0x65 {
        (
            ProcessorModel { reg: load_regs(m.reg, m.ram, m.i, (x + 1) as nat), ..m },
            ProgramCounter::Next,
        )
    } else {
        faulted(m, Fault::InvalidOpcode(op))
    }
}

/// The effect of instruction `op` before the program counter moves, and
/// how it moves. `rnd` is the random byte that a random-number instruction
/// uses.
pub open spec fn dispatch_spec(m: ProcessorModel, op: u16, keys: KeyState, rnd: u8) -> (
    ProcessorModel,
    ProgramCounter,
) {
    let x = x_of(op) as int;
    let y = y_of(op) as int;
    let kk = kk_of(op) as u8;
    let f = family_of(op);
    if f == 0x0 {
        op_0_spec(m, op)
    } else if f == 0x1 {
        (m, ProgramCounter::Jump(nnn_of(op) as usize))
    } else if f == 0x2 {
        op_2_spec(m, op)
    } else if f == 0x3 {
        (m, skip_if_spec(m.reg[x] == kk))
    } else if f == 0x4 {
        (m, skip_if_spec(m.reg[x] != kk))
    } else if f == 0x5 {
        op_5_spec(m, op)
    } else if f == 0x6 {
        (set_reg(m, x, kk), ProgramCounter::Next)
    } else if f == 0x7 {
        (set_reg(m, x, ((m.reg[x] + kk) % 256) as u8), ProgramCounter::Next)
    } else if f == 0x8 {
        op_8_spec(m, op)
    } else if f == 0x9 {
        op_9_spec(m, op)
    } else if f == 0xA {
        (ProcessorModel { i: nnn_of(op), ..m }, ProgramCounter::Next)
    } else if f == 0xB {
        (m, ProgramCounter::Jump((nnn_of(op) + m.reg[0]) as usize))
    } else if f == 0xC {
        (set_reg(m, x, kk & rnd), ProgramCounter::Next)
    } else if f == 0xD {
        op_d_spec(m, op)
    } else if f == 0xE {
        op_e_spec(m, op, keys)
    } else {
        op_f_spec(m, op, keys)
    }
}

/// The state after executing instruction `op`, program counter included.
pub open spec fn execute_spec(m: ProcessorModel, op: u16, keys: KeyState, rnd: u8) -> ProcessorModel {
    let (m1, d) = dispatch_spec(m, op, keys, rnd);
    apply_pc(m1, d)
}

/// The cycle signals cleared, as at the start of every cycle.
pub open spec fn signals_cleared(m: ProcessorModel) -> ProcessorModel {
    ProcessorModel { display_flag: false, clear_flag: false, awaiting_key: false, fault: None, ..m }
}

/// Each timer that is not zero counts down by one.
pub open spec fn timers_ticked(m: ProcessorModel) -> ProcessorModel {
    ProcessorModel {
        delay_timer: if m.delay_timer > 0 { (m.delay_timer - 1) as u8 } else { 0 },
        sound_timer: if m.sound_timer > 0 { (m.sound_timer - 1) as u8 } else { 0 },
        ..m
    }
}

/// One cycle: clear the signals, fetch and execute the instruction at the
/// program counter, then count the timers down. A cycle that waits for a
/// key leaves the timers as they are.
pub open spec fn cycle_spec(m: ProcessorModel, keys: KeyState, rnd: u8) -> ProcessorModel {
    let m0 = signals_cleared(m);
    let m1 = execute_spec(m0, fetch_spec(m0), keys, rnd);
    if m1.awaiting_key {
        m1
    } else {
        timers_ticked(m1)
    }
}


/// The state of a new machine: everything zero but the glyphs at the
/// bottom of memory and the program counter at the program start.
pub open spec fn initial_spec() -> ProcessorModel {
    ProcessorModel {
        reg: Seq::new(16, |k: int| 0u8),
        stack: Seq::new(STACK_DEPTH as nat, |k: int| 0usize),
        ram: Seq::new(
            CHIP8_RAM as nat,
            |a: int|
                if a < FONT_BYTES {
                    font_spec()[a]
                } else {
                    0u8
                },
        ),
        vram: Seq::new(CHIP8_SCREEN_CELLS as nat, |p: int| 0u8),
        pc: PROGRAM_START,
        sp: 0,
        i: 0,
        delay_timer: 0,
        sound_timer: 0,
        display_flag: false,
        clear_flag: false,
        awaiting_key: false,
        fault: None,
    }
}

/// The number of bytes of `rom` that a load copies: all of it, up to the
/// program capacity.
pub open spec fn loaded_len(rom: Seq<u8>) -> int {
    if rom.len() < PROGRAM_CAPACITY {
        rom.len() as int
    } else {
        PROGRAM_CAPACITY as int
    }
}

/// Memory after loading `rom` at the program start; bytes past what was
/// copied stay as they were.
pub open spec fn load_spec(ram: Seq<u8>, rom: Seq<u8>) -> Seq<u8> {
    Seq::new(
        ram.len(),
        |a: int|
            if PROGRAM_START <= a < PROGRAM_START + loaded_len(rom) {
                rom[a - PROGRAM_START]
            } else {
                ram[a]
            },
    )
}

/// The signals that state `m` reports.
pub open spec fn signals_spec(m: ProcessorModel) -> Signals {
    Signals {
        display: m.display_flag,
        clear: m.clear_flag,
        awaiting_key: m.awaiting_key,
        fault: m.fault,
    }
}

/// Executing an instruction keeps the state well formed.
pub proof fn lemma_execute_wf(m: ProcessorModel, op: u16, keys: KeyState, rnd: u8)
    requires
        m.wf(),
    ensures
        execute_spec(m, op, keys, rnd).wf(),
        dispatch_spec(m, op, keys, rnd).0.pc == m.pc,
{
    lemma_fields_bounded(op);
    if family_of(op) == 0xD {
        lemma_draw_wf(m, op);
    }
    if family_of(op) == 0xF && kk_of(op) == 0x65 {
        lemma_load_regs_len(m.reg, m.ram, m.i, (x_of(op) + 1) as nat);
    }
    if family_of(op) == 0xF && kk_of(op) == 0x55 {
        lemma_store_regs_len(m.ram, m.reg, m.i, (x_of(op) + 1) as nat);
    }
}

/// Drawing keeps every pixel off or on.
pub proof fn lemma_draw_wf(m: ProcessorModel, op: u16)
    requires
        m.wf(),
    ensures
        op_d_spec(m, op).0.wf(),
{
    lemma_fields_bounded(op);
    let s = sprite_of(m, op);
    let v = drawn(m, s);
    assert forall|p: int| 0 <= p < CHIP8_SCREEN_CELLS implies #[trigger] v[p] <= 1 by {
        let data = m.ram[addr(m.i as int, row_of(p) - s.vy)];
        lemma_pixel_bits(m.vram[p], data, (7 - (col_of(p) - s.vx)) as u8);
    }
}

pub proof fn lemma_store_regs_len(ram: Seq<u8>, reg: Seq<u8>, i: u16, count: nat)
    requires
        ram.len() == CHIP8_RAM,
    ensures
        store_regs(ram, reg, i, count).len() == ram.len(),
    decreases count,
{
    if count > 0 {
        lemma_store_regs_len(ram, reg, i, (count - 1) as nat);
    }
}

pub proof fn lemma_load_regs_len(reg: Seq<u8>, ram: Seq<u8>, i: u16, count: nat)
    requires
        count <= reg.len(),
    ensures
        load_regs(reg, ram, i, count).len() == reg.len(),
    decreases count,
{
    if count > 0 {
        lemma_load_regs_len(reg, ram, i, (count - 1) as nat);
    }
}

/// Cell `r * width + c` lies in row `r` and column `c`, and every cell is
/// found that way from its row and column.
pub proof fn lemma_cell(r: int, c: int, p: int)
    requires
        0 <= r,
        0 <= c < CHIP8_SCREEN_WIDTH,
        0 <= p,
    ensures
        row_of(r * (CHIP8_SCREEN_WIDTH as int) + c) == r,
        col_of(r * (CHIP8_SCREEN_WIDTH as int) + c) == c,
        p == row_of(p) * (CHIP8_SCREEN_WIDTH as int) + col_of(p),
        0 <= col_of(p) < CHIP8_SCREEN_WIDTH,
{
    let w = CHIP8_SCREEN_WIDTH as int;
    vstd::arithmetic::div_mod::lemma_fundamental_div_mod_converse(r * w + c, w, r, c);
    vstd::arithmetic::div_mod::lemma_fundamental_div_mod(p, w);
}

/// Pixels and sprite bits are 0 or 1; XOR with a bit twice gives the pixel back.
pub proof fn lemma_pixel_bits(pixel: u8, data: u8, shift: u8)
    ensures
        (data >> shift) & 1u8 <= 1,
        pixel <= 1 && ((data >> shift) & 1u8) <= 1 ==> pixel ^ ((data >> shift) & 1u8) <= 1,
        (pixel ^ ((data >> shift) & 1u8)) ^ ((data >> shift) & 1u8) == pixel,
{
    assert((data >> shift) & 1u8 <= 1) by (bit_vector);
    assert(pixel <= 1 && ((data >> shift) & 1u8) <= 1 ==> pixel ^ ((data >> shift) & 1u8) <= 1)
        by (bit_vector);
    assert((pixel ^ ((data >> shift) & 1u8)) ^ ((data >> shift) & 1u8) == pixel) by (bit_vector);
}

impl Processor {
    /// Bits 8 to 11 of an instruction word.
    pub fn get_x(opcode: u16) -> (r: usize)
        ensures
            r == x_of(opcode),
            r < 16,
    {
        proof {
            lemma_fields_bounded(opcode);
        }
        ((opcode & 0x0F00) >> 8u16) as usize
    }

    /// Bits 4 to 7 of an instruction word.
    pub fn get_y(opcode: u16) -> (r: usize)
        ensures
            r == y_of(opcode),
            r < 16,
    {
        proof {
            lemma_fields_bounded(opcode);
        }
        ((opcode & 0x00F0) >> 4u16) as usize
    }

    /// Bits 0 to 3 of an instruction word.
    pub fn get_00n(opcode: u16) -> (r: u8)
        ensures
            r == n_of(opcode),
            r < 16,
    {
        proof {
            lemma_fields_bounded(opcode);
        }
        (opcode & 0x000F) as u8
    }

    /// Bits 0 to 7 of an instruction word.
    pub fn get_0nn(opcode: u16) -> (r: u8)
        ensures
            r == kk_of(opcode),
    {
        proof {
            lemma_fields_bounded(opcode);
        }
        (opcode & 0x00FF) as u8
    }

    /// Bits 0 to 11 of an instruction word.
    pub fn get_nnn(opcode: u16) -> (r: usize)
        ensures
            r == nnn_of(opcode),
            r < 4096,
    {
        proof {
            lemma_fields_bounded(opcode);
        }
        (opcode & 0x0FFF) as usize
    }

    /// The instruction word at the program counter, high byte first.
    pub fn fetch_opcode(&self) -> (r: u16)
        requires
            self.wf(),
        ensures
            r == fetch_spec(self@),
    {
        (self.ram[self.pc] as u16) << 8u16 | self.ram[(self.pc + 1) % CHIP8_RAM] as u16
    }

    /// Family 0: 00E0 clears the screen, 00EE returns from a subroutine;
    /// any other word of the family is reported as invalid.
    pub fn op_0(&mut self, opcode: u16) -> (r: ProgramCounter)
        requires
            old(self).wf(),
        ensures
            final(self).wf(),
            final(self)@ == op_0_spec(old(self)@, opcode).0,
            r == op_0_spec(old(self)@, opcode).1,
    {
        match opcode {
            0x00E0 => {
                // CLS
                self.vram = [0; CHIP8_SCREEN_CELLS];
                self.clear_flag = true;
                assert(self@ =~= op_0_spec(old(self)@, opcode).0);
                ProgramCounter::Next
            },
            0x00EE => {
                // RET
                if self.sp == 0 {
                    self.fault = Some(Fault::StackUnderflow(opcode));
                    return ProgramCounter::Next;
                }
                self.sp -= 1;
                assert(self@ =~= op_0_spec(old(self)@, opcode).0);
                ProgramCounter::Jump(self.stack[self.sp])
            },
            _ => {
                self.fault = Some(Fault::InvalidOpcode(opcode));
                ProgramCounter::Next
            },
        }
    }

    /// 1nnn (JP addr): jump to nnn.
    pub fn op_1(&mut self, opcode: u16) -> (r: ProgramCounter)
        ensures
            *final(self) == *old(self),
            r == ProgramCounter::Jump(nnn_of(opcode) as usize),
    {
        ProgramCounter::Jump(Processor::get_nnn(opcode))
    }

    /// 2nnn (CALL addr): push the address of the next instruction, jump to nnn.
    pub fn op_2(&mut self, opcode: u16) -> (r: ProgramCounter)
        requires
            old(self).wf(),
        ensures
            final(self).wf(),
            final(self)@ == op_2_spec(old(self)@, opcode).0,
            r == op_2_spec(old(self)@, opcode).1,
    {
        if self.sp >= STACK_DEPTH {
            self.fault = Some(Fault::StackOverflow(opcode));
            return ProgramCounter::Next;
        }
        self.stack[self.sp] = self.pc + OPCODE_SIZE;
        self.sp += 1;
        assert(self@ =~= op_2_spec(old(self)@, opcode).0);
        ProgramCounter::Jump(Processor::get_nnn(opcode))
    }

    /// 3xkk (SE Vx, byte): skip the next instruction if Vx == kk.
    pub fn op_3(&mut self, opcode: u16) -> (r: ProgramCounter)
        ensures
            *final(self) == *old(self),
            r == skip_if_spec(old(self).reg@[x_of(opcode) as int] == kk_of(opcode) as u8),
    {
        ProgramCounter::skip_if(self.reg[Processor::get_x(opcode)] == Processor::get_0nn(opcode))
    }

    /// 4xkk (SNE Vx, byte): skip the next instruction if Vx != kk.
    pub fn op_4(&mut self, opcode: u16) -> (r: ProgramCounter)
        ensures
            *final(self) == *old(self),
            r == skip_if_spec(old(self).reg@[x_of(opcode) as int] != kk_of(opcode) as u8),
    {
        ProgramCounter::skip_if(self.reg[Processor::get_x(opcode)] != Processor::get_0nn(opcode))
    }

    /// 5xy0 (SE Vx, Vy): skip the next instruction if Vx == Vy. Other low
    /// nibbles are reported as invalid.
    pub fn op_5(&mut self, opcode: u16) -> (r: ProgramCounter)
        ensures
            final(self)@ == op_5_spec(old(self)@, opcode).0,
            r == op_5_spec(old(self)@, opcode).1,
    {
        if Processor::get_00n(opcode) != 0 {
            self.fault = Some(Fault::InvalidOpcode(opcode));
            return ProgramCounter::Next;
        }
        ProgramCounter::skip_if(
            self.reg[Processor::get_x(opcode)] == self.reg[Processor::get_y(opcode)],
        )
    }

    /// 6xkk (LD Vx, byte): Vx = kk.
    pub fn op_6(&mut self, opcode: u16) -> (r: ProgramCounter)
        ensures
            final(self)@ == set_reg(old(self)@, x_of(opcode) as int, kk_of(opcode) as u8),
            r == ProgramCounter::Next,
    {
        self.reg[Processor::get_x(opcode)] = Processor::get_0nn(opcode);
        assert(self@ =~= set_reg(old(self)@, x_of(opcode) as int, kk_of(opcode) as u8));
        ProgramCounter::Next
    }

    /// 7xkk (ADD Vx, byte): Vx = Vx + kk, wrapping, with VF left alone.
    pub fn op_7(&mut self, opcode: u16) -> (r: ProgramCounter)
        ensures
            final(self)@ == set_reg(
                old(self)@,
                x_of(opcode) as int,
                ((old(self).reg@[x_of(opcode) as int] + kk_of(opcode)) % 256) as u8,
            ),
            r == ProgramCounter::Next,
    {
        let x = Processor::get_x(opcode);
        self.reg[x] = self.reg[x].wrapping_add(Processor::get_0nn(opcode));
        assert(self@ =~= set_reg(
            old(self)@,
            x_of(opcode) as int,
            ((old(self).reg@[x_of(opcode) as int] + kk_of(opcode)) % 256) as u8,
        ));
        ProgramCounter::Next
    }

    /// 9xy0 (SNE Vx, Vy): skip the next instruction if Vx != Vy. Other low
    /// nibbles are reported as invalid.
    pub fn op_9(&mut self, opcode: u16) -> (r: ProgramCounter)
        ensures
            final(self)@ == op_9_spec(old(self)@, opcode).0,
            r == op_9_spec(old(self)@, opcode).1,
    {
        if Processor::get_00n(opcode) != 0 {
            self.fault = Some(Fault::InvalidOpcode(opcode));
            return ProgramCounter::Next;
        }
        ProgramCounter::skip_if(
            self.reg[Processor::get_x(opcode)] != self.reg[Processor::get_y(opcode)],
        )
    }

    /// Annn (LD I, addr): I = nnn.
    pub fn op_a(&mut self, opcode: u16) -> (r: ProgramCounter)
        ensures
            final(self)@ == (ProcessorModel { i: nnn_of(opcode), ..old(self)@ }),
            r == ProgramCounter::Next,
    {
        self.i = Processor::get_nnn(opcode) as u16;
        ProgramCounter::Next
    }

    /// Bnnn (JP V0, addr): jump to nnn + V0.
    pub fn op_b(&mut self, opcode: u16) -> (r: ProgramCounter)
        ensures
            *final(self) == *old(self),
            r == ProgramCounter::Jump((nnn_of(opcode) + old(self).reg@[0]) as usize),
    {
        ProgramCounter::Jump(Processor::get_nnn(opcode) + self.reg[0] as usize)
    }

    /// Cxkk (RND Vx, byte): Vx = kk AND a random byte, here `rnd`.
    pub fn op_c(&mut self, opcode: u16, rnd: u8) -> (r: ProgramCounter)
        ensures
            final(self)@ == set_reg(old(self)@, x_of(opcode) as int, kk_of(opcode) as u8 & rnd),
            r == ProgramCounter::Next,
    {
        self.reg[Processor::get_x(opcode)] = Processor::get_0nn(opcode) & rnd;
        assert(self@ =~= set_reg(old(self)@, x_of(opcode) as int, kk_of(opcode) as u8 & rnd));
        ProgramCounter::Next
    }

    /// Family 8: register to register arithmetic and logic (8xy0 to 8xy7, 8xyE).
    #[verifier::rlimit(100)]
    pub fn op_8(&mut self, opcode: u16) -> (r: ProgramCounter)
        requires
            old(self).wf(),
        ensures
            final(self).wf(),
            final(self)@ == op_8_spec(old(self)@, opcode).0,
            r == op_8_spec(old(self)@, opcode).1,
    {
        let x = Processor::get_x(opcode);
        let y = Processor::get_y(opcode);
        let ghost m = self@;
        match Processor::get_00n(opcode) {
            0x00 => {
                // LD Vx, Vy
                self.reg[x] = self.reg[y];
            },
            0x01 => {
                // OR Vx, Vy
                let v = self.reg[x] | self.reg[y];
                self.reg[x] = v;
            },
            0x02 => {
                // AND Vx, Vy
                let v = self.reg[x] & self.reg[y];
                self.reg[x] = v;
            },
            0x03 => {
                // XOR Vx, Vy
                let v = self.reg[x] ^ self.reg[y];
                self.reg[x] = v;
            },
            0x04 => {
                // ADD Vx, Vy: VF = carry
                let result: u16 = self.reg[x] as u16 + self.reg[y] as u16;
                self.reg[x] = (result % 256) as u8;
                self.reg[0x0F] = if result > 0xFF { 1 } else { 0 };
            },
            0x05 => {
                // SUB Vx, Vy: VF = NOT borrow
                let (vx, vy) = (self.reg[x], self.reg[y]);
                self.reg[0x0F] = if vx > vy { 1 } else { 0 };
                self.reg[x] = self.reg[x].wrapping_sub(self.reg[y]);
            },
            0x06 => {
                // SHR Vx: VF = least significant bit
                self.reg[0x0F] = self.reg[x] & 0x01;
                self.reg[x] = self.reg[x] >> 1u8;
            },
            0x07 => {
                // SUBN Vx, Vy: VF = NOT borrow
                let (vx, vy) = (self.reg[x], self.reg[y]);
                self.reg[0x0F] = if vy > vx { 1 } else { 0 };
                self.reg[x] = self.reg[y].wrapping_sub(self.reg[x]);
            },
            0x0E => {
                // SHL Vx: VF = most significant bit
                self.reg[0x0F] = self.reg[x] >> 7u8;
                self.reg[x] = self.reg[x] << 1u8;
            },
            _ => {
                self.fault = Some(Fault::InvalidOpcode(opcode));
                return ProgramCounter::Next;
            },
        }
        assert(self@ =~= op_8_spec(m, opcode).0);
        ProgramCounter::Next
    }

    /// Family E: Ex9E (SKP Vx) skips if the key named by Vx is held, ExA1
    /// (SKNP Vx) skips if it is not.
    pub fn op_e(&mut self, opcode: u16, keypad: &KeyState) -> (r: ProgramCounter)
        ensures
            final(self)@ == op_e_spec(old(self)@, opcode, *keypad).0,
            r == op_e_spec(old(self)@, opcode, *keypad).1,
    {
        let x = Processor::get_x(opcode);
        match Processor::get_0nn(opcode) {
            0x9E => ProgramCounter::skip_if(keypad.is_pressed(self.reg[x])),
            0xA1 => ProgramCounter::skip_if(!keypad.is_pressed(self.reg[x])),
            _ => {
                self.fault = Some(Fault::InvalidOpcode(opcode));
                ProgramCounter::Next
            },
        }
    }

    /// Family F: Fx07, Fx0A, Fx15, Fx18, Fx1E, Fx29, Fx33, Fx55 and Fx65.
    /// Fx0A (LD Vx, K) takes the key pressed during the wait from `keypad`;
    /// while there is none, the instruction waits.
    pub fn op_f(&mut self, opcode: u16, keypad: &KeyState) -> (r: ProgramCounter)
        requires
            old(self).wf(),
        ensures
            final(self).wf(),
            final(self)@ == op_f_spec(old(self)@, opcode, *keypad).0,
            r == op_f_spec(old(self)@, opcode, *keypad).1,
    {
        let x = Processor::get_x(opcode);
        let ghost m = self@;
        match Processor::get_0nn(opcode) {
            0x07 => {
                // LD Vx, DT
                self.reg[x] = self.delay_timer;
            },
            0x0A => {
                // LD Vx, K
                match keypad.pressed_key() {
                    Some(key) => {
                        self.reg[x] = key;
                    },
                    None => {
                        self.awaiting_key = true;
                        return ProgramCounter::Wait;
                    },
                }
            },
            0x15 => {
                // LD DT, Vx
                self.delay_timer = self.reg[x];
            },
            0x18 => {
                // LD ST, Vx
                self.sound_timer = self.reg[x];
            },
            0x1E => {
                // ADD I, Vx
                self.i = self.i.wrapping_add(self.reg[x] as u16);
            },
            0x29 => {
                // LD F, Vx: the glyphs are five bytes each, from address 0
                self.i = self.reg[x] as u16 * 5;
            },
            0x33 => {
                // LD B, Vx: hundreds, tens and ones of Vx at I, I + 1, I + 2
                let i = self.i as usize;
                let v = self.reg[x];
                self.ram[i % CHIP8_RAM] = v / 100;
                self.ram[(i + 1) % CHIP8_RAM] = (v / 10) % 10;
                self.ram[(i + 2) % CHIP8_RAM] = v % 10;
            },
            0x55 => {
                // LD [I], Vx: store V0 to Vx from I on
                let i = self.i as usize;
                let mut k: usize = 0;
                while k <= x
                    invariant
                        x < 16,
                        k <= x + 1,
                        i == m.i,
                        self@ == (ProcessorModel { ram: store_regs(m.ram, m.reg, m.i, k as nat), ..m }),
                    decreases x + 1 - k,
                {
                    self.ram[(i + k) % CHIP8_RAM] = self.reg[k];
                    proof {
                        assert(self@ =~= (ProcessorModel {
                            ram: store_regs(m.ram, m.reg, m.i, (k + 1) as nat),
                            ..m
                        }));
                    }
                    k += 1;
                }
            },
            0x65 => {
                // LD Vx, [I]: load V0 to Vx from I on
                let i = self.i as usize;
                let mut k: usize = 0;
                while k <= x
                    invariant
                        x < 16,
                        k <= x + 1,
                        i == m.i,
                        m.ram.len() == CHIP8_RAM,
                        self@ == (ProcessorModel { reg: load_regs(m.reg, m.ram, m.i, k as nat), ..m }),
                    decreases x + 1 - k,
                {
                    self.reg[k] = self.ram[(i + k) % CHIP8_RAM];
                    proof {
                        assert(self@ =~= (ProcessorModel {
                            reg: load_regs(m.reg, m.ram, m.i, (k + 1) as nat),
                            ..m
                        }));
                    }
                    k += 1;
                }
            },
            _ => {
                self.fault = Some(Fault::InvalidOpcode(opcode));
                return ProgramCounter::Next;
            },
        }
        assert(self@ =~= op_f_spec(m, opcode, *keypad).0);
        ProgramCounter::Next
    }

    /// Dxyn (DRW Vx, Vy, n): XOR the n-row sprite at I onto the framebuffer
    /// at (Vx, Vy), wrapped to the screen; rows and columns past the edges
    /// are clipped. VF = 1 if a lit pixel was turned off, else 0.
    pub fn op_d(&mut self, opcode: u16) -> (r: ProgramCounter)
        requires
            old(self).wf(),
        ensures
            final(self).wf(),
            final(self)@ == op_d_spec(old(self)@, opcode).0,
            r == ProgramCounter::Next,
    {
        let ghost m = self@;
        let ghost s = sprite_of(m, opcode);
        let vx = self.reg[Processor::get_x(opcode)] as usize % CHIP8_SCREEN_WIDTH;
        let vy = self.reg[Processor::get_y(opcode)] as usize % CHIP8_SCREEN_HEIGHT;
        let n = Processor::get_00n(opcode) as usize;
        let rows = if n < CHIP8_SCREEN_HEIGHT - vy { n } else { CHIP8_SCREEN_HEIGHT - vy };
        let cols = if 8 < CHIP8_SCREEN_WIDTH - vx { 8 } else { CHIP8_SCREEN_WIDTH - vx };
        let i = self.i as usize;
        let mut collided = false;
        let mut row: usize = 0;
        while row < rows
            invariant
                m.wf(),
                s == sprite_of(m, opcode),
                vx == s.vx,
                vy == s.vy,
                rows == s.rows,
                cols == s.cols,
                i == m.i,
                row <= rows,
                vy + rows <= CHIP8_SCREEN_HEIGHT,
                vx + cols <= CHIP8_SCREEN_WIDTH,
                cols <= 8,
                self@ == (ProcessorModel { vram: self.vram@, ..m }),
                forall|p: int|
                    0 <= p < CHIP8_SCREEN_CELLS ==> #[trigger] self.vram@[p] == (if covers(s, p)
                        && row_of(p) < vy + row {
                        m.vram[p] ^ bit_at(m, s, p)
                    } else {
                        m.vram[p]
                    }),
                collided == exists|p: int|
                    #[trigger] covers(s, p) && row_of(p) < vy + row && bit_at(m, s, p) == 1
                        && m.vram[p] == 1,
            decreases rows - row,
        {
            let data = self.ram[(i + row) % CHIP8_RAM];
            let mut bit: usize = 0;
            while bit < cols
                invariant
                    m.wf(),
                    s == sprite_of(m, opcode),
                    vx == s.vx,
                    vy == s.vy,
                    rows == s.rows,
                    cols == s.cols,
                    i == m.i,
                    row < rows,
                    bit <= cols,
                    vy + rows <= CHIP8_SCREEN_HEIGHT,
                    vx + cols <= CHIP8_SCREEN_WIDTH,
                    cols <= 8,
                    data == m.ram[addr(m.i as int, row as int)],
                    self@ == (ProcessorModel { vram: self.vram@, ..m }),
                    forall|p: int|
                        0 <= p < CHIP8_SCREEN_CELLS ==> #[trigger] self.vram@[p] == (if covers(s, p)
                            && (row_of(p) < vy + row || (row_of(p) == vy + row && col_of(p) < vx
                            + bit)) {
                            m.vram[p] ^ bit_at(m, s, p)
                        } else {
                            m.vram[p]
                        }),
                    collided == exists|p: int|
                        #[trigger] covers(s, p) && (row_of(p) < vy + row || (row_of(p) == vy + row
                            && col_of(p) < vx + bit)) && bit_at(m, s, p) == 1 && m.vram[p] == 1,
                decreases cols - bit,
            {
                let bit_to_draw = (data >> ((7 - bit) as u8)) & 1u8;
                let idx = (vy + row) * CHIP8_SCREEN_WIDTH + vx + bit;
                let ghost r0 = (vy + row) as int;
                let ghost c0 = (vx + bit) as int;
                proof {
                    lemma_cell(r0, c0, 0);
                    assert(idx == r0 * 64 + c0);
                    assert(covers(s, idx as int));
                    assert(bit_at(m, s, idx as int) == bit_to_draw);
                    lemma_pixel_bits(m.vram[idx as int], data, (7 - bit) as u8);
                }
                let pixel = self.vram[idx];
                assert(pixel == m.vram[idx as int]);
                let ghost was = collided;
                if bit_to_draw == 1 && pixel == 1 {
                    collided = true;
                }
                self.vram[idx] = pixel ^ bit_to_draw;
                proof {
                    assert forall|p: int| 0 <= p < CHIP8_SCREEN_CELLS implies #[trigger] self.vram@[p]
                        == (if covers(s, p) && (row_of(p) < vy + row || (row_of(p) == vy + row
                        && col_of(p) < vx + bit + 1)) {
                        m.vram[p] ^ bit_at(m, s, p)
                    } else {
                        m.vram[p]
                    }) by {
                        lemma_cell(r0, c0, p);
                        if p != idx {
                            assert(!(row_of(p) == r0 && col_of(p) == c0));
                        }
                    }
                    if collided && !was {
                        assert(covers(s, idx as int));
                    }
                    if !collided {
                        assert forall|p: int|
                            #[trigger] covers(s, p) && (row_of(p) < vy + row || (row_of(p) == vy
                                + row && col_of(p) < vx + bit + 1)) implies !(bit_at(m, s, p) == 1
                            && m.vram[p] == 1) by {
                            lemma_cell(r0, c0, p);
                            if p != idx {
                                assert(!(row_of(p) == r0 && col_of(p) == c0));
                            }
                        }
                    }
                }
                bit += 1;
            }
            proof {
                assert forall|p: int| #[trigger] covers(s, p) implies ((row_of(p) < vy + row || (
                row_of(p) == vy + row && col_of(p) < vx + cols)) == (row_of(p) < vy + row + 1)) by {}
            }
            row += 1;
        }
        self.display_flag = true;
        self.reg[0x0F] = if collided { 1 } else { 0 };
        proof {
            assert forall|p: int| #[trigger] covers(s, p) implies row_of(p) < vy + rows by {}
            assert(self.vram@ =~= drawn(m, s));
            assert(self@ =~= op_d_spec(m, opcode).0);
            lemma_draw_wf(m, opcode);
        }
        ProgramCounter::Next
    }

    /// The effect of one instruction word, and how it moves the program
    /// counter. `rnd` is the random byte for Cxkk.
    pub fn dispatch(&mut self, opcode: u16, keypad: &KeyState, rnd: u8) -> (r: ProgramCounter)
        requires
            old(self).wf(),
        ensures
            final(self)@ == dispatch_spec(old(self)@, opcode, *keypad, rnd).0,
            r == dispatch_spec(old(self)@, opcode, *keypad, rnd).1,
    {
        let family = (opcode & 0xF000) >> 12u16;
        proof {
            lemma_fields_bounded(opcode);
        }
        match family {
            0x0 => self.op_0(opcode),
            0x1 => self.op_1(opcode),
            0x2 => self.op_2(opcode),
            0x3 => self.op_3(opcode),
            0x4 => self.op_4(opcode),
            0x5 => self.op_5(opcode),
            0x6 => self.op_6(opcode),
            0x7 => self.op_7(opcode),
            0x8 => self.op_8(opcode),
            0x9 => self.op_9(opcode),
            0xA => self.op_a(opcode),
            0xB => self.op_b(opcode),
            0xC => self.op_c(opcode, rnd),
            0xD => self.op_d(opcode),
            0xE => self.op_e(opcode, keypad),
            _ => self.op_f(opcode, keypad),
        }
    }

    /// Execute one instruction word: its effect, then the move of the
    /// program counter. `rnd` is the random byte for Cxkk.
    pub fn execute_opcode(&mut self, opcode: u16, keypad: &KeyState, rnd: u8)
        requires
            old(self).wf(),
        ensures
            final(self).wf(),
            final(self)@ == execute_spec(old(self)@, opcode, *keypad, rnd),
    {
        proof {
            lemma_execute_wf(self@, opcode, *keypad, rnd);
        }
        let pc_update = self.dispatch(opcode, keypad, rnd);
        match pc_update {
            ProgramCounter::Next => self.pc = (self.pc + OPCODE_SIZE) % CHIP8_RAM,
            ProgramCounter::Skip => self.pc = (self.pc + 2 * OPCODE_SIZE) % CHIP8_RAM,
            ProgramCounter::Jump(addr) => self.pc = addr % CHIP8_RAM,
            ProgramCounter::Wait => {},
        }
    }

    /// A new machine: registers, stack, timers and framebuffer zero, the
    /// glyphs at the bottom of memory, the program counter at the program
    /// start.
    pub fn new() -> (r: Self)
        ensures
            r.wf(),
            r@ == initial_spec(),
    {
        let mut ram = [0u8; CHIP8_RAM];
        let font = fontset();
        let mut k: usize = 0;
        while k < FONT_BYTES
            invariant
                k <= FONT_BYTES,
                font@ == font_spec(),
                forall|a: int|
                    0 <= a < CHIP8_RAM ==> #[trigger] ram@[a] == (if a < k {
                        font_spec()[a]
                    } else {
                        0u8
                    }),
            decreases FONT_BYTES - k,
        {
            ram[k] = font[k];
            k += 1;
        }
        let r = Processor {
            reg: [0; 16],
            stack: [0; STACK_DEPTH],
            ram,
            vram: [0; CHIP8_SCREEN_CELLS],
            pc: PROGRAM_START,
            sp: 0,
            i: 0,
            delay_timer: 0,
            sound_timer: 0,
            display_flag: false,
            clear_flag: false,
            awaiting_key: false,
            fault: None,
        };
        assert(r@ =~= initial_spec());
        r
    }

    /// Copy a program into memory at the program start: all of `rom`, up to
    /// the program capacity. Memory past the copied bytes is left alone.
    pub fn load(&mut self, rom: &[u8])
        requires
            old(self).wf(),
        ensures
            final(self).wf(),
            final(self)@ == (ProcessorModel { ram: load_spec(old(self)@.ram, rom@), ..old(self)@ }),
    {
        let ghost m = self@;
        let len = if rom.len() < PROGRAM_CAPACITY { rom.len() } else { PROGRAM_CAPACITY };
        let mut k: usize = 0;
        while k < len
            invariant
                k <= len,
                len == loaded_len(rom@),
                self@ == (ProcessorModel { ram: self.ram@, ..m }),
                forall|a: int|
                    0 <= a < CHIP8_RAM ==> #[trigger] self.ram@[a] == (if PROGRAM_START <= a
                        < PROGRAM_START + k {
                        rom@[a - PROGRAM_START]
                    } else {
                        m.ram[a]
                    }),
            decreases len - k,
        {
            self.ram[PROGRAM_START + k] = rom[k];
            k += 1;
        }
        assert(self.ram@ =~= load_spec(m.ram, rom@));
        assert(self@ =~= (ProcessorModel { ram: load_spec(m.ram, rom@), ..m }));
    }

    /// The signals of the last cycle.
    pub fn signals(&self) -> (r: Signals)
        ensures
            r == signals_spec(self@),
    {
        Signals {
            display: self.display_flag,
            clear: self.clear_flag,
            awaiting_key: self.awaiting_key,
            fault: self.fault,
        }
    }

    /// One cycle with `rnd` as the random byte: clear the signals, fetch and
    /// execute the instruction at the program counter, count the timers
    /// down, and report the signals. A cycle that waits for a key changes
    /// nothing but the signals.
    pub fn run_cycle(&mut self, keypad: &KeyState, rnd: u8) -> (r: Signals)
        requires
            old(self).wf(),
        ensures
            final(self).wf(),
            final(self)@ == cycle_spec(old(self)@, *keypad, rnd),
            r == signals_spec(final(self)@),
    {
        self.display_flag = false;
        self.clear_flag = false;
        self.awaiting_key = false;
        self.fault = None;
        let opcode = self.fetch_opcode();
        self.execute_opcode(opcode, keypad, rnd);
        if !self.awaiting_key {
            if self.delay_timer > 0 {
                self.delay_timer -= 1;
            }
            if self.sound_timer > 0 {
                self.sound_timer -= 1;
            }
        }
        self.signals()
    }

    /// One cycle, with a fresh random byte for Cxkk.
    pub fn emulate_cycle(&mut self, keypad: &KeyState) -> (r: Signals)
        requires
            old(self).wf(),
        ensures
            final(self).wf(),
            exists|rnd: u8| final(self)@ == #[trigger] cycle_spec(old(self)@, *keypad, rnd),
            r == signals_spec(final(self)@),
    {
        let rnd: u8 = rand::random::<u8>();
        self.run_cycle(keypad, rnd)
    }
}

} // verus!
