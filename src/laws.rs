//! Properties that relate several instructions or cycles, proved from the
//! semantics in [`crate::processor`].
use vstd::prelude::*;

use crate::keys::KeyState;
use crate::processor::{
    bit_at, covers, cycle_spec, execute_spec, family_of, fetch_spec, kk_of, lemma_execute_wf,
    lemma_fields_bounded, lemma_pixel_bits, n_of, nnn_of, row_of, col_of, sprite_of, x_of, y_of,
    addr, collides, ProcessorModel,
};
use crate::{CHIP8_RAM, CHIP8_SCREEN_CELLS, OPCODE_SIZE, STACK_DEPTH};

verus! {

/// Instruction `op` jumps: a return, a jump or a call, or a jump offset by V0.
pub open spec fn is_jump(op: u16) -> bool {
    ||| op == 0x00EE
    ||| family_of(op) == 0x1
    ||| family_of(op) == 0x2
    ||| family_of(op) == 0xB
}

/// The address that jump instruction `op` decodes in state `m`.
pub open spec fn jump_target(m: ProcessorModel, op: u16) -> int {
    if family_of(op) == 0x0 {
        m.stack[m.sp - 1] as int
    } else if family_of(op) == 0xB {
        nnn_of(op) + m.reg[0]
    } else {
        nnn_of(op) as int
    }
}

/// An instruction that does not wait for a key moves the program counter by
/// one instruction, by two, or to the target that it decodes, taken within
/// memory; nothing else. An instruction that is no jump moves it by one or
/// two instructions, and a jump that is carried out lands exactly on its
/// target when the target lies within memory.
pub proof fn lemma_pc_moves(m: ProcessorModel, op: u16, keys: KeyState, rnd: u8)
    requires
        m.wf(),
        m.pc + 2 * OPCODE_SIZE < CHIP8_RAM,
        !(family_of(op) == 0xF && kk_of(op) == 0x0A && keys.key_press_spec() is None),
    ensures
        ({
            let pc = execute_spec(m, op, keys, rnd).pc;
            ||| pc == m.pc + OPCODE_SIZE
            ||| pc == m.pc + 2 * OPCODE_SIZE
            ||| is_jump(op) && pc == jump_target(m, op) % (CHIP8_RAM as int)
        }),
        !is_jump(op) ==> ({
            let pc = execute_spec(m, op, keys, rnd).pc;
            pc == m.pc + OPCODE_SIZE || pc == m.pc + 2 * OPCODE_SIZE
        }),
        is_jump(op) && jump_target(m, op) < CHIP8_RAM && !(op == 0x00EE && m.sp == 0) && !(
        family_of(op) == 0x2 && m.sp >= STACK_DEPTH) ==> execute_spec(m, op, keys, rnd).pc
            == jump_target(m, op),
{
    lemma_fields_bounded(op);
    lemma_execute_wf(m, op, keys, rnd);
    assert(family_of(0x00EE) == 0) by (bit_vector);
}

/// A call followed by a return comes back to the instruction after the
/// call, with the stack pointer as it was, provided the stack had room. The
/// address after a call in the last word of memory wraps to 0.
pub proof fn lemma_call_then_return(
    m: ProcessorModel,
    nnn: u16,
    keys: KeyState,
    rnd1: u8,
    rnd2: u8,
)
    requires
        m.wf(),
        nnn < 0x1000,
        m.sp < STACK_DEPTH,
    ensures
        ({
            let m1 = execute_spec(m, 0x2000 | nnn, keys, rnd1);
            let m2 = execute_spec(m1, 0x00EE, keys, rnd2);
            &&& m1.pc == nnn
            &&& m1.sp == m.sp + 1
            &&& m2.pc == (m.pc + OPCODE_SIZE) % (CHIP8_RAM as int)
            &&& m.pc + OPCODE_SIZE < CHIP8_RAM ==> m2.pc == m.pc + OPCODE_SIZE
            &&& m2.sp == m.sp
        }),
{
    let call: u16 = 0x2000 | nnn;
    assert(family_of(call) == 2 && nnn_of(call) == nnn) by (bit_vector)
        requires
            call == 0x2000 | nnn,
            nnn < 0x1000,
    ;
    assert(family_of(0x00EE) == 0 && kk_of(0x00EE) == 0xEE) by (bit_vector);
    let m1 = execute_spec(m, call, keys, rnd1);
    assert(m1.stack[m.sp as int] == m.pc + OPCODE_SIZE);
}

/// ADD Vx, byte adds modulo 256 and leaves every other register, VF
/// included, as it was.
pub proof fn lemma_add_immediate(m: ProcessorModel, op: u16, keys: KeyState, rnd: u8)
    requires
        m.wf(),
        family_of(op) == 0x7,
    ensures
        ({
            let m1 = execute_spec(m, op, keys, rnd);
            let x = x_of(op) as int;
            &&& m1.reg[x] == (m.reg[x] + kk_of(op)) % 256
            &&& forall|k: int| 0 <= k < 16 && k != x ==> #[trigger] m1.reg[k] == m.reg[k]
        }),
{
    lemma_fields_bounded(op);
}

/// 8xy4 sets VF to 1 exactly when Vx + Vy exceeds 255; 8xy5 sets VF to 1
/// exactly when Vx > Vy before the subtraction, unless VF is itself the
/// destination.
pub proof fn lemma_carry_and_borrow(m: ProcessorModel, op: u16, keys: KeyState, rnd: u8)
    requires
        m.wf(),
        family_of(op) == 0x8,
    ensures
        ({
            let m1 = execute_spec(m, op, keys, rnd);
            let vx = m.reg[x_of(op) as int];
            let vy = m.reg[y_of(op) as int];
            &&& n_of(op) == 0x4 ==> (m1.reg[0xF] == 1 <==> vx + vy > 255)
            &&& n_of(op) == 0x4 ==> m1.reg[0xF] <= 1
            &&& n_of(op) == 0x5 && x_of(op) != 0xF ==> (m1.reg[0xF] == 1 <==> vx > vy)
            &&& n_of(op) == 0x5 && x_of(op) != 0xF ==> m1.reg[0xF] <= 1
        }),
{
    lemma_fields_bounded(op);
}

/// A cycle that runs CLS leaves every pixel off and raises only the clear
/// signal; a draw in the cycle right after raises the display signal and
/// not the clear signal.
pub proof fn lemma_clear_then_draw(m: ProcessorModel, keys: KeyState, rnd1: u8, rnd2: u8)
    requires
        m.wf(),
        fetch_spec(m) == 0x00E0,
        family_of(fetch_spec(cycle_spec(m, keys, rnd1))) == 0xD,
    ensures
        ({
            let m1 = cycle_spec(m, keys, rnd1);
            let m2 = cycle_spec(m1, keys, rnd2);
            &&& forall|p: int| 0 <= p < CHIP8_SCREEN_CELLS ==> #[trigger] m1.vram[p] == 0
            &&& m1.clear_flag
            &&& !m1.display_flag
            &&& m2.display_flag
            &&& !m2.clear_flag
        }),
{
    assert(family_of(0x00E0) == 0) by (bit_vector);
}

/// Pixel arithmetic behind drawing a sprite twice.
proof fn lemma_xor_twice(pixel: u8, bit: u8)
    requires
        pixel <= 1,
        bit <= 1,
    ensures
        (pixel ^ bit) ^ bit == pixel,
        bit == 1 ==> ((pixel ^ bit) == 1 <==> pixel == 0),
{
    assert((pixel ^ bit) ^ bit == pixel) by (bit_vector);
    assert(pixel <= 1 && bit == 1 ==> ((pixel ^ bit) == 1 <==> pixel == 0)) by (bit_vector);
}

/// Drawing the same sprite twice gives the framebuffer back, and the second
/// draw reports a collision exactly when the sprite lit a pixel that was
/// off before the first. So the second draw reports none when every set
/// sprite bit fell on a lit pixel. The sprite's position must not be read
/// from VF, which the first draw overwrites.
pub proof fn lemma_draw_twice(m: ProcessorModel, op: u16, keys: KeyState, rnd1: u8, rnd2: u8)
    requires
        m.wf(),
        family_of(op) == 0xD,
        x_of(op) != 0xF,
        y_of(op) != 0xF,
    ensures
        ({
            let m1 = execute_spec(m, op, keys, rnd1);
            let m2 = execute_spec(m1, op, keys, rnd2);
            let s = sprite_of(m, op);
            &&& m2.vram == m.vram
            &&& m2.reg[0xF] == 1 <==> exists|p: int|
                #[trigger] covers(s, p) && bit_at(m, s, p) == 1 && m.vram[p] == 0
            &&& m2.reg[0xF] <= 1
            &&& (forall|p: int| #[trigger] covers(s, p) && bit_at(m, s, p) == 1 ==> m.vram[p] == 1)
                ==> m2.reg[0xF] == 0
        }),
{
    lemma_fields_bounded(op);
    let m1 = execute_spec(m, op, keys, rnd1);
    let m2 = execute_spec(m1, op, keys, rnd2);
    let s = sprite_of(m, op);
    assert(sprite_of(m1, op) == s);
    assert forall|p: int| #[trigger] covers(s, p) implies bit_at(m1, s, p) == bit_at(m, s, p)
        && bit_at(m, s, p) <= 1 by {
        let data = m.ram[addr(m.i as int, row_of(p) - s.vy)];
        lemma_pixel_bits(m.vram[p], data, (7 - (col_of(p) - s.vx)) as u8);
    }
    assert forall|p: int| 0 <= p < CHIP8_SCREEN_CELLS implies #[trigger] m2.vram[p] == m.vram[p]
        by {
        if covers(s, p) {
            lemma_xor_twice(m.vram[p], bit_at(m, s, p));
        }
    }
    assert(m2.vram =~= m.vram);
    if collides(m1, s) {
        let p = choose|p: int|
            #[trigger] covers(s, p) && bit_at(m1, s, p) == 1 && m1.vram[p] == 1;
        lemma_xor_twice(m.vram[p], bit_at(m, s, p));
        assert(covers(s, p) && bit_at(m, s, p) == 1 && m.vram[p] == 0);
    }
    if exists|p: int| #[trigger] covers(s, p) && bit_at(m, s, p) == 1 && m.vram[p] == 0 {
        let p = choose|p: int| #[trigger] covers(s, p) && bit_at(m, s, p) == 1 && m.vram[p] == 0;
        lemma_xor_twice(m.vram[p], bit_at(m, s, p));
        assert(covers(s, p) && bit_at(m1, s, p) == 1 && m1.vram[p] == 1);
    }
}

} // verus!
