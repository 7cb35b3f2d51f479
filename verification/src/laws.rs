//! What holds of the machine whatever state it is in.

use crate::bitmap::{
    blank, collides, drawn, lemma_drawn_pixel, lemma_same_pixels, pixel_on, sprite_pixel,
};
use crate::keys::{is_lowest_key, lemma_lowest_key, lowest_key};
use crate::machine::{family, flag, operand_nn, operand_x, operand_y, Machine};
use vstd::prelude::*;

verus! {

/// Setting Vx to `nn` with 6xnn and then adding `nn2` with 7xnn leaves
/// `(nn + nn2) mod 256` in Vx. The addition touches no other register, so it
/// sets no flag.
pub proof fn law_load_then_add(m: Machine, x: int, nn: u8, nn2: u8, r1: u8, r2: u8)
    requires
        m.wf(),
        0 <= x < 16,
    ensures
        ({
            let loaded = m.execute((0x6000 + x * 256 + nn) as u16, r1);
            let added = loaded.execute((0x7000 + x * 256 + nn2) as u16, r2);
            &&& added.v[x] == (nn + nn2) % 256
            &&& forall|k: int| 0 <= k < 16 && k != x ==> added.v[k] == loaded.v[k]
        }),
{
    let load = (0x6000 + x * 256 + nn) as u16;
    let add = (0x7000 + x * 256 + nn2) as u16;
    assert(family(load) == 6 && operand_x(load) == x && operand_nn(load) == nn);
    assert(family(add) == 7 && operand_x(add) == x && operand_nn(add) == nn2);
}

/// 8xy5 leaves 1 in VF if Vx was at least Vy (no borrow) and 0 if Vx was less
/// than Vy.
pub proof fn law_sub_sets_no_borrow(m: Machine, x: int, y: int, r: u8)
    requires
        m.wf(),
        0 <= x < 16,
        0 <= y < 16,
    ensures
        m.execute((0x8005 + x * 256 + y * 16) as u16, r).v[0xF] == flag(m.v[x] >= m.v[y]),
{
    let sub = (0x8005 + x * 256 + y * 16) as u16;
    assert(family(sub) == 8 && operand_x(sub) == x && operand_y(sub) == y);
    assert(sub as int % 16 == 5);
}

/// Whether the sprite of the draw `opcode` has a set bit on a pixel that is
/// off in the machine's framebuffer.
pub open spec fn lights_a_pixel(m: Machine, opcode: u16) -> bool {
    exists|x: int, y: int|
        0 <= x < 64 && 0 <= y < 32 && !#[trigger] pixel_on(m.display, x, y) && sprite_pixel(
            m.sprite(opcode),
            m.v[operand_x(opcode)] as int,
            m.v[operand_y(opcode)] as int,
            x,
            y,
        )
}

/// Drawing the same sprite twice at the same place gives back the framebuffer
/// from before the first draw. The second draw turns off exactly the pixels
/// that the first one lit, so it leaves 1 in VF if the first draw lit a pixel,
/// and 0 if it lit none.
///
/// The place is the same if the first draw leaves Vx and Vy as they were,
/// which it does unless one of them is VF.
pub proof fn law_draw_twice_restores(m: Machine, opcode: u16)
    requires
        m.wf(),
        m.draw_fault(opcode) is None,
        m.op_draw(opcode).v[operand_x(opcode)] == m.v[operand_x(opcode)],
        m.op_draw(opcode).v[operand_y(opcode)] == m.v[operand_y(opcode)],
    ensures
        m.op_draw(opcode).op_draw(opcode).display == m.display,
        m.op_draw(opcode).op_draw(opcode).v[0xF] == flag(lights_a_pixel(m, opcode)),
{
    let x0 = m.v[operand_x(opcode)] as int;
    let y0 = m.v[operand_y(opcode)] as int;
    let once = m.op_draw(opcode);
    let twice = once.op_draw(opcode);
    let sprite = m.sprite(opcode);
    assert(once.sprite(opcode) =~= sprite);
    assert(once.display == drawn(m.display, sprite, x0, y0));
    assert(twice.display == drawn(once.display, sprite, x0, y0));
    assert forall|x: int, y: int| 0 <= x < 64 && 0 <= y < 32 implies #[trigger] pixel_on(
        twice.display,
        x,
        y,
    ) == pixel_on(m.display, x, y) by {
        lemma_drawn_pixel(m.display, sprite, x0, y0, x, y);
        lemma_drawn_pixel(once.display, sprite, x0, y0, x, y);
    }
    lemma_same_pixels(twice.display, m.display);
    if collides(once.display, sprite, x0, y0) {
        let (x, y) = choose|x: int, y: int|
            0 <= x < 64 && 0 <= y < 32 && #[trigger] pixel_on(once.display, x, y) && sprite_pixel(
                sprite,
                x0,
                y0,
                x,
                y,
            );
        lemma_drawn_pixel(m.display, sprite, x0, y0, x, y);
        assert(!pixel_on(m.display, x, y) && sprite_pixel(sprite, x0, y0, x, y));
    }
    if lights_a_pixel(m, opcode) {
        let (x, y) = choose|x: int, y: int|
            0 <= x < 64 && 0 <= y < 32 && !#[trigger] pixel_on(m.display, x, y) && sprite_pixel(
                sprite,
                x0,
                y0,
                x,
                y,
            );
        lemma_drawn_pixel(m.display, sprite, x0, y0, x, y);
        assert(pixel_on(once.display, x, y) && sprite_pixel(sprite, x0, y0, x, y));
    }
}

/// The state after the draws `opcodes`, carried out in order.
pub open spec fn draw_all(m: Machine, opcodes: Seq<u16>) -> Machine
    decreases opcodes.len(),
{
    if opcodes.len() == 0 {
        m
    } else {
        draw_all(m, opcodes.drop_last()).op_draw(opcodes.last())
    }
}

/// Clearing the framebuffer, drawing any sprites and clearing again leaves
/// every pixel off.
pub proof fn law_clear_after_draws(m: Machine, draws: Seq<u16>)
    ensures
        draw_all(m.op_clr(), draws).op_clr().display == blank(),
{
}

/// Whether the machine is waiting for a key: its next instruction is Fx0A and
/// no key has arrived.
pub open spec fn waits_for_key(m: Machine) -> bool {
    &&& m.can_fetch()
    &&& family(m.fetch()) == 0xF
    &&& operand_nn(m.fetch()) == 0x0A
    &&& !m.key_arrived()
}

/// A machine that waits for a key goes on waiting, tick after tick, as long
/// as no key event comes: the program counter, the registers, I, memory, the
/// stack and the framebuffer stay as they are.
pub proof fn law_key_wait_holds(m: Machine, randoms: Seq<u8>)
    requires
        m.wf(),
        waits_for_key(m),
    ensures
        waits_for_key(m.ticks(randoms)),
        m.ticks(randoms).pc == m.pc,
        m.ticks(randoms).v == m.v,
        m.ticks(randoms).i == m.i,
        m.ticks(randoms).memory == m.memory,
        m.ticks(randoms).stack == m.stack,
        m.ticks(randoms).display == m.display,
        m.ticks(randoms).keypad == m.keypad,
    decreases randoms.len(),
{
    if randoms.len() > 0 {
        law_key_wait_holds(m, randoms.drop_last());
        let before = m.ticks(randoms.drop_last());
        let counted = before.count_down();
        assert(counted.fetch() == before.fetch());
        assert(counted.fault_of(counted.fetch()) is None);
    }
}

/// Once the key mask has changed and holds a key, the tick that runs Fx0A
/// moves the program counter on and leaves the lowest key held in Vx.
pub proof fn law_key_wait_captures(m: Machine, random: u8)
    requires
        m.wf(),
        m.can_fetch(),
        family(m.fetch()) == 0xF,
        operand_nn(m.fetch()) == 0x0A,
        m.key_arrived(),
    ensures
        m.tick(random).pc == m.next_pc(),
        m.tick(random).v[operand_x(m.fetch())] == lowest_key(m.keypad),
        is_lowest_key(m.keypad, lowest_key(m.keypad)),
        !m.tick(random).key_arrived(),
{
    lemma_lowest_key(m.keypad);
    let counted = m.count_down();
    assert(counted.fetch() == m.fetch());
    assert(counted.fault_of(counted.fetch()) is None);
}

/// Storing V0 to Vx with Fx55 and loading them back with Fx65 from the same
/// I gives V0 to Vx their old values, whatever the registers held in between;
/// the registers above Vx keep what they held in between.
pub proof fn law_store_then_load(m: Machine, x: int, scratch: Seq<u8>, r1: u8, r2: u8)
    requires
        m.wf(),
        0 <= x < 16,
        scratch.len() == 16,
        m.i + x < 4096,
    ensures
        ({
            let stored = m.execute((0xF055 + x * 256) as u16, r1);
            let cleared = Machine { v: scratch, ..stored };
            let loaded = cleared.execute((0xF065 + x * 256) as u16, r2);
            &&& forall|k: int| 0 <= k <= x ==> loaded.v[k] == m.v[k]
            &&& forall|k: int| x < k < 16 ==> loaded.v[k] == scratch[k]
        }),
{
    let store = (0xF055 + x * 256) as u16;
    let load = (0xF065 + x * 256) as u16;
    assert(family(store) == 0xF && operand_x(store) == x && operand_nn(store) == 0x55);
    assert(family(load) == 0xF && operand_x(load) == x && operand_nn(load) == 0x65);
}

} // verus!
