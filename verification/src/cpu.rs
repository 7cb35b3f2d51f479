//! The executable machine.

use crate::bitmap::{
    collides_before, lemma_paint_done, lemma_paint_flip, lemma_paint_next_row, lemma_paint_skip,
    lemma_paint_start, painted, DISPLAY_HEIGHT, DISPLAY_SIZE, DISPLAY_WIDTH,
};
use crate::entropy::random_byte;
use crate::keys::{is_lowest_key, key_pressed, lemma_lowest_key_unique, lemma_no_key_is_zero};
use crate::machine::{
    checked, flag, operand_n, operand_nn, operand_nnn, operand_x, operand_y, Fault, Machine,
    Outcome, MAX_PROGRAM_SIZE, MEMORY_SIZE, PROGRAM_START, STACK_DEPTH,
};
use vstd::prelude::*;

verus! {

/// Why a program was not loaded.
#[derive(Clone, Copy, Debug, PartialEq, Eq, Structural)]
pub enum RomError {
    /// The program has no bytes.
    Empty,
    /// The program does not fit between `PROGRAM_START` and the end of memory.
    TooLarge,
}

/// The machine: memory, registers, call stack, timers, framebuffer and key
/// latches. Its view is the `Machine` that the contracts speak of.
pub struct Chip8 {
    memory: [u8; MEMORY_SIZE],
    v: [u8; 16],
    i: u16,
    pc: u16,
    stack: [u16; STACK_DEPTH],
    sp: u8,
    delay_timer: u8,
    sound_timer: u8,
    keypad: u16,
    old_keypad: u16,
    display: [u8; DISPLAY_SIZE],
    halted: bool,
}

impl View for Chip8 {
    type V = Machine;

    /// The live part of the stack array is what lies below the stack pointer.
    closed spec fn view(&self) -> Machine {
        Machine {
            memory: self.memory@,
            v: self.v@,
            i: self.i,
            pc: self.pc,
            stack: self.stack@.take(
                if self.sp <= 16 {
                    self.sp as int
                } else {
                    16
                },
            ),
            delay_timer: self.delay_timer,
            sound_timer: self.sound_timer,
            keypad: self.keypad,
            old_keypad: self.old_keypad,
            display: self.display@,
            halted: self.halted,
        }
    }
}

fn x_of(opcode: u16) -> (x: usize)
    ensures
        x == operand_x(opcode),
        x < 16,
{
    assert((opcode & 0x0F00) >> 8 == (opcode / 256) % 16) by (bit_vector);
    ((opcode & 0x0F00) >> 8) as usize
}

fn y_of(opcode: u16) -> (y: usize)
    ensures
        y == operand_y(opcode),
        y < 16,
{
    assert((opcode & 0x00F0) >> 4 == (opcode / 16) % 16) by (bit_vector);
    ((opcode & 0x00F0) >> 4) as usize
}

fn n_of(opcode: u16) -> (n: usize)
    ensures
        n == operand_n(opcode),
        n < 16,
{
    assert(opcode & 0x000F == opcode % 16) by (bit_vector);
    (opcode & 0x000F) as usize
}

fn nn_of(opcode: u16) -> (nn: u8)
    ensures
        nn == operand_nn(opcode),
{
    assert(opcode & 0x00FF == opcode % 256) by (bit_vector);
    (opcode & 0x00FF) as u8
}

fn nnn_of(opcode: u16) -> (nnn: u16)
    ensures
        nnn == operand_nnn(opcode),
        nnn < 4096,
{
    assert(opcode & 0x0FFF == opcode % 4096) by (bit_vector);
    opcode & 0x0FFF
}

impl Chip8 {
    #[verifier::type_invariant]
    spec fn stack_pointer_in_range(&self) -> bool {
        self.sp <= 16
    }

    /// Every machine state has the sizes that `Machine::wf` asks for.
    pub proof fn lemma_view_wf(&self)
        ensures
            self@.wf(),
    {
    }

    /// A machine with everything zero and the program counter at
    /// `PROGRAM_START`.
    pub fn new() -> (chip: Chip8)
        ensures
            chip@ == Machine::initial(),
    {
        Chip8 {
            memory: [0; MEMORY_SIZE],
            v: [0; 16],
            i: 0,
            pc: PROGRAM_START,
            stack: [0; STACK_DEPTH],
            sp: 0,
            delay_timer: 0,
            sound_timer: 0,
            keypad: 0,
            old_keypad: 0,
            display: [0; DISPLAY_SIZE],
            halted: false,
        }
    }

    /// Puts the machine back into its initial state: everything zero, the
    /// halted flag too, and the program counter at `PROGRAM_START`.
    pub fn reset(&mut self)
        ensures
            final(self)@ == Machine::initial(),
    {
        proof {
            use_type_invariant(&*self);
        }
        self.memory = [0; MEMORY_SIZE];
        self.v = [0; 16];
        self.i = 0;
        self.pc = PROGRAM_START;
        self.stack = [0; STACK_DEPTH];
        self.sp = 0;
        self.delay_timer = 0;
        self.sound_timer = 0;
        self.keypad = 0;
        self.old_keypad = 0;
        self.display = [0; DISPLAY_SIZE];
        self.halted = false;
    }

    /// Stops the machine: whoever drives it must issue no further tick.
    pub fn halt(&mut self)
        ensures
            final(self)@ == old(self)@.halt(),
    {
        proof {
            use_type_invariant(&*self);
        }
        self.halted = true;
    }

    /// Resets the machine and copies `rom` into memory from `PROGRAM_START`
    /// on. Bytes that do not fit into memory are left out.
    pub fn load_rom(&mut self, rom: &[u8])
        ensures
            final(self)@ == Machine::loaded(rom@),
    {
        self.reset();
        proof {
            use_type_invariant(&*self);
        }
        let count: usize = if rom.len() < MAX_PROGRAM_SIZE {
            rom.len()
        } else {
            MAX_PROGRAM_SIZE
        };
        let mut k: usize = 0;
        while k < count
            invariant
                k <= count <= MAX_PROGRAM_SIZE,
                count <= rom.len(),
                self.sp <= 16,
                self@ == (Machine { memory: self.memory@, ..Machine::initial() }),
                forall|a: int|
                    0 <= a < 4096 ==> self.memory@[a] == if 0x200 <= a < 0x200 + k {
                        rom@[a - 0x200]
                    } else {
                        0u8
                    },
            decreases count - k,
        {
            self.memory[k + 0x200] = rom[k];
            k += 1;
        }
        assert(self.memory@ =~= Machine::loaded(rom@).memory);
    }

    /// Loads `rom` as `load_rom` does, unless it is empty or too large for
    /// memory: then the machine is left as it was.
    pub fn load_rom_checked(&mut self, rom: &[u8]) -> (r: Result<(), RomError>)
        ensures
            r == if rom@.len() == 0 {
                Err::<(), RomError>(RomError::Empty)
            } else if rom@.len() > MAX_PROGRAM_SIZE {
                Err::<(), RomError>(RomError::TooLarge)
            } else {
                Ok::<(), RomError>(())
            },
            r is Ok ==> final(self)@ == Machine::loaded(rom@),
            r is Err ==> final(self)@ == old(self)@,
    {
        if rom.len() == 0 {
            Err(RomError::Empty)
        } else if rom.len() > MAX_PROGRAM_SIZE {
            Err(RomError::TooLarge)
        } else {
            self.load_rom(rom);
            Ok(())
        }
    }

    /// The packed framebuffer.
    pub fn display(&self) -> (d: &[u8; DISPLAY_SIZE])
        ensures
            d@ == self@.display,
    {
        &self.display
    }

    /// The sound timer. While it is not zero, sound should play.
    pub fn sound_timer(&self) -> (t: u8)
        ensures
            t == self@.sound_timer,
    {
        self.sound_timer
    }

    /// The delay timer.
    pub fn delay_timer(&self) -> (t: u8)
        ensures
            t == self@.delay_timer,
    {
        self.delay_timer
    }

    /// Whether the machine has been stopped.
    pub fn halted(&self) -> (h: bool)
        ensures
            h == self@.halted,
    {
        self.halted
    }

    /// The keys held now.
    pub fn keypad(&self) -> (k: u16)
        ensures
            k == self@.keypad,
    {
        self.keypad
    }

    /// The keys held when the last instruction ended.
    pub fn old_keypad(&self) -> (k: u16)
        ensures
            k == self@.old_keypad,
    {
        self.old_keypad
    }

    /// The memory cells.
    pub fn memory(&self) -> (m: &[u8; MEMORY_SIZE])
        ensures
            m@ == self@.memory,
    {
        &self.memory
    }

    /// The registers V0 to VF.
    pub fn registers(&self) -> (v: &[u8; 16])
        ensures
            v@ == self@.v,
    {
        &self.v
    }

    /// The index register I.
    pub fn index(&self) -> (i: u16)
        ensures
            i == self@.i,
    {
        self.i
    }

    /// The program counter.
    pub fn pc(&self) -> (pc: u16)
        ensures
            pc == self@.pc,
    {
        self.pc
    }

    /// The number of return addresses on the call stack.
    pub fn stack_depth(&self) -> (depth: usize)
        ensures
            depth == self@.stack.len(),
    {
        proof {
            use_type_invariant(self);
        }
        self.sp as usize
    }

    /// Replaces the key mask; the mask so far becomes the previous one.
    pub fn set_keypad(&mut self, keypad: u16)
        ensures
            final(self)@ == old(self)@.set_keypad(keypad),
    {
        proof {
            use_type_invariant(&*self);
        }
        self.old_keypad = self.keypad;
        self.keypad = keypad;
    }

    /// Presses the keys whose bits are set in `keys`.
    pub fn on_key_down(&mut self, keys: u16)
        ensures
            final(self)@ == old(self)@.on_key_down(keys),
    {
        let keypad: u16 = self.keypad | keys;
        self.set_keypad(keypad);
    }

    /// Releases the keys whose bits are set in `keys`.
    pub fn on_key_up(&mut self, keys: u16)
        ensures
            final(self)@ == old(self)@.on_key_up(keys),
    {
        let keypad: u16 = self.keypad & !keys;
        self.set_keypad(keypad);
    }

    /// 0nnn, but for 00E0, 00EE and 00Cn: only the program counter moves.
    pub fn op_sys(&mut self)
        ensures
            final(self)@ == old(self)@.op_sys(),
    {
        proof {
            use_type_invariant(&*self);
        }
        self.pc = self.pc.wrapping_add(2);
    }

    /// 00E0: clears the framebuffer.
    pub fn op_clr(&mut self)
        ensures
            final(self)@ == old(self)@.op_clr(),
    {
        proof {
            use_type_invariant(&*self);
        }
        self.pc = self.pc.wrapping_add(2);
        self.display = [0; DISPLAY_SIZE];
    }

    /// 00EE: returns from a call. With an empty stack the machine halts on
    /// `Fault::StackUnderflow`.
    pub fn op_rts(&mut self) -> (r: Result<(), Fault>)
        ensures
            final(self)@ == old(self)@.op_rts(),
            r == checked(old(self)@.rts_fault()),
    {
        proof {
            use_type_invariant(&*self);
        }
        if self.sp == 0 {
            self.halted = true;
            return Err(Fault::StackUnderflow);
        }
        self.sp = self.sp - 1;
        self.pc = self.stack[self.sp as usize];
        assert(self@.stack =~= old(self)@.stack.drop_last());
        Ok(())
    }

    /// 1nnn: jumps to nnn.
    pub fn op_jmp(&mut self, opcode: u16)
        ensures
            final(self)@ == old(self)@.op_jmp(opcode),
    {
        proof {
            use_type_invariant(&*self);
        }
        self.pc = nnn_of(opcode);
    }

    /// 2nnn: calls the routine at nnn. With sixteen return addresses on the
    /// stack the machine halts on `Fault::StackOverflow`.
    pub fn op_call(&mut self, opcode: u16) -> (r: Result<(), Fault>)
        ensures
            final(self)@ == old(self)@.op_call(opcode),
            r == checked(old(self)@.call_fault()),
    {
        proof {
            use_type_invariant(&*self);
        }
        if self.sp >= 16 {
            self.halted = true;
            return Err(Fault::StackOverflow);
        }
        self.stack[self.sp as usize] = self.pc.wrapping_add(2);
        self.sp = self.sp + 1;
        self.pc = nnn_of(opcode);
        assert(self@.stack =~= old(self)@.stack.push(old(self)@.next_pc()));
        Ok(())
    }

    /// 3xnn: skips the next instruction if Vx is nn.
    pub fn op_ske(&mut self, opcode: u16)
        ensures
            final(self)@ == old(self)@.op_ske(opcode),
    {
        proof {
            use_type_invariant(&*self);
        }
        self.pc = self.pc.wrapping_add(2);
        let x: usize = x_of(opcode);
        let nn: u8 = nn_of(opcode);
        if self.v[x] == nn {
            self.pc = self.pc.wrapping_add(2);
        }
    }

    /// 4xnn: skips the next instruction if Vx is not nn.
    pub fn op_skne(&mut self, opcode: u16)
        ensures
            final(self)@ == old(self)@.op_skne(opcode),
    {
        proof {
            use_type_invariant(&*self);
        }
        self.pc = self.pc.wrapping_add(2);
        let x: usize = x_of(opcode);
        let nn: u8 = nn_of(opcode);
        if self.v[x] != nn {
            self.pc = self.pc.wrapping_add(2);
        }
    }

    /// 5xy0: skips the next instruction if Vx is Vy.
    pub fn op_skre(&mut self, opcode: u16)
        ensures
            final(self)@ == old(self)@.op_skre(opcode),
    {
        proof {
            use_type_invariant(&*self);
        }
        self.pc = self.pc.wrapping_add(2);
        let x: usize = x_of(opcode);
        let y: usize = y_of(opcode);
        if self.v[x] == self.v[y] {
            self.pc = self.pc.wrapping_add(2);
        }
    }

    /// 6xnn: sets Vx to nn.
    pub fn op_load(&mut self, opcode: u16)
        ensures
            final(self)@ == old(self)@.op_load(opcode),
    {
        proof {
            use_type_invariant(&*self);
        }
        self.pc = self.pc.wrapping_add(2);
        let x: usize = x_of(opcode);
        let nn: u8 = nn_of(opcode);
        self.v[x] = nn;
    }

    /// 7xnn: adds nn to Vx, wrapping round; no register but Vx changes.
    pub fn op_add(&mut self, opcode: u16)
        ensures
            final(self)@ == old(self)@.op_add(opcode),
            forall|k: int|
                0 <= k < 16 && k != operand_x(opcode) ==> final(self)@.v[k] == old(self)@.v[k],
    {
        proof {
            use_type_invariant(&*self);
        }
        self.pc = self.pc.wrapping_add(2);
        let x: usize = x_of(opcode);
        let nn: u8 = nn_of(opcode);
        self.v[x] = self.v[x].wrapping_add(nn);
    }

    /// 8xy0: sets Vx to Vy.
    pub fn op_move(&mut self, opcode: u16)
        ensures
            final(self)@ == old(self)@.op_move(opcode),
    {
        proof {
            use_type_invariant(&*self);
        }
        self.pc = self.pc.wrapping_add(2);
        let x: usize = x_of(opcode);
        let y: usize = y_of(opcode);
        self.v[x] = self.v[y];
    }

    /// 8xy1: sets Vx to Vx or Vy.
    pub fn op_or(&mut self, opcode: u16)
        ensures
            final(self)@ == old(self)@.op_or(opcode),
    {
        proof {
            use_type_invariant(&*self);
        }
        self.pc = self.pc.wrapping_add(2);
        let x: usize = x_of(opcode);
        let y: usize = y_of(opcode);
        self.v[x] = self.v[x] | self.v[y];
    }

    /// 8xy2: sets Vx to Vx and Vy.
    pub fn op_and(&mut self, opcode: u16)
        ensures
            final(self)@ == old(self)@.op_and(opcode),
    {
        proof {
            use_type_invariant(&*self);
        }
        self.pc = self.pc.wrapping_add(2);
        let x: usize = x_of(opcode);
        let y: usize = y_of(opcode);
        self.v[x] = self.v[x] & self.v[y];
    }

    /// 8xy3: sets Vx to Vx xor Vy.
    pub fn op_xor(&mut self, opcode: u16)
        ensures
            final(self)@ == old(self)@.op_xor(opcode),
    {
        proof {
            use_type_invariant(&*self);
        }
        self.pc = self.pc.wrapping_add(2);
        let x: usize = x_of(opcode);
        let y: usize = y_of(opcode);
        self.v[x] = self.v[x] ^ self.v[y];
    }

    /// 8xy4: adds Vy to Vx, wrapping round, then sets VF to 1 if the sum did
    /// not fit into a byte and to 0 if it did.
    pub fn op_addr(&mut self, opcode: u16)
        ensures
            final(self)@ == old(self)@.op_addr(opcode),
    {
        proof {
            use_type_invariant(&*self);
        }
        self.pc = self.pc.wrapping_add(2);
        let x: usize = x_of(opcode);
        let y: usize = y_of(opcode);
        let vx: u8 = self.v[x];
        let vy: u8 = self.v[y];
        self.v[x] = vx.wrapping_add(vy);
        self.v[0xF] = if vy > 255 - vx {
            1
        } else {
            0
        };
    }

    /// 8xy5: subtracts Vy from Vx, wrapping round, then sets VF to 1 if Vx
    /// was at least Vy (no borrow) and to 0 if it was less.
    pub fn op_sub(&mut self, opcode: u16)
        ensures
            final(self)@ == old(self)@.op_sub(opcode),
            final(self)@.v[0xF] == flag(
                old(self)@.v[operand_x(opcode)] >= old(self)@.v[operand_y(opcode)],
            ),
    {
        proof {
            use_type_invariant(&*self);
        }
        self.pc = self.pc.wrapping_add(2);
        let x: usize = x_of(opcode);
        let y: usize = y_of(opcode);
        let vx: u8 = self.v[x];
        let vy: u8 = self.v[y];
        self.v[x] = vx.wrapping_sub(vy);
        self.v[0xF] = if vx >= vy {
            1
        } else {
            0
        };
    }

    /// 8xy7: sets Vx to Vy minus Vx, wrapping round, then sets VF to 1 if Vy
    /// was at least Vx (no borrow) and to 0 if it was less.
    pub fn op_subn(&mut self, opcode: u16)
        ensures
            final(self)@ == old(self)@.op_subn(opcode),
    {
        proof {
            use_type_invariant(&*self);
        }
        self.pc = self.pc.wrapping_add(2);
        let x: usize = x_of(opcode);
        let y: usize = y_of(opcode);
        let vx: u8 = self.v[x];
        let vy: u8 = self.v[y];
        self.v[x] = vy.wrapping_sub(vx);
        self.v[0xF] = if vy >= vx {
            1
        } else {
            0
        };
    }

    /// 8xy6: sets VF to the low bit of Vx, then shifts Vx right by one.
    pub fn op_shr(&mut self, opcode: u16)
        ensures
            final(self)@ == old(self)@.op_shr(opcode),
    {
        proof {
            use_type_invariant(&*self);
        }
        self.pc = self.pc.wrapping_add(2);
        let x: usize = x_of(opcode);
        let vx: u8 = self.v[x];
        assert(vx & 0x1 == vx % 2) by (bit_vector);
        self.v[0xF] = vx & 0x1;
        let shifted: u8 = self.v[x];
        assert(shifted >> 1 == shifted / 2) by (bit_vector);
        self.v[x] = shifted >> 1;
    }

    /// 8xyE: sets VF to the high bit of Vx, then shifts Vx left by one.
    pub fn op_shl(&mut self, opcode: u16)
        ensures
            final(self)@ == old(self)@.op_shl(opcode),
    {
        proof {
            use_type_invariant(&*self);
        }
        self.pc = self.pc.wrapping_add(2);
        let x: usize = x_of(opcode);
        let vx: u8 = self.v[x];
        assert(vx >> 7 == vx / 128) by (bit_vector);
        self.v[0xF] = vx >> 7;
        let shifted: u8 = self.v[x];
        assert(shifted << 1 == (shifted * 2) % 256) by (bit_vector);
        self.v[x] = shifted << 1;
    }

    /// 9xy0: skips the next instruction if Vx is not Vy.
    pub fn op_skrne(&mut self, opcode: u16)
        ensures
            final(self)@ == old(self)@.op_skrne(opcode),
    {
        proof {
            use_type_invariant(&*self);
        }
        self.pc = self.pc.wrapping_add(2);
        let x: usize = x_of(opcode);
        let y: usize = y_of(opcode);
        if self.v[x] != self.v[y] {
            self.pc = self.pc.wrapping_add(2);
        }
    }

    /// Annn: sets I to nnn.
    pub fn op_loadi(&mut self, opcode: u16)
        ensures
            final(self)@ == old(self)@.op_loadi(opcode),
    {
        proof {
            use_type_invariant(&*self);
        }
        self.pc = self.pc.wrapping_add(2);
        self.i = nnn_of(opcode);
    }

    /// Bnnn: jumps to V0 plus nnn.
    pub fn op_jumpi(&mut self, opcode: u16)
        ensures
            final(self)@ == old(self)@.op_jumpi(opcode),
    {
        proof {
            use_type_invariant(&*self);
        }
        self.pc = self.v[0] as u16 + nnn_of(opcode);
    }

    /// Fx07: sets Vx to the delay timer.
    pub fn op_moved(&mut self, opcode: u16)
        ensures
            final(self)@ == old(self)@.op_moved(opcode),
    {
        proof {
            use_type_invariant(&*self);
        }
        self.pc = self.pc.wrapping_add(2);
        let x: usize = x_of(opcode);
        self.v[x] = self.delay_timer;
    }

    /// Fx15: sets the delay timer to Vx.
    pub fn op_loadd(&mut self, opcode: u16)
        ensures
            final(self)@ == old(self)@.op_loadd(opcode),
    {
        proof {
            use_type_invariant(&*self);
        }
        self.pc = self.pc.wrapping_add(2);
        let x: usize = x_of(opcode);
        self.delay_timer = self.v[x];
    }

    /// Fx18: sets the sound timer to Vx.
    pub fn op_loads(&mut self, opcode: u16)
        ensures
            final(self)@ == old(self)@.op_loads(opcode),
    {
        proof {
            use_type_invariant(&*self);
        }
        self.pc = self.pc.wrapping_add(2);
        let x: usize = x_of(opcode);
        self.sound_timer = self.v[x];
    }

    /// Fx1E: adds Vx to I, wrapping round at sixteen bits.
    pub fn op_addi(&mut self, opcode: u16)
        ensures
            final(self)@ == old(self)@.op_addi(opcode),
    {
        proof {
            use_type_invariant(&*self);
        }
        self.pc = self.pc.wrapping_add(2);
        let x: usize = x_of(opcode);
        self.i = self.i.wrapping_add(self.v[x] as u16);
    }

    /// Fx29: sets I to five times Vx, where the glyph for Vx is kept.
    pub fn op_ldspr(&mut self, opcode: u16)
        ensures
            final(self)@ == old(self)@.op_ldspr(opcode),
    {
        proof {
            use_type_invariant(&*self);
        }
        self.pc = self.pc.wrapping_add(2);
        let x: usize = x_of(opcode);
        self.i = self.v[x] as u16 * 5;
    }

    /// 00Cn: zeroes the first n bytes of the framebuffer.
    pub fn op_scrd(&mut self, opcode: u16)
        ensures
            final(self)@ == old(self)@.op_scrd(opcode),
    {
        proof {
            use_type_invariant(&*self);
        }
        self.pc = self.pc.wrapping_add(2);
        let n: usize = n_of(opcode);
        let mut k: usize = 0;
        while k < n
            invariant
                k <= n < 16,
                self.sp <= 16,
                self@ == (Machine { display: self.display@, ..old(self)@.advance() }),
                forall|idx: int|
                    0 <= idx < 256 ==> self.display@[idx] == if idx < k {
                        0u8
                    } else {
                        old(self)@.display[idx]
                    },
            decreases n - k,
        {
            self.display[k] = 0;
            k += 1;
        }
        assert(self.display@ =~= old(self)@.op_scrd(opcode).display);
    }

    /// Cxnn with the byte already drawn: sets Vx to `random` masked by nn.
    pub fn op_rand_with(&mut self, opcode: u16, random: u8)
        ensures
            final(self)@ == old(self)@.op_rand(opcode, random),
    {
        proof {
            use_type_invariant(&*self);
        }
        self.pc = self.pc.wrapping_add(2);
        let x: usize = x_of(opcode);
        let nn: u8 = nn_of(opcode);
        self.v[x] = random & nn;
    }

    /// Cxnn: sets Vx to a random byte masked by nn. Whatever byte is drawn, no
    /// bit of Vx is set that is clear in nn.
    pub fn op_rand(&mut self, opcode: u16)
        ensures
            exists|random: u8| final(self)@ == old(self)@.op_rand(opcode, random),
            final(self)@.v[operand_x(opcode)] & !operand_nn(opcode) == 0,
    {
        let random: u8 = random_byte();
        self.op_rand_with(opcode, random);
        proof {
            let nn: u8 = operand_nn(opcode);
            assert((random & nn) & !nn == 0) by (bit_vector);
        }
    }

    /// Ex9E: skips the next instruction if the key Vx is held. A value of Vx
    /// above 15 names no key.
    pub fn op_spr(&mut self, opcode: u16)
        ensures
            final(self)@ == old(self)@.op_spr(opcode),
    {
        proof {
            use_type_invariant(&*self);
        }
        self.pc = self.pc.wrapping_add(2);
        let x: usize = x_of(opcode);
        let key: u8 = self.v[x];
        let is_pressed: bool = key < 16 && self.keypad & (1u16 << (key as u16)) != 0;
        if is_pressed {
            self.pc = self.pc.wrapping_add(2);
        }
    }

    /// ExA1: skips the next instruction if the key Vx is not held. A value of
    /// Vx above 15 names no key, so the skip is taken.
    pub fn op_skup(&mut self, opcode: u16)
        ensures
            final(self)@ == old(self)@.op_skup(opcode),
    {
        proof {
            use_type_invariant(&*self);
        }
        self.pc = self.pc.wrapping_add(2);
        let x: usize = x_of(opcode);
        let key: u8 = self.v[x];
        let is_pressed: bool = key < 16 && self.keypad & (1u16 << (key as u16)) != 0;
        if !is_pressed {
            self.pc = self.pc.wrapping_add(2);
        }
    }

    /// Fx0A: waits for a key. While the key mask is what it was when the last
    /// instruction ended, or no key is held, nothing changes, so that the
    /// instruction runs again on the next cycle. Otherwise Vx becomes the
    /// lowest key held and the program counter advances.
    pub fn op_keyd(&mut self, opcode: u16)
        ensures
            final(self)@ == old(self)@.op_keyd(opcode),
            !old(self)@.key_arrived() ==> final(self)@ == old(self)@,
            old(self)@.key_arrived() ==> is_lowest_key(
                old(self)@.keypad,
                final(self)@.v[operand_x(opcode)] as int,
            ),
    {
        proof {
            use_type_invariant(&*self);
        }
        if self.old_keypad == self.keypad || self.keypad == 0 {
            return ;
        }
        let x: usize = x_of(opcode);
        self.pc = self.pc.wrapping_add(2);
        let mut key: u8 = 0;
        while key < 16
            invariant
                key < 16,
                x < 16,
                self.sp <= 16,
                self.keypad != 0,
                self@ == old(self)@.advance(),
                old(self)@.key_arrived(),
                forall|j: int| 0 <= j < key ==> !key_pressed(self.keypad, j),
            ensures
                key < 16,
                self@ == old(self)@.advance(),
                is_lowest_key(self.keypad, key as int),
            decreases 16 - key,
        {
            if self.keypad & (1u16 << (key as u16)) != 0 {
                break ;
            }
            proof {
                assert(!key_pressed(self.keypad, key as int));
                if key == 15 {
                    lemma_no_key_is_zero(self.keypad);
                }
            }
            key += 1;
        }
        proof {
            lemma_lowest_key_unique(self.keypad, key as int);
        }
        self.v[x] = key;
    }

    /// Fx33: stores the hundreds, tens and units of Vx at I, I + 1 and I + 2.
    /// If I + 2 lies past the end of memory the machine halts on
    /// `Fault::Address`.
    pub fn op_bcd(&mut self, opcode: u16) -> (r: Result<(), Fault>)
        ensures
            final(self)@ == old(self)@.op_bcd(opcode),
            r == checked(old(self)@.span_fault(2)),
    {
        proof {
            use_type_invariant(&*self);
        }
        let base: usize = self.i as usize;
        if base + 2 >= MEMORY_SIZE {
            self.halted = true;
            return Err(Fault::Address);
        }
        self.pc = self.pc.wrapping_add(2);
        let x: usize = x_of(opcode);
        let value: u8 = self.v[x];
        self.memory[base] = value / 100;
        self.memory[base + 1] = (value / 10) % 10;
        self.memory[base + 2] = value % 10;
        Ok(())
    }

    /// Fx55: stores V0 to Vx in memory from I on. If I + x lies past the end
    /// of memory the machine halts on `Fault::Address`.
    pub fn op_stor(&mut self, opcode: u16) -> (r: Result<(), Fault>)
        ensures
            final(self)@ == old(self)@.op_stor(opcode),
            r == checked(old(self)@.span_fault(operand_x(opcode))),
    {
        proof {
            use_type_invariant(&*self);
        }
        let x: usize = x_of(opcode);
        let base: usize = self.i as usize;
        if base + x >= MEMORY_SIZE {
            self.halted = true;
            return Err(Fault::Address);
        }
        self.pc = self.pc.wrapping_add(2);
        let mut k: usize = 0;
        while k <= x
            invariant
                k <= x + 1,
                x < 16,
                base + x < 4096,
                base == old(self)@.i,
                self.sp <= 16,
                self@ == (Machine { memory: self.memory@, ..old(self)@.advance() }),
                forall|a: int|
                    0 <= a < 4096 ==> self.memory@[a] == if base <= a < base + k {
                        old(self)@.v[a - base]
                    } else {
                        old(self)@.memory[a]
                    },
            decreases x + 1 - k,
        {
            self.memory[base + k] = self.v[k];
            k += 1;
        }
        assert(self.memory@ =~= old(self)@.op_stor(opcode).memory);
        Ok(())
    }

    /// Fx65: loads V0 to Vx from memory from I on. If I + x lies past the end
    /// of memory the machine halts on `Fault::Address`.
    pub fn op_read(&mut self, opcode: u16) -> (r: Result<(), Fault>)
        ensures
            final(self)@ == old(self)@.op_read(opcode),
            r == checked(old(self)@.span_fault(operand_x(opcode))),
    {
        proof {
            use_type_invariant(&*self);
        }
        let x: usize = x_of(opcode);
        let base: usize = self.i as usize;
        if base + x >= MEMORY_SIZE {
            self.halted = true;
            return Err(Fault::Address);
        }
        self.pc = self.pc.wrapping_add(2);
        let mut k: usize = 0;
        while k <= x
            invariant
                k <= x + 1,
                x < 16,
                base + x < 4096,
                base == old(self)@.i,
                self.sp <= 16,
                self@ == (Machine { v: self.v@, ..old(self)@.advance() }),
                forall|j: int|
                    0 <= j < 16 ==> self.v@[j] == if j < k {
                        old(self)@.memory[base + j]
                    } else {
                        old(self)@.v[j]
                    },
            decreases x + 1 - k,
        {
            self.v[k] = self.memory[base + k];
            k += 1;
        }
        assert(self.v@ =~= old(self)@.op_read(opcode).v);
        Ok(())
    }

    /// Dxyn: draws the n-row sprite that memory holds from I on at (Vx, Vy).
    /// Every set bit of the sprite flips the pixel it falls on, wrapping round
    /// both edges; VF becomes 1 if that turned a lit pixel off, else 0. If the
    /// sprite reaches past the end of memory the machine halts on
    /// `Fault::Address`.
    pub fn op_draw(&mut self, opcode: u16) -> (r: Result<(), Fault>)
        ensures
            final(self)@ == old(self)@.op_draw(opcode),
            r == checked(old(self)@.draw_fault(opcode)),
    {
        proof {
            use_type_invariant(&*self);
        }
        let s: usize = x_of(opcode);
        let t: usize = y_of(opcode);
        let n: usize = n_of(opcode);
        let base: usize = self.i as usize;
        if n > 0 && base + n > MEMORY_SIZE {
            self.halted = true;
            return Err(Fault::Address);
        }
        self.pc = self.pc.wrapping_add(2);
        let x: usize = self.v[s] as usize;
        let y: usize = self.v[t] as usize;
        self.v[0xF] = 0;
        let ghost before = old(self)@.display;
        let ghost sprite = old(self)@.sprite(opcode);
        proof {
            lemma_paint_start(before, sprite, x as int, y as int);
        }
        let mut yline: usize = 0;
        while yline < n
            invariant
                yline <= n < 16,
                n > 0 ==> base + n <= 4096,
                x < 256,
                y < 256,
                self.sp <= 16,
                sprite.len() == n,
                forall|row: int| 0 <= row < n ==> sprite[row] == self.memory@[base + row],
                self@ == (Machine {
                    display: self.display@,
                    v: self.v@,
                    ..old(self)@.advance()
                }),
                self.v@ == old(self)@.v.update(0xF, self.v@[0xF]),
                self.v@[0xF] == flag(
                    collides_before(before, sprite, x as int, y as int, yline as int, 0),
                ),
                painted(self.display@, before, sprite, x as int, y as int, yline as int, 0),
            decreases n - yline,
        {
            let pixel: u8 = self.memory[base + yline];
            let mut xline: u8 = 0;
            while xline < 8
                invariant
                    xline <= 8,
                    yline < n < 16,
                    x < 256,
                    y < 256,
                    self.sp <= 16,
                    sprite.len() == n,
                    pixel == sprite[yline as int],
                    self@ == (Machine {
                        display: self.display@,
                        v: self.v@,
                        ..old(self)@.advance()
                    }),
                    self.v@ == old(self)@.v.update(0xF, self.v@[0xF]),
                    self.v@[0xF] == flag(
                        collides_before(
                            before,
                            sprite,
                            x as int,
                            y as int,
                            yline as int,
                            xline as int,
                        ),
                    ),
                    painted(
                        self.display@,
                        before,
                        sprite,
                        x as int,
                        y as int,
                        yline as int,
                        xline as int,
                    ),
                decreases 8 - xline,
            {
                if pixel & (0x80u8 >> xline) != 0 {
                    let px: usize = (x + xline as usize) % DISPLAY_WIDTH;
                    let py: usize = (y + yline) % DISPLAY_HEIGHT;
                    let index: usize = py * DISPLAY_WIDTH / 8 + px / 8;
                    let mask: u8 = 0x80u8 >> ((px % 8) as u8);
                    proof {
                        lemma_paint_flip(
                            self.display@,
                            before,
                            sprite,
                            x as int,
                            y as int,
                            yline as int,
                            xline as int,
                        );
                        assert(index == py * 8 + px / 8);
                    }
                    if self.display[index] & mask != 0 {
                        self.v[0xF] = 1;
                    }
                    self.display[index] = self.display[index] ^ mask;
                } else {
                    proof {
                        lemma_paint_skip(
                            self.display@,
                            before,
                            sprite,
                            x as int,
                            y as int,
                            yline as int,
                            xline as int,
                        );
                    }
                }
                xline += 1;
            }
            proof {
                lemma_paint_next_row(
                    self.display@,
                    before,
                    sprite,
                    x as int,
                    y as int,
                    yline as int,
                );
            }
            yline += 1;
        }
        proof {
            lemma_paint_done(self.display@, before, sprite, x as int, y as int);
        }
        Ok(())
    }

    /// Runs one instruction cycle: fetches the two bytes at the program
    /// counter as an opcode, high byte first, carries the instruction out,
    /// and makes the key mask it saw the previous one.
    ///
    /// An opcode that the table does not have is reported and only moves the
    /// program counter on. On a fault the machine halts, the fault is
    /// reported and nothing else changes. Only Cxnn draws a random byte.
    pub fn emulate_cycle(&mut self) -> (outcome: Outcome)
        ensures
            exists|random: u8| final(self)@ == old(self)@.emulate_cycle(random),
            outcome == old(self)@.cycle_outcome(),
            outcome is Faulted ==> final(self)@ == old(self)@.halt(),
            !(outcome is Faulted) ==> final(self)@.old_keypad == final(self)@.keypad,
            final(self)@.keypad == old(self)@.keypad,
    {
        proof {
            use_type_invariant(&*self);
        }
        if self.pc as usize + 1 >= MEMORY_SIZE {
            self.halted = true;
            assert(self@ == old(self)@.emulate_cycle(0u8));
            return Outcome::Faulted(Fault::ProgramCounter);
        }
        let high: u8 = self.memory[self.pc as usize];
        let low: u8 = self.memory[self.pc as usize + 1];
        let opcode: u16 = (high as u16) << 8 | low as u16;
        assert((high as u16) << 8 | low as u16 == high * 256 + low) by (bit_vector);
        assert(opcode == old(self)@.fetch());
        let ghost mut random: u8 = 0;
        let mut outcome: Outcome = Outcome::Executed;
        let mut done: Result<(), Fault> = Ok(());
        match opcode {
            0x00E0 => self.op_clr(),
            0x00EE => {
                done = self.op_rts();
            },
            0x1000..=0x1FFF => self.op_jmp(opcode),
            0x2000..=0x2FFF => {
                done = self.op_call(opcode);
            },
            0x00C0..=0x00CF => self.op_scrd(opcode),
            0x0000..=0x0FFF => self.op_sys(),
            0x3000..=0x3FFF => self.op_ske(opcode),
            0x4000..=0x4FFF => self.op_skne(opcode),
            0x5000..=0x5FFF => self.op_skre(opcode),
            0x6000..=0x6FFF => self.op_load(opcode),
            0x7000..=0x7FFF => self.op_add(opcode),
            0x8000..=0x8FFF => match n_of(opcode) {
                0x0 => self.op_move(opcode),
                0x1 => self.op_or(opcode),
                0x2 => self.op_and(opcode),
                0x3 => self.op_xor(opcode),
                0x4 => self.op_addr(opcode),
                0x5 => self.op_sub(opcode),
                0x6 => self.op_shr(opcode),
                0x7 => self.op_subn(opcode),
                0xE => self.op_shl(opcode),
                _ => {
                    self.op_sys();
                    outcome = Outcome::UnknownOpcode(opcode);
                },
            },
            0x9000..=0x9FFF => self.op_skrne(opcode),
            0xA000..=0xAFFF => self.op_loadi(opcode),
            0xB000..=0xBFFF => self.op_jumpi(opcode),
            0xC000..=0xCFFF => {
                self.op_rand(opcode);
                proof {
                    random = choose|random: u8| self@ == old(self)@.op_rand(opcode, random);
                }
            },
            0xD000..=0xDFFF => {
                done = self.op_draw(opcode);
            },
            0xE000..=0xEFFF => match nn_of(opcode) {
                0x9E => self.op_spr(opcode),
                0xA1 => self.op_skup(opcode),
                _ => {
                    self.op_sys();
                    outcome = Outcome::UnknownOpcode(opcode);
                },
            },
            0xF000..=0xFFFF => match nn_of(opcode) {
                0x07 => self.op_moved(opcode),
                0x0A => self.op_keyd(opcode),
                0x15 => self.op_loadd(opcode),
                0x18 => self.op_loads(opcode),
                0x1E => self.op_addi(opcode),
                0x29 => self.op_ldspr(opcode),
                0x33 => {
                    done = self.op_bcd(opcode);
                },
                0x55 => {
                    done = self.op_stor(opcode);
                },
                0x65 => {
                    done = self.op_read(opcode);
                },
                _ => {
                    self.op_sys();
                    outcome = Outcome::UnknownOpcode(opcode);
                },
            },
        }
        assert(self@ == old(self)@.execute(opcode, random));
        assert(done == checked(old(self)@.fault_of(opcode)));
        match done {
            Err(fault) => {
                assert(self@ == old(self)@.emulate_cycle(random));
                Outcome::Faulted(fault)
            },
            Ok(()) => {
                proof {
                    use_type_invariant(&*self);
                }
                self.old_keypad = self.keypad;
                assert(self@ == old(self)@.emulate_cycle(random));
                outcome
            },
        }
    }

    /// One tick of the host's clock: each timer that is not zero goes down by
    /// one, then one instruction cycle runs. The outcome is that of the cycle.
    pub fn tick(&mut self) -> (outcome: Outcome)
        ensures
            exists|random: u8| final(self)@ == old(self)@.tick(random),
            outcome == old(self)@.tick_outcome(),
            outcome is Faulted ==> final(self)@ == old(self)@.count_down().halt(),
            !(outcome is Faulted) ==> final(self)@.old_keypad == final(self)@.keypad,
            final(self)@.keypad == old(self)@.keypad,
    {
        proof {
            use_type_invariant(&*self);
        }
        if self.delay_timer > 0 {
            self.delay_timer -= 1;
        }
        if self.sound_timer > 0 {
            self.sound_timer -= 1;
        }
        assert(self@ == old(self)@.count_down());
        let ghost counted = self@;
        let outcome: Outcome = self.emulate_cycle();
        proof {
            let random: u8 = choose|random: u8| self@ == counted.emulate_cycle(random);
            assert(self@ == old(self)@.tick(random));
        }
        outcome
    }
}

} // verus!
