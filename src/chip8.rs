//! The interpreter state and the execution of each operation on it.
use vstd::prelude::*;
use crate::decode::{decode, decode_spec, field_n, field_nn, field_nnn, field_x, field_y, n_of, nn_of, x_of, Op};
use crate::machine::{
    add_byte_spec, add_i_spec, add_reg_spec, addr_i, advance, and_spec, call_spec, cls_spec, collides,
    covered, drawn, drw_spec, exec_spec, fetch_spec, first_press, font_spec, initial, jp_spec, jp_v0_spec,
    key_of, key_wait_spec, latch_keys, ld_b_spec, ld_byte_spec, ld_dt_vx_spec, ld_f_spec, ld_i_spec,
    ld_reg_spec, ld_st_vx_spec, ld_vx_dt_spec, ld_vx_k_spec, load_regs_spec, or_spec, outcome, ret_spec,
    rnd_spec, se_byte_spec, se_reg_spec, set_v, shl_spec, shr_spec, skip_if, sknp_spec,
    skp_spec, sne_byte_spec, sne_reg_spec, step_spec, store_regs_spec, sub_spec, subn_spec, vx, vy,
    xor_spec, Fault, Machine, RunState, CELLS, MEM_SIZE, NKEYS, PROGRAM_START, STACK_DEPTH,
};
use crate::rng::random_byte;
use crate::timers::{tick_spec, Timers};

verus! {

/// The interpreter: memory, registers, stack, display, keypad latch and
/// timers.
pub struct Chip8 {
    /// 4096 bytes of memory; the font sits at 0, programs from 0x200.
    pub ram: Vec<u8>,
    /// General registers V0..VF; VF is the flag output.
    pub reg_v: Vec<u8>,
    /// 16 return addresses.
    pub stack: Vec<u16>,
    pub reg_i: u16,
    pub pc: u16,
    /// Entries of `stack` in use.
    pub sp: u8,
    /// 64x32 pixels, row-major.
    pub display: Vec<bool>,
    /// The keypad latch the host writes before each cycle.
    pub keys: Vec<bool>,
    /// The latch as it was in the previous cycle.
    pub prev_keys: Vec<bool>,
    pub mode: RunState,
    pub timers: Timers,
}

impl View for Chip8 {
    type V = Machine;

    open spec fn view(&self) -> Machine {
        Machine {
            ram: self.ram@,
            v: self.reg_v@,
            stack: self.stack@,
            i: self.reg_i,
            pc: self.pc,
            sp: self.sp,
            display: self.display@,
            keys: self.keys@,
            prev_keys: self.prev_keys@,
            mode: self.mode,
            timers: self.timers,
        }
    }
}

fn filled<T: Copy>(n: usize, val: T) -> (r: Vec<T>)
    ensures
        r@ == Seq::new(n as nat, |k: int| val),
{
    let mut r: Vec<T> = Vec::new();
    while r.len() < n
        invariant
            r.len() <= n,
            forall|k: int| 0 <= k < r.len() ==> r@[k] == val,
        decreases n - r.len(),
    {
        r.push(val);
    }
    assert(r@ =~= Seq::new(n as nat, |k: int| val));
    r
}

impl Chip8 {
    pub open spec fn wf(&self) -> bool {
        self@.wf()
    }

    /// A machine with the font loaded, all else zero and PC at 0x200.
    pub fn new() -> (r: Chip8)
        ensures
            r.wf(),
            r@ == initial(),
    {
        let font: Vec<u8> = vec![
            0xF0u8, 0x90, 0x90, 0x90, 0xF0, 0x20, 0x60, 0x20, 0x20, 0x70,
            0xF0, 0x10, 0xF0, 0x80, 0xF0, 0xF0, 0x10, 0xF0, 0x10, 0xF0,
            0x90, 0x90, 0xF0, 0x10, 0x10, 0xF0, 0x80, 0xF0, 0x10, 0xF0,
            0xF0, 0x80, 0xF0, 0x90, 0xF0, 0xF0, 0x10, 0x20, 0x40, 0x40,
            0xF0, 0x90, 0xF0, 0x90, 0xF0, 0xF0, 0x90, 0xF0, 0x10, 0xF0,
            0xF0, 0x90, 0xF0, 0x90, 0x90, 0xE0, 0x90, 0xE0, 0x90, 0xE0,
            0xF0, 0x80, 0x80, 0x80, 0xF0, 0xE0, 0x90, 0x90, 0x90, 0xE0,
            0xF0, 0x80, 0xF0, 0x80, 0xF0, 0xF0, 0x80, 0xF0, 0x80, 0x80,
        ];
        assert(font@ =~= font_spec());
        let mut ram: Vec<u8> = Vec::new();
        while ram.len() < MEM_SIZE
            invariant
                ram.len() <= MEM_SIZE,
                font@ == font_spec(),
                forall|a: int| 0 <= a < ram.len() ==> ram@[a] == (if a < 80 { font_spec()[a] } else { 0u8 }),
            decreases MEM_SIZE - ram.len(),
        {
            if ram.len() < 80 {
                ram.push(font[ram.len()]);
            } else {
                ram.push(0);
            }
        }
        let r = Chip8 {
            ram,
            reg_v: filled(16, 0u8),
            stack: filled(16, 0u16),
            reg_i: 0,
            pc: PROGRAM_START as u16,
            sp: 0,
            display: filled(CELLS, false),
            keys: filled(NKEYS, false),
            prev_keys: filled(NKEYS, false),
            mode: RunState::Running,
            timers: Timers::new(),
        };
        assert(r@ =~= initial());
        r
    }

    /// Copies a program into memory from 0x200 on. A program longer than
    /// the 0xE00 bytes there is refused and memory is left as it was.
    pub fn load_rom(&mut self, rom: &Vec<u8>) -> (r: Result<(), Fault>)
        requires
            old(self).wf(),
        ensures
            final(self).wf(),
            rom.len() > MEM_SIZE - PROGRAM_START ==> r == Err::<(), Fault>(Fault::CapacityExceeded { len: rom.len() })
                && final(self)@ == old(self)@,
            rom.len() <= MEM_SIZE - PROGRAM_START ==> r is Ok && final(self)@ == (Machine {
                ram: Seq::new(MEM_SIZE as nat, |a: int|
                    if PROGRAM_START <= a < PROGRAM_START + rom.len() { rom@[a - PROGRAM_START] } else { old(self)@.ram[a] }),
                ..old(self)@
            }),
    {
        if rom.len() > MEM_SIZE - PROGRAM_START {
            return Err(Fault::CapacityExceeded { len: rom.len() });
        }
        let ghost m0 = self@;
        let mut k: usize = 0;
        while k < rom.len()
            invariant
                k <= rom.len() <= MEM_SIZE - PROGRAM_START,
                self@ == (Machine { ram: self@.ram, ..m0 }),
                self.ram@.len() == MEM_SIZE,
                forall|a: int| 0 <= a < MEM_SIZE ==> #[trigger] self.ram@[a] ==
                    if PROGRAM_START <= a < PROGRAM_START + k { rom@[a - PROGRAM_START] } else { m0.ram[a] },
            decreases rom.len() - k,
        {
            self.ram.set(PROGRAM_START + k, rom[k]);
            k += 1;
        }
        assert(self@ =~= (Machine {
            ram: Seq::new(MEM_SIZE as nat, |a: int|
                if PROGRAM_START <= a < PROGRAM_START + rom.len() { rom@[a - PROGRAM_START] } else { m0.ram[a] }),
            ..m0
        }));
        Ok(())
    }

    /// The big-endian instruction word at PC.
    pub fn fetch(&self) -> (r: u16)
        requires
            self.wf(),
            self.pc <= 0xFFE,
        ensures
            r == fetch_spec(self@),
    {
        let hi = self.ram[self.pc as usize] as u16;
        let lo = self.ram[self.pc as usize + 1] as u16;
        hi * 256 + lo
    }

    /// The generic advance: PC moves past this instruction.
    pub fn inc_pc(&mut self)
        requires
            old(self).wf(),
            old(self).pc <= 0xFFE,
        ensures
            final(self).wf(),
            final(self)@ == advance(old(self)@),
    {
        self.pc = self.pc + 2;
    }

    fn skip_when(&mut self, cond: bool)
        requires
            old(self).wf(),
            old(self).pc <= 0xFFE,
        ensures
            final(self).wf(),
            final(self)@ == skip_if(old(self)@, cond),
    {
        self.pc = if cond { self.pc + 4 } else { self.pc + 2 };
    }

    fn set_reg(&mut self, x: usize, val: u8)
        requires
            old(self).wf(),
            x < 16,
        ensures
            final(self).wf(),
            final(self)@ == set_v(old(self)@, x as int, val),
    {
        self.reg_v.set(x, val);
    }

    /// 00E0: every display cell off.
    pub fn cls_0(&mut self)
        requires
            old(self).wf(),
            old(self).pc <= 0xFFE,
        ensures
            final(self).wf(),
            final(self)@ == cls_spec(old(self)@),
            forall|c: int| 0 <= c < CELLS ==> !#[trigger] final(self).display@[c],
            final(self).pc == old(self).pc + 2,
    {
        let mut c: usize = 0;
        let ghost m0 = self@;
        while c < CELLS
            invariant
                c <= CELLS,
                self@ == (Machine { display: self@.display, ..m0 }),
                self.display@.len() == CELLS,
                forall|k: int| 0 <= k < c ==> !#[trigger] self.display@[k],
            decreases CELLS - c,
        {
            self.display.set(c, false);
            c += 1;
        }
        assert(self.display@ =~= Seq::new(CELLS as nat, |k: int| false));
        self.inc_pc();
    }

    /// 00EE: return to the address on top of the stack.
    pub fn ret_0(&mut self) -> (r: Result<(), Fault>)
        requires
            old(self).wf(),
        ensures
            final(self).wf(),
            outcome(old(self)@, final(self)@, r, ret_spec(old(self)@)),
            r is Err <==> old(self).sp == 0,
    {
        if self.sp == 0 {
            return Err(Fault::StackUnderflow { addr: self.pc });
        }
        self.sp = self.sp - 1;
        self.pc = self.stack[self.sp as usize];
        Ok(())
    }

    /// 1nnn: jump.
    pub fn jp_1(&mut self, instruction: u16)
        requires
            old(self).wf(),
        ensures
            final(self).wf(),
            final(self)@ == jp_spec(old(self)@, instruction),
            final(self).pc == instruction & 0x0FFF,
    {
        self.pc = field_nnn(instruction);
    }

    /// 2nnn: push the address of the next instruction and jump.
    pub fn call_2(&mut self, instruction: u16) -> (r: Result<(), Fault>)
        requires
            old(self).wf(),
            old(self).pc <= 0xFFE,
        ensures
            final(self).wf(),
            outcome(old(self)@, final(self)@, r, call_spec(old(self)@, instruction)),
            r is Err <==> old(self).sp == STACK_DEPTH,
    {
        if self.sp >= STACK_DEPTH {
            return Err(Fault::StackOverflow { addr: self.pc });
        }
        self.stack.set(self.sp as usize, self.pc + 2);
        self.sp = self.sp + 1;
        self.pc = field_nnn(instruction);
        Ok(())
    }

    /// 3xnn: skip the next instruction if `Vx == nn`.
    pub fn se_3(&mut self, instruction: u16)
        requires
            old(self).wf(),
            old(self).pc <= 0xFFE,
        ensures
            final(self).wf(),
            final(self)@ == se_byte_spec(old(self)@, instruction),
            final(self).pc == old(self).pc + if vx(old(self)@, instruction) == nn_of(instruction) { 4int } else { 2int },
    {
        let x = field_x(instruction) as usize;
        let c = self.reg_v[x] == field_nn(instruction);
        self.skip_when(c);
    }

    /// 4xnn: skip the next instruction if `Vx != nn`.
    pub fn sne_4(&mut self, instruction: u16)
        requires
            old(self).wf(),
            old(self).pc <= 0xFFE,
        ensures
            final(self).wf(),
            final(self)@ == sne_byte_spec(old(self)@, instruction),
            final(self).pc == old(self).pc + if vx(old(self)@, instruction) != nn_of(instruction) { 4int } else { 2int },
    {
        let x = field_x(instruction) as usize;
        let c = self.reg_v[x] != field_nn(instruction);
        self.skip_when(c);
    }

    /// 5xy_: skip the next instruction if `Vx == Vy`.
    pub fn se_5(&mut self, instruction: u16)
        requires
            old(self).wf(),
            old(self).pc <= 0xFFE,
        ensures
            final(self).wf(),
            final(self)@ == se_reg_spec(old(self)@, instruction),
            final(self).pc == old(self).pc + if vx(old(self)@, instruction) == vy(old(self)@, instruction) { 4int } else { 2int },
    {
        let x = field_x(instruction) as usize;
        let y = field_y(instruction) as usize;
        let c = self.reg_v[x] == self.reg_v[y];
        self.skip_when(c);
    }

    /// 9xy_: skip the next instruction if `Vx != Vy`.
    pub fn sne_9(&mut self, instruction: u16)
        requires
            old(self).wf(),
            old(self).pc <= 0xFFE,
        ensures
            final(self).wf(),
            final(self)@ == sne_reg_spec(old(self)@, instruction),
            final(self).pc == old(self).pc + if vx(old(self)@, instruction) != vy(old(self)@, instruction) { 4int } else { 2int },
    {
        let x = field_x(instruction) as usize;
        let y = field_y(instruction) as usize;
        let c = self.reg_v[x] != self.reg_v[y];
        self.skip_when(c);
    }

    /// 6xnn: `Vx := nn`.
    pub fn ld_6(&mut self, instruction: u16)
        requires
            old(self).wf(),
            old(self).pc <= 0xFFE,
        ensures
            final(self).wf(),
            final(self)@ == ld_byte_spec(old(self)@, instruction),
    {
        let x = field_x(instruction) as usize;
        self.set_reg(x, field_nn(instruction));
        self.inc_pc();
    }

    /// 7xnn: `Vx := (Vx + nn) mod 256`; VF untouched.
    pub fn add_7(&mut self, instruction: u16)
        requires
            old(self).wf(),
            old(self).pc <= 0xFFE,
        ensures
            final(self).wf(),
            final(self)@ == add_byte_spec(old(self)@, instruction),
    {
        let x = field_x(instruction) as usize;
        let s: u16 = self.reg_v[x] as u16 + field_nn(instruction) as u16;
        self.set_reg(x, (s % 256) as u8);
        self.inc_pc();
    }

    /// 8xy0: `Vx := Vy`.
    pub fn ld_8(&mut self, instruction: u16)
        requires
            old(self).wf(),
            old(self).pc <= 0xFFE,
        ensures
            final(self).wf(),
            final(self)@ == ld_reg_spec(old(self)@, instruction),
    {
        let x = field_x(instruction) as usize;
        let y = field_y(instruction) as usize;
        let b = self.reg_v[y];
        self.set_reg(x, b);
        self.inc_pc();
    }

    /// 8xy1: `Vx := Vx | Vy`.
    pub fn or_8(&mut self, instruction: u16)
        requires
            old(self).wf(),
            old(self).pc <= 0xFFE,
        ensures
            final(self).wf(),
            final(self)@ == or_spec(old(self)@, instruction),
    {
        let x = field_x(instruction) as usize;
        let y = field_y(instruction) as usize;
        let b = self.reg_v[x] | self.reg_v[y];
        self.set_reg(x, b);
        self.inc_pc();
    }

    /// 8xy2: `Vx := Vx & Vy`.
    pub fn and_8(&mut self, instruction: u16)
        requires
            old(self).wf(),
            old(self).pc <= 0xFFE,
        ensures
            final(self).wf(),
            final(self)@ == and_spec(old(self)@, instruction),
    {
        let x = field_x(instruction) as usize;
        let y = field_y(instruction) as usize;
        let b = self.reg_v[x] & self.reg_v[y];
        self.set_reg(x, b);
        self.inc_pc();
    }

    /// 8xy3: `Vx := Vx ^ Vy`.
    pub fn xor_8(&mut self, instruction: u16)
        requires
            old(self).wf(),
            old(self).pc <= 0xFFE,
        ensures
            final(self).wf(),
            final(self)@ == xor_spec(old(self)@, instruction),
    {
        let x = field_x(instruction) as usize;
        let y = field_y(instruction) as usize;
        let b = self.reg_v[x] ^ self.reg_v[y];
        self.set_reg(x, b);
        self.inc_pc();
    }

    /// 8xy4: `Vx := (Vx + Vy) mod 256`, VF := 1 on carry, else 0.
    pub fn add_8(&mut self, instruction: u16)
        requires
            old(self).wf(),
            old(self).pc <= 0xFFE,
        ensures
            final(self).wf(),
            final(self)@ == add_reg_spec(old(self)@, instruction),
            ({
                let a = vx(old(self)@, instruction) as int;
                let b = vy(old(self)@, instruction) as int;
                &&& final(self).reg_v@[15] == (if a + b > 255 { 1u8 } else { 0u8 })
                &&& x_of(instruction) != 15 ==> final(self).reg_v@[x_of(instruction) as int] == (a + b) % 256
            }),
    {
        let x = field_x(instruction) as usize;
        let y = field_y(instruction) as usize;
        let s: u16 = self.reg_v[x] as u16 + self.reg_v[y] as u16;
        self.set_reg(x, (s % 256) as u8);
        self.set_reg(15, if s > 255 { 1 } else { 0 });
        self.inc_pc();
    }

    /// 8xy5: `Vx := (Vx - Vy) mod 256`, VF := 1 when `Vx >= Vy`, else 0.
    pub fn sub_8(&mut self, instruction: u16)
        requires
            old(self).wf(),
            old(self).pc <= 0xFFE,
        ensures
            final(self).wf(),
            final(self)@ == sub_spec(old(self)@, instruction),
            ({
                let a = vx(old(self)@, instruction) as int;
                let b = vy(old(self)@, instruction) as int;
                &&& final(self).reg_v@[15] == (if a >= b { 1u8 } else { 0u8 })
                &&& x_of(instruction) != 15 ==> final(self).reg_v@[x_of(instruction) as int] == (a - b) % 256
            }),
    {
        let x = field_x(instruction) as usize;
        let y = field_y(instruction) as usize;
        let a = self.reg_v[x];
        let b = self.reg_v[y];
        let d: u8 = if a >= b { a - b } else { (256 - (b - a) as u16) as u8 };
        self.set_reg(x, d);
        self.set_reg(15, if a >= b { 1 } else { 0 });
        self.inc_pc();
    }

    /// 8xy7: `Vx := (Vy - Vx) mod 256`, VF := 1 when `Vy >= Vx`, else 0.
    pub fn subn_8(&mut self, instruction: u16)
        requires
            old(self).wf(),
            old(self).pc <= 0xFFE,
        ensures
            final(self).wf(),
            final(self)@ == subn_spec(old(self)@, instruction),
            ({
                let a = vx(old(self)@, instruction) as int;
                let b = vy(old(self)@, instruction) as int;
                &&& final(self).reg_v@[15] == (if b >= a { 1u8 } else { 0u8 })
                &&& x_of(instruction) != 15 ==> final(self).reg_v@[x_of(instruction) as int] == (b - a) % 256
            }),
    {
        let x = field_x(instruction) as usize;
        let y = field_y(instruction) as usize;
        let a = self.reg_v[x];
        let b = self.reg_v[y];
        let d: u8 = if b >= a { b - a } else { (256 - (a - b) as u16) as u8 };
        self.set_reg(x, d);
        self.set_reg(15, if b >= a { 1 } else { 0 });
        self.inc_pc();
    }

    /// 8xy6: `Vx := Vx >> 1`, VF := the bit shifted out.
    pub fn shr_8(&mut self, instruction: u16)
        requires
            old(self).wf(),
            old(self).pc <= 0xFFE,
        ensures
            final(self).wf(),
            final(self)@ == shr_spec(old(self)@, instruction),
            final(self).reg_v@[15] == vx(old(self)@, instruction) & 1,
    {
        let x = field_x(instruction) as usize;
        let a = self.reg_v[x];
        proof {
            assert(a & 1 == a % 2) by (bit_vector);
        }
        self.set_reg(x, a / 2);
        self.set_reg(15, a % 2);
        self.inc_pc();
    }

    /// 8xyE: `Vx := (Vx << 1) mod 256`, VF := the bit shifted out.
    pub fn shl_8(&mut self, instruction: u16)
        requires
            old(self).wf(),
            old(self).pc <= 0xFFE,
        ensures
            final(self).wf(),
            final(self)@ == shl_spec(old(self)@, instruction),
            final(self).reg_v@[15] == vx(old(self)@, instruction) >> 7,
    {
        let x = field_x(instruction) as usize;
        let a = self.reg_v[x];
        proof {
            assert(a >> 7 == (if a >= 128 { 1u8 } else { 0u8 })) by (bit_vector);
        }
        self.set_reg(x, ((a as u16 * 2) % 256) as u8);
        self.set_reg(15, if a >= 128 { 1 } else { 0 });
        self.inc_pc();
    }

    /// Annn: `I := nnn`.
    pub fn ld_a(&mut self, instruction: u16)
        requires
            old(self).wf(),
            old(self).pc <= 0xFFE,
        ensures
            final(self).wf(),
            final(self)@ == ld_i_spec(old(self)@, instruction),
    {
        self.reg_i = field_nnn(instruction);
        self.inc_pc();
    }

    /// Bnnn: jump to `nnn + V0`; past 0xFFF it faults.
    pub fn jp_b(&mut self, instruction: u16) -> (r: Result<(), Fault>)
        requires
            old(self).wf(),
        ensures
            final(self).wf(),
            outcome(old(self)@, final(self)@, r, jp_v0_spec(old(self)@, instruction)),
    {
        let t: u16 = field_nnn(instruction) + self.reg_v[0] as u16;
        if t > 0xFFF {
            return Err(Fault::OutOfBounds { addr: t });
        }
        self.pc = t;
        Ok(())
    }

    /// Cxnn: `Vx := rnd & nn`, for the random byte `rnd`.
    pub fn rnd_c(&mut self, instruction: u16, rnd: u8)
        requires
            old(self).wf(),
            old(self).pc <= 0xFFE,
        ensures
            final(self).wf(),
            final(self)@ == rnd_spec(old(self)@, instruction, rnd),
    {
        let x = field_x(instruction) as usize;
        self.set_reg(x, rnd & field_nn(instruction));
        self.inc_pc();
    }

    /// Dxyn: XOR the `n`-byte sprite at `I` onto the display at `(Vx, Vy)`,
    /// wrapping at the edges; VF := 1 iff a lit cell went off.
    pub fn drw_d(&mut self, instruction: u16) -> (r: Result<(), Fault>)
        requires
            old(self).wf(),
            old(self).pc <= 0xFFE,
        ensures
            final(self).wf(),
            outcome(old(self)@, final(self)@, r, drw_spec(old(self)@, instruction)),
    {
        let x = field_x(instruction) as usize;
        let y = field_y(instruction) as usize;
        let n = field_n(instruction) as usize;
        let base = (self.reg_i % 0x1000) as usize;
        if base + n > MEM_SIZE {
            return Err(Fault::OutOfBounds { addr: (base + n - 1) as u16 });
        }
        let px = self.reg_v[x] as usize;
        let py = self.reg_v[y] as usize;
        let ghost m0 = self@;
        let mut hit = false;
        let mut c: usize = 0;
        while c < CELLS
            invariant
                c <= CELLS,
                m0.wf(),
                base == addr_i(m0),
                base + n <= MEM_SIZE,
                n == n_of(instruction),
                px == vx(m0, instruction),
                py == vy(m0, instruction),
                self@ == (Machine { display: self@.display, ..m0 }),
                self.display@.len() == CELLS,
                forall|k: int| 0 <= k < c ==> #[trigger] self.display@[k] == (m0.display[k] != covered(m0, instruction, k)),
                forall|k: int| c <= k < CELLS ==> #[trigger] self.display@[k] == m0.display[k],
                hit == (exists|k: int| 0 <= k < c && #[trigger] m0.display[k] && covered(m0, instruction, k)),
            decreases CELLS - c,
        {
            let row = (c / 64 + 32 - py % 32) % 32;
            let col = (c % 64 + 64 - px % 64) % 64;
            proof {
                assert(row == (c as int / 64 - py) % 32);
                assert(col == (c as int % 64 - px) % 64);
            }
            let cov = row < n && col < 8 && (self.ram[base + row] >> ((7 - col) as u8)) & 1u8 == 1u8;
            assert(cov == covered(m0, instruction, c as int));
            let lit = self.display[c];
            if cov {
                self.display.set(c, !lit);
            }
            if lit && cov {
                hit = true;
            }
            c += 1;
        }
        assert(self.display@ =~= drawn(m0, instruction));
        self.set_reg(15, if hit { 1 } else { 0 });
        self.inc_pc();
        assert(self@ =~= advance(Machine {
            display: drawn(m0, instruction),
            v: m0.v.update(15, if collides(m0, instruction) { 1u8 } else { 0u8 }),
            ..m0
        }));
        Ok(())
    }

    /// Ex9E: skip the next instruction if key `Vx & 0xF` is down.
    pub fn skp_e(&mut self, instruction: u16)
        requires
            old(self).wf(),
            old(self).pc <= 0xFFE,
        ensures
            final(self).wf(),
            final(self)@ == skp_spec(old(self)@, instruction),
            final(self).pc == old(self).pc + if old(self).keys@[key_of(old(self)@, instruction)] { 4int } else { 2int },
    {
        let x = field_x(instruction) as usize;
        let k = (self.reg_v[x] % 16) as usize;
        let c = self.keys[k];
        self.skip_when(c);
    }

    /// ExA1: skip the next instruction if key `Vx & 0xF` is up.
    pub fn sknp_e(&mut self, instruction: u16)
        requires
            old(self).wf(),
            old(self).pc <= 0xFFE,
        ensures
            final(self).wf(),
            final(self)@ == sknp_spec(old(self)@, instruction),
            final(self).pc == old(self).pc + if !old(self).keys@[key_of(old(self)@, instruction)] { 4int } else { 2int },
    {
        let x = field_x(instruction) as usize;
        let k = (self.reg_v[x] % 16) as usize;
        let c = !self.keys[k];
        self.skip_when(c);
    }

    /// Fx07: `Vx := delay timer`.
    pub fn ld_dt(&mut self, instruction: u16)
        requires
            old(self).wf(),
            old(self).pc <= 0xFFE,
        ensures
            final(self).wf(),
            final(self)@ == ld_vx_dt_spec(old(self)@, instruction),
    {
        let x = field_x(instruction) as usize;
        let d = self.timers.delay;
        self.set_reg(x, d);
        self.inc_pc();
    }

    /// Fx0A: start waiting for a key press; PC stays here until one comes.
    pub fn ld_k(&mut self, instruction: u16)
        requires
            old(self).wf(),
        ensures
            final(self).wf(),
            final(self)@ == ld_vx_k_spec(old(self)@, instruction),
    {
        self.mode = RunState::AwaitingKey(field_x(instruction));
    }

    /// Fx15: `delay timer := Vx`.
    pub fn ld_dt_v(&mut self, instruction: u16)
        requires
            old(self).wf(),
            old(self).pc <= 0xFFE,
        ensures
            final(self).wf(),
            final(self)@ == ld_dt_vx_spec(old(self)@, instruction),
    {
        let x = field_x(instruction) as usize;
        self.timers.delay = self.reg_v[x];
        self.inc_pc();
    }

    /// Fx18: `sound timer := Vx`.
    pub fn ld_st_v(&mut self, instruction: u16)
        requires
            old(self).wf(),
            old(self).pc <= 0xFFE,
        ensures
            final(self).wf(),
            final(self)@ == ld_st_vx_spec(old(self)@, instruction),
    {
        let x = field_x(instruction) as usize;
        self.timers.sound = self.reg_v[x];
        self.inc_pc();
    }

    /// Fx1E: `I := (I + Vx) mod 0x1000`.
    pub fn ld_i(&mut self, instruction: u16)
        requires
            old(self).wf(),
            old(self).pc <= 0xFFE,
        ensures
            final(self).wf(),
            final(self)@ == add_i_spec(old(self)@, instruction),
    {
        let x = field_x(instruction) as usize;
        self.reg_i = ((self.reg_i as u32 + self.reg_v[x] as u32) % 0x1000) as u16;
        self.inc_pc();
    }

    /// Fx29: `I :=` the address of the glyph of digit `Vx & 0xF`.
    pub fn ld_f(&mut self, instruction: u16)
        requires
            old(self).wf(),
            old(self).pc <= 0xFFE,
        ensures
            final(self).wf(),
            final(self)@ == ld_f_spec(old(self)@, instruction),
    {
        let x = field_x(instruction) as usize;
        self.reg_i = (self.reg_v[x] % 16) as u16 * 5;
        self.inc_pc();
    }

    /// Fx33: the decimal digits of `Vx` at `I`, `I+1`, `I+2`.
    pub fn ld_b(&mut self, instruction: u16) -> (r: Result<(), Fault>)
        requires
            old(self).wf(),
            old(self).pc <= 0xFFE,
        ensures
            final(self).wf(),
            outcome(old(self)@, final(self)@, r, ld_b_spec(old(self)@, instruction)),
    {
        let x = field_x(instruction) as usize;
        let a = (self.reg_i % 0x1000) as usize;
        if a + 3 > MEM_SIZE {
            return Err(Fault::OutOfBounds { addr: (a + 2) as u16 });
        }
        let b = self.reg_v[x];
        self.ram.set(a, b / 100);
        self.ram.set(a + 1, (b / 10) % 10);
        self.ram.set(a + 2, b % 10);
        self.inc_pc();
        Ok(())
    }

    /// Fx55: `V0..=Vx` to memory from `I` on.
    pub fn ld_arr_x(&mut self, instruction: u16) -> (r: Result<(), Fault>)
        requires
            old(self).wf(),
            old(self).pc <= 0xFFE,
        ensures
            final(self).wf(),
            outcome(old(self)@, final(self)@, r, store_regs_spec(old(self)@, instruction)),
    {
        let x = field_x(instruction) as usize;
        let a = (self.reg_i % 0x1000) as usize;
        if a + x + 1 > MEM_SIZE {
            return Err(Fault::OutOfBounds { addr: (a + x) as u16 });
        }
        let ghost m0 = self@;
        let mut k: usize = 0;
        while k <= x
            invariant
                x < 16,
                a + x + 1 <= MEM_SIZE,
                a == addr_i(m0),
                k <= x + 1,
                m0.wf(),
                self@ == (Machine { ram: self@.ram, ..m0 }),
                self.ram@.len() == MEM_SIZE,
                forall|p: int| 0 <= p < MEM_SIZE ==> #[trigger] self.ram@[p] ==
                    if a <= p < a + k { m0.v[p - a] } else { m0.ram[p] },
            decreases x + 1 - k,
        {
            let b = self.reg_v[k];
            self.ram.set(a + k, b);
            k += 1;
        }
        self.inc_pc();
        assert(self@ =~= advance(Machine {
            ram: Seq::new(MEM_SIZE as nat, |p: int| if a <= p <= a + x { m0.v[p - a] } else { m0.ram[p] }),
            ..m0
        }));
        Ok(())
    }

    /// Fx65: `V0..=Vx` from memory from `I` on.
    pub fn ld_x_arr(&mut self, instruction: u16) -> (r: Result<(), Fault>)
        requires
            old(self).wf(),
            old(self).pc <= 0xFFE,
        ensures
            final(self).wf(),
            outcome(old(self)@, final(self)@, r, load_regs_spec(old(self)@, instruction)),
    {
        let x = field_x(instruction) as usize;
        let a = (self.reg_i % 0x1000) as usize;
        if a + x + 1 > MEM_SIZE {
            return Err(Fault::OutOfBounds { addr: (a + x) as u16 });
        }
        let ghost m0 = self@;
        let mut k: usize = 0;
        while k <= x
            invariant
                x < 16,
                a + x + 1 <= MEM_SIZE,
                a == addr_i(m0),
                k <= x + 1,
                m0.wf(),
                self@ == (Machine { v: self@.v, ..m0 }),
                self.reg_v@.len() == 16,
                forall|j: int| 0 <= j < 16 ==> #[trigger] self.reg_v@[j] ==
                    if j < k { m0.ram[a + j] } else { m0.v[j] },
            decreases x + 1 - k,
        {
            let b = self.ram[a + k];
            self.reg_v.set(k, b);
            k += 1;
        }
        self.inc_pc();
        assert(self@ =~= advance(Machine {
            v: Seq::new(16, |j: int| if j <= x { m0.ram[a + j] } else { m0.v[j] }),
            ..m0
        }));
        Ok(())
    }

    /// 0nnn: a machine-code routine, which this interpreter skips.
    pub fn ignore(&mut self)
        requires
            old(self).wf(),
            old(self).pc <= 0xFFE,
        ensures
            final(self).wf(),
            final(self)@ == advance(old(self)@),
    {
        self.inc_pc();
    }

    /// A word that names no operation: skipped, without a fault.
    pub fn unknown(&mut self)
        requires
            old(self).wf(),
            old(self).pc <= 0xFFE,
        ensures
            final(self).wf(),
            final(self)@ == advance(old(self)@),
    {
        self.inc_pc();
    }

    /// Executes the operation `op` decoded from `instruction`, with `rnd` as
    /// the random byte.
    fn execute(&mut self, op: Op, instruction: u16, rnd: u8) -> (r: Result<(), Fault>)
        requires
            old(self).wf(),
            old(self).pc <= 0xFFE,
            op == decode_spec(instruction),
        ensures
            final(self).wf(),
            outcome(old(self)@, final(self)@, r, exec_spec(old(self)@, instruction, rnd)),
    {
        match op {
            Op::Cls => { self.cls_0(); Ok(()) },
            Op::Ret => self.ret_0(),
            Op::Sys { .. } => { self.ignore(); Ok(()) },
            Op::Jp { .. } => { self.jp_1(instruction); Ok(()) },
            Op::Call { .. } => self.call_2(instruction),
            Op::SeByte { .. } => { self.se_3(instruction); Ok(()) },
            Op::SneByte { .. } => { self.sne_4(instruction); Ok(()) },
            Op::SeReg { .. } => { self.se_5(instruction); Ok(()) },
            Op::LdByte { .. } => { self.ld_6(instruction); Ok(()) },
            Op::AddByte { .. } => { self.add_7(instruction); Ok(()) },
            Op::LdReg { .. } => { self.ld_8(instruction); Ok(()) },
            Op::Or { .. } => { self.or_8(instruction); Ok(()) },
            Op::And { .. } => { self.and_8(instruction); Ok(()) },
            Op::Xor { .. } => { self.xor_8(instruction); Ok(()) },
            Op::AddReg { .. } => { self.add_8(instruction); Ok(()) },
            Op::Sub { .. } => { self.sub_8(instruction); Ok(()) },
            Op::Shr { .. } => { self.shr_8(instruction); Ok(()) },
            Op::Subn { .. } => { self.subn_8(instruction); Ok(()) },
            Op::Shl { .. } => { self.shl_8(instruction); Ok(()) },
            Op::SneReg { .. } => { self.sne_9(instruction); Ok(()) },
            Op::LdI { .. } => { self.ld_a(instruction); Ok(()) },
            Op::JpV0 { .. } => self.jp_b(instruction),
            Op::Rnd { .. } => { self.rnd_c(instruction, rnd); Ok(()) },
            Op::Drw { .. } => self.drw_d(instruction),
            Op::Skp { .. } => { self.skp_e(instruction); Ok(()) },
            Op::Sknp { .. } => { self.sknp_e(instruction); Ok(()) },
            Op::LdVxDt { .. } => { self.ld_dt(instruction); Ok(()) },
            Op::LdVxK { .. } => { self.ld_k(instruction); Ok(()) },
            Op::LdDtVx { .. } => { self.ld_dt_v(instruction); Ok(()) },
            Op::LdStVx { .. } => { self.ld_st_v(instruction); Ok(()) },
            Op::AddI { .. } => { self.ld_i(instruction); Ok(()) },
            Op::LdF { .. } => { self.ld_f(instruction); Ok(()) },
            Op::LdB { .. } => self.ld_b(instruction),
            Op::StoreRegs { .. } => self.ld_arr_x(instruction),
            Op::LoadRegs { .. } => self.ld_x_arr(instruction),
            Op::Unknown { .. } => { self.unknown(); Ok(()) },
        }
    }

    /// One cycle of the key wait for register `x`: on a key-down edge the
    /// lowest such key's index goes to `Vx` and the machine runs again.
    fn await_key(&mut self, x: u8)
        requires
            old(self).wf(),
            old(self).pc <= 0xFFE,
            x < 16,
        ensures
            final(self).wf(),
            final(self)@ == key_wait_spec(old(self)@, x),
    {
        let ghost m0 = self@;
        let mut k: usize = 0;
        while k < NKEYS
            invariant
                self.wf(),
                self@ == m0,
                k <= NKEYS,
                first_press(self.keys@, self.prev_keys@, 0) == first_press(self.keys@, self.prev_keys@, k as int),
            ensures
                self@ == m0,
                k <= NKEYS,
                first_press(m0.keys, m0.prev_keys, 0) == first_press(m0.keys, m0.prev_keys, k as int),
                k < NKEYS ==> m0.keys[k as int] && !m0.prev_keys[k as int],
            decreases NKEYS - k,
        {
            if self.keys[k] && !self.prev_keys[k] {
                break;
            }
            k += 1;
        }
        assert(first_press(m0.keys, m0.prev_keys, k as int) == k as int);
        if k < NKEYS {
            self.set_reg(x as usize, k as u8);
            self.pc = self.pc + 2;
            self.mode = RunState::Running;
        }
    }

    /// The latch of this cycle becomes the previous latch.
    fn latch(&mut self)
        requires
            old(self).wf(),
        ensures
            final(self).wf(),
            final(self)@ == latch_keys(old(self)@),
    {
        let mut k: usize = 0;
        let ghost m0 = self@;
        while k < NKEYS
            invariant
                k <= NKEYS,
                m0.wf(),
                self@ == (Machine { prev_keys: self@.prev_keys, ..m0 }),
                self.prev_keys@.len() == NKEYS,
                forall|j: int| 0 <= j < k ==> #[trigger] self.prev_keys@[j] == m0.keys[j],
            decreases NKEYS - k,
        {
            let b = self.keys[k];
            self.prev_keys.set(k, b);
            k += 1;
        }
        assert(self@ =~= latch_keys(m0));
    }

    /// One machine cycle, with `rnd` as the byte a RND instruction would
    /// use. Running, it fetches, decodes and executes the word at PC and
    /// returns the operation; waiting for a key, it checks the latch for a
    /// key-down edge and returns `None`. Either way the latch is then kept
    /// as the previous one. A fault leaves the state as it was.
    pub fn step(&mut self, rnd: u8) -> (r: Result<Option<Op>, Fault>)
        requires
            old(self).wf(),
        ensures
            final(self).wf(),
            outcome(old(self)@, final(self)@, r, step_spec(old(self)@, rnd)),
            r is Ok ==> r->Ok_0 == (match old(self).mode {
                RunState::Running => Some(decode_spec(fetch_spec(old(self)@))),
                RunState::AwaitingKey(_) => None,
            }),
    {
        if self.pc > 0xFFE {
            return Err(Fault::OutOfBounds { addr: self.pc });
        }
        match self.mode {
            RunState::AwaitingKey(x) => {
                self.await_key(x);
                self.latch();
                Ok(None)
            },
            RunState::Running => {
                let w = self.fetch();
                let op = decode(w);
                match self.execute(op, w, rnd) {
                    Ok(()) => {
                        self.latch();
                        Ok(Some(op))
                    },
                    Err(e) => Err(e),
                }
            },
        }
    }

    /// One machine cycle, drawing the random byte from the generator.
    pub fn cycle(&mut self) -> (r: Result<Option<Op>, Fault>)
        requires
            old(self).wf(),
        ensures
            final(self).wf(),
            exists|b: u8| outcome(old(self)@, final(self)@, r, #[trigger] step_spec(old(self)@, b)),
    {
        let b = random_byte();
        self.step(b)
    }

    /// The host writes the 16 key states before a cycle.
    pub fn set_keys(&mut self, keys: &Vec<bool>)
        requires
            old(self).wf(),
            keys.len() == NKEYS,
        ensures
            final(self).wf(),
            final(self)@ == (Machine { keys: keys@, ..old(self)@ }),
    {
        let mut k: usize = 0;
        let ghost m0 = self@;
        while k < NKEYS
            invariant
                k <= NKEYS,
                keys.len() == NKEYS,
                m0.wf(),
                self@ == (Machine { keys: self@.keys, ..m0 }),
                self.keys@.len() == NKEYS,
                forall|j: int| 0 <= j < k ==> #[trigger] self.keys@[j] == keys@[j],
            decreases NKEYS - k,
        {
            self.keys.set(k, keys[k]);
            k += 1;
        }
        assert(self@ =~= (Machine { keys: keys@, ..m0 }));
    }

    /// Lets `elapsed_us` microseconds of wall time pass for the timers,
    /// however many instructions ran meanwhile.
    pub fn tick_timers(&mut self, elapsed_us: u64)
        requires
            old(self).wf(),
        ensures
            final(self).wf(),
            final(self)@ == (Machine { timers: tick_spec(old(self).timers, elapsed_us), ..old(self)@ }),
    {
        self.timers.tick(elapsed_us);
    }

    /// Whether the display cell at column `x`, row `y` is lit.
    pub fn pixel(&self, x: usize, y: usize) -> (r: bool)
        requires
            self.wf(),
            x < 64,
            y < 32,
        ensures
            r == self@.display[y * 64 + x],
    {
        self.display[y * 64 + x]
    }

    /// The delay timer's value.
    pub fn delay_timer(&self) -> (r: u8)
        ensures
            r == self.timers.delay,
    {
        self.timers.delay
    }

    /// The sound timer's value.
    pub fn sound_timer(&self) -> (r: u8)
        ensures
            r == self.timers.sound,
    {
        self.timers.sound
    }

    /// Whether the host should sound a tone now.
    pub fn sound_on(&self) -> (r: bool)
        ensures
            r == (self.timers.sound > 0),
    {
        self.timers.sounding()
    }
}

} // verus!
