//! The mathematical model of the machine state, and the meaning of every
//! operation as a function on that model.
use vstd::prelude::*;
use crate::decode::{decode_spec, n_of, nn_of, nnn_of, x_of, y_of, Op};
use crate::timers::Timers;

verus! {

/// Bytes of addressable memory.
pub const MEM_SIZE: usize = 0x1000;
/// Where a loaded program starts.
pub const PROGRAM_START: usize = 0x200;
/// Display width in pixels.
pub const WIDTH: usize = 64;
/// Display height in pixels.
pub const HEIGHT: usize = 32;
/// Display cells, row-major.
pub const CELLS: usize = 2048;
/// Entries of the return-address stack.
pub const STACK_DEPTH: u8 = 16;
/// Number of keys of the keypad, and of general registers.
pub const NKEYS: usize = 16;

/// A fatal condition; it stops the machine and leaves its state unchanged.
#[derive(PartialEq, Eq, Structural, Clone, Copy, Debug)]
pub enum Fault {
    /// CALL with all 16 stack entries in use, at the CALL's address.
    StackOverflow { addr: u16 },
    /// RET with an empty stack, at the RET's address.
    StackUnderflow { addr: u16 },
    /// A program counter or memory address past 0xFFF.
    OutOfBounds { addr: u16 },
    /// A program longer than the program region.
    CapacityExceeded { len: usize },
}

/// Whether the machine runs instructions or waits for a key press.
#[derive(PartialEq, Eq, Structural, Clone, Copy, Debug)]
pub enum RunState {
    Running,
    /// Waiting for a key to go down; its index goes to register `Vx`.
    AwaitingKey(u8),
}

/// The whole machine state as mathematical values.
#[verifier::ext_equal]
pub struct Machine {
    pub ram: Seq<u8>,
    pub v: Seq<u8>,
    pub stack: Seq<u16>,
    pub i: u16,
    pub pc: u16,
    pub sp: u8,
    pub display: Seq<bool>,
    pub keys: Seq<bool>,
    pub prev_keys: Seq<bool>,
    pub mode: RunState,
    pub timers: Timers,
}

impl Machine {
    pub open spec fn wf(self) -> bool {
        &&& self.ram.len() == MEM_SIZE
        &&& self.v.len() == 16
        &&& self.stack.len() == STACK_DEPTH
        &&& self.sp <= STACK_DEPTH
        &&& self.display.len() == CELLS
        &&& self.keys.len() == NKEYS
        &&& self.prev_keys.len() == NKEYS
        &&& self.timers.wf()
        &&& match self.mode {
            RunState::Running => true,
            RunState::AwaitingKey(x) => x < 16,
        }
    }
}

/// The 16 hex-digit glyphs, five rows of four pixels each.
pub open spec fn font_spec() -> Seq<u8> {
    seq![
        0xF0u8, 0x90, 0x90, 0x90, 0xF0, 0x20, 0x60, 0x20, 0x20, 0x70,
        0xF0, 0x10, 0xF0, 0x80, 0xF0, 0xF0, 0x10, 0xF0, 0x10, 0xF0,
        0x90, 0x90, 0xF0, 0x10, 0x10, 0xF0, 0x80, 0xF0, 0x10, 0xF0,
        0xF0, 0x80, 0xF0, 0x90, 0xF0, 0xF0, 0x10, 0x20, 0x40, 0x40,
        0xF0, 0x90, 0xF0, 0x90, 0xF0, 0xF0, 0x90, 0xF0, 0x10, 0xF0,
        0xF0, 0x90, 0xF0, 0x90, 0x90, 0xE0, 0x90, 0xE0, 0x90, 0xE0,
        0xF0, 0x80, 0x80, 0x80, 0xF0, 0xE0, 0x90, 0x90, 0x90, 0xE0,
        0xF0, 0x80, 0xF0, 0x80, 0xF0, 0xF0, 0x80, 0xF0, 0x80, 0x80,
    ]
}

/// A freshly built machine: font in low memory, everything else zero,
/// PC at the program start.
pub open spec fn initial() -> Machine {
    Machine {
        ram: Seq::new(MEM_SIZE as nat, |a: int| if a < 80 { font_spec()[a] } else { 0u8 }),
        v: Seq::new(16, |k: int| 0u8),
        stack: Seq::new(16, |k: int| 0u16),
        i: 0,
        pc: PROGRAM_START as u16,
        sp: 0,
        display: Seq::new(CELLS as nat, |c: int| false),
        keys: Seq::new(16, |k: int| false),
        prev_keys: Seq::new(16, |k: int| false),
        mode: RunState::Running,
        timers: Timers { delay: 0, sound: 0, acc: 0 },
    }
}

/// The instruction word at PC, big-endian.
pub open spec fn fetch_spec(m: Machine) -> u16 {
    (m.ram[m.pc as int] * 256 + m.ram[m.pc + 1]) as u16
}

/// The generic advance past one instruction.
pub open spec fn advance(m: Machine) -> Machine {
    Machine { pc: (m.pc + 2) as u16, ..m }
}

/// Advance past one instruction, and past the next one too when `cond` holds.
pub open spec fn skip_if(m: Machine, cond: bool) -> Machine {
    Machine { pc: (m.pc + if cond { 4int } else { 2int }) as u16, ..m }
}

pub open spec fn set_v(m: Machine, x: int, val: u8) -> Machine {
    Machine { v: m.v.update(x, val), ..m }
}

/// Set `Vx`, then the flag register VF, then advance.
pub open spec fn set_v_flag(m: Machine, x: int, val: u8, flag: bool) -> Machine {
    advance(set_v(set_v(m, x, val), 15, if flag { 1u8 } else { 0u8 }))
}

pub open spec fn vx(m: Machine, w: u16) -> u8 {
    m.v[x_of(w) as int]
}

pub open spec fn vy(m: Machine, w: u16) -> u8 {
    m.v[y_of(w) as int]
}

/// The index register as a 12-bit address.
pub open spec fn addr_i(m: Machine) -> int {
    m.i as int % 0x1000
}

pub open spec fn cls_spec(m: Machine) -> Machine {
    advance(Machine { display: Seq::new(CELLS as nat, |c: int| false), ..m })
}

pub open spec fn ret_spec(m: Machine) -> Result<Machine, Fault> {
    if m.sp == 0 {
        Err(Fault::StackUnderflow { addr: m.pc })
    } else {
        Ok(Machine { pc: m.stack[m.sp - 1], sp: (m.sp - 1) as u8, ..m })
    }
}

pub open spec fn jp_spec(m: Machine, w: u16) -> Machine {
    Machine { pc: nnn_of(w), ..m }
}

/// Pushes the address of the next instruction and jumps.
pub open spec fn call_spec(m: Machine, w: u16) -> Result<Machine, Fault> {
    if m.sp >= STACK_DEPTH {
        Err(Fault::StackOverflow { addr: m.pc })
    } else {
        Ok(Machine {
            stack: m.stack.update(m.sp as int, (m.pc + 2) as u16),
            sp: (m.sp + 1) as u8,
            pc: nnn_of(w),
            ..m
        })
    }
}

pub open spec fn se_byte_spec(m: Machine, w: u16) -> Machine {
    skip_if(m, vx(m, w) == nn_of(w))
}

pub open spec fn sne_byte_spec(m: Machine, w: u16) -> Machine {
    skip_if(m, vx(m, w) != nn_of(w))
}

pub open spec fn se_reg_spec(m: Machine, w: u16) -> Machine {
    skip_if(m, vx(m, w) == vy(m, w))
}

pub open spec fn sne_reg_spec(m: Machine, w: u16) -> Machine {
    skip_if(m, vx(m, w) != vy(m, w))
}

pub open spec fn ld_byte_spec(m: Machine, w: u16) -> Machine {
    advance(set_v(m, x_of(w) as int, nn_of(w)))
}

pub open spec fn add_byte_spec(m: Machine, w: u16) -> Machine {
    advance(set_v(m, x_of(w) as int, ((vx(m, w) + nn_of(w)) % 256) as u8))
}

pub open spec fn ld_reg_spec(m: Machine, w: u16) -> Machine {
    advance(set_v(m, x_of(w) as int, vy(m, w)))
}

pub open spec fn or_spec(m: Machine, w: u16) -> Machine {
    advance(set_v(m, x_of(w) as int, vx(m, w) | vy(m, w)))
}

pub open spec fn and_spec(m: Machine, w: u16) -> Machine {
    advance(set_v(m, x_of(w) as int, vx(m, w) & vy(m, w)))
}

pub open spec fn xor_spec(m: Machine, w: u16) -> Machine {
    advance(set_v(m, x_of(w) as int, vx(m, w) ^ vy(m, w)))
}

/// `Vx := (Vx + Vy) mod 256`, VF := carry.
pub open spec fn add_reg_spec(m: Machine, w: u16) -> Machine {
    let s = vx(m, w) + vy(m, w);
    set_v_flag(m, x_of(w) as int, (s % 256) as u8, s > 255)
}

/// `Vx := (Vx - Vy) mod 256`, VF := not borrow.
pub open spec fn sub_spec(m: Machine, w: u16) -> Machine {
    set_v_flag(m, x_of(w) as int, ((vx(m, w) - vy(m, w)) % 256) as u8, vx(m, w) >= vy(m, w))
}

/// `Vx := (Vy - Vx) mod 256`, VF := not borrow.
pub open spec fn subn_spec(m: Machine, w: u16) -> Machine {
    set_v_flag(m, x_of(w) as int, ((vy(m, w) - vx(m, w)) % 256) as u8, vy(m, w) >= vx(m, w))
}

/// `Vx := Vx >> 1`, VF := the bit shifted out.
pub open spec fn shr_spec(m: Machine, w: u16) -> Machine {
    set_v_flag(m, x_of(w) as int, (vx(m, w) / 2) as u8, vx(m, w) % 2 == 1)
}

/// `Vx := (Vx << 1) mod 256`, VF := the bit shifted out.
pub open spec fn shl_spec(m: Machine, w: u16) -> Machine {
    set_v_flag(m, x_of(w) as int, ((vx(m, w) * 2) % 256) as u8, vx(m, w) >= 128)
}

pub open spec fn ld_i_spec(m: Machine, w: u16) -> Machine {
    advance(Machine { i: nnn_of(w), ..m })
}

pub open spec fn jp_v0_spec(m: Machine, w: u16) -> Result<Machine, Fault> {
    let t = nnn_of(w) + m.v[0];
    if t > 0xFFF {
        Err(Fault::OutOfBounds { addr: t as u16 })
    } else {
        Ok(Machine { pc: t as u16, ..m })
    }
}

/// `Vx := r & nn` for the random byte `r`.
pub open spec fn rnd_spec(m: Machine, w: u16, r: u8) -> Machine {
    advance(set_v(m, x_of(w) as int, r & nn_of(w)))
}

/// Pixel `col` (0 leftmost) of a sprite row: bit `7 - col` of the byte.
pub open spec fn row_pixel(b: u8, col: int) -> bool {
    (b >> ((7 - col) as u8)) & 1u8 == 1u8
}

/// Whether drawing the sprite of `w` flips display cell `c`. Rows and
/// columns wrap around the screen edges: sprite pixel `(col, row)` lands on
/// `((Vx + col) mod 64, (Vy + row) mod 32)`.
pub open spec fn covered(m: Machine, w: u16, c: int) -> bool {
    let row = (c / 64 - vy(m, w)) % 32;
    let col = (c % 64 - vx(m, w)) % 64;
    row < n_of(w) && col < 8 && row_pixel(m.ram[addr_i(m) + row], col)
}

/// The display after XOR-ing the sprite of `w` onto it.
pub open spec fn drawn(m: Machine, w: u16) -> Seq<bool> {
    Seq::new(CELLS as nat, |c: int| m.display[c] != covered(m, w, c))
}

/// Whether the sprite of `w` turns some lit cell off.
pub open spec fn collides(m: Machine, w: u16) -> bool {
    exists|c: int| 0 <= c < CELLS && #[trigger] m.display[c] && covered(m, w, c)
}

pub open spec fn drw_spec(m: Machine, w: u16) -> Result<Machine, Fault> {
    if addr_i(m) + n_of(w) > MEM_SIZE {
        Err(Fault::OutOfBounds { addr: (addr_i(m) + n_of(w) - 1) as u16 })
    } else {
        Ok(advance(Machine {
            display: drawn(m, w),
            v: m.v.update(15, if collides(m, w) { 1u8 } else { 0u8 }),
            ..m
        }))
    }
}

pub open spec fn key_of(m: Machine, w: u16) -> int {
    vx(m, w) as int % 16
}

pub open spec fn skp_spec(m: Machine, w: u16) -> Machine {
    skip_if(m, m.keys[key_of(m, w)])
}

pub open spec fn sknp_spec(m: Machine, w: u16) -> Machine {
    skip_if(m, !m.keys[key_of(m, w)])
}

pub open spec fn ld_vx_dt_spec(m: Machine, w: u16) -> Machine {
    advance(set_v(m, x_of(w) as int, m.timers.delay))
}

/// Enter the key wait; PC stays on this instruction.
pub open spec fn ld_vx_k_spec(m: Machine, w: u16) -> Machine {
    Machine { mode: RunState::AwaitingKey(x_of(w)), ..m }
}

pub open spec fn ld_dt_vx_spec(m: Machine, w: u16) -> Machine {
    advance(Machine { timers: Timers { delay: vx(m, w), ..m.timers }, ..m })
}

pub open spec fn ld_st_vx_spec(m: Machine, w: u16) -> Machine {
    advance(Machine { timers: Timers { sound: vx(m, w), ..m.timers }, ..m })
}

pub open spec fn add_i_spec(m: Machine, w: u16) -> Machine {
    advance(Machine { i: ((m.i + vx(m, w)) % 0x1000) as u16, ..m })
}

/// The glyph of digit `Vx & 0xF`, five bytes each from address 0.
pub open spec fn ld_f_spec(m: Machine, w: u16) -> Machine {
    advance(Machine { i: ((vx(m, w) % 16) * 5) as u16, ..m })
}

/// Hundreds, tens and ones of `Vx` at `I`, `I+1`, `I+2`.
pub open spec fn ld_b_spec(m: Machine, w: u16) -> Result<Machine, Fault> {
    let a = addr_i(m);
    let b = vx(m, w);
    if a + 3 > MEM_SIZE {
        Err(Fault::OutOfBounds { addr: (a + 2) as u16 })
    } else {
        Ok(advance(Machine {
            ram: m.ram.update(a, (b / 100) as u8).update(a + 1, ((b / 10) % 10) as u8).update(a + 2, (b % 10) as u8),
            ..m
        }))
    }
}

/// `V0..=Vx` to memory from `I` on.
pub open spec fn store_regs_spec(m: Machine, w: u16) -> Result<Machine, Fault> {
    let a = addr_i(m);
    let x = x_of(w) as int;
    if a + x + 1 > MEM_SIZE {
        Err(Fault::OutOfBounds { addr: (a + x) as u16 })
    } else {
        Ok(advance(Machine {
            ram: Seq::new(MEM_SIZE as nat, |p: int| if a <= p <= a + x { m.v[p - a] } else { m.ram[p] }),
            ..m
        }))
    }
}

/// `V0..=Vx` from memory from `I` on.
pub open spec fn load_regs_spec(m: Machine, w: u16) -> Result<Machine, Fault> {
    let a = addr_i(m);
    let x = x_of(w) as int;
    if a + x + 1 > MEM_SIZE {
        Err(Fault::OutOfBounds { addr: (a + x) as u16 })
    } else {
        Ok(advance(Machine {
            v: Seq::new(16, |k: int| if k <= x { m.ram[a + k] } else { m.v[k] }),
            ..m
        }))
    }
}

/// What executing the word `w` does, with `r` as the random byte.
pub open spec fn exec_spec(m: Machine, w: u16, r: u8) -> Result<Machine, Fault> {
    match decode_spec(w) {
        Op::Cls => Ok(cls_spec(m)),
        Op::Ret => ret_spec(m),
        Op::Sys { .. } => Ok(advance(m)),
        Op::Jp { .. } => Ok(jp_spec(m, w)),
        Op::Call { .. } => call_spec(m, w),
        Op::SeByte { .. } => Ok(se_byte_spec(m, w)),
        Op::SneByte { .. } => Ok(sne_byte_spec(m, w)),
        Op::SeReg { .. } => Ok(se_reg_spec(m, w)),
        Op::LdByte { .. } => Ok(ld_byte_spec(m, w)),
        Op::AddByte { .. } => Ok(add_byte_spec(m, w)),
        Op::LdReg { .. } => Ok(ld_reg_spec(m, w)),
        Op::Or { .. } => Ok(or_spec(m, w)),
        Op::And { .. } => Ok(and_spec(m, w)),
        Op::Xor { .. } => Ok(xor_spec(m, w)),
        Op::AddReg { .. } => Ok(add_reg_spec(m, w)),
        Op::Sub { .. } => Ok(sub_spec(m, w)),
        Op::Shr { .. } => Ok(shr_spec(m, w)),
        Op::Subn { .. } => Ok(subn_spec(m, w)),
        Op::Shl { .. } => Ok(shl_spec(m, w)),
        Op::SneReg { .. } => Ok(sne_reg_spec(m, w)),
        Op::LdI { .. } => Ok(ld_i_spec(m, w)),
        Op::JpV0 { .. } => jp_v0_spec(m, w),
        Op::Rnd { .. } => Ok(rnd_spec(m, w, r)),
        Op::Drw { .. } => drw_spec(m, w),
        Op::Skp { .. } => Ok(skp_spec(m, w)),
        Op::Sknp { .. } => Ok(sknp_spec(m, w)),
        Op::LdVxDt { .. } => Ok(ld_vx_dt_spec(m, w)),
        Op::LdVxK { .. } => Ok(ld_vx_k_spec(m, w)),
        Op::LdDtVx { .. } => Ok(ld_dt_vx_spec(m, w)),
        Op::LdStVx { .. } => Ok(ld_st_vx_spec(m, w)),
        Op::AddI { .. } => Ok(add_i_spec(m, w)),
        Op::LdF { .. } => Ok(ld_f_spec(m, w)),
        Op::LdB { .. } => ld_b_spec(m, w),
        Op::StoreRegs { .. } => store_regs_spec(m, w),
        Op::LoadRegs { .. } => load_regs_spec(m, w),
        Op::Unknown { .. } => Ok(advance(m)),
    }
}

/// The lowest key index from `k` on that is down now and was up in the
/// previous cycle; 16 when there is none.
pub open spec fn first_press(keys: Seq<bool>, prev: Seq<bool>, k: int) -> int
    decreases 16 - k,
{
    if k >= 16 {
        16
    } else if keys[k] && !prev[k] {
        k
    } else {
        first_press(keys, prev, k + 1)
    }
}

/// One cycle while waiting for register `Vx`: on a key-down edge the key's
/// index goes to `Vx`, PC moves past the wait and the machine runs again.
pub open spec fn key_wait_spec(m: Machine, x: u8) -> Machine {
    let k = first_press(m.keys, m.prev_keys, 0);
    if k < 16 {
        Machine {
            v: m.v.update(x as int, k as u8),
            pc: (m.pc + 2) as u16,
            mode: RunState::Running,
            ..m
        }
    } else {
        m
    }
}

/// The latch of this cycle becomes the previous latch of the next one.
pub open spec fn latch_keys(m: Machine) -> Machine {
    Machine { prev_keys: m.keys, ..m }
}

/// One machine cycle. A fault leaves the state as it was.
pub open spec fn step_spec(m: Machine, r: u8) -> Result<Machine, Fault> {
    if m.pc > 0xFFE {
        Err(Fault::OutOfBounds { addr: m.pc })
    } else {
        match m.mode {
            RunState::AwaitingKey(x) => Ok(latch_keys(key_wait_spec(m, x))),
            RunState::Running => match exec_spec(m, fetch_spec(m), r) {
                Ok(m2) => Ok(latch_keys(m2)),
                Err(e) => Err(e),
            },
        }
    }
}

/// `after` and `r` are what `expect` says: the new state on success, the
/// old state and the fault otherwise.
pub open spec fn outcome<T>(before: Machine, after: Machine, r: Result<T, Fault>, expect: Result<Machine, Fault>) -> bool {
    match expect {
        Ok(m2) => r is Ok && after == m2,
        Err(e) => r is Err && r->Err_0 == e && after == before,
    }
}

} // verus!
