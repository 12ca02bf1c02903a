//! Properties of the machine that relate several operations or cycles.
use vstd::prelude::*;
use vstd::arithmetic::div_mod::{lemma_fundamental_div_mod, lemma_fundamental_div_mod_converse};
use crate::decode::{decode_spec, lemma_fields_bounded, n_of, nn_of, nnn_of, x_of, y_of};
use crate::machine::{
    addr_i, call_spec, covered, drw_spec, first_press, row_pixel, fetch_spec, key_of, ret_spec, step_spec, vx, vy, Fault, Machine,
    RunState, CELLS, MEM_SIZE, STACK_DEPTH,
};
use crate::timers::{sat_sub, tick_n, Timers, FRAME_US, TICK_UNITS};

verus! {

/// Drawing the same sprite at the same place twice restores the display,
/// and the second draw reports a collision exactly when the first one lit
/// some cell. The position registers must not be VF, which the first draw
/// overwrites.
pub proof fn lemma_draw_twice(m: Machine, w: u16)
    requires
        m.wf(),
        x_of(w) != 15,
        y_of(w) != 15,
        drw_spec(m, w) is Ok,
    ensures
        ({
            let m1 = drw_spec(m, w)->Ok_0;
            &&& drw_spec(m1, w) is Ok
            &&& (drw_spec(m1, w)->Ok_0).display == m.display
            &&& (drw_spec(m1, w)->Ok_0).v[15] == if (exists|c: int|
                0 <= c < CELLS && !m.display[c] && #[trigger] m1.display[c]) { 1u8 } else { 0u8 }
        }),
{
    let m1 = drw_spec(m, w)->Ok_0;
    lemma_fields_bounded(w);
    assert forall|c: int| 0 <= c < CELLS implies covered(m1, w, c) == covered(m, w, c) by {
        assert(vx(m1, w) == vx(m, w));
        assert(vy(m1, w) == vy(m, w));
    }
    let m2 = drw_spec(m1, w)->Ok_0;
    assert(m2.display =~= m.display);
    let lit = exists|c: int| 0 <= c < CELLS && !m.display[c] && #[trigger] m1.display[c];
    let hit = exists|c: int| 0 <= c < CELLS && #[trigger] m1.display[c] && covered(m1, w, c);
    if lit {
        let c = choose|c: int| 0 <= c < CELLS && !m.display[c] && #[trigger] m1.display[c];
        assert(m1.display[c] && covered(m1, w, c));
    }
    if hit {
        let c = choose|c: int| 0 <= c < CELLS && #[trigger] m1.display[c] && covered(m1, w, c);
        assert(!m.display[c] && m1.display[c]);
    }
}

proof fn lemma_wrap_back(v: int, r: int, d: int)
    requires
        0 <= v,
        0 <= r < d,
        d > 0,
    ensures
        ((v + r) % d - v) % d == r,
{
    lemma_fundamental_div_mod(v + r, d);
    let q = (v + r) / d;
    assert((v + r) % d - v == (0 - q) * d + r) by (nonlinear_arith)
        requires
            v + r == d * q + (v + r) % d,
    ;
    lemma_fundamental_div_mod_converse((v + r) % d - v, d, 0 - q, r);
}

/// Sprite drawing as the instruction table states it: pixel `col` of
/// sprite row `row` lands on the cell at `((Vx + col) mod 64, (Vy + row)
/// mod 32)`, and that cell flips exactly when the pixel is set.
pub proof fn lemma_sprite_lands(m: Machine, w: u16, row: int, col: int)
    requires
        m.wf(),
        0 <= row < n_of(w),
        0 <= col < 8,
        addr_i(m) + n_of(w) <= MEM_SIZE,
    ensures
        ({
            let cell = ((vy(m, w) + row) % 32) * 64 + (vx(m, w) + col) % 64;
            &&& 0 <= cell < CELLS
            &&& covered(m, w, cell) == row_pixel(m.ram[addr_i(m) + row], col)
        }),
{
    lemma_fields_bounded(w);
    let cy = (vy(m, w) + row) % 32;
    let cx = (vx(m, w) + col) % 64;
    let cell = cy * 64 + cx;
    assert(0 <= cell < CELLS) by (nonlinear_arith)
        requires
            0 <= cy < 32,
            0 <= cx < 64,
            cell == cy * 64 + cx,
    ;
    lemma_fundamental_div_mod_converse(cell, 64, cy, cx);
    lemma_wrap_back(vy(m, w) as int, row, 32);
    lemma_wrap_back(vx(m, w) as int, col, 64);
}

/// `first_press` finds the lowest key that went down, or 16 when none did.
pub proof fn lemma_first_press(keys: Seq<bool>, prev: Seq<bool>, k: int)
    requires
        0 <= k <= 16,
        keys.len() == 16,
        prev.len() == 16,
    ensures
        ({
            let f = first_press(keys, prev, k);
            &&& k <= f <= 16
            &&& f < 16 ==> keys[f] && !prev[f]
            &&& forall|j: int| k <= j < f ==> !(#[trigger] keys[j] && !prev[j])
        }),
    decreases 16 - k,
{
    if k < 16 {
        lemma_first_press(keys, prev, k + 1);
    }
}

/// A cycle spent waiting for a key: with no key-down edge since the last
/// cycle PC stays on the wait and nothing but the latch changes; on an edge
/// the lowest such key's index goes to `Vx`, PC moves on by 2 and the
/// machine runs again.
pub proof fn lemma_key_wait(m: Machine, r: u8, x: u8)
    requires
        m.wf(),
        m.mode == RunState::AwaitingKey(x),
        m.pc <= 0xFFE,
    ensures
        step_spec(m, r) is Ok,
        (step_spec(m, r)->Ok_0).prev_keys == m.keys,
        (forall|j: int| 0 <= j < 16 ==> !(#[trigger] m.keys[j] && !m.prev_keys[j])) ==> {
            let m1 = step_spec(m, r)->Ok_0;
            m1.pc == m.pc && m1.mode == m.mode && m1.v == m.v
        },
        forall|k: int| 0 <= k < 16 && #[trigger] m.keys[k] && !m.prev_keys[k]
            && (forall|j: int| 0 <= j < k ==> !(#[trigger] m.keys[j] && !m.prev_keys[j])) ==> {
            let m1 = step_spec(m, r)->Ok_0;
            m1.pc == m.pc + 2 && m1.mode == RunState::Running && m1.v == m.v.update(x as int, k as u8)
        },
{
    lemma_first_press(m.keys, m.prev_keys, 0);
    let f = first_press(m.keys, m.prev_keys, 0);
    assert forall|k: int| 0 <= k < 16 && #[trigger] m.keys[k] && !m.prev_keys[k]
        && (forall|j: int| 0 <= j < k ==> !(#[trigger] m.keys[j] && !m.prev_keys[j])) implies f == k by {
        if f < k {
            assert(m.keys[f] && !m.prev_keys[f]);
        }
    }
}

/// The state after the CALLs `ws`, one after another, or the first fault.
pub open spec fn call_chain(m: Machine, ws: Seq<u16>) -> Result<Machine, Fault>
    decreases ws.len(),
{
    if ws.len() == 0 {
        Ok(m)
    } else {
        match call_chain(m, ws.drop_last()) {
            Ok(m1) => call_spec(m1, ws.last()),
            Err(e) => Err(e),
        }
    }
}

/// From a stack with `sp` entries, `16 - sp` CALLs in a row succeed, each
/// pushing one entry, and the next one faults with a stack overflow.
pub proof fn lemma_call_chain(m: Machine, ws: Seq<u16>)
    requires
        m.wf(),
        ws.len() + m.sp <= STACK_DEPTH + 1,
    ensures
        ws.len() + m.sp <= STACK_DEPTH ==> call_chain(m, ws) is Ok
            && (call_chain(m, ws)->Ok_0).sp == m.sp + ws.len()
            && (call_chain(m, ws)->Ok_0).wf(),
        ws.len() + m.sp == STACK_DEPTH + 1 ==> call_chain(m, ws) is Err
            && call_chain(m, ws)->Err_0 is StackOverflow,
    decreases ws.len(),
{
    if ws.len() > 0 {
        lemma_call_chain(m, ws.drop_last());
    }
}

/// Stack bounds: from an empty stack 16 CALLs in a row succeed and a 17th
/// faults with a stack overflow; a RET on the empty stack faults with a
/// stack underflow.
pub proof fn lemma_stack_bounds(m: Machine, ws: Seq<u16>)
    requires
        m.wf(),
        m.sp == 0,
        ws.len() == 17,
    ensures
        call_chain(m, ws.take(16)) is Ok,
        (call_chain(m, ws.take(16))->Ok_0).sp == 16,
        call_chain(m, ws) is Err,
        call_chain(m, ws)->Err_0 is StackOverflow,
        ret_spec(m) == Err::<Machine, Fault>(Fault::StackUnderflow { addr: m.pc }),
{
    lemma_call_chain(m, ws.take(16));
    lemma_call_chain(m, ws);
    assert(ws.drop_last() =~= ws.take(16));
}

/// How a running cycle moves PC: a skip moves it by 4 when its condition
/// holds and by 2 otherwise; a jump, call, return or offset jump sets it
/// and no generic advance follows.
pub proof fn lemma_step_pc(m: Machine, r: u8)
    requires
        m.wf(),
        m.mode == RunState::Running,
        m.pc <= 0xFFE,
    ensures
        ({
            let w = fetch_spec(m);
            let s = step_spec(m, r);
            &&& decode_spec(w) is SeByte ==> s is Ok && (s->Ok_0).pc == m.pc + if vx(m, w) == nn_of(w) { 4int } else { 2int }
            &&& decode_spec(w) is SneByte ==> s is Ok && (s->Ok_0).pc == m.pc + if vx(m, w) != nn_of(w) { 4int } else { 2int }
            &&& decode_spec(w) is SeReg ==> s is Ok && (s->Ok_0).pc == m.pc + if vx(m, w) == vy(m, w) { 4int } else { 2int }
            &&& decode_spec(w) is SneReg ==> s is Ok && (s->Ok_0).pc == m.pc + if vx(m, w) != vy(m, w) { 4int } else { 2int }
            &&& decode_spec(w) is Skp ==> s is Ok && (s->Ok_0).pc == m.pc + if m.keys[key_of(m, w)] { 4int } else { 2int }
            &&& decode_spec(w) is Sknp ==> s is Ok && (s->Ok_0).pc == m.pc + if !m.keys[key_of(m, w)] { 4int } else { 2int }
            &&& decode_spec(w) is Jp ==> s is Ok && (s->Ok_0).pc == nnn_of(w)
            &&& decode_spec(w) is Call && m.sp < STACK_DEPTH ==> s is Ok && (s->Ok_0).pc == nnn_of(w)
            &&& decode_spec(w) is Ret && m.sp > 0 ==> s is Ok && (s->Ok_0).pc == m.stack[m.sp - 1]
            &&& decode_spec(w) is JpV0 && nnn_of(w) + m.v[0] <= 0xFFF ==> s is Ok && (s->Ok_0).pc == nnn_of(w) + m.v[0]
        }),
{
}

proof fn lemma_sat_sub_twice(a: u8, p: int, q: int)
    requires
        p >= 0,
        q >= 0,
    ensures
        sat_sub(sat_sub(a, p), q) == sat_sub(a, p + q),
{
}

/// Timer rate lock: from an empty accumulator, after `k` calls of `e`
/// microseconds each, both timers have dropped by the whole number of
/// 1/60 s in `k * e` microseconds, and stopped at zero.
pub proof fn lemma_timer_rate_locked(t: Timers, e: u64, k: nat)
    requires
        t.acc == 0,
    ensures
        tick_n(t, e, k).delay == sat_sub(t.delay, (60 * e * k) / TICK_UNITS as int),
        tick_n(t, e, k).sound == sat_sub(t.sound, (60 * e * k) / TICK_UNITS as int),
        tick_n(t, e, k).acc == (60 * e * k) % TICK_UNITS as int,
    decreases k,
{
    let d = TICK_UNITS as int;
    if k > 0 {
        lemma_timer_rate_locked(t, e, (k - 1) as nat);
        let a = 60 * e * (k - 1);
        let q = a / d;
        let prev = tick_n(t, e, (k - 1) as nat);
        lemma_fundamental_div_mod(a, d);
        let b = prev.acc + 60 * e;
        lemma_fundamental_div_mod(b, d);
        assert(60 * e * k == a + 60 * e) by (nonlinear_arith)
            requires
                a == 60 * e * (k - 1),
                k > 0,
        ;
        assert(60 * e * k == (q + b / d) * d + b % d) by (nonlinear_arith)
            requires
                60 * e * k == a + 60 * e,
                a == d * q + prev.acc,
                b == prev.acc + 60 * e,
                b == d * (b / d) + b % d,
        ;
        lemma_fundamental_div_mod_converse(60 * e * k, d, q + b / d, b % d);
        lemma_sat_sub_twice(t.delay, q, b / d);
        lemma_sat_sub_twice(t.sound, q, b / d);
    }
}

/// A feed of one frame per call ticks each timer down by exactly one per
/// call (for fewer than 50000 calls, before the rounding of the frame to a
/// whole microsecond adds up to a tick): a timer at `n` reaches zero after
/// exactly `n` calls and stays there.
pub proof fn lemma_frame_feed(t: Timers, k: nat)
    requires
        t.acc == 0,
        k < 50_000,
    ensures
        tick_n(t, FRAME_US, k).delay == sat_sub(t.delay, k as int),
        tick_n(t, FRAME_US, k).sound == sat_sub(t.sound, k as int),
{
    lemma_timer_rate_locked(t, FRAME_US, k);
    assert(60 * FRAME_US * k == k * (TICK_UNITS as int) + 20 * k) by (nonlinear_arith);
    lemma_fundamental_div_mod_converse(60 * FRAME_US * k, TICK_UNITS as int, k as int, 20 * k as int);
}

} // verus!
