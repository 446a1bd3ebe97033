//! The processor: state, decode, dispatch and the cycle step.
//!
//! One cycle is one fetch + decode + execute + timer-decay step.  Every
//! operation's numeric edge case (carry, borrow, wraparound, collision) is
//! fixed by the spec functions here; the executable methods are verified
//! against them.  Stack overflow, stack underflow and out-of-range memory
//! addresses are fail-fast faults that abort the cycle and leave the rest
//! of the state untouched; unknown opcodes are a no-op that still advances
//! the program counter.

use crate::gpu::{spec_clear, Gpu, GpuV};
use crate::graphics::{blank_grid, draw_collision, draw_grid, GRID_LEN};
use crate::keypad::{first_pressed, no_keys, Keypad, KeypadSetting};
use crate::random::{next_word, rng_from_seed};
use vstd::prelude::*;

verus! {

/// Bytes of addressable memory.
pub const MEMORY_LEN: usize = 4096;

/// Canonical ROM load origin (0x200).
pub const ROM_ORIGIN: usize = 512;

/// Largest ROM that fits between the load origin and the end of memory.
pub const MAX_ROM_LEN: usize = 3584;

/// The kinds of fatal execution fault.
#[derive(Clone, Copy, PartialEq, Eq, Structural, Debug)]
pub enum FaultKind {
    /// CALL with all 16 stack slots in use.
    StackOverflow,
    /// RET with no stack slot in use.
    StackUnderflow,
    /// A memory access through the index register or the program counter
    /// left the address space.
    AddressOutOfRange,
}

/// A fatal execution fault: the failing opcode, the program counter it was
/// fetched from, and the fault kind.  A fault aborts the cycle; the rest of
/// the machine state is left as it was.
#[derive(Clone, Copy, PartialEq, Eq, Structural, Debug)]
pub struct Fault {
    /// What went wrong.
    pub kind: FaultKind,
    /// The opcode whose execution faulted, or 0 when the fetch itself was
    /// out of range.
    pub opcode: u16,
    /// The program counter the opcode was fetched from.
    pub pc: u16,
}

/// Rejected ROM images.
#[derive(Clone, Copy, PartialEq, Eq, Structural, Debug)]
pub enum InputError {
    /// The ROM holds no bytes.
    EmptyRom,
    /// The ROM does not fit between the load origin and the end of memory.
    OversizedRom,
}

/// Difference in externally interesting state from the previous tick.
pub struct TickChange {
    /// The opcode which executed.
    pub opcode: u16,
    /// The new registers.
    pub v: Vec<u8>,
    /// The new stack.
    pub stack: Vec<u16>,
    /// The new sound timer.
    pub st: u8,
    /// The new delay timer.
    pub dt: u8,
}

/// Abstract state of the machine: everything the cycle step reads or
/// writes.
#[verifier::ext_equal]
pub ghost struct CpuV {
    /// Index register.
    pub i: u16,
    /// Program counter.
    pub pc: u16,
    /// The 4096 bytes of memory.
    pub memory: Seq<u8>,
    /// The 16 general registers V0 to VF.
    pub v: Seq<u8>,
    /// The 16 return-address slots.
    pub stack: Seq<u16>,
    /// The stack pointer, in [0, 16].
    pub sp: u8,
    /// The delay timer.
    pub dt: u8,
    /// The sound timer.
    pub st: u8,
    /// The display memory and its pending-redraw flag.
    pub gpu: GpuV,
    /// The keypad latch.
    pub keys: Seq<bool>,
    /// The opcode executed last.
    pub last_opcode: u16,
}

/// A machine state is well formed when every sequence has its fixed
/// length and the stack pointer stays within the stack.
pub open spec fn wf_view(s: CpuV) -> bool {
    &&& s.memory.len() == MEMORY_LEN
    &&& s.v.len() == 16
    &&& s.stack.len() == 16
    &&& s.sp <= 16
    &&& s.gpu.grid.len() == GRID_LEN
    &&& s.keys.len() == 16
}

/// The fixed 80-byte font table: 16 glyphs of 5 bytes, one glyph per
/// hexadecimal digit, preloaded at address 0.
pub open spec fn spec_font_set() -> Seq<u8> {
    seq![
        0xF0u8, 0x90, 0x90, 0x90, 0xF0,  // 0
        0x20, 0x60, 0x20, 0x20, 0x70,  // 1
        0xF0, 0x10, 0xF0, 0x80, 0xF0,  // 2
        0xF0, 0x10, 0xF0, 0x10, 0xF0,  // 3
        0x90, 0x90, 0xF0, 0x10, 0x10,  // 4
        0xF0, 0x80, 0xF0, 0x10, 0xF0,  // 5
        0xF0, 0x80, 0xF0, 0x90, 0xF0,  // 6
        0xF0, 0x10, 0x20, 0x40, 0x40,  // 7
        0xF0, 0x90, 0xF0, 0x90, 0xF0,  // 8
        0xF0, 0x90, 0xF0, 0x10, 0xF0,  // 9
        0xF0, 0x90, 0xF0, 0x90, 0x90,  // A
        0xE0, 0x90, 0xE0, 0x90, 0xE0,  // B
        0xF0, 0x80, 0x80, 0x80, 0xF0,  // C
        0xE0, 0x90, 0x90, 0x90, 0xE0,  // D
        0xF0, 0x80, 0xF0, 0x80, 0xF0,  // E
        0xF0, 0x80, 0xF0, 0x80, 0x80,  // F
    ]
}

/// Memory at startup: the font table, then zeroes.
pub open spec fn initial_memory() -> Seq<u8> {
    Seq::new(MEMORY_LEN as nat, |j: int| if 0 <= j < 80 { spec_font_set()[j] } else { 0u8 })
}

/// The registers at startup: all zero.
pub open spec fn zero_regs() -> Seq<u8> {
    Seq::new(16, |j: int| 0u8)
}

/// The stack at startup: all slots zero.
pub open spec fn zero_stack() -> Seq<u16> {
    Seq::new(16, |j: int| 0u16)
}

/// The machine state at startup: font preloaded, program counter at the
/// ROM origin, everything else zeroed and dark.
pub open spec fn initial_view() -> CpuV {
    CpuV {
        i: 0,
        pc: 0x200,
        memory: initial_memory(),
        v: zero_regs(),
        stack: zero_stack(),
        sp: 0,
        dt: 0,
        st: 0,
        gpu: GpuV { grid: blank_grid(), pending: false },
        keys: no_keys(),
        last_opcode: 0,
    }
}

/// Memory after loading `rom` verbatim at the ROM origin.
pub open spec fn load_rom_memory(memory: Seq<u8>, rom: Seq<u8>) -> Seq<u8> {
    Seq::new(
        memory.len(),
        |j: int|
            if ROM_ORIGIN <= j < ROM_ORIGIN + rom.len() {
                rom[j - ROM_ORIGIN]
            } else {
                memory[j]
            },
    )
}

// ---------------------------------------------------------------------
// Decoder: pure functions from a 16-bit big-endian instruction word to its
// fields.  Any 16-bit value decodes; there are no error cases.
// ---------------------------------------------------------------------
/// The highest nibble, which selects the operation group.
pub open spec fn nib1(op: u16) -> u8 {
    ((op >> 12) & 0xF) as u8
}

/// The second nibble: the first register index `x`.
pub open spec fn nib_x(op: u16) -> u8 {
    ((op >> 8) & 0xF) as u8
}

/// The third nibble: the second register index `y`.
pub open spec fn nib_y(op: u16) -> u8 {
    ((op >> 4) & 0xF) as u8
}

/// The lowest nibble: the sprite height `n` and sub-selector.
pub open spec fn nib_n(op: u16) -> u8 {
    (op & 0xF) as u8
}

/// The low byte `kk`.
pub open spec fn byte_kk(op: u16) -> u8 {
    (op & 0xFF) as u8
}

/// The low 12 bits: the address field.
pub open spec fn addr_of(op: u16) -> u16 {
    op & 0xFFF
}

/// Every decoded field lies in its range.
pub proof fn lemma_decode_bounds(op: u16)
    ensures
        nib1(op) < 16,
        nib_x(op) < 16,
        nib_y(op) < 16,
        nib_n(op) < 16,
        addr_of(op) < 4096,
{
    assert((op >> 12) & 0xF < 16 && (op >> 8) & 0xF < 16 && (op >> 4) & 0xF < 16 && (op & 0xF)
        < 16 && (op & 0xFFF) < 4096) by (bit_vector);
}

// ---------------------------------------------------------------------
// Operation semantics.  Register arithmetic is 8-bit modulo 256; the
// program counter advances by 2 unless the operation sets it; VF written
// as a flag wins over VF written as a result register.
// ---------------------------------------------------------------------
/// The outcome of one operation: the next state, and the fault that
/// aborted it, if any.  A faulting operation leaves the state unchanged.
#[verifier::ext_equal]
pub ghost struct OpResult {
    /// The machine state after the operation.
    pub s: CpuV,
    /// The fault kind when the operation faulted.
    pub fault: Option<FaultKind>,
}

/// An operation that completed.
pub open spec fn op_ok(s: CpuV) -> OpResult {
    OpResult { s, fault: None }
}

/// An operation that faulted: the state is left as it was.
pub open spec fn op_fault(s: CpuV, kind: FaultKind) -> OpResult {
    OpResult { s, fault: Some(kind) }
}

/// The `Result` an operation's executable form returns.
pub open spec fn fault_result(res: OpResult) -> Result<(), FaultKind> {
    match res.fault {
        None => Ok(()),
        Some(k) => Err(k),
    }
}

/// Program counter moved to the next instruction.
pub open spec fn advance(s: CpuV) -> CpuV {
    CpuV { pc: (s.pc + 2) as u16, ..s }
}

/// Program counter moved past the next instruction when `cond` holds,
/// else to the next instruction.
pub open spec fn skip_if(s: CpuV, cond: bool) -> CpuV {
    CpuV { pc: if cond { (s.pc + 4) as u16 } else { (s.pc + 2) as u16 }, ..s }
}

/// CLS: clear display memory.
pub open spec fn op_cls(s: CpuV) -> CpuV {
    advance(CpuV { gpu: spec_clear(s.gpu), ..s })
}

/// RET: decrement the stack pointer, pop the return address into the
/// program counter.  An empty stack is a fault.
pub open spec fn op_ret(s: CpuV) -> OpResult {
    if s.sp == 0 {
        op_fault(s, FaultKind::StackUnderflow)
    } else {
        op_ok(CpuV { sp: (s.sp - 1) as u8, pc: s.stack[s.sp - 1], ..s })
    }
}

/// JP addr: jump.
pub open spec fn op_jp(s: CpuV, addr: u16) -> CpuV {
    CpuV { pc: addr, ..s }
}

/// CALL addr: push the address of the next instruction, increment the
/// stack pointer, jump.  A full stack is a fault.
pub open spec fn op_call(s: CpuV, addr: u16) -> OpResult {
    if s.sp >= 16 {
        op_fault(s, FaultKind::StackOverflow)
    } else {
        op_ok(
            CpuV {
                stack: s.stack.update(s.sp as int, (s.pc + 2) as u16),
                sp: (s.sp + 1) as u8,
                pc: addr,
                ..s
            },
        )
    }
}

/// SE Vx, kk: skip the next instruction if Vx == kk.
pub open spec fn op_se_kk(s: CpuV, x: u8, kk: u8) -> CpuV {
    skip_if(s, s.v[x as int] == kk)
}

/// SNE Vx, kk: skip the next instruction if Vx != kk.
pub open spec fn op_sne_kk(s: CpuV, x: u8, kk: u8) -> CpuV {
    skip_if(s, s.v[x as int] != kk)
}

/// SE Vx, Vy: skip the next instruction if Vx == Vy.
pub open spec fn op_se_xy(s: CpuV, x: u8, y: u8) -> CpuV {
    skip_if(s, s.v[x as int] == s.v[y as int])
}

/// SNE Vx, Vy: skip the next instruction if Vx != Vy.
pub open spec fn op_sne_xy(s: CpuV, x: u8, y: u8) -> CpuV {
    skip_if(s, s.v[x as int] != s.v[y as int])
}

/// LD Vx, kk: set Vx = kk.
pub open spec fn op_ld_kk(s: CpuV, x: u8, kk: u8) -> CpuV {
    advance(CpuV { v: s.v.update(x as int, kk), ..s })
}

/// ADD Vx, kk: Vx = Vx + kk, wrapping, no flag.
pub open spec fn op_add_kk(s: CpuV, x: u8, kk: u8) -> CpuV {
    advance(CpuV { v: s.v.update(x as int, ((s.v[x as int] + kk) % 256) as u8), ..s })
}

/// LD Vx, Vy: set Vx = Vy.
pub open spec fn op_ld_xy(s: CpuV, x: u8, y: u8) -> CpuV {
    advance(CpuV { v: s.v.update(x as int, s.v[y as int]), ..s })
}

/// OR Vx, Vy.
pub open spec fn op_or(s: CpuV, x: u8, y: u8) -> CpuV {
    advance(CpuV { v: s.v.update(x as int, s.v[x as int] | s.v[y as int]), ..s })
}

/// AND Vx, Vy.
pub open spec fn op_and(s: CpuV, x: u8, y: u8) -> CpuV {
    advance(CpuV { v: s.v.update(x as int, s.v[x as int] & s.v[y as int]), ..s })
}

/// XOR Vx, Vy.
pub open spec fn op_xor(s: CpuV, x: u8, y: u8) -> CpuV {
    advance(CpuV { v: s.v.update(x as int, s.v[x as int] ^ s.v[y as int]), ..s })
}

/// ADD Vx, Vy: 9-bit sum; VF = 1 exactly when the sum exceeds 255; Vx =
/// the low 8 bits.
pub open spec fn op_add_xy(s: CpuV, x: u8, y: u8) -> CpuV {
    let sum = s.v[x as int] + s.v[y as int];
    advance(
        CpuV {
            v: s.v.update(x as int, (sum % 256) as u8).update(
                15,
                if sum > 255 {
                    1u8
                } else {
                    0u8
                },
            ),
            ..s
        },
    )
}

/// SUB Vx, Vy: VF = 1 exactly when Vx > Vy (not-borrow); Vx = Vx - Vy,
/// wrapping.
pub open spec fn op_sub_xy(s: CpuV, x: u8, y: u8) -> CpuV {
    let vx = s.v[x as int];
    let vy = s.v[y as int];
    let diff = if vx >= vy {
        (vx - vy) as u8
    } else {
        (vx - vy + 256) as u8
    };
    advance(
        CpuV {
            v: s.v.update(x as int, diff).update(
                15,
                if vx > vy {
                    1u8
                } else {
                    0u8
                },
            ),
            ..s
        },
    )
}

/// SUBN Vx, Vy: VF = 1 exactly when Vy > Vx; Vx = Vy - Vx, wrapping.
pub open spec fn op_subn(s: CpuV, x: u8, y: u8) -> CpuV {
    let vx = s.v[x as int];
    let vy = s.v[y as int];
    let diff = if vy >= vx {
        (vy - vx) as u8
    } else {
        (vy - vx + 256) as u8
    };
    advance(
        CpuV {
            v: s.v.update(x as int, diff).update(
                15,
                if vy > vx {
                    1u8
                } else {
                    0u8
                },
            ),
            ..s
        },
    )
}

/// SHR Vx: VF = the least-significant bit of Vx before the shift; Vx
/// shifted right by one.
pub open spec fn op_shr(s: CpuV, x: u8) -> CpuV {
    advance(
        CpuV { v: s.v.update(x as int, s.v[x as int] >> 1u8).update(15, s.v[x as int] & 1), ..s },
    )
}

/// SHL Vx: VF = the most-significant bit of Vx before the shift; Vx
/// shifted left by one.
pub open spec fn op_shl(s: CpuV, x: u8) -> CpuV {
    advance(
        CpuV { v: s.v.update(x as int, s.v[x as int] << 1u8).update(15, s.v[x as int] >> 7u8), ..s },
    )
}

/// LD I, addr: set the index register.
pub open spec fn op_ld_i(s: CpuV, addr: u16) -> CpuV {
    advance(CpuV { i: addr, ..s })
}

/// JP V0, addr: jump to addr + V0.
pub open spec fn op_jp_v0(s: CpuV, addr: u16) -> CpuV {
    CpuV { pc: (addr + s.v[0]) as u16, ..s }
}

/// RND Vx, kk: Vx = random byte AND kk.
pub open spec fn op_rnd(s: CpuV, x: u8, kk: u8, rnd: u8) -> CpuV {
    advance(CpuV { v: s.v.update(x as int, rnd & kk), ..s })
}

/// SKP Vx: skip the next instruction if key Vx (low nibble) is pressed.
pub open spec fn op_skp(s: CpuV, x: u8) -> CpuV {
    skip_if(s, s.keys[s.v[x as int] as int % 16])
}

/// SKNP Vx: skip the next instruction if key Vx (low nibble) is not
/// pressed.
pub open spec fn op_sknp(s: CpuV, x: u8) -> CpuV {
    skip_if(s, !s.keys[s.v[x as int] as int % 16])
}

/// LD Vx, DT: read the delay timer.
pub open spec fn op_ld_get_dt(s: CpuV, x: u8) -> CpuV {
    advance(CpuV { v: s.v.update(x as int, s.dt), ..s })
}

/// LD Vx, K: wait for a key.  If some key is pressed, Vx = its lowest
/// index and the program counter advances; else nothing changes and the
/// same instruction executes again next cycle.
pub open spec fn op_ld_key(s: CpuV, x: u8) -> CpuV {
    match first_pressed(s.keys) {
        Some(k) => advance(CpuV { v: s.v.update(x as int, k), ..s }),
        None => s,
    }
}

/// LD DT, Vx: set the delay timer.
pub open spec fn op_ld_set_dt(s: CpuV, x: u8) -> CpuV {
    advance(CpuV { dt: s.v[x as int], ..s })
}

/// LD ST, Vx: set the sound timer.
pub open spec fn op_ld_set_st(s: CpuV, x: u8) -> CpuV {
    advance(CpuV { st: s.v[x as int], ..s })
}

/// ADD I, Vx: I = I + Vx (16-bit, wrapping); VF = 1 exactly when the sum
/// exceeds 0xFFF.
pub open spec fn op_add_i(s: CpuV, x: u8) -> CpuV {
    let sum = s.i + s.v[x as int];
    advance(
        CpuV {
            i: (sum % 0x10000) as u16,
            v: s.v.update(
                15,
                if sum > 0xFFF {
                    1u8
                } else {
                    0u8
                },
            ),
            ..s
        },
    )
}

/// LD F, Vx: I = Vx * 5, the address of digit Vx's font glyph.
pub open spec fn op_ld_sprite(s: CpuV, x: u8) -> CpuV {
    advance(CpuV { i: (s.v[x as int] * 5) as u16, ..s })
}

/// DRW Vx, Vy, n: blit the n-byte sprite at memory[I..] to (Vx, Vy);
/// VF = the collision flag.  A sprite that runs past the end of memory is
/// a fault.
pub open spec fn op_drw(s: CpuV, x: u8, y: u8, n: u8) -> OpResult {
    let base = s.i as int;
    let len = n as int;
    if len > 0 && base + len > MEMORY_LEN {
        op_fault(s, FaultKind::AddressOutOfRange)
    } else {
        let bytes = if len == 0 {
            Seq::<u8>::empty()
        } else {
            s.memory.subrange(base, base + len)
        };
        let vx = s.v[x as int];
        let vy = s.v[y as int];
        let grid = draw_grid(s.gpu.grid, vx, vy, bytes);
        let coll = draw_collision(s.gpu.grid, vx, vy, bytes);
        op_ok(
            advance(
                CpuV {
                    gpu: GpuV { grid, pending: s.gpu.pending || grid != s.gpu.grid },
                    v: s.v.update(
                        15,
                        if coll {
                            1u8
                        } else {
                            0u8
                        },
                    ),
                    ..s
                },
            ),
        )
    }
}

/// LD B, Vx: write the decimal digits of Vx to memory[I..I+2], hundreds
/// first.  Running past the end of memory is a fault.
pub open spec fn op_ld_bcd(s: CpuV, x: u8) -> OpResult {
    if s.i as int + 2 >= MEMORY_LEN {
        op_fault(s, FaultKind::AddressOutOfRange)
    } else {
        let d = s.v[x as int];
        op_ok(
            advance(
                CpuV {
                    memory: s.memory.update(s.i as int, d / 100).update(
                        s.i as int + 1,
                        (d % 100) / 10,
                    ).update(s.i as int + 2, d % 10),
                    ..s
                },
            ),
        )
    }
}

/// LD [I], Vx: store V0 through Vx inclusive into memory starting at I.
/// Running past the end of memory is a fault.
pub open spec fn op_ld_set_memory(s: CpuV, x: u8) -> OpResult {
    if s.i as int + x as int >= MEMORY_LEN {
        op_fault(s, FaultKind::AddressOutOfRange)
    } else {
        op_ok(
            advance(
                CpuV {
                    memory: Seq::new(
                        s.memory.len(),
                        |j: int|
                            if s.i <= j <= s.i + x {
                                s.v[j - s.i]
                            } else {
                                s.memory[j]
                            },
                    ),
                    ..s
                },
            ),
        )
    }
}

/// LD Vx, [I]: load memory starting at I into V0 through Vx inclusive.
/// Running past the end of memory is a fault.
pub open spec fn op_ld_get_memory(s: CpuV, x: u8) -> OpResult {
    if s.i as int + x as int >= MEMORY_LEN {
        op_fault(s, FaultKind::AddressOutOfRange)
    } else {
        op_ok(
            advance(
                CpuV {
                    v: Seq::new(
                        s.v.len(),
                        |j: int|
                            if 0 <= j <= x {
                                s.memory[s.i + j]
                            } else {
                                s.v[j]
                            },
                    ),
                    ..s
                },
            ),
        )
    }
}

/// An opcode matching no table entry: a no-op that still advances the
/// program counter.
pub open spec fn op_noop(s: CpuV) -> CpuV {
    advance(s)
}

/// True for the RND opcodes, whose outcome depends on the random byte.
pub open spec fn is_rnd(op: u16) -> bool {
    nib1(op) == 0x0C
}

/// The dispatch table: maps the nibble pattern of `op` to exactly one
/// operation.  `rnd` is the byte the random generator supplied; only the
/// RND opcodes read it.
pub open spec fn spec_exec_op(s: CpuV, op: u16, rnd: u8) -> OpResult {
    let x = nib_x(op);
    let y = nib_y(op);
    let n = nib_n(op);
    let kk = byte_kk(op);
    let addr = addr_of(op);
    match (nib1(op), x, y, n) {
        (0x00, 0x00, 0x0E, 0x00) => op_ok(op_cls(s)),
        (0x00, 0x00, 0x0E, 0x0E) => op_ret(s),
        (0x01, _, _, _) => op_ok(op_jp(s, addr)),
        (0x02, _, _, _) => op_call(s, addr),
        (0x03, _, _, _) => op_ok(op_se_kk(s, x, kk)),
        (0x04, _, _, _) => op_ok(op_sne_kk(s, x, kk)),
        (0x05, _, _, 0x00) => op_ok(op_se_xy(s, x, y)),
        (0x06, _, _, _) => op_ok(op_ld_kk(s, x, kk)),
        (0x07, _, _, _) => op_ok(op_add_kk(s, x, kk)),
        (0x08, _, _, 0x00) => op_ok(op_ld_xy(s, x, y)),
        (0x08, _, _, 0x01) => op_ok(op_or(s, x, y)),
        (0x08, _, _, 0x02) => op_ok(op_and(s, x, y)),
        (0x08, _, _, 0x03) => op_ok(op_xor(s, x, y)),
        (0x08, _, _, 0x04) => op_ok(op_add_xy(s, x, y)),
        (0x08, _, _, 0x05) => op_ok(op_sub_xy(s, x, y)),
        (0x08, _, _, 0x06) => op_ok(op_shr(s, x)),
        (0x08, _, _, 0x07) => op_ok(op_subn(s, x, y)),
        (0x08, _, _, 0x0E) => op_ok(op_shl(s, x)),
        (0x09, _, _, 0x00) => op_ok(op_sne_xy(s, x, y)),
        (0x0A, _, _, _) => op_ok(op_ld_i(s, addr)),
        (0x0B, _, _, _) => op_ok(op_jp_v0(s, addr)),
        (0x0C, _, _, _) => op_ok(op_rnd(s, x, kk, rnd)),
        (0x0D, _, _, _) => op_drw(s, x, y, n),
        (0x0E, _, 0x09, 0x0E) => op_ok(op_skp(s, x)),
        (0x0E, _, 0x0A, 0x01) => op_ok(op_sknp(s, x)),
        (0x0F, _, 0x00, 0x07) => op_ok(op_ld_get_dt(s, x)),
        (0x0F, _, 0x00, 0x0A) => op_ok(op_ld_key(s, x)),
        (0x0F, _, 0x01, 0x05) => op_ok(op_ld_set_dt(s, x)),
        (0x0F, _, 0x01, 0x08) => op_ok(op_ld_set_st(s, x)),
        (0x0F, _, 0x01, 0x0E) => op_ok(op_add_i(s, x)),
        (0x0F, _, 0x02, 0x09) => op_ok(op_ld_sprite(s, x)),
        (0x0F, _, 0x03, 0x03) => op_ld_bcd(s, x),
        (0x0F, _, 0x05, 0x05) => op_ld_set_memory(s, x),
        (0x0F, _, 0x06, 0x05) => op_ld_get_memory(s, x),
        (_, _, _, _) => op_ok(op_noop(s)),
    }
}

// ---------------------------------------------------------------------
// The cycle step: fetch + decode + execute + timer decay, atomically.
// ---------------------------------------------------------------------
/// The outcome of one cycle: the next state, and the fault that aborted
/// the cycle, if any.
#[verifier::ext_equal]
pub ghost struct CycleResult {
    /// The machine state after the cycle.
    pub s: CpuV,
    /// The fault that aborted the cycle, if any.
    pub fault: Option<Fault>,
}

/// The big-endian instruction word at the program counter.
pub open spec fn fetch(s: CpuV) -> u16 {
    (s.memory[s.pc as int] * 256 + s.memory[s.pc as int + 1]) as u16
}

/// Timer decay: after execution each nonzero timer decrements by one;
/// timers clamp at zero and never go negative.
pub open spec fn decay_timers(s: CpuV) -> CpuV {
    CpuV {
        dt: if s.dt > 0 {
            (s.dt - 1) as u8
        } else {
            0u8
        },
        st: if s.st > 0 {
            (s.st - 1) as u8
        } else {
            0u8
        },
        ..s
    }
}

/// One whole cycle over the abstract state.  A program counter whose
/// second opcode byte would lie outside memory is a fault before anything
/// changes; a faulting operation leaves everything but the latched opcode
/// unchanged; timers decay only when the cycle completes.
pub open spec fn spec_cycle(s: CpuV, rnd: u8) -> CycleResult {
    if s.pc as int + 1 >= MEMORY_LEN {
        CycleResult {
            s,
            fault: Some(Fault { kind: FaultKind::AddressOutOfRange, opcode: 0, pc: s.pc }),
        }
    } else {
        let op = fetch(s);
        let fetched = CpuV { last_opcode: op, ..s };
        let res = spec_exec_op(fetched, op, rnd);
        match res.fault {
            None => CycleResult { s: decay_timers(res.s), fault: None },
            Some(kind) => CycleResult {
                s: fetched,
                fault: Some(Fault { kind, opcode: op, pc: s.pc }),
            },
        }
    }
}

/// What `execute_cycle` promises of a pre-state, a post-state, a result
/// and the random byte the cycle drew.
pub open spec fn cycle_result(pre: CpuV, post: CpuV, r: Result<(), Fault>, rnd: u8) -> bool {
    let res = spec_cycle(pre, rnd);
    &&& post == res.s
    &&& (match res.fault {
        None => r == Ok::<(), Fault>(()),
        Some(f) => r == Err::<(), Fault>(f),
    })
}

/// True when the cycle starting from `s` will execute an RND opcode, so
/// that its outcome depends on the random generator.
pub open spec fn cycle_draws_random(s: CpuV) -> bool {
    s.pc as int + 1 < MEMORY_LEN && is_rnd(fetch(s))
}

/// The CPU.
pub struct Cpu {
    /// Index register.
    pub i: u16,

    /// The program counter.
    pub pc: u16,

    /// The memory (4 KiB).  Addresses 0x000 through 0x04F hold the font
    /// table; ROMs load at 0x200.
    pub memory: Vec<u8>,

    /// Registers V0 to VF.  VF doubles as the flag output of the carry,
    /// borrow, shift and collision operations.
    pub v: Vec<u8>,

    /// The stack of return addresses.
    pub stack: Vec<u16>,

    /// The stack pointer.
    pub sp: u8,

    /// The delay timer.  Counts down one on every cycle until it is zero.
    pub dt: u8,

    /// The sound timer.  Counts down one on every cycle until it is zero;
    /// the tone is on while it is above zero.
    pub st: u8,

    /// The display memory.
    pub gpu: Gpu,

    /// The keypad.
    pub keypad: Keypad,

    /// The last executed operation, for the host's debugging.
    pub last_opcode: u16,

    /// Random number generator feeding the RND operation.
    pub rand: rand::rngs::StdRng,
}

impl View for Cpu {
    type V = CpuV;

    open spec fn view(&self) -> CpuV {
        CpuV {
            i: self.i,
            pc: self.pc,
            memory: self.memory@,
            v: self.v@,
            stack: self.stack@,
            sp: self.sp,
            dt: self.dt,
            st: self.st,
            gpu: self.gpu@,
            keys: self.keypad@,
            last_opcode: self.last_opcode,
        }
    }
}

/// Builds the font table.
fn font_set() -> (font: Vec<u8>)
    ensures
        font@ == spec_font_set(),
{
    let mut font: Vec<u8> = Vec::new();
    font.push(0xF0);
    font.push(0x90);
    font.push(0x90);
    font.push(0x90);
    font.push(0xF0);
    font.push(0x20);
    font.push(0x60);
    font.push(0x20);
    font.push(0x20);
    font.push(0x70);
    font.push(0xF0);
    font.push(0x10);
    font.push(0xF0);
    font.push(0x80);
    font.push(0xF0);
    font.push(0xF0);
    font.push(0x10);
    font.push(0xF0);
    font.push(0x10);
    font.push(0xF0);
    font.push(0x90);
    font.push(0x90);
    font.push(0xF0);
    font.push(0x10);
    font.push(0x10);
    font.push(0xF0);
    font.push(0x80);
    font.push(0xF0);
    font.push(0x10);
    font.push(0xF0);
    font.push(0xF0);
    font.push(0x80);
    font.push(0xF0);
    font.push(0x90);
    font.push(0xF0);
    font.push(0xF0);
    font.push(0x10);
    font.push(0x20);
    font.push(0x40);
    font.push(0x40);
    font.push(0xF0);
    font.push(0x90);
    font.push(0xF0);
    font.push(0x90);
    font.push(0xF0);
    font.push(0xF0);
    font.push(0x90);
    font.push(0xF0);
    font.push(0x10);
    font.push(0xF0);
    font.push(0xF0);
    font.push(0x90);
    font.push(0xF0);
    font.push(0x90);
    font.push(0x90);
    font.push(0xE0);
    font.push(0x90);
    font.push(0xE0);
    font.push(0x90);
    font.push(0xE0);
    font.push(0xF0);
    font.push(0x80);
    font.push(0x80);
    font.push(0x80);
    font.push(0xF0);
    font.push(0xE0);
    font.push(0x90);
    font.push(0x90);
    font.push(0x90);
    font.push(0xE0);
    font.push(0xF0);
    font.push(0x80);
    font.push(0xF0);
    font.push(0x80);
    font.push(0xF0);
    font.push(0xF0);
    font.push(0x80);
    font.push(0xF0);
    font.push(0x80);
    font.push(0x80);
    proof {
        assert(font@ =~= spec_font_set());
    }
    font
}

/// Builds startup memory: the font table followed by zeroes.
fn build_initial_memory() -> (memory: Vec<u8>)
    ensures
        memory@ == initial_memory(),
{
    let mut memory = font_set();
    let mut j: usize = 80;
    while j < MEMORY_LEN
        invariant
            80 <= j <= MEMORY_LEN,
            memory@.len() == j,
            forall|k: int| 0 <= k < 80 ==> memory@[k] == spec_font_set()[k],
            forall|k: int| 80 <= k < j ==> memory@[k] == 0u8,
        decreases MEMORY_LEN - j,
    {
        memory.push(0);
        j = j + 1;
    }
    proof {
        assert(memory@ =~= initial_memory());
    }
    memory
}

/// Builds a zeroed register file.
fn build_zero_regs() -> (v: Vec<u8>)
    ensures
        v@ == zero_regs(),
{
    let mut v: Vec<u8> = Vec::new();
    let mut j: usize = 0;
    while j < 16
        invariant
            j <= 16,
            v@.len() == j,
            forall|k: int| 0 <= k < j ==> v@[k] == 0u8,
        decreases 16 - j,
    {
        v.push(0);
        j = j + 1;
    }
    proof {
        assert(v@ =~= zero_regs());
    }
    v
}

/// Builds a zeroed stack.
fn build_zero_stack() -> (stack: Vec<u16>)
    ensures
        stack@ == zero_stack(),
{
    let mut stack: Vec<u16> = Vec::new();
    let mut j: usize = 0;
    while j < 16
        invariant
            j <= 16,
            stack@.len() == j,
            forall|k: int| 0 <= k < j ==> stack@[k] == 0u16,
        decreases 16 - j,
    {
        stack.push(0);
        j = j + 1;
    }
    proof {
        assert(stack@ =~= zero_stack());
    }
    stack
}

impl Cpu {
    /// A machine is well formed when every component has its fixed size.
    pub open spec fn wf(&self) -> bool {
        wf_view(self@)
    }

    /// Returns a new CPU: font preloaded, program counter at the ROM
    /// origin, everything else zeroed, keypad on the qwerty layout, and a
    /// fixed-seed random generator so that runs are reproducible.
    pub fn new() -> (cpu: Cpu)
        ensures
            cpu.wf(),
            cpu@ == initial_view(),
            cpu.keypad.setting == KeypadSetting::QWERTY,
    {
        let cpu = Cpu {
            i: 0,
            pc: 0x200,
            memory: build_initial_memory(),
            v: build_zero_regs(),
            stack: build_zero_stack(),
            sp: 0,
            dt: 0,
            st: 0,
            gpu: Gpu::new(),
            keypad: Keypad::new(KeypadSetting::QWERTY),
            last_opcode: 0,
            rand: rng_from_seed(0),
        };
        proof {
            assert(cpu@ =~= initial_view());
        }
        cpu
    }

    /// Resets the machine to its startup state.  The keypad layout and the
    /// random generator are kept; the cleared frame is owed to the
    /// renderer, so the pending-redraw flag is raised.
    pub fn reset(&mut self)
        requires
            old(self).wf(),
        ensures
            final(self).wf(),
            final(self).keypad.setting == old(self).keypad.setting,
            final(self)@ == (CpuV {
                gpu: GpuV { grid: blank_grid(), pending: true },
                ..initial_view()
            }),
            final(self).keypad.setting == old(self).keypad.setting,
    {
        self.memory = build_initial_memory();
        self.i = 0;
        self.pc = 0x200;
        self.v = build_zero_regs();
        self.stack = build_zero_stack();
        self.sp = 0;
        self.dt = 0;
        self.st = 0;
        self.keypad.clear();
        self.gpu.clear();
        self.last_opcode = 0;
        proof {
            assert(self@ =~= CpuV {
                gpu: GpuV { grid: blank_grid(), pending: true },
                ..initial_view()
            });
        }
    }

    /// Loads the given ROM into memory at the ROM origin.  An empty ROM
    /// and one that does not fit are rejected, and memory is untouched.
    pub fn load_rom(&mut self, rom: &[u8]) -> (r: Result<(), InputError>)
        requires
            old(self).wf(),
        ensures
            final(self).wf(),
            final(self).keypad.setting == old(self).keypad.setting,
            rom@.len() == 0 ==> r == Err::<(), InputError>(InputError::EmptyRom) && final(self)@
                == old(self)@,
            rom@.len() > MAX_ROM_LEN ==> r == Err::<(), InputError>(InputError::OversizedRom)
                && final(self)@ == old(self)@,
            0 < rom@.len() <= MAX_ROM_LEN ==> r == Ok::<(), InputError>(()) && final(self)@
                == (CpuV { memory: load_rom_memory(old(self)@.memory, rom@), ..old(self)@ }),
            final(self).keypad.setting == old(self).keypad.setting,
    {
        if rom.len() == 0 {
            return Err(InputError::EmptyRom);
        }
        if rom.len() > MAX_ROM_LEN {
            return Err(InputError::OversizedRom);
        }
        let ghost m0 = self.memory@;
        let mut k: usize = 0;
        while k < rom.len()
            invariant
                self.wf(),
                rom@.len() <= MAX_ROM_LEN,
                k <= rom@.len(),
                self.i == old(self).i,
                self.pc == old(self).pc,
                self.v == old(self).v,
                self.stack == old(self).stack,
                self.sp == old(self).sp,
                self.dt == old(self).dt,
                self.st == old(self).st,
                self.gpu == old(self).gpu,
                self.keypad == old(self).keypad,
                self.last_opcode == old(self).last_opcode,
                m0.len() == MEMORY_LEN,
                self.memory@.len() == MEMORY_LEN,
                forall|j: int|
                    0 <= j < MEMORY_LEN && !(ROM_ORIGIN <= j < ROM_ORIGIN + k) ==> self.memory@[j]
                        == m0[j],
                forall|j: int|
                    ROM_ORIGIN <= j < ROM_ORIGIN + k ==> self.memory@[j] == rom@[j - ROM_ORIGIN],
            decreases rom@.len() - k,
        {
            self.memory.set(ROM_ORIGIN + k, rom[k]);
            k = k + 1;
        }
        proof {
            assert(self.memory@ =~= load_rom_memory(m0, rom@));
        }
        Ok(())
    }

    /// Clears the display.
    fn cls(&mut self)
        requires
            old(self).wf(),
            old(self).pc <= 4094,
        ensures
            final(self).wf(),
            final(self).keypad.setting == old(self).keypad.setting,
            final(self)@ == op_cls(old(self)@),
    {
        self.gpu.clear();
        self.pc = self.pc + 2;
    }

    /// Returns from a subroutine.
    fn ret(&mut self) -> (r: Result<(), FaultKind>)
        requires
            old(self).wf(),
            old(self).pc <= 4094,
        ensures
            final(self).wf(),
            final(self).keypad.setting == old(self).keypad.setting,
            final(self)@ == op_ret(old(self)@).s,
            r == fault_result(op_ret(old(self)@)),
    {
        if self.sp == 0 {
            return Err(FaultKind::StackUnderflow);
        }
        self.sp = self.sp - 1;
        self.pc = self.stack[self.sp as usize];
        Ok(())
    }

    /// Jumps to the given address.
    fn jp_addr(&mut self, addr: u16)
        requires
            old(self).wf(),
        ensures
            final(self).wf(),
            final(self).keypad.setting == old(self).keypad.setting,
            final(self)@ == op_jp(old(self)@, addr),
    {
        self.pc = addr;
    }

    /// Calls the subroutine at the given address.
    fn call(&mut self, addr: u16) -> (r: Result<(), FaultKind>)
        requires
            old(self).wf(),
            old(self).pc <= 4094,
        ensures
            final(self).wf(),
            final(self).keypad.setting == old(self).keypad.setting,
            final(self)@ == op_call(old(self)@, addr).s,
            r == fault_result(op_call(old(self)@, addr)),
    {
        if self.sp >= 16 {
            return Err(FaultKind::StackOverflow);
        }
        self.stack.set(self.sp as usize, self.pc + 2);
        self.sp = self.sp + 1;
        self.pc = addr;
        Ok(())
    }

    /// Skips the next instruction if Vx == kk.
    fn se_x_kk(&mut self, x: u8, kk: u8)
        requires
            old(self).wf(),
            x < 16,
            old(self).pc <= 4094,
        ensures
            final(self).wf(),
            final(self).keypad.setting == old(self).keypad.setting,
            final(self)@ == op_se_kk(old(self)@, x, kk),
    {
        self.pc = self.pc + if self.v[x as usize] == kk {
            4
        } else {
            2
        };
    }

    /// Skips the next instruction if Vx != kk.
    fn sne_x_kk(&mut self, x: u8, kk: u8)
        requires
            old(self).wf(),
            x < 16,
            old(self).pc <= 4094,
        ensures
            final(self).wf(),
            final(self).keypad.setting == old(self).keypad.setting,
            final(self)@ == op_sne_kk(old(self)@, x, kk),
    {
        self.pc = self.pc + if self.v[x as usize] != kk {
            4
        } else {
            2
        };
    }

    /// Skips the next instruction if Vx == Vy.
    fn se_x_y(&mut self, x: u8, y: u8)
        requires
            old(self).wf(),
            x < 16,
            y < 16,
            old(self).pc <= 4094,
        ensures
            final(self).wf(),
            final(self).keypad.setting == old(self).keypad.setting,
            final(self)@ == op_se_xy(old(self)@, x, y),
    {
        self.pc = self.pc + if self.v[x as usize] == self.v[y as usize] {
            4
        } else {
            2
        };
    }

    /// Skips the next instruction if Vx != Vy.
    fn sne_x_y(&mut self, x: u8, y: u8)
        requires
            old(self).wf(),
            x < 16,
            y < 16,
            old(self).pc <= 4094,
        ensures
            final(self).wf(),
            final(self).keypad.setting == old(self).keypad.setting,
            final(self)@ == op_sne_xy(old(self)@, x, y),
    {
        self.pc = self.pc + if self.v[x as usize] != self.v[y as usize] {
            4
        } else {
            2
        };
    }

    /// Sets Vx = kk.
    fn ld_x_kk(&mut self, x: u8, kk: u8)
        requires
            old(self).wf(),
            x < 16,
            old(self).pc <= 4094,
        ensures
            final(self).wf(),
            final(self).keypad.setting == old(self).keypad.setting,
            final(self)@ == op_ld_kk(old(self)@, x, kk),
    {
        self.v.set(x as usize, kk);
        self.pc = self.pc + 2;
    }

    /// Sets Vx = Vx + kk, wrapping, with no flag.
    fn add_x_kk(&mut self, x: u8, kk: u8)
        requires
            old(self).wf(),
            x < 16,
            old(self).pc <= 4094,
        ensures
            final(self).wf(),
            final(self).keypad.setting == old(self).keypad.setting,
            final(self)@ == op_add_kk(old(self)@, x, kk),
    {
        let vx = self.v[x as usize] as u16;
        let result = vx + kk as u16;
        self.v.set(x as usize, (result % 256) as u8);
        self.pc = self.pc + 2;
    }

    /// Sets Vx = Vy.
    fn ld_x_y(&mut self, x: u8, y: u8)
        requires
            old(self).wf(),
            x < 16,
            y < 16,
            old(self).pc <= 4094,
        ensures
            final(self).wf(),
            final(self).keypad.setting == old(self).keypad.setting,
            final(self)@ == op_ld_xy(old(self)@, x, y),
    {
        let vy = self.v[y as usize];
        self.v.set(x as usize, vy);
        self.pc = self.pc + 2;
    }

    /// Sets Vx = Vx | Vy.
    fn or(&mut self, x: u8, y: u8)
        requires
            old(self).wf(),
            x < 16,
            y < 16,
            old(self).pc <= 4094,
        ensures
            final(self).wf(),
            final(self).keypad.setting == old(self).keypad.setting,
            final(self)@ == op_or(old(self)@, x, y),
    {
        let r = self.v[x as usize] | self.v[y as usize];
        self.v.set(x as usize, r);
        self.pc = self.pc + 2;
    }

    /// Sets Vx = Vx & Vy.
    fn and(&mut self, x: u8, y: u8)
        requires
            old(self).wf(),
            x < 16,
            y < 16,
            old(self).pc <= 4094,
        ensures
            final(self).wf(),
            final(self).keypad.setting == old(self).keypad.setting,
            final(self)@ == op_and(old(self)@, x, y),
    {
        let r = self.v[x as usize] & self.v[y as usize];
        self.v.set(x as usize, r);
        self.pc = self.pc + 2;
    }

    /// Sets Vx = Vx ^ Vy.
    fn xor(&mut self, x: u8, y: u8)
        requires
            old(self).wf(),
            x < 16,
            y < 16,
            old(self).pc <= 4094,
        ensures
            final(self).wf(),
            final(self).keypad.setting == old(self).keypad.setting,
            final(self)@ == op_xor(old(self)@, x, y),
    {
        let r = self.v[x as usize] ^ self.v[y as usize];
        self.v.set(x as usize, r);
        self.pc = self.pc + 2;
    }

    /// Sets Vx = Vx + Vy and VF = carry; only the low 8 bits of the sum
    /// reach Vx.
    fn add_x_y(&mut self, x: u8, y: u8)
        requires
            old(self).wf(),
            x < 16,
            y < 16,
            old(self).pc <= 4094,
        ensures
            final(self).wf(),
            final(self).keypad.setting == old(self).keypad.setting,
            final(self)@ == op_add_xy(old(self)@, x, y),
    {
        let vx = self.v[x as usize] as u16;
        let vy = self.v[y as usize] as u16;
        let result = vx + vy;
        self.v.set(x as usize, (result % 256) as u8);
        let flag: u8 = if result > 0xFF {
            1
        } else {
            0
        };
        self.v.set(15, flag);
        self.pc = self.pc + 2;
    }

    /// Sets Vx = Vx - Vy, wrapping, and VF = not-borrow: 1 exactly when
    /// Vx > Vy.
    fn sub_x_y(&mut self, x: u8, y: u8)
        requires
            old(self).wf(),
            x < 16,
            y < 16,
            old(self).pc <= 4094,
        ensures
            final(self).wf(),
            final(self).keypad.setting == old(self).keypad.setting,
            final(self)@ == op_sub_xy(old(self)@, x, y),
    {
        let vx = self.v[x as usize];
        let vy = self.v[y as usize];
        self.v.set(x as usize, vx.wrapping_sub(vy));
        let flag: u8 = if vx > vy {
            1
        } else {
            0
        };
        self.v.set(15, flag);
        self.pc = self.pc + 2;
    }

    /// Sets Vx = Vy - Vx, wrapping, and VF = 1 exactly when Vy > Vx.
    fn subn(&mut self, x: u8, y: u8)
        requires
            old(self).wf(),
            x < 16,
            y < 16,
            old(self).pc <= 4094,
        ensures
            final(self).wf(),
            final(self).keypad.setting == old(self).keypad.setting,
            final(self)@ == op_subn(old(self)@, x, y),
    {
        let vx = self.v[x as usize];
        let vy = self.v[y as usize];
        self.v.set(x as usize, vy.wrapping_sub(vx));
        let flag: u8 = if vy > vx {
            1
        } else {
            0
        };
        self.v.set(15, flag);
        self.pc = self.pc + 2;
    }

    /// Shifts Vx right by one; VF = the bit shifted out.
    fn shr(&mut self, x: u8)
        requires
            old(self).wf(),
            x < 16,
            old(self).pc <= 4094,
        ensures
            final(self).wf(),
            final(self).keypad.setting == old(self).keypad.setting,
            final(self)@ == op_shr(old(self)@, x),
    {
        let vx = self.v[x as usize];
        self.v.set(x as usize, vx >> 1);
        self.v.set(15, vx & 1);
        self.pc = self.pc + 2;
    }

    /// Shifts Vx left by one; VF = the bit shifted out.
    fn shl(&mut self, x: u8)
        requires
            old(self).wf(),
            x < 16,
            old(self).pc <= 4094,
        ensures
            final(self).wf(),
            final(self).keypad.setting == old(self).keypad.setting,
            final(self)@ == op_shl(old(self)@, x),
    {
        let vx = self.v[x as usize];
        self.v.set(x as usize, vx << 1);
        self.v.set(15, vx >> 7);
        self.pc = self.pc + 2;
    }

    /// Sets I = addr.
    fn ld_i_addr(&mut self, addr: u16)
        requires
            old(self).wf(),
            old(self).pc <= 4094,
        ensures
            final(self).wf(),
            final(self).keypad.setting == old(self).keypad.setting,
            final(self)@ == op_ld_i(old(self)@, addr),
    {
        self.i = addr;
        self.pc = self.pc + 2;
    }

    /// Jumps to addr + V0.
    fn jp_v0_addr(&mut self, addr: u16)
        requires
            old(self).wf(),
            addr < 4096,
        ensures
            final(self).wf(),
            final(self).keypad.setting == old(self).keypad.setting,
            final(self)@ == op_jp_v0(old(self)@, addr),
    {
        self.pc = addr + self.v[0] as u16;
    }

    /// Sets Vx = random byte AND kk.
    fn rnd(&mut self, x: u8, kk: u8)
        requires
            old(self).wf(),
            x < 16,
            old(self).pc <= 4094,
        ensures
            final(self).wf(),
            final(self).keypad.setting == old(self).keypad.setting,
            exists|b: u8| final(self)@ == op_rnd(old(self)@, x, kk, b),
    {
        let word = next_word(&mut self.rand);
        let b = (word % 256) as u8;
        self.v.set(x as usize, b & kk);
        self.pc = self.pc + 2;
        proof {
            assert(self@ == op_rnd(old(self)@, x, kk, b));
        }
    }

    /// Skips the next instruction if key Vx (low nibble) is pressed.
    fn skp(&mut self, x: u8)
        requires
            old(self).wf(),
            x < 16,
            old(self).pc <= 4094,
        ensures
            final(self).wf(),
            final(self).keypad.setting == old(self).keypad.setting,
            final(self)@ == op_skp(old(self)@, x),
    {
        let key = self.v[x as usize] % 16;
        self.pc = self.pc + if self.keypad.is_key_pressed(key) {
            4
        } else {
            2
        };
    }

    /// Skips the next instruction if key Vx (low nibble) is not pressed.
    fn sknp(&mut self, x: u8)
        requires
            old(self).wf(),
            x < 16,
            old(self).pc <= 4094,
        ensures
            final(self).wf(),
            final(self).keypad.setting == old(self).keypad.setting,
            final(self)@ == op_sknp(old(self)@, x),
    {
        let key = self.v[x as usize] % 16;
        self.pc = self.pc + if self.keypad.is_key_pressed(key) {
            2
        } else {
            4
        };
    }

    /// Sets Vx = the delay timer value.
    fn ld_get_dt(&mut self, x: u8)
        requires
            old(self).wf(),
            x < 16,
            old(self).pc <= 4094,
        ensures
            final(self).wf(),
            final(self).keypad.setting == old(self).keypad.setting,
            final(self)@ == op_ld_get_dt(old(self)@, x),
    {
        let dt = self.dt;
        self.v.set(x as usize, dt);
        self.pc = self.pc + 2;
    }

    /// Waits for a key press: if some key is pressed, stores its lowest
    /// index in Vx and advances; else leaves the machine as it is, so the
    /// same instruction executes again next cycle.
    fn ld_key(&mut self, x: u8)
        requires
            old(self).wf(),
            x < 16,
            old(self).pc <= 4094,
        ensures
            final(self).wf(),
            final(self).keypad.setting == old(self).keypad.setting,
            final(self)@ == op_ld_key(old(self)@, x),
    {
        match self.keypad.pressed() {
            Some(key) => {
                self.v.set(x as usize, key);
                self.pc = self.pc + 2;
            },
            None => {},
        }
    }

    /// Sets the delay timer to Vx.
    fn ld_set_dt(&mut self, x: u8)
        requires
            old(self).wf(),
            x < 16,
            old(self).pc <= 4094,
        ensures
            final(self).wf(),
            final(self).keypad.setting == old(self).keypad.setting,
            final(self)@ == op_ld_set_dt(old(self)@, x),
    {
        self.dt = self.v[x as usize];
        self.pc = self.pc + 2;
    }

    /// Sets the sound timer to Vx.
    fn ld_set_st(&mut self, x: u8)
        requires
            old(self).wf(),
            x < 16,
            old(self).pc <= 4094,
        ensures
            final(self).wf(),
            final(self).keypad.setting == old(self).keypad.setting,
            final(self)@ == op_ld_set_st(old(self)@, x),
    {
        self.st = self.v[x as usize];
        self.pc = self.pc + 2;
    }

    /// Sets I = I + Vx, wrapping at 16 bits, and VF = 1 exactly when the
    /// sum exceeds 0xFFF.
    fn add_i_vx(&mut self, x: u8)
        requires
            old(self).wf(),
            x < 16,
            old(self).pc <= 4094,
        ensures
            final(self).wf(),
            final(self).keypad.setting == old(self).keypad.setting,
            final(self)@ == op_add_i(old(self)@, x),
    {
        let sum = self.i as u32 + self.v[x as usize] as u32;
        self.i = (sum % 0x10000) as u16;
        let flag: u8 = if sum > 0xFFF {
            1
        } else {
            0
        };
        self.v.set(15, flag);
        self.pc = self.pc + 2;
    }

    /// Sets I = the address of digit Vx's font glyph.
    fn ld_sprite(&mut self, x: u8)
        requires
            old(self).wf(),
            x < 16,
            old(self).pc <= 4094,
        ensures
            final(self).wf(),
            final(self).keypad.setting == old(self).keypad.setting,
            final(self)@ == op_ld_sprite(old(self)@, x),
    {
        self.i = self.v[x as usize] as u16 * 5;
        self.pc = self.pc + 2;
    }

    /// Blits the n-byte sprite at memory[I..] to (Vx, Vy) and sets VF to
    /// the collision flag.
    fn drw(&mut self, x: u8, y: u8, n: u8) -> (r: Result<(), FaultKind>)
        requires
            old(self).wf(),
            x < 16,
            y < 16,
            n < 16,
            old(self).pc <= 4094,
        ensures
            final(self).wf(),
            final(self).keypad.setting == old(self).keypad.setting,
            final(self)@ == op_drw(old(self)@, x, y, n).s,
            r == fault_result(op_drw(old(self)@, x, y, n)),
    {
        let base = self.i as usize;
        if n > 0 && base + n as usize > MEMORY_LEN {
            return Err(FaultKind::AddressOutOfRange);
        }
        let mut bytes: Vec<u8> = Vec::new();
        let mut k: usize = 0;
        while k < n as usize
            invariant
                self.wf(),
                base == self.i as usize,
                n < 16,
                k <= n as usize,
                n > 0 ==> base + n as usize <= MEMORY_LEN,
                bytes@.len() == k,
                forall|j: int| 0 <= j < k ==> bytes@[j] == self.memory@[base + j],
            decreases n as usize - k,
        {
            bytes.push(self.memory[base + k]);
            k = k + 1;
        }
        proof {
            if n == 0 {
                assert(bytes@ =~= Seq::<u8>::empty());
            } else {
                assert(bytes@ =~= self.memory@.subrange(base as int, base as int + n as int));
            }
        }
        let vx = self.v[x as usize];
        let vy = self.v[y as usize];
        let collision = self.gpu.draw(vx, vy, bytes);
        let flag: u8 = if collision {
            1
        } else {
            0
        };
        self.v.set(15, flag);
        self.pc = self.pc + 2;
        Ok(())
    }

    /// Writes the decimal digits of Vx to memory[I], memory[I+1] and
    /// memory[I+2], hundreds first.
    fn ld_bcd(&mut self, x: u8) -> (r: Result<(), FaultKind>)
        requires
            old(self).wf(),
            x < 16,
            old(self).pc <= 4094,
        ensures
            final(self).wf(),
            final(self).keypad.setting == old(self).keypad.setting,
            final(self)@ == op_ld_bcd(old(self)@, x).s,
            r == fault_result(op_ld_bcd(old(self)@, x)),
    {
        let index = self.i as usize;
        if index + 2 >= MEMORY_LEN {
            return Err(FaultKind::AddressOutOfRange);
        }
        let dec = self.v[x as usize];
        self.memory.set(index, dec / 100);
        self.memory.set(index + 1, (dec % 100) / 10);
        self.memory.set(index + 2, dec % 10);
        self.pc = self.pc + 2;
        Ok(())
    }

    /// Stores V0 through Vx inclusive into memory starting at I.
    fn ld_set_memory(&mut self, x: u8) -> (r: Result<(), FaultKind>)
        requires
            old(self).wf(),
            x < 16,
            old(self).pc <= 4094,
        ensures
            final(self).wf(),
            final(self).keypad.setting == old(self).keypad.setting,
            final(self)@ == op_ld_set_memory(old(self)@, x).s,
            r == fault_result(op_ld_set_memory(old(self)@, x)),
    {
        let base = self.i as usize;
        if base + x as usize >= MEMORY_LEN {
            return Err(FaultKind::AddressOutOfRange);
        }
        let ghost m0 = self.memory@;
        let mut k: usize = 0;
        while k <= x as usize
            invariant
                self.wf(),
                base == self.i as usize,
                x < 16,
                base + (x as usize) < MEMORY_LEN,
                k <= (x as usize) + 1,
                self.i == old(self).i,
                self.pc == old(self).pc,
                self.v == old(self).v,
                self.stack == old(self).stack,
                self.sp == old(self).sp,
                self.dt == old(self).dt,
                self.st == old(self).st,
                self.gpu == old(self).gpu,
                self.keypad == old(self).keypad,
                self.last_opcode == old(self).last_opcode,
                m0.len() == MEMORY_LEN,
                self.memory@.len() == MEMORY_LEN,
                forall|j: int|
                    0 <= j < MEMORY_LEN && !(base <= j < base + k) ==> self.memory@[j] == m0[j],
                forall|j: int| base <= j < base + k ==> self.memory@[j] == self.v@[j - base],
            decreases x as int + 1 - k,
        {
            let vk = self.v[k];
            self.memory.set(base + k, vk);
            k = k + 1;
        }
        self.pc = self.pc + 2;
        proof {
            assert(self.memory@ =~= op_ld_set_memory(old(self)@, x).s.memory);
        }
        Ok(())
    }

    /// Loads memory starting at I into V0 through Vx inclusive.
    fn ld_get_memory(&mut self, x: u8) -> (r: Result<(), FaultKind>)
        requires
            old(self).wf(),
            x < 16,
            old(self).pc <= 4094,
        ensures
            final(self).wf(),
            final(self).keypad.setting == old(self).keypad.setting,
            final(self)@ == op_ld_get_memory(old(self)@, x).s,
            r == fault_result(op_ld_get_memory(old(self)@, x)),
    {
        let base = self.i as usize;
        if base + x as usize >= MEMORY_LEN {
            return Err(FaultKind::AddressOutOfRange);
        }
        let ghost v0 = self.v@;
        let mut k: usize = 0;
        while k <= x as usize
            invariant
                self.wf(),
                base == self.i as usize,
                x < 16,
                base + (x as usize) < MEMORY_LEN,
                k <= (x as usize) + 1,
                self.i == old(self).i,
                self.pc == old(self).pc,
                self.memory == old(self).memory,
                self.stack == old(self).stack,
                self.sp == old(self).sp,
                self.dt == old(self).dt,
                self.st == old(self).st,
                self.gpu == old(self).gpu,
                self.keypad == old(self).keypad,
                self.last_opcode == old(self).last_opcode,
                v0.len() == 16,
                self.v@.len() == 16,
                forall|j: int| 0 <= j < 16 && !(0 <= j < k) ==> self.v@[j] == v0[j],
                forall|j: int| 0 <= j < k ==> self.v@[j] == self.memory@[base + j],
            decreases x as int + 1 - k,
        {
            let mk = self.memory[base + k];
            self.v.set(k, mk);
            k = k + 1;
        }
        self.pc = self.pc + 2;
        proof {
            assert(self.v@ =~= op_ld_get_memory(old(self)@, x).s.v);
        }
        Ok(())
    }

    /// Executes an unmapped opcode: advance past it and touch nothing.
    fn noop(&mut self)
        requires
            old(self).wf(),
            old(self).pc <= 4094,
        ensures
            final(self).wf(),
            final(self).keypad.setting == old(self).keypad.setting,
            final(self)@ == op_noop(old(self)@),
    {
        self.pc = self.pc + 2;
    }

    /// The tone-on signal for the audio collaborator: true exactly while
    /// the sound timer is above zero.
    pub fn tone_on(&self) -> (on: bool)
        ensures
            on == (self@.st > 0),
    {
        self.st > 0
    }

    /// Executes the given opcode: decodes its nibbles and dispatches to
    /// exactly one operation of the table.
    fn execute_opcode(&mut self, opcode: u16) -> (r: Result<(), FaultKind>)
        requires
            old(self).wf(),
            old(self).pc <= 4094,
        ensures
            final(self).wf(),
            final(self).keypad.setting == old(self).keypad.setting,
            !is_rnd(opcode) ==> final(self)@ == spec_exec_op(old(self)@, opcode, 0).s && r
                == fault_result(spec_exec_op(old(self)@, opcode, 0)),
            is_rnd(opcode) ==> (exists|b: u8|
                final(self)@ == spec_exec_op(old(self)@, opcode, b).s && r == fault_result(
                    spec_exec_op(old(self)@, opcode, b),
                )),
    {
        proof {
            lemma_decode_bounds(opcode);
            assert((opcode >> 12) & 0xF < 16 && (opcode >> 8) & 0xF < 16 && (opcode >> 4) & 0xF
                < 16 && (opcode & 0xF) < 16 && (opcode & 0xFF) < 256) by (bit_vector);
        }
        let nibbles = (
            ((opcode >> 12) & 0xF) as u8,
            ((opcode >> 8) & 0xF) as u8,
            ((opcode >> 4) & 0xF) as u8,
            (opcode & 0xF) as u8,
        );
        let x = nibbles.1;
        let y = nibbles.2;
        let n = nibbles.3;
        let kk = (opcode & 0xFF) as u8;
        let addr = opcode & 0xFFF;
        let r: Result<(), FaultKind> = match nibbles {
            (0x00, 0x00, 0x0E, 0x00) => {
                self.cls();
                Ok(())
            },
            (0x00, 0x00, 0x0E, 0x0E) => self.ret(),
            (0x01, _, _, _) => {
                self.jp_addr(addr);
                Ok(())
            },
            (0x02, _, _, _) => self.call(addr),
            (0x03, _, _, _) => {
                self.se_x_kk(x, kk);
                Ok(())
            },
            (0x04, _, _, _) => {
                self.sne_x_kk(x, kk);
                Ok(())
            },
            (0x05, _, _, 0x00) => {
                self.se_x_y(x, y);
                Ok(())
            },
            (0x06, _, _, _) => {
                self.ld_x_kk(x, kk);
                Ok(())
            },
            (0x07, _, _, _) => {
                self.add_x_kk(x, kk);
                Ok(())
            },
            (0x08, _, _, 0x00) => {
                self.ld_x_y(x, y);
                Ok(())
            },
            (0x08, _, _, 0x01) => {
                self.or(x, y);
                Ok(())
            },
            (0x08, _, _, 0x02) => {
                self.and(x, y);
                Ok(())
            },
            (0x08, _, _, 0x03) => {
                self.xor(x, y);
                Ok(())
            },
            (0x08, _, _, 0x04) => {
                self.add_x_y(x, y);
                Ok(())
            },
            (0x08, _, _, 0x05) => {
                self.sub_x_y(x, y);
                Ok(())
            },
            (0x08, _, _, 0x06) => {
                self.shr(x);
                Ok(())
            },
            (0x08, _, _, 0x07) => {
                self.subn(x, y);
                Ok(())
            },
            (0x08, _, _, 0x0E) => {
                self.shl(x);
                Ok(())
            },
            (0x09, _, _, 0x00) => {
                self.sne_x_y(x, y);
                Ok(())
            },
            (0x0A, _, _, _) => {
                self.ld_i_addr(addr);
                Ok(())
            },
            (0x0B, _, _, _) => {
                self.jp_v0_addr(addr);
                Ok(())
            },
            (0x0C, _, _, _) => {
                self.rnd(x, kk);
                proof {
                    let b = choose|b: u8| self@ == op_rnd(old(self)@, x, kk, b);
                    assert(self@ == op_rnd(old(self)@, x, kk, b));
                    assert(self@ == spec_exec_op(old(self)@, opcode, b).s);
                    assert(fault_result(spec_exec_op(old(self)@, opcode, b)) == Ok::<
                        (),
                        FaultKind,
                    >(()));
                    assert(exists|b: u8|
                        self@ == spec_exec_op(old(self)@, opcode, b).s && Ok::<(), FaultKind>(())
                            == fault_result(spec_exec_op(old(self)@, opcode, b)));
                }
                Ok(())
            },
            (0x0D, _, _, _) => self.drw(x, y, n),
            (0x0E, _, 0x09, 0x0E) => {
                self.skp(x);
                Ok(())
            },
            (0x0E, _, 0x0A, 0x01) => {
                self.sknp(x);
                Ok(())
            },
            (0x0F, _, 0x00, 0x07) => {
                self.ld_get_dt(x);
                Ok(())
            },
            (0x0F, _, 0x00, 0x0A) => {
                self.ld_key(x);
                Ok(())
            },
            (0x0F, _, 0x01, 0x05) => {
                self.ld_set_dt(x);
                Ok(())
            },
            (0x0F, _, 0x01, 0x08) => {
                self.ld_set_st(x);
                Ok(())
            },
            (0x0F, _, 0x01, 0x0E) => {
                self.add_i_vx(x);
                Ok(())
            },
            (0x0F, _, 0x02, 0x09) => {
                self.ld_sprite(x);
                Ok(())
            },
            (0x0F, _, 0x03, 0x03) => self.ld_bcd(x),
            (0x0F, _, 0x05, 0x05) => self.ld_set_memory(x),
            (0x0F, _, 0x06, 0x05) => self.ld_get_memory(x),
            (_, _, _, _) => {
                self.noop();
                Ok(())
            },
        };
        r
    }

    /// Executes one cycle: fetch the big-endian opcode at the program
    /// counter, latch it, execute it, then decay both timers.  A fault
    /// aborts the cycle: the result reports the failing opcode, the
    /// program counter and the fault kind, and the rest of the state is
    /// left as it was.
    pub fn execute_cycle(&mut self) -> (r: Result<(), Fault>)
        requires
            old(self).wf(),
        ensures
            final(self).wf(),
            final(self).keypad.setting == old(self).keypad.setting,
            !cycle_draws_random(old(self)@) ==> cycle_result(old(self)@, final(self)@, r, 0),
            cycle_draws_random(old(self)@) ==> (exists|b: u8|
                cycle_result(old(self)@, final(self)@, r, b)),
    {
        if self.pc as usize + 1 >= MEMORY_LEN {
            return Err(Fault { kind: FaultKind::AddressOutOfRange, opcode: 0, pc: self.pc });
        }
        let part1 = self.memory[self.pc as usize] as u16;
        let part2 = self.memory[self.pc as usize + 1] as u16;
        let opcode = part1 * 256 + part2;
        proof {
            assert(opcode == fetch(old(self)@));
        }
        self.last_opcode = opcode;
        let ghost fetched = self@;
        let step = self.execute_opcode(opcode);
        let ghost mid = self@;
        match step {
            Ok(()) => {
                if self.dt > 0 {
                    self.dt = self.dt - 1;
                }
                if self.st > 0 {
                    self.st = self.st - 1;
                }
                proof {
                    assert(self@ =~= decay_timers(mid));
                    if cycle_draws_random(old(self)@) {
                        let b = choose|b: u8|
                            mid == spec_exec_op(fetched, opcode, b).s && step == fault_result(
                                spec_exec_op(fetched, opcode, b),
                            );
                        assert(cycle_result(old(self)@, self@, Ok::<(), Fault>(()), b));
                    } else {
                        assert(cycle_result(old(self)@, self@, Ok::<(), Fault>(()), 0));
                    }
                }
                Ok(())
            },
            Err(kind) => {
                let f = Fault { kind, opcode, pc: self.pc };
                proof {
                    if cycle_draws_random(old(self)@) {
                        let b = choose|b: u8|
                            mid == spec_exec_op(fetched, opcode, b).s && step == fault_result(
                                spec_exec_op(fetched, opcode, b),
                            );
                        assert(cycle_result(old(self)@, self@, Err::<(), Fault>(f), b));
                    } else {
                        assert(cycle_result(old(self)@, self@, Err::<(), Fault>(f), 0));
                    }
                }
                Err(f)
            },
        }
    }
}

/// CALL then RET with a free stack slot: the call completes, jumps to the
/// subroutine and grows the stack by one; the return completes, restores
/// the stack pointer, and moves the program counter to the instruction
/// immediately after the CALL.  Only the used stack slot differs from the
/// original state.  This holds for every nesting depth from 1 to 16, since
/// the stack pointer is only required to have one slot free.
pub proof fn lemma_call_ret_round_trip(s: CpuV, addr: u16)
    requires
        wf_view(s),
        s.sp < 16,
        s.pc as int + 2 <= 0xFFFF,
    ensures
        (op_call(s, addr).fault is None),
        op_call(s, addr).s.pc == addr,
        op_call(s, addr).s.sp == s.sp + 1,
        (op_ret(op_call(s, addr).s).fault is None),
        op_ret(op_call(s, addr).s).s == (CpuV {
            pc: (s.pc + 2) as u16,
            stack: s.stack.update(s.sp as int, (s.pc + 2) as u16),
            ..s
        }),
{
    assert(op_ret(op_call(s, addr).s).s =~= (CpuV {
        pc: (s.pc + 2) as u16,
        stack: s.stack.update(s.sp as int, (s.pc + 2) as u16),
        ..s
    }));
}

/// A seventeenth nested CALL finds every stack slot in use: it is a
/// stack-overflow fault and changes nothing.
pub proof fn lemma_call_stack_overflow(s: CpuV, addr: u16)
    requires
        s.sp >= 16,
    ensures
        op_call(s, addr) == op_fault(s, FaultKind::StackOverflow),
{
}

/// A RET with an empty stack is a stack-underflow fault and changes
/// nothing.
pub proof fn lemma_ret_stack_underflow(s: CpuV)
    requires
        s.sp == 0,
    ensures
        op_ret(s) == op_fault(s, FaultKind::StackUnderflow),
{
}

/// Timer decay: any completed cycle whose instruction is not LD DT, Vx
/// decrements a nonzero delay timer by exactly one, and leaves a zero
/// delay timer at zero, so the timer never goes negative.
pub proof fn lemma_delay_timer_decay(s: CpuV, rnd: u8)
    requires
        (spec_cycle(s, rnd).fault is None),
        !(nib1(fetch(s)) == 0x0F && nib_y(fetch(s)) == 0x01 && nib_n(fetch(s)) == 0x05),
    ensures
        spec_cycle(s, rnd).s.dt == if s.dt > 0 {
            s.dt - 1
        } else {
            0
        },
{
}

/// Timer decay: any completed cycle whose instruction is not LD ST, Vx
/// decrements a nonzero sound timer by exactly one, and leaves a zero
/// sound timer at zero.
pub proof fn lemma_sound_timer_decay(s: CpuV, rnd: u8)
    requires
        (spec_cycle(s, rnd).fault is None),
        !(nib1(fetch(s)) == 0x0F && nib_y(fetch(s)) == 0x01 && nib_n(fetch(s)) == 0x08),
    ensures
        spec_cycle(s, rnd).s.st == if s.st > 0 {
            s.st - 1
        } else {
            0
        },
{
}

} // verus!
