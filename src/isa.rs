use vstd::prelude::*;

verus! {

/// `x` reduced to 32 bits, two's complement.
pub open spec fn wrap32(x: int) -> u32 {
    (x % 0x1_0000_0000) as u32
}

/// Source register field, bits 25 to 21.
pub open spec fn field_s(op: u32) -> int {
    ((op >> 21u32) & 31u32) as int
}

/// Second source or I-form destination field, bits 20 to 16.
pub open spec fn field_t(op: u32) -> int {
    ((op >> 16u32) & 31u32) as int
}

/// R-form destination field, bits 15 to 11.
pub open spec fn field_d(op: u32) -> int {
    ((op >> 11u32) & 31u32) as int
}

/// Shift amount field, bits 10 to 6.
pub open spec fn field_sh(op: u32) -> u32 {
    (op >> 6u32) & 31u32
}

/// The 16-bit immediate, zero-extended.
pub open spec fn imm16(op: u32) -> int {
    op as int % 0x1_0000
}

/// The 16-bit immediate, sign-extended.
pub open spec fn imm_signed(op: u32) -> int {
    if imm16(op) >= 0x8000 {
        imm16(op) - 0x1_0000
    } else {
        imm16(op)
    }
}

/// The 26-bit jump field.
pub open spec fn addr26(op: u32) -> int {
    op as int % 0x400_0000
}

/// The 26-bit jump field, sign-extended and scaled to a byte offset.
pub open spec fn jump_offset(op: u32) -> int {
    4 * if addr26(op) >= 0x200_0000 {
        addr26(op) - 0x400_0000
    } else {
        addr26(op)
    }
}

/// Register value read as a signed 32-bit integer.
pub open spec fn signed(x: u32) -> int {
    (x as i32) as int
}

/// A register value read as signed is the value itself below `2^31`, else
/// the value less `2^32`.
pub proof fn lemma_signed(x: u32)
    ensures
        signed(x) == if x < 0x8000_0000 {
            x as int
        } else {
            x - 0x1_0000_0000
        },
{
    assert((x < 0x8000_0000u32 ==> (x as i32) as i64 == x as i64) && (x >= 0x8000_0000u32 ==> (x
        as i32) as i64 == (x as i64) - 0x1_0000_0000i64)) by (bit_vector);
}

/// Register fields name one of the 32 registers.
pub proof fn lemma_fields(op: u32)
    ensures
        0 <= field_s(op) < 32,
        0 <= field_t(op) < 32,
        0 <= field_d(op) < 32,
{
    assert((op >> 21u32) & 31u32 < 32 && (op >> 16u32) & 31u32 < 32 && (op >> 11u32) & 31u32 < 32)
        by (bit_vector);
}

pub open spec fn abs(x: int) -> int {
    if x < 0 {
        -x
    } else {
        x
    }
}

/// Division rounding toward zero.
pub open spec fn trunc_div(a: int, b: int) -> int {
    if (a < 0) == (b < 0) {
        abs(a) / abs(b)
    } else {
        -(abs(a) / abs(b))
    }
}

/// Remainder of the division rounding toward zero; it has the sign of `a`.
pub open spec fn trunc_rem(a: int, b: int) -> int {
    if a < 0 {
        -(abs(a) % abs(b))
    } else {
        abs(a) % abs(b)
    }
}

/// Width of a memory access.
#[derive(Clone, Copy, Debug, PartialEq, Eq, Structural)]
pub enum Width {
    Byte,
    Half,
    Word,
}

/// What one instruction does, once decoded against the registers.
#[derive(Clone, Copy, Debug, PartialEq, Eq, Structural)]
pub enum Effect {
    /// Write `value` to general register `r`.
    SetReg { r: usize, value: u32 },
    /// Write both halves of a product or a quotient and remainder.
    SetHiLo { hi: u32, lo: u32 },
    SetHi { value: u32 },
    SetLo { value: u32 },
    /// Continue at `target`.
    Jump { target: u32 },
    /// Write the address of the next instruction to register 31 and continue
    /// at `target`.
    Link { target: u32 },
    /// Nothing besides moving on to the next instruction.
    Proceed,
    /// Load from `address` into register `r`, sign-extending when `signed`.
    Load { r: usize, address: u32, width: Width, signed: bool },
    /// Store the low `width` bytes of `value` at `address`.
    Store { address: u32, value: u32, width: Width },
    /// System call with id `call_id`.
    Trap { call_id: u32 },
    /// Arithmetic fault, such as a division by zero.
    ArithmeticFault { id: u32 },
    InvalidOpcode,
}

impl Effect {
    /// Every register that the effect names exists.
    pub open spec fn regs_in_range(&self) -> bool {
        match *self {
            Effect::SetReg { r, value } => r < 32,
            Effect::Load { r, address, width, signed } => r < 32,
            _ => true,
        }
    }
}

/// `1` when `b` holds, else `0`.
pub open spec fn flag(b: bool) -> u32 {
    if b {
        1
    } else {
        0
    }
}

/// The effect of an R-form instruction (primary opcode 0); `pc` is the
/// address of the next instruction. Jump-and-link-register writes the link
/// before it reads its target register.
pub open spec fn r_effect(op: u32, pc: u32, reg: Seq<u32>, hi: u32, lo: u32) -> Effect {
    let s = reg[field_s(op)];
    let t = reg[field_t(op)];
    let d = field_d(op) as usize;
    let sh = field_sh(op);
    match op & 63u32 {
        0x20u32 | 0x21u32 => Effect::SetReg { r: d, value: wrap32(s + t) },
        0x22u32 | 0x23u32 => Effect::SetReg { r: d, value: wrap32(s - t) },
        0x24u32 => Effect::SetReg { r: d, value: s & t },
        0x25u32 => Effect::SetReg { r: d, value: s | t },
        0x26u32 => Effect::SetReg { r: d, value: s ^ t },
        0x27u32 => Effect::SetReg { r: d, value: !(s | t) },
        0x00u32 => Effect::SetReg { r: d, value: t << sh },
        0x04u32 => Effect::SetReg { r: d, value: t << (s & 31u32) },
        0x02u32 => Effect::SetReg { r: d, value: t >> sh },
        0x06u32 => Effect::SetReg { r: d, value: t >> (s & 31u32) },
        0x03u32 => Effect::SetReg { r: d, value: ((t as i32) >> sh) as u32 },
        0x07u32 => Effect::SetReg { r: d, value: ((t as i32) >> (s & 31u32)) as u32 },
        0x2Au32 => Effect::SetReg { r: d, value: flag(signed(s) < signed(t)) },
        0x29u32 => Effect::SetReg { r: d, value: flag(s < t) },
        0x18u32 => {
            let p = (signed(s) * signed(t)) as u64;
            Effect::SetHiLo { hi: (p / 0x1_0000_0000) as u32, lo: (p % 0x1_0000_0000) as u32 }
        },
        0x19u32 => {
            let p = s as int * t as int;
            Effect::SetHiLo { hi: (p / 0x1_0000_0000) as u32, lo: (p % 0x1_0000_0000) as u32 }
        },
        0x1Au32 => {
            let v = reg[field_d(op)];
            if v == 0 {
                Effect::ArithmeticFault { id: 0 }
            } else {
                Effect::SetHiLo {
                    hi: wrap32(trunc_rem(signed(s), signed(v))),
                    lo: wrap32(trunc_div(signed(s), signed(v))),
                }
            }
        },
        0x1Bu32 => {
            let v = reg[field_d(op)];
            if v == 0 {
                Effect::ArithmeticFault { id: 0 }
            } else {
                Effect::SetHiLo { hi: (s % v) as u32, lo: (s / v) as u32 }
            }
        },
        0x08u32 => Effect::Jump { target: s },
        0x09u32 => Effect::Link { target: if field_s(op) == 31 { pc } else { s } },
        0x10u32 => Effect::SetReg { r: d, value: hi },
        0x12u32 => Effect::SetReg { r: d, value: lo },
        0x11u32 => Effect::SetHi { value: s },
        0x13u32 => Effect::SetLo { value: s },
        _ => Effect::InvalidOpcode,
    }
}

/// Effective address of a load or store: base register plus the immediate
/// scaled by four.
pub open spec fn mem_address(op: u32, reg: Seq<u32>) -> u32 {
    wrap32(reg[field_s(op)] + 4 * imm_signed(op))
}

/// Destination of a taken branch: the next instruction's address plus the
/// immediate scaled by four.
pub open spec fn branch_target(op: u32, pc: u32) -> u32 {
    wrap32(pc + 4 * imm_signed(op))
}

pub open spec fn branch(taken: bool, op: u32, pc: u32) -> Effect {
    if taken {
        Effect::Jump { target: branch_target(op, pc) }
    } else {
        Effect::Proceed
    }
}

/// The effect of instruction `op`, where `pc` is the address of the next
/// instruction.
pub open spec fn effect_of(op: u32, pc: u32, reg: Seq<u32>, hi: u32, lo: u32) -> Effect {
    let s = reg[field_s(op)];
    let t = reg[field_t(op)];
    let tr = field_t(op) as usize;
    match op >> 26u32 {
        0x00u32 => r_effect(op, pc, reg, hi, lo),
        0x02u32 => Effect::Jump { target: wrap32(pc + jump_offset(op)) },
        0x03u32 => Effect::Link { target: wrap32(pc + jump_offset(op)) },
        0x1Au32 => Effect::Trap { call_id: addr26(op) as u32 },
        0x08u32 => Effect::SetReg { r: tr, value: wrap32(s + imm_signed(op)) },
        0x09u32 => Effect::SetReg { r: tr, value: wrap32(s + imm16(op)) },
        0x0Cu32 => Effect::SetReg { r: tr, value: s & (imm16(op) as u32) },
        0x0Du32 => Effect::SetReg { r: tr, value: s | (imm16(op) as u32) },
        0x0Eu32 => Effect::SetReg { r: tr, value: s ^ (imm16(op) as u32) },
        0x19u32 => Effect::SetReg { r: tr, value: (t % 0x1_0000 + imm16(op) * 0x1_0000) as u32 },
        0x18u32 => Effect::SetReg { r: tr, value: (t / 0x1_0000 * 0x1_0000 + imm16(op)) as u32 },
        0x0Au32 => Effect::SetReg { r: tr, value: flag(signed(s) < imm_signed(op)) },
        0x0Bu32 => Effect::SetReg { r: tr, value: flag(s < imm16(op)) },
        0x04u32 => branch(s == t, op, pc),
        0x05u32 => branch(s != t, op, pc),
        0x07u32 => branch(s > 0, op, pc),
        0x06u32 => branch(s == 0, op, pc),
        0x20u32 => Effect::Load {
            r: tr,
            address: mem_address(op, reg),
            width: Width::Byte,
            signed: true,
        },
        0x24u32 => Effect::Load {
            r: tr,
            address: mem_address(op, reg),
            width: Width::Byte,
            signed: false,
        },
        0x21u32 => Effect::Load {
            r: tr,
            address: mem_address(op, reg),
            width: Width::Half,
            signed: true,
        },
        0x25u32 => Effect::Load {
            r: tr,
            address: mem_address(op, reg),
            width: Width::Half,
            signed: false,
        },
        0x23u32 => Effect::Load {
            r: tr,
            address: mem_address(op, reg),
            width: Width::Word,
            signed: false,
        },
        0x28u32 => Effect::Store { address: mem_address(op, reg), value: t, width: Width::Byte },
        0x29u32 => Effect::Store { address: mem_address(op, reg), value: t, width: Width::Half },
        0x2Bu32 => Effect::Store { address: mem_address(op, reg), value: t, width: Width::Word },
        _ => Effect::InvalidOpcode,
    }
}

fn reg_s(op: u32) -> (r: usize)
    ensures
        r == field_s(op),
        r < 32,
{
    assert((op >> 21u32) & 31u32 < 32) by (bit_vector);
    ((op >> 21u32) & 31u32) as usize
}

fn reg_t(op: u32) -> (r: usize)
    ensures
        r == field_t(op),
        r < 32,
{
    assert((op >> 16u32) & 31u32 < 32) by (bit_vector);
    ((op >> 16u32) & 31u32) as usize
}

fn reg_d(op: u32) -> (r: usize)
    ensures
        r == field_d(op),
        r < 32,
{
    assert((op >> 11u32) & 31u32 < 32) by (bit_vector);
    ((op >> 11u32) & 31u32) as usize
}

/// `base + off`, wrapping around 32 bits.
pub(crate) fn offset(base: u32, off: i64) -> (r: u32)
    requires
        -0x1_0000_0000 < off < 0x1_0000_0000,
    ensures
        r == wrap32(base + off),
{
    let x: i64 = base as i64 + off;
    if x < 0 {
        (x + 0x1_0000_0000) as u32
    } else if x >= 0x1_0000_0000 {
        (x - 0x1_0000_0000) as u32
    } else {
        x as u32
    }
}

fn immediate_signed(op: u32) -> (r: i64)
    ensures
        r == imm_signed(op),
{
    let i = (op % 0x1_0000) as i64;
    if i >= 0x8000 {
        i - 0x1_0000
    } else {
        i
    }
}

fn set_if(b: bool) -> (r: u32)
    ensures
        r == flag(b),
{
    if b {
        1
    } else {
        0
    }
}

/// Signed division and remainder rounding toward zero; `v` is not zero.
fn div_signed(s: u32, v: u32) -> (r: Effect)
    requires
        v != 0,
    ensures
        r == (Effect::SetHiLo {
            hi: wrap32(trunc_rem(signed(s), signed(v))),
            lo: wrap32(trunc_div(signed(s), signed(v))),
        }),
{
    let a: i64 = s as i32 as i64;
    let b: i64 = v as i32 as i64;
    assert(b != 0) by (bit_vector)
        requires
            v != 0u32,
            b == v as i32 as i64,
    ;
    let ma: u64 = if a < 0 {
        (-a) as u64
    } else {
        a as u64
    };
    let mb: u64 = if b < 0 {
        (-b) as u64
    } else {
        b as u64
    };
    let q: u64 = ma / mb;
    let m: u64 = ma % mb;
    assert(q <= ma) by (nonlinear_arith)
        requires
            mb >= 1,
            q == ma / mb,
    ;
    let qs: i64 = if (a < 0) == (b < 0) {
        q as i64
    } else {
        -(q as i64)
    };
    let ms: i64 = if a < 0 {
        -(m as i64)
    } else {
        m as i64
    };
    let lo = offset(0, qs);
    let hi = offset(0, ms);
    Effect::SetHiLo { hi, lo }
}

fn r_decode(op: u32, pc: u32, reg: &[u32; 32], hi: u32, lo: u32) -> (r: Effect)
    ensures
        r == r_effect(op, pc, reg@, hi, lo),
        r.regs_in_range(),
{
    let s = reg[reg_s(op)];
    let t = reg[reg_t(op)];
    let d = reg_d(op);
    let sh = (op >> 6u32) & 31u32;
    let f = op & 63u32;
    assert(sh < 32) by (bit_vector)
        requires
            sh == (op >> 6u32) & 31u32,
    ;
    assert(s & 31u32 < 32) by (bit_vector);
    if f == 0x20 || f == 0x21 {
        Effect::SetReg { r: d, value: s.wrapping_add(t) }
    } else if f == 0x22 || f == 0x23 {
        Effect::SetReg { r: d, value: s.wrapping_sub(t) }
    } else if f == 0x24 {
        Effect::SetReg { r: d, value: s & t }
    } else if f == 0x25 {
        Effect::SetReg { r: d, value: s | t }
    } else if f == 0x26 {
        Effect::SetReg { r: d, value: s ^ t }
    } else if f == 0x27 {
        Effect::SetReg { r: d, value: !(s | t) }
    } else if f == 0x00 {
        Effect::SetReg { r: d, value: t << sh }
    } else if f == 0x04 {
        Effect::SetReg { r: d, value: t << (s & 31u32) }
    } else if f == 0x02 {
        Effect::SetReg { r: d, value: t >> sh }
    } else if f == 0x06 {
        Effect::SetReg { r: d, value: t >> (s & 31u32) }
    } else if f == 0x03 {
        Effect::SetReg { r: d, value: ((t as i32) >> sh) as u32 }
    } else if f == 0x07 {
        Effect::SetReg { r: d, value: ((t as i32) >> (s & 31u32)) as u32 }
    } else if f == 0x2A {
        Effect::SetReg { r: d, value: set_if((s as i32) < (t as i32)) }
    } else if f == 0x29 {
        Effect::SetReg { r: d, value: set_if(s < t) }
    } else if f == 0x18 {
        let a: i64 = s as i32 as i64;
        let b: i64 = t as i32 as i64;
        assert(-0x4000_0000_0000_0000 <= a * b <= 0x4000_0000_0000_0000) by (nonlinear_arith)
            requires
                -0x8000_0000 <= a < 0x8000_0000,
                -0x8000_0000 <= b < 0x8000_0000,
        ;
        let p = (a * b) as u64;
        Effect::SetHiLo { hi: (p / 0x1_0000_0000) as u32, lo: (p % 0x1_0000_0000) as u32 }
    } else if f == 0x19 {
        assert(s as u64 * t as u64 <= 0xFFFF_FFFE_0000_0001) by (nonlinear_arith)
            requires
                s <= 0xFFFF_FFFFu32,
                t <= 0xFFFF_FFFFu32,
        ;
        let p: u64 = (s as u64) * (t as u64);
        Effect::SetHiLo { hi: (p / 0x1_0000_0000) as u32, lo: (p % 0x1_0000_0000) as u32 }
    } else if f == 0x1A {
        let v = reg[d];
        if v == 0 {
            Effect::ArithmeticFault { id: 0 }
        } else {
            div_signed(s, v)
        }
    } else if f == 0x1B {
        let v = reg[d];
        if v == 0 {
            Effect::ArithmeticFault { id: 0 }
        } else {
            Effect::SetHiLo { hi: s % v, lo: s / v }
        }
    } else if f == 0x08 {
        Effect::Jump { target: s }
    } else if f == 0x09 {
        Effect::Link { target: if reg_s(op) == 31 { pc } else { s } }
    } else if f == 0x10 {
        Effect::SetReg { r: d, value: hi }
    } else if f == 0x12 {
        Effect::SetReg { r: d, value: lo }
    } else if f == 0x11 {
        Effect::SetHi { value: s }
    } else if f == 0x13 {
        Effect::SetLo { value: s }
    } else {
        Effect::InvalidOpcode
    }
}

/// Decodes instruction `op` against the registers; `pc` is the address of
/// the next instruction.
#[verifier::rlimit(60)]
#[verifier::spinoff_prover]
pub fn decode(op: u32, pc: u32, reg: &[u32; 32], hi: u32, lo: u32) -> (r: Effect)
    ensures
        r == effect_of(op, pc, reg@, hi, lo),
        r.regs_in_range(),
{
    let code = op >> 26u32;
    let s = reg[reg_s(op)];
    let t = reg[reg_t(op)];
    let tr = reg_t(op);
    let imm = immediate_signed(op);
    let uimm: u32 = op % 0x1_0000;
    if code == 0x00 {
        r_decode(op, pc, reg, hi, lo)
    } else if code == 0x02 || code == 0x03 {
        let j = (op % 0x400_0000) as i64;
        let off: i64 = 4 * if j >= 0x200_0000 {
            j - 0x400_0000
        } else {
            j
        };
        let target = offset(pc, off);
        if code == 0x02 {
            Effect::Jump { target }
        } else {
            Effect::Link { target }
        }
    } else if code == 0x1A {
        Effect::Trap { call_id: op % 0x400_0000 }
    } else if code == 0x08 {
        Effect::SetReg { r: tr, value: offset(s, imm) }
    } else if code == 0x09 {
        Effect::SetReg { r: tr, value: offset(s, uimm as i64) }
    } else if code == 0x0C {
        Effect::SetReg { r: tr, value: s & uimm }
    } else if code == 0x0D {
        Effect::SetReg { r: tr, value: s | uimm }
    } else if code == 0x0E {
        Effect::SetReg { r: tr, value: s ^ uimm }
    } else if code == 0x19 {
        Effect::SetReg { r: tr, value: t % 0x1_0000 + uimm * 0x1_0000 }
    } else if code == 0x18 {
        Effect::SetReg { r: tr, value: t / 0x1_0000 * 0x1_0000 + uimm }
    } else if code == 0x0A {
        Effect::SetReg { r: tr, value: set_if(((s as i32) as i64) < imm) }
    } else if code == 0x0B {
        Effect::SetReg { r: tr, value: set_if(s < uimm) }
    } else if code == 0x04 || code == 0x05 || code == 0x07 || code == 0x06 {
        let taken = if code == 0x04 {
            s == t
        } else if code == 0x05 {
            s != t
        } else if code == 0x07 {
            s > 0
        } else {
            s == 0
        };
        if taken {
            Effect::Jump { target: offset(pc, 4 * imm) }
        } else {
            Effect::Proceed
        }
    } else if code == 0x20 || code == 0x24 || code == 0x21 || code == 0x25 || code == 0x23 {
        let address = offset(s, 4 * imm);
        let width = if code == 0x20 || code == 0x24 {
            Width::Byte
        } else if code == 0x23 {
            Width::Word
        } else {
            Width::Half
        };
        Effect::Load { r: tr, address, width, signed: code == 0x20 || code == 0x21 }
    } else if code == 0x28 || code == 0x29 || code == 0x2B {
        let address = offset(s, 4 * imm);
        let width = if code == 0x28 {
            Width::Byte
        } else if code == 0x29 {
            Width::Half
        } else {
            Width::Word
        };
        Effect::Store { address, value: t, width }
    } else {
        Effect::InvalidOpcode
    }
}

} // verus!
