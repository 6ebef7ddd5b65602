use vstd::prelude::*;

use crate::handlers::{c_string, handles, host_request, is_host_call, ExternalHandler, HostRequest};
use crate::isa::{
    decode, effect_of, field_d, field_s, field_t, imm16, mem_address, wrap32, Effect, Width,
};
use crate::memory::{addr_add, page_of, stores_u16, stores_u32, Memory};

verus! {

/// A fault that stopped the CPU.
#[derive(Clone, Debug)]
pub enum Fault {
    /// Arithmetic fault; id 0 is a division by zero.
    Arithmetic { id: u32 },
    /// Misaligned access; id 0 is a 16-bit load, 1 a 32-bit load, 3 a store.
    Memory { id: u32 },
    /// Unknown instruction word `op` at `address`.
    InvalidOpcode { op: u32, address: u32 },
    /// A system call failed.
    SystemCall { call_id: u32, error_id: u32, message: String },
}

/// What executing one instruction asks of the caller.
#[derive(Clone, Copy, Debug, PartialEq, Eq, Structural)]
pub enum StepOutcome {
    /// Nothing: the instruction is complete.
    Done,
    /// A system call with this id is to be handled now.
    Trap { call_id: u32 },
}

/// Why a slice of the dispatch loop returned.
#[derive(Clone, Debug)]
pub enum RunExit {
    /// The dispatch loop has ended; the CPU is idle.
    Finished,
    /// The CPU is parked at its pause gate until every pause request is
    /// withdrawn.
    Paused,
    /// The slice's budget is spent; the CPU goes on at the next call.
    OutOfBudget,
    /// System call `call_id` waits for the host to carry out `request`.
    Host { call_id: u32, request: HostRequest },
}

/// Registers, program counter, control flags and memory view of one
/// emulated processor.
pub struct MipsCpu {
    pub pc: u32,
    pub reg: [u32; 32],
    pub lo: u32,
    pub hi: u32,
    /// Inner-loop continuation flag.
    pub i_check: bool,
    pub running: bool,
    pub finished: bool,
    /// Number of outstanding pause requests.
    pub paused: usize,
    pub is_paused: bool,
    /// Whether the CPU is inside a memory event. The page creations of the
    /// dispatch loop start and end within one instruction, so between
    /// instructions, where a host can look, this stays false.
    pub is_within_memory_event: bool,
    /// Whether misaligned 16- and 32-bit accesses fault.
    pub check_alignment: bool,
    /// The fault that last stopped the CPU, if any.
    pub fault: Option<Fault>,
    pub mem: Memory,
}

/// Whether an access of width `w` at `a` is misaligned.
pub open spec fn misaligned(a: u32, w: Width) -> bool {
    match w {
        Width::Byte => false,
        Width::Half => a % 2 != 0,
        Width::Word => a % 4 != 0,
    }
}

/// The value that a load of width `w` at `a` puts in a register.
pub open spec fn loaded(m: Memory, a: u32, w: Width, sign_extend: bool) -> u32 {
    match w {
        Width::Byte => if sign_extend {
            (m.byte(a) as i8) as u32
        } else {
            m.byte(a) as u32
        },
        Width::Half => if sign_extend {
            (m.half(a) as i16) as u32
        } else {
            m.half(a) as u32
        },
        Width::Word => m.word(a),
    }
}

/// `after` is `before` with the low `w` bytes of `v` stored at `a`.
pub open spec fn stored(before: Memory, after: Memory, a: u32, v: u32, w: Width) -> bool {
    &&& after.wf()
    &&& match w {
        Width::Byte => {
            &&& after@.dom() == before@.dom().insert(page_of(a))
            &&& forall|b: u32| #[trigger]
                after.byte(b) == if b == a {
                    (v % 256) as u8
                } else {
                    before.byte(b)
                }
        },
        Width::Half => {
            &&& after@.dom() == before@.dom().insert(page_of(a)).insert(page_of(addr_add(a, 1)))
            &&& stores_u16(before, after, a, (v % 65536) as u16)
        },
        Width::Word => {
            &&& after@.dom() == before@.dom().insert(page_of(a)).insert(
                page_of(addr_add(a, 1)),
            ).insert(page_of(addr_add(a, 2))).insert(page_of(addr_add(a, 3)))
            &&& stores_u32(before, after, a, v)
        },
    }
}

/// The control flags other than `i_check` and `running` are unchanged.
pub open spec fn same_flags(pre: MipsCpu, post: MipsCpu) -> bool {
    &&& post.finished == pre.finished
    &&& post.paused == pre.paused
    &&& post.is_paused == pre.is_paused
    &&& post.is_within_memory_event == pre.is_within_memory_event
    &&& post.check_alignment == pre.check_alignment
}

/// `post` is `pre` stopped by fault `f`, with `pc` as program counter and
/// registers and memory untouched.
pub open spec fn faulted(pre: MipsCpu, post: MipsCpu, pc: u32, f: Fault) -> bool {
    &&& same_flags(pre, post)
    &&& post.fault == Some(f)
    &&& !post.running
    &&& !post.i_check
    &&& post.pc == pc
    &&& post.reg == pre.reg
    &&& post.hi == pre.hi
    &&& post.lo == pre.lo
    &&& post.mem == pre.mem
}

/// `post` is `pre` with effect `e` carried out, where `pc` is the address
/// of the instruction after the one that had the effect.
pub open spec fn performs(pre: MipsCpu, post: MipsCpu, pc: u32, e: Effect) -> bool {
    match e {
        Effect::Load { r, address, width, signed } if pre.check_alignment && misaligned(
            address,
            width,
        ) => faulted(pre, post, pc, Fault::Memory { id: if width == Width::Half { 0 } else { 1 } }),
        Effect::Store { address, value, width } if pre.check_alignment && misaligned(
            address,
            width,
        ) => faulted(pre, post, pc, Fault::Memory { id: 3 }),
        Effect::ArithmeticFault { id } => faulted(pre, post, pc, Fault::Arithmetic { id }),
        Effect::InvalidOpcode => faulted(
            pre,
            post,
            pc,
            Fault::InvalidOpcode { op: pre.mem.word(wrap32(pc - 4)), address: wrap32(pc - 4) },
        ),
        _ => {
            &&& same_flags(pre, post)
            &&& post.fault == pre.fault
            &&& post.running == pre.running
            &&& post.i_check == pre.i_check
            &&& post.pc == match e {
                Effect::Jump { target } => target,
                Effect::Link { target } => target,
                _ => pc,
            }
            &&& post.reg@ == match e {
                Effect::SetReg { r, value } => pre.reg@.update(r as int, value),
                Effect::Link { target } => pre.reg@.update(31, pc),
                Effect::Load { r, address, width, signed } => pre.reg@.update(
                    r as int,
                    loaded(pre.mem, address, width, signed),
                ),
                _ => pre.reg@,
            }
            &&& post.hi == match e {
                Effect::SetHiLo { hi, lo } => hi,
                Effect::SetHi { value } => value,
                _ => pre.hi,
            }
            &&& post.lo == match e {
                Effect::SetHiLo { hi, lo } => lo,
                Effect::SetLo { value } => value,
                _ => pre.lo,
            }
            &&& match e {
                Effect::Store { address, value, width } => stored(
                    pre.mem,
                    post.mem,
                    address,
                    value,
                    width,
                ),
                _ => post.mem == pre.mem,
            }
        },
    }
}

/// The address of the instruction after the one at `pc`.
pub open spec fn next_pc(pc: u32) -> u32 {
    wrap32(pc + 4)
}

/// The effect of the instruction at the program counter of `c`.
#[verifier::opaque]
pub open spec fn current_effect(c: MipsCpu) -> Effect {
    effect_of(c.mem.word(c.pc), next_pc(c.pc), c.reg@, c.hi, c.lo)
}

/// `post` is `pre` after fetching, decoding and executing one instruction.
#[verifier::opaque]
pub open spec fn executes(pre: MipsCpu, post: MipsCpu) -> bool {
    performs(pre, post, next_pc(pre.pc), current_effect(pre))
}

/// The instruction word at the program counter of `c`.
pub open spec fn current_op(c: MipsCpu) -> u32 {
    c.mem.word(c.pc)
}

/// After a jump-and-link at address `p`, register 31 holds `p + 4`, the
/// address of the instruction after the jump.
pub proof fn lemma_jal_links(pre: MipsCpu, post: MipsCpu)
    requires
        current_op(pre) >> 26u32 == 0x03,
        executes(pre, post),
    ensures
        post.reg@[31] == wrap32(pre.pc + 4),
{
    reveal(executes);
    reveal(current_effect);
}

/// Register 0 is an ordinary register: an instruction that writes it
/// (here OR-immediate) leaves its result there.
pub proof fn lemma_register_zero_writable(pre: MipsCpu, post: MipsCpu)
    requires
        current_op(pre) >> 26u32 == 0x0D,
        field_t(current_op(pre)) == 0,
        executes(pre, post),
    ensures
        post.reg@[0] == pre.reg@[field_s(current_op(pre))] | (imm16(current_op(pre)) as u32),
{
    reveal(executes);
    reveal(current_effect);
}

/// Load-high followed by load-low on the same register builds the constant
/// `(hi << 16) | lo` from their immediates.
pub proof fn lemma_lhi_llo(c0: MipsCpu, c1: MipsCpu, c2: MipsCpu)
    requires
        current_op(c0) >> 26u32 == 0x19,
        current_op(c1) >> 26u32 == 0x18,
        field_t(current_op(c0)) == field_t(current_op(c1)),
        executes(c0, c1),
        executes(c1, c2),
    ensures
        c2.reg@[field_t(current_op(c0))] == imm16(current_op(c0)) * 0x1_0000 + imm16(current_op(c1)),
{
    let t = field_t(current_op(c0));
    let hi = imm16(current_op(c0));
    let lo = imm16(current_op(c1));
    lemma_upper_effect(c0);
    lemma_sets_register(c0, c1);
    lemma_lower_effect(c1);
    lemma_sets_register(c1, c2);
    crate::isa::lemma_fields(current_op(c0));
    let x1 = c1.reg@[t] as int;
    assert(x1 == c0.reg@[t] as int % 0x1_0000 + hi * 0x1_0000);
    assert(x1 / 0x1_0000 == hi) by {
        assert(0 <= hi < 0x1_0000);
    }
}

proof fn lemma_upper_effect(c: MipsCpu)
    requires
        current_op(c) >> 26u32 == 0x19,
    ensures
        current_effect(c) == (Effect::SetReg {
            r: field_t(current_op(c)) as usize,
            value: (c.reg@[field_t(current_op(c))] % 0x1_0000 + imm16(current_op(c)) * 0x1_0000) as u32,
        }),
        0 <= imm16(current_op(c)) < 0x1_0000,
{
    reveal(current_effect);
}

proof fn lemma_lower_effect(c: MipsCpu)
    requires
        current_op(c) >> 26u32 == 0x18,
    ensures
        current_effect(c) == (Effect::SetReg {
            r: field_t(current_op(c)) as usize,
            value: (c.reg@[field_t(current_op(c))] / 0x1_0000 * 0x1_0000 + imm16(current_op(c))) as u32,
        }),
{
    reveal(current_effect);
}

proof fn lemma_sets_register(pre: MipsCpu, post: MipsCpu)
    requires
        current_effect(pre) is SetReg,
        executes(pre, post),
    ensures
        post.reg@ == pre.reg@.update(
            current_effect(pre)->SetReg_r as int,
            current_effect(pre)->SetReg_value,
        ),
{
    reveal(executes);
}

/// A misaligned 32-bit load with alignment checking on is a memory fault
/// with id 1 and writes no register.
pub proof fn lemma_misaligned_load_faults(pre: MipsCpu, post: MipsCpu)
    requires
        pre.check_alignment,
        current_op(pre) >> 26u32 == 0x23,
        mem_address(current_op(pre), pre.reg@) % 4 != 0,
        executes(pre, post),
    ensures
        post.fault == Some(Fault::Memory { id: 1 }),
        !post.running,
        post.reg == pre.reg,
{
    reveal(executes);
    reveal(current_effect);
}

/// A signed division by a zero register is an arithmetic fault with id 0
/// that leaves `hi`, `lo` and the registers unchanged.
pub proof fn lemma_divide_by_zero_faults(pre: MipsCpu, post: MipsCpu)
    requires
        current_op(pre) >> 26u32 == 0,
        current_op(pre) & 63u32 == 0x1A,
        pre.reg@[field_d(current_op(pre))] == 0,
        executes(pre, post),
    ensures
        post.fault == Some(Fault::Arithmetic { id: 0 }),
        !post.running,
        post.hi == pre.hi,
        post.lo == pre.lo,
        post.reg == pre.reg,
{
    reveal(executes);
    reveal(current_effect);
}

/// Whether the instruction at the program counter of `c` is a system call
/// that only the host carries out.
pub open spec fn host_trap(c: MipsCpu) -> bool {
    current_effect(c) is Trap && is_host_call(current_effect(c)->Trap_call_id)
}

/// `request` is what system call `call_id` of `c`, one the host carries
/// out, hands to the host.
pub open spec fn host_request_for(call_id: u32, c: MipsCpu, request: HostRequest) -> bool {
    if call_id == 4 {
        request matches HostRequest::PrintString { bytes } && c_string(c.mem, c.reg@[4], bytes@)
    } else {
        request == host_request(call_id, c.reg@)
    }
}

/// One pass of the inner loop from `c0`, whose `i_check` holds: the
/// instruction at the program counter, then, when it is a system call that
/// the library carries out, that call. A call for the host is left pending.
pub open spec fn dispatch_step(
    c0: MipsCpu,
    h0: ExternalHandler,
    c1: MipsCpu,
    h1: ExternalHandler,
) -> bool {
    &&& c0.i_check
    &&& match current_effect(c0) {
        Effect::Trap { call_id } => if is_host_call(call_id) {
            executes(c0, c1) && h1 == h0
        } else {
            exists|mid: MipsCpu| #[trigger]
                executes(c0, mid) && handles(h0, mid, h1, c1, call_id, None)
        },
        _ => executes(c0, c1) && h1 == h0,
    }
}

/// `cs` and `hs` list the states of `n` passes of the inner loop, from
/// `c0`, `h0` to `c1`, `h1`.
pub open spec fn trace(
    cs: Seq<MipsCpu>,
    hs: Seq<ExternalHandler>,
    c0: MipsCpu,
    h0: ExternalHandler,
    c1: MipsCpu,
    h1: ExternalHandler,
    n: nat,
) -> bool {
    &&& cs.len() == n + 1
    &&& hs.len() == n + 1
    &&& cs[0] == c0
    &&& hs[0] == h0
    &&& cs[n as int] == c1
    &&& hs[n as int] == h1
    &&& forall|i: int|
        0 <= i < n ==> #[trigger] dispatch_step(cs[i], hs[i], cs[i + 1], hs[i + 1])
}

/// `n` passes of the inner loop lead from `c0`, `h0` to `c1`, `h1`.
pub open spec fn dispatches(
    c0: MipsCpu,
    h0: ExternalHandler,
    c1: MipsCpu,
    h1: ExternalHandler,
    n: nat,
) -> bool {
    exists|cs: Seq<MipsCpu>, hs: Seq<ExternalHandler>| #[trigger] trace(cs, hs, c0, h0, c1, h1, n)
}

/// After `n` passes from `c0`, `h0`, an instruction of the CPU in state
/// `cm`, `h1` was system call `call_id` for the host, which left `c1` and
/// hands the host `request`.
pub open spec fn trap_to_host(
    c0: MipsCpu,
    h0: ExternalHandler,
    c1: MipsCpu,
    h1: ExternalHandler,
    n: nat,
    call_id: u32,
    request: HostRequest,
) -> bool {
    exists|cm: MipsCpu|
        {
            &&& #[trigger] dispatches(c0, h0, cm, h1, n)
            &&& cm.i_check
            &&& current_effect(cm) == (Effect::Trap { call_id })
            &&& is_host_call(call_id)
            &&& executes(cm, c1)
            &&& host_request_for(call_id, c1, request)
        }
}

/// The state in which a pass of the dispatch loop starts from `c`.
pub open spec fn pass_start(c: MipsCpu) -> MipsCpu {
    MipsCpu { is_paused: false, i_check: true, ..c }
}

/// What `run` with budget `budget` does to CPU `c0` and handler `h0`,
/// ending at `c1`, `h1` with result `r`.
pub open spec fn run_outcome(
    c0: MipsCpu,
    h0: ExternalHandler,
    c1: MipsCpu,
    h1: ExternalHandler,
    budget: nat,
    r: RunExit,
) -> bool {
    if c0.finished {
        r is Finished && c1 == c0 && h1 == h0
    } else if c0.paused > 0 {
        &&& h1 == h0
        &&& if c0.running {
            r is Paused && c1 == (MipsCpu { is_paused: true, ..c0 })
        } else {
            r is Finished && c1 == (MipsCpu { is_paused: true, finished: true, ..c0 })
        }
    } else if !c0.i_check && !c0.running {
        r is Finished && h1 == h0 && c1 == (MipsCpu { finished: true, ..pass_start(c0) })
    } else {
        let s = pass_start(c0);
        match r {
            RunExit::OutOfBudget => dispatches(s, h0, c1, h1, budget) && c1.i_check,
            RunExit::Finished => {
                &&& c1.finished
                &&& c1.i_check
                &&& !c1.running
                &&& exists|n: nat|
                    n <= budget && #[trigger] dispatches(
                        s,
                        h0,
                        MipsCpu { i_check: false, finished: false, ..c1 },
                        h1,
                        n,
                    )
            },
            RunExit::Host { call_id, request } => exists|n: nat|
                n < budget && #[trigger] trap_to_host(s, h0, c1, h1, n, call_id, request),
            RunExit::Paused => false,
        }
    }
}

impl MipsCpu {
    pub open spec fn wf(&self) -> bool {
        self.mem.wf()
    }

    /// An idle CPU with zeroed registers over an empty memory.
    pub fn new() -> (r: MipsCpu)
        ensures
            r.wf(),
            r.pc == 0,
            forall|i: int| 0 <= i < 32 ==> r.reg@[i] == 0,
            r.hi == 0,
            r.lo == 0,
            r.i_check,
            !r.running,
            r.finished,
            r.paused == 0,
            r.is_paused,
            !r.is_within_memory_event,
            r.check_alignment,
            r.fault is None,
            r.mem@ == Map::<int, Seq<u8>>::empty(),
    {
        MipsCpu {
            pc: 0,
            reg: [0u32; 32],
            lo: 0,
            hi: 0,
            i_check: true,
            running: false,
            finished: true,
            paused: 0,
            is_paused: true,
            is_within_memory_event: false,
            check_alignment: true,
            fault: None,
            mem: Memory::new(),
        }
    }

    pub fn get_general_registers(&self) -> (r: &[u32; 32])
        ensures
            *r == self.reg,
    {
        &self.reg
    }

    pub fn get_hi_register(&self) -> (r: u32)
        ensures
            r == self.hi,
    {
        self.hi
    }

    pub fn get_lo_register(&self) -> (r: u32)
        ensures
            r == self.lo,
    {
        self.lo
    }

    pub fn get_pc(&self) -> (r: u32)
        ensures
            r == self.pc,
    {
        self.pc
    }

    pub fn get_general_registers_mut(&mut self) -> (r: &mut [u32; 32])
        ensures
            *r == old(self).reg,
            *final(self) == (MipsCpu { reg: *final(r), ..*old(self) }),
    {
        &mut self.reg
    }

    pub fn get_hi_register_mut(&mut self) -> (r: &mut u32)
        ensures
            *r == old(self).hi,
            *final(self) == (MipsCpu { hi: *final(r), ..*old(self) }),
    {
        &mut self.hi
    }

    pub fn get_lo_register_mut(&mut self) -> (r: &mut u32)
        ensures
            *r == old(self).lo,
            *final(self) == (MipsCpu { lo: *final(r), ..*old(self) }),
    {
        &mut self.lo
    }

    pub fn get_pc_mut(&mut self) -> (r: &mut u32)
        ensures
            *r == old(self).pc,
            *final(self) == (MipsCpu { pc: *final(r), ..*old(self) }),
    {
        &mut self.pc
    }

    /// The memory view, for inspection by the host.
    pub fn get_mem(&self) -> (r: &Memory)
        ensures
            *r == self.mem,
    {
        &self.mem
    }

    /// The memory view, which owns the page pool, for changes by the host
    /// (loading a program, unloading pages) while the CPU is idle or paused.
    pub fn get_mem_controller(&mut self) -> (r: &mut Memory)
        ensures
            *r == old(self).mem,
            *final(self) == (MipsCpu { mem: *final(r), ..*old(self) }),
    {
        &mut self.mem
    }

    pub fn is_running(&self) -> (r: bool)
        ensures
            r == (self.running || !self.finished),
    {
        self.running || !self.finished
    }

    pub fn paused_or_stopped(&self) -> (r: bool)
        ensures
            r == (self.is_paused || !(self.running || !self.finished)),
    {
        self.is_paused() || !self.is_running()
    }

    pub fn is_paused(&self) -> (r: bool)
        ensures
            r == self.is_paused,
    {
        self.is_paused
    }

    pub fn is_within_memory_event(&self) -> (r: bool)
        ensures
            r == self.is_within_memory_event,
    {
        self.is_within_memory_event
    }

    /// The fault that last stopped the CPU, if any.
    pub fn get_fault(&self) -> (r: &Option<Fault>)
        ensures
            *r == self.fault,
    {
        &self.fault
    }

    /// Turns the checking of 16- and 32-bit alignment on or off.
    pub fn set_alignment_check(&mut self, on: bool)
        ensures
            *final(self) == (MipsCpu { check_alignment: on, ..*old(self) }),
    {
        self.check_alignment = on;
    }

    /// Asks the dispatch loop to end: the inner loop exits after the current
    /// instruction and the outer loop does not go round again.
    pub fn stop(&mut self)
        ensures
            *final(self) == (MipsCpu { running: false, i_check: false, ..*old(self) }),
    {
        self.running = false;
        self.i_check = false;
    }

    /// Zeroes the registers and the program counter.
    pub fn reset(&mut self)
        ensures
            *final(self) == (MipsCpu { pc: 0, reg: final(self).reg, hi: 0, lo: 0, ..*old(self) }),
            forall|i: int| 0 <= i < 32 ==> final(self).reg@[i] == 0,
    {
        self.pc = 0;
        self.reg = [0u32; 32];
        self.lo = 0;
        self.hi = 0;
    }

    /// Zeroes the registers and the program counter and unmaps every page.
    pub fn clear(&mut self)
        requires
            old(self).wf(),
        ensures
            final(self).wf(),
            final(self).pc == 0,
            forall|i: int| 0 <= i < 32 ==> final(self).reg@[i] == 0,
            final(self).hi == 0,
            final(self).lo == 0,
            final(self).mem@ == Map::<int, Seq<u8>>::empty(),
            final(self).running == old(self).running,
            final(self).finished == old(self).finished,
            final(self).paused == old(self).paused,
    {
        self.reset();
        self.mem.unload_all_pages();
    }

    /// Registers one more pause request and tells the inner loop to yield;
    /// the dispatch loop then parks at its pause gate until every request is
    /// withdrawn. The caller waits for `is_paused`.
    pub fn pause(&mut self)
        ensures
            final(self).paused == if old(self).paused < usize::MAX {
                old(self).paused + 1
            } else {
                old(self).paused as int
            },
            !final(self).i_check,
            *final(self) == (MipsCpu {
                paused: final(self).paused,
                i_check: false,
                ..*old(self)
            }),
    {
        if self.paused < usize::MAX {
            self.paused = self.paused + 1;
        }
        self.i_check = false;
    }

    /// Registers a pause request as `pause` does, on behalf of a lock cycle
    /// of the memory pool. A host that drives the CPU from another thread
    /// waits for `is_paused`, or for `is_within_memory_event` where the CPU
    /// is itself the one changing the pool's layout.
    pub fn pause_exclude_memory_event(&mut self)
        ensures
            *final(self) == (MipsCpu {
                paused: if old(self).paused < usize::MAX {
                    (old(self).paused + 1) as usize
                } else {
                    old(self).paused
                },
                i_check: false,
                ..*old(self)
            }),
    {
        self.pause();
    }

    /// Withdraws one pause request.
    pub fn resume(&mut self)
        ensures
            *final(self) == (MipsCpu {
                paused: if old(self).paused > 0 {
                    (old(self).paused - 1) as usize
                } else {
                    0
                },
                ..*old(self)
            }),
    {
        if self.paused > 0 {
            self.paused = self.paused - 1;
        }
    }

    /// Records fault `f` and stops.
    fn fail(&mut self, f: Fault)
        ensures
            *final(self) == (MipsCpu { fault: Some(f), running: false, i_check: false, ..*old(self) }),
    {
        self.fault = Some(f);
        self.stop();
    }

    /// Reports a failed system call and stops.
    pub fn system_call_error(&mut self, call_id: u32, error_id: u32, message: &str)
        ensures
            final(self).fault matches Some(Fault::SystemCall { call_id: c, error_id: e, message: m })
                && c == call_id && e == error_id && m@ == message@,
            *final(self) == (MipsCpu {
                fault: final(self).fault,
                running: false,
                i_check: false,
                ..*old(self)
            }),
    {
        self.fail(Fault::SystemCall { call_id, error_id, message: message.to_owned() });
    }

    /// Reports a misaligned access and stops.
    pub fn memory_error(&mut self, error_id: u32)
        ensures
            *final(self) == (MipsCpu {
                fault: Some(Fault::Memory { id: error_id }),
                running: false,
                i_check: false,
                ..*old(self)
            }),
    {
        self.fail(Fault::Memory { id: error_id });
    }

    /// Reports an arithmetic fault and stops.
    pub fn arithmetic_error(&mut self, id: u32)
        ensures
            *final(self) == (MipsCpu {
                fault: Some(Fault::Arithmetic { id }),
                running: false,
                i_check: false,
                ..*old(self)
            }),
    {
        self.fail(Fault::Arithmetic { id });
    }

    /// Reports the instruction before the program counter as invalid and
    /// stops.
    pub fn invalid_op_code(&mut self)
        requires
            old(self).wf(),
        ensures
            *final(self) == (MipsCpu {
                fault: Some(
                    Fault::InvalidOpcode {
                        op: old(self).mem.word(wrap32(old(self).pc - 4)),
                        address: wrap32(old(self).pc - 4),
                    },
                ),
                running: false,
                i_check: false,
                ..*old(self)
            }),
    {
        let address = self.pc.wrapping_sub(4);
        let op = self.mem.get_u32(address);
        self.fail(Fault::InvalidOpcode { op, address });
    }

    /// Carries out effect `e` of the instruction before the program counter.
    fn execute(&mut self, e: Effect)
        requires
            old(self).wf(),
            e.regs_in_range(),
        ensures
            final(self).wf(),
            performs(*old(self), *final(self), old(self).pc, e),
    {
        match e {
            Effect::SetReg { r, value } => {
                self.reg[r] = value;
            },
            Effect::SetHiLo { hi, lo } => {
                self.hi = hi;
                self.lo = lo;
            },
            Effect::SetHi { value } => {
                self.hi = value;
            },
            Effect::SetLo { value } => {
                self.lo = value;
            },
            Effect::Jump { target } => {
                self.pc = target;
            },
            Effect::Link { target } => {
                self.reg[31] = self.pc;
                self.pc = target;
            },
            Effect::Proceed => {},
            Effect::Trap { call_id: _ } => {},
            Effect::Load { r, address, width, signed } => {
                let bad = match width {
                    Width::Byte => false,
                    Width::Half => address % 2 != 0,
                    Width::Word => address % 4 != 0,
                };
                if self.check_alignment && bad {
                    self.memory_error(
                        match width {
                            Width::Half => 0,
                            _ => 1,
                        },
                    );
                } else {
                    let v: u32 = match width {
                        Width::Byte => if signed {
                            self.mem.get_i8(address) as u32
                        } else {
                            self.mem.get_u8(address) as u32
                        },
                        Width::Half => if signed {
                            self.mem.get_u16(address) as i16 as u32
                        } else {
                            self.mem.get_u16(address) as u32
                        },
                        Width::Word => self.mem.get_u32(address),
                    };
                    self.reg[r] = v;
                }
            },
            Effect::Store { address, value, width } => {
                let bad = match width {
                    Width::Byte => false,
                    Width::Half => address % 2 != 0,
                    Width::Word => address % 4 != 0,
                };
                if self.check_alignment && bad {
                    self.memory_error(3);
                } else {
                    match width {
                        Width::Byte => self.mem.set_u8(address, (value % 256) as u8),
                        Width::Half => self.mem.set_u16(address, (value % 65536) as u16),
                        Width::Word => self.mem.set_u32(address, value),
                    }
                }
            },
            Effect::ArithmeticFault { id } => {
                self.arithmetic_error(id);
            },
            Effect::InvalidOpcode => {
                self.invalid_op_code();
            },
        }
    }

    /// Fetches the instruction at the program counter, advances the program
    /// counter past it and executes it. A system call is left to the caller.
    #[verifier::rlimit(100)]
    #[verifier::spinoff_prover]
    pub fn step_instruction(&mut self) -> (r: StepOutcome)
        requires
            old(self).wf(),
        ensures
            final(self).wf(),
            executes(*old(self), *final(self)),
            same_flags(*old(self), *final(self)),
            old(self).i_check && !final(self).i_check ==> !final(self).running,
            r == match current_effect(*old(self)) {
                Effect::Trap { call_id } => StepOutcome::Trap { call_id },
                _ => StepOutcome::Done,
            },
    {
        let ghost pre = *self;
        let op = self.mem.get_u32(self.pc);
        self.pc = self.pc.wrapping_add(4);
        let e = decode(op, self.pc, &self.reg, self.hi, self.lo);
        assert(e == current_effect(pre)) by {
            reveal(current_effect);
        }
        let ghost mid = *self;
        self.execute(e);
        assert(performs(pre, *self, next_pc(pre.pc), e)) by {
            assert(mid == (MipsCpu { pc: next_pc(pre.pc), ..pre }));
        }
        assert(executes(pre, *self)) by {
            reveal(executes);
        }
        match e {
            Effect::Trap { call_id } => StepOutcome::Trap { call_id },
            _ => StepOutcome::Done,
        }
    }

    /// Moves an idle CPU to running; returns whether it was idle.
    pub fn start(&mut self) -> (r: bool)
        ensures
            r == !(old(self).running || !old(self).finished),
            r ==> *final(self) == (MipsCpu { running: true, finished: false, ..*old(self) }),
            !r ==> *final(self) == *old(self),
    {
        if self.running || !self.finished {
            return false;
        }
        self.running = true;
        self.finished = false;
        true
    }

    /// Moves an idle CPU to a single pass of the dispatch loop: the inner
    /// loop runs until it is told to yield, then the loop ends. Returns
    /// whether the CPU was idle.
    pub fn step(&mut self) -> (r: bool)
        ensures
            r == !(old(self).running || !old(self).finished),
            r ==> *final(self) == (MipsCpu { running: false, finished: false, ..*old(self) }),
            !r ==> *final(self) == *old(self),
    {
        if self.running || !self.finished {
            return false;
        }
        self.running = false;
        self.finished = false;
        true
    }

    /// Executes one instruction and carries out its system call, if the
    /// library can; returns the request for one that only the host can.
    fn dispatch(&mut self, handler: &mut ExternalHandler) -> (r: Option<RunExit>)
        requires
            old(self).wf(),
            old(handler).wf(),
            old(self).i_check,
        ensures
            final(self).wf(),
            final(handler).wf(),
            same_flags(*old(self), *final(self)),
            dispatch_step(*old(self), *old(handler), *final(self), *final(handler)),
            !final(self).i_check ==> !final(self).running,
            match r {
                None => !host_trap(*old(self)),
                Some(RunExit::Host { call_id, request }) => {
                    &&& current_effect(*old(self)) == (Effect::Trap { call_id })
                    &&& is_host_call(call_id)
                    &&& host_request_for(call_id, *final(self), request)
                },
                Some(_) => false,
            },
    {
        let ghost c0 = *self;
        let ghost h0 = *handler;
        match self.step_instruction() {
            StepOutcome::Trap { call_id } => {
                let ghost mid = *self;
                let res = handler.system_call(self, call_id);
                assert(executes(c0, mid));
                match res {
                    Some(request) => Some(RunExit::Host { call_id, request }),
                    None => None,
                }
            },
            StepOutcome::Done => {
                assert(executes(c0, *self));
                None
            },
        }
    }

    /// Runs the dispatch loop for at most `budget` instructions. The loop
    /// first passes the pause gate: with requests outstanding the CPU parks,
    /// or ends when it was stopped. A pass that an earlier request cut short
    /// ends there. The inner loop then executes instructions while `i_check`
    /// holds; once it is cleared (by a stop or a fault) the loop ends. System
    /// calls that the library can carry out are carried out in place; the
    /// others return to the host, which calls again once it has done them.
    pub fn run(&mut self, handler: &mut ExternalHandler, budget: u64) -> (r: RunExit)
        requires
            old(self).wf(),
            old(handler).wf(),
        ensures
            final(self).wf(),
            final(handler).wf(),
            run_outcome(*old(self), *old(handler), *final(self), *final(handler), budget as nat, r),
    {
        if self.finished {
            return RunExit::Finished;
        }
        if self.paused > 0 {
            self.is_paused = true;
            if !self.running {
                self.finished = true;
                return RunExit::Finished;
            }
            return RunExit::Paused;
        }
        self.is_paused = false;
        if !self.i_check {
            self.i_check = true;
            if !self.running {
                self.finished = true;
                return RunExit::Finished;
            }
        }
        let ghost c0 = *self;
        let ghost h0 = *handler;
        assert(c0 == pass_start(*old(self)));
        let mut n: u64 = 0;
        let ghost mut cs: Seq<MipsCpu> = seq![c0];
        let ghost mut hs: Seq<ExternalHandler> = seq![h0];
        assert(trace(cs, hs, c0, h0, *self, *handler, 0));
        while self.i_check && n < budget
            invariant
                self.wf(),
                handler.wf(),
                n <= budget,
                trace(cs, hs, c0, h0, *self, *handler, n as nat),
                c0 == pass_start(*old(self)),
                h0 == *old(handler),
                !old(self).finished,
                old(self).paused == 0,
                old(self).i_check || old(self).running,
                !self.i_check ==> !self.running,
                !self.finished,
            decreases budget - n,
        {
            let ghost cm = *self;
            let ghost hm = *handler;
            match self.dispatch(handler) {
                Some(exit) => {
                    assert(*handler == hm);
                    assert(executes(cm, *self));
                    assert(trace(cs, hs, c0, h0, cm, *handler, n as nat));
                    assert(dispatches(c0, h0, cm, *handler, n as nat));
                    match exit {
                        RunExit::Host { call_id, request } => {
                            assert(trap_to_host(
                                c0,
                                h0,
                                *self,
                                *handler,
                                n as nat,
                                call_id,
                                request,
                            ));
                            return RunExit::Host { call_id, request };
                        },
                        _ => {
                            return exit;
                        },
                    }
                },
                None => {},
            }
            proof {
                let old_cs = cs;
                let old_hs = hs;
                cs = cs.push(*self);
                hs = hs.push(*handler);
                assert forall|i: int| 0 <= i < n + 1 implies #[trigger] dispatch_step(
                    cs[i],
                    hs[i],
                    cs[i + 1],
                    hs[i + 1],
                ) by {
                    if i < n {
                        assert(cs[i] == old_cs[i] && cs[i + 1] == old_cs[i + 1]);
                        assert(hs[i] == old_hs[i] && hs[i + 1] == old_hs[i + 1]);
                    }
                }
                assert(trace(cs, hs, c0, h0, *self, *handler, (n + 1) as nat));
            }
            n = n + 1;
        }
        assert(trace(cs, hs, c0, h0, *self, *handler, n as nat));
        assert(dispatches(c0, h0, *self, *handler, n as nat));
        if self.i_check {
            return RunExit::OutOfBudget;
        }
        let ghost last = *self;
        self.i_check = true;
        self.finished = true;
        assert(last == (MipsCpu { i_check: false, finished: false, ..*self }));
        assert(dispatches(c0, h0, MipsCpu { i_check: false, finished: false, ..*self }, *handler, n as nat));
        RunExit::Finished
    }

    /// Starts an idle CPU and runs it as `run` does; a CPU that is not idle
    /// is left alone and `None` returned.
    pub fn start_local(&mut self, handler: &mut ExternalHandler, budget: u64) -> (r: Option<
        RunExit,
    >)
        requires
            old(self).wf(),
            old(handler).wf(),
        ensures
            final(self).wf(),
            final(handler).wf(),
            r is None <==> (old(self).running || !old(self).finished),
            r is None ==> *final(self) == *old(self) && *final(handler) == *old(handler),
            r matches Some(e) ==> run_outcome(
                MipsCpu { running: true, finished: false, ..*old(self) },
                *old(handler),
                *final(self),
                *final(handler),
                budget as nat,
                e,
            ),
    {
        if !self.start() {
            return None;
        }
        Some(self.run(handler, budget))
    }
}

} // verus!
