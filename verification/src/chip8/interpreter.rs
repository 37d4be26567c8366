//! The execution engine: CPU state, fetch, and the semantics of every
//! instruction, specified by a small-step function over an abstract machine
//! state and proved instruction by instruction.

use vstd::prelude::*;
use vstd::slice::slice_subrange;
use crate::chip8::data::{Address, Nibble, OpCode, RegisterIndex, Word, ADDRESS_DOMAIN_SIZE};
use crate::chip8::error::VmError;
use crate::chip8::image::Image;
use crate::chip8::ops::{spec_decode, Operation};
use crate::chip8::platform::{
    blank_screen, draw_hit, draw_model, model_wf, rng_byte, rng_rest, Platform, PlatformModel,
    Point, Sprite,
};

verus! {

/// Size of the byte-addressable memory.
pub const MEM_SIZE: usize = ADDRESS_DOMAIN_SIZE;

/// Number of general-purpose registers.
pub const REG_SIZE: usize = 16;

/// Capacity of the call stack.
pub const STACK_SIZE: usize = 16;

/// The CPU as the specification sees it: registers, index register,
/// program counter, live call-stack entries (deepest first), and memory.
#[verifier::ext_equal]
pub struct CpuState {
    pub regs: Seq<u8>,
    pub index: int,
    pub pc: int,
    pub stack: Seq<usize>,
    pub mem: Seq<u8>,
}

/// The whole machine: the CPU together with the backend's model.
#[verifier::ext_equal]
pub struct MachineState {
    pub cpu: CpuState,
    pub plat: PlatformModel,
}

/// Structural well-formedness of a machine state.
pub open spec fn machine_wf(s: MachineState) -> bool {
    &&& s.cpu.regs.len() == 16
    &&& s.cpu.mem.len() == 4096
    &&& s.cpu.stack.len() <= 16
    &&& s.cpu.pc >= 0
    &&& s.cpu.index >= 0
    &&& model_wf(s.plat)
}

/// The instruction word at the program counter: big-endian, high byte
/// first.
pub open spec fn spec_fetch(s: MachineState) -> int {
    s.cpu.mem[s.cpu.pc] * 256 + s.cpu.mem[s.cpu.pc + 1]
}

/// The highest pressed key index below `n`, or -1 when none is pressed.
pub open spec fn highest_key_below(keys: Seq<bool>, n: int) -> int
    decreases n,
{
    if n <= 0 {
        -1
    } else if keys[n - 1] {
        n - 1
    } else {
        highest_key_below(keys, n - 1)
    }
}

/// The conditions under which executing `op` stays within the machine's
/// bounds. Inputs outside these conditions have no defined semantics: the
/// engine refuses to run them.
pub open spec fn op_safe(s: MachineState, op: Operation) -> bool {
    match op {
        Operation::Draw(_, _, n) => s.cpu.index + n@ <= s.cpu.mem.len(),
        Operation::ToDecimal(_) => s.cpu.index + 3 <= s.cpu.mem.len(),
        Operation::WriteMemory(n) => s.cpu.index + n@ + 1 <= s.cpu.mem.len(),
        Operation::ReadMemory(n) => s.cpu.index + n@ + 1 <= s.cpu.mem.len(),
        Operation::IncrementIndexRegister(x) => s.cpu.index + s.cpu.regs[x@] <= usize::MAX,
        _ => true,
    }
}

/// The fetched word can be read and, if it decodes, its execution stays in
/// bounds.
pub open spec fn step_safe(s: MachineState) -> bool {
    &&& s.cpu.pc + 1 < 4096
    &&& match spec_decode(spec_fetch(s)) {
        Some(op) => op_safe(s, op),
        None => true,
    }
}

/// The semantics of one decoded operation: the next machine state, or the
/// error that refuses it. Errors leave the state unchanged.
///
/// Opaque by default: it is a large definition, and most reasoning only
/// passes its value along. Proofs about a particular operation reveal it.
#[verifier::opaque]
pub open spec fn spec_step_op(s: MachineState, op: Operation) -> Result<MachineState, VmError> {
    let c = s.cpu;
    let regs = c.regs;
    match op {
        Operation::ClearScreen => Ok(
            MachineState {
                cpu: CpuState { pc: c.pc + 2, ..c },
                plat: PlatformModel { screen: blank_screen(), ..s.plat },
            },
        ),
        Operation::Return => {
            if c.stack.len() == 0 {
                Err(VmError::StackUnderflow)
            } else {
                Ok(
                    MachineState {
                        cpu: CpuState {
                            pc: c.stack.last() as int,
                            stack: c.stack.drop_last(),
                            ..c
                        },
                        ..s
                    },
                )
            }
        },
        Operation::Jump(a) => Ok(MachineState { cpu: CpuState { pc: a@, ..c }, ..s }),
        Operation::Call(a) => {
            if c.stack.len() >= 16 {
                Err(VmError::StackOverflow)
            } else {
                Ok(
                    MachineState {
                        cpu: CpuState {
                            pc: a@,
                            stack: c.stack.push((c.pc + 2) as usize),
                            ..c
                        },
                        ..s
                    },
                )
            }
        },
        Operation::SkipIfEqual(x, nn) => Ok(
            MachineState {
                cpu: CpuState { pc: c.pc + (if regs[x@] == nn { 4int } else { 2int }), ..c },
                ..s
            },
        ),
        Operation::SkipIfNotEqual(x, nn) => Ok(
            MachineState {
                cpu: CpuState { pc: c.pc + (if regs[x@] != nn { 4int } else { 2int }), ..c },
                ..s
            },
        ),
        Operation::SkipIfRegistersEqual(x, y) => Ok(
            MachineState {
                cpu: CpuState {
                    pc: c.pc + (if regs[x@] == regs[y@] { 4int } else { 2int }),
                    ..c
                },
                ..s
            },
        ),
        Operation::SkipIfRegistersNotEqual(x, y) => Ok(
            MachineState {
                cpu: CpuState {
                    pc: c.pc + (if regs[x@] != regs[y@] { 4int } else { 2int }),
                    ..c
                },
                ..s
            },
        ),
        Operation::SetRegister(x, nn) => Ok(
            MachineState { cpu: CpuState { pc: c.pc + 2, regs: regs.update(x@, nn), ..c }, ..s },
        ),
        Operation::AddValue(x, nn) => Ok(
            MachineState {
                cpu: CpuState {
                    pc: c.pc + 2,
                    regs: regs.update(x@, ((regs[x@] + nn) % 256) as u8),
                    ..c
                },
                ..s
            },
        ),
        Operation::SetToRegister(x, y) => Ok(
            MachineState {
                cpu: CpuState { pc: c.pc + 2, regs: regs.update(x@, regs[y@]), ..c },
                ..s
            },
        ),
        Operation::Or(x, y) => Ok(
            MachineState {
                cpu: CpuState {
                    pc: c.pc + 2,
                    regs: regs.update(x@, regs[x@] | regs[y@]).update(15, 0u8),
                    ..c
                },
                ..s
            },
        ),
        Operation::And(x, y) => Ok(
            MachineState {
                cpu: CpuState {
                    pc: c.pc + 2,
                    regs: regs.update(x@, regs[x@] & regs[y@]).update(15, 0u8),
                    ..c
                },
                ..s
            },
        ),
        Operation::Xor(x, y) => Ok(
            MachineState {
                cpu: CpuState {
                    pc: c.pc + 2,
                    regs: regs.update(x@, regs[x@] ^ regs[y@]).update(15, 0u8),
                    ..c
                },
                ..s
            },
        ),
        Operation::AddRegister(x, y) => Ok(
            MachineState {
                cpu: CpuState {
                    pc: c.pc + 2,
                    regs: regs.update(x@, ((regs[x@] + regs[y@]) % 256) as u8).update(
                        15,
                        if regs[x@] + regs[y@] >= 256 { 1u8 } else { 0u8 },
                    ),
                    ..c
                },
                ..s
            },
        ),
        Operation::SubRegister(x, y) => Ok(
            MachineState {
                cpu: CpuState {
                    pc: c.pc + 2,
                    regs: regs.update(x@, ((regs[x@] - regs[y@] + 256) % 256) as u8).update(
                        15,
                        if regs[x@] >= regs[y@] { 1u8 } else { 0u8 },
                    ),
                    ..c
                },
                ..s
            },
        ),
        Operation::SubRegisterReversed(x, y) => Ok(
            MachineState {
                cpu: CpuState {
                    pc: c.pc + 2,
                    regs: regs.update(x@, ((regs[y@] - regs[x@] + 256) % 256) as u8).update(
                        15,
                        if regs[y@] >= regs[x@] { 1u8 } else { 0u8 },
                    ),
                    ..c
                },
                ..s
            },
        ),
        Operation::ShiftRight(x, y) => Ok(
            MachineState {
                cpu: CpuState {
                    pc: c.pc + 2,
                    regs: regs.update(x@, (regs[y@] / 2) as u8).update(
                        15,
                        (regs[y@] % 2) as u8,
                    ),
                    ..c
                },
                ..s
            },
        ),
        Operation::ShiftLeft(x, y) => Ok(
            MachineState {
                cpu: CpuState {
                    pc: c.pc + 2,
                    regs: regs.update(x@, ((regs[y@] * 2) % 256) as u8).update(
                        15,
                        (regs[y@] / 128) as u8,
                    ),
                    ..c
                },
                ..s
            },
        ),
        Operation::SetIndexRegister(a) => Ok(
            MachineState { cpu: CpuState { pc: c.pc + 2, index: a@, ..c }, ..s },
        ),
        Operation::JumpV0(a) => Ok(
            MachineState { cpu: CpuState { pc: a@ + regs[0], ..c }, ..s },
        ),
        Operation::SetToRandom(x, nn) => Ok(
            MachineState {
                cpu: CpuState {
                    pc: c.pc + 2,
                    regs: regs.update(x@, rng_byte(s.plat) & nn),
                    ..c
                },
                plat: PlatformModel { rng: rng_rest(s.plat.rng), ..s.plat },
            },
        ),
        Operation::Draw(x, y, n) => {
            let rows = c.mem.subrange(c.index, c.index + n@);
            let hit = draw_hit(s.plat, regs[x@] as int, regs[y@] as int, rows);
            Ok(
                MachineState {
                    cpu: CpuState {
                        pc: c.pc + 2,
                        regs: regs.update(15, if hit { 1u8 } else { 0u8 }),
                        ..c
                    },
                    plat: draw_model(s.plat, regs[x@] as int, regs[y@] as int, rows),
                },
            )
        },
        Operation::SkipIfKeyDown(x) => {
            if regs[x@] > 15 {
                Err(VmError::InvalidKey(regs[x@]))
            } else {
                Ok(
                    MachineState {
                        cpu: CpuState {
                            pc: c.pc + (if s.plat.keys[regs[x@] as int] { 4int } else { 2int }),
                            ..c
                        },
                        ..s
                    },
                )
            }
        },
        Operation::SkipIfKeyUp(x) => {
            if regs[x@] > 15 {
                Err(VmError::InvalidKey(regs[x@]))
            } else {
                Ok(
                    MachineState {
                        cpu: CpuState {
                            pc: c.pc + (if s.plat.keys[regs[x@] as int] { 2int } else { 4int }),
                            ..c
                        },
                        ..s
                    },
                )
            }
        },
        Operation::GetDelayTimer(x) => Ok(
            MachineState {
                cpu: CpuState { pc: c.pc + 2, regs: regs.update(x@, s.plat.delay), ..c },
                ..s
            },
        ),
        Operation::WaitForKey(x) => {
            let hi = highest_key_below(s.plat.keys, 16);
            if hi >= 0 {
                Ok(
                    MachineState {
                        cpu: CpuState { pc: c.pc + 2, regs: regs.update(x@, hi as u8), ..c },
                        ..s
                    },
                )
            } else {
                Ok(s)
            }
        },
        Operation::SetDelayTimer(x) => Ok(
            MachineState {
                cpu: CpuState { pc: c.pc + 2, ..c },
                plat: PlatformModel { delay: regs[x@], ..s.plat },
            },
        ),
        Operation::SetSoundTimer(x) => Ok(
            MachineState {
                cpu: CpuState { pc: c.pc + 2, ..c },
                plat: PlatformModel { sound: regs[x@], ..s.plat },
            },
        ),
        Operation::IncrementIndexRegister(x) => Ok(
            MachineState {
                cpu: CpuState { pc: c.pc + 2, index: c.index + regs[x@], ..c },
                ..s
            },
        ),
        Operation::SetIndexRegisterToSprite(x) => Ok(
            MachineState {
                cpu: CpuState { pc: c.pc + 2, index: regs[x@] * 5, ..c },
                ..s
            },
        ),
        Operation::ToDecimal(x) => {
            let v = regs[x@];
            Ok(
                MachineState {
                    cpu: CpuState {
                        pc: c.pc + 2,
                        mem: c.mem.update(c.index, (v / 100) as u8).update(
                            c.index + 1,
                            ((v % 100) / 10) as u8,
                        ).update(c.index + 2, (v % 10) as u8),
                        ..c
                    },
                    ..s
                },
            )
        },
        Operation::WriteMemory(n) => Ok(
            MachineState {
                cpu: CpuState {
                    pc: c.pc + 2,
                    index: c.index + n@ + 1,
                    mem: Seq::new(
                        c.mem.len(),
                        |i: int|
                            if c.index <= i <= c.index + n@ {
                                regs[i - c.index]
                            } else {
                                c.mem[i]
                            },
                    ),
                    ..c
                },
                ..s
            },
        ),
        Operation::ReadMemory(n) => Ok(
            MachineState {
                cpu: CpuState {
                    pc: c.pc + 2,
                    index: c.index + n@ + 1,
                    regs: Seq::new(
                        regs.len(),
                        |i: int| if i <= n@ {
                            c.mem[c.index + i]
                        } else {
                            regs[i]
                        },
                    ),
                    ..c
                },
                ..s
            },
        ),
    }
}

/// One whole machine step: fetch, decode, execute. A word outside every
/// recognized shape yields the unrecognized-opcode error carrying that
/// word; errors leave the state unchanged.
pub open spec fn spec_step(s: MachineState) -> Result<MachineState, VmError> {
    match spec_decode(spec_fetch(s)) {
        Some(op) => spec_step_op(s, op),
        None => Err(VmError::UnknownOpCode(OpCode { value: spec_fetch(s) as u16 })),
    }
}

/// The machine state right after loading an image: cleared registers and
/// stack, the payload copied at the entry address, the program counter at
/// the entry address.
pub open spec fn initial_state(entry: int, payload: Seq<u8>, plat: PlatformModel) -> MachineState {
    MachineState {
        cpu: CpuState {
            regs: Seq::new(16, |i: int| 0u8),
            index: 0,
            pc: entry,
            stack: Seq::empty(),
            mem: Seq::new(
                4096,
                |i: int|
                    if entry <= i < entry + payload.len() {
                        payload[i - entry]
                    } else {
                        0u8
                    },
            ),
        },
        plat,
    }
}

/// The execution engine. It exclusively owns the CPU state and the
/// capability handle, and is the only thing that mutates them.
pub struct Interpreter<P: Platform> {
    platform: P,
    registers: Vec<u8>,
    index_register: usize,
    memory: Vec<u8>,
    pc: usize,
    call_stack: Vec<usize>,
}

impl<P: Platform> View for Interpreter<P> {
    type V = MachineState;

    closed spec fn view(&self) -> MachineState {
        MachineState {
            cpu: CpuState {
                regs: self.registers@,
                index: self.index_register as int,
                pc: self.pc as int,
                stack: self.call_stack@,
                mem: self.memory@,
            },
            plat: self.platform.model(),
        }
    }
}

impl<P: Platform> Interpreter<P> {
    /// Build a machine from a program image and a backend: the payload is
    /// copied into memory at the entry address, where execution starts.
    pub fn new<I: Image>(image: I, platform: P) -> (interp: Interpreter<P>)
        requires
            image.spec_entry() + image.spec_payload().len() <= 4096,
            model_wf(platform.model()),
        ensures
            interp@ == initial_state(
                image.spec_entry(),
                image.spec_payload(),
                platform.model(),
            ),
            machine_wf(interp@),
    {
        let entry = image.entry_point().as_usize();
        let data = image.payload();
        let registers: Vec<u8> = vec![0u8; 16];
        let mut memory: Vec<u8> = vec![0u8; 4096];
        let mut i: usize = 0;
        while i < data.len()
            invariant
                i <= data.len(),
                entry + data.len() <= 4096,
                data@ == image.spec_payload(),
                entry == image.spec_entry(),
                memory@.len() == 4096,
                forall|k: int|
                    0 <= k < 4096 ==> memory@[k] == (if entry <= k < entry + i {
                        data@[k - entry]
                    } else {
                        0u8
                    }),
            decreases data.len() - i,
        {
            memory[entry + i] = data[i];
            i += 1;
        }
        let interp = Interpreter {
            platform,
            registers,
            index_register: 0,
            memory,
            pc: entry,
            call_stack: Vec::new(),
        };
        proof {
            let target = initial_state(
                image.spec_entry(),
                image.spec_payload(),
                interp.platform.model(),
            );
            assert(interp@.cpu.mem =~= target.cpu.mem);
            assert(interp@.cpu.regs =~= target.cpu.regs);
            assert(interp@.cpu.stack =~= target.cpu.stack);
            assert(interp@ =~= target);
        }
        interp
    }

    /// The backend, read-only.
    pub fn platform(&self) -> (p: &P)
        ensures
            p.model() == self@.plat,
    {
        &self.platform
    }

    /// The backend, for injecting external input between steps. Everything
    /// but the backend is untouched, and the view tracks whatever the
    /// caller does through the reference.
    pub fn platform_mut(&mut self) -> (p: &mut P)
        ensures
            (*p).model() == old(self)@.plat,
            final(self)@ == (MachineState { plat: final(p).model(), ..old(self)@ }),
    {
        &mut self.platform
    }

    /// The value of one general-purpose register.
    pub fn register(&self, x: RegisterIndex) -> (v: u8)
        requires
            machine_wf(self@),
            x.wf(),
        ensures
            v == self@.cpu.regs[x@],
    {
        self.registers[x.as_usize()]
    }

    /// The current program counter.
    pub fn program_counter(&self) -> (pc: usize)
        ensures
            pc == self@.cpu.pc,
    {
        self.pc
    }

    /// The current index register.
    pub fn index_register(&self) -> (i: usize)
        ensures
            i == self@.cpu.index,
    {
        self.index_register
    }

    /// How many call-stack entries are live.
    pub fn stack_depth(&self) -> (d: usize)
        ensures
            d == self@.cpu.stack.len(),
    {
        self.call_stack.len()
    }

    /// One byte of memory.
    pub fn memory_byte(&self, addr: Address) -> (b: u8)
        requires
            machine_wf(self@),
            addr.wf(),
        ensures
            b == self@.cpu.mem[addr@],
    {
        self.memory[addr.as_usize()]
    }

    /// Fetch the instruction word at the program counter: big-endian, high
    /// byte at `pc`, low byte at `pc + 1`.
    fn extract_opcode(&self) -> (code: OpCode)
        requires
            machine_wf(self@),
            self@.cpu.pc + 1 < 4096,
        ensures
            code@ == spec_fetch(self@),
    {
        let hi = self.memory[self.pc];
        let lo = self.memory[self.pc + 1];
        let h16 = hi as u16;
        let l16 = lo as u16;
        assert((h16 << 8u16) | l16 == h16 * 256 + l16) by (bit_vector)
            requires
                h16 < 256 && l16 < 256,
        ;
        OpCode::new((h16 << 8u16) | l16)
    }

    /// Fetch, decode and execute exactly one instruction.
    pub fn run_next_instruction(&mut self) -> (r: Result<(), VmError>)
        requires
            machine_wf(old(self)@),
            step_safe(old(self)@),
        ensures
            machine_wf(final(self)@),
            match spec_step(old(self)@) {
                Ok(s2) => r is Ok && final(self)@ == s2,
                Err(e) => r == Err::<(), VmError>(e) && final(self)@ == old(self)@,
            },
    {
        let code = self.extract_opcode();
        match Operation::try_from(code) {
            Ok(operation) => match operation {
                Operation::ClearScreen => {
                    self.cls();
                    Ok(())
                },
                Operation::Jump(addr) => {
                    self.jmp(addr);
                    Ok(())
                },
                Operation::SetRegister(vx, nn) => {
                    self.set_reg(vx, nn);
                    Ok(())
                },
                Operation::SetIndexRegister(addr) => {
                    self.set_i(addr);
                    Ok(())
                },
                Operation::Draw(vx, vy, n) => {
                    self.draw(vx, vy, n);
                    Ok(())
                },
                Operation::AddValue(vx, nn) => {
                    self.add_value(vx, nn);
                    Ok(())
                },
                Operation::SkipIfEqual(vx, nn) => {
                    self.skip_if_eq(vx, nn);
                    Ok(())
                },
                Operation::SkipIfNotEqual(vx, nn) => {
                    self.skip_if_neq(vx, nn);
                    Ok(())
                },
                Operation::SkipIfRegistersEqual(vx, vy) => {
                    self.skip_if_reg_eq(vx, vy);
                    Ok(())
                },
                Operation::SkipIfRegistersNotEqual(vx, vy) => {
                    self.skip_if_reg_neq(vx, vy);
                    Ok(())
                },
                Operation::Call(nnn) => self.call(nnn),
                Operation::Return => self.ret(),
                Operation::SetToRegister(vx, vy) => {
                    self.set_to_reg(vx, vy);
                    Ok(())
                },
                Operation::Or(vx, vy) => {
                    self.or(vx, vy);
                    Ok(())
                },
                Operation::And(vx, vy) => {
                    self.and(vx, vy);
                    Ok(())
                },
                Operation::Xor(vx, vy) => {
                    self.xor(vx, vy);
                    Ok(())
                },
                Operation::AddRegister(vx, vy) => {
                    self.add_to_reg(vx, vy);
                    Ok(())
                },
                Operation::SubRegister(vx, vy) => {
                    self.sub(vx, vy);
                    Ok(())
                },
                Operation::SubRegisterReversed(vx, vy) => {
                    self.sub_rev(vx, vy);
                    Ok(())
                },
                Operation::ShiftRight(vx, vy) => {
                    self.shr(vx, vy);
                    Ok(())
                },
                Operation::ShiftLeft(vx, vy) => {
                    self.shl(vx, vy);
                    Ok(())
                },
                Operation::ReadMemory(n) => {
                    self.read(n);
                    Ok(())
                },
                Operation::WriteMemory(n) => {
                    self.write(n);
                    Ok(())
                },
                Operation::ToDecimal(vx) => {
                    self.dec(vx);
                    Ok(())
                },
                Operation::IncrementIndexRegister(vx) => {
                    self.incr_i(vx);
                    Ok(())
                },
                Operation::SkipIfKeyDown(vx) => self.key_down(vx),
                Operation::SkipIfKeyUp(vx) => self.key_up(vx),
                Operation::SetDelayTimer(vx) => {
                    self.set_delay_timer(vx);
                    Ok(())
                },
                Operation::GetDelayTimer(vx) => {
                    self.get_delay_timer(vx);
                    Ok(())
                },
                Operation::SetSoundTimer(vx) => {
                    self.set_sound_timer(vx);
                    Ok(())
                },
                Operation::JumpV0(nnn) => {
                    self.jmp_v0(nnn);
                    Ok(())
                },
                Operation::WaitForKey(vx) => {
                    self.wait_for_key(vx);
                    Ok(())
                },
                Operation::SetToRandom(vx, nn) => {
                    self.set_rng(vx, nn);
                    Ok(())
                },
                Operation::SetIndexRegisterToSprite(vx) => {
                    self.set_sprite(vx);
                    Ok(())
                },
            },
            Err(e) => Err(e),
        }
    }
}

impl<P: Platform> Interpreter<P> {
    fn cls(&mut self)
        requires
            machine_wf(old(self)@),
            old(self)@.cpu.pc + 1 < 4096,
        ensures
            machine_wf(final(self)@),
            Ok::<MachineState, VmError>(final(self)@) == spec_step_op(
                old(self)@,
                Operation::ClearScreen,
            ),
    {
        proof {
            reveal(spec_step_op);
        }
        self.platform.clear_screen();
        self.pc += 2;
    }

    fn set_reg(&mut self, x: RegisterIndex, nn: Word)
        requires
            machine_wf(old(self)@),
            old(self)@.cpu.pc + 1 < 4096,
            x.wf(),
        ensures
            machine_wf(final(self)@),
            Ok::<MachineState, VmError>(final(self)@) == spec_step_op(
                old(self)@,
                Operation::SetRegister(x, nn),
            ),
    {
        proof {
            reveal(spec_step_op);
        }
        self.registers[x.as_usize()] = nn;
        self.pc += 2;
    }

    fn set_i(&mut self, addr: Address)
        requires
            machine_wf(old(self)@),
            old(self)@.cpu.pc + 1 < 4096,
            addr.wf(),
        ensures
            machine_wf(final(self)@),
            Ok::<MachineState, VmError>(final(self)@) == spec_step_op(
                old(self)@,
                Operation::SetIndexRegister(addr),
            ),
    {
        proof {
            reveal(spec_step_op);
        }
        self.index_register = addr.as_usize();
        self.pc += 2;
    }

    fn jmp(&mut self, nnn: Address)
        requires
            machine_wf(old(self)@),
            nnn.wf(),
        ensures
            machine_wf(final(self)@),
            Ok::<MachineState, VmError>(final(self)@) == spec_step_op(
                old(self)@,
                Operation::Jump(nnn),
            ),
    {
        proof {
            reveal(spec_step_op);
        }
        self.pc = nnn.as_usize();
    }

    fn draw(&mut self, x: RegisterIndex, y: RegisterIndex, n: Nibble)
        requires
            machine_wf(old(self)@),
            old(self)@.cpu.pc + 1 < 4096,
            x.wf(),
            y.wf(),
            n.wf(),
            old(self)@.cpu.index + n@ <= old(self)@.cpu.mem.len(),
        ensures
            machine_wf(final(self)@),
            Ok::<MachineState, VmError>(final(self)@) == spec_step_op(
                old(self)@,
                Operation::Draw(x, y, n),
            ),
    {
        proof {
            reveal(spec_step_op);
        }
        let start = self.index_register;
        let rows = slice_subrange(self.memory.as_slice(), start, start + n.as_usize());
        let px = self.registers[x.as_usize()];
        let py = self.registers[y.as_usize()];
        let collision = self.platform.draw_sprite(Point(px, py), Sprite::new(rows));
        self.registers[15] = if collision {
            1
        } else {
            0
        };
        self.pc += 2;
    }

    fn add_value(&mut self, x: RegisterIndex, nn: Word)
        requires
            machine_wf(old(self)@),
            old(self)@.cpu.pc + 1 < 4096,
            x.wf(),
        ensures
            machine_wf(final(self)@),
            Ok::<MachineState, VmError>(final(self)@) == spec_step_op(
                old(self)@,
                Operation::AddValue(x, nn),
            ),
    {
        proof {
            reveal(spec_step_op);
        }
        let sum = self.registers[x.as_usize()] as u16 + nn as u16;
        self.registers[x.as_usize()] = (sum % 256) as u8;
        self.pc += 2;
    }

    fn skip_if_eq(&mut self, x: RegisterIndex, nn: Word)
        requires
            machine_wf(old(self)@),
            old(self)@.cpu.pc + 1 < 4096,
            x.wf(),
        ensures
            machine_wf(final(self)@),
            Ok::<MachineState, VmError>(final(self)@) == spec_step_op(
                old(self)@,
                Operation::SkipIfEqual(x, nn),
            ),
    {
        proof {
            reveal(spec_step_op);
        }
        if self.registers[x.as_usize()] == nn {
            self.pc += 4;
        } else {
            self.pc += 2;
        }
    }

    fn skip_if_neq(&mut self, x: RegisterIndex, nn: Word)
        requires
            machine_wf(old(self)@),
            old(self)@.cpu.pc + 1 < 4096,
            x.wf(),
        ensures
            machine_wf(final(self)@),
            Ok::<MachineState, VmError>(final(self)@) == spec_step_op(
                old(self)@,
                Operation::SkipIfNotEqual(x, nn),
            ),
    {
        proof {
            reveal(spec_step_op);
        }
        if self.registers[x.as_usize()] != nn {
            self.pc += 4;
        } else {
            self.pc += 2;
        }
    }

    fn skip_if_reg_eq(&mut self, x: RegisterIndex, y: RegisterIndex)
        requires
            machine_wf(old(self)@),
            old(self)@.cpu.pc + 1 < 4096,
            x.wf(),
            y.wf(),
        ensures
            machine_wf(final(self)@),
            Ok::<MachineState, VmError>(final(self)@) == spec_step_op(
                old(self)@,
                Operation::SkipIfRegistersEqual(x, y),
            ),
    {
        proof {
            reveal(spec_step_op);
        }
        if self.registers[x.as_usize()] == self.registers[y.as_usize()] {
            self.pc += 4;
        } else {
            self.pc += 2;
        }
    }

    fn skip_if_reg_neq(&mut self, x: RegisterIndex, y: RegisterIndex)
        requires
            machine_wf(old(self)@),
            old(self)@.cpu.pc + 1 < 4096,
            x.wf(),
            y.wf(),
        ensures
            machine_wf(final(self)@),
            Ok::<MachineState, VmError>(final(self)@) == spec_step_op(
                old(self)@,
                Operation::SkipIfRegistersNotEqual(x, y),
            ),
    {
        proof {
            reveal(spec_step_op);
        }
        if self.registers[x.as_usize()] != self.registers[y.as_usize()] {
            self.pc += 4;
        } else {
            self.pc += 2;
        }
    }

    fn call(&mut self, nnn: Address) -> (r: Result<(), VmError>)
        requires
            machine_wf(old(self)@),
            old(self)@.cpu.pc + 1 < 4096,
            nnn.wf(),
        ensures
            machine_wf(final(self)@),
            match spec_step_op(old(self)@, Operation::Call(nnn)) {
                Ok(s2) => r is Ok && final(self)@ == s2,
                Err(e) => r == Err::<(), VmError>(e) && final(self)@ == old(self)@,
            },
    {
        proof {
            reveal(spec_step_op);
        }
        if self.call_stack.len() >= 16 {
            Err(VmError::StackOverflow)
        } else {
            self.call_stack.push(self.pc + 2);
            self.pc = nnn.as_usize();
            Ok(())
        }
    }

    fn ret(&mut self) -> (r: Result<(), VmError>)
        requires
            machine_wf(old(self)@),
        ensures
            machine_wf(final(self)@),
            match spec_step_op(old(self)@, Operation::Return) {
                Ok(s2) => r is Ok && final(self)@ == s2,
                Err(e) => r == Err::<(), VmError>(e) && final(self)@ == old(self)@,
            },
    {
        proof {
            reveal(spec_step_op);
        }
        match self.call_stack.pop() {
            Some(target) => {
                self.pc = target;
                Ok(())
            },
            None => Err(VmError::StackUnderflow),
        }
    }

    fn set_to_reg(&mut self, x: RegisterIndex, y: RegisterIndex)
        requires
            machine_wf(old(self)@),
            old(self)@.cpu.pc + 1 < 4096,
            x.wf(),
            y.wf(),
        ensures
            machine_wf(final(self)@),
            Ok::<MachineState, VmError>(final(self)@) == spec_step_op(
                old(self)@,
                Operation::SetToRegister(x, y),
            ),
    {
        proof {
            reveal(spec_step_op);
        }
        self.registers[x.as_usize()] = self.registers[y.as_usize()];
        self.pc += 2;
    }

    fn or(&mut self, x: RegisterIndex, y: RegisterIndex)
        requires
            machine_wf(old(self)@),
            old(self)@.cpu.pc + 1 < 4096,
            x.wf(),
            y.wf(),
        ensures
            machine_wf(final(self)@),
            Ok::<MachineState, VmError>(final(self)@) == spec_step_op(
                old(self)@,
                Operation::Or(x, y),
            ),
    {
        proof {
            reveal(spec_step_op);
        }
        self.registers[x.as_usize()] = self.registers[x.as_usize()] | self.registers[y.as_usize()];
        self.registers[15] = 0;
        self.pc += 2;
    }

    fn and(&mut self, x: RegisterIndex, y: RegisterIndex)
        requires
            machine_wf(old(self)@),
            old(self)@.cpu.pc + 1 < 4096,
            x.wf(),
            y.wf(),
        ensures
            machine_wf(final(self)@),
            Ok::<MachineState, VmError>(final(self)@) == spec_step_op(
                old(self)@,
                Operation::And(x, y),
            ),
    {
        proof {
            reveal(spec_step_op);
        }
        self.registers[x.as_usize()] = self.registers[x.as_usize()] & self.registers[y.as_usize()];
        self.registers[15] = 0;
        self.pc += 2;
    }

    fn xor(&mut self, x: RegisterIndex, y: RegisterIndex)
        requires
            machine_wf(old(self)@),
            old(self)@.cpu.pc + 1 < 4096,
            x.wf(),
            y.wf(),
        ensures
            machine_wf(final(self)@),
            Ok::<MachineState, VmError>(final(self)@) == spec_step_op(
                old(self)@,
                Operation::Xor(x, y),
            ),
    {
        proof {
            reveal(spec_step_op);
        }
        self.registers[x.as_usize()] = self.registers[x.as_usize()] ^ self.registers[y.as_usize()];
        self.registers[15] = 0;
        self.pc += 2;
    }

    fn add_to_reg(&mut self, x: RegisterIndex, y: RegisterIndex)
        requires
            machine_wf(old(self)@),
            old(self)@.cpu.pc + 1 < 4096,
            x.wf(),
            y.wf(),
        ensures
            machine_wf(final(self)@),
            Ok::<MachineState, VmError>(final(self)@) == spec_step_op(
                old(self)@,
                Operation::AddRegister(x, y),
            ),
    {
        proof {
            reveal(spec_step_op);
        }
        let sum = self.registers[x.as_usize()] as u16 + self.registers[y.as_usize()] as u16;
        self.registers[x.as_usize()] = (sum % 256) as u8;
        self.registers[15] = if sum >= 256 {
            1
        } else {
            0
        };
        self.pc += 2;
    }

    fn sub(&mut self, x: RegisterIndex, y: RegisterIndex)
        requires
            machine_wf(old(self)@),
            old(self)@.cpu.pc + 1 < 4096,
            x.wf(),
            y.wf(),
        ensures
            machine_wf(final(self)@),
            Ok::<MachineState, VmError>(final(self)@) == spec_step_op(
                old(self)@,
                Operation::SubRegister(x, y),
            ),
    {
        proof {
            reveal(spec_step_op);
        }
        let a = self.registers[x.as_usize()] as u16;
        let b = self.registers[y.as_usize()] as u16;
        self.registers[x.as_usize()] = ((a + 256 - b) % 256) as u8;
        self.registers[15] = if a >= b {
            1
        } else {
            0
        };
        self.pc += 2;
    }

    fn sub_rev(&mut self, x: RegisterIndex, y: RegisterIndex)
        requires
            machine_wf(old(self)@),
            old(self)@.cpu.pc + 1 < 4096,
            x.wf(),
            y.wf(),
        ensures
            machine_wf(final(self)@),
            Ok::<MachineState, VmError>(final(self)@) == spec_step_op(
                old(self)@,
                Operation::SubRegisterReversed(x, y),
            ),
    {
        proof {
            reveal(spec_step_op);
        }
        let a = self.registers[x.as_usize()] as u16;
        let b = self.registers[y.as_usize()] as u16;
        self.registers[x.as_usize()] = ((b + 256 - a) % 256) as u8;
        self.registers[15] = if b >= a {
            1
        } else {
            0
        };
        self.pc += 2;
    }

    fn shr(&mut self, x: RegisterIndex, y: RegisterIndex)
        requires
            machine_wf(old(self)@),
            old(self)@.cpu.pc + 1 < 4096,
            x.wf(),
            y.wf(),
        ensures
            machine_wf(final(self)@),
            Ok::<MachineState, VmError>(final(self)@) == spec_step_op(
                old(self)@,
                Operation::ShiftRight(x, y),
            ),
    {
        proof {
            reveal(spec_step_op);
        }
        let vy = self.registers[y.as_usize()];
        self.registers[x.as_usize()] = vy / 2;
        self.registers[15] = vy % 2;
        self.pc += 2;
    }

    fn shl(&mut self, x: RegisterIndex, y: RegisterIndex)
        requires
            machine_wf(old(self)@),
            old(self)@.cpu.pc + 1 < 4096,
            x.wf(),
            y.wf(),
        ensures
            machine_wf(final(self)@),
            Ok::<MachineState, VmError>(final(self)@) == spec_step_op(
                old(self)@,
                Operation::ShiftLeft(x, y),
            ),
    {
        proof {
            reveal(spec_step_op);
        }
        let vy = self.registers[y.as_usize()] as u16;
        self.registers[x.as_usize()] = ((vy * 2) % 256) as u8;
        self.registers[15] = (vy / 128) as u8;
        self.pc += 2;
    }

    fn read(&mut self, n: Nibble)
        requires
            machine_wf(old(self)@),
            old(self)@.cpu.pc + 1 < 4096,
            n.wf(),
            old(self)@.cpu.index + n@ + 1 <= old(self)@.cpu.mem.len(),
        ensures
            machine_wf(final(self)@),
            Ok::<MachineState, VmError>(final(self)@) == spec_step_op(
                old(self)@,
                Operation::ReadMemory(n),
            ),
    {
        proof {
            reveal(spec_step_op);
        }
        let count = n.as_usize() + 1;
        let start = self.index_register;
        let mut i: usize = 0;
        while i < count
            invariant
                i <= count,
                count == n@ + 1,
                count <= 16,
                start == old(self)@.cpu.index,
                start + count <= old(self)@.cpu.mem.len(),
                machine_wf(old(self)@),
                self.memory@ == old(self)@.cpu.mem,
                self.registers@.len() == 16,
                self.index_register == old(self).index_register,
                self.pc == old(self).pc,
                self.call_stack@ == old(self)@.cpu.stack,
                self.platform.model() == old(self)@.plat,
                forall|k: int|
                    0 <= k < 16 ==> self.registers@[k] == (if k < i {
                        old(self)@.cpu.mem[start + k]
                    } else {
                        old(self)@.cpu.regs[k]
                    }),
            decreases count - i,
        {
            self.registers[i] = self.memory[start + i];
            i += 1;
        }
        self.index_register = start + count;
        self.pc += 2;
        proof {
            let target = spec_step_op(old(self)@, Operation::ReadMemory(n));
            assert(self@.cpu.regs =~= target->Ok_0.cpu.regs);
            assert(self@ =~= target->Ok_0);
        }
    }

    fn write(&mut self, n: Nibble)
        requires
            machine_wf(old(self)@),
            old(self)@.cpu.pc + 1 < 4096,
            n.wf(),
            old(self)@.cpu.index + n@ + 1 <= old(self)@.cpu.mem.len(),
        ensures
            machine_wf(final(self)@),
            Ok::<MachineState, VmError>(final(self)@) == spec_step_op(
                old(self)@,
                Operation::WriteMemory(n),
            ),
    {
        proof {
            reveal(spec_step_op);
        }
        let count = n.as_usize() + 1;
        let start = self.index_register;
        let mut i: usize = 0;
        while i < count
            invariant
                i <= count,
                count == n@ + 1,
                count <= 16,
                start == old(self)@.cpu.index,
                start + count <= old(self)@.cpu.mem.len(),
                machine_wf(old(self)@),
                self.registers@ == old(self)@.cpu.regs,
                self.memory@.len() == 4096,
                self.index_register == old(self).index_register,
                self.pc == old(self).pc,
                self.call_stack@ == old(self)@.cpu.stack,
                self.platform.model() == old(self)@.plat,
                forall|k: int|
                    0 <= k < 4096 ==> self.memory@[k] == (if start <= k < start + i {
                        old(self)@.cpu.regs[k - start]
                    } else {
                        old(self)@.cpu.mem[k]
                    }),
            decreases count - i,
        {
            self.memory[start + i] = self.registers[i];
            i += 1;
        }
        self.index_register = start + count;
        self.pc += 2;
        proof {
            let target = spec_step_op(old(self)@, Operation::WriteMemory(n));
            assert(self@.cpu.mem =~= target->Ok_0.cpu.mem);
            assert(self@ =~= target->Ok_0);
        }
    }

    fn dec(&mut self, x: RegisterIndex)
        requires
            machine_wf(old(self)@),
            old(self)@.cpu.pc + 1 < 4096,
            x.wf(),
            old(self)@.cpu.index + 3 <= old(self)@.cpu.mem.len(),
        ensures
            machine_wf(final(self)@),
            Ok::<MachineState, VmError>(final(self)@) == spec_step_op(
                old(self)@,
                Operation::ToDecimal(x),
            ),
    {
        proof {
            reveal(spec_step_op);
        }
        let v = self.registers[x.as_usize()];
        let start = self.index_register;
        self.memory[start] = v / 100;
        self.memory[start + 1] = (v % 100) / 10;
        self.memory[start + 2] = v % 10;
        self.pc += 2;
    }

    fn incr_i(&mut self, x: RegisterIndex)
        requires
            machine_wf(old(self)@),
            old(self)@.cpu.pc + 1 < 4096,
            x.wf(),
            old(self)@.cpu.index + old(self)@.cpu.regs[x@] <= usize::MAX,
        ensures
            machine_wf(final(self)@),
            Ok::<MachineState, VmError>(final(self)@) == spec_step_op(
                old(self)@,
                Operation::IncrementIndexRegister(x),
            ),
    {
        proof {
            reveal(spec_step_op);
        }
        self.index_register = self.index_register + self.registers[x.as_usize()] as usize;
        self.pc += 2;
    }

    fn key_down(&mut self, x: RegisterIndex) -> (r: Result<(), VmError>)
        requires
            machine_wf(old(self)@),
            old(self)@.cpu.pc + 1 < 4096,
            x.wf(),
        ensures
            machine_wf(final(self)@),
            match spec_step_op(old(self)@, Operation::SkipIfKeyDown(x)) {
                Ok(s2) => r is Ok && final(self)@ == s2,
                Err(e) => r == Err::<(), VmError>(e) && final(self)@ == old(self)@,
            },
    {
        proof {
            reveal(spec_step_op);
        }
        let v = self.registers[x.as_usize()];
        if v > 15 {
            Err(VmError::InvalidKey(v))
        } else {
            if self.platform.is_key_down(Nibble::new(v)) {
                self.pc += 4;
            } else {
                self.pc += 2;
            }
            Ok(())
        }
    }

    fn key_up(&mut self, x: RegisterIndex) -> (r: Result<(), VmError>)
        requires
            machine_wf(old(self)@),
            old(self)@.cpu.pc + 1 < 4096,
            x.wf(),
        ensures
            machine_wf(final(self)@),
            match spec_step_op(old(self)@, Operation::SkipIfKeyUp(x)) {
                Ok(s2) => r is Ok && final(self)@ == s2,
                Err(e) => r == Err::<(), VmError>(e) && final(self)@ == old(self)@,
            },
    {
        proof {
            reveal(spec_step_op);
        }
        let v = self.registers[x.as_usize()];
        if v > 15 {
            Err(VmError::InvalidKey(v))
        } else {
            if !self.platform.is_key_down(Nibble::new(v)) {
                self.pc += 4;
            } else {
                self.pc += 2;
            }
            Ok(())
        }
    }

    fn set_delay_timer(&mut self, x: RegisterIndex)
        requires
            machine_wf(old(self)@),
            old(self)@.cpu.pc + 1 < 4096,
            x.wf(),
        ensures
            machine_wf(final(self)@),
            Ok::<MachineState, VmError>(final(self)@) == spec_step_op(
                old(self)@,
                Operation::SetDelayTimer(x),
            ),
    {
        proof {
            reveal(spec_step_op);
        }
        let v = self.registers[x.as_usize()];
        self.platform.set_delay_timer(v);
        self.pc += 2;
    }

    fn get_delay_timer(&mut self, x: RegisterIndex)
        requires
            machine_wf(old(self)@),
            old(self)@.cpu.pc + 1 < 4096,
            x.wf(),
        ensures
            machine_wf(final(self)@),
            Ok::<MachineState, VmError>(final(self)@) == spec_step_op(
                old(self)@,
                Operation::GetDelayTimer(x),
            ),
    {
        proof {
            reveal(spec_step_op);
        }
        self.registers[x.as_usize()] = self.platform.get_delay_timer();
        self.pc += 2;
    }

    fn set_sound_timer(&mut self, x: RegisterIndex)
        requires
            machine_wf(old(self)@),
            old(self)@.cpu.pc + 1 < 4096,
            x.wf(),
        ensures
            machine_wf(final(self)@),
            Ok::<MachineState, VmError>(final(self)@) == spec_step_op(
                old(self)@,
                Operation::SetSoundTimer(x),
            ),
    {
        proof {
            reveal(spec_step_op);
        }
        let v = self.registers[x.as_usize()];
        self.platform.set_sound_timer(v);
        self.pc += 2;
    }

    /// The busy-wait instruction: scan all 16 keys; when several are
    /// pressed, the highest index wins, because it is scanned last. When
    /// none is pressed the program counter stays put, so the same
    /// instruction re-executes on the next cycle.
    fn wait_for_key(&mut self, x: RegisterIndex)
        requires
            machine_wf(old(self)@),
            old(self)@.cpu.pc + 1 < 4096,
            x.wf(),
        ensures
            machine_wf(final(self)@),
            Ok::<MachineState, VmError>(final(self)@) == spec_step_op(
                old(self)@,
                Operation::WaitForKey(x),
            ),
    {
        proof {
            reveal(spec_step_op);
        }
        let ghost keys = old(self)@.plat.keys;
        let mut found = false;
        let mut i: u8 = 0;
        while i < 16
            invariant
                i <= 16,
                machine_wf(old(self)@),
                x.wf(),
                keys == old(self)@.plat.keys,
                self.memory@ == old(self)@.cpu.mem,
                self.index_register == old(self).index_register,
                self.pc == old(self).pc,
                self.call_stack@ == old(self)@.cpu.stack,
                self.platform.model() == old(self)@.plat,
                self.registers@.len() == 16,
                found == (highest_key_below(keys, i as int) >= 0),
                found ==> self.registers@ == old(self)@.cpu.regs.update(
                    x@,
                    highest_key_below(keys, i as int) as u8,
                ),
                !found ==> self.registers@ == old(self)@.cpu.regs,
            decreases 16 - i,
        {
            if self.platform.is_key_down(Nibble::new(i)) {
                self.registers[x.as_usize()] = i;
                found = true;
            }
            i += 1;
        }
        if found {
            self.pc += 2;
        }
        proof {
            if !found {
                assert(self@ =~= old(self)@);
            }
        }
    }

    fn jmp_v0(&mut self, nnn: Address)
        requires
            machine_wf(old(self)@),
            nnn.wf(),
        ensures
            machine_wf(final(self)@),
            Ok::<MachineState, VmError>(final(self)@) == spec_step_op(
                old(self)@,
                Operation::JumpV0(nnn),
            ),
    {
        proof {
            reveal(spec_step_op);
        }
        self.pc = nnn.as_usize() + self.registers[0] as usize;
    }

    fn set_rng(&mut self, x: RegisterIndex, nn: Word)
        requires
            machine_wf(old(self)@),
            old(self)@.cpu.pc + 1 < 4096,
            x.wf(),
        ensures
            machine_wf(final(self)@),
            Ok::<MachineState, VmError>(final(self)@) == spec_step_op(
                old(self)@,
                Operation::SetToRandom(x, nn),
            ),
    {
        proof {
            reveal(spec_step_op);
        }
        let w = self.platform.get_random_word();
        self.registers[x.as_usize()] = w & nn;
        self.pc += 2;
    }

    fn set_sprite(&mut self, x: RegisterIndex)
        requires
            machine_wf(old(self)@),
            old(self)@.cpu.pc + 1 < 4096,
            x.wf(),
        ensures
            machine_wf(final(self)@),
            Ok::<MachineState, VmError>(final(self)@) == spec_step_op(
                old(self)@,
                Operation::SetIndexRegisterToSprite(x),
            ),
    {
        proof {
            reveal(spec_step_op);
        }
        self.index_register = self.registers[x.as_usize()] as usize * 5;
        self.pc += 2;
    }
}

} // verus!
