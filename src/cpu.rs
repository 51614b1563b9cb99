use vstd::prelude::*;

use crate::display::{collides, drawn, DisplayFrame, N_CELLS};
use crate::emulator::{FONT_OFFSET, FONT_WIDTH, RAM_SIZE, REG_SIZE, STACK_DEPTH};
use crate::instruction::{decode, decoded, well_formed, Instruction};
use crate::keyboard::{first_pressed, Keyboard, N_KEYS};
use crate::timer::Timer;

verus! {

/// Why an instruction could not be executed. Each one halts the machine.
#[derive(Clone, Copy, Debug, PartialEq, Eq, Structural)]
pub enum CpuError {
    /// A return with an empty call stack.
    StackUnderflow,
    /// A call with the call stack already `STACK_DEPTH` deep.
    StackOverflow,
    /// An opcode that encodes no instruction.
    UnsupportedOpcode(u16),
    /// A fetch, sprite read, or register store or load past the end of memory.
    AddressOutOfRange,
    /// A key instruction whose register names no key.
    KeyOutOfRange,
}

/// The registers of the CPU.
pub struct CpuState {
    pub pc: usize,
    pub i: u16,
    pub v: Seq<u8>,
    pub stack: Seq<usize>,
}

/// Everything one instruction can read or change, but the keypad.
pub struct Machine {
    pub cpu: CpuState,
    pub ram: Seq<u8>,
    pub screen: Seq<bool>,
    pub timer: u8,
}

/// The sizes that the machine keeps.
pub open spec fn machine_wf(m: Machine) -> bool {
    &&& m.cpu.v.len() == REG_SIZE
    &&& m.cpu.stack.len() <= STACK_DEPTH
    &&& m.ram.len() == RAM_SIZE
    &&& m.screen.len() == N_CELLS
}

/// `m` with the program counter at `pc` and the registers `v`.
pub open spec fn with_pc_regs(m: Machine, pc: int, v: Seq<u8>) -> Machine {
    Machine { cpu: CpuState { pc: pc as usize, v, ..m.cpu }, ..m }
}

/// `m` moved on to the next instruction.
pub open spec fn advance(m: Machine) -> Machine {
    with_pc_regs(m, m.cpu.pc + 2, m.cpu.v)
}

/// `m` moved on past the next instruction when `cond` holds, else to it.
pub open spec fn skip_if(m: Machine, cond: bool) -> Machine {
    with_pc_regs(m, m.cpu.pc + if cond { 4int } else { 2int }, m.cpu.v)
}

/// `m` moved on, with Vx set to `val`.
pub open spec fn set_reg(m: Machine, x: u8, val: u8) -> Machine {
    with_pc_regs(m, m.cpu.pc + 2, m.cpu.v.update(x as int, val))
}

/// `m` moved on, with Vx set to `val` and then VF set to `flag`.
pub open spec fn set_reg_flag(m: Machine, x: u8, val: u8, flag: bool) -> Machine {
    with_pc_regs(
        m,
        m.cpu.pc + 2,
        m.cpu.v.update(x as int, val).update(0xF, if flag { 1u8 } else { 0u8 }),
    )
}

/// `m` moved on, with I set to `i`.
pub open spec fn set_index(m: Machine, i: u16) -> Machine {
    Machine { cpu: CpuState { i, ..advance(m).cpu }, ..m }
}

/// `m` jumped to `pc`.
pub open spec fn jump_to(m: Machine, pc: int) -> Machine {
    with_pc_regs(m, pc, m.cpu.v)
}

/// What executing `ins` does to `m`, with keypad `keys` and random byte `rnd`.
pub open spec fn execute_spec(m: Machine, keys: Seq<bool>, ins: Instruction, rnd: u8) -> Result<
    Machine,
    CpuError,
> {
    let v = m.cpu.v;
    let i = m.cpu.i as int;
    match ins {
        Instruction::Clear => Ok(Machine { screen: Seq::new(m.screen.len(), |p: int| false), ..advance(m) }),
        Instruction::Return => if m.cpu.stack.len() == 0 {
            Err(CpuError::StackUnderflow)
        } else {
            Ok(
                Machine {
                    cpu: CpuState {
                        pc: m.cpu.stack.last(),
                        stack: m.cpu.stack.drop_last(),
                        ..m.cpu
                    },
                    ..m
                },
            )
        },
        Instruction::Jump { nnn } => Ok(jump_to(m, nnn as int)),
        Instruction::Call { nnn } => if m.cpu.stack.len() >= STACK_DEPTH {
            Err(CpuError::StackOverflow)
        } else {
            Ok(
                Machine {
                    cpu: CpuState {
                        pc: nnn as usize,
                        stack: m.cpu.stack.push((m.cpu.pc + 2) as usize),
                        ..m.cpu
                    },
                    ..m
                },
            )
        },
        Instruction::SkipEqImm { x, kk } => Ok(skip_if(m, v[x as int] == kk)),
        Instruction::SkipNeImm { x, kk } => Ok(skip_if(m, v[x as int] != kk)),
        Instruction::SkipEqReg { x, y } => Ok(skip_if(m, v[x as int] == v[y as int])),
        Instruction::SkipNeReg { x, y } => Ok(skip_if(m, v[x as int] != v[y as int])),
        Instruction::LoadImm { x, kk } => Ok(set_reg(m, x, kk)),
        Instruction::AddImm { x, kk } => Ok(set_reg(m, x, ((v[x as int] + kk) % 256) as u8)),
        Instruction::Copy { x, y } => Ok(set_reg(m, x, v[y as int])),
        Instruction::Or { x, y } => Ok(set_reg(m, x, v[x as int] | v[y as int])),
        Instruction::And { x, y } => Ok(set_reg(m, x, v[x as int] & v[y as int])),
        Instruction::Xor { x, y } => Ok(set_reg(m, x, v[x as int] ^ v[y as int])),
        Instruction::AddReg { x, y } => Ok(
            set_reg_flag(
                m,
                x,
                ((v[x as int] + v[y as int]) % 256) as u8,
                v[x as int] + v[y as int] > 255,
            ),
        ),
        Instruction::SubReg { x, y } => Ok(
            set_reg_flag(
                m,
                x,
                ((v[x as int] - v[y as int] + 256) % 256) as u8,
                v[x as int] >= v[y as int],
            ),
        ),
        Instruction::SubReverse { x, y } => Ok(
            set_reg_flag(
                m,
                x,
                ((v[y as int] - v[x as int] + 256) % 256) as u8,
                v[y as int] >= v[x as int],
            ),
        ),
        Instruction::ShiftRight { x } => Ok(
            set_reg_flag(m, x, v[x as int] / 2, v[x as int] % 2 == 1),
        ),
        Instruction::ShiftLeft { x } => Ok(
            set_reg_flag(m, x, ((v[x as int] * 2) % 256) as u8, v[x as int] >= 128),
        ),
        Instruction::SetIndex { nnn } => Ok(set_index(m, nnn)),
        Instruction::JumpOffset { nnn } => Ok(jump_to(m, v[0] + nnn)),
        Instruction::Random { x, kk } => Ok(set_reg(m, x, rnd & kk)),
        Instruction::Draw { x, y, n } => if i + n > RAM_SIZE {
            Err(CpuError::AddressOutOfRange)
        } else {
            let sprite = m.ram.subrange(i, i + n);
            let hit = collides(m.screen, v[x as int] as int, v[y as int] as int, sprite);
            Ok(
                Machine {
                    screen: drawn(m.screen, v[x as int] as int, v[y as int] as int, sprite),
                    ..with_pc_regs(m, m.cpu.pc + 2, v.update(0xF, if hit { 1u8 } else { 0u8 }))
                },
            )
        },
        Instruction::SkipKeyPressed { x } => if v[x as int] >= keys.len() {
            Err(CpuError::KeyOutOfRange)
        } else {
            Ok(skip_if(m, keys[v[x as int] as int]))
        },
        Instruction::SkipKeyReleased { x } => if v[x as int] >= keys.len() {
            Err(CpuError::KeyOutOfRange)
        } else {
            Ok(skip_if(m, !keys[v[x as int] as int]))
        },
        Instruction::LoadTimer { x } => Ok(set_reg(m, x, m.timer)),
        Instruction::WaitKey { x } => match first_pressed(keys) {
            Some(k) => Ok(set_reg(m, x, k as u8)),
            None => Ok(m),
        },
        Instruction::SetTimer { x } => Ok(Machine { timer: v[x as int], ..advance(m) }),
        Instruction::SetSound { x } => Ok(advance(m)),
        Instruction::AddIndex { x } => Ok(set_index(m, ((i + v[x as int]) % 0x10000) as u16)),
        Instruction::FontChar { x } => Ok(
            set_index(m, (FONT_OFFSET + FONT_WIDTH * v[x as int]) as u16),
        ),
        Instruction::Bcd { x } => if i + 3 > RAM_SIZE {
            Err(CpuError::AddressOutOfRange)
        } else {
            Ok(
                Machine {
                    ram: m.ram.update(i, v[x as int] / 100).update(
                        i + 1,
                        (v[x as int] % 100) / 10,
                    ).update(i + 2, v[x as int] % 10),
                    ..advance(m)
                },
            )
        },
        Instruction::StoreRegs { x } => if i + x + 1 > RAM_SIZE {
            Err(CpuError::AddressOutOfRange)
        } else {
            Ok(
                Machine {
                    ram: Seq::new(
                        m.ram.len(),
                        |a: int| if i <= a <= i + x { v[a - i] } else { m.ram[a] },
                    ),
                    ..advance(m)
                },
            )
        },
        Instruction::LoadRegs { x } => if i + x + 1 > RAM_SIZE {
            Err(CpuError::AddressOutOfRange)
        } else {
            Ok(
                with_pc_regs(
                    m,
                    m.cpu.pc + 2,
                    Seq::new(v.len(), |k: int| if k <= x { m.ram[i + k] } else { v[k] }),
                ),
            )
        },
    }
}

/// The big-endian opcode at address `pc`.
pub open spec fn opcode_at(ram: Seq<u8>, pc: int) -> u16 {
    (ram[pc] * 256 + ram[pc + 1]) as u16
}

/// What one fetch-decode-execute cycle does to `m`.
pub open spec fn step_spec(m: Machine, keys: Seq<bool>, rnd: u8) -> Result<Machine, CpuError> {
    if m.cpu.pc + 1 >= m.ram.len() {
        Err(CpuError::AddressOutOfRange)
    } else {
        match decoded(opcode_at(m.ram, m.cpu.pc as int)) {
            None => Err(CpuError::UnsupportedOpcode(opcode_at(m.ram, m.cpu.pc as int))),
            Some(ins) => execute_spec(m, keys, ins, rnd),
        }
    }
}

/// The machine `post` and result `r` are what `expected` says: the new machine on
/// success, the unchanged machine `pre` and the same error on failure.
pub open spec fn outcome(
    pre: Machine,
    post: Machine,
    r: Result<(), CpuError>,
    expected: Result<Machine, CpuError>,
) -> bool {
    match expected {
        Ok(m) => r is Ok && post == m,
        Err(e) => r == Err::<(), CpuError>(e) && post == pre,
    }
}

/// The instructions that change only the general registers and the program counter,
/// and never fail.
pub open spec fn is_alu(ins: Instruction) -> bool {
    match ins {
        Instruction::LoadImm { .. } | Instruction::AddImm { .. } | Instruction::Copy { .. }
        | Instruction::Or { .. } | Instruction::And { .. } | Instruction::Xor { .. }
        | Instruction::AddReg { .. } | Instruction::SubReg { .. }
        | Instruction::SubReverse { .. } | Instruction::ShiftRight { .. }
        | Instruction::ShiftLeft { .. } | Instruction::Random { .. } => true,
        _ => false,
    }
}

/// The instructions that read the general registers and change only the program
/// counter, the index register and the call stack.
pub open spec fn is_flow(ins: Instruction) -> bool {
    match ins {
        Instruction::Return | Instruction::Jump { .. } | Instruction::Call { .. }
        | Instruction::SkipEqImm { .. } | Instruction::SkipNeImm { .. }
        | Instruction::SkipEqReg { .. } | Instruction::SkipNeReg { .. }
        | Instruction::SetIndex { .. } | Instruction::JumpOffset { .. }
        | Instruction::AddIndex { .. } | Instruction::FontChar { .. }
        | Instruction::SetSound { .. } => true,
        _ => false,
    }
}

fn is_alu_exec(ins: Instruction) -> (r: bool)
    ensures
        r == is_alu(ins),
{
    match ins {
        Instruction::LoadImm { .. } | Instruction::AddImm { .. } | Instruction::Copy { .. }
        | Instruction::Or { .. } | Instruction::And { .. } | Instruction::Xor { .. }
        | Instruction::AddReg { .. } | Instruction::SubReg { .. }
        | Instruction::SubReverse { .. } | Instruction::ShiftRight { .. }
        | Instruction::ShiftLeft { .. } | Instruction::Random { .. } => true,
        _ => false,
    }
}

fn is_flow_exec(ins: Instruction) -> (r: bool)
    ensures
        r == is_flow(ins),
{
    match ins {
        Instruction::Return | Instruction::Jump { .. } | Instruction::Call { .. }
        | Instruction::SkipEqImm { .. } | Instruction::SkipNeImm { .. }
        | Instruction::SkipEqReg { .. } | Instruction::SkipNeReg { .. }
        | Instruction::SetIndex { .. } | Instruction::JumpOffset { .. }
        | Instruction::AddIndex { .. } | Instruction::FontChar { .. }
        | Instruction::SetSound { .. } => true,
        _ => false,
    }
}

/// Adding Vy to Vx sets VF to 1 exactly when the unsigned sum exceeds 255, and leaves
/// the sum modulo 256 in Vx unless Vx is VF itself.
pub proof fn lemma_add_sets_carry(m: Machine, keys: Seq<bool>, x: u8, y: u8, rnd: u8)
    requires
        machine_wf(m),
        x < 16,
        y < 16,
    ensures
        execute_spec(m, keys, Instruction::AddReg { x, y }, rnd) is Ok,
        ({
            let post = execute_spec(m, keys, Instruction::AddReg { x, y }, rnd)->Ok_0;
            let sum = m.cpu.v[x as int] + m.cpu.v[y as int];
            &&& post.cpu.v[0xF] == (if sum > 255 { 1u8 } else { 0u8 })
            &&& x != 0xF ==> post.cpu.v[x as int] == sum % 256
        }),
{
}

/// Both subtractions set VF to 1 exactly when the minuend is at least the subtrahend,
/// and leave the difference modulo 256 in Vx unless Vx is VF itself.
pub proof fn lemma_sub_sets_no_borrow(m: Machine, keys: Seq<bool>, x: u8, y: u8, rnd: u8)
    requires
        machine_wf(m),
        x < 16,
        y < 16,
    ensures
        execute_spec(m, keys, Instruction::SubReg { x, y }, rnd) is Ok,
        execute_spec(m, keys, Instruction::SubReverse { x, y }, rnd) is Ok,
        ({
            let post = execute_spec(m, keys, Instruction::SubReg { x, y }, rnd)->Ok_0;
            let (a, b) = (m.cpu.v[x as int] as int, m.cpu.v[y as int] as int);
            &&& post.cpu.v[0xF] == (if a >= b { 1u8 } else { 0u8 })
            &&& x != 0xF ==> post.cpu.v[x as int] == (a - b) % 256
        }),
        ({
            let post = execute_spec(m, keys, Instruction::SubReverse { x, y }, rnd)->Ok_0;
            let (a, b) = (m.cpu.v[y as int] as int, m.cpu.v[x as int] as int);
            &&& post.cpu.v[0xF] == (if a >= b { 1u8 } else { 0u8 })
            &&& x != 0xF ==> post.cpu.v[x as int] == (a - b) % 256
        }),
{
    let (a, b) = (m.cpu.v[x as int] as int, m.cpu.v[y as int] as int);
    assert((a - b + 256) % 256 == (a - b) % 256) by (nonlinear_arith)
        requires
            0 <= a < 256,
            0 <= b < 256,
    ;
    assert((b - a + 256) % 256 == (b - a) % 256) by (nonlinear_arith)
        requires
            0 <= a < 256,
            0 <= b < 256,
    ;
}

/// A right shift sets VF to the bit shifted out, the lowest, and halves Vx; a left shift
/// sets VF to the highest bit and doubles Vx modulo 256. The new Vx holds unless Vx is VF.
pub proof fn lemma_shift_sets_lost_bit(m: Machine, keys: Seq<bool>, x: u8, rnd: u8)
    requires
        machine_wf(m),
        x < 16,
    ensures
        execute_spec(m, keys, Instruction::ShiftRight { x }, rnd) is Ok,
        execute_spec(m, keys, Instruction::ShiftLeft { x }, rnd) is Ok,
        ({
            let post = execute_spec(m, keys, Instruction::ShiftRight { x }, rnd)->Ok_0;
            let vx = m.cpu.v[x as int];
            &&& post.cpu.v[0xF] == vx & 1
            &&& x != 0xF ==> post.cpu.v[x as int] == vx >> 1u8
        }),
        ({
            let post = execute_spec(m, keys, Instruction::ShiftLeft { x }, rnd)->Ok_0;
            let vx = m.cpu.v[x as int];
            &&& post.cpu.v[0xF] == (vx >> 7u8) & 1
            &&& x != 0xF ==> post.cpu.v[x as int] == ((vx as u16) << 1u16) % 256
        }),
{
    let vx = m.cpu.v[x as int];
    assert(vx & 1 == vx % 2 && vx >> 1u8 == vx / 2) by (bit_vector);
    assert((vx >> 7u8) & 1 == (if vx >= 128 { 1u8 } else { 0u8 })) by (bit_vector);
    assert(((vx as u16) << 1u16) % 256 == (vx as u16 * 2) % 256) by (bit_vector);
}

/// A call whose subroutine starts with a return comes back to the instruction after the
/// call, with the call stack as it was.
pub proof fn lemma_call_then_return(m: Machine, keys: Seq<bool>, nnn: u16, r1: u8, r2: u8)
    requires
        machine_wf(m),
        m.cpu.pc + 1 < RAM_SIZE,
        m.cpu.stack.len() < STACK_DEPTH,
        decoded(opcode_at(m.ram, m.cpu.pc as int)) == Some(Instruction::Call { nnn }),
        nnn + 1 < RAM_SIZE,
        decoded(opcode_at(m.ram, nnn as int)) == Some(Instruction::Return),
    ensures
        step_spec(m, keys, r1) is Ok,
        step_spec(step_spec(m, keys, r1)->Ok_0, keys, r2) is Ok,
        ({
            let back = step_spec(step_spec(m, keys, r1)->Ok_0, keys, r2)->Ok_0;
            &&& back.cpu.pc == m.cpu.pc + 2
            &&& back.cpu.stack == m.cpu.stack
            &&& back.cpu.v == m.cpu.v
            &&& back.ram == m.ram
        }),
{
    let m1 = step_spec(m, keys, r1)->Ok_0;
    assert(m1.cpu.pc == nnn);
    assert(m1.cpu.stack.drop_last() =~= m.cpu.stack);
}

/// The interpreter: program counter, index register, sixteen general registers and
/// the call stack of return addresses.
pub struct Cpu {
    pc: usize,
    i: u16,
    v: Vec<u8>,
    stack: Vec<usize>,
}

impl View for Cpu {
    type V = CpuState;

    closed spec fn view(&self) -> CpuState {
        CpuState { pc: self.pc, i: self.i, v: self.v@, stack: self.stack@ }
    }
}

/// The machine made of a CPU and the parts it is lent.
pub open spec fn machine_of(cpu: CpuState, ram: Seq<u8>, screen: Seq<bool>, timer: u8) -> Machine {
    Machine { cpu, ram, screen, timer }
}

/// Draws the byte handed to the random instruction.
///
/// Relies on `rand::random::<u8>`, which draws from the thread-local generator; any
/// byte may come back.
#[verifier::external_body]
fn random_byte() -> (r: u8) {
    rand::random::<u8>()
}

/// The `n` bytes of memory from `start`.
fn read_sprite(ram: &Vec<u8>, start: usize, n: usize) -> (r: Vec<u8>)
    requires
        ram@.len() == RAM_SIZE,
        start + n <= ram@.len(),
    ensures
        r@ == ram@.subrange(start as int, start + n),
{
    let mut sprite: Vec<u8> = Vec::new();
    let mut k: usize = start;
    let end = start + n;
    while k < end
        invariant
            end == start + n,
            start <= k <= start + n,
            start + n <= ram@.len(),
            sprite@ == ram@.subrange(start as int, k as int),
        decreases start + n - k,
    {
        sprite.push(ram[k]);
        k += 1;
        assert(sprite@ =~= ram@.subrange(start as int, k as int));
    }
    sprite
}

/// Copies `v[0..=x]` into memory from address `a`.
fn store_regs(ram: &mut Vec<u8>, a: usize, v: &Vec<u8>, x: usize)
    requires
        x < v@.len(),
        old(ram)@.len() == RAM_SIZE,
        a + x + 1 <= old(ram)@.len(),
    ensures
        final(ram)@ == Seq::new(
            old(ram)@.len(),
            |b: int| if a <= b <= a + x { v@[b - a] } else { old(ram)@[b] },
        ),
{
    let end = a + x + 1;
    let mut k: usize = 0;
    while k <= x
        invariant
            k <= x + 1,
            x < v@.len(),
            a + x + 1 == end,
            a + x + 1 <= ram@.len(),
            ram@.len() == old(ram)@.len(),
            forall|b: int|
                0 <= b < ram@.len() ==> #[trigger] ram@[b] == if a <= b < a + k {
                    v@[b - a]
                } else {
                    old(ram)@[b]
                },
        decreases x + 1 - k,
    {
        ram.set(a + k, v[k]);
        k += 1;
    }
    assert(ram@ =~= Seq::new(
        old(ram)@.len(),
        |b: int| if a <= b <= a + x { v@[b - a] } else { old(ram)@[b] },
    ));
}

/// Copies memory from address `a` into `v[0..=x]`.
fn load_regs(v: &mut Vec<u8>, ram: &Vec<u8>, a: usize, x: usize)
    requires
        x < old(v)@.len(),
        ram@.len() == RAM_SIZE,
        a + x + 1 <= ram@.len(),
    ensures
        final(v)@ == Seq::new(
            old(v)@.len(),
            |k: int| if k <= x { ram@[a + k] } else { old(v)@[k] },
        ),
{
    let end = a + x + 1;
    let mut k: usize = 0;
    while k <= x
        invariant
            k <= x + 1,
            x < v@.len(),
            a + x + 1 == end,
            a + x + 1 <= ram@.len(),
            v@.len() == old(v)@.len(),
            forall|j: int|
                0 <= j < v@.len() ==> #[trigger] v@[j] == if j < k {
                    ram@[a + j]
                } else {
                    old(v)@[j]
                },
        decreases x + 1 - k,
    {
        v.set(k, ram[a + k]);
        k += 1;
    }
    assert(v@ =~= Seq::new(
        old(v)@.len(),
        |k: int| if k <= x { ram@[a + k] } else { old(v)@[k] },
    ));
}

impl Cpu {
    /// A CPU about to run the program at `PRG_OFFSET`, all registers zero.
    pub fn new() -> (c: Cpu)
        ensures
            c@.pc == crate::emulator::PRG_OFFSET,
            c@.i == 0,
            c@.v == Seq::new(REG_SIZE as nat, |k: int| 0u8),
            c@.stack.len() == 0,
    {
        let pc = crate::emulator::PRG_OFFSET;
        let i: u16 = 0;
        let v = vec![0u8; REG_SIZE];
        let stack: Vec<usize> = Vec::new();
        assert(v@ =~= Seq::new(REG_SIZE as nat, |k: int| 0u8));
        Cpu { pc, i, v, stack }
    }

    /// Executes one of the instructions that change only the general registers and the
    /// program counter.
    fn execute_alu(&mut self, ins: Instruction, rnd: u8, m: Ghost<Machine>, keys: Ghost<Seq<bool>>)
        requires
            is_alu(ins),
            well_formed(ins),
            machine_wf(m@),
            m@.cpu == old(self)@,
            old(self)@.pc + 1 < RAM_SIZE,
        ensures
            execute_spec(m@, keys@, ins, rnd) == Ok::<Machine, CpuError>(
                Machine { cpu: final(self)@, ..m@ },
            ),
    {
        match ins {
            Instruction::LoadImm { x, kk } => {
                self.v.set(x as usize, kk);
            },
            Instruction::AddImm { x, kk } => {
                let vx = self.v[x as usize];
                self.v.set(x as usize, ((vx as u16 + kk as u16) % 256) as u8);
            },
            Instruction::Copy { x, y } => {
                let vy = self.v[y as usize];
                self.v.set(x as usize, vy);
            },
            Instruction::Or { x, y } => {
                let r = self.v[x as usize] | self.v[y as usize];
                self.v.set(x as usize, r);
            },
            Instruction::And { x, y } => {
                let r = self.v[x as usize] & self.v[y as usize];
                self.v.set(x as usize, r);
            },
            Instruction::Xor { x, y } => {
                let r = self.v[x as usize] ^ self.v[y as usize];
                self.v.set(x as usize, r);
            },
            Instruction::AddReg { x, y } => {
                let sum = self.v[x as usize] as u16 + self.v[y as usize] as u16;
                self.v.set(x as usize, (sum % 256) as u8);
                self.v.set(0xF, if sum > 255 { 1 } else { 0 });
            },
            Instruction::SubReg { x, y } => {
                let vx = self.v[x as usize];
                let vy = self.v[y as usize];
                self.v.set(x as usize, ((vx as u16 + 256 - vy as u16) % 256) as u8);
                self.v.set(0xF, if vx >= vy { 1 } else { 0 });
            },
            Instruction::SubReverse { x, y } => {
                let vx = self.v[x as usize];
                let vy = self.v[y as usize];
                self.v.set(x as usize, ((vy as u16 + 256 - vx as u16) % 256) as u8);
                self.v.set(0xF, if vy >= vx { 1 } else { 0 });
            },
            Instruction::ShiftRight { x } => {
                let vx = self.v[x as usize];
                self.v.set(x as usize, vx / 2);
                self.v.set(0xF, if vx % 2 == 1 { 1 } else { 0 });
            },
            Instruction::ShiftLeft { x } => {
                let vx = self.v[x as usize];
                self.v.set(x as usize, ((vx as u16 * 2) % 256) as u8);
                self.v.set(0xF, if vx >= 128 { 1 } else { 0 });
            },
            Instruction::Random { x, kk } => {
                self.v.set(x as usize, rnd & kk);
            },
            _ => {},
        }
        self.pc = self.pc + 2;
    }

    /// Executes one of the instructions that move the program counter, touch the call
    /// stack or set the index register.
    fn execute_flow(&mut self, ins: Instruction, m: Ghost<Machine>, keys: Ghost<Seq<bool>>, rnd: Ghost<u8>) -> (r: Result<(), CpuError>)
        requires
            is_flow(ins),
            well_formed(ins),
            machine_wf(m@),
            m@.cpu == old(self)@,
            old(self)@.pc + 1 < RAM_SIZE,
        ensures
            final(self)@.v == old(self)@.v,
            final(self)@.stack.len() <= STACK_DEPTH,
            outcome(m@, Machine { cpu: final(self)@, ..m@ }, r, execute_spec(m@, keys@, ins, rnd@)),
    {
        let pc = self.pc;
        let mut next: usize = pc + 2;
        match ins {
            Instruction::Return => {
                match self.stack.pop() {
                    Some(a) => {
                        next = a;
                    },
                    None => {
                        return Err(CpuError::StackUnderflow);
                    },
                }
            },
            Instruction::Jump { nnn } => {
                next = nnn as usize;
            },
            Instruction::Call { nnn } => {
                if self.stack.len() >= STACK_DEPTH {
                    return Err(CpuError::StackOverflow);
                }
                self.stack.push(pc + 2);
                next = nnn as usize;
            },
            Instruction::SkipEqImm { x, kk } => {
                if self.v[x as usize] == kk {
                    next = pc + 4;
                }
            },
            Instruction::SkipNeImm { x, kk } => {
                if self.v[x as usize] != kk {
                    next = pc + 4;
                }
            },
            Instruction::SkipEqReg { x, y } => {
                if self.v[x as usize] == self.v[y as usize] {
                    next = pc + 4;
                }
            },
            Instruction::SkipNeReg { x, y } => {
                if self.v[x as usize] != self.v[y as usize] {
                    next = pc + 4;
                }
            },
            Instruction::SetIndex { nnn } => {
                self.i = nnn;
            },
            Instruction::JumpOffset { nnn } => {
                next = self.v[0] as usize + nnn as usize;
            },
            Instruction::AddIndex { x } => {
                self.i = ((self.i as u32 + self.v[x as usize] as u32) % 0x10000) as u16;
            },
            Instruction::FontChar { x } => {
                self.i = (FONT_OFFSET + FONT_WIDTH * self.v[x as usize] as usize) as u16;
            },
            _ => {},
        }
        self.pc = next;
        Ok(())
    }

    /// Executes `ins`, the instruction at the program counter, handing `rnd` to the
    /// random instruction. On an error nothing changes.
    pub fn execute(
        &mut self,
        ins: Instruction,
        ram: &mut Vec<u8>,
        keyboard: &Keyboard,
        display: &mut DisplayFrame,
        timer: &mut Timer,
        rnd: u8,
    ) -> (r: Result<(), CpuError>)
        requires
            well_formed(ins),
            machine_wf(machine_of(old(self)@, old(ram)@, old(display)@, old(timer)@)),
            old(self)@.pc + 1 < RAM_SIZE,
            keyboard@.len() == N_KEYS,
        ensures
            machine_wf(machine_of(final(self)@, final(ram)@, final(display)@, final(timer)@)),
            outcome(
                machine_of(old(self)@, old(ram)@, old(display)@, old(timer)@),
                machine_of(final(self)@, final(ram)@, final(display)@, final(timer)@),
                r,
                execute_spec(
                    machine_of(old(self)@, old(ram)@, old(display)@, old(timer)@),
                    keyboard@,
                    ins,
                    rnd,
                ),
            ),
    {
        let ghost m = machine_of(self@, ram@, display@, timer@);
        if is_alu_exec(ins) {
            self.execute_alu(ins, rnd, Ghost(m), Ghost(keyboard@));
            return Ok(());
        }
        if is_flow_exec(ins) {
            return self.execute_flow(ins, Ghost(m), Ghost(keyboard@), Ghost(rnd));
        }
        let pc = self.pc;
        let mut next: usize = pc + 2;
        match ins {
            Instruction::Clear => {
                display.clear();
            },
            Instruction::Draw { x, y, n } => {
                let start = self.i as usize;
                if start + n as usize > RAM_SIZE {
                    return Err(CpuError::AddressOutOfRange);
                }
                let sprite = read_sprite(ram, start, n as usize);
                let hit = display.draw(self.v[x as usize], self.v[y as usize], sprite.as_slice());
                self.v.set(0xF, if hit { 1 } else { 0 });
            },
            Instruction::SkipKeyPressed { x } => {
                let key = self.v[x as usize] as usize;
                if key >= N_KEYS {
                    return Err(CpuError::KeyOutOfRange);
                }
                if keyboard.is_pressed(key) {
                    next = pc + 4;
                }
            },
            Instruction::SkipKeyReleased { x } => {
                let key = self.v[x as usize] as usize;
                if key >= N_KEYS {
                    return Err(CpuError::KeyOutOfRange);
                }
                if !keyboard.is_pressed(key) {
                    next = pc + 4;
                }
            },
            Instruction::LoadTimer { x } => {
                self.v.set(x as usize, timer.get());
            },
            Instruction::WaitKey { x } => {
                match keyboard.current_key() {
                    Some(k) => {
                        self.v.set(x as usize, k as u8);
                    },
                    None => {
                        next = pc;
                    },
                }
            },
            Instruction::SetTimer { x } => {
                timer.set(self.v[x as usize]);
            },
            Instruction::Bcd { x } => {
                let a = self.i as usize;
                if a + 3 > RAM_SIZE {
                    return Err(CpuError::AddressOutOfRange);
                }
                let vx = self.v[x as usize];
                ram.set(a, vx / 100);
                ram.set(a + 1, (vx % 100) / 10);
                ram.set(a + 2, vx % 10);
            },
            Instruction::StoreRegs { x } => {
                let a = self.i as usize;
                if a + x as usize + 1 > RAM_SIZE {
                    return Err(CpuError::AddressOutOfRange);
                }
                store_regs(ram, a, &self.v, x as usize);
            },
            Instruction::LoadRegs { x } => {
                let a = self.i as usize;
                if a + x as usize + 1 > RAM_SIZE {
                    return Err(CpuError::AddressOutOfRange);
                }
                load_regs(&mut self.v, ram, a, x as usize);
            },
            _ => {},
        }
        self.pc = next;
        Ok(())
    }

    /// Runs one fetch-decode-execute cycle, handing `rnd` to the random instruction.
    /// On an error nothing changes.
    pub fn step(
        &mut self,
        ram: &mut Vec<u8>,
        keyboard: &Keyboard,
        display: &mut DisplayFrame,
        timer: &mut Timer,
        rnd: u8,
    ) -> (r: Result<(), CpuError>)
        requires
            machine_wf(machine_of(old(self)@, old(ram)@, old(display)@, old(timer)@)),
            keyboard@.len() == N_KEYS,
        ensures
            machine_wf(machine_of(final(self)@, final(ram)@, final(display)@, final(timer)@)),
            outcome(
                machine_of(old(self)@, old(ram)@, old(display)@, old(timer)@),
                machine_of(final(self)@, final(ram)@, final(display)@, final(timer)@),
                r,
                step_spec(machine_of(old(self)@, old(ram)@, old(display)@, old(timer)@), keyboard@, rnd),
            ),
    {
        let pc = self.pc;
        if pc >= ram.len() - 1 {
            return Err(CpuError::AddressOutOfRange);
        }
        let op: u16 = ram[pc] as u16 * 256 + ram[pc + 1] as u16;
        match decode(op) {
            None => Err(CpuError::UnsupportedOpcode(op)),
            Some(ins) => self.execute(ins, ram, keyboard, display, timer, rnd),
        }
    }

    /// Runs one fetch-decode-execute cycle; the random instruction gets a freshly drawn
    /// byte. The result is that of `step` for some byte.
    pub fn tick(
        &mut self,
        ram: &mut Vec<u8>,
        keyboard: &Keyboard,
        display: &mut DisplayFrame,
        timer: &mut Timer,
    ) -> (r: Result<(), CpuError>)
        requires
            machine_wf(machine_of(old(self)@, old(ram)@, old(display)@, old(timer)@)),
            keyboard@.len() == N_KEYS,
        ensures
            machine_wf(machine_of(final(self)@, final(ram)@, final(display)@, final(timer)@)),
            exists|rnd: u8|
                outcome(
                    machine_of(old(self)@, old(ram)@, old(display)@, old(timer)@),
                    machine_of(final(self)@, final(ram)@, final(display)@, final(timer)@),
                    r,
                    #[trigger] step_spec(machine_of(old(self)@, old(ram)@, old(display)@, old(timer)@), keyboard@, rnd),
                ),
    {
        let rnd = random_byte();
        self.step(ram, keyboard, display, timer, rnd)
    }

    pub fn pc(&self) -> (r: usize)
        ensures
            r == self@.pc,
    {
        self.pc
    }

    pub fn index(&self) -> (r: u16)
        ensures
            r == self@.i,
    {
        self.i
    }

    /// The value of register V`x`.
    pub fn register(&self, x: usize) -> (r: u8)
        requires
            x < self@.v.len(),
        ensures
            r == self@.v[x as int],
    {
        self.v[x]
    }

    /// Number of return addresses on the call stack.
    pub fn stack_depth(&self) -> (r: usize)
        ensures
            r == self@.stack.len(),
    {
        self.stack.len()
    }
}

} // verus!
