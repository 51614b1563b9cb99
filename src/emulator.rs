use vstd::prelude::*;

use crate::cpu::{machine_of, machine_wf, outcome, step_spec, Cpu, CpuError, Machine};
use crate::display::{text_of, DisplayFrame, HEIGHT, N_CELLS, WIDTH};
use crate::keyboard::{Keyboard, N_KEYS};
use crate::timer::Timer;

verus! {

/// Address where programs are loaded.
pub const PRG_OFFSET: usize = 0x200;

/// Size of memory in bytes.
pub const RAM_SIZE: usize = 0x1000;

/// Number of general registers V0..VF.
pub const REG_SIZE: usize = 0x10;

/// Address of the first font glyph.
pub const FONT_OFFSET: usize = 0x0;

/// Bytes per font glyph.
pub const FONT_WIDTH: usize = 5;

/// Deepest nesting of subroutine calls.
pub const STACK_DEPTH: usize = 16;

/// Instructions executed per frame.
pub const CLOCK_RATE: u32 = 600;

/// Frames per second.
pub const RENDER_RATE: u32 = 60;

/// Number of font bytes: sixteen glyphs of `FONT_WIDTH` bytes.
pub const FONT_SIZE: usize = 80;

/// The glyphs of the hexadecimal digits 0 to F, five rows of four pixels each.
pub open spec fn font_glyphs() -> Seq<u8> {
    seq![
        0xf0u8, 0x90, 0x90, 0x90, 0xf0, // 0
        0x20, 0x60, 0x20, 0x20, 0x70, // 1
        0xf0, 0x10, 0xf0, 0x80, 0xf0, // 2
        0xf0, 0x10, 0xf0, 0x10, 0xf0, // 3
        0x90, 0x90, 0xf0, 0x10, 0x10, // 4
        0xf0, 0x80, 0xf0, 0x10, 0xf0, // 5
        0xf0, 0x80, 0xf0, 0x90, 0xf0, // 6
        0xf0, 0x10, 0x20, 0x40, 0x40, // 7
        0xf0, 0x90, 0xf0, 0x90, 0xf0, // 8
        0xf0, 0x90, 0xf0, 0x10, 0xf0, // 9
        0xf0, 0x90, 0xf0, 0x90, 0x90, // A
        0xe0, 0x90, 0xe0, 0x90, 0xe0, // B
        0xf0, 0x80, 0x80, 0x80, 0xf0, // C
        0xe0, 0x90, 0x90, 0x90, 0xe0, // D
        0xf0, 0x80, 0xf0, 0x80, 0xf0, // E
        0xf0, 0x80, 0xf0, 0x80, 0x80, // F
    ]
}

/// `ram` with `bytes` written from address `at`.
pub open spec fn overlay(ram: Seq<u8>, at: int, bytes: Seq<u8>) -> Seq<u8> {
    Seq::new(ram.len(), |a: int| if at <= a < at + bytes.len() { bytes[a - at] } else { ram[a] })
}

/// Memory after installing the font at `FONT_OFFSET` and the program `rom` at
/// `PRG_OFFSET`.
pub open spec fn loaded(ram: Seq<u8>, rom: Seq<u8>) -> Seq<u8> {
    overlay(overlay(ram, FONT_OFFSET as int, font_glyphs()), PRG_OFFSET as int, rom)
}

/// `m` one frame later on the delay timer.
pub open spec fn timer_decremented(m: Machine) -> Machine {
    Machine { timer: if m.timer > 0 { (m.timer - 1) as u8 } else { 0u8 }, ..m }
}

/// Running one cycle per byte of `rnds` from `m`, stopping at the first error: the
/// machine reached and how the run ended.
pub open spec fn run(m: Machine, keys: Seq<bool>, rnds: Seq<u8>) -> (Machine, Result<(), CpuError>)
    decreases rnds.len(),
{
    if rnds.len() == 0 {
        (m, Ok(()))
    } else {
        match step_spec(m, keys, rnds[0]) {
            Ok(next) => run(next, keys, rnds.drop_first()),
            Err(e) => (m, Err(e)),
        }
    }
}

/// A run that ends well can be continued by a second run.
proof fn lemma_run_append(m: Machine, keys: Seq<bool>, a: Seq<u8>, b: Seq<u8>)
    requires
        run(m, keys, a).1 is Ok,
    ensures
        run(m, keys, a + b) == run(run(m, keys, a).0, keys, b),
    decreases a.len(),
{
    if a.len() > 0 {
        assert((a + b).drop_first() =~= a.drop_first() + b);
        assert((a + b)[0] == a[0]);
        lemma_run_append(step_spec(m, keys, a[0])->Ok_0, keys, a.drop_first(), b);
    } else {
        assert(a + b =~= b);
    }
}

/// A whole CHIP-8 machine: memory, CPU, framebuffer, keypad and delay timer.
pub struct Emulator {
    ram: Vec<u8>,
    cpu: Cpu,
    display: DisplayFrame,
    keyboard: Keyboard,
    timer: Timer,
}

impl Emulator {
    /// Memory, registers, framebuffer and delay timer.
    pub closed spec fn machine(&self) -> Machine {
        machine_of(self.cpu@, self.ram@, self.display@, self.timer@)
    }

    /// Which keys are pressed.
    pub closed spec fn keys(&self) -> Seq<bool> {
        self.keyboard@
    }

    /// The sizes the emulator keeps.
    pub open spec fn wf(&self) -> bool {
        machine_wf(self.machine()) && self.keys().len() == N_KEYS
    }

    /// A machine with zeroed memory and registers, a blank screen, no key pressed, the
    /// timer at zero and the program counter at `PRG_OFFSET`.
    pub fn new() -> (e: Emulator)
        ensures
            e.wf(),
            e.machine().ram == Seq::new(RAM_SIZE as nat, |a: int| 0u8),
            e.machine().screen == Seq::new(N_CELLS as nat, |p: int| false),
            e.machine().timer == 0,
            e.machine().cpu.pc == PRG_OFFSET,
            e.machine().cpu.i == 0,
            e.machine().cpu.v == Seq::new(REG_SIZE as nat, |k: int| 0u8),
            e.machine().cpu.stack.len() == 0,
            e.keys() == Seq::new(N_KEYS as nat, |k: int| false),
    {
        let ram = vec![0u8; RAM_SIZE];
        let cpu = Cpu::new();
        let display = DisplayFrame::new();
        let keyboard = Keyboard::new();
        let timer = Timer::new();
        assert(ram@ =~= Seq::new(RAM_SIZE as nat, |a: int| 0u8));
        assert(keyboard@ =~= Seq::new(N_KEYS as nat, |k: int| false));
        Emulator { ram, cpu, display, keyboard, timer }
    }

    /// Installs the font and copies `rom` into memory from `PRG_OFFSET`.
    pub fn load_rom(&mut self, rom: Vec<u8>)
        requires
            old(self).wf(),
            rom@.len() <= RAM_SIZE - PRG_OFFSET,
        ensures
            final(self).wf(),
            final(self).machine() == (Machine { ram: loaded(old(self).machine().ram, rom@), ..old(self).machine() }),
            final(self).keys() == old(self).keys(),
    {
        self.load_fonts();
        let ghost with_font = self.ram@;
        let mut k: usize = 0;
        while k < rom.len()
            invariant
                k <= rom@.len() <= RAM_SIZE - PRG_OFFSET,
                self.ram@ == overlay(with_font, PRG_OFFSET as int, rom@.take(k as int)),
                with_font == overlay(old(self).ram@, FONT_OFFSET as int, font_glyphs()),
                old(self).ram@.len() == RAM_SIZE,
                self.cpu == old(self).cpu,
                self.display == old(self).display,
                self.keyboard == old(self).keyboard,
                self.timer == old(self).timer,
            decreases rom@.len() - k,
        {
            self.ram.set(PRG_OFFSET + k, rom[k]);
            k += 1;
            assert(self.ram@ =~= overlay(with_font, PRG_OFFSET as int, rom@.take(k as int)));
        }
        assert(rom@.take(rom@.len() as int) =~= rom@);
    }

    /// The frame as text, one line per row.
    pub fn display_out(&self) -> (r: String)
        requires
            self.wf(),
        ensures
            r@ == text_of(self.machine().screen, N_CELLS as int),
    {
        self.display.to_text()
    }

    /// The framebuffer cells, row by row.
    pub fn pixels(&self) -> (r: &[bool])
        ensures
            r@ == self.machine().screen,
    {
        self.display.pixels()
    }

    /// Runs one instruction; the random instruction gets a freshly drawn byte. On an
    /// error nothing changes.
    pub fn tick(&mut self) -> (r: Result<(), CpuError>)
        requires
            old(self).wf(),
        ensures
            final(self).wf(),
            final(self).keys() == old(self).keys(),
            exists|rnd: u8|
                outcome(
                    old(self).machine(),
                    final(self).machine(),
                    r,
                    #[trigger] step_spec(old(self).machine(), old(self).keys(), rnd),
                ),
    {
        self.cpu.tick(&mut self.ram, &self.keyboard, &mut self.display, &mut self.timer)
    }

    /// Runs one instruction, handing `rnd` to the random instruction. On an error
    /// nothing changes.
    pub fn step(&mut self, rnd: u8) -> (r: Result<(), CpuError>)
        requires
            old(self).wf(),
        ensures
            final(self).wf(),
            final(self).keys() == old(self).keys(),
            outcome(
                old(self).machine(),
                final(self).machine(),
                r,
                step_spec(old(self).machine(), old(self).keys(), rnd),
            ),
    {
        self.cpu.step(&mut self.ram, &self.keyboard, &mut self.display, &mut self.timer, rnd)
    }

    /// One frame: the delay timer counts down once, then `CLOCK_RATE / RENDER_RATE`
    /// instructions run, stopping at the first error.
    pub fn tick_frame(&mut self) -> (r: Result<(), CpuError>)
        requires
            old(self).wf(),
        ensures
            final(self).wf(),
            final(self).keys() == old(self).keys(),
            exists|rnds: Seq<u8>|
                rnds.len() == CLOCK_RATE / RENDER_RATE && #[trigger] run(
                    timer_decremented(old(self).machine()),
                    old(self).keys(),
                    rnds,
                ) == (final(self).machine(), r),
    {
        let ticks_per_frame = CLOCK_RATE / RENDER_RATE;
        self.timer.decrement();
        let ghost start = self.machine();
        let ghost keys = self.keys();
        let ghost mut rnds: Seq<u8> = Seq::empty();
        let mut t: u32 = 0;
        while t < ticks_per_frame
            invariant
                t <= ticks_per_frame == CLOCK_RATE / RENDER_RATE,
                rnds.len() == t,
                self.wf(),
                self.keys() == keys,
                keys == old(self).keys(),
                start == timer_decremented(old(self).machine()),
                run(start, keys, rnds) == (self.machine(), Ok::<(), CpuError>(())),
            decreases ticks_per_frame - t,
        {
            let ghost before = self.machine();
            let r = self.tick();
            let ghost rnd = choose|rnd: u8|
                outcome(before, self.machine(), r, #[trigger] step_spec(before, keys, rnd));
            let ghost pad = Seq::new((ticks_per_frame - t - 1) as nat, |k: int| 0u8);
            proof {
                lemma_run_append(start, keys, rnds, seq![rnd] + pad);
                assert((seq![rnd] + pad)[0] == rnd);
                assert((seq![rnd] + pad).drop_first() =~= pad);
                assert(rnds + (seq![rnd] + pad) =~= rnds.push(rnd) + pad);
            }
            match r {
                Err(e) => {
                    assert(run(start, keys, rnds.push(rnd) + pad) == (self.machine(), r));
                    return Err(e);
                },
                Ok(()) => {
                    proof {
                        let one = seq![rnd];
                        lemma_run_append(start, keys, rnds, one);
                        assert(one.drop_first() =~= Seq::<u8>::empty());
                        let after = step_spec(before, keys, rnd)->Ok_0;
                        assert(run(after, keys, Seq::<u8>::empty()) == (after, Ok::<(), CpuError>(())));
                        assert(run(before, keys, one) == (after, Ok::<(), CpuError>(())));
                        assert(rnds + one =~= rnds.push(rnd));
                        rnds = rnds.push(rnd);
                    }
                },
            }
            t += 1;
        }
        Ok(())
    }

    /// Records that `key` was pressed or released.
    pub fn key_change(&mut self, key: usize, pressed: bool)
        requires
            old(self).wf(),
            key < N_KEYS,
        ensures
            final(self).wf(),
            final(self).machine() == old(self).machine(),
            final(self).keys() == old(self).keys().update(key as int, pressed),
    {
        self.keyboard.key_change(key, pressed)
    }

    pub fn width(&self) -> (r: u32)
        ensures
            r == WIDTH,
    {
        WIDTH
    }

    pub fn height(&self) -> (r: u32)
        ensures
            r == HEIGHT,
    {
        HEIGHT
    }

    /// The CPU, for reading its registers.
    pub fn cpu(&self) -> (r: &Cpu)
        ensures
            r@ == self.machine().cpu,
    {
        &self.cpu
    }

    /// The value of the delay timer.
    pub fn delay_timer(&self) -> (r: u8)
        ensures
            r == self.machine().timer,
    {
        self.timer.get()
    }

    /// The byte at memory address `a`.
    pub fn memory(&self, a: usize) -> (r: u8)
        requires
            self.wf(),
            a < RAM_SIZE,
        ensures
            r == self.machine().ram[a as int],
    {
        self.ram[a]
    }

    /// Writes the font glyphs to memory from `FONT_OFFSET`.
    fn load_fonts(&mut self)
        requires
            old(self).ram@.len() == RAM_SIZE,
        ensures
            final(self).ram@ == overlay(old(self).ram@, FONT_OFFSET as int, font_glyphs()),
            final(self).cpu == old(self).cpu,
            final(self).display == old(self).display,
            final(self).keyboard == old(self).keyboard,
            final(self).timer == old(self).timer,
    {
        let glyphs: Vec<u8> = vec![
            0xf0, 0x90, 0x90, 0x90, 0xf0, // 0
            0x20, 0x60, 0x20, 0x20, 0x70, // 1
            0xf0, 0x10, 0xf0, 0x80, 0xf0, // 2
            0xf0, 0x10, 0xf0, 0x10, 0xf0, // 3
            0x90, 0x90, 0xf0, 0x10, 0x10, // 4
            0xf0, 0x80, 0xf0, 0x10, 0xf0, // 5
            0xf0, 0x80, 0xf0, 0x90, 0xf0, // 6
            0xf0, 0x10, 0x20, 0x40, 0x40, // 7
            0xf0, 0x90, 0xf0, 0x90, 0xf0, // 8
            0xf0, 0x90, 0xf0, 0x10, 0xf0, // 9
            0xf0, 0x90, 0xf0, 0x90, 0x90, // A
            0xe0, 0x90, 0xe0, 0x90, 0xe0, // B
            0xf0, 0x80, 0x80, 0x80, 0xf0, // C
            0xe0, 0x90, 0x90, 0x90, 0xe0, // D
            0xf0, 0x80, 0xf0, 0x80, 0xf0, // E
            0xf0, 0x80, 0xf0, 0x80, 0x80, // F
        ];
        assert(glyphs@ == font_glyphs());
        let mut k: usize = 0;
        while k < FONT_SIZE
            invariant
                k <= FONT_SIZE,
                glyphs@ == font_glyphs(),
                self.ram@ == overlay(old(self).ram@, FONT_OFFSET as int, glyphs@.take(k as int)),
                old(self).ram@.len() == RAM_SIZE,
                self.cpu == old(self).cpu,
                self.display == old(self).display,
                self.keyboard == old(self).keyboard,
                self.timer == old(self).timer,
            decreases FONT_SIZE - k,
        {
            self.ram.set(FONT_OFFSET + k, glyphs[k]);
            k += 1;
            assert(self.ram@ =~= overlay(old(self).ram@, FONT_OFFSET as int, glyphs@.take(k as int)));
        }
        assert(glyphs@.take(FONT_SIZE as int) =~= glyphs@);
    }
}

} // verus!
