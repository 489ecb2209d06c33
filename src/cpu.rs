//! The machine: its state, the execution of each instruction, and the
//! fetch-decode-execute cycle.
use vstd::prelude::*;
use crate::display::{collides, drawn, font, fontset, Display, PIXELS};
use crate::opcodes::{decode, lemma_decode_fields, OpCode};

verus! {

/// Where programs are loaded, and where execution starts.
pub const PROGRAM_OFFSET: usize = 0x200;

/// Number of addressable bytes.
pub const MEMORY_SIZE: usize = 4096;

/// Number of return addresses the call stack holds.
pub const STACK_SIZE: usize = 16;

/// The fatal conditions that stop the machine.
#[derive(Clone, Copy, Debug, PartialEq, Eq, Structural)]
pub enum Chip8Error {
    /// The word at the program counter is no instruction.
    BadInstruction(u16),
    /// A call with all sixteen return addresses in use.
    StackOverflow,
    /// A return with no return address on the stack.
    StackUnderflow,
    /// An instruction or its operands would lie past the end of memory.
    AddressOutOfRange,
    /// A key test names a key above 0xF.
    KeyOutOfRange,
}

/// The state of the machine, as plain mathematical values.
pub struct CpuState {
    pub memory: Seq<u8>,
    pub v: Seq<u8>,
    pub i: u16,
    pub pc: u16,
    pub pixels: Seq<bool>,
    pub delay_timer: u8,
    pub sound_timer: u8,
    pub stack: Seq<u16>,
    pub sp: u16,
    pub key: Seq<bool>,
    pub wait_for_key: Option<u8>,
}

impl CpuState {
    /// Sizes of every part, a stack pointer within the stack, and return
    /// addresses that were fetched from memory.
    pub open spec fn wf(self) -> bool {
        &&& self.memory.len() == MEMORY_SIZE
        &&& self.v.len() == 16
        &&& self.pixels.len() == PIXELS
        &&& self.stack.len() == STACK_SIZE
        &&& self.sp <= STACK_SIZE
        &&& self.key.len() == 16
        &&& forall|k: int| 0 <= k < STACK_SIZE ==> #[trigger] self.stack[k] < MEMORY_SIZE - 1
        &&& self.wait_for_key matches Some(r) ==> r < 16
    }

    /// The state with register `x` set to `val`.
    pub open spec fn set(self, x: u8, val: u8) -> CpuState {
        CpuState { v: self.v.update(x as int, val), ..self }
    }

    /// The state with the program counter at `pc`.
    pub open spec fn goto(self, pc: int) -> CpuState {
        CpuState { pc: pc as u16, ..self }
    }

    /// The state moved on to the next instruction, or past it where `skip`.
    pub open spec fn advance(self, skip: bool) -> CpuState {
        self.goto(if skip { self.pc + 4 } else { self.pc + 2 })
    }

    /// The state with each timer one lower, where it is above zero.
    pub open spec fn tick(self) -> CpuState {
        CpuState {
            delay_timer: if self.delay_timer > 0 { (self.delay_timer - 1) as u8 } else { 0 },
            sound_timer: if self.sound_timer > 0 { (self.sound_timer - 1) as u8 } else { 0 },
            ..self
        }
    }

    /// The big-endian word at the program counter.
    pub open spec fn fetch(self) -> u16 {
        (self.memory[self.pc as int] * 256 + self.memory[self.pc + 1]) as u16
    }
}

/// The state of a machine built with `program`: the glyphs at address 0,
/// the program at `PROGRAM_OFFSET`, everything else zero.
pub open spec fn initial(program: Seq<u8>) -> CpuState {
    CpuState {
        memory: Seq::new(
            MEMORY_SIZE as nat,
            |a: int|
                if a < 80 {
                    font()[a]
                } else if PROGRAM_OFFSET <= a < PROGRAM_OFFSET + program.len() {
                    program[a - PROGRAM_OFFSET]
                } else {
                    0
                },
        ),
        v: Seq::new(16, |r: int| 0u8),
        i: 0,
        pc: PROGRAM_OFFSET as u16,
        pixels: Seq::new(PIXELS as nat, |p: int| false),
        delay_timer: 0,
        sound_timer: 0,
        stack: Seq::new(STACK_SIZE as nat, |k: int| 0u16),
        sp: 0,
        key: Seq::new(16, |k: int| false),
        wait_for_key: None,
    }
}

/// The three decimal digits of `val`, hundreds first.
pub open spec fn bcd(val: u8) -> (u8, u8, u8) {
    ((val / 100) as u8, ((val / 10) % 10) as u8, (val % 10) as u8)
}

/// The effect of executing `op` in state `s`, with `rnd` as the random byte
/// that a random load masks; the new state holds the next program counter.
/// It is opaque: a proof that needs its cases reveals it.
#[verifier::opaque]
pub open spec fn execute(s: CpuState, op: OpCode, rnd: u8) -> Result<CpuState, Chip8Error> {
    match op {
        OpCode::ClearScreen => Ok(CpuState { pixels: Seq::new(PIXELS as nat, |p: int| false), ..s }.advance(false)),
        OpCode::Return => if s.sp == 0 {
            Err(Chip8Error::StackUnderflow)
        } else {
            Ok(CpuState { sp: (s.sp - 1) as u16, ..s }.goto(s.stack[s.sp - 1] + 2))
        },
        OpCode::JumpTo(a) => Ok(s.goto(a as int)),
        OpCode::Call(a) => if s.sp >= STACK_SIZE {
            Err(Chip8Error::StackOverflow)
        } else {
            Ok(CpuState { stack: s.stack.update(s.sp as int, s.pc), sp: (s.sp + 1) as u16, ..s }.goto(a as int))
        },
        OpCode::SkipIfEqualsByte(x, k) => Ok(s.advance(s.v[x as int] == k)),
        OpCode::SkipIfNotEqualsByte(x, k) => Ok(s.advance(s.v[x as int] != k)),
        OpCode::SkipIfEquals(x, y) => Ok(s.advance(s.v[x as int] == s.v[y as int])),
        OpCode::LoadByte(x, k) => Ok(s.set(x, k).advance(false)),
        OpCode::AddByte(x, k) => Ok(s.set(x, ((s.v[x as int] + k) % 256) as u8).advance(false)),
        OpCode::Move(x, y) => Ok(s.set(x, s.v[y as int]).advance(false)),
        OpCode::Or(x, y) => Ok(s.set(x, s.v[x as int] | s.v[y as int]).advance(false)),
        OpCode::And(x, y) => Ok(s.set(x, s.v[x as int] & s.v[y as int]).advance(false)),
        OpCode::XOr(x, y) => Ok(s.set(x, s.v[x as int] ^ s.v[y as int]).advance(false)),
        OpCode::Add(x, y) => {
            let sum = s.v[x as int] + s.v[y as int];
            Ok(s.set(0xF, if sum > 255 { 1u8 } else { 0u8 }).set(x, (sum % 256) as u8).advance(false))
        },
        OpCode::Sub(x, y) => {
            let (a, b) = (s.v[x as int], s.v[y as int]);
            Ok(s.set(0xF, if a > b { 1u8 } else { 0u8 }).set(x, ((a - b) % 256) as u8).advance(false))
        },
        OpCode::ShiftRight(x) => {
            let a = s.v[x as int];
            Ok(s.set(0xF, a & 1u8).set(x, a >> 1u8).advance(false))
        },
        OpCode::ReverseSub(x, y) => {
            let (a, b) = (s.v[x as int], s.v[y as int]);
            Ok(s.set(0xF, if b > a { 1u8 } else { 0u8 }).set(x, ((b - a) % 256) as u8).advance(false))
        },
        OpCode::ShiftLeft(x) => {
            let a = s.v[x as int];
            Ok(s.set(0xF, a & 0x80u8).set(x, ((a * 2) % 256) as u8).advance(false))
        },
        OpCode::SkipIfNotEquals(x, y) => Ok(s.advance(s.v[x as int] != s.v[y as int])),
        OpCode::LoadIReg(a) => Ok(CpuState { i: a, ..s }.advance(false)),
        OpCode::JumpPlus(a) => Ok(s.goto(a + s.v[0])),
        OpCode::LoadRand(x, k) => Ok(s.set(x, rnd & k).advance(false)),
        OpCode::Draw(x, y, n) => if s.i + n > MEMORY_SIZE {
            Err(Chip8Error::AddressOutOfRange)
        } else {
            let sprite = s.memory.subrange(s.i as int, s.i + n);
            let (px, py) = (s.v[x as int], s.v[y as int]);
            Ok(CpuState { pixels: drawn(s.pixels, sprite, px, py), ..s }
                .set(0xF, if collides(s.pixels, sprite, px, py) { 1u8 } else { 0u8 })
                .advance(false))
        },
        OpCode::SkipPressed(x) => if s.v[x as int] >= 16 {
            Err(Chip8Error::KeyOutOfRange)
        } else {
            Ok(s.advance(s.key[s.v[x as int] as int]))
        },
        OpCode::SkipNotPressed(x) => if s.v[x as int] >= 16 {
            Err(Chip8Error::KeyOutOfRange)
        } else {
            Ok(s.advance(!s.key[s.v[x as int] as int]))
        },
        OpCode::LoadDelay(x) => Ok(s.set(x, s.delay_timer).advance(false)),
        OpCode::WaitForKey(x) => Ok(CpuState { wait_for_key: Some(x), ..s }.advance(false)),
        OpCode::SetDelay(x) => Ok(CpuState { delay_timer: s.v[x as int], ..s }.advance(false)),
        OpCode::SetSoundDelay(x) => Ok(CpuState { sound_timer: s.v[x as int], ..s }.advance(false)),
        OpCode::AddToIReg(x) => Ok(CpuState { i: ((s.i + s.v[x as int]) % 0x10000) as u16, ..s }.advance(false)),
        OpCode::LoadSprite(x) => Ok(CpuState { i: (s.v[x as int] * 5) as u16, ..s }.advance(false)),
        OpCode::StoreBCD(x) => if s.i + 2 >= MEMORY_SIZE {
            Err(Chip8Error::AddressOutOfRange)
        } else {
            let (h, t, o) = bcd(s.v[x as int]);
            Ok(CpuState {
                memory: s.memory.update(s.i as int, h).update(s.i + 1, t).update(s.i + 2, o),
                ..s
            }.advance(false))
        },
        OpCode::RegDump(x) => if s.i + x >= MEMORY_SIZE {
            Err(Chip8Error::AddressOutOfRange)
        } else {
            Ok(CpuState {
                memory: Seq::new(
                    MEMORY_SIZE as nat,
                    |a: int| if s.i <= a <= s.i + x { s.v[a - s.i] } else { s.memory[a] },
                ),
                ..s
            }.advance(false))
        },
        OpCode::RegLoad(x) => if s.i + x >= MEMORY_SIZE {
            Err(Chip8Error::AddressOutOfRange)
        } else {
            Ok(CpuState {
                v: Seq::new(16, |r: int| if r <= x { s.memory[s.i + r] } else { s.v[r] }),
                ..s
            }.advance(false))
        },
    }
}

/// One step of the machine: both timers tick; unless it waits for a key, the
/// word at the program counter is fetched, decoded and executed.
pub open spec fn step(s: CpuState, rnd: u8) -> Result<CpuState, Chip8Error> {
    let t = s.tick();
    if s.wait_for_key is Some {
        Ok(t)
    } else if s.pc + 1 >= MEMORY_SIZE {
        Err(Chip8Error::AddressOutOfRange)
    } else {
        match decode(s.fetch()) {
            None => Err(Chip8Error::BadInstruction(s.fetch())),
            Some(op) => execute(t, op, rnd),
        }
    }
}

/// Steps taken one after another, the `k`-th with the random byte `rnds[k]`,
/// up to the first fatal error.
pub open spec fn run(s: CpuState, rnds: Seq<u8>) -> Result<CpuState, Chip8Error>
    decreases rnds.len(),
{
    if rnds.len() == 0 {
        Ok(s)
    } else {
        match step(s, rnds[0]) {
            Ok(t) => run(t, rnds.drop_first()),
            Err(e) => Err(e),
        }
    }
}

/// The state after a key goes down: the key is pressed, and a pending wait
/// for a key ends with the key's value in the waiting register.
pub open spec fn pressed(s: CpuState, key: u8) -> CpuState {
    let t = CpuState { key: s.key.update(key as int, true), ..s };
    match s.wait_for_key {
        Some(r) => CpuState { wait_for_key: None, ..t.set(r, key) },
        None => t,
    }
}

/// The machine.
pub struct CPU {
    memory: Vec<u8>,
    v: Vec<u8>,
    i: u16,
    pc: u16,
    pub gfx: Display,
    delay_timer: u8,
    sound_timer: u8,
    stack: Vec<u16>,
    sp: u16,
    key: Vec<bool>,
    wait_for_key: Option<u8>,
}

impl View for CPU {
    type V = CpuState;

    closed spec fn view(&self) -> CpuState {
        CpuState {
            memory: self.memory@,
            v: self.v@,
            i: self.i,
            pc: self.pc,
            pixels: self.gfx@,
            delay_timer: self.delay_timer,
            sound_timer: self.sound_timer,
            stack: self.stack@,
            sp: self.sp,
            key: self.key@,
            wait_for_key: self.wait_for_key,
        }
    }
}

/// Relies on rand::random::<u8>: a byte drawn from the thread-local
/// generator; nothing is known of its value.
#[verifier::external_body]
fn random_byte() -> (r: u8) {
    rand::random::<u8>()
}

/// A vector of `n` copies of `val`.
fn filled<T: Copy>(val: T, n: usize) -> (r: Vec<T>)
    ensures
        r@ == Seq::new(n as nat, |k: int| val),
{
    let mut r: Vec<T> = Vec::new();
    let mut k: usize = 0;
    while k < n
        invariant
            k <= n,
            r@ == Seq::new(k as nat, |j: int| val),
        decreases n - k,
    {
        r.push(val);
        k = k + 1;
        assert(r@ =~= Seq::new(k as nat, |j: int| val));
    }
    r
}

impl CPU {
    /// The machine is in a well-formed state.
    pub open spec fn wf(&self) -> bool {
        self@.wf()
    }

    /// A machine with `game_data` loaded at `PROGRAM_OFFSET` and the glyphs
    /// at address 0.
    pub fn new(game_data: &[u8]) -> (r: Self)
        requires
            PROGRAM_OFFSET + game_data@.len() <= MEMORY_SIZE,
        ensures
            r.wf(),
            r@ == initial(game_data@),
    {
        let mut memory = filled(0u8, MEMORY_SIZE);
        let glyphs = fontset();
        let mut k: usize = 0;
        while k < glyphs.len()
            invariant
                glyphs@ == font(),
                glyphs@.len() == 80,
                k <= 80,
                memory@.len() == MEMORY_SIZE,
                forall|a: int| 0 <= a < MEMORY_SIZE ==> #[trigger] memory@[a] == if a < k { font()[a] } else { 0 },
            decreases 80 - k,
        {
            memory[k] = glyphs[k];
            k = k + 1;
        }
        let mut k: usize = 0;
        while k < game_data.len()
            invariant
                PROGRAM_OFFSET + game_data@.len() <= MEMORY_SIZE,
                k <= game_data@.len(),
                memory@.len() == MEMORY_SIZE,
                forall|a: int| 0 <= a < MEMORY_SIZE ==> #[trigger] memory@[a] == if a < 80 {
                    font()[a]
                } else if PROGRAM_OFFSET <= a < PROGRAM_OFFSET + k {
                    game_data@[a - PROGRAM_OFFSET]
                } else {
                    0
                },
            decreases game_data@.len() - k,
        {
            memory[k + PROGRAM_OFFSET] = game_data[k];
            k = k + 1;
        }
        let r = CPU {
            memory,
            v: filled(0u8, 16),
            i: 0,
            pc: PROGRAM_OFFSET as u16,
            gfx: Display::new(),
            delay_timer: 0,
            sound_timer: 0,
            stack: filled(0u16, STACK_SIZE),
            sp: 0,
            key: filled(false, 16),
            wait_for_key: None,
        };
        assert(r@.memory =~= initial(game_data@).memory);
        r
    }

    /// Records that `key` went down; a pending wait for a key ends with the
    /// key's value in the waiting register.
    pub fn key_press(&mut self, key: u8)
        requires
            old(self).wf(),
            key < 16,
        ensures
            final(self).wf(),
            final(self)@ == pressed(old(self)@, key),
    {
        self.key[key as usize] = true;
        if let Some(reg) = self.wait_for_key {
            self.set_reg(reg, key);
            self.wait_for_key = None;
        }
    }

    /// Records that `key` went up.
    pub fn key_release(&mut self, key: u8)
        requires
            old(self).wf(),
            key < 16,
        ensures
            final(self).wf(),
            final(self)@ == (CpuState { key: old(self)@.key.update(key as int, false), ..old(self)@ }),
    {
        self.key[key as usize] = false;
    }

    /// Draws the sprite at the index address; the flag register reports a collision.
    fn draw(&mut self, reg1: u8, reg2: u8, val: u8, random_byte: u8) -> (r: Result<(), Chip8Error>)
        requires
            old(self).wf(),
            old(self)@.pc + 1 < MEMORY_SIZE,
            OpCode::Draw(reg1, reg2, val).wf(),
        ensures
            final(self).wf(),
            match execute(old(self)@, OpCode::Draw(reg1, reg2, val), random_byte) {
                Ok(t) => r is Ok && final(self)@ == t,
                Err(e) => r == Err::<(), Chip8Error>(e) && final(self)@ == old(self)@,
            },
    {
        reveal(execute);
        let next = self.pc + 2;
        let ghost s = self@;
        if self.i as usize + val as usize > MEMORY_SIZE {
            return Err(Chip8Error::AddressOutOfRange);
        }
        let x = self.read_reg(reg1);
        let y = self.read_reg(reg2);
        let start = self.i as usize;
        let mut sprite: Vec<u8> = Vec::new();
        let mut k: usize = 0;
        while k < val as usize
            invariant
                self@ == s,
                s.wf(),
                start == s.i,
                start + val <= MEMORY_SIZE,
                k <= val,
                sprite@ == s.memory.subrange(start as int, start + k),
            decreases val - k,
        {
            sprite.push(self.memory[start + k]);
            k = k + 1;
            assert(sprite@ =~= s.memory.subrange(start as int, start + k));
        }
        let collision = self.gfx.draw(x, y, sprite.as_slice());
        self.set_reg(0xF, if collision { 1 } else { 0 });
        self.pc = next;
        Ok(())
    }

    /// Writes the decimal digits of a register at the index address.
    fn store_bcd(&mut self, reg: u8, random_byte: u8) -> (r: Result<(), Chip8Error>)
        requires
            old(self).wf(),
            old(self)@.pc + 1 < MEMORY_SIZE,
            reg < 16,
        ensures
            final(self).wf(),
            match execute(old(self)@, OpCode::StoreBCD(reg), random_byte) {
                Ok(t) => r is Ok && final(self)@ == t,
                Err(e) => r == Err::<(), Chip8Error>(e) && final(self)@ == old(self)@,
            },
    {
        reveal(execute);
        let next = self.pc + 2;
        if self.i as usize + 2 >= MEMORY_SIZE {
            return Err(Chip8Error::AddressOutOfRange);
        }
        let val = self.read_reg(reg);
        let at = self.i as usize;
        self.memory[at] = val / 100;
        self.memory[at + 1] = (val / 10) % 10;
        self.memory[at + 2] = val % 10;
        self.pc = next;
        Ok(())
    }

    /// Copies registers `0..=reg` to memory at the index address.
    fn reg_dump(&mut self, reg: u8, random_byte: u8) -> (r: Result<(), Chip8Error>)
        requires
            old(self).wf(),
            old(self)@.pc + 1 < MEMORY_SIZE,
            reg < 16,
        ensures
            final(self).wf(),
            match execute(old(self)@, OpCode::RegDump(reg), random_byte) {
                Ok(t) => r is Ok && final(self)@ == t,
                Err(e) => r == Err::<(), Chip8Error>(e) && final(self)@ == old(self)@,
            },
    {
        reveal(execute);
        let next = self.pc + 2;
        let ghost s = self@;
        if self.i as usize + reg as usize >= MEMORY_SIZE {
            return Err(Chip8Error::AddressOutOfRange);
        }
        let base = self.i as usize;
        let mut k: u8 = 0;
        assert(self@.memory =~= Seq::new(
            MEMORY_SIZE as nat,
            |a: int| if base <= a < base + k { s.v[a - base] } else { s.memory[a] },
        ));
        while k <= reg
            invariant
                s.wf(),
                reg < 16,
                base == s.i,
                base + reg < MEMORY_SIZE,
                k <= reg + 1,
                self@ == (CpuState {
                    memory: Seq::new(
                        MEMORY_SIZE as nat,
                        |a: int| if base <= a < base + k { s.v[a - base] } else { s.memory[a] },
                    ),
                    ..s
                }),
            decreases reg + 1 - k,
        {
            let val = self.read_reg(k);
            self.memory[base + k as usize] = val;
            k = k + 1;
            assert(self@.memory =~= Seq::new(
                MEMORY_SIZE as nat,
                |a: int| if base <= a < base + k { s.v[a - base] } else { s.memory[a] },
            ));
        }
        assert(self@.memory =~= Seq::new(
            MEMORY_SIZE as nat,
            |a: int| if s.i <= a <= s.i + reg { s.v[a - s.i] } else { s.memory[a] },
        ));
        self.pc = next;
        Ok(())
    }

    /// Loads registers `0..=reg` from memory at the index address.
    fn reg_load(&mut self, reg: u8, random_byte: u8) -> (r: Result<(), Chip8Error>)
        requires
            old(self).wf(),
            old(self)@.pc + 1 < MEMORY_SIZE,
            reg < 16,
        ensures
            final(self).wf(),
            match execute(old(self)@, OpCode::RegLoad(reg), random_byte) {
                Ok(t) => r is Ok && final(self)@ == t,
                Err(e) => r == Err::<(), Chip8Error>(e) && final(self)@ == old(self)@,
            },
    {
        reveal(execute);
        let next = self.pc + 2;
        let ghost s = self@;
        if self.i as usize + reg as usize >= MEMORY_SIZE {
            return Err(Chip8Error::AddressOutOfRange);
        }
        let base = self.i as usize;
        let mut k: u8 = 0;
        assert(self@.v =~= Seq::new(16, |r: int| if r < k { s.memory[base + r] } else { s.v[r] }));
        while k <= reg
            invariant
                s.wf(),
                reg < 16,
                base == s.i,
                base + reg < MEMORY_SIZE,
                k <= reg + 1,
                self@ == (CpuState {
                    v: Seq::new(16, |r: int| if r < k { s.memory[base + r] } else { s.v[r] }),
                    ..s
                }),
            decreases reg + 1 - k,
        {
            let val = self.memory[base + k as usize];
            self.set_reg(k, val);
            k = k + 1;
            assert(self@.v =~= Seq::new(16, |r: int| if r < k { s.memory[base + r] } else { s.v[r] }));
        }
        assert(self@.v =~= Seq::new(16, |r: int| if r <= reg { s.memory[s.i + r] } else { s.v[r] }));
        self.pc = next;
        Ok(())
    }

    /// Executes a jump, call, return, skip or screen clear.
    fn run_flow(&mut self, instruction: OpCode, random_byte: u8) -> (r: Result<(), Chip8Error>)
        requires
            old(self).wf(),
            instruction.wf(),
            old(self)@.pc + 1 < MEMORY_SIZE,
            matches!(instruction, OpCode::ClearScreen | OpCode::Return | OpCode::JumpTo(..) | OpCode::Call(..) | OpCode::JumpPlus(..) | OpCode::SkipIfEqualsByte(..) | OpCode::SkipIfNotEqualsByte(..) | OpCode::SkipIfEquals(..) | OpCode::SkipIfNotEquals(..) | OpCode::SkipPressed(..) | OpCode::SkipNotPressed(..)),
        ensures
            final(self).wf(),
            match execute(old(self)@, instruction, random_byte) {
                Ok(t) => r is Ok && final(self)@ == t,
                Err(e) => r == Err::<(), Chip8Error>(e) && final(self)@ == old(self)@,
            },
    {
        reveal(execute);
        let next = self.pc + 2;
        let skip = self.pc + 4;
        match instruction {
            OpCode::ClearScreen => {
                self.gfx.clear();
                self.pc = next;
            },
            OpCode::Return => {
                if self.sp == 0 {
                    return Err(Chip8Error::StackUnderflow);
                }
                let prev = self.stack[(self.sp - 1) as usize];
                self.sp = self.sp - 1;
                self.pc = prev + 2;
            },
            OpCode::JumpTo(addr) => {
                self.pc = addr;
            },
            OpCode::Call(addr) => {
                if self.sp as usize >= STACK_SIZE {
                    return Err(Chip8Error::StackOverflow);
                }
                self.stack[self.sp as usize] = self.pc;
                self.sp = self.sp + 1;
                self.pc = addr;
            },
            OpCode::JumpPlus(addr) => {
                self.pc = addr + self.read_reg(0x0) as u16;
            },
            OpCode::SkipIfEqualsByte(reg, val) => {
                self.pc = if self.read_reg(reg) == val { skip } else { next };
            },
            OpCode::SkipIfNotEqualsByte(reg, val) => {
                self.pc = if self.read_reg(reg) != val { skip } else { next };
            },
            OpCode::SkipIfEquals(reg1, reg2) => {
                self.pc = if self.read_reg(reg1) == self.read_reg(reg2) { skip } else { next };
            },
            OpCode::SkipIfNotEquals(reg1, reg2) => {
                self.pc = if self.read_reg(reg1) != self.read_reg(reg2) { skip } else { next };
            },
            OpCode::SkipPressed(reg) => {
                let val = self.read_reg(reg);
                if val >= 16 {
                    return Err(Chip8Error::KeyOutOfRange);
                }
                self.pc = if self.key[val as usize] { skip } else { next };
            },
            OpCode::SkipNotPressed(reg) => {
                let val = self.read_reg(reg);
                if val >= 16 {
                    return Err(Chip8Error::KeyOutOfRange);
                }
                self.pc = if !self.key[val as usize] { skip } else { next };
            },
            _ => {},
        }
        Ok(())
    }

    /// Executes a register load or a logic instruction.
    fn run_alu(&mut self, instruction: OpCode, random_byte: u8) -> (r: Result<(), Chip8Error>)
        requires
            old(self).wf(),
            instruction.wf(),
            old(self)@.pc + 1 < MEMORY_SIZE,
            matches!(instruction, OpCode::LoadByte(..) | OpCode::AddByte(..) | OpCode::Move(..) | OpCode::Or(..) | OpCode::And(..) | OpCode::XOr(..) | OpCode::LoadRand(..)),
        ensures
            final(self).wf(),
            match execute(old(self)@, instruction, random_byte) {
                Ok(t) => r is Ok && final(self)@ == t,
                Err(e) => r == Err::<(), Chip8Error>(e) && final(self)@ == old(self)@,
            },
    {
        reveal(execute);
        let next = self.pc + 2;
        match instruction {
            OpCode::LoadByte(reg, val) => {
                self.set_reg(reg, val);
                self.pc = next;
            },
            OpCode::AddByte(reg, val) => {
                let reg_val = self.read_reg(reg);
                self.set_reg(reg, reg_val.wrapping_add(val));
                self.pc = next;
            },
            OpCode::Move(reg1, reg2) => {
                let val = self.read_reg(reg2);
                self.set_reg(reg1, val);
                self.pc = next;
            },
            OpCode::Or(reg1, reg2) => {
                let val1 = self.read_reg(reg1);
                let val2 = self.read_reg(reg2);
                self.set_reg(reg1, val1 | val2);
                self.pc = next;
            },
            OpCode::And(reg1, reg2) => {
                let val1 = self.read_reg(reg1);
                let val2 = self.read_reg(reg2);
                self.set_reg(reg1, val1 & val2);
                self.pc = next;
            },
            OpCode::XOr(reg1, reg2) => {
                let val1 = self.read_reg(reg1);
                let val2 = self.read_reg(reg2);
                self.set_reg(reg1, val1 ^ val2);
                self.pc = next;
            },
            OpCode::LoadRand(reg, val) => {
                self.set_reg(reg, random_byte & val);
                self.pc = next;
            },
            _ => {},
        }
        Ok(())
    }
    /// Executes an arithmetic instruction, which sets the flag register.
    fn run_arith(&mut self, instruction: OpCode, random_byte: u8) -> (r: Result<(), Chip8Error>)
        requires
            old(self).wf(),
            instruction.wf(),
            old(self)@.pc + 1 < MEMORY_SIZE,
            matches!(instruction, OpCode::Add(..) | OpCode::Sub(..) | OpCode::ShiftRight(..) | OpCode::ReverseSub(..) | OpCode::ShiftLeft(..)),
        ensures
            final(self).wf(),
            match execute(old(self)@, instruction, random_byte) {
                Ok(t) => r is Ok && final(self)@ == t,
                Err(e) => r == Err::<(), Chip8Error>(e) && final(self)@ == old(self)@,
            },
    {
        reveal(execute);
        let next = self.pc + 2;
        match instruction {
            OpCode::Add(reg1, reg2) => {
                let val1 = self.read_reg(reg1) as u16;
                let val2 = self.read_reg(reg2) as u16;
                let sum = val1 + val2;
                let flag: u8 = if sum > 255 { 1 } else { 0 };
                let res = (sum % 256) as u8;
                self.set_reg(0xF, flag);
                self.set_reg(reg1, res);
                self.pc = next;
            },
            OpCode::Sub(reg1, reg2) => {
                let val1 = self.read_reg(reg1);
                let val2 = self.read_reg(reg2);
                let flag: u8 = if val1 > val2 { 1 } else { 0 };
                let res = val1.wrapping_sub(val2);
                assert(res == ((val1 - val2) % 256) as u8);
                self.set_reg(0xF, flag);
                self.set_reg(reg1, res);
                self.pc = next;
            },
            OpCode::ShiftRight(reg) => {
                let val = self.read_reg(reg);
                let flag = val & 1u8;
                let res = val >> 1u8;
                self.set_reg(0xF, flag);
                self.set_reg(reg, res);
                self.pc = next;
            },
            OpCode::ReverseSub(reg1, reg2) => {
                let val1 = self.read_reg(reg1);
                let val2 = self.read_reg(reg2);
                let flag: u8 = if val2 > val1 { 1 } else { 0 };
                let res = val2.wrapping_sub(val1);
                assert(res == ((val2 - val1) % 256) as u8);
                self.set_reg(0xF, flag);
                self.set_reg(reg1, res);
                self.pc = next;
            },
            OpCode::ShiftLeft(reg) => {
                let val = self.read_reg(reg);
                let flag = val & 0x80u8;
                let res = val.wrapping_mul(2);
                assert(res == ((val * 2) % 256) as u8);
                self.set_reg(0xF, flag);
                self.set_reg(reg, res);
                self.pc = next;
            },
            _ => {},
        }
        Ok(())
    }

    /// Executes an instruction on the index register, the timers or the key wait.
    fn run_misc(&mut self, instruction: OpCode, random_byte: u8) -> (r: Result<(), Chip8Error>)
        requires
            old(self).wf(),
            instruction.wf(),
            old(self)@.pc + 1 < MEMORY_SIZE,
            matches!(instruction, OpCode::LoadIReg(..) | OpCode::LoadDelay(..) | OpCode::WaitForKey(..) | OpCode::SetDelay(..) | OpCode::SetSoundDelay(..) | OpCode::AddToIReg(..) | OpCode::LoadSprite(..)),
        ensures
            final(self).wf(),
            match execute(old(self)@, instruction, random_byte) {
                Ok(t) => r is Ok && final(self)@ == t,
                Err(e) => r == Err::<(), Chip8Error>(e) && final(self)@ == old(self)@,
            },
    {
        reveal(execute);
        let next = self.pc + 2;
        match instruction {
            OpCode::LoadIReg(addr) => {
                self.i = addr;
                self.pc = next;
            },
            OpCode::LoadDelay(reg) => {
                let val = self.delay_timer;
                self.set_reg(reg, val);
                self.pc = next;
            },
            OpCode::WaitForKey(reg) => {
                self.wait_for_key = Some(reg);
                self.pc = next;
            },
            OpCode::SetDelay(reg) => {
                self.delay_timer = self.read_reg(reg);
                self.pc = next;
            },
            OpCode::SetSoundDelay(reg) => {
                self.sound_timer = self.read_reg(reg);
                self.pc = next;
            },
            OpCode::AddToIReg(reg) => {
                self.i = self.i.wrapping_add(self.read_reg(reg) as u16);
                self.pc = next;
            },
            OpCode::LoadSprite(reg) => {
                let val = self.read_reg(reg);
                self.i = val as u16 * 5;
                self.pc = next;
            },
            _ => {},
        }
        Ok(())
    }

    /// Executes `instruction`, with `random_byte` as the byte that a random
    /// load masks, and moves the program counter on. On a fatal error the
    /// machine is left as it was.
    pub fn run_instruction(&mut self, instruction: OpCode, random_byte: u8) -> (r: Result<(), Chip8Error>)
        requires
            old(self).wf(),
            instruction.wf(),
            old(self)@.pc + 1 < MEMORY_SIZE,
        ensures
            final(self).wf(),
            match execute(old(self)@, instruction, random_byte) {
                Ok(t) => r is Ok && final(self)@ == t,
                Err(e) => r == Err::<(), Chip8Error>(e) && final(self)@ == old(self)@,
            },
    {
        match instruction {
            OpCode::ClearScreen | OpCode::Return | OpCode::JumpTo(..) | OpCode::Call(..) | OpCode::JumpPlus(..) | OpCode::SkipIfEqualsByte(..) | OpCode::SkipIfNotEqualsByte(..) | OpCode::SkipIfEquals(..) | OpCode::SkipIfNotEquals(..) | OpCode::SkipPressed(..) | OpCode::SkipNotPressed(..) => self.run_flow(instruction, random_byte),
            OpCode::LoadByte(..) | OpCode::AddByte(..) | OpCode::Move(..) | OpCode::Or(..) | OpCode::And(..) | OpCode::XOr(..) | OpCode::LoadRand(..) => self.run_alu(instruction, random_byte),
            OpCode::Add(..) | OpCode::Sub(..) | OpCode::ShiftRight(..) | OpCode::ReverseSub(..) | OpCode::ShiftLeft(..) => self.run_arith(instruction, random_byte),
            OpCode::LoadIReg(..) | OpCode::LoadDelay(..) | OpCode::WaitForKey(..) | OpCode::SetDelay(..) | OpCode::SetSoundDelay(..) | OpCode::AddToIReg(..) | OpCode::LoadSprite(..) => self.run_misc(instruction, random_byte),
            OpCode::Draw(reg1, reg2, val) => self.draw(reg1, reg2, val, random_byte),
            OpCode::StoreBCD(reg) => self.store_bcd(reg, random_byte),
            OpCode::RegDump(reg) => self.reg_dump(reg, random_byte),
            OpCode::RegLoad(reg) => self.reg_load(reg, random_byte),
        }
    }

    /// One step of the machine, with `random_byte` for a random load: both
    /// timers tick; unless the machine waits for a key, the instruction at
    /// the program counter is fetched, decoded and executed.
    pub fn step(&mut self, random_byte: u8) -> (r: Result<(), Chip8Error>)
        requires
            old(self).wf(),
        ensures
            final(self).wf(),
            match step(old(self)@, random_byte) {
                Ok(t) => r is Ok && final(self)@ == t,
                Err(e) => r == Err::<(), Chip8Error>(e),
            },
    {
        if self.delay_timer > 0 {
            self.delay_timer = self.delay_timer - 1;
        }
        if self.sound_timer > 0 {
            self.sound_timer = self.sound_timer - 1;
        }
        if self.wait_for_key.is_none() {
            let pc = self.pc as usize;
            if pc + 1 >= MEMORY_SIZE {
                return Err(Chip8Error::AddressOutOfRange);
            }
            let raw_code = self.memory[pc] as u16 * 256 + self.memory[pc + 1] as u16;
            match OpCode::from_u16(raw_code) {
                None => {
                    return Err(Chip8Error::BadInstruction(raw_code));
                },
                Some(opcode) => {
                    proof {
                        lemma_decode_fields(raw_code);
                    }
                    return self.run_instruction(opcode, random_byte);
                },
            }
        }
        Ok(())
    }

    /// Steps the machine once for each byte of `random_bytes`, the `k`-th
    /// step with the `k`-th byte, and stops at the first fatal error.
    pub fn run_steps(&mut self, random_bytes: &[u8]) -> (r: Result<(), Chip8Error>)
        requires
            old(self).wf(),
        ensures
            final(self).wf(),
            match run(old(self)@, random_bytes@) {
                Ok(t) => r is Ok && final(self)@ == t,
                Err(e) => r == Err::<(), Chip8Error>(e),
            },
    {
        let ghost rnds = random_bytes@;
        let mut k: usize = 0;
        assert(rnds.subrange(0, rnds.len() as int) =~= rnds);
        while k < random_bytes.len()
            invariant
                self.wf(),
                k <= rnds.len(),
                rnds == random_bytes@,
                run(old(self)@, rnds) == run(self@, rnds.subrange(k as int, rnds.len() as int)),
            decreases rnds.len() - k,
        {
            let ghost rest = rnds.subrange(k as int, rnds.len() as int);
            assert(rest.drop_first() =~= rnds.subrange(k + 1, rnds.len() as int));
            let res = self.step(random_bytes[k]);
            if let Err(e) = res {
                return Err(e);
            }
            k = k + 1;
        }
        assert(rnds.subrange(k as int, rnds.len() as int) =~= Seq::<u8>::empty());
        Ok(())
    }

    /// Runs `steps` steps, each with a fresh random byte, and stops at the
    /// first fatal error.
    pub fn run_cycle(&mut self, steps: u64) -> (r: Result<(), Chip8Error>)
        requires
            old(self).wf(),
        ensures
            final(self).wf(),
            exists|rnds: Seq<u8>| rnds.len() == steps && match run(old(self)@, rnds) {
                Ok(t) => r is Ok && final(self)@ == t,
                Err(e) => r == Err::<(), Chip8Error>(e),
            },
    {
        let mut random_bytes: Vec<u8> = Vec::new();
        let mut k: u64 = 0;
        while k < steps
            invariant
                k <= steps,
                random_bytes@.len() == k,
            decreases steps - k,
        {
            random_bytes.push(random_byte());
            k = k + 1;
        }
        let r = self.run_steps(random_bytes.as_slice());
        assert(random_bytes@.len() == steps);
        r
    }

    /// The value of register `reg_i`.
    pub fn read_reg(&self, reg_i: u8) -> (r: u8)
        requires
            self.wf(),
            reg_i < 16,
        ensures
            r == self@.v[reg_i as int],
    {
        self.v[reg_i as usize]
    }

    /// Sets register `reg_i` to `val`.
    pub fn set_reg(&mut self, reg_i: u8, val: u8)
        requires
            old(self).wf(),
            reg_i < 16,
        ensures
            final(self).wf(),
            final(self)@ == old(self)@.set(reg_i, val),
    {
        self.v[reg_i as usize] = val;
    }

    /// The byte at `addr`.
    pub fn memory_at(&self, addr: usize) -> (r: u8)
        requires
            self.wf(),
            addr < MEMORY_SIZE,
        ensures
            r == self@.memory[addr as int],
    {
        self.memory[addr]
    }

    /// The program counter.
    pub fn pc(&self) -> (r: u16)
        ensures
            r == self@.pc,
    {
        self.pc
    }

    /// The index register.
    pub fn index(&self) -> (r: u16)
        ensures
            r == self@.i,
    {
        self.i
    }

    /// The delay timer.
    pub fn delay_timer(&self) -> (r: u8)
        ensures
            r == self@.delay_timer,
    {
        self.delay_timer
    }

    /// The sound timer.
    pub fn sound_timer(&self) -> (r: u8)
        ensures
            r == self@.sound_timer,
    {
        self.sound_timer
    }

    /// The register that waits for a key, if the machine waits for one.
    pub fn waiting_for_key(&self) -> (r: Option<u8>)
        ensures
            r == self@.wait_for_key,
    {
        self.wait_for_key
    }

    /// The number of return addresses on the call stack.
    pub fn stack_depth(&self) -> (r: u16)
        ensures
            r == self@.sp,
    {
        self.sp
    }
}

/// Adding register `y` to register `x` (not the flag register) stores the
/// sum modulo 256, and the flag register says whether the sum passed 255;
/// every other register is kept.
pub proof fn lemma_add_carry(s: CpuState, x: u8, y: u8, rnd: u8)
    requires
        s.wf(),
        x < 15,
        y < 16,
    ensures
        execute(s, OpCode::Add(x, y), rnd) is Ok,
        ({
            let t = execute(s, OpCode::Add(x, y), rnd)->Ok_0;
            let sum = s.v[x as int] + s.v[y as int];
            &&& t.v[x as int] == sum % 256
            &&& sum <= 255 ==> t.v[x as int] == sum && t.v[15] == 0
            &&& sum > 255 ==> t.v[x as int] == sum - 256 && t.v[15] == 1
            &&& forall|r: int| 0 <= r < 15 && r != x ==> t.v[r] == s.v[r]
            &&& t.pc == (s.pc + 2) as u16
        }),
{
    reveal(execute);
}

/// Subtracting register `y` from register `x` (not the flag register) stores
/// the difference modulo 256, and the flag register says whether `x` held
/// the greater value.
pub proof fn lemma_sub_borrow(s: CpuState, x: u8, y: u8, rnd: u8)
    requires
        s.wf(),
        x < 15,
        y < 16,
    ensures
        execute(s, OpCode::Sub(x, y), rnd) is Ok,
        ({
            let t = execute(s, OpCode::Sub(x, y), rnd)->Ok_0;
            let (a, b) = (s.v[x as int], s.v[y as int]);
            &&& a >= b ==> t.v[x as int] == a - b
            &&& a < b ==> t.v[x as int] == a - b + 256
            &&& t.v[15] == if a > b { 1u8 } else { 0u8 }
            &&& forall|r: int| 0 <= r < 15 && r != x ==> t.v[r] == s.v[r]
        }),
{
    reveal(execute);
}

/// Dumping registers `0..=x` and then loading them back from the same index
/// address, whatever the registers held in between, restores them; with `x`
/// the flag register, all sixteen come back.
pub proof fn lemma_dump_load(s: CpuState, x: u8, regs: Seq<u8>, rnd1: u8, rnd2: u8)
    requires
        s.wf(),
        x < 16,
        s.i + x < MEMORY_SIZE,
        regs.len() == 16,
    ensures
        execute(s, OpCode::RegDump(x), rnd1) is Ok,
        ({
            let t = execute(s, OpCode::RegDump(x), rnd1)->Ok_0;
            let u = CpuState { v: regs, ..t };
            &&& execute(u, OpCode::RegLoad(x), rnd2) is Ok
            &&& forall|r: int| 0 <= r <= x ==> #[trigger] execute(u, OpCode::RegLoad(x), rnd2)->Ok_0.v[r] == s.v[r]
            &&& x == 15 ==> execute(u, OpCode::RegLoad(x), rnd2)->Ok_0.v == s.v
        }),
{
    reveal(execute);
    let t = execute(s, OpCode::RegDump(x), rnd1)->Ok_0;
    let u = CpuState { v: regs, ..t };
    let w = execute(u, OpCode::RegLoad(x), rnd2)->Ok_0;
    if x == 15 {
        assert(w.v =~= s.v);
    }
}

/// Storing the decimal digits of register `x` writes the hundreds, tens and
/// ones at the index address and the two after it, and they make up the
/// register's value.
pub proof fn lemma_bcd(s: CpuState, x: u8, rnd: u8)
    requires
        s.wf(),
        x < 16,
        s.i + 2 < MEMORY_SIZE,
    ensures
        execute(s, OpCode::StoreBCD(x), rnd) is Ok,
        ({
            let t = execute(s, OpCode::StoreBCD(x), rnd)->Ok_0;
            let (h, d, o) = (t.memory[s.i as int], t.memory[s.i + 1], t.memory[s.i + 2]);
            &&& h < 10 && d < 10 && o < 10
            &&& h * 100 + d * 10 + o == s.v[x as int]
            &&& t.v == s.v
        }),
{
    let v = s.v[x as int] as int;
    assert(v / 100 < 10 && (v / 10) % 10 < 10 && v % 10 < 10
        && (v / 100) * 100 + ((v / 10) % 10) * 10 + v % 10 == v) by (nonlinear_arith)
        requires 0 <= v < 256;
    reveal(execute);
    let t = execute(s, OpCode::StoreBCD(x), rnd)->Ok_0;
    assert(t.memory[s.i as int] == v / 100);
    assert(t.memory[s.i + 1] == (v / 10) % 10);
    assert(t.memory[s.i + 2] == v % 10);
}

/// A step that does not set a timer lowers each timer by one, and a timer at
/// zero stays at zero.
pub proof fn lemma_timer_decay(s: CpuState, rnd: u8)
    requires
        s.wf(),
        step(s, rnd) is Ok,
        s.wait_for_key is None ==> !(decode(s.fetch()) matches Some(OpCode::SetDelay(_)))
            && !(decode(s.fetch()) matches Some(OpCode::SetSoundDelay(_))),
    ensures
        step(s, rnd)->Ok_0.delay_timer == if s.delay_timer > 0 { s.delay_timer - 1 } else { 0 },
        step(s, rnd)->Ok_0.sound_timer == if s.sound_timer > 0 { s.sound_timer - 1 } else { 0 },
{
    reveal(execute);
}

/// A machine that waits for a key only counts its timers down, one per step
/// and never below zero: memory, registers, program counter and screen stay.
pub proof fn lemma_key_wait(s: CpuState, rnds: Seq<u8>)
    requires
        s.wf(),
        s.wait_for_key is Some,
    ensures
        run(s, rnds) == Ok::<CpuState, Chip8Error>(CpuState {
            delay_timer: if s.delay_timer > rnds.len() { (s.delay_timer - rnds.len()) as u8 } else { 0 },
            sound_timer: if s.sound_timer > rnds.len() { (s.sound_timer - rnds.len()) as u8 } else { 0 },
            ..s
        }),
    decreases rnds.len(),
{
    if rnds.len() > 0 {
        lemma_key_wait(s.tick(), rnds.drop_first());
    }
}

/// A key press ends a wait for a key: the key's value lands in the waiting
/// register, the other registers and the program counter stay, and the next
/// step fetches and executes again.
pub proof fn lemma_key_resolves(s: CpuState, key: u8)
    requires
        s.wf(),
        s.wait_for_key is Some,
        key < 16,
    ensures
        pressed(s, key).wait_for_key is None,
        pressed(s, key).v[s.wait_for_key->Some_0 as int] == key,
        forall|r: int| 0 <= r < 16 && r != s.wait_for_key->Some_0 ==> pressed(s, key).v[r] == s.v[r],
        pressed(s, key).pc == s.pc,
        pressed(s, key).wf(),
{
}

} // verus!
