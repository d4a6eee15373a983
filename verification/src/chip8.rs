//! The machine state: memory, registers, stack, timers, framebuffer, keys.

use vstd::prelude::*;
use crate::font::{font_seq, font_table};

verus! {

/// Size of the addressable memory in bytes.
pub const MEMORY_SIZE: usize = 4096;
/// Number of general-purpose registers V0..VF.
pub const REGISTER_COUNT: usize = 16;
/// Width of the monochrome display in pixels.
pub const DISPLAY_WIDTH: usize = 64;
/// Height of the monochrome display in pixels.
pub const DISPLAY_HEIGHT: usize = 32;
/// Number of cells in the framebuffer.
pub const DISPLAY_SIZE: usize = 2048;
/// Number of return-address slots in the call stack.
pub const STACK_SLOTS: usize = 16;
/// Number of keys on the CHIP-8 keypad.
pub const KEY_COUNT: usize = 16;
/// Load offset for standard CHIP-8 programs.
pub const CHIP8_PROGRAM_OFFSET: u16 = 0x200;
/// Load offset for ETI-660 programs.
pub const ETI660_PROGRAM_OFFSET: u16 = 0x600;

/// The program-loading convention: it selects the load offset.
#[allow(non_camel_case_types)]
#[derive(Clone, Copy, PartialEq, Eq, Debug, Structural)]
pub enum ProgramKind {
    CHIP8,
    ETI660,
}

/// The one way loading can fail: the image does not fit between the load
/// offset and the end of memory.
#[derive(Clone, Copy, PartialEq, Eq, Debug, Structural)]
pub enum LoadError {
    ProgramTooLarge,
}

/// Memory after a program image has been copied in at the given offset:
/// the image bytes where it lands, the old contents everywhere else.
pub open spec fn spec_load_image(mem: Seq<u8>, program: Seq<u8>, offset: int) -> Seq<u8> {
    Seq::new(MEMORY_SIZE as nat, |j: int| if offset <= j < offset + program.len() {
        program[j - offset]
    } else {
        mem[j]
    })
}

/// Big-endian combination of two bytes into one 16-bit opcode.
pub open spec fn combine_bytes(b1: u8, b2: u8) -> u16 {
    ((b1 as u16) << 8) | (b2 as u16)
}

/// The load offset selected by a program kind.
pub open spec fn spec_program_offset(kind: ProgramKind) -> u16 {
    match kind {
        ProgramKind::CHIP8 => 0x200,
        ProgramKind::ETI660 => 0x600,
    }
}

/// Returns the load offset for the given program kind.
pub fn program_offset(kind: ProgramKind) -> (r: u16)
    ensures
        r == spec_program_offset(kind),
{
    match kind {
        ProgramKind::CHIP8 => CHIP8_PROGRAM_OFFSET,
        ProgramKind::ETI660 => ETI660_PROGRAM_OFFSET,
    }
}

/// The CHIP-8 virtual machine.
///
/// `gfx` holds one byte per pixel, 0 for off and 1 for on. `keys` is written
/// by the host's input source and read by the key opcodes. `rng_state` drives
/// the pseudo-random opcode; the machine itself is fully deterministic.
pub struct Chip8 {
    pub current_opcode: u16,
    pub memory: Vec<u8>,
    pub v: Vec<u8>,
    pub index_register: u16,
    pub program_counter: u16,
    pub gfx: Vec<u8>,
    pub delay_timer: u8,
    pub sound_timer: u8,
    pub stack_pointer: u16,
    pub stack: Vec<u16>,
    pub keys: Vec<bool>,
    pub rng_state: u16,
}

/// The mathematical view of the machine state.
#[verifier::ext_equal]
pub ghost struct Chip8View {
    pub current_opcode: u16,
    pub memory: Seq<u8>,
    pub v: Seq<u8>,
    pub index_register: u16,
    pub program_counter: u16,
    pub gfx: Seq<u8>,
    pub delay_timer: u8,
    pub sound_timer: u8,
    pub stack_pointer: u16,
    pub stack: Seq<u16>,
    pub keys: Seq<bool>,
    pub rng_state: u16,
}

impl View for Chip8 {
    type V = Chip8View;

    open spec fn view(&self) -> Chip8View {
        Chip8View {
            current_opcode: self.current_opcode,
            memory: self.memory@,
            v: self.v@,
            index_register: self.index_register,
            program_counter: self.program_counter,
            gfx: self.gfx@,
            delay_timer: self.delay_timer,
            sound_timer: self.sound_timer,
            stack_pointer: self.stack_pointer,
            stack: self.stack@,
            keys: self.keys@,
            rng_state: self.rng_state,
        }
    }
}

impl Chip8View {
    /// Well-formedness of the data model: the fixed sizes of the storage
    /// areas, the stack pointer bounded by the slot count, the index register
    /// within the 12-bit address space, and a framebuffer of 0/1 cells.
    pub open spec fn wf(self) -> bool {
        &&& self.memory.len() == MEMORY_SIZE
        &&& self.v.len() == REGISTER_COUNT
        &&& self.gfx.len() == DISPLAY_SIZE
        &&& self.stack.len() == STACK_SLOTS
        &&& self.keys.len() == KEY_COUNT
        &&& self.stack_pointer <= STACK_SLOTS
        &&& self.index_register < MEMORY_SIZE
        &&& forall|i: int| 0 <= i < DISPLAY_SIZE ==> self.gfx[i] <= 1
    }
}

impl Chip8 {
    /// Well-formedness, lifted to the executable type.
    pub open spec fn wf(&self) -> bool {
        self@.wf()
    }

    /// Creates a machine with zeroed storage, ready for `initialize`.
    pub fn new() -> (r: Chip8)
        ensures
            r.wf(),
            r@.current_opcode == 0,
            r@.index_register == 0,
            r@.program_counter == CHIP8_PROGRAM_OFFSET,
            r@.delay_timer == 0,
            r@.sound_timer == 0,
            r@.stack_pointer == 0,
            r@.rng_state == 0,
            forall|i: int| 0 <= i < MEMORY_SIZE ==> r@.memory[i] == 0,
            forall|i: int| 0 <= i < REGISTER_COUNT ==> r@.v[i] == 0,
            forall|i: int| 0 <= i < DISPLAY_SIZE ==> r@.gfx[i] == 0,
            forall|i: int| 0 <= i < STACK_SLOTS ==> r@.stack[i] == 0,
            forall|i: int| 0 <= i < KEY_COUNT ==> !r@.keys[i],
    {
        Chip8 {
            current_opcode: 0,
            memory: zero_bytes(MEMORY_SIZE),
            v: zero_bytes(REGISTER_COUNT),
            index_register: 0,
            program_counter: CHIP8_PROGRAM_OFFSET,
            gfx: zero_bytes(DISPLAY_SIZE),
            delay_timer: 0,
            sound_timer: 0,
            stack_pointer: 0,
            stack: zero_words(STACK_SLOTS),
            keys: all_keys_up(KEY_COUNT),
            rng_state: 0,
        }
    }

    /// Resets the machine as the data model prescribes: zeroes the registers,
    /// the stack and its pointer, both timers and the display, sets the
    /// program counter to the load offset of the selected program kind, and
    /// writes the built-in font table at the bottom of memory. Memory above
    /// the font table and the key state are left as they are.
    #[verifier::loop_isolation(false)]
    pub fn initialize(&mut self, kind: ProgramKind)
        requires
            old(self).wf(),
        ensures
            final(self).wf(),
            final(self)@.current_opcode == 0,
            final(self)@.index_register == 0,
            final(self)@.program_counter == spec_program_offset(kind),
            final(self)@.delay_timer == 0,
            final(self)@.sound_timer == 0,
            final(self)@.stack_pointer == 0,
            final(self)@.rng_state == 0,
            forall|i: int| 0 <= i < REGISTER_COUNT ==> final(self)@.v[i] == 0,
            forall|i: int| 0 <= i < DISPLAY_SIZE ==> final(self)@.gfx[i] == 0,
            forall|i: int| 0 <= i < STACK_SLOTS ==> final(self)@.stack[i] == 0,
            forall|i: int| 0 <= i < 80 ==> final(self)@.memory[i] == font_seq()[i],
            forall|i: int| 80 <= i < MEMORY_SIZE ==> final(self)@.memory[i] == old(self)@.memory[i],
            final(self)@.keys == old(self)@.keys,
    {
        self.current_opcode = 0;
        self.index_register = 0;
        self.program_counter = program_offset(kind);
        self.delay_timer = 0;
        self.sound_timer = 0;
        self.stack_pointer = 0;
        self.rng_state = 0;
        self.v = zero_bytes(REGISTER_COUNT);
        self.gfx = zero_bytes(DISPLAY_SIZE);
        self.stack = zero_words(STACK_SLOTS);
        let glyphs = font_table();
        let mut i: usize = 0;
        while i < 80
            invariant
                0 <= i <= 80,
                glyphs@ == font_seq(),
                self.memory@.len() == MEMORY_SIZE,
                forall|j: int| 0 <= j < i ==> self.memory@[j] == font_seq()[j],
                forall|j: int| i <= j < MEMORY_SIZE ==> self.memory@[j] == old(self)@.memory[j],
                self.current_opcode == 0,
                self.index_register == 0,
                self.program_counter == spec_program_offset(kind),
                self.delay_timer == 0,
                self.sound_timer == 0,
                self.stack_pointer == 0,
                self.rng_state == 0,
                self.v@.len() == REGISTER_COUNT,
                forall|j: int| 0 <= j < REGISTER_COUNT ==> self.v@[j] == 0,
                self.gfx@.len() == DISPLAY_SIZE,
                forall|j: int| 0 <= j < DISPLAY_SIZE ==> self.gfx@[j] == 0,
                self.stack@.len() == STACK_SLOTS,
                forall|j: int| 0 <= j < STACK_SLOTS ==> self.stack@[j] == 0,
                self.keys@ == old(self)@.keys,
                self.keys@.len() == KEY_COUNT,
            decreases 80 - i,
        {
            let b = glyphs[i];
            self.memory.set(i, b);
            i = i + 1;
        }
    }

    /// Copies a program image into memory at the offset of the selected
    /// program kind. An image that would run past the end of memory is a
    /// load fault: nothing is written and the error is returned.
    pub fn load_program(&mut self, program: &[u8], kind: ProgramKind) -> (r: Result<(), LoadError>)
        requires
            old(self).wf(),
        ensures
            final(self).wf(),
            (r is Ok) <==> spec_program_offset(kind) + program@.len() <= MEMORY_SIZE,
            r is Ok ==> final(self)@ == (Chip8View {
                memory: spec_load_image(old(self)@.memory, program@, spec_program_offset(kind) as int),
                ..old(self)@
            }),
            r is Err ==> final(self)@ == old(self)@,
    {
        match kind {
            ProgramKind::CHIP8 => self.load_chip8_program(program),
            ProgramKind::ETI660 => self.load_eti660_program(program),
        }
    }

    /// Loads a program at the standard offset 0x200.
    pub fn load_chip8_program(&mut self, program: &[u8]) -> (r: Result<(), LoadError>)
        requires
            old(self).wf(),
        ensures
            final(self).wf(),
            (r is Ok) <==> 0x200 + program@.len() <= MEMORY_SIZE,
            r is Ok ==> final(self)@ == (Chip8View {
                memory: spec_load_image(old(self)@.memory, program@, 0x200),
                ..old(self)@
            }),
            r is Err ==> final(self)@ == old(self)@,
    {
        self.load_image(program, CHIP8_PROGRAM_OFFSET as usize)
    }

    /// Loads a program at the ETI-660 offset 0x600.
    pub fn load_eti660_program(&mut self, program: &[u8]) -> (r: Result<(), LoadError>)
        requires
            old(self).wf(),
        ensures
            final(self).wf(),
            (r is Ok) <==> 0x600 + program@.len() <= MEMORY_SIZE,
            r is Ok ==> final(self)@ == (Chip8View {
                memory: spec_load_image(old(self)@.memory, program@, 0x600),
                ..old(self)@
            }),
            r is Err ==> final(self)@ == old(self)@,
    {
        self.load_image(program, ETI660_PROGRAM_OFFSET as usize)
    }

    /// Copies the image byte by byte once the bounds check has passed.
    #[verifier::loop_isolation(false)]
    fn load_image(&mut self, program: &[u8], offset: usize) -> (r: Result<(), LoadError>)
        requires
            old(self).wf(),
            offset <= MEMORY_SIZE,
        ensures
            final(self).wf(),
            (r is Ok) <==> offset + program@.len() <= MEMORY_SIZE,
            r is Ok ==> final(self)@ == (Chip8View {
                memory: spec_load_image(old(self)@.memory, program@, offset as int),
                ..old(self)@
            }),
            r is Err ==> final(self)@ == old(self)@,
    {
        if program.len() > MEMORY_SIZE - offset {
            return Err(LoadError::ProgramTooLarge);
        }
        let n = program.len();
        let mut i: usize = 0;
        while i < n
            invariant
                0 <= i <= n,
                self.memory@.len() == MEMORY_SIZE,
                forall|j: int| 0 <= j < i ==> self.memory@[offset + j] == program@[j],
                forall|j: int| 0 <= j < MEMORY_SIZE && !(offset <= j < offset + i) ==> self.memory@[j] == old(self)@.memory[j],
                self.current_opcode == old(self).current_opcode,
                self.index_register == old(self).index_register,
                self.program_counter == old(self).program_counter,
                self.delay_timer == old(self).delay_timer,
                self.sound_timer == old(self).sound_timer,
                self.stack_pointer == old(self).stack_pointer,
                self.rng_state == old(self).rng_state,
                self.v@ == old(self)@.v,
                self.gfx@ == old(self)@.gfx,
                self.stack@ == old(self)@.stack,
                self.keys@ == old(self)@.keys,
            decreases n - i,
        {
            let b = program[i];
            self.memory.set(offset + i, b);
            i = i + 1;
        }
        proof {
            assert(self@.memory =~= spec_load_image(old(self)@.memory, program@, offset as int));
            assert(self@ =~= (Chip8View {
                memory: spec_load_image(old(self)@.memory, program@, offset as int),
                ..old(self)@
            }));
        }
        Ok(())
    }

    /// Reads the two bytes at the program counter and combines them
    /// big-endian into the current opcode. Nothing else changes.
    pub fn fetch_opcode(&mut self)
        requires
            old(self).wf(),
            old(self)@.program_counter + 1 < MEMORY_SIZE,
        ensures
            final(self).wf(),
            final(self)@ == (Chip8View {
                current_opcode: combine_bytes(
                    old(self)@.memory[old(self)@.program_counter as int],
                    old(self)@.memory[old(self)@.program_counter + 1],
                ),
                ..old(self)@
            }),
    {
        let p = self.program_counter as usize;
        let hi = self.memory[p];
        let lo = self.memory[p + 1];
        self.current_opcode = ((hi as u16) << 8) | (lo as u16);
    }

    /// Marks one key of the keypad as pressed or released. This is the
    /// boundary with the host's input source.
    pub fn set_key(&mut self, key: u8, pressed: bool)
        requires
            old(self).wf(),
            key < KEY_COUNT,
        ensures
            final(self).wf(),
            final(self)@ == (Chip8View { keys: old(self)@.keys.update(key as int, pressed), ..old(self)@ }),
    {
        self.keys.set(key as usize, pressed);
    }

    /// Clears the display buffer to all-off.
    pub fn clear_screen(&mut self)
        requires
            old(self).wf(),
        ensures
            final(self).wf(),
            final(self)@ == (Chip8View { gfx: Seq::new(DISPLAY_SIZE as nat, |i: int| 0u8), ..old(self)@ }),
    {
        self.gfx = zero_bytes(DISPLAY_SIZE);
        proof {
            assert(self@.gfx =~= Seq::new(DISPLAY_SIZE as nat, |i: int| 0u8));
            assert(self@ =~= (Chip8View { gfx: Seq::new(DISPLAY_SIZE as nat, |i: int| 0u8), ..old(self)@ }));
        }
    }

    /// One 60Hz timer tick: each timer is decremented by exactly one while
    /// nonzero and floors at zero. The result is the buzzer edge signal: true
    /// exactly when the sound timer is about to reach zero on this tick.
    pub fn tick_timers(&mut self) -> (beep: bool)
        requires
            old(self).wf(),
        ensures
            final(self).wf(),
            final(self)@.delay_timer == if old(self)@.delay_timer > 0 { old(self)@.delay_timer - 1 } else { 0 },
            final(self)@.sound_timer == if old(self)@.sound_timer > 0 { old(self)@.sound_timer - 1 } else { 0 },
            beep == (old(self)@.sound_timer == 1),
            final(self)@ == (Chip8View { delay_timer: final(self)@.delay_timer, sound_timer: final(self)@.sound_timer, ..old(self)@ }),
    {
        if self.delay_timer > 0 {
            self.delay_timer = self.delay_timer - 1;
        }
        let beep = self.sound_timer == 1;
        if self.sound_timer > 0 {
            self.sound_timer = self.sound_timer - 1;
        }
        beep
    }
}

/// A fresh byte vector of the given length, all zero.
fn zero_bytes(n: usize) -> (r: Vec<u8>)
    ensures
        r@.len() == n,
        forall|i: int| 0 <= i < n ==> r@[i] == 0,
{
    let mut r: Vec<u8> = Vec::new();
    let mut i: usize = 0;
    while i < n
        invariant
            0 <= i <= n,
            r@.len() == i,
            forall|j: int| 0 <= j < i ==> r@[j] == 0,
        decreases n - i,
    {
        r.push(0);
        i = i + 1;
    }
    r
}

/// A fresh 16-bit word vector of the given length, all zero.
fn zero_words(n: usize) -> (r: Vec<u16>)
    ensures
        r@.len() == n,
        forall|i: int| 0 <= i < n ==> r@[i] == 0,
{
    let mut r: Vec<u16> = Vec::new();
    let mut i: usize = 0;
    while i < n
        invariant
            0 <= i <= n,
            r@.len() == i,
            forall|j: int| 0 <= j < i ==> r@[j] == 0,
        decreases n - i,
    {
        r.push(0);
        i = i + 1;
    }
    r
}

/// A fresh key-state vector of the given length, all released.
fn all_keys_up(n: usize) -> (r: Vec<bool>)
    ensures
        r@.len() == n,
        forall|i: int| 0 <= i < n ==> !r@[i],
{
    let mut r: Vec<bool> = Vec::new();
    let mut i: usize = 0;
    while i < n
        invariant
            0 <= i <= n,
            r@.len() == i,
            forall|j: int| 0 <= j < i ==> !r@[j],
        decreases n - i,
    {
        r.push(false);
        i = i + 1;
    }
    r
}

} // verus!
