use vstd::prelude::*;

verus! {

/// Width of the largest framebuffer, that of the extended variant.
pub const DISPLAY_WIDTH: usize = 128;

/// Height of the largest framebuffer, that of the extended variant.
pub const DISPLAY_HEIGHT: usize = 64;

/// The machine variant being emulated. It is chosen at construction and never
/// changes afterwards.
#[derive(Debug, Clone, Copy, PartialEq, Eq, Structural)]
pub enum EmulationSystem {
    /// The original CHIP-8 interpreter.
    Chip8,
    /// The SUPER-CHIP extension: a 128 by 64 display and extra system opcodes.
    SuperChip,
}

impl Default for EmulationSystem {
    fn default() -> (r: Self)
        ensures
            r == EmulationSystem::Chip8,
    {
        EmulationSystem::Chip8
    }
}

/// Where the shift instructions read their operand from.
#[derive(Debug, Clone, Copy, PartialEq, Eq, Structural)]
pub enum ShiftSource {
    /// Shift `Vy` and store into `Vx`.
    FromY,
    /// Shift `Vx` in place.
    FromX,
}

/// The behavioural differences between the variants, looked up once per
/// instruction at the four points where they matter.
#[derive(Debug, Clone, Copy, PartialEq, Eq, Structural)]
pub struct Quirks {
    /// `8xy1`, `8xy2` and `8xy3` clear `VF` afterwards.
    pub logic_clears_flag: bool,
    /// Operand of `8xy6` and `8xyE`.
    pub shift_source: ShiftSource,
    /// `Bnnn` adds `Vx` (x being the high nibble of nnn) instead of `V0`.
    pub jump_uses_vx: bool,
    /// `Fx55` and `Fx65` advance the index register by x + 1.
    pub load_store_increments_index: bool,
}

/// The quirk table of a variant.
pub open spec fn quirks_of(system: EmulationSystem) -> Quirks {
    match system {
        EmulationSystem::Chip8 => Quirks {
            logic_clears_flag: true,
            shift_source: ShiftSource::FromY,
            jump_uses_vx: false,
            load_store_increments_index: true,
        },
        EmulationSystem::SuperChip => Quirks {
            logic_clears_flag: false,
            shift_source: ShiftSource::FromX,
            jump_uses_vx: true,
            load_store_increments_index: false,
        },
    }
}

impl EmulationSystem {
    /// The quirk table of this variant.
    pub fn quirks(&self) -> (q: Quirks)
        ensures
            q == quirks_of(*self),
    {
        match self {
            EmulationSystem::Chip8 => Quirks {
                logic_clears_flag: true,
                shift_source: ShiftSource::FromY,
                jump_uses_vx: false,
                load_store_increments_index: true,
            },
            EmulationSystem::SuperChip => Quirks {
                logic_clears_flag: false,
                shift_source: ShiftSource::FromX,
                jump_uses_vx: true,
                load_store_increments_index: false,
            },
        }
    }

    /// Width in pixels of the framebuffer of this variant.
    pub fn display_width(&self) -> (w: usize)
        ensures
            w == width_of(*self),
    {
        match self {
            EmulationSystem::Chip8 => 64,
            EmulationSystem::SuperChip => 128,
        }
    }

    /// Height in pixels of the framebuffer of this variant.
    pub fn display_height(&self) -> (h: usize)
        ensures
            h == height_of(*self),
    {
        match self {
            EmulationSystem::Chip8 => 32,
            EmulationSystem::SuperChip => 64,
        }
    }
}

/// Framebuffer width of a variant.
pub open spec fn width_of(system: EmulationSystem) -> nat {
    match system {
        EmulationSystem::Chip8 => 64,
        EmulationSystem::SuperChip => 128,
    }
}

/// Framebuffer height of a variant.
pub open spec fn height_of(system: EmulationSystem) -> nat {
    match system {
        EmulationSystem::Chip8 => 32,
        EmulationSystem::SuperChip => 64,
    }
}

} // verus!
