//! The persisted settings record: per-size grid-overlay preference, audio
//! toggles, assist level and per-puzzle completion flags, with its exact byte
//! layout. The embedding program moves the bytes to and from storage; the
//! record itself never performs I/O.

use vstd::prelude::*;
use vstd::pervasive::VecAdditionalExecFns;
use crate::puzzle_size::PuzzleSize;

verus! {

/// Total number of shipped puzzles over all sizes.
pub const TOTAL_GAME_COUNT: usize = 108;

/// The save-record version this layout describes.
pub const VERSION: u8 = 3;

pub const SAVE_IDX_VERSION: usize = 0;
pub const SAVE_IDX_GRID_FIRST: usize = 1;
pub const SAVE_IDX_MUSIC: usize = 7;
pub const SAVE_IDX_SFX: usize = 8;
pub const SAVE_IDX_HELP: usize = 9;
pub const SAVE_IDX_GAME_DATA: usize = 12;

/// The size of the whole save record in bytes.
pub const SAVE_DATA_SIZE: usize = 120;

/// The tiered auto-solve assist level; each level includes all effects of the
/// lower ones.
#[derive(Debug, Copy, Clone, Eq, PartialEq, Structural)]
pub enum HelpLevel {
    NoHelp,
    Zeros,
    Full,
    Solvable,
}

/// The level a persisted byte denotes; unknown bytes mean no help.
pub open spec fn help_from_byte(b: u8) -> HelpLevel {
    if b == 1 {
        HelpLevel::Zeros
    } else if b == 2 {
        HelpLevel::Full
    } else if b == 3 {
        HelpLevel::Solvable
    } else {
        HelpLevel::NoHelp
    }
}

/// The byte a help level is persisted as.
pub open spec fn help_byte(h: HelpLevel) -> u8 {
    match h {
        HelpLevel::NoHelp => 0u8,
        HelpLevel::Zeros => 1u8,
        HelpLevel::Full => 2u8,
        HelpLevel::Solvable => 3u8,
    }
}

impl HelpLevel {
    /// The level a persisted byte denotes; unknown bytes fall back to None.
    pub fn from_byte(byte: u8) -> (r: Self)
        ensures
            r == help_from_byte(byte),
    {
        match byte {
            1 => HelpLevel::Zeros,
            2 => HelpLevel::Full,
            3 => HelpLevel::Solvable,
            _ => HelpLevel::NoHelp,
        }
    }

    /// The byte this level is persisted as.
    pub fn to_byte(self) -> (r: u8)
        ensures
            r == help_byte(self),
    {
        match self {
            HelpLevel::NoHelp => 0,
            HelpLevel::Zeros => 1,
            HelpLevel::Full => 2,
            HelpLevel::Solvable => 3,
        }
    }

    /// Whether clue-less lines are pre-marked at this level.
    pub fn zeros(self) -> (r: bool)
        ensures
            r == !(self is NoHelp),
    {
        matches!(self, HelpLevel::Zeros | HelpLevel::Full | HelpLevel::Solvable)
    }

    /// Whether single-run full lines are pre-filled at this level.
    pub fn full(self) -> (r: bool)
        ensures
            r == (self is Full || self is Solvable),
    {
        matches!(self, HelpLevel::Full | HelpLevel::Solvable)
    }

    /// Whether fully forced lines are laid out at this level.
    pub fn solvable(self) -> (r: bool)
        ensures
            r == (self is Solvable),
    {
        matches!(self, HelpLevel::Solvable)
    }

    /// The next lower level.
    pub fn prev(self) -> (r: HelpLevel)
        requires
            !(self is NoHelp),
        ensures
            r == match self {
                HelpLevel::NoHelp => HelpLevel::NoHelp,
                HelpLevel::Zeros => HelpLevel::NoHelp,
                HelpLevel::Full => HelpLevel::Zeros,
                HelpLevel::Solvable => HelpLevel::Full,
            },
    {
        match self {
            HelpLevel::NoHelp => HelpLevel::NoHelp,
            HelpLevel::Zeros => HelpLevel::NoHelp,
            HelpLevel::Full => HelpLevel::Zeros,
            HelpLevel::Solvable => HelpLevel::Full,
        }
    }

    /// The next higher level.
    pub fn next(self) -> (r: HelpLevel)
        requires
            !(self is Solvable),
        ensures
            r == match self {
                HelpLevel::NoHelp => HelpLevel::Zeros,
                HelpLevel::Zeros => HelpLevel::Full,
                HelpLevel::Full => HelpLevel::Solvable,
                HelpLevel::Solvable => HelpLevel::Solvable,
            },
    {
        match self {
            HelpLevel::NoHelp => HelpLevel::Zeros,
            HelpLevel::Zeros => HelpLevel::Full,
            HelpLevel::Full => HelpLevel::Solvable,
            HelpLevel::Solvable => HelpLevel::Solvable,
        }
    }
}

/// The byte a flag is persisted as.
pub open spec fn flag_byte(b: bool) -> u8 {
    if b {
        1u8
    } else {
        0u8
    }
}

/// The in-memory settings record.
#[derive(Debug)]
pub struct SettingsData {
    /// Grid-overlay preference per size, indexed by `PuzzleSize::size_index`.
    pub grid_enabled: Vec<bool>,
    pub music_enabled: bool,
    pub sfx_enabled: bool,
    /// One byte per shipped puzzle, nonzero meaning completed, laid out by
    /// `PuzzleSize::save_idx`.
    pub completed_games: Vec<u8>,
    pub help_level: HelpLevel,
}

/// The record a fresh or unreadable save falls back to: every overlay on,
/// audio on, nothing completed, Full assist.
pub open spec fn default_settings(s: SettingsData) -> bool {
    &&& s.grid_enabled@ == Seq::new(6, |i: int| true)
    &&& s.music_enabled == true
    &&& s.sfx_enabled == true
    &&& s.completed_games@ == Seq::new(TOTAL_GAME_COUNT as nat, |i: int| 0u8)
    &&& s.help_level == HelpLevel::Full
}

impl SettingsData {
    /// Six per-size flags and one completion byte per shipped puzzle.
    pub open spec fn wf(&self) -> bool {
        &&& self.grid_enabled@.len() == 6
        &&& self.completed_games@.len() == TOTAL_GAME_COUNT
    }

    /// Decode a save record. A record with an unknown version byte is
    /// discarded and the defaults take its place; otherwise every field is
    /// read from its fixed offset.
    #[verifier::loop_isolation(false)]
    pub fn from_bytes(bytes: &Vec<u8>) -> (r: SettingsData)
        requires
            bytes@.len() == SAVE_DATA_SIZE,
        ensures
            r.wf(),
            bytes@[SAVE_IDX_VERSION as int] != VERSION ==> default_settings(r),
            bytes@[SAVE_IDX_VERSION as int] == VERSION ==> {
                &&& forall|i: int|
                    0 <= i < 6 ==> r.grid_enabled@[i] == (bytes@[SAVE_IDX_GRID_FIRST + i] > 0)
                &&& r.music_enabled == (bytes@[SAVE_IDX_MUSIC as int] > 0)
                &&& r.sfx_enabled == (bytes@[SAVE_IDX_SFX as int] > 0)
                &&& r.help_level == help_from_byte(bytes@[SAVE_IDX_HELP as int])
                &&& r.completed_games@ == bytes@.subrange(
                    SAVE_IDX_GAME_DATA as int,
                    SAVE_DATA_SIZE as int,
                )
            },
    {
        if bytes[SAVE_IDX_VERSION] != VERSION {
            let mut grid_enabled: Vec<bool> = Vec::new();
            let mut i: usize = 0;
            while i < 6
                invariant
                    grid_enabled@.len() == i,
                    i <= 6,
                    forall|j: int| 0 <= j < i ==> grid_enabled@[j] == true,
                decreases 6 - i,
            {
                grid_enabled.push(true);
                i = i + 1;
            }
            let mut completed_games: Vec<u8> = Vec::new();
            let mut k: usize = 0;
            while k < TOTAL_GAME_COUNT
                invariant
                    completed_games@.len() == k,
                    k <= TOTAL_GAME_COUNT,
                    forall|j: int| 0 <= j < k ==> completed_games@[j] == 0u8,
                decreases TOTAL_GAME_COUNT - k,
            {
                completed_games.push(0u8);
                k = k + 1;
            }
            proof {
                assert(grid_enabled@ =~= Seq::new(6, |i: int| true));
                assert(completed_games@ =~= Seq::new(TOTAL_GAME_COUNT as nat, |i: int| 0u8));
            }
            SettingsData {
                grid_enabled,
                music_enabled: true,
                sfx_enabled: true,
                completed_games,
                help_level: HelpLevel::Full,
            }
        } else {
            let mut grid_enabled: Vec<bool> = Vec::new();
            let mut i: usize = 0;
            while i < 6
                invariant
                    grid_enabled@.len() == i,
                    i <= 6,
                    bytes@.len() == SAVE_DATA_SIZE,
                    forall|j: int|
                        0 <= j < i ==> grid_enabled@[j] == (bytes@[SAVE_IDX_GRID_FIRST + j] > 0),
                decreases 6 - i,
            {
                grid_enabled.push(bytes[SAVE_IDX_GRID_FIRST + i] > 0);
                i = i + 1;
            }
            let mut completed_games: Vec<u8> = Vec::new();
            let mut k: usize = 0;
            while k < TOTAL_GAME_COUNT
                invariant
                    completed_games@.len() == k,
                    k <= TOTAL_GAME_COUNT,
                    bytes@.len() == SAVE_DATA_SIZE,
                    forall|j: int|
                        0 <= j < k ==> completed_games@[j] == bytes@[SAVE_IDX_GAME_DATA + j],
                decreases TOTAL_GAME_COUNT - k,
            {
                completed_games.push(bytes[SAVE_IDX_GAME_DATA + k]);
                k = k + 1;
            }
            proof {
                assert(completed_games@ =~= bytes@.subrange(
                    SAVE_IDX_GAME_DATA as int,
                    SAVE_DATA_SIZE as int,
                ));
            }
            SettingsData {
                grid_enabled,
                help_level: HelpLevel::from_byte(bytes[SAVE_IDX_HELP]),
                music_enabled: bytes[SAVE_IDX_MUSIC] > 0,
                sfx_enabled: bytes[SAVE_IDX_SFX] > 0,
                completed_games,
            }
        }
    }

    /// Encode the record into its fixed byte layout.
    #[verifier::loop_isolation(false)]
    pub fn as_bytes(&self) -> (r: Vec<u8>)
        requires
            self.wf(),
        ensures
            r@.len() == SAVE_DATA_SIZE,
            r@[SAVE_IDX_VERSION as int] == VERSION,
            forall|i: int|
                0 <= i < 6 ==> r@[SAVE_IDX_GRID_FIRST + i] == flag_byte(self.grid_enabled@[i]),
            r@[SAVE_IDX_MUSIC as int] == flag_byte(self.music_enabled),
            r@[SAVE_IDX_SFX as int] == flag_byte(self.sfx_enabled),
            r@[SAVE_IDX_HELP as int] == help_byte(self.help_level),
            r@[10] == 0u8 && r@[11] == 0u8,
            forall|i: int|
                0 <= i < TOTAL_GAME_COUNT ==> r@[SAVE_IDX_GAME_DATA + i]
                    == self.completed_games@[i],
    {
        let mut r: Vec<u8> = Vec::new();
        r.push(VERSION);
        let mut i: usize = 0;
        while i < 6
            invariant
                self.wf(),
                r@.len() == 1 + i,
                i <= 6,
                r@[0] == VERSION,
                forall|j: int| 0 <= j < i ==> r@[1 + j] == flag_byte(self.grid_enabled@[j]),
            decreases 6 - i,
        {
            if self.grid_enabled[i] {
                r.push(1u8);
            } else {
                r.push(0u8);
            }
            i = i + 1;
        }
        if self.music_enabled {
            r.push(1u8);
        } else {
            r.push(0u8);
        }
        if self.sfx_enabled {
            r.push(1u8);
        } else {
            r.push(0u8);
        }
        r.push(self.help_level.to_byte());
        r.push(0u8);
        r.push(0u8);
        let mut k: usize = 0;
        while k < TOTAL_GAME_COUNT
            invariant
                self.wf(),
                r@.len() == SAVE_IDX_GAME_DATA + k,
                k <= TOTAL_GAME_COUNT,
                r@[0] == VERSION,
                forall|j: int| 0 <= j < 6 ==> r@[1 + j] == flag_byte(self.grid_enabled@[j]),
                r@[SAVE_IDX_MUSIC as int] == flag_byte(self.music_enabled),
                r@[SAVE_IDX_SFX as int] == flag_byte(self.sfx_enabled),
                r@[SAVE_IDX_HELP as int] == help_byte(self.help_level),
                r@[10] == 0u8 && r@[11] == 0u8,
                forall|j: int|
                    0 <= j < k ==> r@[SAVE_IDX_GAME_DATA + j] == self.completed_games@[j],
            decreases TOTAL_GAME_COUNT - k,
        {
            r.push(self.completed_games[k]);
            k = k + 1;
        }
        r
    }

    /// Record puzzle `idx` of `size` as completed.
    pub fn set_completed(&mut self, size: PuzzleSize, idx: usize)
        requires
            old(self).wf(),
            idx < size.game_count(),
        ensures
            final(self).wf(),
            final(self).completed_games@ == old(self).completed_games@.update(
                size.save_idx() + idx,
                1u8,
            ),
            final(self).grid_enabled == old(self).grid_enabled,
            final(self).music_enabled == old(self).music_enabled,
            final(self).sfx_enabled == old(self).sfx_enabled,
            final(self).help_level == old(self).help_level,
    {
        let slot = size.save_idx() + idx;
        self.completed_games.set(slot, 1u8);
    }

    /// The completion flags of all puzzles of one size, in puzzle order.
    #[verifier::loop_isolation(false)]
    pub fn is_completed_by_size(&self, size: PuzzleSize) -> (r: Vec<u8>)
        requires
            self.wf(),
        ensures
            r@ == self.completed_games@.subrange(
                size.save_idx() as int,
                size.save_idx() + size.game_count(),
            ),
    {
        let start = size.save_idx();
        let count = size.game_count();
        let mut r: Vec<u8> = Vec::new();
        let mut i: usize = 0;
        while i < count
            invariant
                self.wf(),
                start == size.save_idx(),
                count == size.game_count(),
                start + count <= TOTAL_GAME_COUNT,
                r@.len() == i,
                i <= count,
                forall|j: int| 0 <= j < i ==> r@[j] == self.completed_games@[start + j],
            decreases count - i,
        {
            r.push(self.completed_games[start + i]);
            i = i + 1;
        }
        proof {
            assert(r@ =~= self.completed_games@.subrange(
                size.save_idx() as int,
                size.save_idx() + size.game_count(),
            ));
        }
        r
    }

    /// Restore every field to the defaults.
    #[verifier::loop_isolation(false)]
    pub fn reset(&mut self)
        requires
            old(self).wf(),
        ensures
            final(self).wf(),
            default_settings(*final(self)),
    {
        let mut i: usize = 0;
        while i < 6
            invariant
                old(self).wf(),
                self.grid_enabled@.len() == 6,
                self.completed_games@.len() == TOTAL_GAME_COUNT,
                i <= 6,
                forall|j: int| 0 <= j < i ==> self.grid_enabled@[j] == true,
            decreases 6 - i,
        {
            self.grid_enabled.set(i, true);
            i = i + 1;
        }
        let mut k: usize = 0;
        while k < TOTAL_GAME_COUNT
            invariant
                self.grid_enabled@.len() == 6,
                self.completed_games@.len() == TOTAL_GAME_COUNT,
                k <= TOTAL_GAME_COUNT,
                forall|j: int| 0 <= j < 6 ==> self.grid_enabled@[j] == true,
                forall|j: int| 0 <= j < k ==> self.completed_games@[j] == 0u8,
            decreases TOTAL_GAME_COUNT - k,
        {
            self.completed_games.set(k, 0u8);
            k = k + 1;
        }
        self.music_enabled = true;
        self.sfx_enabled = true;
        self.help_level = HelpLevel::Full;
        proof {
            assert(self.grid_enabled@ =~= Seq::new(6, |i: int| true));
            assert(self.completed_games@ =~= Seq::new(TOTAL_GAME_COUNT as nat, |i: int| 0u8));
        }
    }
}

} // verus!
