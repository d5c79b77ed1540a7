//! The configuration wizard: three sections visited in order, a game-mode
//! choice, a starting-level choice with wrap-around, and a final
//! confirmation.

use vstd::prelude::*;
use super::Config;
use crate::game::GameMode;
use crate::level::NUM_LEVELS;

verus! {

/// The wizard's three screens.
#[derive(Debug, Eq, PartialEq, Clone, Copy, Structural)]
pub enum Section {
    ChooseGameMode,
    ChooseInitialLevel,
    StartGame,
}

/// The screen above `s`; the first screen stays put.
pub open spec fn section_before(s: Section) -> Section {
    match s {
        Section::StartGame => Section::ChooseInitialLevel,
        Section::ChooseInitialLevel => Section::ChooseGameMode,
        Section::ChooseGameMode => Section::ChooseGameMode,
    }
}

/// The screen below `s`; the last screen stays put.
pub open spec fn section_after(s: Section) -> Section {
    match s {
        Section::ChooseGameMode => Section::ChooseInitialLevel,
        Section::ChooseInitialLevel => Section::StartGame,
        Section::StartGame => Section::StartGame,
    }
}

/// The wizard state: the focused section, the choices made so far, and
/// whether the player confirmed the final screen.
pub struct ConfigBuilder {
    pub is_configured: bool,
    pub current_section: Section,
    pub game_mode: GameMode,
    pub selected_level: usize,
}

impl ConfigBuilder {
    /// The state a fresh wizard starts in.
    pub open spec fn initial() -> ConfigBuilder {
        ConfigBuilder {
            is_configured: false,
            current_section: Section::ChooseGameMode,
            game_mode: GameMode::AType,
            selected_level: 0,
        }
    }

    /// The level selection is a valid index into the level list.
    pub open spec fn wf(self) -> bool {
        self.selected_level < NUM_LEVELS
    }

    /// The configuration as chosen so far.
    pub fn build(&self) -> (c: Config)
        ensures
            c.game_mode == self.game_mode,
            c.initial_level == self.selected_level,
    {
        Config { game_mode: self.game_mode, initial_level: self.selected_level }
    }

    pub fn is_configured(&self) -> (r: bool)
        ensures
            r == self.is_configured,
    {
        self.is_configured
    }

    /// Moves the focus one screen up; the first screen is kept.
    pub fn previous_section(&mut self)
        ensures
            *final(self) == (ConfigBuilder {
                current_section: section_before(old(self).current_section),
                ..*old(self)
            }),
    {
        match self.current_section {
            Section::StartGame => self.current_section = Section::ChooseInitialLevel,
            Section::ChooseInitialLevel => self.current_section = Section::ChooseGameMode,
            _ => {},
        }
    }

    /// Moves the focus one screen down; the last screen is kept.
    pub fn next_section(&mut self)
        ensures
            *final(self) == (ConfigBuilder {
                current_section: section_after(old(self).current_section),
                ..*old(self)
            }),
    {
        match self.current_section {
            Section::ChooseGameMode => self.current_section = Section::ChooseInitialLevel,
            Section::ChooseInitialLevel => self.current_section = Section::StartGame,
            _ => {},
        }
    }

    /// On the mode screen picks the empty-board mode; on the level screen
    /// steps the selection back, wrapping from the first level to the last.
    pub fn on_left(&mut self)
        requires
            old(self).wf(),
        ensures
            final(self).wf(),
            old(self).current_section == Section::ChooseGameMode ==> *final(self)
                == (ConfigBuilder { game_mode: GameMode::AType, ..*old(self) }),
            old(self).current_section == Section::ChooseInitialLevel ==> *final(self)
                == (ConfigBuilder {
                selected_level: (if old(self).selected_level == 0 {
                    (NUM_LEVELS - 1) as usize
                } else {
                    (old(self).selected_level - 1) as usize
                }),
                ..*old(self)
            }),
            old(self).current_section == Section::StartGame ==> *final(self) == *old(self),
    {
        match self.current_section {
            Section::ChooseGameMode => self.game_mode = GameMode::AType,
            Section::ChooseInitialLevel => {
                if self.selected_level == 0 {
                    self.selected_level = NUM_LEVELS - 1;
                } else {
                    self.selected_level = self.selected_level - 1;
                }
            },
            _ => {},
        }
    }

    /// On the mode screen picks the pre-filled mode; on the level screen
    /// steps the selection forward, wrapping from the last level to the
    /// first.
    pub fn on_right(&mut self)
        requires
            old(self).wf(),
        ensures
            final(self).wf(),
            old(self).current_section == Section::ChooseGameMode ==> *final(self)
                == (ConfigBuilder { game_mode: GameMode::BType, ..*old(self) }),
            old(self).current_section == Section::ChooseInitialLevel ==> *final(self)
                == (ConfigBuilder {
                selected_level: (if old(self).selected_level + 1 == NUM_LEVELS {
                    0 as usize
                } else {
                    (old(self).selected_level + 1) as usize
                }),
                ..*old(self)
            }),
            old(self).current_section == Section::StartGame ==> *final(self) == *old(self),
    {
        match self.current_section {
            Section::ChooseGameMode => self.game_mode = GameMode::BType,
            Section::ChooseInitialLevel => {
                if self.selected_level + 1 == NUM_LEVELS {
                    self.selected_level = 0;
                } else {
                    self.selected_level = self.selected_level + 1;
                }
            },
            _ => {},
        }
    }

    /// Confirms the configuration, but only from the final screen.
    pub fn configured(&mut self)
        ensures
            old(self).current_section == Section::StartGame ==> *final(self) == (ConfigBuilder {
                is_configured: true,
                ..*old(self)
            }),
            old(self).current_section != Section::StartGame ==> *final(self) == *old(self),
    {
        if self.current_section == Section::StartGame {
            self.is_configured = true;
        }
    }
}

impl Default for ConfigBuilder {
    fn default() -> (b: Self)
        ensures
            b == ConfigBuilder::initial(),
            b.wf(),
    {
        ConfigBuilder {
            is_configured: false,
            current_section: Section::ChooseGameMode,
            game_mode: GameMode::AType,
            selected_level: 0,
        }
    }
}

} // verus!
