use vstd::prelude::*;

use crate::dice::roll;

verus! {

/// A colour as red, green, blue and alpha bytes.
#[derive(Clone, Copy, PartialEq, Eq, Structural, Debug)]
pub struct Rgba {
    pub r: u8,
    pub g: u8,
    pub b: u8,
    pub a: u8,
}

/// An opaque colour.
pub open spec fn opaque(r: u8, g: u8, b: u8) -> Rgba {
    Rgba { r, g, b, a: 255 }
}

/// The musical theme of a room, which picks its name and palette.
#[derive(Clone, Copy, PartialEq, Eq, Structural, Debug)]
pub enum Vibe {
    Synthwave,
    DungeonJazz,
    CursedTechno,
    IceAmbient,
    GoblinFunk,
}

impl Vibe {
    /// The vibe that a die roll selects: 0 to 3 pick the first four in
    /// order, anything else picks `GoblinFunk`.
    pub open spec fn spec_from_roll(r: int) -> Vibe {
        if r == 0 {
            Vibe::Synthwave
        } else if r == 1 {
            Vibe::DungeonJazz
        } else if r == 2 {
            Vibe::CursedTechno
        } else if r == 3 {
            Vibe::IceAmbient
        } else {
            Vibe::GoblinFunk
        }
    }

    /// The vibe that a die roll selects.
    pub fn from_roll(r: i32) -> (v: Vibe)
        ensures
            v == Vibe::spec_from_roll(r as int),
    {
        match r {
            0 => Vibe::Synthwave,
            1 => Vibe::DungeonJazz,
            2 => Vibe::CursedTechno,
            3 => Vibe::IceAmbient,
            _ => Vibe::GoblinFunk,
        }
    }

    /// A vibe chosen by a roll in `[0, 5)`.
    pub fn random() -> (v: Vibe)
        ensures
            exists|r: int| 0 <= r < 5 && v == Vibe::spec_from_roll(r),
    {
        let r = roll(0, 5);
        Vibe::from_roll(r)
    }

    /// The display name of the vibe.
    pub open spec fn name_text(self) -> Seq<char> {
        match self {
            Vibe::Synthwave => "Synthwave Catacombs"@,
            Vibe::DungeonJazz => "Dungeon Jazz Lounge"@,
            Vibe::CursedTechno => "Cursed Techno Pit"@,
            Vibe::IceAmbient => "Ice Ambient Vault"@,
            Vibe::GoblinFunk => "Goblin Funk Basement"@,
        }
    }

    /// The display name of the vibe.
    pub fn name(&self) -> (s: &'static str)
        ensures
            s@ == self.name_text(),
    {
        match self {
            Vibe::Synthwave => "Synthwave Catacombs",
            Vibe::DungeonJazz => "Dungeon Jazz Lounge",
            Vibe::CursedTechno => "Cursed Techno Pit",
            Vibe::IceAmbient => "Ice Ambient Vault",
            Vibe::GoblinFunk => "Goblin Funk Basement",
        }
    }

    /// Background colour of the screen.
    pub fn bg(&self) -> (c: Rgba)
        ensures
            c == match self {
                Vibe::Synthwave => opaque(24, 10, 46),
                Vibe::DungeonJazz => opaque(40, 28, 15),
                Vibe::CursedTechno => opaque(14, 20, 18),
                Vibe::IceAmbient => opaque(10, 30, 44),
                Vibe::GoblinFunk => opaque(18, 42, 20),
            },
    {
        match self {
            Vibe::Synthwave => Rgba { r: 24, g: 10, b: 46, a: 255 },
            Vibe::DungeonJazz => Rgba { r: 40, g: 28, b: 15, a: 255 },
            Vibe::CursedTechno => Rgba { r: 14, g: 20, b: 18, a: 255 },
            Vibe::IceAmbient => Rgba { r: 10, g: 30, b: 44, a: 255 },
            Vibe::GoblinFunk => Rgba { r: 18, g: 42, b: 20, a: 255 },
        }
    }

    /// Accent colour for titles, the exit and the player.
    pub fn accent(&self) -> (c: Rgba)
        ensures
            c == match self {
                Vibe::Synthwave => opaque(255, 70, 180),
                Vibe::DungeonJazz => opaque(255, 200, 120),
                Vibe::CursedTechno => opaque(80, 255, 160),
                Vibe::IceAmbient => opaque(120, 220, 255),
                Vibe::GoblinFunk => opaque(180, 255, 90),
            },
    {
        match self {
            Vibe::Synthwave => Rgba { r: 255, g: 70, b: 180, a: 255 },
            Vibe::DungeonJazz => Rgba { r: 255, g: 200, b: 120, a: 255 },
            Vibe::CursedTechno => Rgba { r: 80, g: 255, b: 160, a: 255 },
            Vibe::IceAmbient => Rgba { r: 120, g: 220, b: 255, a: 255 },
            Vibe::GoblinFunk => Rgba { r: 180, g: 255, b: 90, a: 255 },
        }
    }

    /// Colour of floor tiles.
    pub fn floor(&self) -> (c: Rgba)
        ensures
            c == match self {
                Vibe::Synthwave => opaque(60, 30, 100),
                Vibe::DungeonJazz => opaque(82, 58, 33),
                Vibe::CursedTechno => opaque(22, 58, 42),
                Vibe::IceAmbient => opaque(34, 72, 92),
                Vibe::GoblinFunk => opaque(40, 80, 35),
            },
    {
        match self {
            Vibe::Synthwave => Rgba { r: 60, g: 30, b: 100, a: 255 },
            Vibe::DungeonJazz => Rgba { r: 82, g: 58, b: 33, a: 255 },
            Vibe::CursedTechno => Rgba { r: 22, g: 58, b: 42, a: 255 },
            Vibe::IceAmbient => Rgba { r: 34, g: 72, b: 92, a: 255 },
            Vibe::GoblinFunk => Rgba { r: 40, g: 80, b: 35, a: 255 },
        }
    }

    /// Colour of wall tiles.
    pub fn wall(&self) -> (c: Rgba)
        ensures
            c == match self {
                Vibe::Synthwave => opaque(140, 70, 200),
                Vibe::DungeonJazz => opaque(150, 100, 50),
                Vibe::CursedTechno => opaque(40, 120, 95),
                Vibe::IceAmbient => opaque(80, 150, 190),
                Vibe::GoblinFunk => opaque(90, 130, 50),
            },
    {
        match self {
            Vibe::Synthwave => Rgba { r: 140, g: 70, b: 200, a: 255 },
            Vibe::DungeonJazz => Rgba { r: 150, g: 100, b: 50, a: 255 },
            Vibe::CursedTechno => Rgba { r: 40, g: 120, b: 95, a: 255 },
            Vibe::IceAmbient => Rgba { r: 80, g: 150, b: 190, a: 255 },
            Vibe::GoblinFunk => Rgba { r: 90, g: 130, b: 50, a: 255 },
        }
    }
}

} // verus!
