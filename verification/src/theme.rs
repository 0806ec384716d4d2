//! Theme modes, preset palettes and the custom palette.
use vstd::prelude::*;

verus! {

/// Active theme mode.
#[derive(Debug, Clone, Copy, PartialEq, Eq, Structural)]
pub enum ThemeMode {
    Dark,
    Light,
}

impl Default for ThemeMode {
    fn default() -> (mode: Self)
        ensures
            mode == ThemeMode::Dark,
    {
        ThemeMode::Dark
    }
}

impl ThemeMode {
    /// The mode that is not this one.
    pub open spec fn spec_other(self) -> ThemeMode {
        match self {
            ThemeMode::Dark => ThemeMode::Light,
            ThemeMode::Light => ThemeMode::Dark,
        }
    }

    /// The mode that is not this one.
    pub fn other(self) -> (mode: ThemeMode)
        ensures
            mode == self.spec_other(),
    {
        match self {
            ThemeMode::Dark => ThemeMode::Light,
            ThemeMode::Light => ThemeMode::Dark,
        }
    }
}

/// Preset palette used as the starting point for a custom theme. `Manual`
/// indicates that at least one color was changed after applying a preset.
#[derive(Debug, Clone, Copy, PartialEq, Eq, Structural)]
pub enum ThemePreset {
    Manual,
    OneDark,
    OneLight,
    NordDark,
    NordLight,
    Dracula,
    DraculaAlucard,
    GruvboxDark,
    GruvboxLight,
    TokyoNight,
    TokyoDay,
    CatppuccinMocha,
    CatppuccinLatte,
    KanagawaWave,
    KanagawaLotus,
    RosePine,
    RosePineDawn,
    EverforestDark,
    EverforestLight,
    SolarizedDark,
    SolarizedLight,
    GithubDark,
    GithubLight,
}

impl Default for ThemePreset {
    fn default() -> (preset: Self)
        ensures
            preset == ThemePreset::OneDark,
    {
        ThemePreset::OneDark
    }
}

/// Number of presets in each mode.
pub const PRESETS_PER_MODE: usize = 11;

impl ThemePreset {
    /// Place of the preset in the list of its mode; a dark preset and its light
    /// counterpart share one place.
    pub open spec fn slot(self) -> int {
        match self {
            Self::Manual => -1,
            Self::OneDark | Self::OneLight => 0,
            Self::NordDark | Self::NordLight => 1,
            Self::Dracula | Self::DraculaAlucard => 2,
            Self::GruvboxDark | Self::GruvboxLight => 3,
            Self::TokyoNight | Self::TokyoDay => 4,
            Self::CatppuccinMocha | Self::CatppuccinLatte => 5,
            Self::KanagawaWave | Self::KanagawaLotus => 6,
            Self::RosePine | Self::RosePineDawn => 7,
            Self::EverforestDark | Self::EverforestLight => 8,
            Self::SolarizedDark | Self::SolarizedLight => 9,
            Self::GithubDark | Self::GithubLight => 10,
        }
    }

    /// Mode that the preset belongs to; an edited palette counts as dark.
    pub open spec fn spec_mode(self) -> ThemeMode {
        match self {
            Self::OneLight
            | Self::NordLight
            | Self::DraculaAlucard
            | Self::GruvboxLight
            | Self::TokyoDay
            | Self::CatppuccinLatte
            | Self::KanagawaLotus
            | Self::RosePineDawn
            | Self::EverforestLight
            | Self::SolarizedLight
            | Self::GithubLight => ThemeMode::Light,
            _ => ThemeMode::Dark,
        }
    }

    /// `other` is the preset that stands for `self` in `mode`.
    pub open spec fn pairs_with(self, mode: ThemeMode, other: ThemePreset) -> bool {
        if self == ThemePreset::Manual {
            other == ThemePreset::Manual
        } else {
            other != ThemePreset::Manual && other.slot() == self.slot() && other.spec_mode() == mode
        }
    }

    /// The preset that stands for `self` in `mode`; an edited palette has none but itself.
    pub open spec fn spec_with_mode(self, mode: ThemeMode) -> ThemePreset {
        choose|other: ThemePreset| #[trigger] self.pairs_with(mode, other)
    }

    /// The presets of the mode `mode`, in display order.
    pub fn for_mode(mode: ThemeMode) -> (presets: [ThemePreset; PRESETS_PER_MODE])
        ensures
            forall|i: int| 0 <= i < presets.len() ==> {
                let preset = #[trigger] presets[i];
                preset != ThemePreset::Manual && preset.spec_mode() == mode && preset.slot() == i
            },
    {
        match mode {
            ThemeMode::Dark => [
                Self::OneDark,
                Self::NordDark,
                Self::Dracula,
                Self::GruvboxDark,
                Self::TokyoNight,
                Self::CatppuccinMocha,
                Self::KanagawaWave,
                Self::RosePine,
                Self::EverforestDark,
                Self::SolarizedDark,
                Self::GithubDark,
            ],
            ThemeMode::Light => [
                Self::OneLight,
                Self::NordLight,
                Self::DraculaAlucard,
                Self::GruvboxLight,
                Self::TokyoDay,
                Self::CatppuccinLatte,
                Self::KanagawaLotus,
                Self::RosePineDawn,
                Self::EverforestLight,
                Self::SolarizedLight,
                Self::GithubLight,
            ],
        }
    }

    /// Mode that the preset belongs to.
    pub fn mode(self) -> (mode: ThemeMode)
        ensures
            mode == self.spec_mode(),
    {
        match self {
            Self::OneLight
            | Self::NordLight
            | Self::DraculaAlucard
            | Self::GruvboxLight
            | Self::TokyoDay
            | Self::CatppuccinLatte
            | Self::KanagawaLotus
            | Self::RosePineDawn
            | Self::EverforestLight
            | Self::SolarizedLight
            | Self::GithubLight => ThemeMode::Light,
            Self::Manual
            | Self::OneDark
            | Self::NordDark
            | Self::Dracula
            | Self::GruvboxDark
            | Self::TokyoNight
            | Self::CatppuccinMocha
            | Self::KanagawaWave
            | Self::RosePine
            | Self::EverforestDark
            | Self::SolarizedDark
            | Self::GithubDark => ThemeMode::Dark,
        }
    }

    /// The preset that stands for this one in `mode`.
    pub fn with_mode(self, mode: ThemeMode) -> (preset: Self)
        ensures
            self.pairs_with(mode, preset),
            preset == self.spec_with_mode(mode),
    {
        let preset = match (self, mode) {
            (Self::Manual, _) => Self::Manual,
            (Self::OneDark | Self::OneLight, ThemeMode::Dark) => Self::OneDark,
            (Self::OneDark | Self::OneLight, ThemeMode::Light) => Self::OneLight,
            (Self::NordDark | Self::NordLight, ThemeMode::Dark) => Self::NordDark,
            (Self::NordDark | Self::NordLight, ThemeMode::Light) => Self::NordLight,
            (Self::Dracula | Self::DraculaAlucard, ThemeMode::Dark) => Self::Dracula,
            (Self::Dracula | Self::DraculaAlucard, ThemeMode::Light) => Self::DraculaAlucard,
            (Self::GruvboxDark | Self::GruvboxLight, ThemeMode::Dark) => Self::GruvboxDark,
            (Self::GruvboxDark | Self::GruvboxLight, ThemeMode::Light) => Self::GruvboxLight,
            (Self::TokyoNight | Self::TokyoDay, ThemeMode::Dark) => Self::TokyoNight,
            (Self::TokyoNight | Self::TokyoDay, ThemeMode::Light) => Self::TokyoDay,
            (Self::CatppuccinMocha | Self::CatppuccinLatte, ThemeMode::Dark) => Self::CatppuccinMocha,
            (Self::CatppuccinMocha | Self::CatppuccinLatte, ThemeMode::Light) => Self::CatppuccinLatte,
            (Self::KanagawaWave | Self::KanagawaLotus, ThemeMode::Dark) => Self::KanagawaWave,
            (Self::KanagawaWave | Self::KanagawaLotus, ThemeMode::Light) => Self::KanagawaLotus,
            (Self::RosePine | Self::RosePineDawn, ThemeMode::Dark) => Self::RosePine,
            (Self::RosePine | Self::RosePineDawn, ThemeMode::Light) => Self::RosePineDawn,
            (Self::EverforestDark | Self::EverforestLight, ThemeMode::Dark) => Self::EverforestDark,
            (Self::EverforestDark | Self::EverforestLight, ThemeMode::Light) => Self::EverforestLight,
            (Self::SolarizedDark | Self::SolarizedLight, ThemeMode::Dark) => Self::SolarizedDark,
            (Self::SolarizedDark | Self::SolarizedLight, ThemeMode::Light) => Self::SolarizedLight,
            (Self::GithubDark | Self::GithubLight, ThemeMode::Dark) => Self::GithubDark,
            (Self::GithubDark | Self::GithubLight, ThemeMode::Light) => Self::GithubLight,
        };
        proof {
            lemma_preset_pairs(self, mode, preset);
        }
        preset
    }

    /// The preset that a mode starts from.
    pub fn default_for_mode(mode: ThemeMode) -> (preset: Self)
        ensures
            preset != ThemePreset::Manual && preset.spec_mode() == mode && preset.slot() == 0,
            preset == Self::spec_default_for_mode(mode),
    {
        match mode {
            ThemeMode::Dark => Self::OneDark,
            ThemeMode::Light => Self::OneLight,
        }
    }

    /// The preset that a mode starts from.
    pub open spec fn spec_default_for_mode(mode: ThemeMode) -> ThemePreset {
        match mode {
            ThemeMode::Dark => Self::OneDark,
            ThemeMode::Light => Self::OneLight,
        }
    }

    /// Colors of the preset, as `0xRRGGBB`.
    pub open spec fn spec_palette(self) -> CustomThemePalette {
        match self {
            Self::Manual | Self::OneDark => palette_of(0x282c34, 0x21252b, 0x2c313c, 0xabb2bf, 0x7f848e,
                0x323740, 0x61afef, 0x98c379, 0xe5c07b, 0xe06c75),
            Self::OneLight => palette_of(0xfafafa, 0xf0f0f0, 0xe5e5e6, 0x383a42, 0x696c77,
                0xd3d3d3, 0x4078f2, 0x50a14f, 0xc18401, 0xe45649),
            Self::NordDark => palette_of(0x2e3440, 0x3b4252, 0x434c5e, 0xd8dee9, 0x9aa5b5,
                0x4c566a, 0x88c0d0, 0xa3be8c, 0xebcb8b, 0xbf616a),
            Self::NordLight => palette_of(0xeceff4, 0xe5e9f0, 0xd8dee9, 0x2e3440, 0x4c566a,
                0xc8d0dc, 0x5e81ac, 0x4f772d, 0xb36b00, 0xbf616a),
            Self::Dracula => palette_of(0x282a36, 0x21222c, 0x44475a, 0xf8f8f2, 0x9aa0b5,
                0x44475a, 0xbd93f9, 0x50fa7b, 0xf1fa8c, 0xff5555),
            Self::DraculaAlucard => palette_of(0xf8f8f2, 0xeeeeee, 0xe1e1e1, 0x282a36, 0x6272a4,
                0xd0d0d0, 0x7c3aed, 0x1b8a3b, 0xb7791f, 0xd7263d),
            Self::GruvboxDark => palette_of(0x282828, 0x1d2021, 0x3c3836, 0xebdbb2, 0xa89984,
                0x504945, 0xd79921, 0xb8bb26, 0xfabd2f, 0xfb4934),
            Self::GruvboxLight => palette_of(0xfbf1c7, 0xf2e5bc, 0xebdbb2, 0x3c3836, 0x7c6f64,
                0xd5c4a1, 0x076678, 0x79740e, 0xb57614, 0x9d0006),
            Self::TokyoNight => palette_of(0x1a1b26, 0x16161e, 0x24283b, 0xc0caf5, 0x787c99,
                0x3b4261, 0x7aa2f7, 0x9ece6a, 0xe0af68, 0xf7768e),
            Self::TokyoDay => palette_of(0xe1e2e7, 0xd5d6db, 0xc4c8da, 0x343b58, 0x6172b0,
                0xb4b5c0, 0x2e7de9, 0x587539, 0x8c6c3e, 0xf52a65),
            Self::CatppuccinMocha => palette_of(0x1e1e2e, 0x181825, 0x313244, 0xcdd6f4, 0x9399b2,
                0x45475a, 0xcba6f7, 0xa6e3a1, 0xf9e2af, 0xf38ba8),
            Self::CatppuccinLatte => palette_of(0xeff1f5, 0xe6e9ef, 0xdce0e8, 0x4c4f69, 0x8c8fa1,
                0xccd0da, 0x8839ef, 0x40a02b, 0xdf8e1d, 0xd20f39),
            Self::KanagawaWave => palette_of(0x1f1f28, 0x16161d, 0x2a2a37, 0xdcd7ba, 0x938aa9,
                0x54546d, 0x7e9cd8, 0x98bb6c, 0xe6c384, 0xe46876),
            Self::KanagawaLotus => palette_of(0xf2ecbc, 0xe7dba0, 0xd9c994, 0x545464, 0x8a8980,
                0xc9b674, 0x4d699b, 0x6f894e, 0x77713f, 0xc84053),
            Self::RosePine => palette_of(0x191724, 0x1f1d2e, 0x26233a, 0xe0def4, 0x908caa,
                0x403d52, 0xc4a7e7, 0x9ccfd8, 0xf6c177, 0xeb6f92),
            Self::RosePineDawn => palette_of(0xfaf4ed, 0xfffaf3, 0xf2e9e1, 0x575279, 0x9893a5,
                0xdfdad9, 0x907aa9, 0x56949f, 0xea9d34, 0xb4637a),
            Self::EverforestDark => palette_of(0x2d353b, 0x272e33, 0x343f44, 0xd3c6aa, 0x859289,
                0x475258, 0x7fbbb3, 0xa7c080, 0xdbbc7f, 0xe67e80),
            Self::EverforestLight => palette_of(0xfff9e8, 0xf2efdf, 0xe6e2cc, 0x5c6a72, 0x829181,
                0xd8d3ba, 0x3a94c5, 0x8da101, 0xdfa000, 0xf85552),
            Self::SolarizedDark => palette_of(0x002b36, 0x073642, 0x0b3b46, 0x93a1a1, 0x657b83,
                0x33535b, 0x268bd2, 0x859900, 0xb58900, 0xdc322f),
            Self::SolarizedLight => palette_of(0xfdf6e3, 0xeee8d5, 0xe5dec9, 0x586e75, 0x839496,
                0xd5cdb9, 0x268bd2, 0x859900, 0xb58900, 0xdc322f),
            Self::GithubDark => palette_of(0x0d1117, 0x161b22, 0x21262d, 0xc9d1d9, 0x8b949e,
                0x30363d, 0x58a6ff, 0x3fb950, 0xd29922, 0xf85149),
            Self::GithubLight => palette_of(0xffffff, 0xf6f8fa, 0xeaeef2, 0x1f2328, 0x656d76,
                0xd0d7de, 0x0969da, 0x1a7f37, 0x9a6700, 0xcf222e),
        }
    }

    /// Colors of the preset.
    pub fn palette(self) -> (palette: CustomThemePalette)
        ensures
            palette == self.spec_palette(),
    {
        match self {
            Self::Manual | Self::OneDark => CustomThemePalette::from_colors([
                0x282c34, 0x21252b, 0x2c313c, 0xabb2bf, 0x7f848e,
                0x323740, 0x61afef, 0x98c379, 0xe5c07b, 0xe06c75,
            ]),
            Self::OneLight => CustomThemePalette::from_colors([
                0xfafafa, 0xf0f0f0, 0xe5e5e6, 0x383a42, 0x696c77,
                0xd3d3d3, 0x4078f2, 0x50a14f, 0xc18401, 0xe45649,
            ]),
            Self::NordDark => CustomThemePalette::from_colors([
                0x2e3440, 0x3b4252, 0x434c5e, 0xd8dee9, 0x9aa5b5,
                0x4c566a, 0x88c0d0, 0xa3be8c, 0xebcb8b, 0xbf616a,
            ]),
            Self::NordLight => CustomThemePalette::from_colors([
                0xeceff4, 0xe5e9f0, 0xd8dee9, 0x2e3440, 0x4c566a,
                0xc8d0dc, 0x5e81ac, 0x4f772d, 0xb36b00, 0xbf616a,
            ]),
            Self::Dracula => CustomThemePalette::from_colors([
                0x282a36, 0x21222c, 0x44475a, 0xf8f8f2, 0x9aa0b5,
                0x44475a, 0xbd93f9, 0x50fa7b, 0xf1fa8c, 0xff5555,
            ]),
            Self::DraculaAlucard => CustomThemePalette::from_colors([
                0xf8f8f2, 0xeeeeee, 0xe1e1e1, 0x282a36, 0x6272a4,
                0xd0d0d0, 0x7c3aed, 0x1b8a3b, 0xb7791f, 0xd7263d,
            ]),
            Self::GruvboxDark => CustomThemePalette::from_colors([
                0x282828, 0x1d2021, 0x3c3836, 0xebdbb2, 0xa89984,
                0x504945, 0xd79921, 0xb8bb26, 0xfabd2f, 0xfb4934,
            ]),
            Self::GruvboxLight => CustomThemePalette::from_colors([
                0xfbf1c7, 0xf2e5bc, 0xebdbb2, 0x3c3836, 0x7c6f64,
                0xd5c4a1, 0x076678, 0x79740e, 0xb57614, 0x9d0006,
            ]),
            Self::TokyoNight => CustomThemePalette::from_colors([
                0x1a1b26, 0x16161e, 0x24283b, 0xc0caf5, 0x787c99,
                0x3b4261, 0x7aa2f7, 0x9ece6a, 0xe0af68, 0xf7768e,
            ]),
            Self::TokyoDay => CustomThemePalette::from_colors([
                0xe1e2e7, 0xd5d6db, 0xc4c8da, 0x343b58, 0x6172b0,
                0xb4b5c0, 0x2e7de9, 0x587539, 0x8c6c3e, 0xf52a65,
            ]),
            Self::CatppuccinMocha => CustomThemePalette::from_colors([
                0x1e1e2e, 0x181825, 0x313244, 0xcdd6f4, 0x9399b2,
                0x45475a, 0xcba6f7, 0xa6e3a1, 0xf9e2af, 0xf38ba8,
            ]),
            Self::CatppuccinLatte => CustomThemePalette::from_colors([
                0xeff1f5, 0xe6e9ef, 0xdce0e8, 0x4c4f69, 0x8c8fa1,
                0xccd0da, 0x8839ef, 0x40a02b, 0xdf8e1d, 0xd20f39,
            ]),
            Self::KanagawaWave => CustomThemePalette::from_colors([
                0x1f1f28, 0x16161d, 0x2a2a37, 0xdcd7ba, 0x938aa9,
                0x54546d, 0x7e9cd8, 0x98bb6c, 0xe6c384, 0xe46876,
            ]),
            Self::KanagawaLotus => CustomThemePalette::from_colors([
                0xf2ecbc, 0xe7dba0, 0xd9c994, 0x545464, 0x8a8980,
                0xc9b674, 0x4d699b, 0x6f894e, 0x77713f, 0xc84053,
            ]),
            Self::RosePine => CustomThemePalette::from_colors([
                0x191724, 0x1f1d2e, 0x26233a, 0xe0def4, 0x908caa,
                0x403d52, 0xc4a7e7, 0x9ccfd8, 0xf6c177, 0xeb6f92,
            ]),
            Self::RosePineDawn => CustomThemePalette::from_colors([
                0xfaf4ed, 0xfffaf3, 0xf2e9e1, 0x575279, 0x9893a5,
                0xdfdad9, 0x907aa9, 0x56949f, 0xea9d34, 0xb4637a,
            ]),
            Self::EverforestDark => CustomThemePalette::from_colors([
                0x2d353b, 0x272e33, 0x343f44, 0xd3c6aa, 0x859289,
                0x475258, 0x7fbbb3, 0xa7c080, 0xdbbc7f, 0xe67e80,
            ]),
            Self::EverforestLight => CustomThemePalette::from_colors([
                0xfff9e8, 0xf2efdf, 0xe6e2cc, 0x5c6a72, 0x829181,
                0xd8d3ba, 0x3a94c5, 0x8da101, 0xdfa000, 0xf85552,
            ]),
            Self::SolarizedDark => CustomThemePalette::from_colors([
                0x002b36, 0x073642, 0x0b3b46, 0x93a1a1, 0x657b83,
                0x33535b, 0x268bd2, 0x859900, 0xb58900, 0xdc322f,
            ]),
            Self::SolarizedLight => CustomThemePalette::from_colors([
                0xfdf6e3, 0xeee8d5, 0xe5dec9, 0x586e75, 0x839496,
                0xd5cdb9, 0x268bd2, 0x859900, 0xb58900, 0xdc322f,
            ]),
            Self::GithubDark => CustomThemePalette::from_colors([
                0x0d1117, 0x161b22, 0x21262d, 0xc9d1d9, 0x8b949e,
                0x30363d, 0x58a6ff, 0x3fb950, 0xd29922, 0xf85149,
            ]),
            Self::GithubLight => CustomThemePalette::from_colors([
                0xffffff, 0xf6f8fa, 0xeaeef2, 0x1f2328, 0x656d76,
                0xd0d7de, 0x0969da, 0x1a7f37, 0x9a6700, 0xcf222e,
            ]),
        }
    }
}

/// A preset and the one that stands for it in a mode determine each other.
pub proof fn lemma_preset_pairs(preset: ThemePreset, mode: ThemeMode, other: ThemePreset)
    requires
        preset.pairs_with(mode, other),
    ensures
        preset.spec_with_mode(mode) == other,
{
    let chosen = preset.spec_with_mode(mode);
    assert(preset.pairs_with(mode, chosen));
    assert(chosen == other);
}

/// Switching a preset to the other mode and back gives the preset again, and a
/// preset is its own counterpart in its own mode.
pub proof fn law_presets_are_paired(preset: ThemePreset)
    ensures
        preset.spec_with_mode(ThemeMode::Dark).spec_with_mode(preset.spec_mode()) == preset,
        preset.spec_with_mode(ThemeMode::Light).spec_with_mode(preset.spec_mode()) == preset,
        preset.spec_with_mode(preset.spec_mode()) == preset,
        preset != ThemePreset::Manual ==> preset.spec_with_mode(preset.spec_mode().spec_other()).spec_mode()
            == preset.spec_mode().spec_other(),
{
    let other = lemma_counterpart(preset);
    lemma_preset_pairs(preset, preset.spec_mode(), preset);
    lemma_preset_pairs(preset, preset.spec_mode().spec_other(), other);
    lemma_preset_pairs(other, preset.spec_mode(), preset);
}

proof fn lemma_counterpart(preset: ThemePreset) -> (other: ThemePreset)
    ensures
        preset.pairs_with(preset.spec_mode().spec_other(), other),
{
    match preset {
        ThemePreset::Manual => ThemePreset::Manual,
        ThemePreset::OneDark => ThemePreset::OneLight,
        ThemePreset::OneLight => ThemePreset::OneDark,
        ThemePreset::NordDark => ThemePreset::NordLight,
        ThemePreset::NordLight => ThemePreset::NordDark,
        ThemePreset::Dracula => ThemePreset::DraculaAlucard,
        ThemePreset::DraculaAlucard => ThemePreset::Dracula,
        ThemePreset::GruvboxDark => ThemePreset::GruvboxLight,
        ThemePreset::GruvboxLight => ThemePreset::GruvboxDark,
        ThemePreset::TokyoNight => ThemePreset::TokyoDay,
        ThemePreset::TokyoDay => ThemePreset::TokyoNight,
        ThemePreset::CatppuccinMocha => ThemePreset::CatppuccinLatte,
        ThemePreset::CatppuccinLatte => ThemePreset::CatppuccinMocha,
        ThemePreset::KanagawaWave => ThemePreset::KanagawaLotus,
        ThemePreset::KanagawaLotus => ThemePreset::KanagawaWave,
        ThemePreset::RosePine => ThemePreset::RosePineDawn,
        ThemePreset::RosePineDawn => ThemePreset::RosePine,
        ThemePreset::EverforestDark => ThemePreset::EverforestLight,
        ThemePreset::EverforestLight => ThemePreset::EverforestDark,
        ThemePreset::SolarizedDark => ThemePreset::SolarizedLight,
        ThemePreset::SolarizedLight => ThemePreset::SolarizedDark,
        ThemePreset::GithubDark => ThemePreset::GithubLight,
        ThemePreset::GithubLight => ThemePreset::GithubDark,
    }
}

/// Color roles of a theme. The many colors of the interface derive from these
/// ten, which keeps the palette editor understandable.
#[derive(Debug, Clone, Copy, PartialEq, Eq, Structural)]
pub enum ThemeColorRole {
    Background,
    Surface,
    SurfaceVariant,
    Foreground,
    MutedForeground,
    Border,
    Primary,
    Success,
    Warning,
    Danger,
}

/// Custom-theme colors stored as `0xRRGGBB`.
#[derive(Debug, Clone, Copy, PartialEq, Eq, Structural)]
pub struct CustomThemePalette {
    pub background: u32,
    pub surface: u32,
    pub surface_variant: u32,
    pub foreground: u32,
    pub muted_foreground: u32,
    pub border: u32,
    pub primary: u32,
    pub success: u32,
    pub warning: u32,
    pub danger: u32,
}

/// The palette with the given colors, in the order of the roles.
pub open spec fn palette_of(
    background: u32,
    surface: u32,
    surface_variant: u32,
    foreground: u32,
    muted_foreground: u32,
    border: u32,
    primary: u32,
    success: u32,
    warning: u32,
    danger: u32,
) -> CustomThemePalette {
    CustomThemePalette {
        background,
        surface,
        surface_variant,
        foreground,
        muted_foreground,
        border,
        primary,
        success,
        warning,
        danger,
    }
}

impl Default for CustomThemePalette {
    fn default() -> (palette: Self)
        ensures
            palette == ThemePreset::OneDark.spec_palette(),
    {
        ThemePreset::OneDark.palette()
    }
}

impl CustomThemePalette {
    pub fn from_colors(colors: [u32; 10]) -> (palette: Self)
        ensures
            palette == palette_of(colors[0], colors[1], colors[2], colors[3], colors[4],
                colors[5], colors[6], colors[7], colors[8], colors[9]),
    {
        CustomThemePalette {
            background: colors[0],
            surface: colors[1],
            surface_variant: colors[2],
            foreground: colors[3],
            muted_foreground: colors[4],
            border: colors[5],
            primary: colors[6],
            success: colors[7],
            warning: colors[8],
            danger: colors[9],
        }
    }

    /// Color of a role.
    pub open spec fn spec_color(self, role: ThemeColorRole) -> u32 {
        match role {
            ThemeColorRole::Background => self.background,
            ThemeColorRole::Surface => self.surface,
            ThemeColorRole::SurfaceVariant => self.surface_variant,
            ThemeColorRole::Foreground => self.foreground,
            ThemeColorRole::MutedForeground => self.muted_foreground,
            ThemeColorRole::Border => self.border,
            ThemeColorRole::Primary => self.primary,
            ThemeColorRole::Success => self.success,
            ThemeColorRole::Warning => self.warning,
            ThemeColorRole::Danger => self.danger,
        }
    }

    /// The palette that has `color` in `role` and is otherwise `self`.
    pub open spec fn recolored(self, role: ThemeColorRole, color: u32) -> CustomThemePalette {
        match role {
            ThemeColorRole::Background => CustomThemePalette { background: color, ..self },
            ThemeColorRole::Surface => CustomThemePalette { surface: color, ..self },
            ThemeColorRole::SurfaceVariant => CustomThemePalette { surface_variant: color, ..self },
            ThemeColorRole::Foreground => CustomThemePalette { foreground: color, ..self },
            ThemeColorRole::MutedForeground => CustomThemePalette { muted_foreground: color, ..self },
            ThemeColorRole::Border => CustomThemePalette { border: color, ..self },
            ThemeColorRole::Primary => CustomThemePalette { primary: color, ..self },
            ThemeColorRole::Success => CustomThemePalette { success: color, ..self },
            ThemeColorRole::Warning => CustomThemePalette { warning: color, ..self },
            ThemeColorRole::Danger => CustomThemePalette { danger: color, ..self },
        }
    }

    pub fn color(self, role: ThemeColorRole) -> (color: u32)
        ensures
            color == self.spec_color(role),
    {
        match role {
            ThemeColorRole::Background => self.background,
            ThemeColorRole::Surface => self.surface,
            ThemeColorRole::SurfaceVariant => self.surface_variant,
            ThemeColorRole::Foreground => self.foreground,
            ThemeColorRole::MutedForeground => self.muted_foreground,
            ThemeColorRole::Border => self.border,
            ThemeColorRole::Primary => self.primary,
            ThemeColorRole::Success => self.success,
            ThemeColorRole::Warning => self.warning,
            ThemeColorRole::Danger => self.danger,
        }
    }

    pub fn set_color(&mut self, role: ThemeColorRole, color: u32)
        ensures
            *final(self) == old(self).recolored(role, color),
    {
        match role {
            ThemeColorRole::Background => self.background = color,
            ThemeColorRole::Surface => self.surface = color,
            ThemeColorRole::SurfaceVariant => self.surface_variant = color,
            ThemeColorRole::Foreground => self.foreground = color,
            ThemeColorRole::MutedForeground => self.muted_foreground = color,
            ThemeColorRole::Border => self.border = color,
            ThemeColorRole::Primary => self.primary = color,
            ThemeColorRole::Success => self.success = color,
            ThemeColorRole::Warning => self.warning = color,
            ThemeColorRole::Danger => self.danger = color,
        }
    }
}

/// A color that was set is read back, and no other role changes.
pub proof fn law_color_read_back(
    palette: CustomThemePalette,
    role: ThemeColorRole,
    color: u32,
    other: ThemeColorRole,
)
    ensures
        palette.recolored(role, color).spec_color(role) == color,
        other != role ==> palette.recolored(role, color).spec_color(other) == palette.spec_color(other),
{
}

/// A palette is given by the colors of its roles.
pub proof fn law_palette_is_its_colors(a: CustomThemePalette, b: CustomThemePalette)
    requires
        forall|role: ThemeColorRole| a.spec_color(role) == b.spec_color(role),
    ensures
        a == b,
{
    assert(a.spec_color(ThemeColorRole::Background) == b.spec_color(ThemeColorRole::Background));
    assert(a.spec_color(ThemeColorRole::Surface) == b.spec_color(ThemeColorRole::Surface));
    assert(a.spec_color(ThemeColorRole::SurfaceVariant) == b.spec_color(ThemeColorRole::SurfaceVariant));
    assert(a.spec_color(ThemeColorRole::Foreground) == b.spec_color(ThemeColorRole::Foreground));
    assert(a.spec_color(ThemeColorRole::MutedForeground) == b.spec_color(ThemeColorRole::MutedForeground));
    assert(a.spec_color(ThemeColorRole::Border) == b.spec_color(ThemeColorRole::Border));
    assert(a.spec_color(ThemeColorRole::Primary) == b.spec_color(ThemeColorRole::Primary));
    assert(a.spec_color(ThemeColorRole::Success) == b.spec_color(ThemeColorRole::Success));
    assert(a.spec_color(ThemeColorRole::Warning) == b.spec_color(ThemeColorRole::Warning));
    assert(a.spec_color(ThemeColorRole::Danger) == b.spec_color(ThemeColorRole::Danger));
}

} // verus!
