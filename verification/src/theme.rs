//! Colour themes: the built-in palettes and the styles derived from them.

use vstd::prelude::*;

verus! {

#[verifier::external_type_specification]
#[verifier::external_body]
pub struct ExAnyhowError(anyhow::Error);

/// A terminal colour.
#[derive(Debug, Clone, Copy, PartialEq, Eq, Structural)]
pub enum Color {
    Reset,
    Black,
    Red,
    Green,
    Yellow,
    Blue,
    Magenta,
    Cyan,
    Gray,
    DarkGray,
    LightRed,
    LightGreen,
    LightYellow,
    LightBlue,
    LightMagenta,
    LightCyan,
    White,
    Rgb(u8, u8, u8),
    Indexed(u8),
}

/// How a piece of text is drawn: its colours, and whether it is bold.
#[derive(Debug, Clone, Copy, PartialEq, Eq, Structural)]
pub struct Style {
    pub fg: Option<Color>,
    pub bg: Option<Color>,
    pub bold: bool,
}

impl Style {
    /// The style that sets nothing.
    pub open spec fn plain() -> Style {
        Style { fg: None, bg: None, bold: false }
    }

    /// The style that sets only the foreground colour.
    pub open spec fn colored(c: Color) -> Style {
        Style { fg: Some(c), bg: None, bold: false }
    }

    /// The bold style with the given foreground colour.
    pub open spec fn strong(c: Color) -> Style {
        Style { fg: Some(c), bg: None, bold: true }
    }
}

/// The built-in themes, named after popular terminal and editor colour schemes.
#[derive(Debug, Clone, Copy, PartialEq, Eq, Structural)]
pub enum Theme {
    Dracula,
    OneDarkPro,
    Nord,
    CatppuccinMocha,
    CatppuccinLatte,
    GruvboxDark,
    GruvboxLight,
    TokyoNight,
    SolarizedDark,
    SolarizedLight,
    MonokaiPro,
    RosePine,
    Kanagawa,
    Everforest,
    Cyberpunk,
}

/// The ten colours that define a theme.
#[derive(Debug, Clone, Copy, PartialEq, Eq, Structural)]
pub struct ThemePalette {
    /// Primary accent colour (highlights, active elements).
    pub accent: Color,
    /// Secondary accent colour.
    pub secondary: Color,
    /// Background colour.
    pub bg: Color,
    /// Foreground colour of text.
    pub fg: Color,
    /// Colour of dimmed text.
    pub muted: Color,
    /// Background of the selected item.
    pub selection: Color,
    pub error: Color,
    pub warning: Color,
    pub success: Color,
    pub info: Color,
}

/// A palette written as ten RGB triples, in the order of the fields of `ThemePalette`.
pub open spec fn palette_of(
    accent: (u8, u8, u8),
    secondary: (u8, u8, u8),
    bg: (u8, u8, u8),
    fg: (u8, u8, u8),
    muted: (u8, u8, u8),
    selection: (u8, u8, u8),
    error: (u8, u8, u8),
    warning: (u8, u8, u8),
    success: (u8, u8, u8),
    info: (u8, u8, u8),
) -> ThemePalette {
    ThemePalette {
        accent: Color::Rgb(accent.0, accent.1, accent.2),
        secondary: Color::Rgb(secondary.0, secondary.1, secondary.2),
        bg: Color::Rgb(bg.0, bg.1, bg.2),
        fg: Color::Rgb(fg.0, fg.1, fg.2),
        muted: Color::Rgb(muted.0, muted.1, muted.2),
        selection: Color::Rgb(selection.0, selection.1, selection.2),
        error: Color::Rgb(error.0, error.1, error.2),
        warning: Color::Rgb(warning.0, warning.1, warning.2),
        success: Color::Rgb(success.0, success.1, success.2),
        info: Color::Rgb(info.0, info.1, info.2),
    }
}

impl Default for Theme {
    fn default() -> (r: Theme)
        ensures
            r == Theme::Dracula,
    {
        Theme::Dracula
    }
}

impl Theme {
    /// Every theme, in the order in which `next` walks them.
    pub open spec fn all_spec() -> Seq<Theme> {
        seq![
            Theme::Dracula,
            Theme::OneDarkPro,
            Theme::Nord,
            Theme::CatppuccinMocha,
            Theme::CatppuccinLatte,
            Theme::GruvboxDark,
            Theme::GruvboxLight,
            Theme::TokyoNight,
            Theme::SolarizedDark,
            Theme::SolarizedLight,
            Theme::MonokaiPro,
            Theme::RosePine,
            Theme::Kanagawa,
            Theme::Everforest,
            Theme::Cyberpunk,
        ]
    }

    /// The place of the theme in `all_spec`.
    pub open spec fn position(self) -> int {
        match self {
            Theme::Dracula => 0,
            Theme::OneDarkPro => 1,
            Theme::Nord => 2,
            Theme::CatppuccinMocha => 3,
            Theme::CatppuccinLatte => 4,
            Theme::GruvboxDark => 5,
            Theme::GruvboxLight => 6,
            Theme::TokyoNight => 7,
            Theme::SolarizedDark => 8,
            Theme::SolarizedLight => 9,
            Theme::MonokaiPro => 10,
            Theme::RosePine => 11,
            Theme::Kanagawa => 12,
            Theme::Everforest => 13,
            Theme::Cyberpunk => 14,
        }
    }

    /// The theme that follows this one, the first following the last.
    pub open spec fn next_spec(self) -> Theme {
        Self::all_spec()[(self.position() + 1) % 15]
    }

    /// The display name of the theme.
    pub open spec fn name_spec(self) -> Seq<char> {
        match self {
            Theme::Dracula => "Dracula"@,
            Theme::OneDarkPro => "One Dark Pro"@,
            Theme::Nord => "Nord"@,
            Theme::CatppuccinMocha => "Catppuccin Mocha"@,
            Theme::CatppuccinLatte => "Catppuccin Latte"@,
            Theme::GruvboxDark => "Gruvbox Dark"@,
            Theme::GruvboxLight => "Gruvbox Light"@,
            Theme::TokyoNight => "Tokyo Night"@,
            Theme::SolarizedDark => "Solarized Dark"@,
            Theme::SolarizedLight => "Solarized Light"@,
            Theme::MonokaiPro => "Monokai Pro"@,
            Theme::RosePine => "Rosé Pine"@,
            Theme::Kanagawa => "Kanagawa"@,
            Theme::Everforest => "Everforest"@,
            Theme::Cyberpunk => "Cyberpunk"@,
        }
    }

    /// The colours of the theme.
    pub open spec fn palette_spec(self) -> ThemePalette {
        match self {
            Theme::Dracula => palette_of(
                (189, 147, 249),
                (255, 121, 198),
                (40, 42, 54),
                (248, 248, 242),
                (98, 114, 164),
                (68, 71, 90),
                (255, 85, 85),
                (255, 184, 108),
                (80, 250, 123),
                (139, 233, 253),
            ),
            Theme::OneDarkPro => palette_of(
                (97, 175, 239),
                (198, 120, 221),
                (40, 44, 52),
                (171, 178, 191),
                (92, 99, 112),
                (62, 68, 81),
                (224, 108, 117),
                (229, 192, 123),
                (152, 195, 121),
                (86, 182, 194),
            ),
            Theme::Nord => palette_of(
                (136, 192, 208),
                (129, 161, 193),
                (46, 52, 64),
                (236, 239, 244),
                (76, 86, 106),
                (67, 76, 94),
                (191, 97, 106),
                (235, 203, 139),
                (163, 190, 140),
                (94, 129, 172),
            ),
            Theme::CatppuccinMocha => palette_of(
                (137, 180, 250),
                (245, 194, 231),
                (30, 30, 46),
                (205, 214, 244),
                (108, 112, 134),
                (49, 50, 68),
                (243, 139, 168),
                (249, 226, 175),
                (166, 227, 161),
                (148, 226, 213),
            ),
            Theme::CatppuccinLatte => palette_of(
                (30, 102, 245),
                (234, 118, 203),
                (239, 241, 245),
                (76, 79, 105),
                (140, 143, 161),
                (204, 208, 218),
                (210, 15, 57),
                (223, 142, 29),
                (64, 160, 43),
                (23, 146, 153),
            ),
            Theme::GruvboxDark => palette_of(
                (250, 189, 47),
                (211, 134, 155),
                (40, 40, 40),
                (235, 219, 178),
                (146, 131, 116),
                (80, 73, 69),
                (251, 73, 52),
                (254, 128, 25),
                (184, 187, 38),
                (131, 165, 152),
            ),
            Theme::GruvboxLight => palette_of(
                (181, 118, 20),
                (143, 63, 113),
                (251, 241, 199),
                (60, 56, 54),
                (146, 131, 116),
                (213, 196, 161),
                (157, 0, 6),
                (175, 58, 3),
                (121, 116, 14),
                (66, 123, 88),
            ),
            Theme::TokyoNight => palette_of(
                (122, 162, 247),
                (187, 154, 247),
                (26, 27, 38),
                (192, 202, 245),
                (86, 95, 137),
                (41, 46, 66),
                (247, 118, 142),
                (224, 175, 104),
                (158, 206, 106),
                (125, 207, 255),
            ),
            Theme::SolarizedDark => palette_of(
                (38, 139, 210),
                (108, 113, 196),
                (0, 43, 54),
                (131, 148, 150),
                (88, 110, 117),
                (7, 54, 66),
                (220, 50, 47),
                (181, 137, 0),
                (133, 153, 0),
                (42, 161, 152),
            ),
            Theme::SolarizedLight => palette_of(
                (38, 139, 210),
                (108, 113, 196),
                (253, 246, 227),
                (101, 123, 131),
                (147, 161, 161),
                (238, 232, 213),
                (220, 50, 47),
                (181, 137, 0),
                (133, 153, 0),
                (42, 161, 152),
            ),
            Theme::MonokaiPro => palette_of(
                (255, 216, 102),
                (171, 157, 242),
                (45, 42, 46),
                (252, 252, 250),
                (114, 113, 105),
                (81, 80, 79),
                (255, 97, 136),
                (252, 152, 103),
                (169, 220, 118),
                (120, 220, 232),
            ),
            Theme::RosePine => palette_of(
                (235, 188, 186),
                (196, 167, 231),
                (25, 23, 36),
                (224, 222, 244),
                (110, 106, 134),
                (38, 35, 58),
                (235, 111, 146),
                (246, 193, 119),
                (156, 207, 216),
                (49, 116, 143),
            ),
            Theme::Kanagawa => palette_of(
                (127, 180, 202),
                (149, 127, 184),
                (31, 31, 40),
                (220, 215, 186),
                (84, 84, 109),
                (54, 54, 70),
                (195, 64, 67),
                (255, 169, 107),
                (118, 148, 106),
                (126, 156, 216),
            ),
            Theme::Everforest => palette_of(
                (131, 193, 120),
                (214, 153, 182),
                (47, 53, 55),
                (211, 198, 170),
                (133, 146, 137),
                (68, 78, 79),
                (230, 126, 128),
                (219, 188, 127),
                (167, 192, 128),
                (124, 195, 191),
            ),
            Theme::Cyberpunk => palette_of(
                (0, 255, 255),
                (255, 0, 255),
                (13, 2, 33),
                (240, 240, 240),
                (100, 100, 140),
                (40, 20, 80),
                (255, 0, 60),
                (255, 230, 0),
                (0, 255, 100),
                (0, 180, 255),
            ),
        }
    }

    /// All available themes.
    #[must_use]
    pub fn all() -> (r: &'static [Theme])
        ensures
            r@ == Self::all_spec(),
    {
        &[
            Theme::Dracula,
            Theme::OneDarkPro,
            Theme::Nord,
            Theme::CatppuccinMocha,
            Theme::CatppuccinLatte,
            Theme::GruvboxDark,
            Theme::GruvboxLight,
            Theme::TokyoNight,
            Theme::SolarizedDark,
            Theme::SolarizedLight,
            Theme::MonokaiPro,
            Theme::RosePine,
            Theme::Kanagawa,
            Theme::Everforest,
            Theme::Cyberpunk,
        ]
    }

    /// The next theme in rotation.
    pub fn next(&self) -> (r: Theme)
        ensures
            r == self.next_spec(),
    {
        let themes = Self::all();
        let mut current: usize = 0;
        let mut i: usize = 0;
        while i < themes.len()
            invariant
                themes@ == Self::all_spec(),
                i <= themes.len(),
                current < themes.len(),
                i <= self.position() ==> current == 0,
                i > self.position() ==> current == self.position(),
            decreases themes.len() - i,
        {
            if themes[i] == *self {
                current = i;
            }
            i += 1;
        }
        themes[(current + 1) % themes.len()]
    }

    /// The display name of the theme.
    #[must_use]
    pub fn name(self) -> (r: &'static str)
        ensures
            r@ == self.name_spec(),
    {
        match self {
            Theme::Dracula => "Dracula",
            Theme::OneDarkPro => "One Dark Pro",
            Theme::Nord => "Nord",
            Theme::CatppuccinMocha => "Catppuccin Mocha",
            Theme::CatppuccinLatte => "Catppuccin Latte",
            Theme::GruvboxDark => "Gruvbox Dark",
            Theme::GruvboxLight => "Gruvbox Light",
            Theme::TokyoNight => "Tokyo Night",
            Theme::SolarizedDark => "Solarized Dark",
            Theme::SolarizedLight => "Solarized Light",
            Theme::MonokaiPro => "Monokai Pro",
            Theme::RosePine => "Rosé Pine",
            Theme::Kanagawa => "Kanagawa",
            Theme::Everforest => "Everforest",
            Theme::Cyberpunk => "Cyberpunk",
        }
    }

    /// The theme to start with. No theme is stored yet, so this is the default one.
    pub fn load() -> (r: Result<Theme, anyhow::Error>)
        ensures
            r == Ok::<Theme, anyhow::Error>(Theme::Dracula),
    {
        Ok(Theme::Dracula)
    }

    /// The colours of the user interface under this theme.
    pub fn colors(&self) -> (r: ThemeColors)
        ensures
            r == ThemeColors::from_palette_spec(self.palette_spec()),
    {
        ThemeColors::from_palette(self.palette())
    }

    /// The palette of the theme.
    #[must_use]
    pub fn palette(self) -> (r: ThemePalette)
        ensures
            r == self.palette_spec(),
    {
        match self {
            Theme::Dracula => ThemePalette {
                accent: Color::Rgb(189, 147, 249),
                secondary: Color::Rgb(255, 121, 198),
                bg: Color::Rgb(40, 42, 54),
                fg: Color::Rgb(248, 248, 242),
                muted: Color::Rgb(98, 114, 164),
                selection: Color::Rgb(68, 71, 90),
                error: Color::Rgb(255, 85, 85),
                warning: Color::Rgb(255, 184, 108),
                success: Color::Rgb(80, 250, 123),
                info: Color::Rgb(139, 233, 253),
            },
            Theme::OneDarkPro => ThemePalette {
                accent: Color::Rgb(97, 175, 239),
                secondary: Color::Rgb(198, 120, 221),
                bg: Color::Rgb(40, 44, 52),
                fg: Color::Rgb(171, 178, 191),
                muted: Color::Rgb(92, 99, 112),
                selection: Color::Rgb(62, 68, 81),
                error: Color::Rgb(224, 108, 117),
                warning: Color::Rgb(229, 192, 123),
                success: Color::Rgb(152, 195, 121),
                info: Color::Rgb(86, 182, 194),
            },
            Theme::Nord => ThemePalette {
                accent: Color::Rgb(136, 192, 208),
                secondary: Color::Rgb(129, 161, 193),
                bg: Color::Rgb(46, 52, 64),
                fg: Color::Rgb(236, 239, 244),
                muted: Color::Rgb(76, 86, 106),
                selection: Color::Rgb(67, 76, 94),
                error: Color::Rgb(191, 97, 106),
                warning: Color::Rgb(235, 203, 139),
                success: Color::Rgb(163, 190, 140),
                info: Color::Rgb(94, 129, 172),
            },
            Theme::CatppuccinMocha => ThemePalette {
                accent: Color::Rgb(137, 180, 250),
                secondary: Color::Rgb(245, 194, 231),
                bg: Color::Rgb(30, 30, 46),
                fg: Color::Rgb(205, 214, 244),
                muted: Color::Rgb(108, 112, 134),
                selection: Color::Rgb(49, 50, 68),
                error: Color::Rgb(243, 139, 168),
                warning: Color::Rgb(249, 226, 175),
                success: Color::Rgb(166, 227, 161),
                info: Color::Rgb(148, 226, 213),
            },
            Theme::CatppuccinLatte => ThemePalette {
                accent: Color::Rgb(30, 102, 245),
                secondary: Color::Rgb(234, 118, 203),
                bg: Color::Rgb(239, 241, 245),
                fg: Color::Rgb(76, 79, 105),
                muted: Color::Rgb(140, 143, 161),
                selection: Color::Rgb(204, 208, 218),
                error: Color::Rgb(210, 15, 57),
                warning: Color::Rgb(223, 142, 29),
                success: Color::Rgb(64, 160, 43),
                info: Color::Rgb(23, 146, 153),
            },
            Theme::GruvboxDark => ThemePalette {
                accent: Color::Rgb(250, 189, 47),
                secondary: Color::Rgb(211, 134, 155),
                bg: Color::Rgb(40, 40, 40),
                fg: Color::Rgb(235, 219, 178),
                muted: Color::Rgb(146, 131, 116),
                selection: Color::Rgb(80, 73, 69),
                error: Color::Rgb(251, 73, 52),
                warning: Color::Rgb(254, 128, 25),
                success: Color::Rgb(184, 187, 38),
                info: Color::Rgb(131, 165, 152),
            },
            Theme::GruvboxLight => ThemePalette {
                accent: Color::Rgb(181, 118, 20),
                secondary: Color::Rgb(143, 63, 113),
                bg: Color::Rgb(251, 241, 199),
                fg: Color::Rgb(60, 56, 54),
                muted: Color::Rgb(146, 131, 116),
                selection: Color::Rgb(213, 196, 161),
                error: Color::Rgb(157, 0, 6),
                warning: Color::Rgb(175, 58, 3),
                success: Color::Rgb(121, 116, 14),
                info: Color::Rgb(66, 123, 88),
            },
            Theme::TokyoNight => ThemePalette {
                accent: Color::Rgb(122, 162, 247),
                secondary: Color::Rgb(187, 154, 247),
                bg: Color::Rgb(26, 27, 38),
                fg: Color::Rgb(192, 202, 245),
                muted: Color::Rgb(86, 95, 137),
                selection: Color::Rgb(41, 46, 66),
                error: Color::Rgb(247, 118, 142),
                warning: Color::Rgb(224, 175, 104),
                success: Color::Rgb(158, 206, 106),
                info: Color::Rgb(125, 207, 255),
            },
            Theme::SolarizedDark => ThemePalette {
                accent: Color::Rgb(38, 139, 210),
                secondary: Color::Rgb(108, 113, 196),
                bg: Color::Rgb(0, 43, 54),
                fg: Color::Rgb(131, 148, 150),
                muted: Color::Rgb(88, 110, 117),
                selection: Color::Rgb(7, 54, 66),
                error: Color::Rgb(220, 50, 47),
                warning: Color::Rgb(181, 137, 0),
                success: Color::Rgb(133, 153, 0),
                info: Color::Rgb(42, 161, 152),
            },
            Theme::SolarizedLight => ThemePalette {
                accent: Color::Rgb(38, 139, 210),
                secondary: Color::Rgb(108, 113, 196),
                bg: Color::Rgb(253, 246, 227),
                fg: Color::Rgb(101, 123, 131),
                muted: Color::Rgb(147, 161, 161),
                selection: Color::Rgb(238, 232, 213),
                error: Color::Rgb(220, 50, 47),
                warning: Color::Rgb(181, 137, 0),
                success: Color::Rgb(133, 153, 0),
                info: Color::Rgb(42, 161, 152),
            },
            Theme::MonokaiPro => ThemePalette {
                accent: Color::Rgb(255, 216, 102),
                secondary: Color::Rgb(171, 157, 242),
                bg: Color::Rgb(45, 42, 46),
                fg: Color::Rgb(252, 252, 250),
                muted: Color::Rgb(114, 113, 105),
                selection: Color::Rgb(81, 80, 79),
                error: Color::Rgb(255, 97, 136),
                warning: Color::Rgb(252, 152, 103),
                success: Color::Rgb(169, 220, 118),
                info: Color::Rgb(120, 220, 232),
            },
            Theme::RosePine => ThemePalette {
                accent: Color::Rgb(235, 188, 186),
                secondary: Color::Rgb(196, 167, 231),
                bg: Color::Rgb(25, 23, 36),
                fg: Color::Rgb(224, 222, 244),
                muted: Color::Rgb(110, 106, 134),
                selection: Color::Rgb(38, 35, 58),
                error: Color::Rgb(235, 111, 146),
                warning: Color::Rgb(246, 193, 119),
                success: Color::Rgb(156, 207, 216),
                info: Color::Rgb(49, 116, 143),
            },
            Theme::Kanagawa => ThemePalette {
                accent: Color::Rgb(127, 180, 202),
                secondary: Color::Rgb(149, 127, 184),
                bg: Color::Rgb(31, 31, 40),
                fg: Color::Rgb(220, 215, 186),
                muted: Color::Rgb(84, 84, 109),
                selection: Color::Rgb(54, 54, 70),
                error: Color::Rgb(195, 64, 67),
                warning: Color::Rgb(255, 169, 107),
                success: Color::Rgb(118, 148, 106),
                info: Color::Rgb(126, 156, 216),
            },
            Theme::Everforest => ThemePalette {
                accent: Color::Rgb(131, 193, 120),
                secondary: Color::Rgb(214, 153, 182),
                bg: Color::Rgb(47, 53, 55),
                fg: Color::Rgb(211, 198, 170),
                muted: Color::Rgb(133, 146, 137),
                selection: Color::Rgb(68, 78, 79),
                error: Color::Rgb(230, 126, 128),
                warning: Color::Rgb(219, 188, 127),
                success: Color::Rgb(167, 192, 128),
                info: Color::Rgb(124, 195, 191),
            },
            Theme::Cyberpunk => ThemePalette {
                accent: Color::Rgb(0, 255, 255),
                secondary: Color::Rgb(255, 0, 255),
                bg: Color::Rgb(13, 2, 33),
                fg: Color::Rgb(240, 240, 240),
                muted: Color::Rgb(100, 100, 140),
                selection: Color::Rgb(40, 20, 80),
                error: Color::Rgb(255, 0, 60),
                warning: Color::Rgb(255, 230, 0),
                success: Color::Rgb(0, 255, 100),
                info: Color::Rgb(0, 180, 255),
            },
        }
    }
}

/// The colours of the user interface, derived from a palette.
#[derive(Debug, Clone)]
pub struct ThemeColors {
    pub bg: Color,
    pub bg_secondary: Color,
    pub bg_highlight: Color,
    pub fg: Color,
    pub fg_dim: Color,
    pub fg_muted: Color,
    pub primary: Color,
    pub secondary: Color,
    pub accent: Color,
    pub success: Color,
    pub warning: Color,
    pub error: Color,
    pub info: Color,
    pub border: Color,
    pub border_focus: Color,
    pub selection: Color,
    pub logo_primary: Color,
    pub logo_secondary: Color,
}

/// One colour channel made brighter by `amount`, or darker where `amount` is not
/// positive. The step is the low eight bits of the distance, and the result stays
/// within the channel's range.
pub open spec fn adjust_channel(c: u8, amount: i16) -> u8 {
    if amount > 0 {
        let step = amount as int % 256;
        if c + step > 255 {
            255u8
        } else {
            (c + step) as u8
        }
    } else {
        let step = (-(amount as int)) % 256;
        if c - step < 0 {
            0u8
        } else {
            (c - step) as u8
        }
    }
}

fn adjust_one(c: u8, amount: i16) -> (r: u8)
    requires
        amount > i16::MIN,
    ensures
        r == adjust_channel(c, amount),
{
    if amount > 0 {
        let step: u8 = #[verifier::truncate] (amount as u8);
        assert(step as int == amount as int % 256) by (bit_vector)
            requires
                amount > 0,
                step == #[verifier::truncate] (amount as u8),
        ;
        c.saturating_add(step)
    } else {
        let distance: i16 = -amount;
        let step: u8 = #[verifier::truncate] (distance as u8);
        assert(step as int == distance as int % 256) by (bit_vector)
            requires
                distance >= 0,
                step == #[verifier::truncate] (distance as u8),
        ;
        c.saturating_sub(step)
    }
}

impl ThemeColors {
    /// An RGB colour with each channel adjusted by `amount`; any other colour as it is.
    pub open spec fn adjust_brightness_spec(color: Color, amount: i16) -> Color {
        match color {
            Color::Rgb(r, g, b) => Color::Rgb(
                adjust_channel(r, amount),
                adjust_channel(g, amount),
                adjust_channel(b, amount),
            ),
            _ => color,
        }
    }

    /// The interface colours that a palette gives.
    pub open spec fn from_palette_spec(p: ThemePalette) -> ThemeColors {
        ThemeColors {
            bg: p.bg,
            bg_secondary: Self::adjust_brightness_spec(p.bg, 10),
            bg_highlight: Self::adjust_brightness_spec(p.bg, 20),
            fg: p.fg,
            fg_dim: p.muted,
            fg_muted: p.muted,
            primary: p.accent,
            secondary: p.secondary,
            accent: p.secondary,
            success: p.success,
            warning: p.warning,
            error: p.error,
            info: p.info,
            border: p.muted,
            border_focus: p.accent,
            selection: p.selection,
            logo_primary: p.accent,
            logo_secondary: p.secondary,
        }
    }

    /// Derives the interface colours from a palette.
    pub fn from_palette(p: ThemePalette) -> (r: ThemeColors)
        ensures
            r == Self::from_palette_spec(p),
    {
        let bg_secondary = Self::adjust_brightness(p.bg, 10);
        let bg_highlight = Self::adjust_brightness(p.bg, 20);
        ThemeColors {
            bg: p.bg,
            bg_secondary,
            bg_highlight,
            fg: p.fg,
            fg_dim: p.muted,
            fg_muted: p.muted,
            primary: p.accent,
            secondary: p.secondary,
            accent: p.secondary,
            success: p.success,
            warning: p.warning,
            error: p.error,
            info: p.info,
            border: p.muted,
            border_focus: p.accent,
            selection: p.selection,
            logo_primary: p.accent,
            logo_secondary: p.secondary,
        }
    }

    /// Makes a colour brighter or darker.
    pub fn adjust_brightness(color: Color, amount: i16) -> (r: Color)
        requires
            amount > i16::MIN,
        ensures
            r == Self::adjust_brightness_spec(color, amount),
    {
        match color {
            Color::Rgb(r, g, b) => Color::Rgb(
                adjust_one(r, amount),
                adjust_one(g, amount),
                adjust_one(b, amount),
            ),
            _ => color,
        }
    }

    /// Default text.
    pub fn text(&self) -> (r: Style)
        ensures
            r == Style::colored(self.fg),
    {
        Style { fg: Some(self.fg), bg: None, bold: false }
    }

    /// Dimmed text.
    pub fn text_dim(&self) -> (r: Style)
        ensures
            r == Style::colored(self.fg_dim),
    {
        Style { fg: Some(self.fg_dim), bg: None, bold: false }
    }

    /// Muted text.
    pub fn text_muted(&self) -> (r: Style)
        ensures
            r == Style::colored(self.fg_muted),
    {
        Style { fg: Some(self.fg_muted), bg: None, bold: false }
    }

    /// Text in the primary accent colour.
    pub fn text_primary(&self) -> (r: Style)
        ensures
            r == Style::colored(self.primary),
    {
        Style { fg: Some(self.primary), bg: None, bold: false }
    }

    /// Text in the secondary accent colour.
    pub fn text_secondary(&self) -> (r: Style)
        ensures
            r == Style::colored(self.secondary),
    {
        Style { fg: Some(self.secondary), bg: None, bold: false }
    }

    /// Text that reports success.
    pub fn text_success(&self) -> (r: Style)
        ensures
            r == Style::colored(self.success),
    {
        Style { fg: Some(self.success), bg: None, bold: false }
    }

    /// Text that warns.
    pub fn text_warning(&self) -> (r: Style)
        ensures
            r == Style::colored(self.warning),
    {
        Style { fg: Some(self.warning), bg: None, bold: false }
    }

    /// Text that reports an error.
    pub fn text_error(&self) -> (r: Style)
        ensures
            r == Style::colored(self.error),
    {
        Style { fg: Some(self.error), bg: None, bold: false }
    }

    /// Text that informs.
    pub fn text_info(&self) -> (r: Style)
        ensures
            r == Style::colored(self.info),
    {
        Style { fg: Some(self.info), bg: None, bold: false }
    }

    /// The border of a block.
    pub fn block(&self) -> (r: Style)
        ensures
            r == Style::colored(self.border),
    {
        Style { fg: Some(self.border), bg: None, bold: false }
    }

    /// The border of the block that has the focus.
    pub fn block_focus(&self) -> (r: Style)
        ensures
            r == Style::colored(self.border_focus),
    {
        Style { fg: Some(self.border_focus), bg: None, bold: false }
    }

    /// The selected item of a list.
    pub fn selected(&self) -> (r: Style)
        ensures
            r == (Style { fg: Some(self.fg), bg: Some(self.selection), bold: true }),
    {
        Style { fg: Some(self.fg), bg: Some(self.selection), bold: true }
    }

    /// A tab.
    pub fn tab(&self) -> (r: Style)
        ensures
            r == Style::colored(self.fg_muted),
    {
        Style { fg: Some(self.fg_muted), bg: None, bold: false }
    }

    /// The active tab.
    pub fn tab_active(&self) -> (r: Style)
        ensures
            r == Style::strong(self.primary),
    {
        Style { fg: Some(self.primary), bg: None, bold: true }
    }

    /// The name of a key in a hint.
    pub fn key_hint(&self) -> (r: Style)
        ensures
            r == Style::strong(self.accent),
    {
        Style { fg: Some(self.accent), bg: None, bold: true }
    }

    /// The first colour of the logo.
    pub fn logo_style_primary(&self) -> (r: Style)
        ensures
            r == Style::strong(self.logo_primary),
    {
        Style { fg: Some(self.logo_primary), bg: None, bold: true }
    }

    /// The second colour of the logo.
    pub fn logo_style_secondary(&self) -> (r: Style)
        ensures
            r == Style::strong(self.logo_secondary),
    {
        Style { fg: Some(self.logo_secondary), bg: None, bold: true }
    }
}

} // verus!
