use hazelnut::theme::{Color, Style, Theme, ThemeColors, ThemePalette};

#[test]
fn all_lists_fifteen_themes_in_order() {
    let all = Theme::all();
    assert_eq!(all.len(), 15);
    assert_eq!(all[0], Theme::Dracula);
    assert_eq!(all[1], Theme::OneDarkPro);
    assert_eq!(all[7], Theme::TokyoNight);
    assert_eq!(all[14], Theme::Cyberpunk);
}

#[test]
fn next_walks_all_themes_and_wraps() {
    let all = Theme::all();
    for i in 0..all.len() {
        assert_eq!(all[i].next(), all[(i + 1) % all.len()]);
    }
    assert_eq!(Theme::Cyberpunk.next(), Theme::Dracula);
    let mut t = Theme::Nord;
    for _ in 0..15 {
        t = t.next();
    }
    assert_eq!(t, Theme::Nord);
}

#[test]
fn names_are_the_display_names() {
    assert_eq!(Theme::Dracula.name(), "Dracula");
    assert_eq!(Theme::OneDarkPro.name(), "One Dark Pro");
    assert_eq!(Theme::CatppuccinLatte.name(), "Catppuccin Latte");
    assert_eq!(Theme::RosePine.name(), "Ros\u{e9} Pine");
    assert_eq!(Theme::Cyberpunk.name(), "Cyberpunk");
}

#[test]
fn default_and_load_give_dracula() {
    assert_eq!(Theme::default(), Theme::Dracula);
    assert_eq!(Theme::load().unwrap(), Theme::Dracula);
}

#[test]
fn palettes_hold_the_themes_colours() {
    let p = Theme::Dracula.palette();
    assert_eq!(p.accent, Color::Rgb(189, 147, 249));
    assert_eq!(p.secondary, Color::Rgb(255, 121, 198));
    assert_eq!(p.bg, Color::Rgb(40, 42, 54));
    assert_eq!(p.fg, Color::Rgb(248, 248, 242));
    assert_eq!(p.muted, Color::Rgb(98, 114, 164));
    assert_eq!(p.selection, Color::Rgb(68, 71, 90));
    assert_eq!(p.error, Color::Rgb(255, 85, 85));
    assert_eq!(p.warning, Color::Rgb(255, 184, 108));
    assert_eq!(p.success, Color::Rgb(80, 250, 123));
    assert_eq!(p.info, Color::Rgb(139, 233, 253));
    let p = Theme::Cyberpunk.palette();
    assert_eq!(p.accent, Color::Rgb(0, 255, 255));
    assert_eq!(p.bg, Color::Rgb(13, 2, 33));
    assert_eq!(p.info, Color::Rgb(0, 180, 255));
    let p = Theme::SolarizedLight.palette();
    assert_eq!(p.bg, Color::Rgb(253, 246, 227));
    assert_eq!(p.warning, Color::Rgb(181, 137, 0));
    assert_eq!(Theme::GruvboxLight.palette().error, Color::Rgb(157, 0, 6));
    assert_eq!(Theme::Nord.palette().selection, Color::Rgb(67, 76, 94));
}

#[test]
fn brightness_saturates() {
    assert_eq!(
        ThemeColors::adjust_brightness(Color::Rgb(40, 250, 0), 10),
        Color::Rgb(50, 255, 10)
    );
    assert_eq!(
        ThemeColors::adjust_brightness(Color::Rgb(40, 250, 5), -10),
        Color::Rgb(30, 240, 0)
    );
    assert_eq!(ThemeColors::adjust_brightness(Color::Rgb(1, 2, 3), 0), Color::Rgb(1, 2, 3));
    assert_eq!(ThemeColors::adjust_brightness(Color::Red, 10), Color::Red);
    assert_eq!(ThemeColors::adjust_brightness(Color::Indexed(7), -3), Color::Indexed(7));
    assert_eq!(
        ThemeColors::adjust_brightness(Color::Rgb(10, 10, 10), 300),
        Color::Rgb(54, 54, 54)
    );
    assert_eq!(
        ThemeColors::adjust_brightness(Color::Rgb(100, 100, 100), -300),
        Color::Rgb(56, 56, 56)
    );
    assert_eq!(
        ThemeColors::adjust_brightness(Color::Rgb(10, 10, 10), 256),
        Color::Rgb(10, 10, 10)
    );
}

#[test]
fn colours_come_from_the_palette() {
    let p = Theme::Dracula.palette();
    let c = Theme::Dracula.colors();
    assert_eq!(c.bg, p.bg);
    assert_eq!(c.bg_secondary, Color::Rgb(50, 52, 64));
    assert_eq!(c.bg_highlight, Color::Rgb(60, 62, 74));
    assert_eq!(c.fg, p.fg);
    assert_eq!(c.fg_dim, p.muted);
    assert_eq!(c.fg_muted, p.muted);
    assert_eq!(c.primary, p.accent);
    assert_eq!(c.secondary, p.secondary);
    assert_eq!(c.accent, p.secondary);
    assert_eq!(c.success, p.success);
    assert_eq!(c.warning, p.warning);
    assert_eq!(c.error, p.error);
    assert_eq!(c.info, p.info);
    assert_eq!(c.border, p.muted);
    assert_eq!(c.border_focus, p.accent);
    assert_eq!(c.selection, p.selection);
    assert_eq!(c.logo_primary, p.accent);
    assert_eq!(c.logo_secondary, p.secondary);
    let light = ThemeColors::from_palette(Theme::SolarizedLight.palette());
    assert_eq!(light.bg_secondary, Color::Rgb(255, 255, 237));
    assert_eq!(light.bg_highlight, Color::Rgb(255, 255, 247));
}

#[test]
fn styles_pick_their_colours() {
    let palette = ThemePalette {
        accent: Color::Rgb(1, 1, 1),
        secondary: Color::Rgb(2, 2, 2),
        bg: Color::Rgb(3, 3, 3),
        fg: Color::Rgb(4, 4, 4),
        muted: Color::Rgb(5, 5, 5),
        selection: Color::Rgb(6, 6, 6),
        error: Color::Rgb(7, 7, 7),
        warning: Color::Rgb(8, 8, 8),
        success: Color::Rgb(9, 9, 9),
        info: Color::Rgb(10, 10, 10),
    };
    let c = ThemeColors::from_palette(palette);
    let plain = |color| Style { fg: Some(color), bg: None, bold: false };
    let bold = |color| Style { fg: Some(color), bg: None, bold: true };
    assert_eq!(c.text(), plain(palette.fg));
    assert_eq!(c.text_dim(), plain(palette.muted));
    assert_eq!(c.text_muted(), plain(palette.muted));
    assert_eq!(c.text_primary(), plain(palette.accent));
    assert_eq!(c.text_secondary(), plain(palette.secondary));
    assert_eq!(c.text_success(), plain(palette.success));
    assert_eq!(c.text_warning(), plain(palette.warning));
    assert_eq!(c.text_error(), plain(palette.error));
    assert_eq!(c.text_info(), plain(palette.info));
    assert_eq!(c.block(), plain(palette.muted));
    assert_eq!(c.block_focus(), plain(palette.accent));
    assert_eq!(
        c.selected(),
        Style { fg: Some(palette.fg), bg: Some(palette.selection), bold: true }
    );
    assert_eq!(c.tab(), plain(palette.muted));
    assert_eq!(c.tab_active(), bold(palette.accent));
    assert_eq!(c.key_hint(), bold(palette.secondary));
    assert_eq!(c.logo_style_primary(), bold(palette.accent));
    assert_eq!(c.logo_style_secondary(), bold(palette.secondary));
}
