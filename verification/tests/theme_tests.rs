use opencode_helix::theme::{BorderKind, Color, Theme, ThemeKind};

#[test]
fn test_theme_from_str() {
    assert_eq!(ThemeKind::from_str("hacker"), ThemeKind::Hacker);
    assert_eq!(ThemeKind::from_str("HACKER"), ThemeKind::Hacker);
    assert_eq!(ThemeKind::from_str("minimal"), ThemeKind::Minimal);
    assert_eq!(ThemeKind::from_str("matrix"), ThemeKind::Matrix);
    assert_eq!(ThemeKind::from_str("crt"), ThemeKind::Crt);
    assert_eq!(ThemeKind::from_str("unknown"), ThemeKind::Hacker);
}

#[test]
fn test_theme_configs() {
    let hacker = ThemeKind::Hacker.config();
    assert_eq!(hacker.border_style, "thick");
    assert_eq!(hacker.prompt, "λ ");

    let minimal = ThemeKind::Minimal.config();
    assert_eq!(minimal.border_style, "rounded");
    assert_eq!(minimal.prompt, "> ");
}

#[test]
fn test_theme_border_types() {
    assert_eq!(Theme::hacker().border_type(), BorderKind::Thick);
    assert_eq!(Theme::minimal().border_type(), BorderKind::Rounded);
    assert_eq!(Theme::crt().border_type(), BorderKind::Double);
}

#[test]
fn test_theme_aliases_and_colors() {
    assert_eq!(ThemeKind::from_str("neo"), ThemeKind::Matrix);
    assert_eq!(ThemeKind::from_str("retro"), ThemeKind::Crt);
    assert_eq!(ThemeKind::from_str("clean"), ThemeKind::Minimal);
    let minimal = Theme::minimal();
    assert_eq!(minimal.primary, Color::Cyan);
    let crt = Theme::crt();
    assert_eq!(crt.primary, Color::Rgb(255, 170, 0));
}
