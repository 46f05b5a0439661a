//! Visual themes for the dialogs: colors, decorative strings, and the
//! border kind. Themes never affect layout arithmetic.

use vstd::prelude::*;
use crate::strutil::{chars_of, lower, lower_chars, str_eq, string_from_chars};

verus! {

/// A display color: one of the conventional terminal colors or an exact
/// RGB value.
#[derive(Debug, Clone, Copy, PartialEq, Eq, Structural)]
pub enum Color {
    Black,
    White,
    Cyan,
    Blue,
    Magenta,
    Yellow,
    Red,
    DarkGray,
    Rgb(u8, u8, u8),
}

/// The kind of border drawn around a dialog.
#[derive(Debug, Clone, Copy, PartialEq, Eq, Structural)]
pub enum BorderKind {
    Rounded,
    Double,
    Thick,
    Plain,
}

/// Available themes.
#[derive(Debug, Clone, Copy, Default, PartialEq, Eq, Structural)]
pub enum ThemeKind {
    /// Minimal, clean look.
    Minimal,
    /// Green-on-black look (the default).
    #[default]
    Hacker,
    /// Rain-effect green look.
    Matrix,
    /// Retro amber look.
    Crt,
}

/// The theme a name denotes, ASCII case-insensitively; unknown names fall
/// back to the default.
pub open spec fn kind_of_name(s: Seq<char>) -> ThemeKind {
    let l = lower(s);
    if l == "minimal"@ || l == "min"@ || l == "clean"@ {
        ThemeKind::Minimal
    } else if l == "hacker"@ || l == "hack"@ || l == "cyber"@ {
        ThemeKind::Hacker
    } else if l == "matrix"@ || l == "neo"@ {
        ThemeKind::Matrix
    } else if l == "crt"@ || l == "retro"@ || l == "amber"@ {
        ThemeKind::Crt
    } else {
        ThemeKind::Hacker
    }
}

/// Theme configuration: colors and decorative strings.
#[derive(Debug, Clone)]
pub struct Theme {
    /// Primary accent color (borders, highlights).
    pub primary: Color,
    /// Secondary accent color.
    pub secondary: Color,
    /// Accent color for special elements.
    pub accent: Color,
    /// Warning color.
    pub warning: Color,
    /// Error and cancel color.
    pub error: Color,
    /// Dimmed text color.
    pub dim: Color,
    /// Normal text color.
    pub text: Color,
    /// Input text color.
    pub input: Color,
    /// Dialog title.
    pub title: String,
    /// Prompt glyph before the input line.
    pub prompt: String,
    /// Prompt glyph before the filter line.
    pub filter_prompt: String,
    /// Prefix of the selected menu row.
    pub selected_prefix: String,
    /// Prefix of unselected menu rows.
    pub unselected_prefix: String,
    /// Border style name: rounded, double, thick or plain.
    pub border_style: &'static str,
}

/// The mathematical image of a [`Theme`].
#[verifier::ext_equal]
pub struct ThemeView {
    pub primary: Color,
    pub secondary: Color,
    pub accent: Color,
    pub warning: Color,
    pub error: Color,
    pub dim: Color,
    pub text: Color,
    pub input: Color,
    pub title: Seq<char>,
    pub prompt: Seq<char>,
    pub filter_prompt: Seq<char>,
    pub selected_prefix: Seq<char>,
    pub unselected_prefix: Seq<char>,
    pub border_style: Seq<char>,
}

impl View for Theme {
    type V = ThemeView;

    open spec fn view(&self) -> ThemeView {
        ThemeView {
            primary: self.primary,
            secondary: self.secondary,
            accent: self.accent,
            warning: self.warning,
            error: self.error,
            dim: self.dim,
            text: self.text,
            input: self.input,
            title: self.title@,
            prompt: self.prompt@,
            filter_prompt: self.filter_prompt@,
            selected_prefix: self.selected_prefix@,
            unselected_prefix: self.unselected_prefix@,
            border_style: self.border_style@,
        }
    }
}

/// The minimal theme.
pub open spec fn minimal_view() -> ThemeView {
    ThemeView {
        primary: Color::Cyan,
        secondary: Color::Blue,
        accent: Color::Magenta,
        warning: Color::Yellow,
        error: Color::Red,
        dim: Color::DarkGray,
        text: Color::White,
        input: Color::White,
        title: " opencode "@,
        prompt: "> "@,
        filter_prompt: "/ "@,
        selected_prefix: "> "@,
        unselected_prefix: "  "@,
        border_style: "rounded"@,
    }
}

/// The green-on-black theme.
pub open spec fn hacker_view() -> ThemeView {
    ThemeView {
        primary: Color::Rgb(0, 255, 0),
        secondary: Color::Rgb(0, 255, 255),
        accent: Color::Rgb(255, 0, 255),
        warning: Color::Rgb(255, 170, 0),
        error: Color::Rgb(255, 50, 50),
        dim: Color::Rgb(0, 140, 0),
        text: Color::Rgb(0, 230, 0),
        input: Color::Rgb(0, 255, 0),
        title: " ░▒▓ OPENCODE ▓▒░ "@,
        prompt: "λ "@,
        filter_prompt: "⟫ "@,
        selected_prefix: "▸ "@,
        unselected_prefix: "  "@,
        border_style: "thick"@,
    }
}

/// The rain-effect green theme.
pub open spec fn matrix_view() -> ThemeView {
    ThemeView {
        primary: Color::Rgb(0, 200, 0),
        secondary: Color::Rgb(0, 255, 0),
        accent: Color::Rgb(150, 255, 150),
        warning: Color::Rgb(200, 255, 0),
        error: Color::Rgb(255, 100, 100),
        dim: Color::Rgb(0, 80, 0),
        text: Color::Rgb(0, 180, 0),
        input: Color::Rgb(0, 255, 0),
        title: " ⟨ MATRIX ⟩ "@,
        prompt: "$ "@,
        filter_prompt: ">> "@,
        selected_prefix: "█ "@,
        unselected_prefix: "░ "@,
        border_style: "thick"@,
    }
}

/// The retro amber theme.
pub open spec fn crt_view() -> ThemeView {
    ThemeView {
        primary: Color::Rgb(255, 170, 0),
        secondary: Color::Rgb(255, 200, 50),
        accent: Color::Rgb(255, 220, 100),
        warning: Color::Rgb(255, 255, 0),
        error: Color::Rgb(255, 100, 0),
        dim: Color::Rgb(140, 90, 0),
        text: Color::Rgb(255, 170, 0),
        input: Color::Rgb(255, 200, 50),
        title: " ◄ TERMINAL ► "@,
        prompt: "C:\\> "@,
        filter_prompt: "? "@,
        selected_prefix: "=> "@,
        unselected_prefix: "   "@,
        border_style: "double"@,
    }
}

/// The configuration each theme kind denotes.
pub open spec fn view_of_kind(k: ThemeKind) -> ThemeView {
    match k {
        ThemeKind::Minimal => minimal_view(),
        ThemeKind::Hacker => hacker_view(),
        ThemeKind::Matrix => matrix_view(),
        ThemeKind::Crt => crt_view(),
    }
}

impl ThemeKind {
    /// The theme a name denotes, ASCII case-insensitively; unknown names
    /// give the default.
    pub fn from_str(s: &str) -> (r: ThemeKind)
        ensures
            r == kind_of_name(s@),
    {
        let l = string_from_chars(&lower_chars(&chars_of(s)));
        if str_eq(l.as_str(), "minimal") || str_eq(l.as_str(), "min") || str_eq(
            l.as_str(),
            "clean",
        ) {
            ThemeKind::Minimal
        } else if str_eq(l.as_str(), "hacker") || str_eq(l.as_str(), "hack") || str_eq(
            l.as_str(),
            "cyber",
        ) {
            ThemeKind::Hacker
        } else if str_eq(l.as_str(), "matrix") || str_eq(l.as_str(), "neo") {
            ThemeKind::Matrix
        } else if str_eq(l.as_str(), "crt") || str_eq(l.as_str(), "retro") || str_eq(
            l.as_str(),
            "amber",
        ) {
            ThemeKind::Crt
        } else {
            ThemeKind::Hacker
        }
    }

    /// The theme configuration for this kind.
    pub fn config(&self) -> (r: Theme)
        ensures
            r@ == view_of_kind(*self),
    {
        match self {
            ThemeKind::Minimal => Theme::minimal(),
            ThemeKind::Hacker => Theme::hacker(),
            ThemeKind::Matrix => Theme::matrix(),
            ThemeKind::Crt => Theme::crt(),
        }
    }
}

impl Theme {
    /// The minimal theme.
    pub fn minimal() -> (r: Theme)
        ensures
            r@ == minimal_view(),
    {
        let r = Theme {
            primary: Color::Cyan,
            secondary: Color::Blue,
            accent: Color::Magenta,
            warning: Color::Yellow,
            error: Color::Red,
            dim: Color::DarkGray,
            text: Color::White,
            input: Color::White,
            title: " opencode ".to_owned(),
            prompt: "> ".to_owned(),
            filter_prompt: "/ ".to_owned(),
            selected_prefix: "> ".to_owned(),
            unselected_prefix: "  ".to_owned(),
            border_style: "rounded",
        };
        proof {
            assert(r@ =~= minimal_view());
        }
        r
    }

    /// The green-on-black theme.
    pub fn hacker() -> (r: Theme)
        ensures
            r@ == hacker_view(),
    {
        let r = Theme {
            primary: Color::Rgb(0, 255, 0),
            secondary: Color::Rgb(0, 255, 255),
            accent: Color::Rgb(255, 0, 255),
            warning: Color::Rgb(255, 170, 0),
            error: Color::Rgb(255, 50, 50),
            dim: Color::Rgb(0, 140, 0),
            text: Color::Rgb(0, 230, 0),
            input: Color::Rgb(0, 255, 0),
            title: " ░▒▓ OPENCODE ▓▒░ ".to_owned(),
            prompt: "λ ".to_owned(),
            filter_prompt: "⟫ ".to_owned(),
            selected_prefix: "▸ ".to_owned(),
            unselected_prefix: "  ".to_owned(),
            border_style: "thick",
        };
        proof {
            assert(r@ =~= hacker_view());
        }
        r
    }

    /// The rain-effect green theme.
    pub fn matrix() -> (r: Theme)
        ensures
            r@ == matrix_view(),
    {
        let r = Theme {
            primary: Color::Rgb(0, 200, 0),
            secondary: Color::Rgb(0, 255, 0),
            accent: Color::Rgb(150, 255, 150),
            warning: Color::Rgb(200, 255, 0),
            error: Color::Rgb(255, 100, 100),
            dim: Color::Rgb(0, 80, 0),
            text: Color::Rgb(0, 180, 0),
            input: Color::Rgb(0, 255, 0),
            title: " ⟨ MATRIX ⟩ ".to_owned(),
            prompt: "$ ".to_owned(),
            filter_prompt: ">> ".to_owned(),
            selected_prefix: "█ ".to_owned(),
            unselected_prefix: "░ ".to_owned(),
            border_style: "thick",
        };
        proof {
            assert(r@ =~= matrix_view());
        }
        r
    }

    /// The retro amber theme.
    pub fn crt() -> (r: Theme)
        ensures
            r@ == crt_view(),
    {
        let r = Theme {
            primary: Color::Rgb(255, 170, 0),
            secondary: Color::Rgb(255, 200, 50),
            accent: Color::Rgb(255, 220, 100),
            warning: Color::Rgb(255, 255, 0),
            error: Color::Rgb(255, 100, 0),
            dim: Color::Rgb(140, 90, 0),
            text: Color::Rgb(255, 170, 0),
            input: Color::Rgb(255, 200, 50),
            title: " ◄ TERMINAL ► ".to_owned(),
            prompt: "C:\\> ".to_owned(),
            filter_prompt: "? ".to_owned(),
            selected_prefix: "=> ".to_owned(),
            unselected_prefix: "   ".to_owned(),
            border_style: "double",
        };
        proof {
            assert(r@ =~= crt_view());
        }
        r
    }

    /// The border kind the theme's style name denotes; unknown names give
    /// a rounded border.
    pub fn border_type(&self) -> (r: BorderKind)
        ensures
            r == (if self@.border_style == "double"@ {
                BorderKind::Double
            } else if self@.border_style == "thick"@ {
                BorderKind::Thick
            } else if self@.border_style == "plain"@ {
                BorderKind::Plain
            } else {
                BorderKind::Rounded
            }),
    {
        if str_eq(self.border_style, "double") {
            BorderKind::Double
        } else if str_eq(self.border_style, "thick") {
            BorderKind::Thick
        } else if str_eq(self.border_style, "plain") {
            BorderKind::Plain
        } else {
            BorderKind::Rounded
        }
    }
}

} // verus!
