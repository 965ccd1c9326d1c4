//! Colours and styles used by every view.

use crate::ui::{Color, Style};
use vstd::prelude::*;

verus! {

#[derive(Debug, Clone, Copy, PartialEq, Eq, Structural)]
pub struct Theme {
    pub accent: Color,
    pub dim: Color,
    pub selection_bg: Color,
    pub ok: Color,
    pub warn: Color,
    pub err: Color,
    pub tag: Color,
    pub border: Color,
    pub border_focus: Color,
    pub placeholder: Color,
    pub description: Color,
    pub source: Color,
    pub skill_count: Color,
}

/// The colours that are used where nothing else is asked for.
pub open spec fn default_theme() -> Theme {
    Theme {
        accent: Color::Cyan,
        dim: Color::DarkGray,
        selection_bg: Color::Rgb(44, 50, 60),
        ok: Color::Green,
        warn: Color::Yellow,
        err: Color::Red,
        tag: Color::Magenta,
        border: Color::DarkGray,
        border_focus: Color::Cyan,
        placeholder: Color::DarkGray,
        description: Color::Gray,
        source: Color::Blue,
        skill_count: Color::Cyan,
    }
}

impl Default for Theme {
    fn default() -> (r: Theme)
        ensures
            r == default_theme(),
    {
        Theme {
            accent: Color::Cyan,
            dim: Color::DarkGray,
            selection_bg: Color::Rgb(44, 50, 60),
            ok: Color::Green,
            warn: Color::Yellow,
            err: Color::Red,
            tag: Color::Magenta,
            border: Color::DarkGray,
            border_focus: Color::Cyan,
            placeholder: Color::DarkGray,
            description: Color::Gray,
            source: Color::Blue,
            skill_count: Color::Cyan,
        }
    }
}

impl Theme {
    /// The style of a border.
    #[verifier::allow_in_spec]
    pub fn block(&self, focused: bool) -> Style
        returns
            Style::colored(
                if focused {
                    self.border_focus
                } else {
                    self.border
                },
            ),
    {
        Style::colored(
            if focused {
                self.border_focus
            } else {
                self.border
            },
        )
    }

    #[verifier::allow_in_spec]
    pub fn dim(&self) -> Style
        returns
            Style::colored(self.dim),
    {
        Style::colored(self.dim)
    }

    #[verifier::allow_in_spec]
    pub fn accent(&self) -> Style
        returns
            Style::colored(self.accent),
    {
        Style::colored(self.accent)
    }

    #[verifier::allow_in_spec]
    pub fn bold(&self) -> Style
        returns
            (Style { bold: true, ..Style::plain() }),
    {
        Style { bold: true, ..Style::plain() }
    }

    #[verifier::allow_in_spec]
    pub fn selected(&self) -> Style
        returns
            (Style { bg: Some(self.selection_bg), bold: true, ..Style::plain() }),
    {
        Style { bg: Some(self.selection_bg), bold: true, ..Style::plain() }
    }

    #[verifier::allow_in_spec]
    pub fn selected_unfocused(&self) -> Style
        returns
            (Style { bg: Some(self.selection_bg), ..Style::plain() }),
    {
        Style { bg: Some(self.selection_bg), ..Style::plain() }
    }

    #[verifier::allow_in_spec]
    pub fn tag(&self) -> Style
        returns
            Style::colored(self.tag),
    {
        Style::colored(self.tag)
    }

    #[verifier::allow_in_spec]
    pub fn ok(&self) -> Style
        returns
            Style::colored(self.ok),
    {
        Style::colored(self.ok)
    }

    #[verifier::allow_in_spec]
    pub fn warn(&self) -> Style
        returns
            Style::colored(self.warn),
    {
        Style::colored(self.warn)
    }

    #[verifier::allow_in_spec]
    pub fn err(&self) -> Style
        returns
            Style::colored(self.err),
    {
        Style::colored(self.err)
    }

    #[verifier::allow_in_spec]
    pub fn key_hint(&self) -> Style
        returns
            Style::colored(self.accent).bolder(),
    {
        Style::colored(self.accent).bolder()
    }

    #[verifier::allow_in_spec]
    pub fn description(&self) -> Style
        returns
            Style::colored(self.description),
    {
        Style::colored(self.description)
    }

    #[verifier::allow_in_spec]
    pub fn source(&self) -> Style
        returns
            Style::colored(self.source),
    {
        Style::colored(self.source)
    }

    #[verifier::allow_in_spec]
    pub fn skill_count(&self) -> Style
        returns
            Style::colored(self.skill_count),
    {
        Style::colored(self.skill_count)
    }

    /// The style of a remark that only helps.
    #[verifier::allow_in_spec]
    pub fn placeholder(&self) -> Style
        returns
            Style::colored(self.placeholder),
    {
        Style::colored(self.placeholder)
    }
}

} // verus!
