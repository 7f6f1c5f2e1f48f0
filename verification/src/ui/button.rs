//! A button with a label, a theme and a state.

use vstd::prelude::*;
use vstd::string::*;
use crate::layout::Rect;

verus! {

/// A colour by its red, green and blue parts.
#[derive(Debug, Clone, Copy, PartialEq, Eq, Structural)]
pub struct Rgb {
    pub r: u8,
    pub g: u8,
    pub b: u8,
}

#[derive(Debug, Clone, Copy, PartialEq, Eq, Structural)]
pub enum ButtonState {
    Normal,
    Selected,
    Active,
}

/// The four colours of a button.
#[derive(Debug, Clone, Copy, PartialEq, Eq, Structural)]
pub struct Theme {
    pub text: Rgb,
    pub background: Rgb,
    pub highlight: Rgb,
    pub shadow: Rgb,
}

impl Theme {
    pub open spec fn spec_blue() -> Theme {
        Theme {
            text: Rgb { r: 16, g: 24, b: 48 },
            background: Rgb { r: 48, g: 72, b: 144 },
            highlight: Rgb { r: 64, g: 96, b: 192 },
            shadow: Rgb { r: 32, g: 48, b: 96 },
        }
    }

    /// The blue theme.
    #[verifier::when_used_as_spec(spec_blue)]
    pub fn blue() -> (theme: Theme)
        ensures
            theme == Theme::spec_blue(),
    {
        Theme {
            text: Rgb { r: 16, g: 24, b: 48 },
            background: Rgb { r: 48, g: 72, b: 144 },
            highlight: Rgb { r: 64, g: 96, b: 192 },
            shadow: Rgb { r: 32, g: 48, b: 96 },
        }
    }

    pub open spec fn spec_red() -> Theme {
        Theme {
            text: Rgb { r: 48, g: 16, b: 16 },
            background: Rgb { r: 144, g: 48, b: 48 },
            highlight: Rgb { r: 192, g: 64, b: 64 },
            shadow: Rgb { r: 96, g: 32, b: 32 },
        }
    }

    /// The red theme.
    #[verifier::when_used_as_spec(spec_red)]
    pub fn red() -> (theme: Theme)
        ensures
            theme == Theme::spec_red(),
    {
        Theme {
            text: Rgb { r: 48, g: 16, b: 16 },
            background: Rgb { r: 144, g: 48, b: 48 },
            highlight: Rgb { r: 192, g: 64, b: 64 },
            shadow: Rgb { r: 96, g: 32, b: 32 },
        }
    }

    pub open spec fn spec_green() -> Theme {
        Theme {
            text: Rgb { r: 16, g: 48, b: 16 },
            background: Rgb { r: 48, g: 144, b: 48 },
            highlight: Rgb { r: 64, g: 192, b: 64 },
            shadow: Rgb { r: 32, g: 96, b: 32 },
        }
    }

    /// The green theme.
    #[verifier::when_used_as_spec(spec_green)]
    pub fn green() -> (theme: Theme)
        ensures
            theme == Theme::spec_green(),
    {
        Theme {
            text: Rgb { r: 16, g: 48, b: 16 },
            background: Rgb { r: 48, g: 144, b: 48 },
            highlight: Rgb { r: 64, g: 192, b: 64 },
            shadow: Rgb { r: 32, g: 96, b: 32 },
        }
    }
}

/// A button: its label, its colours, its state and the room left free
/// around it.
#[derive(Debug)]
pub struct Button {
    pub label: String,
    pub theme: Theme,
    pub state: ButtonState,
    /// Room left free at the top, the right, the bottom and the left.
    pub padding: (u16, u16, u16, u16),
}

/// The colours that a button is drawn with.
#[derive(Debug, Clone, Copy, PartialEq, Eq, Structural)]
pub struct ButtonColors {
    pub background: Rgb,
    pub text: Rgb,
    /// Colour of the line along the lower edge.
    pub shadow: Rgb,
    /// Colour of the line along the upper edge.
    pub highlight: Rgb,
}

/// Where the parts of a button are drawn.
#[derive(Debug, Clone, Copy, PartialEq, Eq, Structural)]
pub struct ButtonFrame {
    /// The button without the room around it.
    pub area: Rect,
    /// The line along the upper edge is drawn, on the first line of `area`.
    pub top_line: bool,
    /// The line along the lower edge is drawn, on the last line of `area`.
    pub bottom_line: bool,
    /// Column at which the label begins.
    pub label_x: u16,
    /// Line of the label.
    pub label_y: u16,
}

/// The colours of a theme in a state: a selected button has the highlight
/// for its background, an active one has shadow and highlight exchanged.
pub open spec fn state_colors(theme: Theme, state: ButtonState) -> ButtonColors {
    match state {
        ButtonState::Normal => ButtonColors {
            background: theme.background,
            text: theme.text,
            shadow: theme.shadow,
            highlight: theme.highlight,
        },
        ButtonState::Selected => ButtonColors {
            background: theme.highlight,
            text: theme.text,
            shadow: theme.shadow,
            highlight: theme.highlight,
        },
        ButtonState::Active => ButtonColors {
            background: theme.background,
            text: theme.text,
            shadow: theme.highlight,
            highlight: theme.shadow,
        },
    }
}

/// The room of `padding` fits into `area`.
pub open spec fn padding_fits(area: Rect, padding: (u16, u16, u16, u16)) -> bool {
    padding.3 + padding.1 <= area.width && padding.0 + padding.2 <= area.height
}

/// Where a button with `padding` and a label of `label_width` columns is
/// drawn in `area`: the lines along the edges as far as there are lines
/// for them, the label in the middle.
pub open spec fn framed(area: Rect, padding: (u16, u16, u16, u16), label_width: u16) -> ButtonFrame {
    let inner = Rect {
        x: (area.x + padding.3) as u16,
        y: (area.y + padding.0) as u16,
        width: (area.width - padding.3 - padding.1) as u16,
        height: (area.height - padding.0 - padding.2) as u16,
    };
    ButtonFrame {
        area: inner,
        top_line: inner.height > 2,
        bottom_line: inner.height > 1,
        label_x: (inner.x + (if inner.width > label_width {
            inner.width - label_width
        } else {
            0
        }) / 2) as u16,
        label_y: (inner.y + (if inner.height > 1 { inner.height - 1 } else { 0 }) / 2) as u16,
    }
}

impl Button {
    /// A button in the blue theme and the normal state, with no room
    /// around it.
    pub fn new(label: &str) -> (button: Button)
        ensures
            button.label@ == label@,
            button.theme == Theme::spec_blue(),
            button.state == ButtonState::Normal,
            button.padding == (0u16, 0u16, 0u16, 0u16),
    {
        Button {
            label: String::from_str(label),
            theme: Theme::blue(),
            state: ButtonState::Normal,
            padding: (0, 0, 0, 0),
        }
    }

    pub fn theme(self, theme: Theme) -> (button: Button)
        ensures
            button.theme == theme,
            button.label == self.label,
            button.state == self.state,
            button.padding == self.padding,
    {
        let mut button = self;
        button.theme = theme;
        button
    }

    pub fn state(self, state: ButtonState) -> (button: Button)
        ensures
            button.state == state,
            button.label == self.label,
            button.theme == self.theme,
            button.padding == self.padding,
    {
        let mut button = self;
        button.state = state;
        button
    }

    /// Sets the room around the button: top, right, bottom, left.
    pub fn padding(self, padding: (u16, u16, u16, u16)) -> (button: Button)
        ensures
            button.padding == padding,
            button.label == self.label,
            button.theme == self.theme,
            button.state == self.state,
    {
        let mut button = self;
        button.padding = padding;
        button
    }

    /// The colours for the button's state.
    pub fn colors(&self) -> (colors: ButtonColors)
        ensures
            colors == state_colors(self.theme, self.state),
    {
        let theme = self.theme;
        match self.state {
            ButtonState::Normal => ButtonColors {
                background: theme.background,
                text: theme.text,
                shadow: theme.shadow,
                highlight: theme.highlight,
            },
            ButtonState::Selected => ButtonColors {
                background: theme.highlight,
                text: theme.text,
                shadow: theme.shadow,
                highlight: theme.highlight,
            },
            ButtonState::Active => ButtonColors {
                background: theme.background,
                text: theme.text,
                shadow: theme.highlight,
                highlight: theme.shadow,
            },
        }
    }

    /// Whether the room around the button fits into `area`.
    pub fn fits(&self, area: Rect) -> (yes: bool)
        ensures
            yes == padding_fits(area, self.padding),
    {
        let (top, right, bottom, left) = self.padding;
        left <= area.width && right <= area.width - left && top <= area.height && bottom
            <= area.height - top
    }

    /// Where the button is drawn in `area`, for a label that takes
    /// `label_width` columns.
    pub fn render(&self, area: Rect, label_width: u16) -> (frame: ButtonFrame)
        requires
            area.wf(),
            padding_fits(area, self.padding),
        ensures
            frame == framed(area, self.padding, label_width),
            frame.area.wf(),
            frame.area.within(area),
    {
        let (top, right, bottom, left) = self.padding;
        let inner = Rect {
            x: area.x + left,
            y: area.y + top,
            width: area.width - (left + right),
            height: area.height - (top + bottom),
        };
        let slack: u16 = if inner.width > label_width { inner.width - label_width } else { 0 };
        let lines: u16 = if inner.height > 1 { inner.height - 1 } else { 0 };
        ButtonFrame {
            area: inner,
            top_line: inner.height > 2,
            bottom_line: inner.height > 1,
            label_x: inner.x + slack / 2,
            label_y: inner.y + lines / 2,
        }
    }
}

/// The state of the mode button: active in the frame after it was
/// pressed, selected while the cursor is on it, normal otherwise.
pub fn button_state(focused: bool, pressed: bool) -> (state: ButtonState)
    ensures
        state == if !focused {
            ButtonState::Normal
        } else if pressed {
            ButtonState::Active
        } else {
            ButtonState::Selected
        },
{
    if focused {
        if pressed {
            ButtonState::Active
        } else {
            ButtonState::Selected
        }
    } else {
        ButtonState::Normal
    }
}

} // verus!
