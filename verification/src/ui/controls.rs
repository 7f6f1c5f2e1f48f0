//! What the keys do: which control has the cursor, whether the search box
//! is edited, and what a key changes.

use vstd::prelude::*;
use crate::ui::input::{clamped, SearchInput};
use crate::ui::list::{OptionList, SearchEnum};

verus! {

/// The control that has the cursor.
#[derive(Debug, Clone, Copy, PartialEq, Eq, Structural)]
pub enum CurrentElement {
    /// The search box.
    Search,
    /// The button that opens the mode selector.
    Filter,
    /// The mode selector.
    Modesel,
}

#[derive(Debug, Clone, Copy, PartialEq, Eq, Structural)]
pub enum InputMode {
    /// Keys move between the controls.
    Normal,
    /// Keys go into the search box.
    Editing,
}

/// A key of the keyboard.
#[derive(Debug, Clone, Copy, PartialEq, Eq, Structural)]
pub enum Key {
    Char(char),
    Enter,
    Esc,
    Left,
    Right,
    Up,
    Down,
    Backspace,
    Delete,
    Other,
}

/// What is left for the caller to do after a key.
#[derive(Debug, Clone, Copy, PartialEq, Eq, Structural)]
pub struct KeyEffect {
    /// Run the query that the search box holds.
    pub search: bool,
    /// Forget what every cell of the grid was last drawn at.
    pub invalidate_images: bool,
    /// Show the notice that the space bar was pressed.
    pub space_notice: bool,
}

/// The state of the controls.
#[derive(Debug)]
pub struct Controls {
    pub input: SearchInput,
    pub input_mode: InputMode,
    pub current_element: CurrentElement,
    /// The mode button was pressed since the last frame.
    pub button_pressed: bool,
    pub modesel_open: bool,
    pub modesel_list: OptionList,
    pub mode: SearchEnum,
    pub exit: bool,
    /// The screen has to be cleared before the next frame.
    pub clear_terminal: bool,
}

/// The characters of the lower case form of `c`, in order.
pub uninterp spec fn lowercase_of(c: char) -> Seq<char>;

/// The characters of the upper case form of `c`, in order.
pub uninterp spec fn uppercase_of(c: char) -> Seq<char>;

/// The characters that `char::to_lowercase` of std yields for `c`, in its
/// order. The contract names them.
#[verifier::external_body]
fn lowercase(c: char) -> (out: Vec<char>)
    ensures
        out@ == lowercase_of(c),
{
    c.to_lowercase().collect()
}

/// The characters that `char::to_uppercase` of std yields for `c`, in its
/// order. The contract names them.
#[verifier::external_body]
fn uppercase(c: char) -> (out: Vec<char>)
    ensures
        out@ == uppercase_of(c),
{
    c.to_uppercase().collect()
}

/// The first of the characters, or `fallback` where there is none.
pub open spec fn first_or(chars: Seq<char>, fallback: char) -> char {
    if chars.len() > 0 {
        chars[0]
    } else {
        fallback
    }
}

/// The first of the characters, or `fallback` where there is none.
pub fn first_char(chars: &Vec<char>, fallback: char) -> (c: char)
    ensures
        c == first_or(chars@, fallback),
{
    if chars.len() > 0 {
        chars[0]
    } else {
        fallback
    }
}

/// The character in lower case: the first character of its lower case
/// form.
pub open spec fn lowered(c: char) -> char {
    first_or(lowercase_of(c), c)
}

/// The character in upper case: the first character of its upper case
/// form.
pub open spec fn raised(c: char) -> char {
    first_or(uppercase_of(c), c)
}

/// A character in lower case.
pub fn to_lower(c: char) -> (low: char)
    ensures
        low == lowered(c),
{
    let chars = lowercase(c);
    first_char(&chars, c)
}

/// A character in upper case.
pub fn to_upper(c: char) -> (up: char)
    ensures
        up == raised(c),
{
    let chars = uppercase(c);
    first_char(&chars, c)
}

/// The key as the controls read it: a character in lower case.
pub open spec fn folded(key: Key) -> Key {
    match key {
        Key::Char(c) => Key::Char(lowered(c)),
        other => other,
    }
}

/// The character that a character key puts into the search box.
pub open spec fn typed(c: char, shift: bool) -> char {
    if shift {
        raised(lowered(c))
    } else {
        lowered(c)
    }
}

impl Controls {
    pub open spec fn wf(&self) -> bool {
        &&& self.input.wf()
        &&& self.modesel_list.wf()
    }

    /// Everything but the search box is as in `before`.
    pub open spec fn same_controls(&self, before: Controls) -> bool {
        &&& self.input_mode == before.input_mode
        &&& self.current_element == before.current_element
        &&& self.button_pressed == before.button_pressed
        &&& self.modesel_open == before.modesel_open
        &&& self.modesel_list == before.modesel_list
        &&& self.mode == before.mode
        &&& self.exit == before.exit
        &&& self.clear_terminal == before.clear_terminal
    }

    /// `self` and `effect` are what the folded key `key` makes of `before`
    /// while keys move between the controls.
    ///
    /// `r` asks for a cleared screen and the space bar for its notice,
    /// wherever the cursor is. On the search box `c` empties it, `q` ends
    /// the program, Enter begins editing and Right goes to the mode button.
    /// On the mode button `q` ends the program, Left goes back and Enter
    /// opens or closes the selector and puts the cursor on its first line.
    /// In the selector Up and Down move its cursor, the space bar checks
    /// the line under it, Enter checks it and leaves, `q` and Esc leave.
    pub open spec fn normal_step(&self, before: Controls, key: Key, effect: KeyEffect) -> bool {
        &&& self.input_mode == (if before.current_element == CurrentElement::Search && key
            == Key::Enter {
            InputMode::Editing
        } else {
            before.input_mode
        })
        &&& self.clear_terminal == (before.clear_terminal || key == Key::Char('r'))
        &&& effect.space_notice == (key == Key::Char(' '))
        &&& !effect.search
        &&& match before.current_element {
            CurrentElement::Search => {
                &&& self.exit == (before.exit || key == Key::Char('q'))
                &&& self.current_element == (if key == Key::Right {
                    CurrentElement::Filter
                } else {
                    CurrentElement::Search
                })
                &&& if key == Key::Char('c') {
                    self.input.text@.len() == 0 && self.input.char_index == 0
                } else {
                    self.input == before.input
                }
                &&& self.button_pressed == before.button_pressed
                &&& self.modesel_open == before.modesel_open
                &&& self.modesel_list == before.modesel_list
                &&& self.mode == before.mode
                &&& !effect.invalidate_images
            },
            CurrentElement::Filter => {
                &&& self.exit == (before.exit || key == Key::Char('q'))
                &&& self.current_element == (if key == Key::Left {
                    CurrentElement::Search
                } else if key == Key::Enter {
                    CurrentElement::Modesel
                } else {
                    CurrentElement::Filter
                })
                &&& self.input == before.input
                &&& self.mode == before.mode
                &&& !effect.invalidate_images
                &&& if key == Key::Enter {
                    &&& self.button_pressed
                    &&& self.modesel_open == !before.modesel_open
                    &&& self.modesel_list.items == before.modesel_list.items
                    &&& self.modesel_list.selected == OptionList::selection(
                        before.modesel_list.items.len() as int,
                        Some(0usize),
                    )
                } else {
                    &&& self.button_pressed == before.button_pressed
                    &&& self.modesel_open == before.modesel_open
                    &&& self.modesel_list == before.modesel_list
                }
            },
            CurrentElement::Modesel => {
                let leaves = key == Key::Char('q') || key == Key::Esc || key == Key::Enter;
                let checks = key == Key::Enter || key == Key::Char(' ');
                &&& self.exit == before.exit
                &&& self.input == before.input
                &&& self.button_pressed == before.button_pressed
                &&& self.current_element == (if leaves {
                    CurrentElement::Filter
                } else {
                    CurrentElement::Modesel
                })
                &&& self.modesel_open == (before.modesel_open && !leaves)
                &&& effect.invalidate_images == leaves
                &&& if checks {
                    exists|mode: Option<SearchEnum>|
                        {
                            &&& #[trigger] self.modesel_list.toggled_from(
                                before.modesel_list,
                                mode,
                            )
                            &&& self.mode == (match mode {
                                Some(m) => m,
                                None => before.mode,
                            })
                        }
                } else {
                    &&& self.mode == before.mode
                    &&& self.modesel_list.items == before.modesel_list.items
                    &&& self.modesel_list.selected == (if key == Key::Down {
                        before.modesel_list.next_selection()
                    } else if key == Key::Up {
                        before.modesel_list.previous_selection()
                    } else {
                        before.modesel_list.selected
                    })
                }
            },
        }
    }

    /// `self` and `effect` are what a pressed key makes of `before` while
    /// the search box is edited: Enter runs the query, Esc ends the
    /// editing, the character of a character key goes in at the cursor, and
    /// the other keys move the cursor or take a character out.
    pub open spec fn editing_step(&self, before: Controls, key: Key, effect: KeyEffect) -> bool {
        let len = before.input.text.len() as int;
        let at = before.input.char_index as int;
        &&& self.same_controls(
            Controls {
                input_mode: if key == Key::Esc { InputMode::Normal } else { before.input_mode },
                ..before
            },
        )
        &&& effect == (KeyEffect {
            search: key == Key::Enter,
            invalidate_images: false,
            space_notice: false,
        })
        &&& match key {
            Key::Char(c) => if len < usize::MAX {
                self.input.text@ == before.input.text@.insert(at, c) && self.input.char_index == at
                    + 1
            } else {
                self.input == before.input
            },
            Key::Backspace => if at > 0 {
                self.input.text@ == before.input.text@.remove(at - 1) && self.input.char_index
                    == at - 1
            } else {
                self.input == before.input
            },
            Key::Delete => self.input.char_index == at && if at < len {
                self.input.text@ == before.input.text@.remove(at)
            } else {
                self.input.text == before.input.text
            },
            Key::Left => self.input.text == before.input.text && self.input.char_index == (if at
                > 0 {
                at - 1
            } else {
                0
            }),
            Key::Right => self.input.text == before.input.text && self.input.char_index
                == clamped(at + 1, len),
            _ => self.input == before.input,
        }
    }

    /// The controls at the start of the program: the cursor on the empty
    /// search box, the selector closed with its first mode checked.
    pub fn new() -> (controls: Controls)
        ensures
            controls.wf(),
            controls.input.text@.len() == 0,
            controls.input.char_index == 0,
            controls.modesel_list.selected is None,
            controls.modesel_list.captions() == OptionList::mode_captions(),
            controls.input_mode == InputMode::Normal,
            controls.current_element == CurrentElement::Search,
            !controls.button_pressed,
            !controls.modesel_open,
            controls.modesel_list.only_checked(0),
            controls.mode == SearchEnum::Search,
            !controls.exit,
            !controls.clear_terminal,
    {
        Controls {
            input: SearchInput::new(),
            input_mode: InputMode::Normal,
            current_element: CurrentElement::Search,
            button_pressed: false,
            modesel_open: false,
            modesel_list: OptionList::modes(),
            mode: SearchEnum::Search,
            exit: false,
            clear_terminal: false,
        }
    }

    /// Ends the program at the next turn of its loop.
    pub fn exit(&mut self)
        ensures
            final(self).exit,
            final(self).input == old(self).input,
            final(self).same_controls(Controls { exit: true, ..*old(self) }),
    {
        self.exit = true;
    }

    /// What a key does while keys move between the controls. A character
    /// key holds the character in lower case.
    pub fn normal_key(&mut self, key: Key) -> (effect: KeyEffect)
        requires
            old(self).wf(),
        ensures
            final(self).wf(),
            final(self).normal_step(*old(self), key, effect),
    {
        let mut effect = KeyEffect { search: false, invalidate_images: false, space_notice: false };
        if key == Key::Char('r') {
            self.clear_terminal = true;
        }
        if key == Key::Char(' ') {
            effect.space_notice = true;
        }
        match self.current_element {
            CurrentElement::Search => match key {
                Key::Char('c') => self.input.clear_search(),
                Key::Char('q') => self.exit(),
                Key::Right => self.current_element = CurrentElement::Filter,
                Key::Left => self.current_element = CurrentElement::Search,
                Key::Enter => self.input_mode = InputMode::Editing,
                _ => {},
            },
            CurrentElement::Filter => match key {
                Key::Char('q') => self.exit(),
                Key::Right => self.current_element = CurrentElement::Filter,
                Key::Left => self.current_element = CurrentElement::Search,
                Key::Enter => {
                    self.button_pressed = true;
                    self.modesel_open = !self.modesel_open;
                    self.current_element = CurrentElement::Modesel;
                    self.modesel_list.select(Some(0));
                },
                _ => {},
            },
            CurrentElement::Modesel => match key {
                Key::Char('q') | Key::Esc => {
                    self.modesel_open = false;
                    self.current_element = CurrentElement::Filter;
                    effect.invalidate_images = true;
                },
                Key::Enter => {
                    self.toggle_status();
                    self.modesel_open = false;
                    self.current_element = CurrentElement::Filter;
                    effect.invalidate_images = true;
                },
                Key::Char(' ') => self.toggle_status(),
                Key::Down => self.modesel_list.select_next(),
                Key::Up => self.modesel_list.select_previous(),
                _ => {},
            },
        }
        effect
    }

    /// Checks the line under the selector's cursor and takes its mode.
    pub fn toggle_status(&mut self)
        requires
            old(self).wf(),
        ensures
            final(self).wf(),
            final(self).input == old(self).input,
            final(self).same_controls(
                Controls {
                    modesel_list: final(self).modesel_list,
                    mode: final(self).mode,
                    ..*old(self)
                },
            ),
            exists|mode: Option<SearchEnum>|
                {
                    &&& #[trigger] final(self).modesel_list.toggled_from(
                        old(self).modesel_list,
                        mode,
                    )
                    &&& final(self).mode == (match mode {
                        Some(m) => m,
                        None => old(self).mode,
                    })
                },
    {
        let mode = self.modesel_list.toggle_status();
        match mode {
            Some(m) => self.mode = m,
            None => {},
        }
        assert(self.modesel_list.toggled_from(old(self).modesel_list, mode));
    }

    /// What a key that goes down does while the search box is edited. A
    /// character key holds the character that goes in.
    pub fn editing_key(&mut self, key: Key) -> (effect: KeyEffect)
        requires
            old(self).wf(),
        ensures
            final(self).wf(),
            final(self).editing_step(*old(self), key, effect),
    {
        let mut effect = KeyEffect { search: false, invalidate_images: false, space_notice: false };
        match key {
            Key::Enter => effect.search = true,
            Key::Char(c) => self.input.enter_char(c),
            Key::Backspace => self.input.delete_char(),
            Key::Delete => self.input.delete_right(),
            Key::Left => self.input.move_cursor_left(),
            Key::Right => self.input.move_cursor_right(),
            Key::Esc => self.input_mode = InputMode::Normal,
            _ => {},
        }
        effect
    }
}

impl Controls {
    /// What a key does.
    ///
    /// A character key is read in lower case. While keys move between the
    /// controls every key event counts, `normal_step` says for what. While
    /// the search box is edited only a key that goes down counts,
    /// `editing_step` says for what; a character goes in in lower case, or
    /// with shift in the upper case of that.
    pub fn handle_key(&mut self, key: Key, pressed: bool, shift: bool) -> (effect: KeyEffect)
        requires
            old(self).wf(),
        ensures
            final(self).wf(),
            match old(self).input_mode {
                InputMode::Normal => final(self).normal_step(*old(self), folded(key), effect),
                InputMode::Editing if !pressed => *final(self) == *old(self) && effect
                    == (KeyEffect { search: false, invalidate_images: false, space_notice: false }),
                InputMode::Editing => final(self).editing_step(
                    *old(self),
                    match key {
                        Key::Char(c) => Key::Char(typed(c, shift)),
                        other => other,
                    },
                    effect,
                ),
            },
    {
        match self.input_mode {
            InputMode::Normal => {
                let key = match key {
                    Key::Char(c) => Key::Char(to_lower(c)),
                    other => other,
                };
                self.normal_key(key)
            },
            InputMode::Editing => {
                if !pressed {
                    return KeyEffect { search: false, invalidate_images: false, space_notice: false };
                }
                let key = match key {
                    Key::Char(c) => {
                        let low = to_lower(c);
                        Key::Char(if shift { to_upper(low) } else { low })
                    },
                    other => other,
                };
                self.editing_key(key)
            },
        }
    }
}

/// One part of the help line.
#[derive(Debug, Clone, Copy)]
pub struct HelpSpan {
    pub text: &'static str,
    pub bold: bool,
}

/// What a mode does with the query, in a sentence.
pub fn mode_hint(mode: SearchEnum) -> (hint: &'static str)
    ensures
        hint@ == hint_text(mode),
{
    match mode {
        SearchEnum::Search => "The images will be the most similar to the prompt",
        SearchEnum::NegativePrompt => "The images will be the least similar to the prompt",
        SearchEnum::Image2Image => "A absolute path that will be matched to similar images",
        SearchEnum::Ranking => "Two criteria a \"high-low\" this is a trait followed by the inverse",
    }
}

/// The text of a mode's hint.
pub open spec fn hint_text(mode: SearchEnum) -> Seq<char> {
    match mode {
        SearchEnum::Search => "The images will be the most similar to the prompt"@,
        SearchEnum::NegativePrompt => "The images will be the least similar to the prompt"@,
        SearchEnum::Image2Image => "A absolute path that will be matched to similar images"@,
        SearchEnum::Ranking => "Two criteria a \"high-low\" this is a trait followed by the inverse"@,
    }
}

/// The parts of the help line, each with its text and whether it is bold.
pub open spec fn help_spans(
    input_mode: InputMode,
    element: CurrentElement,
    mode: SearchEnum,
) -> Seq<(Seq<char>, bool)> {
    match (input_mode, element) {
        (InputMode::Normal, CurrentElement::Search) => seq![
            ("Press "@, false),
            ("q"@, true),
            (" to exit, "@, false),
            ("c"@, true),
            (" to clear the search, "@, false),
            ("Enter"@, true),
            (" to start editing"@, false),
            ("    "@, false),
            (hint_text(mode), false),
        ],
        (InputMode::Normal, CurrentElement::Filter) => seq![
            ("Press "@, false),
            ("q"@, true),
            (" to exit, "@, false),
            ("Enter"@, true),
            (" to select mode"@, false),
        ],
        (InputMode::Normal, CurrentElement::Modesel) => seq![],
        (InputMode::Editing, _) => seq![
            ("Press "@, false),
            ("Esc"@, true),
            (" to stop editing, "@, false),
            ("Enter"@, true),
            (" to search for images"@, false),
        ],
    }
}

/// The parts of a help line as plain pairs.
pub open spec fn span_views(spans: Seq<HelpSpan>) -> Seq<(Seq<char>, bool)> {
    Seq::new(spans.len(), |i: int| (spans[i].text@, spans[i].bold))
}

fn plain(text: &'static str) -> (span: HelpSpan)
    ensures
        span.text@ == text@,
        !span.bold,
{
    HelpSpan { text, bold: false }
}

fn bold(text: &'static str) -> (span: HelpSpan)
    ensures
        span.text@ == text@,
        span.bold,
{
    HelpSpan { text, bold: true }
}

/// The help line for the state of the controls, and whether it blinks:
/// it does while the cursor is on the search box and the box is not edited.
pub fn help_line(input_mode: InputMode, element: CurrentElement, mode: SearchEnum) -> (out: (
    Vec<HelpSpan>,
    bool,
))
    ensures
        span_views(out.0@) == help_spans(input_mode, element, mode),
        out.1 == (input_mode == InputMode::Normal && element == CurrentElement::Search),
{
    let mut spans: Vec<HelpSpan> = Vec::new();
    let mut blink = false;
    match input_mode {
        InputMode::Normal => match element {
            CurrentElement::Search => {
                spans.push(plain("Press "));
                spans.push(bold("q"));
                spans.push(plain(" to exit, "));
                spans.push(bold("c"));
                spans.push(plain(" to clear the search, "));
                spans.push(bold("Enter"));
                spans.push(plain(" to start editing"));
                spans.push(plain("    "));
                spans.push(plain(mode_hint(mode)));
                blink = true;
            },
            CurrentElement::Filter => {
                spans.push(plain("Press "));
                spans.push(bold("q"));
                spans.push(plain(" to exit, "));
                spans.push(bold("Enter"));
                spans.push(plain(" to select mode"));
            },
            CurrentElement::Modesel => {},
        },
        InputMode::Editing => {
            spans.push(plain("Press "));
            spans.push(bold("Esc"));
            spans.push(plain(" to stop editing, "));
            spans.push(bold("Enter"));
            spans.push(plain(" to search for images"));
        },
    }
    assert(span_views(spans@) =~= help_spans(input_mode, element, mode));
    (spans, blink)
}

} // verus!
