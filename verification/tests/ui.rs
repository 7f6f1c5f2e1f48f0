use imgsearch::layout::Rect;
use imgsearch::ui::button::{button_state, Button, ButtonColors, ButtonState, Rgb, Theme};
use imgsearch::ui::controls::{
    first_char, help_line, mode_hint, to_lower, to_upper, Controls, CurrentElement, InputMode, Key,
    KeyEffect,
};
use imgsearch::ui::input::{cursor_column, SearchInput};
use imgsearch::ui::list::{
    alternate_colors, mode_of_label, LineTone, OptionItem, OptionList, OptionStatus, RowShade,
    SearchEnum,
};
use imgsearch::ui::message::{
    Message, MessageSeverity, Messages, Toast, ToastColor, TOAST_HEIGHT,
};

const NOTHING: KeyEffect = KeyEffect { search: false, invalidate_images: false, space_notice: false };

fn statuses(list: &OptionList) -> Vec<OptionStatus> {
    list.items.iter().map(|i| i.status).collect()
}

fn text_of(input: &SearchInput) -> String {
    input.text.iter().collect()
}

fn typed(text: &str) -> SearchInput {
    let mut input = SearchInput::new();
    for c in text.chars() {
        input.enter_char(c);
    }
    input
}

#[test]
fn a_message_keeps_what_it_was_made_with() {
    let msg = Message::new("disk full".to_string(), MessageSeverity::Error, 3000, 1234);
    assert_eq!(msg.text, "disk full");
    assert_eq!(msg.severity, MessageSeverity::Error);
    assert_eq!(msg.duration, 3000);
    assert_eq!(msg.time, 1234);
}

#[test]
fn a_default_message_is_stamped_with_the_time_it_is_made_at() {
    let empty = Message::default(5000);
    assert_eq!(empty.text, "");
    assert_eq!(empty.severity, MessageSeverity::Info);
    assert_eq!(empty.duration, 3000);
    assert_eq!(empty.time, 5000);
    assert!(empty.is_live(5000));
    assert!(empty.is_live(7999));
    assert!(!empty.is_live(8000));
    let mut all = Messages::default();
    all.add(Message::default(5000));
    all.expire(5001);
    assert_eq!(all.messages.len(), 1);
    assert_eq!(Message::default(0).time, 0);
}

#[test]
fn a_message_is_shown_until_its_time_has_passed() {
    let msg = Message::new("x".to_string(), MessageSeverity::Info, 3000, 1000);
    assert!(msg.is_live(1000));
    assert!(msg.is_live(3999));
    assert!(!msg.is_live(4000));
    assert!(!msg.is_live(u64::MAX));
    assert!(msg.is_live(0));
    assert_eq!(msg.remaining(1000), 3000);
    assert_eq!(msg.remaining(2500), 1500);
    assert_eq!(msg.remaining(3999), 1);
    assert_eq!(msg.remaining(4000), 0);
    assert_eq!(msg.remaining(500), 3000);
    let never = Message::new("x".to_string(), MessageSeverity::Info, 0, 1000);
    assert!(!never.is_live(1000));
}

#[test]
fn messages_are_added_at_the_end_and_expire_in_place() {
    let mut all = Messages::default();
    assert!(all.messages.is_empty());
    all.add(Message::new("a".to_string(), MessageSeverity::Info, 1000, 0));
    all.add(Message::new("b".to_string(), MessageSeverity::Warning, 5000, 0));
    all.add(Message::new("c".to_string(), MessageSeverity::Error, 1000, 500));
    all.add(Message::new("d".to_string(), MessageSeverity::Error, 3000, 900));
    let texts = |m: &Messages| m.messages.iter().map(|x| x.text.clone()).collect::<Vec<_>>();
    assert_eq!(texts(&all), vec!["a", "b", "c", "d"]);
    all.expire(999);
    assert_eq!(texts(&all), vec!["a", "b", "c", "d"]);
    all.expire(1000);
    assert_eq!(texts(&all), vec!["b", "c", "d"]);
    all.expire(1500);
    assert_eq!(texts(&all), vec!["b", "d"]);
    assert_eq!(all.messages[1].severity, MessageSeverity::Error);
    assert_eq!(all.messages[1].time, 900);
    all.expire(10_000);
    assert!(all.messages.is_empty());
}

#[test]
fn notifications_stack_below_each_other_at_the_right_edge() {
    assert_eq!(TOAST_HEIGHT, 3);
    let mut all = Messages::default();
    all.add(Message::new("hello".to_string(), MessageSeverity::Info, 1, 0));
    all.add(Message::new("".to_string(), MessageSeverity::Info, 1, 0));
    all.add(Message::new("grüß".to_string(), MessageSeverity::Info, 1, 0));
    assert_eq!(
        all.placements(80),
        vec![
            Rect { x: 70, y: 1, width: 9, height: 3 },
            Rect { x: 75, y: 5, width: 4, height: 3 },
            Rect { x: 69, y: 9, width: 10, height: 3 },
        ]
    );
    assert_eq!(all.placements(9)[0], Rect { x: 0, y: 1, width: 9, height: 3 });
    assert_eq!(all.placements(10)[0], Rect { x: 0, y: 1, width: 9, height: 3 });
    assert_eq!(all.placements(11)[0], Rect { x: 1, y: 1, width: 9, height: 3 });
    assert!(Messages::default().placements(80).is_empty());
}

#[test]
fn severity_gives_title_and_colour() {
    assert_eq!(MessageSeverity::Error.title(), "Error");
    assert_eq!(MessageSeverity::Warning.title(), "Warning");
    assert_eq!(MessageSeverity::Info.title(), "Info");
    assert_eq!(MessageSeverity::Error.color(), ToastColor::Red);
    assert_eq!(MessageSeverity::Warning.color(), ToastColor::Yellow);
    assert_eq!(MessageSeverity::Info.color(), ToastColor::White);
}

#[test]
fn an_item_keeps_what_it_was_made_with() {
    let item = OptionItem::new(OptionStatus::Checked, "Ranking", SearchEnum::Ranking);
    assert_eq!(item.option, "Ranking");
    assert_eq!(item.status, OptionStatus::Checked);
    assert_eq!(item.search_type, SearchEnum::Ranking);
    assert_eq!(item.line(), (" ✓ Ranking".to_string(), LineTone::Checked));
    let other = OptionItem::new(OptionStatus::Unchecked, "Search", SearchEnum::Search);
    assert_eq!(other.line(), (" ☐ Search".to_string(), LineTone::Plain));
}

#[test]
fn rows_alternate_their_background() {
    assert_eq!(alternate_colors(0), RowShade::Normal);
    assert_eq!(alternate_colors(1), RowShade::Alternate);
    assert_eq!(alternate_colors(2), RowShade::Normal);
    assert_eq!(alternate_colors(usize::MAX), RowShade::Alternate);
}

#[test]
fn the_selector_starts_with_search_checked() {
    let list = OptionList::modes();
    assert_eq!(list.selected, None);
    let lines: Vec<(String, SearchEnum)> =
        list.items.iter().map(|i| (i.option.clone(), i.search_type)).collect();
    assert_eq!(
        lines,
        vec![
            ("Search".to_string(), SearchEnum::Search),
            ("Negative Prompt".to_string(), SearchEnum::NegativePrompt),
            ("Ranking".to_string(), SearchEnum::Ranking),
            ("Image 2 Image".to_string(), SearchEnum::Image2Image),
        ]
    );
    assert_eq!(
        statuses(&list),
        vec![
            OptionStatus::Checked,
            OptionStatus::Unchecked,
            OptionStatus::Unchecked,
            OptionStatus::Unchecked
        ]
    );
}

#[test]
fn a_list_is_built_from_its_entries() {
    let list = OptionList::from_entries(vec![
        (OptionStatus::Unchecked, "one", SearchEnum::Ranking),
        (OptionStatus::Checked, "two", SearchEnum::Search),
    ]);
    assert_eq!(list.selected, None);
    assert_eq!(list.items.len(), 2);
    assert_eq!(list.items[0].option, "one");
    assert_eq!(list.items[0].status, OptionStatus::Unchecked);
    assert_eq!(list.items[0].search_type, SearchEnum::Ranking);
    assert_eq!(list.items[1].option, "two");
    assert_eq!(list.items[1].status, OptionStatus::Checked);
    assert!(OptionList::from_entries(Vec::new()).items.is_empty());
}

#[test]
fn the_cursor_of_the_selector_stays_on_its_lines() {
    let mut list = OptionList::modes();
    list.select_next();
    assert_eq!(list.selected, Some(0));
    list.select_next();
    list.select_next();
    list.select_next();
    assert_eq!(list.selected, Some(3));
    list.select_next();
    assert_eq!(list.selected, Some(3));
    list.select_previous();
    assert_eq!(list.selected, Some(2));
    list.select(Some(0));
    list.select_previous();
    assert_eq!(list.selected, Some(0));
    list.select(Some(17));
    assert_eq!(list.selected, Some(3));
    list.select(None);
    assert_eq!(list.selected, None);
    list.select_previous();
    assert_eq!(list.selected, Some(3));
    let mut empty = OptionList::from_entries(Vec::new());
    empty.select_next();
    assert_eq!(empty.selected, None);
    empty.select_previous();
    assert_eq!(empty.selected, None);
    empty.select(Some(0));
    assert_eq!(empty.selected, None);
}

#[test]
fn toggling_checks_one_line_only() {
    let mut list = OptionList::modes();
    assert_eq!(list.toggle_status(), None);
    assert_eq!(statuses(&list)[0], OptionStatus::Checked);
    list.select(Some(2));
    assert_eq!(list.toggle_status(), Some(SearchEnum::Ranking));
    assert_eq!(
        statuses(&list),
        vec![
            OptionStatus::Unchecked,
            OptionStatus::Unchecked,
            OptionStatus::Checked,
            OptionStatus::Unchecked
        ]
    );
    assert_eq!(list.toggle_status(), Some(SearchEnum::Ranking));
    assert_eq!(statuses(&list)[2], OptionStatus::Checked);
    list.select(Some(1));
    assert_eq!(list.toggle_status(), Some(SearchEnum::NegativePrompt));
    assert_eq!(statuses(&list).iter().filter(|s| **s == OptionStatus::Checked).count(), 1);
    assert_eq!(list.items[1].option, "Negative Prompt");
}

#[test]
fn a_label_stands_for_its_mode() {
    assert_eq!(mode_of_label(&"Search".to_string()), SearchEnum::Search);
    assert_eq!(mode_of_label(&"Negative Prompt".to_string()), SearchEnum::NegativePrompt);
    assert_eq!(mode_of_label(&"Ranking".to_string()), SearchEnum::Ranking);
    assert_eq!(mode_of_label(&"Image 2 Image".to_string()), SearchEnum::Image2Image);
    assert_eq!(mode_of_label(&"ranking".to_string()), SearchEnum::Search);
    assert_eq!(mode_of_label(&"".to_string()), SearchEnum::Search);
}

#[test]
fn a_button_is_built_step_by_step() {
    let button = Button::new("Choose Mode");
    assert_eq!(button.label, "Choose Mode");
    assert_eq!(button.theme, Theme::blue());
    assert_eq!(button.state, ButtonState::Normal);
    assert_eq!(button.padding, (0, 0, 0, 0));
    let button = button.theme(Theme::red()).state(ButtonState::Active).padding((1, 2, 3, 4));
    assert_eq!(button.label, "Choose Mode");
    assert_eq!(button.theme, Theme::red());
    assert_eq!(button.state, ButtonState::Active);
    assert_eq!(button.padding, (1, 2, 3, 4));
    assert_eq!(Theme::green().background, Rgb { r: 48, g: 144, b: 48 });
    assert_eq!(Theme::blue().text, Rgb { r: 16, g: 24, b: 48 });
    assert_eq!(Theme::red().shadow, Rgb { r: 96, g: 32, b: 32 });
}

#[test]
fn the_state_of_a_button_picks_its_colours() {
    let blue = Theme::blue();
    let button = Button::new("x");
    assert_eq!(
        button.colors(),
        ButtonColors {
            background: blue.background,
            text: blue.text,
            shadow: blue.shadow,
            highlight: blue.highlight
        }
    );
    let button = button.state(ButtonState::Selected);
    assert_eq!(
        button.colors(),
        ButtonColors {
            background: blue.highlight,
            text: blue.text,
            shadow: blue.shadow,
            highlight: blue.highlight
        }
    );
    let button = button.state(ButtonState::Active);
    assert_eq!(
        button.colors(),
        ButtonColors {
            background: blue.background,
            text: blue.text,
            shadow: blue.highlight,
            highlight: blue.shadow
        }
    );
}

#[test]
fn a_button_draws_its_lines_where_there_is_room() {
    let button = Button::new("Choose Mode");
    let frame = button.render(Rect::new(60, 1, 60, 3), 11);
    assert_eq!(frame.area, Rect::new(60, 1, 60, 3));
    assert!(frame.top_line && frame.bottom_line);
    assert_eq!((frame.label_x, frame.label_y), (84, 2));
    let frame = button.render(Rect::new(0, 0, 10, 2), 11);
    assert!(!frame.top_line && frame.bottom_line);
    assert_eq!((frame.label_x, frame.label_y), (0, 0));
    let frame = button.render(Rect::new(0, 0, 10, 1), 4);
    assert!(!frame.top_line && !frame.bottom_line);
    assert_eq!((frame.label_x, frame.label_y), (3, 0));
    let padded = Button::new("ok").padding((1, 2, 1, 4));
    let frame = padded.render(Rect::new(10, 10, 20, 5), 2);
    assert_eq!(frame.area, Rect::new(14, 11, 14, 3));
    assert!(frame.top_line && frame.bottom_line);
    assert_eq!((frame.label_x, frame.label_y), (20, 12));
}

#[test]
fn the_mode_button_shows_focus_and_press() {
    assert_eq!(button_state(false, false), ButtonState::Normal);
    assert_eq!(button_state(false, true), ButtonState::Normal);
    assert_eq!(button_state(true, false), ButtonState::Selected);
    assert_eq!(button_state(true, true), ButtonState::Active);
}

#[test]
fn characters_go_in_at_the_cursor() {
    let mut input = typed("cat");
    assert_eq!(text_of(&input), "cat");
    assert_eq!(input.char_index, 3);
    assert_eq!(input.query(), "cat");
    input.move_cursor_left();
    input.move_cursor_left();
    input.enter_char('h');
    assert_eq!(text_of(&input), "chat");
    assert_eq!(input.char_index, 2);
    input.reset_cursor();
    input.enter_char('é');
    assert_eq!(input.query(), "échat");
    assert_eq!(input.char_index, 1);
    input.char_index = 99;
    input.enter_char('!');
    assert_eq!(input.query(), "échat!");
    assert_eq!(input.char_index, 6);
}

#[test]
fn the_cursor_stays_in_the_text() {
    let mut input = typed("ab");
    input.move_cursor_right();
    assert_eq!(input.char_index, 2);
    input.move_cursor_left();
    input.move_cursor_left();
    input.move_cursor_left();
    assert_eq!(input.char_index, 0);
    assert_eq!(input.clamp_cursor(1), 1);
    assert_eq!(input.clamp_cursor(2), 2);
    assert_eq!(input.clamp_cursor(3), 2);
    assert_eq!(input.clamp_cursor(usize::MAX), 2);
}

#[test]
fn deleting_takes_one_character_out() {
    let mut input = typed("héllo");
    input.delete_char();
    assert_eq!(input.query(), "héll");
    assert_eq!(input.char_index, 4);
    input.move_cursor_left();
    input.move_cursor_left();
    input.delete_char();
    assert_eq!(input.query(), "hll");
    assert_eq!(input.char_index, 1);
    input.delete_right();
    assert_eq!(input.query(), "hl");
    assert_eq!(input.char_index, 1);
    input.delete_char();
    assert_eq!(input.query(), "l");
    input.delete_char();
    assert_eq!(input.query(), "l");
    assert_eq!(input.char_index, 0);
    input.delete_right();
    assert_eq!(input.query(), "");
    input.delete_right();
    assert_eq!(input.query(), "");
}

#[test]
fn clearing_empties_the_box() {
    let mut input = typed("something");
    input.clear_search();
    assert_eq!(input.query(), "");
    assert_eq!(input.char_index, 0);
}

#[test]
fn the_byte_index_counts_utf8_bytes() {
    let mut input = typed("aé€😀b");
    assert_eq!(input.byte_index(), "aé€😀b".len());
    assert_eq!(input.byte_index(), 11);
    for (chars, bytes) in [(0usize, 0usize), (1, 1), (2, 3), (3, 6), (4, 10), (5, 11)] {
        input.char_index = chars;
        assert_eq!(input.byte_index(), bytes);
    }
    input.char_index = 40;
    assert_eq!(input.byte_index(), 11);
}

#[test]
fn the_cursor_is_drawn_behind_the_border() {
    assert_eq!(cursor_column(0, 0), 1);
    assert_eq!(cursor_column(10, 5), 16);
    assert_eq!(cursor_column(65534, 0), 65535);
    assert_eq!(cursor_column(65535, 0), 65535);
    assert_eq!(cursor_column(0, 70000), 65535);
    assert_eq!(cursor_column(0, 65534), 65535);
    assert_eq!(cursor_column(0, 65533), 65534);
}

#[test]
fn controls_start_on_the_search_box() {
    let c = Controls::new();
    assert_eq!(c.input_mode, InputMode::Normal);
    assert_eq!(c.current_element, CurrentElement::Search);
    assert_eq!(c.mode, SearchEnum::Search);
    assert!(!c.exit && !c.clear_terminal && !c.modesel_open && !c.button_pressed);
    assert!(c.input.text.is_empty());
    assert_eq!(c.modesel_list.items.len(), 4);
}

#[test]
fn editing_types_into_the_search_box() {
    let mut c = Controls::new();
    assert_eq!(c.handle_key(Key::Enter, true, false), NOTHING);
    assert_eq!(c.input_mode, InputMode::Editing);
    for (key, shift) in [('d', false), ('O', false), ('g', true), ('ß', false), ('é', true)] {
        assert_eq!(c.handle_key(Key::Char(key), true, shift), NOTHING);
    }
    assert_eq!(c.input.query(), "doGßÉ");
    assert_eq!(c.handle_key(Key::Char('x'), false, false), NOTHING);
    assert_eq!(c.input.query(), "doGßÉ");
    assert_eq!(c.handle_key(Key::Backspace, true, false), NOTHING);
    assert_eq!(c.handle_key(Key::Left, true, false), NOTHING);
    assert_eq!(c.handle_key(Key::Left, true, false), NOTHING);
    assert_eq!(c.handle_key(Key::Delete, true, false), NOTHING);
    assert_eq!(c.input.query(), "doß");
    assert_eq!(c.input.char_index, 2);
    assert_eq!(c.handle_key(Key::Right, true, false), NOTHING);
    assert_eq!(c.input.char_index, 3);
    assert_eq!(
        c.handle_key(Key::Enter, true, false),
        KeyEffect { search: true, invalidate_images: false, space_notice: false }
    );
    assert_eq!(c.input_mode, InputMode::Editing);
    assert_eq!(c.handle_key(Key::Char('q'), true, false), NOTHING);
    assert!(!c.exit);
    assert_eq!(c.handle_key(Key::Esc, true, false), NOTHING);
    assert_eq!(c.input_mode, InputMode::Normal);
    assert_eq!(c.input.query(), "doßq");
}

#[test]
fn keys_move_between_the_controls() {
    let mut c = Controls::new();
    c.handle_key(Key::Enter, true, false);
    c.handle_key(Key::Char('a'), true, false);
    c.handle_key(Key::Esc, true, false);
    assert_eq!(c.handle_key(Key::Right, true, false), NOTHING);
    assert_eq!(c.current_element, CurrentElement::Filter);
    assert_eq!(c.handle_key(Key::Right, true, false), NOTHING);
    assert_eq!(c.current_element, CurrentElement::Filter);
    assert_eq!(c.handle_key(Key::Char('c'), true, false), NOTHING);
    assert_eq!(c.input.query(), "a");
    assert_eq!(c.handle_key(Key::Left, true, false), NOTHING);
    assert_eq!(c.current_element, CurrentElement::Search);
    assert_eq!(c.handle_key(Key::Char('C'), true, false), NOTHING);
    assert_eq!(c.input.query(), "");
    assert_eq!(
        c.handle_key(Key::Char(' '), true, false),
        KeyEffect { search: false, invalidate_images: false, space_notice: true }
    );
    assert!(!c.clear_terminal);
    assert_eq!(c.handle_key(Key::Char('R'), false, false), NOTHING);
    assert!(c.clear_terminal);
    assert!(!c.exit);
    assert_eq!(c.handle_key(Key::Char('Q'), true, false), NOTHING);
    assert!(c.exit);
}

#[test]
fn the_selector_opens_picks_a_mode_and_closes() {
    let mut c = Controls::new();
    c.handle_key(Key::Right, true, false);
    assert_eq!(c.handle_key(Key::Enter, true, false), NOTHING);
    assert_eq!(c.current_element, CurrentElement::Modesel);
    assert!(c.modesel_open && c.button_pressed);
    assert_eq!(c.modesel_list.selected, Some(0));
    c.handle_key(Key::Down, true, false);
    c.handle_key(Key::Down, true, false);
    c.handle_key(Key::Down, true, false);
    c.handle_key(Key::Up, true, false);
    assert_eq!(c.modesel_list.selected, Some(2));
    assert_eq!(
        c.handle_key(Key::Char(' '), true, false),
        KeyEffect { search: false, invalidate_images: false, space_notice: true }
    );
    assert_eq!(c.mode, SearchEnum::Ranking);
    assert!(c.modesel_open);
    c.handle_key(Key::Up, true, false);
    assert_eq!(
        c.handle_key(Key::Enter, true, false),
        KeyEffect { search: false, invalidate_images: true, space_notice: false }
    );
    assert_eq!(c.mode, SearchEnum::NegativePrompt);
    assert_eq!(c.current_element, CurrentElement::Filter);
    assert!(!c.modesel_open);
    assert_eq!(
        statuses(&c.modesel_list),
        vec![
            OptionStatus::Unchecked,
            OptionStatus::Checked,
            OptionStatus::Unchecked,
            OptionStatus::Unchecked
        ]
    );
    c.handle_key(Key::Enter, true, false);
    assert!(c.modesel_open);
    for key in [Key::Esc, Key::Char('q')] {
        c.modesel_open = true;
        c.current_element = CurrentElement::Modesel;
        assert_eq!(
            c.handle_key(key, true, false),
            KeyEffect { search: false, invalidate_images: true, space_notice: false }
        );
        assert!(!c.modesel_open && !c.exit);
        assert_eq!(c.current_element, CurrentElement::Filter);
        assert_eq!(c.mode, SearchEnum::NegativePrompt);
    }
}

#[test]
fn the_help_line_follows_the_controls() {
    let (spans, blink) = help_line(InputMode::Normal, CurrentElement::Search, SearchEnum::Ranking);
    let line: String = spans.iter().map(|s| s.text).collect();
    assert_eq!(
        line,
        "Press q to exit, c to clear the search, Enter to start editing    \
         Two criteria a \"high-low\" this is a trait followed by the inverse"
    );
    let bold: Vec<&str> = spans.iter().filter(|s| s.bold).map(|s| s.text).collect();
    assert_eq!(bold, vec!["q", "c", "Enter"]);
    assert!(blink);
    let (spans, blink) = help_line(InputMode::Normal, CurrentElement::Filter, SearchEnum::Search);
    assert_eq!(spans.iter().map(|s| s.text).collect::<String>(), "Press q to exit, Enter to select mode");
    assert!(!blink);
    let (spans, blink) = help_line(InputMode::Normal, CurrentElement::Modesel, SearchEnum::Search);
    assert!(spans.is_empty() && !blink);
    for element in [CurrentElement::Search, CurrentElement::Filter, CurrentElement::Modesel] {
        let (spans, blink) = help_line(InputMode::Editing, element, SearchEnum::Search);
        assert_eq!(
            spans.iter().map(|s| s.text).collect::<String>(),
            "Press Esc to stop editing, Enter to search for images"
        );
        assert_eq!(spans.iter().filter(|s| s.bold).map(|s| s.text).collect::<Vec<_>>(), vec![
            "Esc", "Enter"
        ]);
        assert!(!blink);
    }
    assert_eq!(mode_hint(SearchEnum::Search), "The images will be the most similar to the prompt");
    assert_eq!(
        mode_hint(SearchEnum::NegativePrompt),
        "The images will be the least similar to the prompt"
    );
    assert_eq!(
        mode_hint(SearchEnum::Image2Image),
        "A absolute path that will be matched to similar images"
    );
}

#[test]
fn drawing_expires_messages_and_places_the_rest() {
    let mut all = Messages::default();
    all.add(Message::new("gone".to_string(), MessageSeverity::Info, 1000, 0));
    all.add(Message::new("hello".to_string(), MessageSeverity::Warning, 5000, 500));
    all.add(Message::new("oh no".to_string(), MessageSeverity::Error, 3000, 2000));
    let toasts = all.draw(80, 2500);
    assert_eq!(
        toasts,
        vec![
            Toast {
                area: Rect { x: 70, y: 1, width: 9, height: 3 },
                severity: MessageSeverity::Warning,
                remaining: 3000
            },
            Toast {
                area: Rect { x: 70, y: 5, width: 9, height: 3 },
                severity: MessageSeverity::Error,
                remaining: 2500
            },
        ]
    );
    assert_eq!(all.messages.len(), 2);
    assert_eq!(all.messages[0].text, "hello");
    assert!(all.draw(80, 60_000).is_empty());
    assert!(all.messages.is_empty());
}

#[test]
fn a_character_is_folded_to_the_first_of_its_case_form() {
    assert_eq!(to_lower('A'), 'a');
    assert_eq!(to_lower('a'), 'a');
    assert_eq!(to_lower('É'), 'é');
    assert_eq!(to_lower('İ'), 'i');
    assert_eq!(to_lower('7'), '7');
    assert_eq!(to_upper('a'), 'A');
    assert_eq!(to_upper('ß'), 'S');
    assert_eq!(to_upper('ŉ'), 'ʼ');
    assert_eq!(to_upper('Z'), 'Z');
    assert_eq!(first_char(&vec!['x', 'y', 'z'], 'q'), 'x');
    assert_eq!(first_char(&vec!['x'], 'q'), 'x');
    assert_eq!(first_char(&Vec::new(), 'q'), 'q');
}

#[test]
fn a_key_between_the_controls_is_read_as_it_is_given() {
    let mut c = Controls::new();
    assert_eq!(c.normal_key(Key::Char('Q')), NOTHING);
    assert!(!c.exit);
    assert_eq!(c.normal_key(Key::Char('q')), NOTHING);
    assert!(c.exit);
    let mut c = Controls::new();
    assert_eq!(c.normal_key(Key::Char('r')), NOTHING);
    assert!(c.clear_terminal);
    assert_eq!(c.normal_key(Key::Right), NOTHING);
    assert_eq!(c.current_element, CurrentElement::Filter);
    assert_eq!(c.normal_key(Key::Enter), NOTHING);
    assert_eq!(c.current_element, CurrentElement::Modesel);
    assert_eq!(c.input_mode, InputMode::Normal);
    assert_eq!(
        c.normal_key(Key::Esc),
        KeyEffect { search: false, invalidate_images: true, space_notice: false }
    );
}

#[test]
fn a_key_in_the_search_box_puts_its_character_in() {
    let mut c = Controls::new();
    c.input_mode = InputMode::Editing;
    assert_eq!(c.editing_key(Key::Char('Q')), NOTHING);
    assert_eq!(c.editing_key(Key::Char('ß')), NOTHING);
    assert_eq!(c.editing_key(Key::Char(' ')), NOTHING);
    assert_eq!(c.input.query(), "Qß ");
    assert_eq!(c.input.char_index, 3);
    assert_eq!(c.editing_key(Key::Up), NOTHING);
    assert_eq!(c.editing_key(Key::Other), NOTHING);
    assert_eq!(c.input.query(), "Qß ");
    assert_eq!(
        c.editing_key(Key::Enter),
        KeyEffect { search: true, invalidate_images: false, space_notice: false }
    );
    assert_eq!(c.input_mode, InputMode::Editing);
    assert_eq!(c.editing_key(Key::Esc), NOTHING);
    assert_eq!(c.input_mode, InputMode::Normal);
    assert_eq!(c.editing_key(Key::Backspace), NOTHING);
    assert_eq!(c.input.query(), "Qß");
    assert_eq!(c.input_mode, InputMode::Normal);
}
