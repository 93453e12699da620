use cli_animate::command::Command;
use cli_animate::interactive_menu::{InteractiveMenu, Response, Style, StyleBuilder};
use cli_animate::utils::Color;

fn cities() -> Vec<String> {
    vec!["Tokyo".to_string(), "Saitama".to_string(), "Kanagawa".to_string()]
}

#[test]
fn new_menu_selects_the_first_option() {
    let menu = InteractiveMenu::new(cities(), Style::default());
    assert_eq!(menu.selected_index(), 0);
    assert_eq!(menu.option_count(), 3);
    let empty = InteractiveMenu::new(Vec::new(), Style::default());
    assert_eq!(empty.selected_index(), 0);
    assert_eq!(empty.option_count(), 0);
}

#[test]
fn next_wraps_from_the_last_option_to_the_first() {
    let mut menu = InteractiveMenu::new(cities(), Style::default());
    menu.next();
    assert_eq!(menu.selected_index(), 1);
    menu.next();
    assert_eq!(menu.selected_index(), 2);
    menu.next();
    assert_eq!(menu.selected_index(), 0);
}

#[test]
fn previous_wraps_from_the_first_option_to_the_last() {
    let mut menu = InteractiveMenu::new(cities(), Style::default());
    menu.previous();
    assert_eq!(menu.selected_index(), 2);
    menu.previous();
    assert_eq!(menu.selected_index(), 1);
    menu.previous();
    assert_eq!(menu.selected_index(), 0);
}

#[test]
fn moves_undo_each_other() {
    for moves in 0..3 {
        let mut menu = InteractiveMenu::new(cities(), Style::default());
        for _ in 0..moves {
            menu.next();
        }
        let at = menu.selected_index();
        menu.previous();
        menu.next();
        assert_eq!(menu.selected_index(), at);
        menu.next();
        menu.previous();
        assert_eq!(menu.selected_index(), at);
    }
}

#[test]
fn single_option_stays_selected() {
    let mut menu = InteractiveMenu::new(vec!["only".to_string()], Style::default());
    menu.next();
    assert_eq!(menu.selected_index(), 0);
    menu.previous();
    assert_eq!(menu.selected_index(), 0);
}

#[test]
fn display_shows_heading_and_marks_the_selection() {
    let mut menu = InteractiveMenu::new(cities(), Style::default());
    assert_eq!(
        menu.display(),
        "\x1B[2J\x1B[1;1H\x1b[37m\n\
         'w' for up, 's' for down, then press Enter to select. Double Enter to submit.\n\n\
         > Tokyo\n  Saitama\n  Kanagawa\n"
    );
    menu.next();
    assert_eq!(
        menu.display(),
        "\x1B[2J\x1B[1;1H\x1b[37m\n\
         'w' for up, 's' for down, then press Enter to select. Double Enter to submit.\n\n  \
         Tokyo\n> Saitama\n  Kanagawa\n"
    );
}

#[test]
fn display_uses_the_chosen_style() {
    let style = StyleBuilder::new().color(Color::Blue).selected_prefix('*').build();
    let mut menu = InteractiveMenu::new(cities(), style);
    menu.previous();
    assert_eq!(
        menu.display(),
        "\x1B[2J\x1B[1;1H\x1b[34m\n\
         'w' for up, 's' for down, then press Enter to select. Double Enter to submit.\n\n  \
         Tokyo\n  Saitama\n* Kanagawa\n"
    );
}

#[test]
fn display_of_a_menu_without_options_is_the_heading() {
    let menu = InteractiveMenu::new(Vec::new(), Style::default());
    assert_eq!(
        menu.display(),
        "\x1B[2J\x1B[1;1H\x1b[37m\n\
         'w' for up, 's' for down, then press Enter to select. Double Enter to submit.\n\n"
    );
}

#[test]
fn apply_moves_redraws_and_submits() {
    let mut menu = InteractiveMenu::new(cities(), Style::default());
    assert_eq!(menu.apply(Command::Down), Response::Redraw);
    assert_eq!(menu.selected_index(), 1);
    assert_eq!(menu.apply(Command::Unknown), Response::Wait);
    assert_eq!(menu.selected_index(), 1);
    assert_eq!(menu.apply(Command::Up), Response::Redraw);
    assert_eq!(menu.apply(Command::Up), Response::Redraw);
    assert_eq!(menu.selected_index(), 2);
    assert_eq!(menu.apply(Command::Submit), Response::Chosen(2));
    assert_eq!(menu.selected_index(), 2);
}

#[test]
fn submitting_a_menu_without_options_gives_the_first_place() {
    let mut menu = InteractiveMenu::new(Vec::new(), Style::default());
    assert_eq!(menu.apply(Command::Submit), Response::Chosen(0));
    assert_eq!(menu.apply(Command::Unknown), Response::Wait);
}

#[test]
fn lines_are_read_as_commands() {
    assert_eq!(Command::from_line("w"), Command::Up);
    assert_eq!(Command::from_line("W\n"), Command::Up);
    assert_eq!(Command::from_line("s\n"), Command::Down);
    assert_eq!(Command::from_line("  S \r\n"), Command::Down);
    assert_eq!(Command::from_line(""), Command::Submit);
    assert_eq!(Command::from_line("\n"), Command::Submit);
    assert_eq!(Command::from_line(" \t \r\n"), Command::Submit);
    assert_eq!(Command::from_line("x\n"), Command::Unknown);
    assert_eq!(Command::from_line("ww\n"), Command::Unknown);
    assert_eq!(Command::from_line("w s\n"), Command::Unknown);
    assert_eq!(Command::from_line("w w\n"), Command::Unknown);
    assert_eq!(Command::from_line("up\n"), Command::Unknown);
    assert_eq!(Command::from_line("\u{3000}w\u{a0}\n"), Command::Up);
}

fn by_trimming(line: &str) -> Command {
    match line.trim() {
        "w" | "W" => Command::Up,
        "s" | "S" => Command::Down,
        "" => Command::Submit,
        _ => Command::Unknown,
    }
}

#[test]
fn every_character_is_blank_exactly_when_trimming_drops_it() {
    for code in 0u32..=0x10FFFF {
        if let Some(c) = char::from_u32(code) {
            let alone = c.to_string();
            assert_eq!(Command::from_line(&alone), by_trimming(&alone), "U+{:04X}", code);
            let before = format!("{}w", c);
            assert_eq!(Command::from_line(&before), by_trimming(&before), "U+{:04X}", code);
            let after = format!("s{}", c);
            assert_eq!(Command::from_line(&after), by_trimming(&after), "U+{:04X}", code);
        }
    }
}
