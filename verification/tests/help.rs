use pebble_shell::help::{print_help, Alignment, PadToWidth, BOX_WIDTH};
use pebble_shell::registry::Registry;

#[test]
fn pad_to_width_fills_with_spaces_on_the_right() {
    assert_eq!("abc".pad_to_width(6), "abc   ");
    assert_eq!("abc".pad_to_width(3), "abc");
    assert_eq!("abc".pad_to_width(2), "abc");
    assert_eq!("".pad_to_width(2), "  ");
    assert_eq!("abc".pad_to_width(0), "abc");
}

#[test]
fn pad_to_width_counts_characters_not_bytes() {
    assert_eq!("é🗿".pad_to_width(4), "é🗿  ");
    assert_eq!("é🗿".pad_to_width(2), "é🗿");
}

#[test]
fn left_alignment_is_pad_to_width() {
    assert_eq!("abc".pad_to_width_with_alignment(6, Alignment::Left), "abc   ");
    assert_eq!("abc".pad_to_width_with_alignment(1, Alignment::Left), "abc");
}

#[test]
fn right_alignment_fills_on_the_left() {
    assert_eq!("abc".pad_to_width_with_alignment(6, Alignment::Right), "   abc");
    assert_eq!("abc".pad_to_width_with_alignment(3, Alignment::Right), "abc");
}

#[test]
fn center_alignment_fills_both_sides_equally() {
    assert_eq!("abc".pad_to_width_with_alignment(7, Alignment::Center), "  abc  ");
    assert_eq!("abc".pad_to_width_with_alignment(6, Alignment::Center), " abc ");
    assert_eq!("abc".pad_to_width_with_alignment(4, Alignment::Center), "abc");
    assert_eq!("abc".pad_to_width_with_alignment(3, Alignment::Center), "abc");
    assert_eq!("".pad_to_width_with_alignment(4, Alignment::Center), "    ");
}

#[test]
fn help_box_lists_the_registry() {
    let registry = Registry::new();
    let names = registry.names();
    let help = print_help(&names);
    assert_eq!(BOX_WIDTH, 76);
    assert_eq!(help.top, format!("╭{}╮", "═".repeat(74)));
    assert_eq!(help.bottom, format!("╰{}╯", "═".repeat(74)));
    assert_eq!(help.top.chars().count(), 76);
    assert_eq!(help.title, format!("{}Available commands:{}", " ".repeat(26), " ".repeat(26)));
    assert_eq!(
        help.footer,
        format!("{}Type 'exit' to quit the program.{}", " ".repeat(20), " ".repeat(20))
    );
    assert_eq!(help.commands.len(), 6);
    for (line, name) in help.commands.iter().zip(names.iter()) {
        assert_eq!(line.chars().count(), 70);
        assert!(line.starts_with(name.as_str()));
        assert_eq!(line.trim_end(), name);
    }
    assert_eq!(help.commands[0], format!("create_db{}", " ".repeat(61)));
}

#[test]
fn help_box_for_no_command_has_no_command_line() {
    let help = print_help(&Vec::new());
    assert!(help.commands.is_empty());
    assert_eq!(help.top.chars().count(), 76);
}
