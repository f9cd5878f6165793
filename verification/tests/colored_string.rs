use git_status_line::color::ansii_escape_str;
use git_status_line::colored_string::Color;
use git_status_line::colored_string::ColoredString;

const ALL_COLORS: [Color; 8] = [
    Color::BLACK,
    Color::RED,
    Color::GREEN,
    Color::YELLOW,
    Color::BLUE,
    Color::MAGENTA,
    Color::CYAN,
    Color::WHITE,
];

#[test]
fn two_colors_between_three_pieces_of_text() {
    let mut buffer = ColoredString::new();
    buffer.push_str("abc");
    buffer.set_fg_color(Color::RED);
    buffer.push_str("def");
    buffer.set_fg_color(Color::BLUE);
    buffer.push_str("ghi");
    assert_eq!(buffer.colored(), "abc\x1b[31mdef\x1b[34mghi");
}

#[test]
fn color_without_any_text() {
    let mut buffer = ColoredString::new();
    buffer.set_fg_color(Color::GREEN);
    assert_eq!(buffer.colored(), "\x1b[32m");
    assert_eq!(buffer.colored().as_bytes(), &[0x1b, b'[', b'3', b'2', b'm']);
}

#[test]
fn capacity_does_not_show() {
    let mut buffer = ColoredString::with_capacity(100);
    buffer.push_str("x");
    assert_eq!(buffer.colored(), "x");
}

#[test]
fn new_buffer_renders_empty() {
    assert_eq!(ColoredString::new().colored(), "");
    assert_eq!(ColoredString::with_capacity(0).colored(), "");
    assert_eq!(ColoredString::with_capacity(4096).colored(), "");
}

#[test]
fn capacity_beyond_the_machine_is_only_a_hint() {
    let mut buffer = ColoredString::with_capacity(usize::MAX);
    buffer.push('a');
    buffer.set_fg_color(Color::CYAN);
    buffer.push('b');
    assert_eq!(buffer.colored(), "a\x1b[36mb");
    let mut buffer = ColoredString::with_capacity(usize::MAX / 2);
    buffer.push_str("xy");
    assert_eq!(buffer.colored(), "xy");
}

#[test]
fn buffers_with_and_without_capacity_agree() {
    let mut plain = ColoredString::new();
    let mut sized = ColoredString::with_capacity(3);
    for buffer in [&mut plain, &mut sized] {
        buffer.push_str("longer than three bytes");
        buffer.set_fg_color(Color::YELLOW);
        buffer.push('!');
    }
    assert_eq!(plain.colored(), sized.colored());
    assert_eq!(plain.colored(), "longer than three bytes\x1b[33m!");
}

#[test]
fn text_without_colors_renders_verbatim() {
    let mut buffer = ColoredString::new();
    buffer.push_str("one");
    buffer.push(' ');
    buffer.push_str("");
    buffer.push_str("two");
    buffer.push('\n');
    let rendered = buffer.colored();
    assert_eq!(rendered, "one two\n");
    assert!(!rendered.contains('\x1b'));
}

#[test]
fn appended_escape_bytes_are_kept_as_text() {
    let mut buffer = ColoredString::new();
    buffer.push_str("\x1b[0m");
    buffer.push('\0');
    assert_eq!(buffer.colored(), "\x1b[0m\0");
}

#[test]
fn rendering_twice_gives_the_same_string() {
    let mut buffer = ColoredString::new();
    buffer.push_str("M ");
    buffer.set_fg_color(Color::MAGENTA);
    buffer.push_str("file");
    let first = buffer.colored();
    let second = buffer.colored();
    assert_eq!(first, second);
    assert_eq!(first, "M \x1b[35mfile");
    buffer.push('s');
    assert_eq!(buffer.colored(), "M \x1b[35mfiles");
    assert_eq!(first, second);
}

#[test]
fn one_color_after_a_prefix() {
    for prefix in ["", "a", "prefix of some length"] {
        for color in ALL_COLORS {
            let mut buffer = ColoredString::new();
            buffer.push_str(prefix);
            buffer.set_fg_color(color);
            buffer.push_str("T");
            let expected = format!("{}\x1b[3{}mT", prefix, color.int_value());
            assert_eq!(buffer.colored(), expected);
        }
    }
}

#[test]
fn escape_sequences_are_exact() {
    let expected: [&[u8]; 8] = [
        b"\x1b[30m",
        b"\x1b[31m",
        b"\x1b[32m",
        b"\x1b[33m",
        b"\x1b[34m",
        b"\x1b[35m",
        b"\x1b[36m",
        b"\x1b[37m",
    ];
    for (color, bytes) in ALL_COLORS.iter().zip(expected) {
        let escape = ansii_escape_str(*color);
        assert_eq!(escape.as_bytes(), bytes);
        assert_eq!(escape.len(), 5);
        assert_eq!(escape.as_bytes()[0], 0x1b);
        let mut buffer = ColoredString::new();
        buffer.set_fg_color(*color);
        assert_eq!(buffer.colored().as_bytes(), bytes);
    }
}

#[test]
fn color_codes_follow_the_palette() {
    assert_eq!(Color::BLACK.int_value(), 0);
    assert_eq!(Color::RED.int_value(), 1);
    assert_eq!(Color::GREEN.int_value(), 2);
    assert_eq!(Color::YELLOW.int_value(), 3);
    assert_eq!(Color::BLUE.int_value(), 4);
    assert_eq!(Color::MAGENTA.int_value(), 5);
    assert_eq!(Color::CYAN.int_value(), 6);
    assert_eq!(Color::WHITE.int_value(), 7);
}

#[test]
fn colors_compare_and_copy() {
    let color = Color::CYAN;
    let copy = color;
    assert_eq!(color, copy);
    assert_ne!(Color::CYAN, Color::WHITE);
    assert_eq!(format!("{:?}", Color::MAGENTA), "MAGENTA");
}

#[test]
fn colors_at_increasing_offsets_render_in_order() {
    let mut buffer = ColoredString::new();
    buffer.push_str("0");
    buffer.set_fg_color(Color::RED);
    buffer.push_str("11");
    buffer.set_fg_color(Color::GREEN);
    buffer.push_str("222");
    buffer.set_fg_color(Color::BLUE);
    buffer.push_str("3333");
    buffer.set_fg_color(Color::WHITE);
    let rendered = buffer.colored();
    assert_eq!(rendered, "0\x1b[31m11\x1b[32m222\x1b[34m3333\x1b[37m");
    assert_eq!(rendered.len(), 10 + 4 * 5);
    let red: usize = rendered.find("\x1b[31m").unwrap();
    let green: usize = rendered.find("\x1b[32m").unwrap();
    let blue: usize = rendered.find("\x1b[34m").unwrap();
    let white: usize = rendered.find("\x1b[37m").unwrap();
    assert_eq!((red, green, blue, white), (1, 8, 16, 25));
}

#[test]
fn color_at_the_start_applies_to_all_text() {
    let mut buffer = ColoredString::new();
    buffer.set_fg_color(Color::YELLOW);
    buffer.push_str("all of it");
    assert_eq!(buffer.colored(), "\x1b[33mall of it");
}

#[test]
fn two_colors_at_one_offset_both_render() {
    let mut buffer = ColoredString::new();
    buffer.push_str("ab");
    buffer.set_fg_color(Color::RED);
    buffer.set_fg_color(Color::BLUE);
    buffer.push_str("cd");
    assert_eq!(buffer.colored(), "ab\x1b[31m\x1b[34mcd");
}

#[test]
fn the_same_color_twice_renders_twice() {
    let mut buffer = ColoredString::new();
    buffer.set_fg_color(Color::BLACK);
    buffer.set_fg_color(Color::BLACK);
    buffer.set_fg_color(Color::BLACK);
    assert_eq!(buffer.colored(), "\x1b[30m\x1b[30m\x1b[30m");
}

#[test]
fn no_reset_is_added() {
    let mut buffer = ColoredString::new();
    buffer.set_fg_color(Color::RED);
    buffer.push_str("red to the end");
    let rendered = buffer.colored();
    assert!(rendered.ends_with("red to the end"));
    assert_eq!(rendered.matches('\x1b').count(), 1);
}

#[test]
fn characters_of_several_bytes_keep_their_place() {
    let mut buffer = ColoredString::new();
    buffer.push('é');
    buffer.set_fg_color(Color::GREEN);
    buffer.push_str("日本語");
    buffer.set_fg_color(Color::BLUE);
    buffer.push('🦀');
    buffer.push('x');
    buffer.set_fg_color(Color::RED);
    buffer.push_str("ß");
    assert_eq!(buffer.colored(), "é\x1b[32m日本語\x1b[34m🦀x\x1b[31mß");
}

#[test]
fn pushed_characters_arrive_in_order() {
    let mut buffer = ColoredString::new();
    for ch in "status".chars() {
        buffer.push(ch);
    }
    assert_eq!(buffer.colored(), "status");
}

#[test]
fn many_changes_render_completely() {
    let mut buffer = ColoredString::with_capacity(8);
    let mut expected = String::new();
    for round in 0..200 {
        let color = ALL_COLORS[round % 8];
        buffer.set_fg_color(color);
        expected.push_str(&format!("\x1b[3{}m", round % 8));
        let piece = format!("{} ", round);
        buffer.push_str(&piece);
        expected.push_str(&piece);
    }
    assert_eq!(buffer.colored(), expected);
}
