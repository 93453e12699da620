use cli_animate::progress::{Color, ProgressBar, Style, StyleBuilder};

fn bar_of(width: u64) -> Style {
    StyleBuilder::new().bar_length(width).build()
}

#[test]
fn test_update_progress_success() {
    let progress_bar = ProgressBar::new(0, 100, || 0, Style::default());

    let drawn = progress_bar.update_display(50);

    let expected_output = "\r\x1b[37m[=========================                         ]"; // 25 =, 25 ' '.
    assert_eq!(drawn.as_bytes(), expected_output.as_bytes());
}

#[test]
fn full_bar_in_a_chosen_style() {
    let style = StyleBuilder::new()
        .bar_character('#')
        .bar_length(10)
        .color(Color::Green)
        .build();
    let bar = ProgressBar::new(0, 100, || 0, style);
    assert_eq!(bar.update_display(100), "\r\x1b[32m[##########]");
}

#[test]
fn cells_are_the_proportion_rounded_down() {
    let bar = ProgressBar::new(0, 100, || 0, bar_of(10));
    assert_eq!(bar.update_display(29), "\r\x1b[37m[==        ]");
    assert_eq!(bar.update_display(30), "\r\x1b[37m[===       ]");
    assert_eq!(bar.update_display(99), "\r\x1b[37m[========= ]");
    let thirds = ProgressBar::new(500, 503, || 0, bar_of(10));
    assert_eq!(thirds.update_display(501), "\r\x1b[37m[===       ]");
    assert_eq!(thirds.update_display(502), "\r\x1b[37m[======    ]");
}

#[test]
fn bar_is_always_as_wide_as_configured() {
    for width in [0u64, 1, 7, 50] {
        let bar = ProgressBar::new(10, 20, || 0, bar_of(width));
        for value in 0u64..=30 {
            let drawn = bar.update_display(value);
            let cells: Vec<char> = drawn.chars().skip(7).collect();
            assert_eq!(cells.len() as u64, width + 1);
            assert_eq!(cells[width as usize], ']');
            let filled = cells.iter().take_while(|c| **c == '=').count();
            assert!(cells[filled..width as usize].iter().all(|c| *c == ' '));
            if (10..=20).contains(&value) {
                assert_eq!(filled as u64, (value - 10) * width / 10);
            }
        }
    }
}

#[test]
fn empty_at_start_and_full_at_goal() {
    let bar = ProgressBar::new(200, 700, || 0, bar_of(8));
    assert_eq!(bar.update_display(200), "\r\x1b[37m[        ]");
    assert_eq!(bar.update_display(700), "\r\x1b[37m[========]");
}

#[test]
fn values_outside_the_bounds_are_drawn_as_the_nearer_bound() {
    let bar = ProgressBar::new(200, 700, || 0, bar_of(8));
    assert_eq!(bar.update_display(0), "\r\x1b[37m[        ]");
    assert_eq!(bar.update_display(u64::MAX), "\r\x1b[37m[========]");
}

#[test]
fn equal_bounds_draw_a_full_bar() {
    let bar = ProgressBar::new(5, 5, || 5, bar_of(4));
    assert_eq!(bar.update_display(5), "\r\x1b[37m[====]");
    assert_eq!(bar.update_display(9), "\r\x1b[37m[====]");
}

#[test]
fn widest_bounds_do_not_overflow() {
    let bar = ProgressBar::new(0, u64::MAX, || 0, bar_of(4));
    assert_eq!(bar.update_display(u64::MAX - 1), "\r\x1b[37m[=== ]");
    assert_eq!(bar.update_display(u64::MAX / 2), "\r\x1b[37m[=   ]");
    assert_eq!(bar.update_display(u64::MAX / 2 + 1), "\r\x1b[37m[==  ]");
}

#[test]
fn same_value_gives_the_same_frame() {
    let bar = ProgressBar::new(0, 100, || 0, Style::default());
    let first = bar.update_display(37);
    let second = bar.update_display(37);
    assert_eq!(first.as_bytes(), second.as_bytes());
    let mut run = bar.start();
    let a = run.step(37).unwrap();
    run.step(12).unwrap();
    let b = run.step(37).unwrap();
    assert_eq!(a, first);
    assert_eq!(b, first);
}

#[test]
fn frame_starts_with_return_and_holds_one_color_code() {
    let colors = [
        (Color::White, "\x1b[37m"),
        (Color::Red, "\x1b[31m"),
        (Color::Blue, "\x1b[34m"),
        (Color::Yellow, "\x1b[33m"),
        (Color::Green, "\x1b[32m"),
        (Color::Cyan, "\x1b[36m"),
        (Color::Magenta, "\x1b[35m"),
        (Color::Black, "\x1b[30m"),
    ];
    for (color, code) in colors {
        assert_eq!(color.to_ansi_code(), code);
        for fill in ['=', '\x1b', '[', 'm', '3'] {
            let style = StyleBuilder::new().color(color).bar_character(fill).bar_length(12).build();
            let bar = ProgressBar::new(0, 4, || 0, style);
            for value in 0u64..=4 {
                let drawn = bar.update_display(value);
                assert!(drawn.starts_with('\r'));
                assert_eq!(&drawn[1..6], code);
                let mut found = 0;
                for (_, other) in colors {
                    found += drawn.matches(other).count();
                }
                assert_eq!(found, 1);
            }
        }
    }
}
