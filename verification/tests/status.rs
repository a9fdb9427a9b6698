use anstyle::{AnsiColor, Color, Style};
use cot_cli::status::{StatusColor, StatusType, LABEL_WIDTH};

#[test]
fn status_words() {
    assert_eq!(StatusType::Creating.as_str(), "Creating");
    assert_eq!(StatusType::Adding.as_str(), "Adding");
    assert_eq!(StatusType::Modifying.as_str(), "Modifying");
    assert_eq!(StatusType::Removing.as_str(), "Removing");
    assert_eq!(StatusType::Created.as_str(), "Created");
    assert_eq!(StatusType::Added.as_str(), "Added");
    assert_eq!(StatusType::Modified.as_str(), "Modified");
    assert_eq!(StatusType::Removed.as_str(), "Removed");
    assert_eq!(StatusType::Warning.as_str(), "Warning");
    assert_eq!(StatusType::Error.as_str(), "Error");
}

#[test]
fn status_colors() {
    let cases = [
        (StatusType::Creating, StatusColor::BrightGreen),
        (StatusType::Adding, StatusColor::BrightCyan),
        (StatusType::Removing, StatusColor::BrightMagenta),
        (StatusType::Modifying, StatusColor::BrightBlue),
        (StatusType::Created, StatusColor::Green),
        (StatusType::Added, StatusColor::Cyan),
        (StatusType::Removed, StatusColor::Magenta),
        (StatusType::Modified, StatusColor::Blue),
        (StatusType::Warning, StatusColor::Yellow),
        (StatusType::Error, StatusColor::Red),
    ];
    for (status, color) in cases {
        assert_eq!(status.color(), color);
    }
}

#[test]
fn labels_are_right_aligned() {
    assert_eq!(StatusType::Created.padded_label(), format!("{:>12}", "Created"));
    assert_eq!(StatusType::Modifying.padded_label(), "   Modifying");
    assert_eq!(StatusType::Error.padded_label(), "       Error");
    for status in [StatusType::Adding, StatusType::Removed, StatusType::Warning] {
        assert_eq!(status.padded_label().chars().count(), LABEL_WIDTH);
    }
}

#[test]
fn status_styles_in_terminal_codes() {
    assert_eq!(
        StatusType::Created.style(),
        Style::new().bold().fg_color(Some(AnsiColor::Green.into()))
    );
    assert_eq!(
        StatusType::Creating.style(),
        Style::new().bold().fg_color(Some(AnsiColor::BrightGreen.into()))
    );
    assert_eq!(
        StatusType::Error.style(),
        Style::new().bold().fg_color(Some(AnsiColor::Red.into()))
    );
    assert_ne!(StatusType::Warning.style(), Style::new());
    assert_eq!(
        format!("{}", StatusType::Warning.style()),
        "\u{1b}[1m\u{1b}[33m"
    );
    assert_eq!(format!("{:#}", StatusType::Warning.style()), "\u{1b}[0m");
}

#[test]
fn in_progress_statuses_use_the_bright_form_of_completed_colors() {
    let pairs = [
        (StatusType::Creating, StatusType::Created),
        (StatusType::Adding, StatusType::Added),
        (StatusType::Modifying, StatusType::Modified),
        (StatusType::Removing, StatusType::Removed),
    ];
    for (a, b) in pairs {
        let Some(Color::Ansi(c)) = b.style().get_fg_color() else {
            panic!("expected an ANSI colour");
        };
        assert!(!c.is_bright());
        assert_eq!(a.style().get_fg_color(), Some(Color::Ansi(c.bright(true))));
    }
    let all = [
        StatusType::Creating,
        StatusType::Adding,
        StatusType::Modifying,
        StatusType::Removing,
        StatusType::Created,
        StatusType::Added,
        StatusType::Modified,
        StatusType::Removed,
        StatusType::Error,
        StatusType::Warning,
    ];
    for (i, a) in all.iter().enumerate() {
        for b in &all[i + 1..] {
            assert_ne!(a.style().get_fg_color(), b.style().get_fg_color());
        }
    }
}
