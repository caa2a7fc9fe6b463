use pitwall::github::job_log::{sections, styled, Colour, Section, Style};

fn texts(section: &Section) -> Vec<String> {
    section
        .lines
        .iter()
        .map(|line| line.iter().map(|span| span.text.as_str()).collect::<String>())
        .collect()
}

const PLAIN: Style =
    Style { bold: false, italic: false, underline: false, foreground: None, background: None };

fn front(n: u8) -> Style {
    Style { foreground: Some(Colour::Indexed(n)), ..PLAIN }
}

/// The style that a text gets after an escape's parameters.
fn after(parameters: &str) -> Style {
    let line = format!("\u{1b}[{parameters}mx");
    let spans = styled(&line);
    assert_eq!(spans.len(), 1);
    assert_eq!(spans[0].text, "x");
    spans[0].style
}

#[test]
fn colour_becomes_style() {
    let spans = styled("plain \u{1b}[36;1mcyan\u{1b}[0m\u{1b}[31mred\u{1b}[K!\u{1b}[m.");
    let seen: Vec<(Style, &str)> = spans.iter().map(|s| (s.style, s.text.as_str())).collect();
    assert_eq!(
        seen,
        vec![
            (PLAIN, "plain "),
            (Style { bold: true, ..front(6) }, "cyan"),
            (front(1), "red"),
            (front(1), "!"),
            (PLAIN, "."),
        ]
    );
}

#[test]
fn operands_are_no_codes() {
    let rgb = |r: u8, g: u8, b: u8| Some(Colour::Rgb(r, g, b));
    assert_eq!(after("1;38;2;255;0;0"), Style { bold: true, foreground: rgb(255, 0, 0), ..PLAIN });
    assert_eq!(after("38;5;31"), front(31));
    assert_eq!(after("48;5;0;1"), Style { bold: true, background: Some(Colour::Indexed(0)), ..PLAIN });
    assert_eq!(after("48;2;1;2;3;31"), Style { background: rgb(1, 2, 3), ..front(1) });
    assert_eq!(after("38;5;256;1"), Style { bold: true, ..PLAIN });
    assert_eq!(after("38;2;1;2"), PLAIN);
    assert_eq!(after("38;5"), PLAIN);
    assert_eq!(after("38;1"), Style { bold: true, ..PLAIN });
    assert_eq!(after("38"), PLAIN);
}

#[test]
fn styles_are_cancelled() {
    assert_eq!(after("31;39"), PLAIN);
    assert_eq!(after("41;49"), PLAIN);
    assert_eq!(after("1;22"), PLAIN);
    assert_eq!(after("3;4;23;24"), PLAIN);
    assert_eq!(after("91;107"), Style { background: Some(Colour::Indexed(15)), ..front(9) });
    assert_eq!(after("1;3;4"), Style { bold: true, italic: true, underline: true, ..PLAIN });
    assert_eq!(after("31;"), PLAIN);
    assert_eq!(after("31;?7;99"), front(1));
}

#[test]
fn the_palette_has_its_colours() {
    assert_eq!(Colour::Rgb(1, 2, 3).rgb(), (1, 2, 3));
    assert_eq!(Colour::Indexed(1).rgb(), (204, 102, 102));
    assert_eq!(Colour::Indexed(15).rgb(), (255, 255, 255));
    assert_eq!(Colour::Indexed(16).rgb(), (0, 0, 0));
    assert_eq!(Colour::Indexed(196).rgb(), (255, 0, 0));
    assert_eq!(Colour::Indexed(31).rgb(), (0, 135, 175));
    assert_eq!(Colour::Indexed(231).rgb(), (255, 255, 255));
    assert_eq!(Colour::Indexed(232).rgb(), (8, 8, 8));
    assert_eq!(Colour::Indexed(255).rgb(), (238, 238, 238));
}

#[test]
fn a_line_without_escapes_is_one_stretch() {
    let spans = styled("hello");
    assert_eq!(spans.len(), 1);
    assert_eq!(spans[0].text, "hello");
    assert_eq!(spans[0].style, PLAIN);
    assert!(styled("").is_empty());
    assert!(styled("\u{1b}[31m").is_empty());
    assert_eq!(styled("a\u{1b}b").len(), 2);
}

#[test]
fn groups_become_sections() {
    let raw = "2026-07-24T14:30:01.12Z first\n\
               2026-07-24T14:30:01.12Z ##[group]Run tests\n\
               one\n\
               2026-07-24T14:30:01.12Z ##[error]boom\n\
               ##[endgroup]\n\
               ##[group]Empty\n\
               ##[group]Quiet\n\
               two\n\
               ##[endgroup]\n\
               last";
    let seen = sections(raw);
    let titles: Vec<Option<&str>> = seen.iter().map(|s| s.title.as_deref()).collect();
    assert_eq!(titles, vec![None, Some("Run tests"), Some("Empty"), Some("Quiet"), None]);
    let expanded: Vec<bool> = seen.iter().map(|s| s.expanded).collect();
    assert_eq!(expanded, vec![false, true, false, false, false]);
    assert_eq!(texts(&seen[0]), vec!["first"]);
    assert_eq!(texts(&seen[1]), vec!["one", "##[error]boom"]);
    assert!(seen[2].lines.is_empty());
    assert_eq!(texts(&seen[3]), vec!["two"]);
    assert_eq!(texts(&seen[4]), vec!["last"]);
    assert!(sections("").is_empty());
}
