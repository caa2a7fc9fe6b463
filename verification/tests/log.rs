use pitwall::github::log::{
    clean_log, extract_step_log, find_step, finish_step_log, normalize, strip_ansi, strip_timestamp,
};
use std::io::Write;

#[test]
fn names_are_normalised_to_lower_alphanumerics() {
    assert_eq!(normalize("Build (ubuntu-latest, 3.12)"), "buildubuntulatest312");
    assert_eq!(normalize("Ünïcödé"), "ncd");
    assert_eq!(normalize(""), "");
    assert_eq!(normalize(&normalize("A-b C")), normalize("A-b C"));
}

#[test]
fn a_leading_timestamp_goes() {
    assert_eq!(strip_timestamp("2026-07-24T14:30:01.12Z hello"), "hello");
    assert_eq!(strip_timestamp("2026-07-24T14:30:01Z hello world"), "hello world");
    assert_eq!(strip_timestamp("2026-07-24T14:30:01.12Z"), "2026-07-24T14:30:01.12Z");
    assert_eq!(strip_timestamp("short-Z hello"), "short-Z hello");
    assert_eq!(strip_timestamp("20260724T14:30:01.1234Z x"), "20260724T14:30:01.1234Z x");
    assert_eq!(strip_timestamp("2026-07-24T14:30:01.1234 x"), "2026-07-24T14:30:01.1234 x");
    assert_eq!(strip_timestamp(""), "");
    let plain = "step-is-not-a-timestampZ done";
    assert_eq!(strip_timestamp(plain), plain);
    assert_eq!(strip_timestamp("2026-07-24T14:30:01.Z x"), "2026-07-24T14:30:01.Z x");
    assert_eq!(strip_timestamp("2026-07-24T14:30:01.1aZ x"), "2026-07-24T14:30:01.1aZ x");
    assert_eq!(strip_timestamp("2026-07-24 14:30:01Z x"), "2026-07-24 14:30:01Z x");
}

#[test]
fn colour_escapes_go() {
    assert_eq!(strip_ansi("\u{1b}[31mred\u{1b}[0m plain"), "red plain");
    assert_eq!(strip_ansi("a\u{1b}b"), "ab");
    assert_eq!(strip_ansi("a\u{1b}[12;3"), "a");
    assert_eq!(strip_ansi("no escapes"), "no escapes");
    assert_eq!(strip_ansi("\u{1b}\u{1b}[1mx"), "x");
    assert_eq!(strip_ansi("\u{1b}[\u{1b}[1mx"), "x");
    assert_eq!(strip_ansi("end\u{1b}"), "end");
}

#[test]
fn a_log_becomes_readable() {
    let raw = "2026-07-24T14:30:01.12Z ##[group]Run cargo test\n\
               2026-07-24T14:30:01.13Z \u{1b}[36;1mcargo test\u{1b}[0m\r\n\
               2026-07-24T14:30:01.14Z ##[endgroup]\n\
               2026-07-24T14:30:01.15Z ##[command]/usr/bin/git\n\
               ##[section]Finishing\n\
               \u{20}  ##[error]boom";
    assert_eq!(clean_log(raw), "Run cargo test\ncargo test\n/usr/bin/git\nFinishing\n##[error]boom\n");
    assert_eq!(clean_log(""), "");
    assert_eq!(clean_log("\n"), "\n");
    assert_eq!(clean_log("a\n\nb"), "a\n\nb\n");
}

fn archive(entries: &[(&str, &str)]) -> Vec<u8> {
    let mut writer = zip::ZipWriter::new(std::io::Cursor::new(Vec::new()));
    for (name, text) in entries {
        writer.start_file(*name, zip::write::SimpleFileOptions::default()).unwrap();
        writer.write_all(text.as_bytes()).unwrap();
    }
    writer.finish().unwrap().into_inner()
}

#[test]
fn a_steps_log_is_found_in_its_jobs_folder() {
    let bytes = archive(&[
        ("0_build.txt", "whole job"),
        ("lint/2_Run tests.txt", "wrong job"),
        ("build (linux)/1_Set up job.txt", "setup"),
        ("build (linux)/2_Run tests.txt", "2026-07-24T14:30:01.12Z ##[group]Run tests\nok\n"),
        ("build (linux)/21_Post.txt", "post"),
    ]);
    assert_eq!(
        extract_step_log(&bytes, "build [linux]", 2, "Run tests"),
        Ok("Run tests\nok\n".to_owned())
    );
    assert_eq!(extract_step_log(&bytes, "build (linux)", 21, "Post"), Ok("post\n".to_owned()));
}

#[test]
fn a_looser_name_is_the_fallback() {
    let bytes = archive(&[
        ("other/2_Something else.txt", "no"),
        ("renamed/2_Run tests.txt", "yes"),
        ("renamed again/2_Run tests.txt", "later"),
    ]);
    assert_eq!(extract_step_log(&bytes, "build", 2, "Run Tests"), Ok("yes\n".to_owned()));
}

#[test]
fn a_missing_step_is_told() {
    let bytes = archive(&[("build/1_Set up job.txt", "setup"), ("2_flat.txt", "flat")]);
    assert_eq!(
        extract_step_log(&bytes, "build", 2, "flat"),
        Err("couldn't find this step's log in the archive — open it in the browser instead"
            .to_owned())
    );
}

#[test]
fn broken_bytes_are_told() {
    let err = extract_step_log(b"not a zip", "build", 1, "x").unwrap_err();
    assert!(err.starts_with("couldn't open the log archive: "), "{err}");
    let mut writer = zip::ZipWriter::new(std::io::Cursor::new(Vec::new()));
    writer.start_file("build/1_x.txt", zip::write::SimpleFileOptions::default()).unwrap();
    writer.write_all(&[0xff, 0xfe]).unwrap();
    let bytes = writer.finish().unwrap().into_inner();
    let err = extract_step_log(&bytes, "build", 1, "x").unwrap_err();
    assert!(err.starts_with("couldn't read the step log: "), "{err}");
}

#[test]
fn the_step_is_found_among_plain_names() {
    let name = |s: &str| Some(s.to_owned());
    let names = vec![None, name("build/-1_odd.txt"), name("a/b/3_x.txt"), name("a/b/31_x.txt")];
    assert_eq!(find_step(&names, "build", -1, "odd"), Some(1));
    assert_eq!(find_step(&names, "A.B", 3, "nothing"), Some(2));
    assert_eq!(find_step(&names, "z", 31, "X"), Some(3));
    assert_eq!(find_step(&names, "z", 31, "y"), None);
    assert_eq!(find_step(&vec![], "z", 31, "y"), None);
}

#[test]
fn an_unreadable_step_is_told() {
    assert_eq!(
        finish_step_log(Err("bad checksum".to_owned())),
        Err("couldn't read the step log: bad checksum".to_owned())
    );
    assert_eq!(finish_step_log(Ok("##[group]a".to_owned())), Ok("a\n".to_owned()));
}
