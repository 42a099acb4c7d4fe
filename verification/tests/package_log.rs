use pacview::pkglog::{package_log_line, package_log_lines};

fn strings(v: &[&str]) -> Vec<String> {
    v.iter().map(|s| s.to_string()).collect()
}

#[test]
fn package_log_line_is_rewritten() {
    assert_eq!(
        package_log_line("[2024-01-02T10:11:12+0100] [ALPM] upgraded linux (6.6.1-1 -> 6.6.2-1)", "linux")
            .as_deref(),
        Some("[2024-01-02  10:11:12] : upgraded linux (6.6.1-1 -> 6.6.2-1)")
    );
    assert_eq!(
        package_log_line("xx[2024-01-02T10:11:12+0100] [ALPM] installed foo (1)", "foo").as_deref(),
        Some("xx[2024-01-02  10:11:12] : installed foo (1)")
    );
}

#[test]
fn package_log_takes_the_shortest_parts() {
    assert_eq!(
        package_log_line("[2024T01T02T10+0] [ALPM] removed foo (1)", "foo").as_deref(),
        Some("[2024  01T02T10] : removed foo (1)")
    );
}

#[test]
fn package_log_rejects_other_lines() {
    let l = "[2024-01-02T10:11:12+0100] [ALPM] upgraded linux-firmware (1 -> 2)";
    assert_eq!(package_log_line(l, "linux"), None);
    assert_eq!(package_log_line("[2024-01-02T10:11:12+0100] [ALPM] reinstalled foo (1)", "foo"), None);
    assert_eq!(package_log_line("[2024-01-02T10:11:12+0100] [PACMAN] installed foo (1)", "foo"), None);
    assert_eq!(package_log_line("[2024-01-02T10:11:12+0100] [ALPM] installed foo ", "foo"), None);
    assert_eq!(package_log_line("", "foo"), None);
}

#[test]
fn package_log_lines_newest_first() {
    let lines = strings(&[
        "[2024-01-01T10:00:00+0000] [ALPM] installed foo (1)",
        "[2024-01-02T10:00:00+0000] [ALPM] installed bar (1)",
        "[2024-01-03T10:00:00+0000] [ALPM] upgraded foo (1 -> 2)",
    ]);
    assert_eq!(
        package_log_lines(&lines, "foo"),
        strings(&[
            "[2024-01-03  10:00:00] : upgraded foo (1 -> 2)",
            "[2024-01-01  10:00:00] : installed foo (1)",
        ])
    );
}

#[test]
fn package_names_read_as_patterns() {
    // `.` takes any character.
    assert_eq!(
        package_log_line("[2024-01-02T10:00:00+0000] [ALPM] installed aXb (1)", "a.b").as_deref(),
        Some("[2024-01-02  10:00:00] : installed aXb (1)")
    );
    // `+` repeats the character before it, so `gtk+` does not take "gtk+".
    assert_eq!(package_log_line("[2024-01-02T10:00:00+0000] [ALPM] installed gtk+ (2)", "gtk+"), None);
    assert_eq!(
        package_log_line("[2024-01-02T10:00:00+0000] [ALPM] installed gtkk (2)", "gtk+").as_deref(),
        Some("[2024-01-02  10:00:00] : installed gtkk (2)")
    );
    // A repeated part takes as much as it can and still leaves a space and a rest.
    assert_eq!(
        package_log_line("[2024-01-02T10:00:00+0000] [ALPM] removed ab c d", "a.+").as_deref(),
        Some("[2024-01-02  10:00:00] : removed ab c d")
    );
}
