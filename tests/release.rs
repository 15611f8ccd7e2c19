use guest_probe::release::{first_nonblank_line, os_from_probe_output, parse_os_release, trim_quotes};

#[test]
fn parse_os_release_prefers_pretty_name() {
    let text = "PRETTY_NAME=\"Debian GNU/Linux 12\"\nNAME=\"Debian GNU/Linux\"\n";
    assert_eq!(parse_os_release(text), "Debian GNU/Linux 12");
}

#[test]
fn parse_os_release_name_and_version() {
    let text = "NAME=\"Fedora Linux\"\nVERSION=\"38 (Server Edition)\"\nID=fedora\n";
    assert_eq!(parse_os_release(text), "Fedora Linux 38 (Server Edition)");
}

#[test]
fn parse_os_release_name_alone() {
    assert_eq!(parse_os_release("NAME=Alpine\r\nID=alpine\r\n"), "Alpine");
}

#[test]
fn parse_os_release_falls_back_to_first_nonblank_line() {
    assert_eq!(parse_os_release("VERSION_CODENAME=jammy\nID=ubuntu\n"), "VERSION_CODENAME=jammy");
    assert_eq!(parse_os_release("\n  ID=x  \nVERSION_ID=1\n"), "ID=x");
}

#[test]
fn parse_os_release_unknown_only_when_blank() {
    assert_eq!(parse_os_release(""), "(unknown)");
    assert_eq!(parse_os_release(" \n\t\n"), "(unknown)");
}

#[test]
fn parse_os_release_last_line_wins() {
    assert_eq!(parse_os_release("PRETTY_NAME=one\nPRETTY_NAME='two'\n"), "'two'");
}

#[test]
fn trim_quotes_strips_one_pair() {
    assert_eq!(trim_quotes("  \"Ubuntu\"  "), "Ubuntu");
    assert_eq!(trim_quotes("\"\"x\"\""), "\"x\"");
    assert_eq!(trim_quotes("\""), "\"");
    assert_eq!(trim_quotes("plain"), "plain");
    assert_eq!(trim_quotes("\"open"), "\"open");
    assert_eq!(trim_quotes(""), "");
}

#[test]
fn probe_output_os_release() {
    let out = "PRETTY_NAME=\"Debian GNU/Linux 12\"\nNAME=\"Debian GNU/Linux\"\n";
    assert_eq!(os_from_probe_output(out), Some(String::from("Debian GNU/Linux 12")));
}

#[test]
fn probe_output_quoted_line() {
    assert_eq!(os_from_probe_output("\"Ubuntu 22.04.3 LTS\"\n"), Some(String::from("Ubuntu 22.04.3 LTS")));
}

#[test]
fn probe_output_first_nonblank_line() {
    assert_eq!(
        os_from_probe_output("\n\n  CentOS Linux release 7.9.2009 (Core)  \nmore\n"),
        Some(String::from("CentOS Linux release 7.9.2009 (Core)"))
    );
}

#[test]
fn probe_output_blank_gives_nothing() {
    assert_eq!(os_from_probe_output(""), None);
    assert_eq!(os_from_probe_output(" \n\t\n"), None);
    assert_eq!(os_from_probe_output("\"\n\""), None);
}

#[test]
fn probe_output_real_lsb_release_file() {
    // DISTRIB_CODENAME= holds "NAME=", so the text is read as os-release style;
    // with no PRETTY_NAME, NAME or VERSION line, its first line is the answer.
    let out = "DISTRIB_ID=Ubuntu\nDISTRIB_RELEASE=22.04\nDISTRIB_CODENAME=jammy\nDISTRIB_DESCRIPTION=\"Ubuntu 22.04.3 LTS\"\n";
    assert_eq!(os_from_probe_output(out), Some(String::from("DISTRIB_ID=Ubuntu")));
}

#[test]
fn first_nonblank_line_trims() {
    assert_eq!(first_nonblank_line("\r\n  \n  x y \nz"), Some(String::from("x y")));
    assert_eq!(first_nonblank_line("\n\n"), None);
}

#[test]
fn last_line_without_newline_is_read() {
    assert_eq!(parse_os_release("ID=a\nNAME=\"Arch Linux\"\r"), "Arch Linux");
}

#[test]
fn probe_output_lsb_release_file() {
    let out = "DISTRIB_ID=Ubuntu\nDISTRIB_RELEASE=22.04\nDISTRIB_DESCRIPTION=\"Ubuntu 22.04.3 LTS\"\n";
    // No NAME= line: "DISTRIB_ID=" holds no "NAME=", so the first line is taken.
    assert_eq!(os_from_probe_output(out), Some(String::from("DISTRIB_ID=Ubuntu")));
}
