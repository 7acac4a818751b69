use sysview::sysinfo::{hostname, kernel_release, os_name};

#[test]
fn the_pretty_name_is_read_without_its_quotes() {
    let text = "NAME=\"Ubuntu\"\nVERSION_ID=\"24.04\"\nPRETTY_NAME=\"Ubuntu 24.04 LTS\"\nID=ubuntu\n";
    assert_eq!(os_name(Some(text)), "Ubuntu 24.04 LTS");
    assert_eq!(os_name(Some("PRETTY_NAME=Arch Linux\r\n")), "Arch Linux", "a CRLF ending is not part of the value");
    assert_eq!(os_name(Some("ID=x\nPRETTY_NAME=\"\"\"Quoted\"")), "Quoted");
}

#[test]
fn without_a_pretty_name_it_is_linux() {
    assert_eq!(os_name(None), "Linux");
    assert_eq!(os_name(Some("")), "Linux");
    assert_eq!(os_name(Some("NAME=Debian\n  PRETTY_NAME=indented\n")), "Linux", "the key must start the line");
}

#[test]
fn names_are_trimmed_or_fall_back() {
    assert_eq!(hostname(Some("box\n")), "box");
    assert_eq!(hostname(None), "localhost");
    assert_eq!(kernel_release(Some(" 6.8.0-45-generic \n")), "6.8.0-45-generic");
    assert_eq!(kernel_release(None), "unknown");
}
