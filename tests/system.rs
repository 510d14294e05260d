use remind::system_info::{get_system_info, get_windows_version, trim_text};

#[test]
fn windows_caption_from_wmic_output() {
    let out = "\r\r\n\r\r\nCaption=Microsoft Windows 11 Pro  \r\r\n\r\r\n";
    assert_eq!(get_windows_version(Some(out)), "Microsoft Windows 11 Pro");
}

#[test]
fn windows_caption_fallbacks() {
    assert_eq!(get_windows_version(None), "Windows");
    assert_eq!(get_windows_version(Some("")), "Windows");
    assert_eq!(get_windows_version(Some("Caption=   \nOther=1")), "Windows");
    assert_eq!(get_windows_version(Some("caption=lower")), "Windows");
    assert_eq!(get_windows_version(Some("Name=x\nCaption=\nCaption=Windows 10")), "Windows 10");
    assert_eq!(get_windows_version(Some("Caption=A Caption=B")), "A B");
}

#[test]
fn trims_unicode_white_space() {
    assert_eq!(trim_text("\u{3000}\t x y \u{a0}\n"), "x y");
    assert_eq!(trim_text("   "), "");
    assert_eq!(trim_text(""), "");
}

#[test]
fn system_info_names() {
    let linux = get_system_info("0.1.0", "linux", "x86_64", None);
    assert_eq!(linux.app_version, "0.1.0");
    assert_eq!(linux.os_name, "Linux");
    assert_eq!(linux.os_version, "Unknown");
    assert_eq!(linux.arch, "64-Bit");
    let mac = get_system_info("1", "macos", "aarch64", None);
    assert_eq!(mac.os_name, "macOS");
    assert_eq!(mac.arch, "ARM64");
    let win = get_system_info("1", "windows", "x86", Some("Caption=Windows 10 Home\r\n"));
    assert_eq!(win.os_name, "Windows");
    assert_eq!(win.os_version, "Windows 10 Home");
    assert_eq!(win.arch, "32-Bit");
    let other = get_system_info("1", "freebsd", "riscv64", None);
    assert_eq!(other.os_name, "Unknown");
    assert_eq!(other.arch, "riscv64");
}
