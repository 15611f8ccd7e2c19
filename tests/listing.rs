use guest_probe::listing::{change_media_args, find_cdrom, find_mounted_iso, vm_names};
use guest_probe::speedtest::{find_app_speedtest_dir, get_hostname};

const BLKLIST: &str = " Target   Source\n------------------------------------------------\n vda      /var/lib/libvirt/images/web01.qcow2\n hdc      /srv/iso/debian-12.iso\n";

#[test]
fn vm_names_skip_blank_lines() {
    assert_eq!(vm_names("web01\n  db02  \n\n \n"), vec!["web01", "db02"]);
    assert!(vm_names("").is_empty());
}

#[test]
fn cdrom_device_found() {
    assert_eq!(find_cdrom(BLKLIST), Some(String::from("hdc")));
    assert_eq!(find_cdrom(" vda /a.qcow2\n"), None);
}

#[test]
fn mounted_iso_found() {
    assert_eq!(find_mounted_iso(BLKLIST), Some(String::from("/srv/iso/debian-12.iso")));
    assert_eq!(find_mounted_iso(" hdc      -\n"), None);
    assert_eq!(find_mounted_iso(" hdc  a b.iso\n"), None);
}

#[test]
fn change_media_arguments() {
    assert_eq!(
        change_media_args("web01", "hdc", "/srv/x.iso"),
        vec!["change-media", "web01", "hdc", "--insert", "/srv/x.iso", "--live"]
    );
}

#[test]
fn hostname_is_trimmed() {
    assert_eq!(get_hostname("nas01\n"), Some(String::from("nas01")));
    assert_eq!(get_hostname("  \n"), None);
}

#[test]
fn speedtest_dir_found() {
    let entries = vec![String::from("if-eth0"), String::from("app-speedtest-3"), String::from("app-speedtest-9")];
    assert_eq!(find_app_speedtest_dir(&entries), Some(String::from("app-speedtest-3")));
    assert_eq!(find_app_speedtest_dir(&vec![String::from("app-speed")]), None);
}
