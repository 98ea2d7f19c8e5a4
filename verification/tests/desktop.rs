use portal_paste::desktop::{token_file_name, uses_portal_for};

#[test]
fn kde_and_gnome_use_the_portal_without_changing_hyprland() {
    for desktop in ["KDE", "GNOME", "X-GNOME:GNOME", "X-KDE:KDE"] {
        assert!(uses_portal_for(desktop));
    }
    for desktop in ["Hyprland", "sway", "", "NOTGNOME"] {
        assert!(!uses_portal_for(desktop));
    }
}

#[test]
fn desktop_names_are_compared_without_case() {
    for desktop in ["kde", "Gnome", "gNoMe", "ubuntu:gnome", "kde:sway"] {
        assert!(uses_portal_for(desktop));
    }
    for desktop in ["KDE ", "K", "KDEE", "X-KDE", ":", "GNOME-Classic", "KD\u{c9}"] {
        assert!(!uses_portal_for(desktop));
    }
}

#[test]
fn empty_entries_do_not_hide_a_name() {
    assert!(uses_portal_for(":KDE"));
    assert!(uses_portal_for("KDE:"));
    assert!(uses_portal_for("sway::GNOME:"));
    assert!(!uses_portal_for("sway::Hyprland:"));
}

#[test]
fn each_desktop_has_its_token_file() {
    assert_eq!(token_file_name("KDE"), "portal-keyboard-kde.token");
    assert_eq!(token_file_name("GNOME:kde"), "portal-keyboard-kde.token");
    assert_eq!(token_file_name("ubuntu:GNOME"), "portal-keyboard-gnome.token");
    assert_eq!(token_file_name(""), "portal-keyboard-gnome.token");
}
