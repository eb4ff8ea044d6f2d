use fontpath_shim::rewrite::{has_source_prefix, redirect, DESTINATION_PREFIX, SOURCE_PREFIX};

#[test]
fn prefixes_are_the_fixed_pair() {
    assert_eq!(SOURCE_PREFIX, "/home/optoforce/newSRC/lib/fonts");
    assert_eq!(DESTINATION_PREFIX, "/usr/share/fonts/X11/Type1");
    assert_eq!(SOURCE_PREFIX.len(), 32);
    assert_eq!(DESTINATION_PREFIX.len(), 26);
}

#[test]
fn unrelated_path_is_unchanged() {
    assert_eq!(redirect("/etc/fstab"), "/etc/fstab");
    assert!(!has_source_prefix("/etc/fstab"));
}

#[test]
fn empty_path_is_unchanged() {
    assert_eq!(redirect(""), "");
    assert!(!has_source_prefix(""));
}

#[test]
fn exact_prefix_becomes_destination() {
    assert!(has_source_prefix("/home/optoforce/newSRC/lib/fonts"));
    assert_eq!(redirect("/home/optoforce/newSRC/lib/fonts"), "/usr/share/fonts/X11/Type1");
}

#[test]
fn remainder_is_kept_byte_for_byte() {
    assert_eq!(
        redirect("/home/optoforce/newSRC/lib/fonts/extra.pfa"),
        "/usr/share/fonts/X11/Type1/extra.pfa"
    );
    assert_eq!(
        redirect("/home/optoforce/newSRC/lib/fonts//a/../b/"),
        "/usr/share/fonts/X11/Type1//a/../b/"
    );
}

#[test]
fn match_ignores_path_components() {
    assert_eq!(
        redirect("/home/optoforce/newSRC/lib/fonts2/x"),
        "/usr/share/fonts/X11/Type12/x"
    );
}

#[test]
fn shorter_than_prefix_is_unchanged() {
    assert_eq!(redirect("/home/optoforce/newSRC/lib/font"), "/home/optoforce/newSRC/lib/font");
    assert_eq!(redirect("/home"), "/home");
}

#[test]
fn prefix_elsewhere_is_not_rewritten() {
    let inner = "/mnt/home/optoforce/newSRC/lib/fonts/a.pfa";
    assert_eq!(redirect(inner), inner);
    let relative = "home/optoforce/newSRC/lib/fonts";
    assert_eq!(redirect(relative), relative);
}

#[test]
fn match_is_case_sensitive() {
    let lower = "/home/optoforce/newsrc/lib/fonts/a.pfa";
    assert_eq!(redirect(lower), lower);
    let upper = "/HOME/optoforce/newSRC/lib/fonts";
    assert_eq!(redirect(upper), upper);
}

#[test]
fn remainder_beyond_ascii_is_kept() {
    assert_eq!(
        redirect("/home/optoforce/newSRC/lib/fonts/\u{e9}t\u{e9}/\u{1f600}.pfa"),
        "/usr/share/fonts/X11/Type1/\u{e9}t\u{e9}/\u{1f600}.pfa"
    );
    let other = "/h\u{f6}me/optoforce/newSRC/lib/fonts";
    assert_eq!(redirect(other), other);
}

#[test]
fn rewriting_twice_is_rewriting_once() {
    let paths = [
        "/etc/fstab",
        "",
        "/home/optoforce/newSRC/lib/fonts",
        "/home/optoforce/newSRC/lib/fonts/extra.pfa",
        "/home/optoforce/newSRC/lib/fonts/home/optoforce/newSRC/lib/fonts",
    ];
    for p in paths {
        let once = redirect(p);
        assert_eq!(redirect(&once), once);
    }
}

#[test]
fn length_changes_by_the_prefix_difference() {
    let hit = "/home/optoforce/newSRC/lib/fonts/extra.pfa";
    assert_eq!(redirect(hit).len(), hit.len() - 32 + 26);
    assert_eq!(redirect(hit).len(), 36);
    let miss = "/etc/fstab";
    assert_eq!(redirect(miss).len(), miss.len());
}
