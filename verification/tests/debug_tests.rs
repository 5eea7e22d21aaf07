use dc34_console::debug::{bookmark_count, report};

fn v(ks: &[&str]) -> Vec<String> {
    ks.iter().map(|k| k.to_string()).collect()
}

#[test]
fn counter_is_not_a_code() {
    assert_eq!(bookmark_count(&v(&["a", "__counter__", "b"])), 2);
    assert_eq!(bookmark_count(&v(&[])), 0);
}

#[test]
fn full_report() {
    let up = 3 * 3_600_000 + 4 * 60_000 + 5_000 + 999;
    let t = report(up, 2, &v(&["__counter__", "x"]), &Ok(v(&["vault.photos", "vault.bookmarks"])), &Ok(()));
    assert_eq!(
        t,
        "uptime      3h 04m 05s\nphotos      2 stored\nqr codes    1 stored\npddb dicts  vault.photos, vault.bookmarks\nvault       responding\nlog level   set with `debug` on the badge's own log stream"
    );
    let t = report(59_999, 0, &v(&[]), &Err("KeyNotFound".to_string()), &Err("ServerNotFound".to_string()));
    assert_eq!(
        t,
        "uptime      0h 00m 59s\nphotos      0 stored\nqr codes    0 stored\npddb dicts  unreadable: KeyNotFound\nvault       NOT RESPONDING: ServerNotFound\nlog level   set with `debug` on the badge's own log stream"
    );
}
