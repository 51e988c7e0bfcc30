use lib::bootlog::{
    fail, ok, percent_cells, prefix, quickinit_overlay_geometry, same_text, status, warn, Glyph, Overlay, Status,
};

#[test]
fn bootlog_lines() {
    assert_eq!(Status::Pass.label(), "  OK  ");
    assert_eq!(Status::Fail.label(), "FAILED");
    assert_eq!(Status::Spin(9).label(), "   >  ");
    assert_eq!(Status::Spin(7).label(), " <    ");
    assert_eq!(Status::Warn.color(), "\x1b[93m");
    assert_eq!(prefix(Status::Pass), "\x1b[90m[\x1b[0m\x1b[92m  OK  \x1b[0m\x1b[90m]\x1b[0m ");
    assert_eq!(ok("ready"), "\r\x1b[2K\x1b[90m[\x1b[0m\x1b[92m  OK  \x1b[0m\x1b[90m]\x1b[0m ready\n");
    assert!(fail("disk").contains("FAILED"));
    assert!(warn("slow").ends_with("slow\n"));
    assert_eq!(status(Status::Spin(0), "x"), "\r\x1b[2K\x1b[90m[\x1b[0m\x1b[97m  >   \x1b[0m\x1b[90m]\x1b[0m x\n");
}

#[test]
fn bootlog_percent_and_geometry() {
    assert_eq!(percent_cells(0), *b"  0%");
    assert_eq!(percent_cells(7), *b"  7%");
    assert_eq!(percent_cells(42), *b" 42%");
    assert_eq!(percent_cells(100), *b"100%");
    assert_eq!(percent_cells(250), *b"100%");
    assert_eq!(quickinit_overlay_geometry(80, 25), Some((13, 8)));
    assert_eq!(quickinit_overlay_geometry(55, 25), None);
    assert_eq!(quickinit_overlay_geometry(56, 11), Some((1, 1)));
    assert!(same_text("abc", "abc"));
    assert!(!same_text("abc", "abd"));
}

#[test]
fn bootlog_overlay_redraws_what_changed() {
    let mut overlay = Overlay::begin(Some((80, 25)));
    assert!(overlay.contains(13, 8));
    assert!(overlay.contains(66, 16));
    assert!(!overlay.contains(67, 16));
    assert!(!overlay.contains(12, 8));
    let first = overlay.draw();
    assert_eq!(first.len(), 593);
    assert!(first.iter().all(|c| (13..67).contains(&c.column) && (8..17).contains(&c.row)));
    assert!(first.iter().any(|c| c.column == 13 && c.row == 8 && c.glyph == Glyph::Symbol('┌')));
    assert!(overlay.draw().is_empty());
    overlay.set_stage("loading drivers", 50);
    let update = overlay.draw();
    assert_eq!(update.len(), 70);
    overlay.complete(true);
    assert_eq!(overlay.stage, "system ready");
    assert_eq!(overlay.percent, 100);
    overlay.crash("panic");
    assert_eq!(overlay.stage, "panic");
    assert!(overlay.shell());
    assert!(!overlay.contains(13, 8));
    assert!(overlay.draw().is_empty());

    let mut headless = Overlay::begin(None);
    headless.crash("panic");
    assert_eq!(headless.stage, "starting quickinit");
    assert!(headless.draw().is_empty());
    assert!(!headless.shell());
}
