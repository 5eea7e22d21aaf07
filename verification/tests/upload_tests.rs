use dc34_console::upload::{pause_after_line, Upload};

#[test]
fn pause_every_eighth_line() {
    assert!(!pause_after_line(0));
    assert!(pause_after_line(7));
    assert!(!pause_after_line(8));
    assert!(pause_after_line(15));
}

#[test]
fn upload_help_and_usage() {
    let _u = Upload::new();
    assert_eq!(Upload::verb(), "upload");
    assert_eq!(Upload::help(), "print a script for sending things to the badge");
}
