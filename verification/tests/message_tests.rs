use sprite_backend::messages;

#[test]
fn save_success_text() {
    assert_eq!(messages::save_success(), "success");
}

#[test]
fn save_create_error_text() {
    assert_eq!(
        messages::save_create_error("/tmp/a.json", "denied"),
        "Failed to create file at /tmp/a.json: denied"
    );
}

#[test]
fn save_write_error_text() {
    assert_eq!(
        messages::save_write_error("a.json", "disk full"),
        "Failed to write to file a.json: disk full"
    );
}

#[test]
fn open_error_text() {
    assert_eq!(
        messages::open_error("No such file or directory (os error 2)"),
        "Error: No such file or directory (os error 2)"
    );
}

#[test]
fn export_buffer_error_text() {
    assert_eq!(
        messages::export_buffer_error(),
        "Failed to create original image buffer from pixels"
    );
}

#[test]
fn export_save_error_text() {
    assert_eq!(
        messages::export_save_error("out.png", "bad extension"),
        "Failed to save image to out.png: bad extension"
    );
}

#[test]
fn export_task_error_text() {
    assert_eq!(
        messages::export_task_error("cancelled"),
        "Blocking task failed: cancelled"
    );
}
