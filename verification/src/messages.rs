//! The status and error strings that the backend commands report to the
//! front end. Each builder states the exact text it returns.

use vstd::prelude::*;

verus! {

/// The status string returned after a successful save.
pub fn save_success() -> (r: String)
    ensures
        r@ == "success"@,
{
    String::from_str("success")
}

/// The error reported when the sprite file cannot be created.
pub fn save_create_error(path: &str, err: &str) -> (r: String)
    ensures
        r@ == "Failed to create file at "@ + path@ + ": "@ + err@,
{
    let mut r = String::from_str("Failed to create file at ");
    r.append(path);
    r.append(": ");
    r.append(err);
    r
}

/// The error reported when writing the sprite data fails.
pub fn save_write_error(path: &str, err: &str) -> (r: String)
    ensures
        r@ == "Failed to write to file "@ + path@ + ": "@ + err@,
{
    let mut r = String::from_str("Failed to write to file ");
    r.append(path);
    r.append(": ");
    r.append(err);
    r
}

/// The error reported when a sprite file cannot be read back.
pub fn open_error(err: &str) -> (r: String)
    ensures
        r@ == "Error: "@ + err@,
{
    let mut r = String::from_str("Error: ");
    r.append(err);
    r
}

/// The error reported when the raw buffer does not match the dimensions
/// of the sprite to export.
pub fn export_buffer_error() -> (r: String)
    ensures
        r@ == "Failed to create original image buffer from pixels"@,
{
    String::from_str("Failed to create original image buffer from pixels")
}

/// The error reported when the rasterized image cannot be written.
pub fn export_save_error(path: &str, err: &str) -> (r: String)
    ensures
        r@ == "Failed to save image to "@ + path@ + ": "@ + err@,
{
    let mut r = String::from_str("Failed to save image to ");
    r.append(path);
    r.append(": ");
    r.append(err);
    r
}

/// The error reported when the background export task is cancelled or
/// fails before it can report its own result.
pub fn export_task_error(err: &str) -> (r: String)
    ensures
        r@ == "Blocking task failed: "@ + err@,
{
    let mut r = String::from_str("Blocking task failed: ");
    r.append(err);
    r
}

} // verus!
