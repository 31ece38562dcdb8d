use kizuna::json::{json_get, json_items_of, json_string, text_eq, JsonValue};
use kizuna::streaming::capture::cameras::{
    camera_data, cameras_from_camera_data, cameras_from_output, cameras_from_pnp, cameras_from_profiler_output,
    capabilities_from, create_default_camera, default_capture_capabilities, get_default_capabilities,
    linux_capture_capabilities, pnp_devices,
};
use kizuna::streaming::types::{CameraCapability, PixelFormat, Resolution};

#[test]
fn default_capabilities_are_three_yuv_modes() {
    let caps = get_default_capabilities();
    let sizes: Vec<(u32, u32)> = caps.iter().map(|c| (c.resolution.width, c.resolution.height)).collect();
    assert_eq!(sizes, vec![(640, 480), (1280, 720), (1920, 1080)]);
    assert!(caps.iter().all(|c| c.framerate == 30 && c.pixel_format == PixelFormat::YUV420));
}

#[test]
fn failed_windows_query_gives_the_default_camera() {
    let cams = cameras_from_output(false, b"[]");
    assert_eq!(cams.len(), 1);
    assert_eq!(cams[0].id, "default");
    assert_eq!(cams[0].name, "Default Camera");
    assert_eq!(cams[0].description.as_deref(), Some("Default Windows camera"));
    assert_eq!(cams[0].capabilities.len(), 3);
}

#[test]
fn windows_array_keeps_entries_with_both_fields() {
    let json = br#"[{"FriendlyName":"Cam A","InstanceId":"USB\\A"},{"FriendlyName":"No id"},{"FriendlyName":"Cam C","InstanceId":"USB\\C"}]"#;
    let cams = cameras_from_output(true, json);
    assert_eq!(cams.len(), 2);
    assert_eq!(cams[0].id, "USB\\A");
    assert_eq!(cams[0].name, "Cam A");
    assert_eq!(cams[0].description.as_deref(), Some("Windows camera device 0"));
    assert_eq!(cams[1].id, "USB\\C");
    assert_eq!(cams[1].description.as_deref(), Some("Windows camera device 2"));
}

#[test]
fn windows_single_object_is_one_camera() {
    let json = br#"{"FriendlyName":"Only","InstanceId":"ID1"}"#;
    let cams = cameras_from_output(true, json);
    assert_eq!(cams.len(), 1);
    assert_eq!(cams[0].id, "ID1");
    assert_eq!(cams[0].description.as_deref(), Some("Windows camera device 0"));
}

#[test]
fn windows_garbage_or_empty_gives_default() {
    assert_eq!(cameras_from_output(true, b"not json")[0].id, "default");
    assert_eq!(cameras_from_output(true, b"[{\"FriendlyName\":\"x\"}]")[0].name, "Default Camera");
    assert_eq!(cameras_from_pnp(None).len(), 1);
    let listed = cameras_from_pnp(Some(vec![(Some("N".to_string()), Some("I".to_string()))]));
    assert_eq!(listed[0].id, "I");
}

#[test]
fn macos_entries_fall_back_to_positional_ids() {
    let json = br#"{"SPCameraDataType":[{"_name":"FaceTime","unique_id":"U1"},{"_name":"Other"},{"unique_id":"nameless"}]}"#;
    let cams = cameras_from_profiler_output(true, json);
    assert_eq!(cams.len(), 2);
    assert_eq!(cams[0].id, "U1");
    assert_eq!(cams[0].description.as_deref(), Some("macOS camera device 0"));
    assert_eq!(cams[1].id, "camera_1");
    assert_eq!(cams[1].name, "Other");
}

#[test]
fn macos_without_cameras_gives_the_default() {
    let d = create_default_camera();
    assert_eq!(d.name, "FaceTime HD Camera");
    assert_eq!(cameras_from_profiler_output(true, b"{}")[0].name, "FaceTime HD Camera");
    assert_eq!(cameras_from_profiler_output(false, b"")[0].id, "default");
    assert_eq!(cameras_from_camera_data(Some(vec![])).len(), 1);
}

fn text(t: &str) -> JsonValue {
    JsonValue::Str(t.to_string())
}

fn object(fields: Vec<(&str, JsonValue)>) -> JsonValue {
    JsonValue::Object(fields.into_iter().map(|(k, v)| (k.to_string(), v)).collect())
}

#[test]
fn texts_compare_by_their_characters() {
    assert!(text_eq("Camera", "Camera"));
    assert!(!text_eq("Camera", "camera"));
    assert!(!text_eq("Cam", "Camera"));
    assert!(text_eq("", ""));
}

#[test]
fn fields_are_found_by_name_in_objects_only() {
    let d = object(vec![("FriendlyName", text("Cam")), ("InstanceId", JsonValue::Number("7".to_string()))]);
    assert_eq!(json_string(json_get(&d, "FriendlyName")), Some("Cam".to_string()));
    // A field that is not a string gives no text.
    assert_eq!(json_string(json_get(&d, "InstanceId")), None);
    assert!(json_get(&d, "Missing").is_none());
    assert!(json_get(&JsonValue::Array(vec![d]), "FriendlyName").is_none());
}

#[test]
fn a_lone_value_is_a_list_of_one() {
    assert_eq!(json_items_of(JsonValue::Null).len(), 1);
    assert_eq!(json_items_of(JsonValue::Array(vec![JsonValue::Null, JsonValue::Bool(true)])).len(), 2);
    assert_eq!(json_items_of(JsonValue::Array(vec![])).len(), 0);
}

#[test]
fn windows_report_entries_in_order() {
    let report = JsonValue::Array(vec![
        object(vec![("FriendlyName", text("A")), ("InstanceId", text("1"))]),
        object(vec![("FriendlyName", text("B"))]),
    ]);
    let entries = pnp_devices(report);
    assert_eq!(entries, vec![
        (Some("A".to_string()), Some("1".to_string())),
        (Some("B".to_string()), None),
    ]);
    let lone = pnp_devices(object(vec![("InstanceId", text("9"))]));
    assert_eq!(lone, vec![(None, Some("9".to_string()))]);
}

#[test]
fn macos_report_entries_come_from_the_camera_list() {
    let report = object(vec![(
        "SPCameraDataType",
        JsonValue::Array(vec![object(vec![("_name", text("FaceTime")), ("unique_id", text("u1"))])]),
    )]);
    assert_eq!(camera_data(&report), vec![(Some("FaceTime".to_string()), Some("u1".to_string()))]);
    // A list that is missing or no array gives no entries.
    assert!(camera_data(&object(vec![("SPCameraDataType", text("x"))])).is_empty());
    assert!(camera_data(&JsonValue::Null).is_empty());
}

fn cap(w: u32, h: u32, fps: u32, format: PixelFormat) -> CameraCapability {
    CameraCapability { resolution: Resolution { width: w, height: h }, framerate: fps, pixel_format: format }
}

#[test]
fn reported_capabilities_keep_first_occurrences() {
    let caps = capabilities_from(vec![
        cap(1280, 720, 30, PixelFormat::MJPEG),
        cap(640, 480, 30, PixelFormat::YUV420),
        cap(1280, 720, 60, PixelFormat::YUV420),
    ]);
    assert_eq!(caps.supported_resolutions, vec![Resolution { width: 1280, height: 720 }, Resolution { width: 640, height: 480 }]);
    assert_eq!(caps.supported_framerates, vec![30, 60]);
    assert_eq!(caps.supported_formats, vec![PixelFormat::MJPEG, PixelFormat::YUV420]);
    assert!(caps.has_auto_exposure && caps.has_auto_focus);
}

#[test]
fn linux_fallback_and_default_capabilities() {
    let fallback = linux_capture_capabilities(None);
    assert_eq!(fallback.supported_framerates, vec![15, 30, 60]);
    assert_eq!(fallback.supported_formats, vec![PixelFormat::YUV420, PixelFormat::MJPEG]);
    assert!(!fallback.has_auto_focus);
    let defaults = default_capture_capabilities();
    assert_eq!(defaults.supported_formats, vec![PixelFormat::YUV420, PixelFormat::NV12, PixelFormat::MJPEG]);
    assert_eq!(defaults.supported_resolutions.len(), 3);
    assert!(defaults.has_auto_focus);
}
