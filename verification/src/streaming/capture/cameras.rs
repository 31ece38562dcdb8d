//! Camera lists built from the device reports of Windows (`Get-PnpDevice`
//! as JSON) and macOS (`system_profiler SPCameraDataType -json`).

use vstd::prelude::*;
use vstd::utf8::{decode_utf8, valid_utf8};
use crate::streaming::types::{CameraCapability, CameraDevice, CaptureCapabilities, PixelFormat, Resolution};
use crate::text::{append_str, append_string, decimal, u64_to_decimal};
use crate::json::{
    JsonValue, JsonView, json_field, json_get, json_items, json_items_of, json_parsed, json_string, json_text, json_views,
    parse_json,
};

verus! {

/// The text that `String::from_utf8_lossy` makes of some bytes.
pub uninterp spec fn utf8_lossy(bytes: Seq<u8>) -> Seq<char>;

/// The text of an optional string.
pub open spec fn opt_text(o: Option<String>) -> Option<Seq<char>> {
    match o {
        Some(s) => Some(s@),
        None => None,
    }
}

/// The texts of a list of optional string pairs.
pub open spec fn pair_texts(v: Seq<(Option<String>, Option<String>)>) -> Seq<(Option<Seq<char>>, Option<Seq<char>>)> {
    Seq::new(v.len(), |i: int| (opt_text(v[i].0), opt_text(v[i].1)))
}

/// The texts of an optional list of optional string pairs.
pub open spec fn opt_pairs(o: Option<Vec<(Option<String>, Option<String>)>>) -> Option<Seq<(Option<Seq<char>>, Option<Seq<char>>)>> {
    match o {
        Some(v) => Some(pair_texts(v@)),
        None => None,
    }
}

/// The text of some bytes, with each invalid sequence replaced.
///
/// Trusted: calls `String::from_utf8_lossy`, which std documents as
/// returning the text itself when the bytes are valid UTF-8.
#[verifier::external_body]
fn lossy_text(bytes: &[u8]) -> (r: String)
    ensures
        r@ == utf8_lossy(bytes@),
        valid_utf8(bytes@) ==> r@ == decode_utf8(bytes@),
{
    String::from_utf8_lossy(bytes).into_owned()
}

/// The name and id of one Windows device entry, where they are strings.
pub open spec fn pnp_entry(d: JsonView) -> (Option<Seq<char>>, Option<Seq<char>>) {
    (json_text(json_field(d, "FriendlyName"@)), json_text(json_field(d, "InstanceId"@)))
}

/// The entries of a Windows device report: the elements of an array, or a
/// lone value as a list of one.
pub open spec fn pnp_entries(report: JsonView) -> Seq<(Option<Seq<char>>, Option<Seq<char>>)> {
    Seq::new(json_items(report).len(), |i: int| pnp_entry(json_items(report)[i]))
}

/// The name and id of one macOS camera entry, where they are strings.
pub open spec fn camera_entry(d: JsonView) -> (Option<Seq<char>>, Option<Seq<char>>) {
    (json_text(json_field(d, "_name"@)), json_text(json_field(d, "unique_id"@)))
}

/// The camera list of a macOS report: the array under `SPCameraDataType`,
/// or none when that is missing or no array.
pub open spec fn camera_list(report: JsonView) -> Seq<JsonView> {
    match json_field(report, "SPCameraDataType"@) {
        Some(JsonView::Array(a)) => a,
        _ => Seq::empty(),
    }
}

/// The entries of a macOS camera report.
pub open spec fn camera_entries(report: JsonView) -> Seq<(Option<Seq<char>>, Option<Seq<char>>)> {
    Seq::new(camera_list(report).len(), |i: int| camera_entry(camera_list(report)[i]))
}

/// The entries of a Windows report text: `None` when it is not JSON.
pub open spec fn pnp_devices_of(json: Seq<char>) -> Option<Seq<(Option<Seq<char>>, Option<Seq<char>>)>> {
    match json_parsed(json) {
        Some(v) => Some(pnp_entries(v)),
        None => None,
    }
}

/// The entries of a macOS report text: `None` when it is not JSON.
pub open spec fn camera_data_of(json: Seq<char>) -> Option<Seq<(Option<Seq<char>>, Option<Seq<char>>)>> {
    match json_parsed(json) {
        Some(v) => Some(camera_entries(v)),
        None => None,
    }
}

/// The text of the field `key` of `d`, where it is a string.
fn string_field(d: &JsonValue, key: &str) -> (r: Option<String>)
    ensures
        opt_text(r) == json_text(json_field(d@, key@)),
{
    json_string(json_get(d, key))
}

/// The (name, id) entries of a Windows device report.
pub fn pnp_devices(report: JsonValue) -> (r: Vec<(Option<String>, Option<String>)>)
    ensures
        pair_texts(r@) == pnp_entries(report@),
{
    let ghost rv = report@;
    let items = json_items_of(report);
    let mut out: Vec<(Option<String>, Option<String>)> = Vec::new();
    let mut i: usize = 0;
    while i < items.len()
        invariant
            i <= items.len(),
            json_views(items@) == json_items(rv),
            out@.len() == i,
            forall|j: int| 0 <= j < i ==> #[trigger] pair_texts(out@)[j] == pnp_entry(json_items(rv)[j]),
        decreases items.len() - i,
    {
        let name = string_field(&items[i], "FriendlyName");
        let id = string_field(&items[i], "InstanceId");
        let ghost before = out@;
        out.push((name, id));
        assert(json_items(rv)[i as int] == items@[i as int]@);
        assert forall|j: int| 0 <= j < i + 1 implies #[trigger] pair_texts(out@)[j] == pnp_entry(json_items(rv)[j]) by {
            if j < i {
                assert(pair_texts(out@)[j] == pair_texts(before)[j]);
            }
        }
        i = i + 1;
    }
    assert(pair_texts(out@) =~= pnp_entries(rv));
    out
}

/// The (name, id) entries of a macOS camera report.
pub fn camera_data(report: &JsonValue) -> (r: Vec<(Option<String>, Option<String>)>)
    ensures
        pair_texts(r@) == camera_entries(report@),
{
    let mut out: Vec<(Option<String>, Option<String>)> = Vec::new();
    match json_get(report, "SPCameraDataType") {
        Some(JsonValue::Array(list)) => {
            let ghost lv = camera_list(report@);
            assert(lv.len() == list@.len());
            assert(forall|j: int| 0 <= j < list@.len() ==> #[trigger] lv[j] == list@[j]@);
            let mut i: usize = 0;
            while i < list.len()
                invariant
                    i <= list.len(),
                    lv == camera_list(report@),
                    lv.len() == list@.len(),
                    forall|j: int| 0 <= j < list@.len() ==> #[trigger] lv[j] == list@[j]@,
                    out@.len() == i,
                    forall|j: int| 0 <= j < i ==> #[trigger] pair_texts(out@)[j] == camera_entry(lv[j]),
                decreases list.len() - i,
            {
                let name = string_field(&list[i], "_name");
                let id = string_field(&list[i], "unique_id");
                let ghost before = out@;
                out.push((name, id));
                assert(lv[i as int] == list@[i as int]@);
                assert forall|j: int| 0 <= j < i + 1 implies #[trigger] pair_texts(out@)[j] == camera_entry(lv[j]) by {
                    if j < i {
                        assert(pair_texts(out@)[j] == pair_texts(before)[j]);
                    }
                }
                i = i + 1;
            }
            assert(pair_texts(out@) =~= camera_entries(report@));
        },
        _ => {
            assert(pair_texts(out@) =~= camera_entries(report@));
        },
    }
    out
}

/// The device entries of a Windows report text.
fn parse_pnp_devices(json: &str) -> (r: Option<Vec<(Option<String>, Option<String>)>>)
    ensures
        opt_pairs(r) == pnp_devices_of(json@),
{
    match parse_json(json) {
        Some(v) => Some(pnp_devices(v)),
        None => None,
    }
}

/// The camera entries of a macOS report text.
fn parse_camera_data(json: &str) -> (r: Option<Vec<(Option<String>, Option<String>)>>)
    ensures
        opt_pairs(r) == camera_data_of(json@),
{
    match parse_json(json) {
        Some(v) => Some(camera_data(&v)),
        None => None,
    }
}

/// What a camera is, with its texts as character sequences.
pub struct CameraView {
    pub id: Seq<char>,
    pub name: Seq<char>,
    pub description: Option<Seq<char>>,
    pub capabilities: Seq<CameraCapability>,
}

/// The abstract value of a camera.
pub open spec fn camera_view(c: CameraDevice) -> CameraView {
    CameraView { id: c.id@, name: c.name@, description: opt_text(c.description), capabilities: c.capabilities@ }
}

/// The abstract values of a list of cameras.
pub open spec fn camera_views(v: Seq<CameraDevice>) -> Seq<CameraView> {
    Seq::new(v.len(), |i: int| camera_view(v[i]))
}

/// The capabilities assumed of every camera: 640x480, 1280x720 and
/// 1920x1080, each at 30 fps in YUV420.
pub open spec fn default_capabilities() -> Seq<CameraCapability> {
    seq![
        CameraCapability { resolution: Resolution { width: 640, height: 480 }, framerate: 30, pixel_format: PixelFormat::YUV420 },
        CameraCapability { resolution: Resolution { width: 1280, height: 720 }, framerate: 30, pixel_format: PixelFormat::YUV420 },
        CameraCapability { resolution: Resolution { width: 1920, height: 1080 }, framerate: 30, pixel_format: PixelFormat::YUV420 },
    ]
}

/// The capabilities assumed of every camera.
pub fn get_default_capabilities() -> (r: Vec<CameraCapability>)
    ensures
        r@ == default_capabilities(),
{
    let r = vec![
        CameraCapability { resolution: Resolution { width: 640, height: 480 }, framerate: 30, pixel_format: PixelFormat::YUV420 },
        CameraCapability { resolution: Resolution { width: 1280, height: 720 }, framerate: 30, pixel_format: PixelFormat::YUV420 },
        CameraCapability { resolution: Resolution { width: 1920, height: 1080 }, framerate: 30, pixel_format: PixelFormat::YUV420 },
    ];
    assert(r@ =~= default_capabilities());
    r
}

/// The camera listed when Windows reports none.
pub open spec fn default_windows_camera() -> CameraView {
    CameraView {
        id: "default"@,
        name: "Default Camera"@,
        description: Some("Default Windows camera"@),
        capabilities: default_capabilities(),
    }
}

/// The camera listed when macOS reports none.
pub open spec fn default_macos_camera() -> CameraView {
    CameraView {
        id: "default"@,
        name: "FaceTime HD Camera"@,
        description: Some("Default macOS camera"@),
        capabilities: default_capabilities(),
    }
}

/// The cameras of the first `n` Windows entries: one per entry that has
/// both a name and an id, described by its position.
pub open spec fn windows_listed(devs: Seq<(Option<Seq<char>>, Option<Seq<char>>)>, n: nat) -> Seq<CameraView>
    decreases n,
{
    if n == 0 {
        Seq::empty()
    } else {
        let prev = windows_listed(devs, (n - 1) as nat);
        let d = devs[n - 1];
        match (d.0, d.1) {
            (Some(name), Some(id)) => prev.push(
                CameraView {
                    id,
                    name,
                    description: Some("Windows camera device "@ + decimal((n - 1) as nat)),
                    capabilities: default_capabilities(),
                },
            ),
            _ => prev,
        }
    }
}

/// The cameras of a Windows report: those listed, or the default camera
/// when there are none or the report is no JSON.
pub open spec fn windows_cameras(devs: Option<Seq<(Option<Seq<char>>, Option<Seq<char>>)>>) -> Seq<CameraView> {
    match devs {
        Some(d) => if windows_listed(d, d.len()).len() > 0 {
            windows_listed(d, d.len())
        } else {
            seq![default_windows_camera()]
        },
        None => seq![default_windows_camera()],
    }
}

/// The cameras of the first `n` macOS entries: one per entry with a name,
/// its id being `camera_<position>` where the entry has none.
pub open spec fn macos_listed(devs: Seq<(Option<Seq<char>>, Option<Seq<char>>)>, n: nat) -> Seq<CameraView>
    decreases n,
{
    if n == 0 {
        Seq::empty()
    } else {
        let prev = macos_listed(devs, (n - 1) as nat);
        let d = devs[n - 1];
        match d.0 {
            Some(name) => prev.push(
                CameraView {
                    id: match d.1 {
                        Some(id) => id,
                        None => "camera_"@ + decimal((n - 1) as nat),
                    },
                    name,
                    description: Some("macOS camera device "@ + decimal((n - 1) as nat)),
                    capabilities: default_capabilities(),
                },
            ),
            None => prev,
        }
    }
}

/// The cameras of a macOS report: those listed, or the default camera when
/// there are none or the report is no JSON.
pub open spec fn macos_cameras(devs: Option<Seq<(Option<Seq<char>>, Option<Seq<char>>)>>) -> Seq<CameraView> {
    match devs {
        Some(d) => if macos_listed(d, d.len()).len() > 0 {
            macos_listed(d, d.len())
        } else {
            seq![default_macos_camera()]
        },
        None => seq![default_macos_camera()],
    }
}

/// A camera with the given texts and the default capabilities.
fn make_camera(id: String, name: String, description: String) -> (r: CameraDevice)
    ensures
        camera_view(r) == (CameraView {
            id: id@,
            name: name@,
            description: Some(description@),
            capabilities: default_capabilities(),
        }),
{
    CameraDevice { id, name, description: Some(description), capabilities: get_default_capabilities() }
}

/// `prefix` followed by `n` in decimal.
fn numbered(prefix: &str, n: usize) -> (r: String)
    ensures
        r@ == prefix@ + decimal(n as nat),
{
    let mut s = String::new();
    append_str(&mut s, prefix);
    let d = u64_to_decimal(n as u64);
    append_string(&mut s, &d);
    s
}

/// The camera listed when Windows reports none.
pub fn create_default_windows_camera() -> (r: CameraDevice)
    ensures
        camera_view(r) == default_windows_camera(),
{
    make_camera(
        String::from_str("default"),
        String::from_str("Default Camera"),
        String::from_str("Default Windows camera"),
    )
}

/// The camera listed when macOS reports none.
pub fn create_default_camera() -> (r: CameraDevice)
    ensures
        camera_view(r) == default_macos_camera(),
{
    make_camera(
        String::from_str("default"),
        String::from_str("FaceTime HD Camera"),
        String::from_str("Default macOS camera"),
    )
}

/// The cameras of the Windows device entries (name, id): one per entry that
/// has both, in order, described by its position; the default camera when
/// there is no such entry or no report.
pub fn cameras_from_pnp(devices: Option<Vec<(Option<String>, Option<String>)>>) -> (r: Vec<CameraDevice>)
    ensures
        camera_views(r@) == windows_cameras(opt_pairs(devices)),
        r@.len() >= 1,
{
    let devs = match devices {
        Some(d) => d,
        None => {
            let r = vec![create_default_windows_camera()];
            assert(camera_views(r@) =~= seq![default_windows_camera()]);
            return r;
        },
    };
    let ghost texts = pair_texts(devs@);
    let mut out: Vec<CameraDevice> = Vec::new();
    let mut i: usize = 0;
    while i < devs.len()
        invariant
            i <= devs@.len(),
            texts == pair_texts(devs@),
            camera_views(out@) == windows_listed(texts, i as nat),
        decreases devs@.len() - i,
    {
        let ghost before = out@;
        match (&devs[i].0, &devs[i].1) {
            (Some(name), Some(id)) => {
                let c = make_camera(id.clone(), name.clone(), numbered("Windows camera device ", i));
                out.push(c);
                assert(camera_views(out@) =~= camera_views(before).push(camera_view(c)));
            },
            _ => {},
        }
        i = i + 1;
    }
    if out.len() == 0 {
        let r = vec![create_default_windows_camera()];
        assert(camera_views(r@) =~= seq![default_windows_camera()]);
        return r;
    }
    out
}

/// The cameras of the macOS camera entries (name, id): one per entry with a
/// name, in order, with `camera_<position>` as id where it has none; the
/// default camera when there is no such entry or no report.
pub fn cameras_from_camera_data(devices: Option<Vec<(Option<String>, Option<String>)>>) -> (r: Vec<CameraDevice>)
    ensures
        camera_views(r@) == macos_cameras(opt_pairs(devices)),
        r@.len() >= 1,
{
    let devs = match devices {
        Some(d) => d,
        None => {
            let r = vec![create_default_camera()];
            assert(camera_views(r@) =~= seq![default_macos_camera()]);
            return r;
        },
    };
    let ghost texts = pair_texts(devs@);
    let mut out: Vec<CameraDevice> = Vec::new();
    let mut i: usize = 0;
    while i < devs.len()
        invariant
            i <= devs@.len(),
            texts == pair_texts(devs@),
            camera_views(out@) == macos_listed(texts, i as nat),
        decreases devs@.len() - i,
    {
        let ghost before = out@;
        match &devs[i].0 {
            Some(name) => {
                let id = match &devs[i].1 {
                    Some(id) => id.clone(),
                    None => numbered("camera_", i),
                };
                let c = make_camera(id, name.clone(), numbered("macOS camera device ", i));
                out.push(c);
                assert(camera_views(out@) =~= camera_views(before).push(camera_view(c)));
            },
            None => {},
        }
        i = i + 1;
    }
    if out.len() == 0 {
        let r = vec![create_default_camera()];
        assert(camera_views(r@) =~= seq![default_macos_camera()]);
        return r;
    }
    out
}

/// The cameras of a Windows device query: its output read as JSON when the
/// query succeeded, the default camera otherwise.
pub fn cameras_from_output(status_ok: bool, stdout: &[u8]) -> (r: Vec<CameraDevice>)
    ensures
        camera_views(r@) == if status_ok {
            windows_cameras(pnp_devices_of(utf8_lossy(stdout@)))
        } else {
            seq![default_windows_camera()]
        },
        r@.len() >= 1,
{
    if !status_ok {
        return cameras_from_pnp(None);
    }
    let text = lossy_text(stdout);
    cameras_from_pnp(parse_pnp_devices(text.as_str()))
}

/// The cameras of a macOS camera report: its output read as JSON when the
/// report succeeded, the default camera otherwise.
pub fn cameras_from_profiler_output(status_ok: bool, stdout: &[u8]) -> (r: Vec<CameraDevice>)
    ensures
        camera_views(r@) == if status_ok {
            macos_cameras(camera_data_of(utf8_lossy(stdout@)))
        } else {
            seq![default_macos_camera()]
        },
        r@.len() >= 1,
{
    if !status_ok {
        return cameras_from_camera_data(None);
    }
    let text = lossy_text(stdout);
    cameras_from_camera_data(parse_camera_data(text.as_str()))
}

/// The distinct values of `s`, each where it first occurs, in order.
pub open spec fn firsts<A>(s: Seq<A>) -> Seq<A>
    decreases s.len(),
{
    if s.len() == 0 {
        s
    } else {
        let prev = firsts(s.drop_last());
        if prev.contains(s.last()) {
            prev
        } else {
            prev.push(s.last())
        }
    }
}

/// The resolutions of the first `n` capabilities.
pub open spec fn resolutions_of(caps: Seq<CameraCapability>, n: int) -> Seq<Resolution> {
    Seq::new(n as nat, |j: int| caps[j].resolution)
}

/// The framerates of the first `n` capabilities.
pub open spec fn framerates_of(caps: Seq<CameraCapability>, n: int) -> Seq<u32> {
    Seq::new(n as nat, |j: int| caps[j].framerate)
}

/// The pixel formats of the first `n` capabilities.
pub open spec fn formats_of(caps: Seq<CameraCapability>, n: int) -> Seq<PixelFormat> {
    Seq::new(n as nat, |j: int| caps[j].pixel_format)
}

/// Whether `v` holds `x`.
fn has_resolution(v: &Vec<Resolution>, x: Resolution) -> (r: bool)
    ensures
        r == v@.contains(x),
{
    let mut i: usize = 0;
    while i < v.len()
        invariant
            i <= v@.len(),
            forall|j: int| 0 <= j < i ==> v@[j] != x,
        decreases v@.len() - i,
    {
        if v[i] == x {
            assert(v@[i as int] == x);
            return true;
        }
        i = i + 1;
    }
    false
}

/// Whether `v` holds `x`.
fn has_framerate(v: &Vec<u32>, x: u32) -> (r: bool)
    ensures
        r == v@.contains(x),
{
    let mut i: usize = 0;
    while i < v.len()
        invariant
            i <= v@.len(),
            forall|j: int| 0 <= j < i ==> v@[j] != x,
        decreases v@.len() - i,
    {
        if v[i] == x {
            assert(v@[i as int] == x);
            return true;
        }
        i = i + 1;
    }
    false
}

/// Whether `v` holds `x`.
fn has_format(v: &Vec<PixelFormat>, x: PixelFormat) -> (r: bool)
    ensures
        r == v@.contains(x),
{
    let mut i: usize = 0;
    while i < v.len()
        invariant
            i <= v@.len(),
            forall|j: int| 0 <= j < i ==> v@[j] != x,
        decreases v@.len() - i,
    {
        if v[i] == x {
            assert(v@[i as int] == x);
            return true;
        }
        i = i + 1;
    }
    false
}

/// The capabilities a device reports: each resolution, framerate and pixel
/// format it offers once, in the order they first occur, with auto exposure
/// and auto focus.
pub fn capabilities_from(caps: Vec<CameraCapability>) -> (r: CaptureCapabilities)
    ensures
        r.supported_resolutions@ == firsts(resolutions_of(caps@, caps@.len() as int)),
        r.supported_framerates@ == firsts(framerates_of(caps@, caps@.len() as int)),
        r.supported_formats@ == firsts(formats_of(caps@, caps@.len() as int)),
        r.has_auto_exposure,
        r.has_auto_focus,
{
    let mut resolutions: Vec<Resolution> = Vec::new();
    let mut framerates: Vec<u32> = Vec::new();
    let mut formats: Vec<PixelFormat> = Vec::new();
    let mut i: usize = 0;
    proof {
        assert(resolutions_of(caps@, 0) =~= Seq::<Resolution>::empty());
        assert(framerates_of(caps@, 0) =~= Seq::<u32>::empty());
        assert(formats_of(caps@, 0) =~= Seq::<PixelFormat>::empty());
    }
    while i < caps.len()
        invariant
            i <= caps@.len(),
            resolutions@ == firsts(resolutions_of(caps@, i as int)),
            framerates@ == firsts(framerates_of(caps@, i as int)),
            formats@ == firsts(formats_of(caps@, i as int)),
        decreases caps@.len() - i,
    {
        let c = caps[i];
        proof {
            assert(resolutions_of(caps@, i + 1).drop_last() =~= resolutions_of(caps@, i as int));
            assert(framerates_of(caps@, i + 1).drop_last() =~= framerates_of(caps@, i as int));
            assert(formats_of(caps@, i + 1).drop_last() =~= formats_of(caps@, i as int));
        }
        if !has_resolution(&resolutions, c.resolution) {
            resolutions.push(c.resolution);
        }
        if !has_framerate(&framerates, c.framerate) {
            framerates.push(c.framerate);
        }
        if !has_format(&formats, c.pixel_format) {
            formats.push(c.pixel_format);
        }
        i = i + 1;
    }
    CaptureCapabilities {
        supported_resolutions: resolutions,
        supported_framerates: framerates,
        supported_formats: formats,
        has_auto_exposure: true,
        has_auto_focus: true,
    }
}

/// The capabilities assumed of a Linux camera that cannot be queried:
/// 640x480, 1280x720 and 1920x1080 at 15, 30 and 60 fps in YUV420 or MJPEG,
/// with auto exposure and without auto focus.
pub fn linux_fallback_capabilities() -> (r: CaptureCapabilities)
    ensures
        r.supported_resolutions@ == seq![
            Resolution { width: 640, height: 480 },
            Resolution { width: 1280, height: 720 },
            Resolution { width: 1920, height: 1080 },
        ],
        r.supported_framerates@ == seq![15u32, 30, 60],
        r.supported_formats@ == seq![PixelFormat::YUV420, PixelFormat::MJPEG],
        r.has_auto_exposure,
        !r.has_auto_focus,
{
    let r = CaptureCapabilities {
        supported_resolutions: vec![
            Resolution { width: 640, height: 480 },
            Resolution { width: 1280, height: 720 },
            Resolution { width: 1920, height: 1080 },
        ],
        supported_framerates: vec![15, 30, 60],
        supported_formats: vec![PixelFormat::YUV420, PixelFormat::MJPEG],
        has_auto_exposure: true,
        has_auto_focus: false,
    };
    assert(r.supported_resolutions@ =~= seq![
        Resolution { width: 640, height: 480 },
        Resolution { width: 1280, height: 720 },
        Resolution { width: 1920, height: 1080 },
    ]);
    assert(r.supported_framerates@ =~= seq![15u32, 30, 60]);
    assert(r.supported_formats@ =~= seq![PixelFormat::YUV420, PixelFormat::MJPEG]);
    r
}

/// The capabilities of a Linux camera: those it reports (see
/// `capabilities_from`) when it could be queried, else the fallback.
pub fn linux_capture_capabilities(queried: Option<Vec<CameraCapability>>) -> (r: CaptureCapabilities)
    ensures
        match queried {
            Some(caps) => {
                &&& r.supported_resolutions@ == firsts(resolutions_of(caps@, caps@.len() as int))
                &&& r.supported_framerates@ == firsts(framerates_of(caps@, caps@.len() as int))
                &&& r.supported_formats@ == firsts(formats_of(caps@, caps@.len() as int))
                &&& r.has_auto_exposure && r.has_auto_focus
            },
            None => {
                &&& r.supported_framerates@ == seq![15u32, 30, 60]
                &&& r.supported_formats@ == seq![PixelFormat::YUV420, PixelFormat::MJPEG]
                &&& r.supported_resolutions@ == seq![
                    Resolution { width: 640, height: 480 },
                    Resolution { width: 1280, height: 720 },
                    Resolution { width: 1920, height: 1080 },
                ]
                &&& r.has_auto_exposure && !r.has_auto_focus
            },
        },
{
    match queried {
        Some(caps) => capabilities_from(caps),
        None => linux_fallback_capabilities(),
    }
}

/// The capabilities assumed of a Windows or macOS camera: 640x480, 1280x720
/// and 1920x1080 at 15, 30 and 60 fps in YUV420, NV12 or MJPEG, with auto
/// exposure and auto focus.
pub fn default_capture_capabilities() -> (r: CaptureCapabilities)
    ensures
        r.supported_resolutions@ == seq![
            Resolution { width: 640, height: 480 },
            Resolution { width: 1280, height: 720 },
            Resolution { width: 1920, height: 1080 },
        ],
        r.supported_framerates@ == seq![15u32, 30, 60],
        r.supported_formats@ == seq![PixelFormat::YUV420, PixelFormat::NV12, PixelFormat::MJPEG],
        r.has_auto_exposure,
        r.has_auto_focus,
{
    let r = CaptureCapabilities {
        supported_resolutions: vec![
            Resolution { width: 640, height: 480 },
            Resolution { width: 1280, height: 720 },
            Resolution { width: 1920, height: 1080 },
        ],
        supported_framerates: vec![15, 30, 60],
        supported_formats: vec![PixelFormat::YUV420, PixelFormat::NV12, PixelFormat::MJPEG],
        has_auto_exposure: true,
        has_auto_focus: true,
    };
    assert(r.supported_resolutions@ =~= seq![
        Resolution { width: 640, height: 480 },
        Resolution { width: 1280, height: 720 },
        Resolution { width: 1920, height: 1080 },
    ]);
    assert(r.supported_framerates@ =~= seq![15u32, 30, 60]);
    assert(r.supported_formats@ =~= seq![PixelFormat::YUV420, PixelFormat::NV12, PixelFormat::MJPEG]);
    r
}

} // verus!
