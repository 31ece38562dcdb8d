//! Action Center notifications, badges and tiles.

use vstd::prelude::*;
use crate::platform::PlatformResult;
use crate::text::{append_str, append_string};

verus! {

/// How a notification action activates the application.
#[derive(Clone, Copy, Debug, PartialEq, Eq, Structural)]
pub enum ActivationType {
    Foreground,
    Background,
    Protocol,
}

/// How long a notification stays.
#[derive(Clone, Copy, Debug, PartialEq, Eq, Structural)]
pub enum NotificationDuration {
    Short,
    Long,
}

/// The scenario of a notification.
#[derive(Clone, Copy, Debug, PartialEq, Eq, Structural)]
pub enum NotificationScenario {
    Default,
    Alarm,
    Reminder,
    IncomingCall,
}

/// A button of a notification.
#[derive(Clone, Debug)]
pub struct NotificationAction {
    pub action_id: String,
    pub label: String,
    pub activation_type: ActivationType,
}

/// A toast notification.
#[derive(Clone, Debug)]
pub struct ToastNotification {
    pub title: String,
    pub body: String,
    pub image_url: Option<String>,
    pub actions: Vec<NotificationAction>,
    pub audio: Option<String>,
    pub duration: NotificationDuration,
    pub scenario: NotificationScenario,
}

/// A notification category shown in the settings.
#[derive(Clone, Debug)]
pub struct NotificationCategory {
    pub id: String,
    pub display_name: String,
    pub description: String,
}

/// A past notification.
#[derive(Clone, Debug)]
pub struct NotificationHistoryEntry {
    pub notification_id: String,
    pub title: String,
    pub body: String,
    pub timestamp: String,
    pub was_clicked: bool,
}

/// The XML lines of a list of actions, in order.
pub open spec fn action_lines(acts: Seq<NotificationAction>) -> Seq<char>
    decreases acts.len(),
{
    if acts.len() == 0 {
        Seq::empty()
    } else {
        action_lines(acts.drop_last()) + "    <action content=\""@ + acts.last().label@ + "\" arguments=\""@
            + acts.last().action_id@ + "\" />\n"@
    }
}

/// The image line of a toast, if it has an image.
pub open spec fn image_line(image_url: Option<String>) -> Seq<char> {
    match image_url {
        Some(u) => "      <image src=\""@ + u@ + "\" />\n"@,
        None => Seq::empty(),
    }
}

/// The actions block of a toast, if it has actions.
pub open spec fn actions_block(actions: Seq<NotificationAction>) -> Seq<char> {
    if actions.len() > 0 {
        "  <actions>\n"@ + action_lines(actions) + "  </actions>\n"@
    } else {
        Seq::empty()
    }
}

/// The audio line of a toast, if it has audio.
pub open spec fn audio_line(audio: Option<String>) -> Seq<char> {
    match audio {
        Some(a) => "  <audio src=\""@ + a@ + "\" />\n"@,
        None => Seq::empty(),
    }
}

/// The toast XML of a notification.
pub open spec fn toast_xml(n: ToastNotification) -> Seq<char> {
    "<toast>\n"@ + "  <visual>\n"@ + "    <binding template=\"ToastGeneric\">\n"@ + "      <text>"@ + n.title@
        + "</text>\n"@ + "      <text>"@ + n.body@ + "</text>\n"@ + image_line(n.image_url) + "    </binding>\n"@
        + "  </visual>\n"@ + actions_block(n.actions@) + audio_line(n.audio) + "</toast>\n"@
}

/// Windows notification manager for Action Center integration.
pub struct NotificationManager {
    app_id: String,
}

impl NotificationManager {
    /// The application's identifier.
    pub closed spec fn app_view(&self) -> Seq<char> {
        self.app_id@
    }

    /// A manager for an application.
    pub fn new(app_id: String) -> (r: Self)
        ensures
            r.app_view() == app_id@,
    {
        Self { app_id }
    }

    /// Register notification categories (nothing to do here; accepted).
    pub fn register_categories(&self, categories: Vec<NotificationCategory>) -> (r: PlatformResult<()>)
        ensures
            r is Ok,
    {
        Ok(())
    }

    /// Whether notifications are enabled for the application (they are taken to be).
    pub fn are_notifications_enabled(&self) -> (r: PlatformResult<bool>)
        ensures
            r matches Ok(b) && b,
    {
        Ok(true)
    }

    /// The toast XML of a notification.
    pub fn generate_toast_xml(&self, notification: &ToastNotification) -> (r: String)
        ensures
            r@ == toast_xml(*notification),
    {
        let mut xml = String::new();
        append_str(&mut xml, "<toast>\n");
        append_str(&mut xml, "  <visual>\n");
        append_str(&mut xml, "    <binding template=\"ToastGeneric\">\n");
        append_str(&mut xml, "      <text>");
        append_string(&mut xml, &notification.title);
        append_str(&mut xml, "</text>\n");
        append_str(&mut xml, "      <text>");
        append_string(&mut xml, &notification.body);
        append_str(&mut xml, "</text>\n");
        let ghost p1 = xml@;
        match &notification.image_url {
            Some(u) => {
                append_str(&mut xml, "      <image src=\"");
                append_string(&mut xml, u);
                append_str(&mut xml, "\" />\n");
            },
            None => {},
        }
        assert(xml@ =~= p1 + image_line(notification.image_url));
        append_str(&mut xml, "    </binding>\n");
        append_str(&mut xml, "  </visual>\n");
        let ghost p2 = xml@;
        if notification.actions.len() > 0 {
            append_str(&mut xml, "  <actions>\n");
            let ghost head = xml@;
            let mut i: usize = 0;
            while i < notification.actions.len()
                invariant
                    i <= notification.actions@.len(),
                    xml@ == head + action_lines(notification.actions@.take(i as int)),
                decreases notification.actions@.len() - i,
            {
                proof {
                    assert(notification.actions@.take(i as int + 1).drop_last() =~= notification.actions@.take(i as int));
                }
                let action = &notification.actions[i];
                append_str(&mut xml, "    <action content=\"");
                append_string(&mut xml, &action.label);
                append_str(&mut xml, "\" arguments=\"");
                append_string(&mut xml, &action.action_id);
                append_str(&mut xml, "\" />\n");
                i = i + 1;
                proof {
                    assert(xml@ =~= head + action_lines(notification.actions@.take(i as int)));
                }
            }
            assert(notification.actions@.take(notification.actions@.len() as int) =~= notification.actions@);
            append_str(&mut xml, "  </actions>\n");
        }
        assert(xml@ =~= p2 + actions_block(notification.actions@));
        let ghost p3 = xml@;
        match &notification.audio {
            Some(a) => {
                append_str(&mut xml, "  <audio src=\"");
                append_string(&mut xml, a);
                append_str(&mut xml, "\" />\n");
            },
            None => {},
        }
        assert(xml@ =~= p3 + audio_line(notification.audio));
        append_str(&mut xml, "</toast>\n");
        assert(xml@ =~= toast_xml(*notification));
        xml
    }
}

/// A badge glyph.
#[derive(Clone, Copy, Debug, PartialEq, Eq, Structural)]
pub enum BadgeGlyph {
    /// No glyph.
    NoGlyph,
    Activity,
    Alarm,
    Alert,
    Attention,
    Available,
    Away,
    Busy,
    Error,
    NewMessage,
    Paused,
    Playing,
    Unavailable,
}

/// The name Windows knows a glyph by.
pub open spec fn glyph_name(g: BadgeGlyph) -> Seq<char> {
    match g {
        BadgeGlyph::NoGlyph => "none"@,
        BadgeGlyph::Activity => "activity"@,
        BadgeGlyph::Alarm => "alarm"@,
        BadgeGlyph::Alert => "alert"@,
        BadgeGlyph::Attention => "attention"@,
        BadgeGlyph::Available => "available"@,
        BadgeGlyph::Away => "away"@,
        BadgeGlyph::Busy => "busy"@,
        BadgeGlyph::Error => "error"@,
        BadgeGlyph::NewMessage => "newMessage"@,
        BadgeGlyph::Paused => "paused"@,
        BadgeGlyph::Playing => "playing"@,
        BadgeGlyph::Unavailable => "unavailable"@,
    }
}

impl BadgeGlyph {
    /// The name Windows knows the glyph by.
    pub fn as_str(&self) -> (r: &str)
        ensures
            r@ == glyph_name(*self),
    {
        proof {
            reveal_strlit("none");
            reveal_strlit("activity");
            reveal_strlit("alarm");
            reveal_strlit("alert");
            reveal_strlit("attention");
            reveal_strlit("available");
            reveal_strlit("away");
            reveal_strlit("busy");
            reveal_strlit("error");
            reveal_strlit("newMessage");
            reveal_strlit("paused");
            reveal_strlit("playing");
            reveal_strlit("unavailable");
        }
        match self {
            BadgeGlyph::NoGlyph => "none",
            BadgeGlyph::Activity => "activity",
            BadgeGlyph::Alarm => "alarm",
            BadgeGlyph::Alert => "alert",
            BadgeGlyph::Attention => "attention",
            BadgeGlyph::Available => "available",
            BadgeGlyph::Away => "away",
            BadgeGlyph::Busy => "busy",
            BadgeGlyph::Error => "error",
            BadgeGlyph::NewMessage => "newMessage",
            BadgeGlyph::Paused => "paused",
            BadgeGlyph::Playing => "playing",
            BadgeGlyph::Unavailable => "unavailable",
        }
    }
}

/// Windows badge notification manager.
pub struct BadgeManager {
    app_id: String,
}

impl BadgeManager {
    /// The application's identifier.
    pub closed spec fn app_view(&self) -> Seq<char> {
        self.app_id@
    }

    /// A manager for an application.
    pub fn new(app_id: String) -> (r: Self)
        ensures
            r.app_view() == app_id@,
    {
        Self { app_id }
    }

    /// Show a number on the badge (accepted).
    pub fn update_badge_number(&self, count: u32) -> (r: PlatformResult<()>)
        ensures
            r is Ok,
    {
        Ok(())
    }

    /// Show a glyph on the badge (accepted).
    pub fn update_badge_glyph(&self, glyph: BadgeGlyph) -> (r: PlatformResult<()>)
        ensures
            r is Ok,
    {
        Ok(())
    }

    /// Clear the badge (accepted).
    pub fn clear_badge(&self) -> (r: PlatformResult<()>)
        ensures
            r is Ok,
    {
        Ok(())
    }
}

/// Branding of a tile.
#[derive(Clone, Copy, Debug, PartialEq, Eq, Structural)]
pub enum TileBranding {
    /// No branding.
    NoBranding,
    Logo,
    Name,
    NameAndLogo,
}

/// Content of a live tile.
#[derive(Clone, Debug)]
pub struct TileNotification {
    pub title: String,
    pub body: String,
    pub image_url: Option<String>,
    pub branding: TileBranding,
}

/// Windows tile notification manager for Start menu tiles.
pub struct TileManager {
    app_id: String,
}

impl TileManager {
    /// The application's identifier.
    pub closed spec fn app_view(&self) -> Seq<char> {
        self.app_id@
    }

    /// A manager for an application.
    pub fn new(app_id: String) -> (r: Self)
        ensures
            r.app_view() == app_id@,
    {
        Self { app_id }
    }

    /// Update the live tile (accepted).
    pub fn update_tile(&self, tile: &TileNotification) -> (r: PlatformResult<()>)
        ensures
            r is Ok,
    {
        Ok(())
    }

    /// Clear the live tile (accepted).
    pub fn clear_tile(&self) -> (r: PlatformResult<()>)
        ensures
            r is Ok,
    {
        Ok(())
    }

    /// Queue tile notifications (accepted).
    pub fn enable_notification_queue(&self) -> (r: PlatformResult<()>)
        ensures
            r is Ok,
    {
        Ok(())
    }
}

/// Each action of a toast appears in its XML as an `<action>` element whose
/// `content` is the action's label and whose `arguments` is its id.
pub proof fn lemma_toast_lists_actions(n: ToastNotification)
    ensures
        forall|i: int|
            0 <= i < n.actions@.len() ==> exists|a: Seq<char>, b: Seq<char>|
                toast_xml(n) == a + ("<action content=\""@ + (#[trigger] n.actions@[i]).label@ + "\" arguments=\""@
                    + n.actions@[i].action_id@ + "\" />"@) + b,
{
    let acts = n.actions@;
    assert forall|i: int| 0 <= i < acts.len() implies exists|a: Seq<char>, b: Seq<char>|
        toast_xml(n) == a + ("<action content=\""@ + (#[trigger] acts[i]).label@ + "\" arguments=\""@
            + acts[i].action_id@ + "\" />"@) + b by {
        let (a, b) = lemma_action_line_in(acts, i);
        let head = "<toast>\n"@ + "  <visual>\n"@ + "    <binding template=\"ToastGeneric\">\n"@ + "      <text>"@
            + n.title@ + "</text>\n"@ + "      <text>"@ + n.body@ + "</text>\n"@ + image_line(n.image_url)
            + "    </binding>\n"@ + "  </visual>\n"@;
        let tail = audio_line(n.audio) + "</toast>\n"@;
        let e = "<action content=\""@ + acts[i].label@ + "\" arguments=\""@ + acts[i].action_id@ + "\" />"@;
        assert(toast_xml(n) =~= head + actions_block(acts) + tail);
        assert(actions_block(acts) == "  <actions>\n"@ + action_lines(acts) + "  </actions>\n"@);
        assert(toast_xml(n) =~= (head + "  <actions>\n"@ + a) + e + (b + "  </actions>\n"@ + tail));
    }
}

/// Where the element of action `i` stands in the lines of `acts`.
proof fn lemma_action_line_in(acts: Seq<NotificationAction>, i: int) -> (r: (Seq<char>, Seq<char>))
    requires
        0 <= i < acts.len(),
    ensures
        action_lines(acts) == r.0 + ("<action content=\""@ + acts[i].label@ + "\" arguments=\""@ + acts[i].action_id@
            + "\" />"@) + r.1,
    decreases acts.len(),
{
    let e = "<action content=\""@ + acts[i].label@ + "\" arguments=\""@ + acts[i].action_id@ + "\" />"@;
    let prev = acts.drop_last();
    let last = acts.last();
    let line = "    <action content=\""@ + last.label@ + "\" arguments=\""@ + last.action_id@ + "\" />\n"@;
    assert(action_lines(acts) == action_lines(prev) + line) by {
        assert(action_lines(acts) =~= action_lines(prev) + line);
    }
    if i == acts.len() - 1 {
        reveal_strlit("    <action content=\"");
        reveal_strlit("    ");
        reveal_strlit("<action content=\"");
        reveal_strlit("\" />\n");
        reveal_strlit("\" />");
        reveal_strlit("\n");
        assert(line =~= "    "@ + e + "\n"@);
        assert(action_lines(acts) =~= (action_lines(prev) + "    "@) + e + "\n"@);
        (action_lines(prev) + "    "@, "\n"@)
    } else {
        assert(prev[i] == acts[i]);
        let (a, b) = lemma_action_line_in(prev, i);
        assert(action_lines(acts) =~= a + e + (b + line));
        (a, b + line)
    }
}

} // verus!
