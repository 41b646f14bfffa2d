//! Meeting detection from window titles.
//!
//! A monitor outside the library reads the titles of on-screen windows
//! and hands them in; this module decides which titles mean an active
//! meeting, under which key a detection is remembered so it fires only
//! once, and when a detection is forgotten again.

use vstd::prelude::*;

use crate::prompts::replace_all;
use crate::text::contains_seq;
use crate::transcriber::trim_spec;

verus! {

/// What a detection reports to the UI.
#[derive(Debug)]
pub struct MeetingDetected {
    pub app_name: String,
    pub bundle_id: Option<String>,
    pub is_browser: bool,
}

/// The meeting app an active-meeting window title points to: sidelined
/// where the title marks an app that is open but not in a meeting, else
/// the first matching meeting pattern, else — under a live-audio marker —
/// the first matching audio app.
pub open spec fn detect_meeting_spec(t: Seq<char>) -> Option<Seq<char>> {
    if contains_seq(t, "New meeting"@) || contains_seq(t, "Join a meeting"@) || contains_seq(
        t,
        "Start a meeting"@,
    ) || contains_seq(t, "Schedule a meeting"@) || contains_seq(t, "Home | Microsoft Teams"@)
        || contains_seq(t, "Chat | Microsoft Teams"@) || contains_seq(
        t,
        "Teams | Microsoft Teams"@,
    ) || contains_seq(t, "Calendar | Microsoft Teams"@) {
        None
    } else if contains_seq(t, "Meet \u{2013} "@) {
        Some("Google Meet"@)
    } else if contains_seq(t, "Meet - "@) {
        Some("Google Meet"@)
    } else if contains_seq(t, "Zoom Meeting"@) {
        Some("Zoom"@)
    } else if contains_seq(t, " - Zoom Meeting"@) {
        Some("Zoom"@)
    } else if contains_seq(t, "Microsoft Teams meeting"@) {
        Some("Microsoft Teams"@)
    } else if contains_seq(t, "Teams meeting"@) {
        Some("Microsoft Teams"@)
    } else if contains_seq(t, "| Personal |"@) {
        Some("Microsoft Teams"@)
    } else if contains_seq(t, "Huddle:"@) {
        Some("Slack Huddle"@)
    } else if contains_seq(t, "Discord | "@) {
        Some("Discord"@)
    } else if contains_seq(t, "\u{1f50a}"@) {
        if contains_seq(t, "Microsoft Teams"@) {
            Some("Microsoft Teams"@)
        } else if contains_seq(t, "Slack"@) {
            Some("Slack"@)
        } else {
            None
        }
    } else {
        None
    }
}

/// Which meeting app, if any, a window title names as active.
pub fn detect_meeting_in_title(title: &str) -> (r: Option<&'static str>)
    ensures
        (match r {
            Some(name) => detect_meeting_spec(title@) == Some(name@),
            None => detect_meeting_spec(title@) is None,
        }),
{
    if crate::text::contains_str(title, "New meeting") || crate::text::contains_str(
        title,
        "Join a meeting",
    ) || crate::text::contains_str(title, "Start a meeting") || crate::text::contains_str(
        title,
        "Schedule a meeting",
    ) || crate::text::contains_str(title, "Home | Microsoft Teams") || crate::text::contains_str(
        title,
        "Chat | Microsoft Teams",
    ) || crate::text::contains_str(title, "Teams | Microsoft Teams")
        || crate::text::contains_str(title, "Calendar | Microsoft Teams") {
        return None;
    }
    if crate::text::contains_str(title, "Meet \u{2013} ") {
        return Some("Google Meet");
    }
    if crate::text::contains_str(title, "Meet - ") {
        return Some("Google Meet");
    }
    if crate::text::contains_str(title, "Zoom Meeting") {
        return Some("Zoom");
    }
    if crate::text::contains_str(title, " - Zoom Meeting") {
        return Some("Zoom");
    }
    if crate::text::contains_str(title, "Microsoft Teams meeting") {
        return Some("Microsoft Teams");
    }
    if crate::text::contains_str(title, "Teams meeting") {
        return Some("Microsoft Teams");
    }
    if crate::text::contains_str(title, "| Personal |") {
        return Some("Microsoft Teams");
    }
    if crate::text::contains_str(title, "Huddle:") {
        return Some("Slack Huddle");
    }
    if crate::text::contains_str(title, "Discord | ") {
        return Some("Discord");
    }
    if crate::text::contains_str(title, "\u{1f50a}") {
        if crate::text::contains_str(title, "Microsoft Teams") {
            return Some("Microsoft Teams");
        }
        if crate::text::contains_str(title, "Slack") {
            return Some("Slack");
        }
        return None;
    }
    None
}

/// The key a detected meeting is remembered under: the title without the
/// live-audio markers, trimmed — the markers flicker during a call, the
/// rest of the title does not.
pub open spec fn meeting_key_spec(t: Seq<char>) -> Seq<char> {
    trim_spec(replace_all(replace_all(t, "\u{1f50a}"@, ""@), "\u{1f3a4}"@, ""@))
}

/// The remembrance key for a detected meeting's window title.
pub fn meeting_key(title: &str) -> (r: String)
    ensures
        r@ =~= meeting_key_spec(title@),
{
    let p1 = crate::prompts::replace_str(title, "\u{1f50a}", "");
    let p2 = crate::prompts::replace_str(p1.as_str(), "\u{1f3a4}", "");
    crate::transcriber::trim_str(p2.as_str())
}

/// State of the meeting monitor: the enable switch and the keys of the
/// meetings already announced.
pub struct MeetingDetectionState {
    enabled: bool,
    running: bool,
    detected_meetings: Vec<String>,
}

impl MeetingDetectionState {
    /// A monitor at rest: enabled, not yet running, nothing announced.
    pub fn new() -> (r: Self)
        ensures
            r.spec_enabled(),
            !r.spec_running(),
            r.detected_view() =~= Seq::<Seq<char>>::empty(),
    {
        MeetingDetectionState { enabled: true, running: false, detected_meetings: Vec::new() }
    }

    /// Whether detection is switched on.
    pub closed spec fn spec_enabled(self) -> bool {
        self.enabled
    }

    /// Whether the monitor loop was started.
    pub closed spec fn spec_running(self) -> bool {
        self.running
    }

    /// The keys of the meetings already announced.
    pub closed spec fn detected_view(self) -> Seq<Seq<char>> {
        crate::text::word_views(self.detected_meetings@)
    }

    /// Switch detection on or off.
    pub fn set_enabled(&mut self, enabled: bool)
        ensures
            final(self).spec_enabled() == enabled,
            final(self).spec_running() == old(self).spec_running(),
            final(self).detected_view() =~= old(self).detected_view(),
    {
        self.enabled = enabled;
    }

    /// Whether detection is switched on.
    pub fn is_enabled(&self) -> (r: bool)
        ensures
            r == self.spec_enabled(),
    {
        self.enabled
    }

    /// Mark the monitor loop started; reports whether it already was.
    pub fn mark_running(&mut self) -> (r: bool)
        ensures
            r == old(self).spec_running(),
            final(self).spec_running(),
            final(self).spec_enabled() == old(self).spec_enabled(),
            final(self).detected_view() =~= old(self).detected_view(),
    {
        let was = self.running;
        self.running = true;
        was
    }

    /// Forget every announced meeting, so each can be announced again.
    pub fn clear_all_detected(&mut self)
        ensures
            final(self).detected_view() =~= Seq::<Seq<char>>::empty(),
            final(self).spec_enabled() == old(self).spec_enabled(),
            final(self).spec_running() == old(self).spec_running(),
    {
        self.detected_meetings = Vec::new();
    }

    /// Remember a meeting under its key; reports whether it is new —
    /// only a new key is announced to the UI.
    pub fn mark_detected(&mut self, key: &String) -> (r: bool)
        ensures
            final(self).spec_enabled() == old(self).spec_enabled(),
            final(self).spec_running() == old(self).spec_running(),
            (r <==> !old(self).detected_view().contains(key@)),
            r ==> final(self).detected_view() =~= old(self).detected_view().push(key@),
            !r ==> final(self).detected_view() =~= old(self).detected_view(),
    {
        let mut i: usize = 0;
        let n = self.detected_meetings.len();
        while i < n
            invariant
                n == self.detected_meetings@.len(),
                i <= n,
                forall|j: int| 0 <= j < i ==> #[trigger] self.detected_view()[j] != key@,
            decreases n - i,
        {
            if crate::store::str_eq(&self.detected_meetings[i], key) {
                proof {
                    assert(self.detected_view()[i as int] == key@);
                }
                return false;
            }
            proof {
                assert(self.detected_view()[i as int] != key@);
            }
            i = i + 1;
        }
        proof {
            assert(forall|j: int|
                0 <= j < self.detected_view().len() ==> #[trigger] self.detected_view()[j]
                    != key@);
        }
        let ghost prev = self.detected_view();
        self.detected_meetings.push(key.clone());
        proof {
            assert(self.detected_view() =~= prev.push(key@));
        }
        true
    }

    /// Forget the meetings whose windows are gone: keep only the keys
    /// still on screen.
    pub fn retain_active(&mut self, active: &Vec<String>)
        ensures
            final(self).spec_enabled() == old(self).spec_enabled(),
            final(self).spec_running() == old(self).spec_running(),
            final(self).detected_view() =~= retain_contained(
                old(self).detected_view(),
                crate::text::word_views(active@),
            ),
    {
        let mut kept: Vec<String> = Vec::new();
        let mut i: usize = 0;
        let n = self.detected_meetings.len();
        while i < n
            invariant
                n == self.detected_meetings@.len(),
                i <= n,
                crate::text::word_views(kept@) =~= retain_contained(
                    self.detected_view().take(i as int),
                    crate::text::word_views(active@),
                ),
            decreases n - i,
        {
            proof {
                assert(self.detected_view().take(i + 1).drop_last() =~= self.detected_view().take(
                    i as int,
                ));
                assert(self.detected_view().take(i + 1).last() == self.detected_view()[i as int]);
            }
            let mut found = false;
            let mut j: usize = 0;
            let m = active.len();
            while j < m
                invariant
                    m == active@.len(),
                    j <= m,
                    i < n,
                    n == self.detected_meetings@.len(),
                    found == exists|t: int|
                        0 <= t < j && #[trigger] crate::text::word_views(active@)[t]
                            == self.detected_view()[i as int],
                decreases m - j,
            {
                if crate::store::str_eq(&active[j], &self.detected_meetings[i]) {
                    proof {
                        assert(crate::text::word_views(active@)[j as int] == self.detected_view()[
                        i as int]);
                    }
                    found = true;
                }
                j = j + 1;
            }
            if found {
                let ghost prev = crate::text::word_views(kept@);
                kept.push(self.detected_meetings[i].clone());
                proof {
                    assert(crate::text::word_views(kept@) =~= prev.push(
                        self.detected_view()[i as int],
                    ));
                }
            }
            i = i + 1;
        }
        proof {
            assert(self.detected_view().take(n as int) =~= self.detected_view());
        }
        self.detected_meetings = kept;
    }
}

/// The keys of the first sequence that occur in the second, in order.
pub open spec fn retain_contained(keys: Seq<Seq<char>>, active: Seq<Seq<char>>) -> Seq<Seq<char>>
    decreases keys.len(),
{
    if keys.len() == 0 {
        Seq::empty()
    } else if active.contains(keys.last()) {
        retain_contained(keys.drop_last(), active).push(keys.last())
    } else {
        retain_contained(keys.drop_last(), active)
    }
}

} // verus!
