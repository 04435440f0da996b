//! Following the platform profile: which profile the firmware reports and
//! when it changes.
use vstd::prelude::*;
use crate::config::{PowerProfile, profile_of};
use crate::text::trimmed;

verus! {

/// The file that reports the platform profile.
pub const PLATFORM_PROFILE_PATH: &'static str = "/sys/firmware/acpi/platform_profile";

/// Platform profile watcher
pub struct ProfileWatcher {
    current: PowerProfile,
    available: bool,
}

/// The state of a `ProfileWatcher`.
pub struct WatcherState {
    pub current: PowerProfile,
    pub available: bool,
}

impl View for ProfileWatcher {
    type V = WatcherState;

    closed spec fn view(&self) -> WatcherState {
        WatcherState { current: self.current, available: self.available }
    }
}

/// The profile a read of the platform profile file shows: what it names when
/// the file could be read, the balanced profile when it could not.
pub open spec fn profile_read(content: Option<Seq<char>>) -> PowerProfile {
    match content {
        Some(text) => profile_of(trimmed(text)),
        None => PowerProfile::Balanced,
    }
}

/// The characters of a read, if there was one.
pub open spec fn text_of(content: Option<&str>) -> Option<Seq<char>> {
    match content {
        Some(t) => Some(t@),
        None => None,
    }
}

/// What `poll` changes and reports, given a watcher and a reading.
pub open spec fn poll_step(s: WatcherState, content: Option<Seq<char>>) -> (WatcherState, Option<PowerProfile>) {
    if !s.available {
        (s, None)
    } else {
        let p = profile_read(content);
        (WatcherState { current: p, available: true }, if p != s.current {
            Some(p)
        } else {
            None
        })
    }
}

impl ProfileWatcher {
    /// A watcher that starts from a read of the platform profile file
    /// (`None` when the file is missing or unreadable).
    pub fn new(content: Option<&str>) -> (r: Self)
        ensures
            r@.current == profile_read(text_of(content)),
            r@.available == content is Some,
    {
        let (current, available) = Self::read_profile(content);
        ProfileWatcher { current, available }
    }

    /// Check if platform profile interface is available
    pub fn is_available(&self) -> (r: bool)
        ensures
            r == self@.available,
    {
        self.available
    }

    /// Get current profile
    pub fn current(&self) -> (r: PowerProfile)
        ensures
            r == self@.current,
    {
        self.current
    }

    /// Check for profile change given a fresh read of the file, returns
    /// Some(new_profile) if changed. An unavailable interface is never read
    /// and never changes.
    pub fn poll(&mut self, content: Option<&str>) -> (r: Option<PowerProfile>)
        ensures
            (final(self)@, r) == poll_step(old(self)@, text_of(content)),
    {
        if !self.available {
            return None;
        }
        let (new_profile, _) = Self::read_profile(content);
        if new_profile != self.current {
            self.current = new_profile;
            Some(new_profile)
        } else {
            None
        }
    }

    fn read_profile(content: Option<&str>) -> (r: (PowerProfile, bool))
        ensures
            r.0 == profile_read(text_of(content)),
            r.1 == content is Some,
    {
        match content {
            Some(text) => (PowerProfile::from_platform_str(text), true),
            None => (PowerProfile::Balanced, false),
        }
    }
}

/// A second poll on the same reading reports nothing: a change is
/// reported once.
pub proof fn lemma_change_reported_once(s: WatcherState, content: Option<Seq<char>>)
    ensures
        poll_step(poll_step(s, content).0, content).1 is None,
        poll_step(poll_step(s, content).0, content).0 == poll_step(s, content).0,
{
}

/// A reported profile is the one now current, and differs from the one before.
pub proof fn lemma_reported_profile_is_current(s: WatcherState, content: Option<Seq<char>>)
    ensures
        poll_step(s, content).1 matches Some(p) ==> p == poll_step(s, content).0.current && p
            != s.current,
{
}

} // verus!
