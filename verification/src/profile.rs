//! The profile data model: a user's saved collection of folder cards,
//! tags, and user-interface state, persisted by the host as JSON. The
//! types and their construction are kept here; reading and writing the
//! file is the host's business.

use vstd::prelude::*;
use vstd::string::StrSliceExecFns;
use vstd::string::StringExecFns;

verus! {

/// A folder shortcut shown as a card.
pub struct Card {
    pub id: String,
    pub title: String,
    pub folder_path: String,
    /// Path of an image to use as the card's thumbnail, if one was chosen.
    pub thumbnail: Option<String>,
    pub sort_order: i32,
    pub created_at: String,
    pub updated_at: String,
}

/// A card together with the result of checking that its folder exists.
pub struct CardWithStatus {
    pub card: Card,
    pub is_valid: bool,
    pub error_message: Option<String>,
}

/// A label that can be attached to cards.
pub struct Tag {
    pub id: String,
    pub name: String,
    pub color: Option<String>,
}

/// The association of one card with one tag.
pub struct CardTag {
    pub card_id: String,
    pub tag_id: String,
}

/// Position and size of the application window.
pub struct WindowState {
    pub x: Option<i32>,
    pub y: Option<i32>,
    pub width: i32,
    pub height: i32,
}

impl Default for WindowState {
    /// A window of the default size with no remembered position.
    fn default() -> (r: Self)
        ensures
            r.x is None,
            r.y is None,
            r.width == 1280,
            r.height == 800,
    {
        WindowState { x: None, y: None, width: 1280, height: 800 }
    }
}

/// User-interface state saved within a profile.
pub struct AppState {
    /// "index" or "viewer".
    pub last_page: String,
    pub last_card_id: Option<String>,
    pub last_image_index: i32,
    pub h_flip_enabled: bool,
    pub shuffle_enabled: bool,
    pub window: WindowState,
}

impl Default for AppState {
    /// The index page, nothing selected, all toggles off, default window.
    fn default() -> (r: Self)
        ensures
            r.last_page@ == "index"@,
            r.last_card_id is None,
            r.last_image_index == 0,
            !r.h_flip_enabled,
            !r.shuffle_enabled,
            r.window.x is None,
            r.window.y is None,
            r.window.width == 1280,
            r.window.height == 800,
    {
        AppState {
            last_page: "index".to_owned(),
            last_card_id: None,
            last_image_index: 0,
            h_flip_enabled: false,
            shuffle_enabled: false,
            window: WindowState::default(),
        }
    }
}

/// The content of one profile file.
pub struct ProfileData {
    /// Profile format version.
    pub version: String,
    /// When the profile was last saved (ISO 8601 text).
    pub updated_at: String,
    pub cards: Vec<Card>,
    pub tags: Vec<Tag>,
    pub card_tags: Vec<CardTag>,
    pub app_state: AppState,
}

impl ProfileData {
    /// A fresh, empty profile stamped with the given time.
    pub fn new(updated_at: String) -> (r: Self)
        ensures
            r.version@ == "1.0"@,
            r.updated_at@ == updated_at@,
            r.cards@ =~= Seq::<Card>::empty(),
            r.tags@ =~= Seq::<Tag>::empty(),
            r.card_tags@ =~= Seq::<CardTag>::empty(),
            r.app_state.last_page@ == "index"@,
            r.app_state.last_card_id is None,
            r.app_state.last_image_index == 0,
            !r.app_state.h_flip_enabled,
            !r.app_state.shuffle_enabled,
    {
        ProfileData {
            version: "1.0".to_owned(),
            updated_at,
            cards: Vec::new(),
            tags: Vec::new(),
            card_tags: Vec::new(),
            app_state: AppState::default(),
        }
    }

    /// Re-stamps the profile with the time of a save; everything else is
    /// untouched.
    pub fn set_updated_at(&mut self, now: String)
        ensures
            final(self).updated_at@ == now@,
            final(self).version == old(self).version,
            final(self).cards == old(self).cards,
            final(self).tags == old(self).tags,
            final(self).card_tags == old(self).card_tags,
            final(self).app_state == old(self).app_state,
    {
        self.updated_at = now;
    }
}

impl Default for ProfileData {
    /// A fresh, empty profile with no timestamp yet; the host stamps it
    /// with the clock when it saves.
    fn default() -> (r: Self)
        ensures
            r.version@ == "1.0"@,
            r.updated_at@ == ""@,
            r.cards@ =~= Seq::<Card>::empty(),
            r.tags@ =~= Seq::<Tag>::empty(),
            r.card_tags@ =~= Seq::<CardTag>::empty(),
    {
        ProfileData::new("".to_owned())
    }
}

/// Whether `s` ends in the given suffix.
pub open spec fn has_suffix(s: Seq<char>, suffix: Seq<char>) -> bool {
    s.len() >= suffix.len() && s.subrange(s.len() - suffix.len(), s.len() as int) == suffix
}

/// Decides whether `s` ends in `suffix`.
fn ends_with(s: &str, suffix: &str) -> (r: bool)
    ensures
        r == has_suffix(s@, suffix@),
{
    let n = s.unicode_len();
    let m = suffix.unicode_len();
    if n < m {
        return false;
    }
    let mut j: usize = 0;
    while j < m
        invariant
            j <= m,
            m <= n,
            n == s@.len(),
            m == suffix@.len(),
            forall|k: int| 0 <= k < j ==> s@[n - m + k] == (#[trigger] suffix@[k]),
        decreases m - j,
    {
        if s.get_char(n - m + j) != suffix.get_char(j) {
            proof {
                assert(s@.subrange(n - m, n as int)[j as int] != suffix@[j as int]);
            }
            return false;
        }
        j += 1;
    }
    proof {
        assert(s@.subrange(n - m, n as int) =~= suffix@);
    }
    true
}

/// The profile file name a save dialog's answer becomes: the chosen path,
/// given the `.ivprofile` extension if it does not carry it already.
pub fn ensure_profile_extension(path: String) -> (r: String)
    ensures
        has_suffix(path@, ".ivprofile"@) ==> r@ == path@,
        !has_suffix(path@, ".ivprofile"@) ==> r@ == path@ + ".ivprofile"@,
{
    if ends_with(path.as_str(), ".ivprofile") {
        path
    } else {
        let mut r = path;
        r.append(".ivprofile");
        r
    }
}

} // verus!
