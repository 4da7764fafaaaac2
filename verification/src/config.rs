//! Application-wide settings: the theme, and the history of recently
//! opened profiles with its bounded length. Loading and saving the
//! settings file is the host's business; the list manipulation is
//! verified here.

use vstd::prelude::*;

verus! {

/// One recently opened profile.
pub struct RecentProfile {
    /// Path of the profile file.
    pub path: String,
    /// File name without its extension.
    pub name: String,
    /// When it was last opened (ISO 8601 text).
    pub last_opened_at: String,
}

/// A recent-profile entry as a triple of character sequences:
/// `(path, name, last_opened_at)`.
pub open spec fn rp_view(p: RecentProfile) -> (Seq<char>, Seq<char>, Seq<char>) {
    (p.path@, p.name@, p.last_opened_at@)
}

/// The history as a sequence of triples, most recent first.
pub open spec fn rp_views(s: Seq<RecentProfile>) -> Seq<(Seq<char>, Seq<char>, Seq<char>)> {
    s.map(|i: int, p: RecentProfile| rp_view(p))
}

/// What recording a profile visit does to the history: any entry for the
/// same path is dropped, the new entry goes to the front, and the result
/// is clipped to `max` entries when `max` is not negative.
pub open spec fn spec_add_recent(
    s: Seq<(Seq<char>, Seq<char>, Seq<char>)>,
    path: Seq<char>,
    name: Seq<char>,
    now: Seq<char>,
    max: int,
) -> Seq<(Seq<char>, Seq<char>, Seq<char>)> {
    let fronted = seq![(path, name, now)] + s.filter(
        |t: (Seq<char>, Seq<char>, Seq<char>)| t.0 != path,
    );
    if 0 <= max < fronted.len() {
        fronted.take(max)
    } else {
        fronted
    }
}

/// Application-wide settings.
pub struct AppConfig {
    /// Settings format version.
    pub version: String,
    /// Recently opened profiles, most recent first.
    pub recent_profiles: Vec<RecentProfile>,
    /// How many history entries to keep.
    pub max_recent_profiles: i32,
    /// Theme choice: "light", "dark" or "system".
    pub theme: String,
}

impl Default for AppConfig {
    /// Fresh settings: no history, ten entries kept, system theme.
    fn default() -> (r: Self)
        ensures
            r.version@ == "1.0"@,
            r.recent_profiles@ =~= Seq::<RecentProfile>::empty(),
            r.max_recent_profiles == 10,
            r.theme@ == "system"@,
    {
        AppConfig {
            version: "1.0".to_owned(),
            recent_profiles: Vec::new(),
            max_recent_profiles: 10,
            theme: "system".to_owned(),
        }
    }
}

impl AppConfig {
    /// Records that the profile at `path` (display name `name`) was opened
    /// at `now`: moves or adds it to the front of the history, dropping any
    /// older entry for the same path and clipping the history to its bound.
    pub fn add_recent(&mut self, path: String, name: String, now: String)
        ensures
            rp_views(final(self).recent_profiles@) == spec_add_recent(
                rp_views(old(self).recent_profiles@),
                path@,
                name@,
                now@,
                old(self).max_recent_profiles as int,
            ),
            final(self).version == old(self).version,
            final(self).max_recent_profiles == old(self).max_recent_profiles,
            final(self).theme == old(self).theme,
    {
        let ghost s0 = rp_views(self.recent_profiles@);
        let mut kept: Vec<RecentProfile> = Vec::new();
        kept.push(RecentProfile { path, name, last_opened_at: now });
        let ghost newv = rp_view(kept@[0]);
        let mut i: usize = 0;
        proof {
            reveal(Seq::filter);
            assert(s0.subrange(0, 0) =~= Seq::<(Seq<char>, Seq<char>, Seq<char>)>::empty());
            assert(rp_views(kept@) =~= seq![newv] + s0.subrange(0, 0).filter(
                |t: (Seq<char>, Seq<char>, Seq<char>)| t.0 != newv.0,
            ));
        }
        while i < self.recent_profiles.len()
            invariant
                i <= self.recent_profiles@.len(),
                s0 == rp_views(self.recent_profiles@),
                self.recent_profiles@.len() == s0.len(),
                kept@.len() >= 1,
                rp_views(kept@) == seq![newv] + s0.subrange(0, i as int).filter(
                    |t: (Seq<char>, Seq<char>, Seq<char>)| t.0 != newv.0,
                ),
            decreases self.recent_profiles@.len() - i,
        {
            let e = &self.recent_profiles[i];
            let ghost kept_pre = rp_views(kept@);
            if !(e.path == kept[0].path) {
                kept.push(
                    RecentProfile {
                        path: e.path.clone(),
                        name: e.name.clone(),
                        last_opened_at: e.last_opened_at.clone(),
                    },
                );
            }
            i += 1;
            proof {
                reveal(Seq::filter);
                assert(kept_pre[0] == newv);
                let pre = s0.subrange(0, i as int);
                assert(pre.drop_last() =~= s0.subrange(0, i - 1));
                assert(pre.last() == s0[i - 1]);
                if s0[i - 1].0 != newv.0 {
                    assert(rp_views(kept@) =~= kept_pre.push(s0[i - 1]));
                    assert(rp_views(kept@) =~= seq![newv] + pre.filter(
                        |t: (Seq<char>, Seq<char>, Seq<char>)| t.0 != newv.0,
                    ));
                } else {
                    assert(rp_views(kept@) =~= seq![newv] + pre.filter(
                        |t: (Seq<char>, Seq<char>, Seq<char>)| t.0 != newv.0,
                    ));
                }
            }
        }
        proof {
            assert(s0.subrange(0, s0.len() as int) =~= s0);
        }
        if self.max_recent_profiles >= 0 {
            let max = self.max_recent_profiles as usize;
            if kept.len() > max {
                let ghost kv = rp_views(kept@);
                kept.truncate(max);
                proof {
                    assert(rp_views(kept@) =~= kv.take(max as int));
                }
            }
        }
        self.recent_profiles = kept;
        proof {
            assert(rp_views(self.recent_profiles@) =~= spec_add_recent(
                s0,
                newv.0,
                newv.1,
                newv.2,
                self.max_recent_profiles as int,
            ));
        }
    }

    /// Forgets every history entry for `path`; the rest of the history and
    /// the other settings stay as they were.
    pub fn remove_recent(&mut self, path: &String)
        ensures
            rp_views(final(self).recent_profiles@) == rp_views(
                old(self).recent_profiles@,
            ).filter(|t: (Seq<char>, Seq<char>, Seq<char>)| t.0 != path@),
            final(self).version == old(self).version,
            final(self).max_recent_profiles == old(self).max_recent_profiles,
            final(self).theme == old(self).theme,
    {
        let ghost s0 = rp_views(self.recent_profiles@);
        let mut kept: Vec<RecentProfile> = Vec::new();
        let mut i: usize = 0;
        proof {
            reveal(Seq::filter);
            assert(s0.subrange(0, 0) =~= Seq::<(Seq<char>, Seq<char>, Seq<char>)>::empty());
            assert(rp_views(kept@) =~= s0.subrange(0, 0).filter(
                |t: (Seq<char>, Seq<char>, Seq<char>)| t.0 != path@,
            ));
        }
        while i < self.recent_profiles.len()
            invariant
                i <= self.recent_profiles@.len(),
                s0 == rp_views(self.recent_profiles@),
                self.recent_profiles@.len() == s0.len(),
                rp_views(kept@) == s0.subrange(0, i as int).filter(
                    |t: (Seq<char>, Seq<char>, Seq<char>)| t.0 != path@,
                ),
            decreases self.recent_profiles@.len() - i,
        {
            let e = &self.recent_profiles[i];
            let ghost kept_pre = rp_views(kept@);
            if !(e.path == *path) {
                kept.push(
                    RecentProfile {
                        path: e.path.clone(),
                        name: e.name.clone(),
                        last_opened_at: e.last_opened_at.clone(),
                    },
                );
            }
            i += 1;
            proof {
                reveal(Seq::filter);
                let pre = s0.subrange(0, i as int);
                assert(pre.drop_last() =~= s0.subrange(0, i - 1));
                assert(pre.last() == s0[i - 1]);
                if s0[i - 1].0 != path@ {
                    assert(rp_views(kept@) =~= kept_pre.push(s0[i - 1]));
                }
                assert(rp_views(kept@) =~= pre.filter(
                    |t: (Seq<char>, Seq<char>, Seq<char>)| t.0 != path@,
                ));
            }
        }
        proof {
            assert(s0.subrange(0, s0.len() as int) =~= s0);
        }
        self.recent_profiles = kept;
    }
}

} // verus!
