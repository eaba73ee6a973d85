//! What is kept from one session to the next.

use crate::app::composer::ComposerView;
use crate::app::drafts;
use crate::app::drafts::{mend_drafts, same_drafts};
use crate::app::model;
use crate::app::model::Draft;
use crate::notify::NotifySettings;
use crate::strings;
use crate::strings::same_text;
use vstd::prelude::*;

verus! {

/// The version of the saved state's form.
pub const STATE_SCHEMA_VERSION: u32 = 1;

/// What is kept from one session to the next.
#[derive(Debug, PartialEq, Eq)]
pub struct PersistentState {
    pub schema_version: u32,
    pub sidebar_pct: u16,
    pub last_team: Option<String>,
    pub drafts: Vec<Draft>,
    pub notify_settings: NotifySettings,
}

/// The saved values that contracts speak of.
#[verifier::ext_equal]
pub struct SavedView {
    pub schema_version: u32,
    pub sidebar_pct: u16,
    pub last_team: Option<Seq<char>>,
    pub drafts: Map<Seq<char>, ComposerView>,
    pub notify_settings: NotifySettings,
}

impl View for PersistentState {
    type V = SavedView;

    open spec fn view(&self) -> SavedView {
        SavedView {
            schema_version: self.schema_version,
            sidebar_pct: self.sidebar_pct,
            last_team: strings::held(self.last_team),
            drafts: drafts::draft_map(self.drafts@),
            notify_settings: self.notify_settings,
        }
    }
}

impl PersistentState {
    /// The state of a first session.
    pub open spec fn is_fresh(self, sidebar_pct: u16) -> bool {
        &&& self.schema_version == STATE_SCHEMA_VERSION
        &&& self.sidebar_pct == sidebar_pct
        &&& self.last_team is None
        &&& self.drafts@.len() == 0
        &&& self.notify_settings == (NotifySettings {
            bell: true,
            desktop: true,
            title: true,
            burst_alert: true,
        })
    }

    /// The state of a first session.
    pub fn fresh(sidebar_pct: u16) -> (state: Self)
        ensures
            state.is_fresh(sidebar_pct),
    {
        PersistentState {
            schema_version: STATE_SCHEMA_VERSION,
            sidebar_pct,
            last_team: None,
            drafts: Vec::new(),
            notify_settings: NotifySettings::default(),
        }
    }

    /// A saved state that can be taken up: it has the form of this version, and its drafts are
    /// sound.
    pub open spec fn usable(self) -> bool {
        self.schema_version == STATE_SCHEMA_VERSION && model::drafts_wf(self.drafts@)
    }

    /// What was read is taken up: as it is if it is of this version, and else as if there were none.
    pub open spec fn taken_up(self, read: Option<PersistentState>, sidebar_pct: u16) -> bool {
        match read {
            Some(read) => if read.schema_version == STATE_SCHEMA_VERSION {
                self == read
            } else {
                self.is_fresh(sidebar_pct)
            },
            None => self.is_fresh(sidebar_pct),
        }
    }

    /// Takes up what was read as it is; a state that could not be read, or of another version,
    /// counts as none at all.
    pub fn load(read: Option<PersistentState>, sidebar_pct: u16) -> (state: Self)
        ensures
            state.taken_up(read, sidebar_pct),
    {
        match read {
            Some(read) => if read.schema_version == STATE_SCHEMA_VERSION {
                read
            } else {
                PersistentState::fresh(sidebar_pct)
            },
            None => PersistentState::fresh(sidebar_pct),
        }
    }

    /// The state with sound drafts: where a cursor lies behind its text, no letter could be typed,
    /// and it is put at the end. A state whose drafts are sound stays as it is.
    pub fn mended(self) -> (state: Self)
        ensures
            state@ == (SavedView { drafts: drafts::mended_map(self.drafts@), ..self@ }),
            model::drafts_wf(self.drafts@) ==> state@ == self@,
            model::drafts_wf(state.drafts@),
    {
        proof {
            if model::drafts_wf(self.drafts@) {
                drafts::sound_drafts_are_kept(self.drafts@);
            }
        }
        let drafts = mend_drafts(self.drafts);
        PersistentState {
            schema_version: self.schema_version,
            sidebar_pct: self.sidebar_pct,
            last_team: self.last_team,
            drafts,
            notify_settings: self.notify_settings,
        }
    }

    /// Whether two states hold the same.
    pub fn same(&self, other: &PersistentState) -> (same: bool)
        requires
            drafts::one_each(self.drafts@),
            drafts::one_each(other.drafts@),
        ensures
            same == (self@ == other@),
    {
        let same_team = match (&self.last_team, &other.last_team) {
            (Some(left), Some(right)) => same_text(left.as_str(), right.as_str()),
            (None, None) => true,
            _ => false,
        };
        self.schema_version == other.schema_version && self.sidebar_pct == other.sidebar_pct
            && same_team && self.notify_settings == other.notify_settings && same_drafts(
            &self.drafts,
            &other.drafts,
        )
    }
}

} // verus!
