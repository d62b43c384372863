//! The persisted configuration record.
//!
//! `AppSettings` is the top-level record stored as `settings.json` under the
//! config root.  Every field is optional: a missing field means "use the
//! default", and a malformed file is treated as the empty default record.

use vstd::prelude::*;

verus! {

/// A pending request to relocate the data directory from `from` to `to`.
/// At most one request is pending at a time; it is cleared exactly when the
/// migration resolves, successfully or by being determined moot.
#[derive(Debug, Clone, PartialEq, Eq)]
pub struct MigrationSettings {
    pub from: String,
    pub to: String,
    pub requested_at: Option<String>,
}

/// Where the application's data directory lives: local mode under the config
/// root, or cloud mode under a cloud-synced folder.
#[derive(Debug, Clone, PartialEq, Eq)]
pub struct StorageSettings {
    /// `"local"` or `"icloud"`; anything else (or absence) means local.
    pub mode: Option<String>,
    /// Explicit cloud-synced folder override.
    pub icloud_path: Option<String>,
    pub migration: Option<MigrationSettings>,
}

/// AI configuration passed through to the child processes unmodified.
#[derive(Debug, Clone, PartialEq, Eq)]
pub struct AiSettings {
    pub provider: Option<String>,
    pub endpoint: Option<String>,
}

/// The whole persisted record.
#[derive(Debug, Clone, PartialEq, Eq)]
pub struct AppSettings {
    pub storage: Option<StorageSettings>,
    pub ai: Option<AiSettings>,
}

impl AppSettings {
    /// The pending migration request as a pair of path views, if any.
    pub open spec fn migration_req(self) -> Option<(Seq<char>, Seq<char>)> {
        match self.storage {
            Some(st) => match st.migration {
                Some(m) => Some((m.from@, m.to@)),
                None => None,
            },
            None => None,
        }
    }

    /// `self` with the migration request removed and every other field kept.
    pub open spec fn with_migration_cleared(self) -> AppSettings {
        AppSettings {
            storage: match self.storage {
                Some(st) => Some(StorageSettings { migration: None, ..st }),
                None => None,
            },
            ai: self.ai,
        }
    }
}

/// Optional strings with the same contents.
pub open spec fn same_opt_string(a: Option<String>, b: Option<String>) -> bool {
    match (a, b) {
        (Some(x), Some(y)) => x@ == y@,
        (None, None) => true,
        _ => false,
    }
}

/// Migration requests with the same contents.
pub open spec fn same_migration(a: Option<MigrationSettings>, b: Option<MigrationSettings>) -> bool {
    match (a, b) {
        (Some(x), Some(y)) => x.from@ == y.from@ && x.to@ == y.to@ && same_opt_string(
            x.requested_at,
            y.requested_at,
        ),
        (None, None) => true,
        _ => false,
    }
}

/// Storage sections with the same contents.
pub open spec fn same_storage(a: Option<StorageSettings>, b: Option<StorageSettings>) -> bool {
    match (a, b) {
        (Some(x), Some(y)) => same_opt_string(x.mode, y.mode) && same_opt_string(
            x.icloud_path,
            y.icloud_path,
        ) && same_migration(x.migration, y.migration),
        (None, None) => true,
        _ => false,
    }
}

/// AI sections with the same contents.
pub open spec fn same_ai(a: Option<AiSettings>, b: Option<AiSettings>) -> bool {
    match (a, b) {
        (Some(x), Some(y)) => same_opt_string(x.provider, y.provider) && same_opt_string(
            x.endpoint,
            y.endpoint,
        ),
        (None, None) => true,
        _ => false,
    }
}

/// Structural equality of two records: the same shape, with the same string
/// contents everywhere.
pub open spec fn same_settings(a: AppSettings, b: AppSettings) -> bool {
    same_storage(a.storage, b.storage) && same_ai(a.ai, b.ai)
}

impl Default for AppSettings {
    /// The empty record: no storage section, no AI section.
    fn default() -> (s: AppSettings)
        ensures
            s.storage is None,
            s.ai is None,
    {
        AppSettings { storage: None, ai: None }
    }
}

/// Removes the pending migration request, keeping every other field.
pub fn clear_migration(settings: &mut AppSettings)
    ensures
        *final(settings) == old(settings).with_migration_cleared(),
{
    let storage = settings.storage.take();
    match storage {
        Some(st) => {
            settings.storage = Some(StorageSettings {
                mode: st.mode,
                icloud_path: st.icloud_path,
                migration: None,
            });
        },
        None => {},
    }
}

} // verus!
