//! Data-directory resolution.
//!
//! When no migration override is in force, the data directory is the
//! configured cloud-synced folder in cloud mode, the platform's default
//! cloud-synced folder when none is configured, and `<config_root>/data`
//! otherwise.

use vstd::prelude::*;
use crate::settings::AppSettings;

verus! {

/// Case-insensitive (ASCII) test for the string `"icloud"`.
pub open spec fn spec_mode_is_icloud(s: Seq<char>) -> bool {
    &&& s.len() == 6
    &&& (s[0] == 'i' || s[0] == 'I')
    &&& (s[1] == 'c' || s[1] == 'C')
    &&& (s[2] == 'l' || s[2] == 'L')
    &&& (s[3] == 'o' || s[3] == 'O')
    &&& (s[4] == 'u' || s[4] == 'U')
    &&& (s[5] == 'd' || s[5] == 'D')
}

/// Whether the settings select cloud storage mode; absence of a mode (or any
/// other value) means local.
pub open spec fn spec_settings_mode_is_icloud(s: AppSettings) -> bool {
    match s.storage {
        Some(st) => match st.mode {
            Some(m) => spec_mode_is_icloud(m@),
            None => false,
        },
        None => false,
    }
}

/// The configured cloud-synced folder override, if any.
pub open spec fn spec_icloud_path(s: AppSettings) -> Option<Seq<char>> {
    match s.storage {
        Some(st) => match st.icloud_path {
            Some(p) => Some(p@),
            None => None,
        },
        None => None,
    }
}

/// The default cloud-synced folder under the user's home directory.
pub open spec fn spec_default_icloud_dir(home: Seq<char>) -> Seq<char> {
    home + "/Library/Mobile Documents/com~apple~CloudDocs/Moondream"@
}

/// What `resolve_data_dir` returns.
pub open spec fn spec_resolve_data_dir(
    config_root: Seq<char>,
    s: AppSettings,
    home: Option<Seq<char>>,
) -> Seq<char> {
    if spec_settings_mode_is_icloud(s) {
        match spec_icloud_path(s) {
            Some(p) => p,
            None => match home {
                Some(h) => spec_default_icloud_dir(h),
                None => config_root + "/data"@,
            },
        }
    } else {
        config_root + "/data"@
    }
}

fn mode_is_icloud(s: &str) -> (b: bool)
    ensures
        b == spec_mode_is_icloud(s@),
{
    if s.unicode_len() != 6 {
        return false;
    }
    let c0 = s.get_char(0);
    let c1 = s.get_char(1);
    let c2 = s.get_char(2);
    let c3 = s.get_char(3);
    let c4 = s.get_char(4);
    let c5 = s.get_char(5);
    (c0 == 'i' || c0 == 'I') && (c1 == 'c' || c1 == 'C') && (c2 == 'l' || c2 == 'L')
        && (c3 == 'o' || c3 == 'O') && (c4 == 'u' || c4 == 'U') && (c5 == 'd' || c5 == 'D')
}

/// The default cloud-synced folder for a given home directory.
pub fn default_icloud_dir(home: &String) -> (r: String)
    ensures
        r@ == spec_default_icloud_dir(home@),
{
    home.clone().concat("/Library/Mobile Documents/com~apple~CloudDocs/Moondream")
}

/// Resolves the data directory from the settings record.
///
/// `home` is the user's home directory, when the environment supplies one;
/// it is only consulted in cloud mode with no configured override.
pub fn resolve_data_dir(config_root: &String, settings: &AppSettings, home: &Option<String>) -> (r:
    String)
    ensures
        r@ == spec_resolve_data_dir(
            config_root@,
            *settings,
            match home {
                Some(h) => Some(h@),
                None => None,
            },
        ),
{
    let cloud_mode = match &settings.storage {
        Some(st) => match &st.mode {
            Some(m) => mode_is_icloud(m.as_str()),
            None => false,
        },
        None => false,
    };
    if cloud_mode {
        match &settings.storage {
            Some(st) => match &st.icloud_path {
                Some(p) => {
                    return p.clone();
                },
                None => {},
            },
            None => {},
        }
        match home {
            Some(h) => {
                return default_icloud_dir(h);
            },
            None => {},
        }
    }
    config_root.clone().concat("/data")
}

} // verus!
