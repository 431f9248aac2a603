//! The settings that steer the engine.

use vstd::prelude::*;

verus! {

/// The settings in force while one statement is handled.
#[derive(Debug, PartialEq, Eq)]
pub struct Settings {
    /// The masking policies declared beside the default one, as one list
    /// setting.
    pub masking_policies: String,
    /// Mask every column that has no rule of its own.
    pub privacy_by_default: bool,
    /// Accept only masking functions that are trusted.
    pub restrict_to_trusted_schemas: bool,
    /// Cast each masking value to the type of its column.
    pub strict_mode: bool,
    /// Rewrite the statements of masked roles.
    pub transparent_dynamic_masking: bool,
}

impl Settings {
    /// The settings of a fresh installation: no further policy, no privacy by
    /// default, trusted schemas and strict mode on, dynamic masking off.
    pub fn new() -> (r: Settings)
        ensures
            r.masking_policies@ == Seq::<char>::empty(),
            !r.privacy_by_default,
            r.restrict_to_trusted_schemas,
            r.strict_mode,
            !r.transparent_dynamic_masking,
    {
        Settings {
            masking_policies: String::new(),
            privacy_by_default: false,
            restrict_to_trusted_schemas: true,
            strict_mode: true,
            transparent_dynamic_masking: false,
        }
    }
}

/// Whether a setting comes from where settings are loaded: the built-in
/// default, a database, a role, or a role in a database.
pub open spec fn is_load_source(source: u32) -> bool {
    source == 0 || source == 6 || source == 7 || source == 8
}

/// Whether a role may act as a superuser on the settings.
pub open spec fn is_privileged(superuser: bool, user: Seq<char>) -> bool {
    superuser || user == "neon_superuser"@ || user == "neondb_owner"@
}

/// Whether a change of a setting is accepted: a value that is loaded always,
/// a value that is set by hand only from a privileged role.
pub fn setting_change_allowed(source: u32, superuser: bool, user: &str) -> (r: bool)
    ensures
        r == (is_load_source(source) || is_privileged(superuser, user@)),
{
    if source == 0 || source == 6 || source == 7 || source == 8 {
        return true;
    }
    superuser || user.eq("neon_superuser") || user.eq("neondb_owner")
}

} // verus!
