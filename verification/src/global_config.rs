//! The settings that hold for the whole run.

use crate::config::{ConfigTable, ConfigValue};
use crate::error::{Fault, SyncError};
use crate::names::{compare_names, Rank};
use crate::AResult;
use vstd::prelude::*;

verus! {

/// The settings that hold for the whole run.
#[derive(Clone, Copy, Debug, PartialEq, Eq, Structural)]
pub struct GlobalConfig {
    /// Where set, commands are shown and none is run.
    pub dry_mode: bool,
}

/// The global settings that a list of entries gives, read from the first
/// entry on, with `dry_mode` as it stands so far.
///
/// `dry_mode` must be a truth value. Tables are passed over: they hold the
/// settings of their own parts. Any other key is an error.
pub open spec fn global_settings(entries: Seq<(String, ConfigValue)>, dry_mode: bool) -> Result<
    GlobalConfig,
    Fault,
>
    decreases entries.len(),
{
    if entries.len() == 0 {
        Ok(GlobalConfig { dry_mode })
    } else {
        let key = entries[0].0@;
        let value = entries[0].1;
        if key == "dry_mode"@ {
            match value {
                ConfigValue::Boolean(b) => global_settings(entries.drop_first(), b),
                _ => Err(Fault::NotABool),
            }
        } else if value is Table {
            global_settings(entries.drop_first(), dry_mode)
        } else {
            Err(Fault::UnknownGlobalKey(key))
        }
    }
}

impl GlobalConfig {
    /// The settings of a run without a configuration: a dry run.
    pub fn default() -> (r: GlobalConfig)
        ensures
            r.dry_mode,
    {
        GlobalConfig { dry_mode: true }
    }

    /// Reads the global settings from the top table of a configuration.
    pub fn new(config: &ConfigTable) -> (r: AResult<GlobalConfig>)
        ensures
            match global_settings(config.entries@, true) {
                Ok(settings) => r == Ok::<GlobalConfig, SyncError>(settings),
                Err(fault) => r matches Err(e) && e@ == fault,
            },
    {
        let mut gconfig = GlobalConfig::default();
        let ghost entries = config.entries@;
        let mut i: usize = 0;
        assert(entries.skip(0) =~= entries);
        while i < config.entries.len()
            invariant
                entries == config.entries@,
                i <= entries.len(),
                global_settings(entries, true) == global_settings(
                    entries.skip(i as int),
                    gconfig.dry_mode,
                ),
            decreases config.entries.len() - i,
        {
            let ghost rest = entries.skip(i as int);
            assert(rest[0] == entries[i as int]);
            assert(rest.drop_first() =~= entries.skip(i + 1));
            let entry = &config.entries[i];
            match compare_names(entry.0.as_str(), "dry_mode") {
                Rank::Same => match &entry.1 {
                    ConfigValue::Boolean(b) => {
                        gconfig.dry_mode = *b;
                    },
                    _ => {
                        return Err(SyncError::NotABool);
                    },
                },
                _ => match &entry.1 {
                    ConfigValue::Table(_) => {},
                    _ => {
                        return Err(SyncError::UnknownGlobalKey(entry.0.clone()));
                    },
                },
            }
            i += 1;
        }
        Ok(gconfig)
    }
}

} // verus!
