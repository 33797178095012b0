//! The node's configuration file contents and run-time overrides,
//! with plain defaults; reading them from disk is the application
//! shell's business.

use vstd::prelude::*;

verus! {

/// Chainstate settings as they appear in the configuration file.
#[derive(Debug, Clone, Copy, PartialEq, Eq, Structural)]
pub struct ChainstateConfigFile {
    pub max_db_commit_attempts: Option<usize>,
    pub max_orphan_blocks: Option<usize>,
    pub tx_index_enabled: Option<bool>,
    pub max_tip_age_secs: Option<u64>,
}

/// Command-line overrides applied over the file.
#[derive(Debug, Clone, Copy, PartialEq, Eq, Structural)]
pub struct RunOptions {
    pub max_db_commit_attempts: Option<usize>,
    pub max_orphan_blocks: Option<usize>,
    pub tx_index_enabled: Option<bool>,
    pub max_tip_age_secs: Option<u64>,
}

/// The node configuration: data directory and subsystem settings.
#[derive(Debug, Clone, PartialEq, Eq)]
pub struct NodeConfigFile {
    pub datadir: Vec<u8>,
    pub chainstate: ChainstateConfigFile,
}

impl NodeConfigFile {
    /// A fresh configuration for the given data directory, with
    /// every setting left to its default.
    pub fn new(datadir: Vec<u8>) -> (r: Result<NodeConfigFile, ()>)
        ensures
            r matches Ok(c) && c.datadir == datadir
                && c.chainstate.max_db_commit_attempts is None
                && c.chainstate.max_orphan_blocks is None
                && c.chainstate.tx_index_enabled is None
                && c.chainstate.max_tip_age_secs is None,
    {
        Ok(NodeConfigFile {
            datadir,
            chainstate: ChainstateConfigFile {
                max_db_commit_attempts: None,
                max_orphan_blocks: None,
                tx_index_enabled: None,
                max_tip_age_secs: None,
            },
        })
    }
}

/// The chainstate settings after overrides: an option set on the
/// command line wins over the file.
pub fn chainstate_config(config: ChainstateConfigFile, options: &RunOptions) -> (r: ChainstateConfigFile)
    ensures
        r.max_db_commit_attempts == (if options.max_db_commit_attempts is Some {
            options.max_db_commit_attempts
        } else {
            config.max_db_commit_attempts
        }),
        r.max_orphan_blocks == (if options.max_orphan_blocks is Some {
            options.max_orphan_blocks
        } else {
            config.max_orphan_blocks
        }),
        r.tx_index_enabled == (if options.tx_index_enabled is Some {
            options.tx_index_enabled
        } else {
            config.tx_index_enabled
        }),
        r.max_tip_age_secs == (if options.max_tip_age_secs is Some {
            options.max_tip_age_secs
        } else {
            config.max_tip_age_secs
        }),
{
    ChainstateConfigFile {
        max_db_commit_attempts: match options.max_db_commit_attempts {
            Some(v) => Some(v),
            None => config.max_db_commit_attempts,
        },
        max_orphan_blocks: match options.max_orphan_blocks {
            Some(v) => Some(v),
            None => config.max_orphan_blocks,
        },
        tx_index_enabled: match options.tx_index_enabled {
            Some(v) => Some(v),
            None => config.tx_index_enabled,
        },
        max_tip_age_secs: match options.max_tip_age_secs {
            Some(v) => Some(v),
            None => config.max_tip_age_secs,
        },
    }
}

} // verus!
