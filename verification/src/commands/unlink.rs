//! Unlinking a team.

use vstd::prelude::*;
use crate::config::{remove_team, Config};
use crate::error::{Error, ErrorView};

verus! {

/// Unlinks `alias`. An alias that is not linked is reported and changes
/// nothing.
pub fn run(config: &mut Config, alias: &str) -> (result: Result<(), Error>)
    requires
        old(config).wf(),
    ensures
        final(config).wf(),
        final(config)@ == old(config)@.remove(alias@),
        match result {
            Ok(_) => old(config)@.links.contains_key(alias@),
            Err(e) => !old(config)@.links.contains_key(alias@) && e@ == ErrorView::TeamNotFound
                && final(config)@ == old(config)@,
        },
{
    if remove_team(config, alias) {
        Ok(())
    } else {
        Err(Error::TeamNotFound)
    }
}

} // verus!
