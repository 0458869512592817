//! Set-up of the process log.

use vstd::prelude::*;

verus! {

#[verifier::external_type_specification]
#[verifier::external_body]
pub struct ExSetLoggerError(log::SetLoggerError);

/// Relies on log::set_max_level: sets the process-wide filter to the info level.
#[verifier::external_body]
fn open_info_level() {
    log::set_max_level(log::LevelFilter::Info)
}

/// Finishes set-up once installing the process logger has been tried: after a successful
/// installation the log is opened at the info level; a failed one is handed back as it is.
pub fn init_logger(installed: Result<(), log::SetLoggerError>) -> (r: Result<
    (),
    log::SetLoggerError,
>)
    ensures
        r == installed,
{
    if installed.is_ok() {
        open_info_level();
    }
    installed
}

} // verus!
