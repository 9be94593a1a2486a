//! The secure credential store for provider keys, on platforms that offer
//! none: keys cannot be saved, none is ever found, deleting succeeds.
use vstd::prelude::*;

use super::provider_settings::SettingsError;

verus! {

/// Saving a key is refused where no secure credential store is available.
pub fn write(provider_id: &str, secret: &str) -> (r: Result<(), SettingsError>)
    ensures
        r == Err::<(), SettingsError>(SettingsError::SecureStorageUnavailable),
{
    Err(SettingsError::SecureStorageUnavailable)
}

/// Without a secure store no key is ever stored.
pub fn read(provider_id: &str) -> (r: Result<Option<String>, SettingsError>)
    ensures
        r matches Ok(v) && v is None,
{
    Ok(None)
}

/// Deleting from an absent store succeeds.
pub fn delete(provider_id: &str) -> (r: Result<(), SettingsError>)
    ensures
        r is Ok,
{
    Ok(())
}

} // verus!
