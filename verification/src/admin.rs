//! Administrator notification settings. The notifier that opens the direct
//! room and sends the notices lives outside the library.

use vstd::prelude::*;

verus! {

/// Where and when the bridge notifies its administrator.
#[derive(Debug, Clone, PartialEq, Eq)]
pub struct AdminConfig {
    pub admin_mxid: Option<String>,
    pub notify_on_token_invalid: bool,
    pub notify_on_errors: bool,
    pub error_threshold: u32,
}

impl Default for AdminConfig {
    /// No administrator configured; both notification kinds on, with the
    /// default error threshold.
    fn default() -> (r: AdminConfig)
        ensures
            r.admin_mxid is None,
            r.notify_on_token_invalid,
            r.notify_on_errors,
            r.error_threshold == 5,
    {
        AdminConfig {
            admin_mxid: None,
            notify_on_token_invalid: true,
            notify_on_errors: true,
            error_threshold: 5,
        }
    }
}

impl AdminConfig {
    pub fn has_admin_configured(&self) -> (r: bool)
        ensures
            r == (self.admin_mxid is Some),
    {
        self.admin_mxid.is_some()
    }

    /// Whether an error with this running count reaches the administrator:
    /// only once the threshold is reached, and only when error notices are
    /// on and an administrator exists.
    pub fn should_notify_error(&self, error_count: u32) -> (r: bool)
        ensures
            r == (self.notify_on_errors && error_count >= self.error_threshold
                && self.admin_mxid is Some),
    {
        self.notify_on_errors && error_count >= self.error_threshold && self.admin_mxid.is_some()
    }
}

} // verus!
