//! One-time passcodes sent to a phone, with a test number that needs no code.
use vstd::prelude::*;

use crate::text::str_eq;

verus! {

/// The phone number that, in test mode, is let in without a code being sent or checked.
pub const TEST_PHONE: &'static str = "+1234567890";

/// The code a learner types for the test number (any code is accepted for it).
pub const TEST_CODE: &'static str = "123456";

/// Credentials of the verification service, and whether the test number is enabled.
pub struct OtpService {
    pub account_sid: String,
    pub auth_token: String,
    pub service_sid: String,
    pub test_enabled: bool,
}

impl OtpService {
    /// A service with the given credentials.
    pub fn new(account_sid: String, auth_token: String, service_sid: String, test_enabled: bool) -> (r:
        OtpService)
        ensures
            r.account_sid == account_sid,
            r.auth_token == auth_token,
            r.service_sid == service_sid,
            r.test_enabled == test_enabled,
    {
        OtpService { account_sid, auth_token, service_sid, test_enabled }
    }

    /// Whether sending and checking a code for `phone` is skipped: only for the test number,
    /// and only when it is enabled.
    pub fn skips_provider(&self, phone: &str) -> (r: bool)
        ensures
            r == (self.test_enabled && phone@ == TEST_PHONE@),
    {
        self.test_enabled && str_eq(phone, TEST_PHONE)
    }
}

} // verus!
