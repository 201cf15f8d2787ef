//! Row shapes of the external data layer, as plain values.
//!
//! The driver reads and writes these through its database client; the
//! library only carries them.

use vstd::prelude::*;
use vstd::string::StringExecFns;

verus! {

/// Whether an account is a member's primary account or a secondary one.
pub enum AccountType {
    Main,
    Sub,
}

impl AccountType {
    /// The display name of the account kind.
    pub fn to_string(&self) -> (r: String)
        ensures
            self is Main ==> r@ == "\u{30E1}\u{30A4}\u{30F3}"@,
            self is Sub ==> r@ == "\u{30B5}\u{30D6}"@,
    {
        let mut s = String::new();
        match self {
            AccountType::Main => {
                s.append("\u{30E1}\u{30A4}\u{30F3}");
                proof {
                    assert(Seq::<char>::empty() + "\u{30E1}\u{30A4}\u{30F3}"@
                        =~= "\u{30E1}\u{30A4}\u{30F3}"@);
                }
            },
            AccountType::Sub => {
                s.append("\u{30B5}\u{30D6}");
                proof {
                    assert(Seq::<char>::empty() + "\u{30B5}\u{30D6}"@ =~= "\u{30B5}\u{30D6}"@);
                }
            },
        }
        s
    }
}

/// The outcome of a configuration change request.
pub enum ConfResponseType {
    Okay,
    EqualErr,
    ExistErr,
    OtherErr,
    Success,
}

/// A verified member account.
pub struct Confirmed {
    pub uid: u64,
    pub name: String,
    pub guild_id: u64,
    pub account_type: AccountType,
    pub main_uid: Option<u64>,
    pub first_cert: Option<u64>,
    pub second_cert: Option<u64>,
}

/// Per-guild moderation configuration.
pub struct Config {
    pub uid: u64,
    pub white_list: bool,
    pub leave_ban: bool,
    pub log_channel_id: Option<u64>,
    pub auth_role_id: Option<u64>,
    pub bot_role_id: Option<u64>,
}

/// Per-member data: the member's generated identification string.
pub struct Data {
    pub uid: u64,
    pub glacialeur: Option<String>,
}

/// A member's registered mail address.
pub struct Email {
    pub uid: u64,
    pub email: String,
}

} // verus!
