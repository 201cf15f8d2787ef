//! Runtime configuration of the bot process.
//!
//! The surrounding program deserialises its configuration file into this
//! shape (through its own mirror type) and hands it over as plain values.

use vstd::prelude::*;
use vstd::string::StringExecFns;

verus! {

/// Credentials and connection data the process starts with.
pub struct ConfigData {
    token: String,
    bot_id: u64,
    owner_id: u64,
    db_url: String,
    db_username: String,
    db_password: String,
    db_database: String,
}

impl ConfigData {
    pub closed spec fn spec_token(&self) -> Seq<char> {
        self.token@
    }

    pub closed spec fn spec_bot_id(&self) -> u64 {
        self.bot_id
    }

    pub closed spec fn spec_owner_id(&self) -> u64 {
        self.owner_id
    }

    pub closed spec fn spec_db_url(&self) -> Seq<char> {
        self.db_url@
    }

    pub closed spec fn spec_db_username(&self) -> Seq<char> {
        self.db_username@
    }

    pub closed spec fn spec_db_password(&self) -> Seq<char> {
        self.db_password@
    }

    pub closed spec fn spec_db_database(&self) -> Seq<char> {
        self.db_database@
    }

    pub fn new(
        token: String,
        bot_id: u64,
        owner_id: u64,
        db_url: String,
        db_username: String,
        db_password: String,
        db_database: String,
    ) -> (r: Self)
        ensures
            r.spec_token() == token@,
            r.spec_bot_id() == bot_id,
            r.spec_owner_id() == owner_id,
            r.spec_db_url() == db_url@,
            r.spec_db_username() == db_username@,
            r.spec_db_password() == db_password@,
            r.spec_db_database() == db_database@,
    {
        ConfigData { token, bot_id, owner_id, db_url, db_username, db_password, db_database }
    }

    pub fn get_token(&self) -> (r: &String)
        ensures
            r@ == self.spec_token(),
    {
        &self.token
    }

    pub fn get_bot_id(&self) -> (r: &u64)
        ensures
            *r == self.spec_bot_id(),
    {
        &self.bot_id
    }

    pub fn get_owner_id(&self) -> (r: &u64)
        ensures
            *r == self.spec_owner_id(),
    {
        &self.owner_id
    }

    /// The database connection string assembled from host, credentials
    /// and database name.
    pub fn get_db_url(&self) -> (r: String)
        ensures
            r@ == "mysql://"@ + self.spec_db_username() + ":"@ + self.spec_db_password() + "@"@
                + self.spec_db_url() + "/"@ + self.spec_db_database(),
    {
        let mut s = String::new();
        s.append("mysql://");
        s.append(self.db_username.as_str());
        s.append(":");
        s.append(self.db_password.as_str());
        s.append("@");
        s.append(self.db_url.as_str());
        s.append("/");
        s.append(self.db_database.as_str());
        proof {
            assert(s@ =~= "mysql://"@ + self.spec_db_username() + ":"@ + self.spec_db_password()
                + "@"@ + self.spec_db_url() + "/"@ + self.spec_db_database());
        }
        s
    }
}

} // verus!
