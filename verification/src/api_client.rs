//! Client of the public Wargaming API (player search and player statistics):
//! the server region chooses the host; requests are plain GET URLs.

use vstd::prelude::*;

use crate::text::{decimal, push_decimal, str_eq};

verus! {

/// The API host for a server region: `asia`, `eu`, `na` or `com`; any
/// other value falls back to Asia.
pub open spec fn base_url_for(server: Seq<char>) -> Seq<char> {
    if server == "asia"@ {
        "https://api.wotblitz.asia"@
    } else if server == "eu"@ {
        "https://api.wotblitz.eu"@
    } else if server == "na"@ || server == "com"@ {
        "https://api.wotblitz.com"@
    } else {
        "https://api.wotblitz.asia"@
    }
}

/// A client of the Wargaming API: the application id and the host of the
/// chosen region.
pub struct WgApiClient {
    application_id: String,
    base_url: String,
}

impl WgApiClient {
    /// The application id the client sends.
    pub closed spec fn spec_application_id(&self) -> Seq<char> {
        self.application_id@
    }

    /// The API host the client talks to.
    pub closed spec fn spec_base_url(&self) -> Seq<char> {
        self.base_url@
    }

    /// A client for `application_id` on the host of `server`.
    pub fn new(application_id: &str, server: &str) -> (c: WgApiClient)
        ensures
            c.spec_application_id() == application_id@,
            c.spec_base_url() == base_url_for(server@),
    {
        let base_url = if str_eq(server, "asia") {
            "https://api.wotblitz.asia"
        } else if str_eq(server, "eu") {
            "https://api.wotblitz.eu"
        } else if str_eq(server, "na") || str_eq(server, "com") {
            "https://api.wotblitz.com"
        } else {
            "https://api.wotblitz.asia"
        };
        WgApiClient { application_id: application_id.to_string(), base_url: base_url.to_string() }
    }

    /// The application id.
    pub fn application_id(&self) -> (r: &str)
        ensures
            r@ == self.spec_application_id(),
    {
        self.application_id.as_str()
    }

    /// The API host.
    pub fn base_url(&self) -> (r: &str)
        ensures
            r@ == self.spec_base_url(),
    {
        self.base_url.as_str()
    }

    /// URL of the player search: exact match or prefix match, ten results
    /// at most.
    pub fn search_player_url(&self, nickname: &str, exact: bool) -> (url: String)
        ensures
            url@ == self.spec_base_url() + "/wotb/account/list/?application_id="@
                + self.spec_application_id() + "&search="@ + nickname@ + "&type="@ + (if exact {
                "exact"@
            } else {
                "startswith"@
            }) + "&limit=10"@,
    {
        let mut url = self.base_url.clone();
        url.append("/wotb/account/list/?application_id=");
        url.append(self.application_id.as_str());
        url.append("&search=");
        url.append(nickname);
        url.append("&type=");
        if exact {
            url.append("exact");
        } else {
            url.append("startswith");
        }
        url.append("&limit=10");
        url
    }

    /// URL of a player's statistics, random and rating battles.
    pub fn player_stats_url(&self, account_id: u32) -> (url: String)
        ensures
            url@ == self.spec_base_url() + "/wotb/account/info/?application_id="@
                + self.spec_application_id() + "&account_id="@ + decimal(account_id as nat)
                + "&extra=statistics.rating"@,
    {
        let mut url = self.base_url.clone();
        url.append("/wotb/account/info/?application_id=");
        url.append(self.application_id.as_str());
        url.append("&account_id=");
        push_decimal(&mut url, account_id as u64);
        url.append("&extra=statistics.rating");
        url
    }
}

} // verus!
