//! Addresses, headers and the session cookie of the service.

use crate::pixiv::types::{IllustId, ProfileId};
use crate::text::{decimal, push_decimal};
use vstd::prelude::*;
use vstd::string::StringExecFns;

verus! {

/// The browser that the client claims to be.
pub const USER_AGENT: &'static str =
    "Mozilla/5.0 (Windows NT 10.0; rv:91.0) Gecko/20100101 Firefox/91.0";

/// The address under which every resource of the service lives.
pub const PIXIV_ROOT: &'static str = "https://www.pixiv.net/";

/// A header sent with every request.
#[derive(Clone, Copy, Debug)]
pub struct Header {
    pub name: &'static str,
    pub value: &'static str,
}

/// The headers sent with every request: the service's own address as the
/// referer, then the user agent.
pub fn default_headers() -> (headers: Vec<Header>)
    ensures
        headers@.len() == 2,
        headers@[0].name@ == "referer"@,
        headers@[0].value@ == PIXIV_ROOT@,
        headers@[1].name@ == "user-agent"@,
        headers@[1].value@ == USER_AGENT@,
{
    let mut headers = Vec::new();
    headers.push(Header { name: "referer", value: PIXIV_ROOT });
    headers.push(Header { name: "user-agent", value: USER_AGENT });
    headers
}

/// The cookie that carries a session identifier.
pub open spec fn session_cookie_text(session: Seq<char>) -> Seq<char> {
    "PHPSESSID="@ + session
}

/// The cookie to store for the service's address when logging in with the
/// session identifier `session`.
pub fn session_cookie(session: &str) -> (cookie: String)
    ensures
        cookie@ == session_cookie_text(session@),
{
    let mut cookie = String::from_str("PHPSESSID=");
    cookie.append(session);
    cookie
}

/// The address that lists everything an owner has published.
pub open spec fn profile_url_text(id: ProfileId) -> Seq<char> {
    PIXIV_ROOT@ + "ajax/user/"@ + decimal(id.0 as nat) + "/profile/all"@
}

/// The address of the frame metadata of an illustration.
pub open spec fn ugoira_meta_url_text(id: IllustId) -> Seq<char> {
    PIXIV_ROOT@ + "ajax/illust/"@ + decimal(id.0 as nat) + "/ugoira_meta"@
}

/// The address that lists everything the owner `id` has published.
pub fn profile_url(id: ProfileId) -> (url: String)
    ensures
        url@ == profile_url_text(id),
{
    let mut url = String::from_str(PIXIV_ROOT);
    url.append("ajax/user/");
    push_decimal(&mut url, id.0 as u64);
    url.append("/profile/all");
    url
}

/// The address of the frame metadata of the illustration `id`.
pub fn ugoira_meta_url(id: IllustId) -> (url: String)
    ensures
        url@ == ugoira_meta_url_text(id),
{
    let mut url = String::from_str(PIXIV_ROOT);
    url.append("ajax/illust/");
    push_decimal(&mut url, id.0 as u64);
    url.append("/ugoira_meta");
    url
}

} // verus!
