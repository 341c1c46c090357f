//! The fetch stage: the names and the address derived from an identifier and
//! a token, and the choice between the cached container and a download.

use vstd::prelude::*;

verus! {

/// What every icon name starts with.
pub open spec fn icon_name_prefix() -> Seq<char> {
    "steam_icon_"@
}

/// Where every download address starts.
pub open spec fn url_prefix() -> Seq<char> {
    "https://cdn.steamstatic.com/steamcommunity/public/images/apps/"@
}

/// The extension of a container file.
pub open spec fn container_ext() -> Seq<char> {
    ".ico"@
}

/// The name of the icon of the application `game_id`.
pub open spec fn icon_name_of(game_id: Seq<char>) -> Seq<char> {
    icon_name_prefix() + game_id
}

/// The address of the icon container of `game_id` in version `icon_id`.
pub open spec fn icon_url_of(game_id: Seq<char>, icon_id: Seq<char>) -> Seq<char> {
    url_prefix() + game_id + "/"@ + icon_id + container_ext()
}

/// The name of the cache file that holds the container of the icon `icon_name`.
pub open spec fn cache_file_name_of(icon_name: Seq<char>) -> Seq<char> {
    icon_name + container_ext()
}

/// The name of the icon of the application `game_id`: `steam_icon_<game_id>`.
pub fn icon_name(game_id: &str) -> (r: String)
    ensures
        r@ == icon_name_of(game_id@),
{
    let mut r = "steam_icon_".to_string();
    r.append(game_id);
    r
}

/// The address from which the icon container of `game_id` in version
/// `icon_id` is downloaded.
pub fn icon_url(game_id: &str, icon_id: &str) -> (r: String)
    ensures
        r@ == icon_url_of(game_id@, icon_id@),
{
    let mut r = "https://cdn.steamstatic.com/steamcommunity/public/images/apps/".to_string();
    r.append(game_id);
    r.append("/");
    r.append(icon_id);
    r.append(".ico");
    r
}

/// The name of the cache file for the icon `icon_name`: `<icon_name>.ico`.
pub fn cache_file_name(icon_name: &str) -> (r: String)
    ensures
        r@ == cache_file_name_of(icon_name@),
{
    let mut r = icon_name.to_string();
    r.append(".ico");
    r
}

/// What the fetch stage does.
#[derive(Debug, PartialEq, Eq)]
pub enum FetchStep {
    /// The cache file exists: its bytes are the container, and nothing is
    /// downloaded.
    UseCached(Vec<u8>),
    /// Download the container from this address into the cache file.
    Download(String),
}

/// Chooses between the cached container, given as the bytes of the cache
/// file where that file exists, and a download from `url`.
pub fn plan_fetch(url: String, cached: Option<Vec<u8>>) -> (r: FetchStep)
    ensures
        match cached {
            Some(b) => r matches FetchStep::UseCached(c) && c@ == b@,
            None => r matches FetchStep::Download(u) && u@ == url@,
        },
{
    match cached {
        Some(b) => FetchStep::UseCached(b),
        None => FetchStep::Download(url),
    }
}

} // verus!
