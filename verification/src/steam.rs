//! Player identifiers. Input and search queries carry the numeric 64-bit
//! Steam ID; the per-player tables of a fetched log are keyed by the textual
//! SteamID3 form. The conversion between the two is the service's fixed
//! convention and is taken from the steamid_ng crate.

use vstd::prelude::*;

verus! {

/// The textual SteamID3 form of a numeric 64-bit Steam ID: a fixed function
/// of the numeric value.
pub uninterp spec fn steam3_of(id64: u64) -> Seq<char>;

/// Whether the account-type and universe bits of a numeric Steam ID are
/// valid; the conversion accepts exactly these values.
pub open spec fn steam_id_valid(id64: u64) -> bool {
    (id64 >> 52) & 0xF <= 10 && (id64 >> 56) & 0xFF <= 5
}

/// Relies on steamid_ng::SteamID::from_steam64 and SteamID::steam3:
/// `from_steam64` accepts exactly the numeric values whose account-type
/// nibble is at most 10 and whose universe byte is at most 5, and `steam3`
/// renders the textual SteamID3 form, a function of the numeric value alone.
#[verifier::external_body]
fn steam3_id(id64: u64) -> (r: Option<String>)
    ensures
        r is Some <==> steam_id_valid(id64),
        r matches Some(s) ==> s@ == steam3_of(id64),
{
    match steamid_ng::SteamID::from_steam64(id64) {
        Ok(sid) => Some(sid.steam3()),
        Err(_) => None,
    }
}

/// Converts numeric player IDs to the textual keys that logs use, in order;
/// reports the first invalid numeric ID instead, if any.
pub fn steam3_ids(ids: &Vec<u64>) -> (r: Result<Vec<String>, u64>)
    ensures
        r is Ok <==> (forall|i: int| 0 <= i < ids@.len() ==> steam_id_valid(#[trigger] ids@[i])),
        r matches Ok(keys) ==> keys@.len() == ids@.len() && (forall|i: int|
            0 <= i < ids@.len() ==> (#[trigger] keys@[i])@ == steam3_of(ids@[i])),
        r matches Err(bad) ==> !steam_id_valid(bad) && ids@.contains(bad),
{
    let mut keys: Vec<String> = Vec::new();
    let mut i: usize = 0;
    while i < ids.len()
        invariant
            0 <= i <= ids@.len(),
            keys@.len() == i,
            forall|j: int| 0 <= j < i ==> steam_id_valid(#[trigger] ids@[j]),
            forall|j: int| 0 <= j < i ==> (#[trigger] keys@[j])@ == steam3_of(ids@[j]),
        decreases ids@.len() - i,
    {
        match steam3_id(ids[i]) {
            Some(key) => {
                keys.push(key);
            },
            None => {
                return Err(ids[i]);
            },
        }
        i = i + 1;
    }
    Ok(keys)
}

} // verus!
