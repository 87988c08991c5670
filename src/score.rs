//! Stored play records and player account details, as the recalculation
//! reads them.

use vstd::prelude::*;

verus! {

/// One stored play record that counts toward a player's best plays.
#[derive(Debug, Clone, PartialEq, Eq)]
pub struct Score {
    pub id: u64,
    /// The mode code; codes beyond the four base modes are play-style
    /// variants of the base mode `mode % 4`.
    pub mode: i8,
    /// The legacy mod bitmask.
    pub mods: i32,
    /// The legacy total score.
    pub score: i32,
    pub map_md5: String,
    pub max_combo: i32,
    pub ngeki: i32,
    pub n300: i32,
    pub nkatu: i32,
    pub n100: i32,
    pub n50: i32,
    pub nmiss: i32,
    pub userid: i32,
    pub map_id: i32,
    /// The structured mod list of a new-format record, as JSON text.
    pub mods_json: Option<String>,
    /// Whether the record uses the new score-counting format.
    pub lazer: bool,
}

/// A player's region and privilege bitmask.
#[derive(Debug, Clone, PartialEq, Eq)]
pub struct UserInfo {
    pub country: String,
    pub privs: i32,
}

} // verus!
