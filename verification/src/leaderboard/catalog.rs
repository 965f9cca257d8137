//! The achievement catalog and the install's profile.
use vstd::prelude::*;

verus! {

/// One achievement of the catalog.
#[derive(Clone, Debug)]
pub struct CatalogEntry {
    pub id: String,
    pub name: String,
    pub description: String,
    pub tier: String,
    pub unlock_kind: String,
    pub display_order: i32,
}

/// The achievement catalog.
#[derive(Clone, Debug)]
pub struct Catalog {
    pub version: String,
    pub achievements: Vec<CatalogEntry>,
}

/// What an install has done over its lifetime.
#[derive(Clone, Copy, Debug)]
pub struct ProfileLifetime {
    pub bytes_reclaimed: u64,
    pub total_scans: u64,
}

impl Default for ProfileLifetime {
    fn default() -> (r: Self)
        ensures
            r == (ProfileLifetime { bytes_reclaimed: 0, total_scans: 0 }),
    {
        ProfileLifetime { bytes_reclaimed: 0, total_scans: 0 }
    }
}

/// One achievement row of a profile. A yearly achievement has one row per year, whose id is the
/// catalog id, `#` and the year.
#[derive(Clone, Debug)]
pub struct ProfileGrant {
    pub achievement_id: String,
    pub granted: bool,
    pub granted_at: Option<String>,
}

/// An install's profile.
#[derive(Clone, Debug)]
pub struct Profile {
    pub install_id: String,
    pub lifetime: ProfileLifetime,
    pub achievements: Vec<ProfileGrant>,
}

impl Profile {
    /// The bytes the install has reclaimed over its lifetime.
    pub fn lifetime_reclaimed_bytes(&self) -> (r: u64)
        ensures
            r == self.lifetime.bytes_reclaimed,
    {
        self.lifetime.bytes_reclaimed
    }
}

/// What has been fetched so far: nothing, an answer, or the reason of a failure.
#[derive(Clone, Debug)]
pub struct CatalogState {
    pub catalog: Option<Result<Catalog, String>>,
    pub profile: Option<Result<Profile, String>>,
}

} // verus!
