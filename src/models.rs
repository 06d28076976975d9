//! The records that the backend keeps and exchanges.
use vstd::prelude::*;

verus! {

/// Read-only settings, loaded at startup.
#[derive(Clone, Debug)]
pub struct Settings {
    pub ap_name: String,
    pub ap_password: String,
    pub admin_users: Vec<String>,
}

/// A registered account; `password_hash` is the hex digest of the password
/// under `salt`.
#[derive(Clone, Debug)]
pub struct User {
    pub username: String,
    pub password_hash: String,
    pub salt: String,
}

#[derive(Clone, Debug)]
pub struct RegisterRequest {
    pub username: String,
    pub password: String,
}

#[derive(Clone, Debug)]
pub struct LoginRequest {
    pub username: String,
    pub password: String,
}

#[derive(Clone, Debug)]
pub struct LoginResponse {
    pub token: String,
    pub username: String,
    pub is_admin: bool,
}

/// The role of a hold in a problem.
#[derive(Clone, Copy, Debug, PartialEq, Eq, Structural)]
pub enum HoldType {
    Start,
    Foot,
    Normal,
    End,
}

/// A hold of a sector, by number, and its role.
#[derive(Clone, Copy, Debug)]
pub struct Hold(pub u16, pub HoldType);

#[derive(Clone, Debug)]
pub struct BaseProblem {
    pub id: u32,
    pub name: String,
    pub description: Option<String>,
    pub author: String,
    pub grade: u8,
    pub sector_id: u16,
    pub updated_at: String,
}

/// A problem as it is stored, with its holds and the grades users gave it.
#[derive(Clone, Debug)]
pub struct DiskProblem {
    pub base: BaseProblem,
    pub hold_sequence: Vec<Hold>,
    pub grades: Vec<Grade>,
}

#[derive(Clone, Debug)]
pub struct CreateProblemRequest {
    pub name: Option<String>,
    pub description: Option<String>,
    pub grade: u8,
    pub sector_id: u16,
    pub hold_sequence: Vec<Hold>,
}

#[derive(Clone, Debug)]
pub struct UpdateProblemRequest {
    pub name: Option<String>,
    pub description: Option<String>,
    pub grade: Option<u8>,
    pub hold_sequence: Option<Vec<Hold>>,
}

/// One user's grade and star rating of a problem.
#[derive(Clone, Debug)]
pub struct Grade {
    pub username: String,
    pub grade: u8,
    pub stars: u8,
    pub created_at: String,
}

#[derive(Clone, Debug)]
pub struct SubmitGradeRequest {
    pub grade: u8,
    pub stars: u8,
}

/// A sector's metadata file, completed at load with its image's size and folder.
#[derive(Clone, Debug)]
pub struct DiskSectorMetadata {
    pub image_filename: Option<String>,
    pub holds: Vec<[u16; 4]>,
    pub id: Option<u16>,
    pub image_width: u32,
    pub image_height: u32,
    pub display_name: Option<String>,
    pub folder_name: String,
}

#[derive(Clone, Debug)]
pub struct APISectorSummary {
    pub id: u16,
    pub name: String,
}

#[derive(Clone, Debug)]
pub struct APISectorDetail {
    pub id: u16,
    pub name: String,
    pub holds: Vec<[u16; 4]>,
    pub image_width: u32,
    pub image_height: u32,
}

/// The body of an error reply.
#[derive(Clone, Debug)]
pub struct ErrorResponse {
    pub error: String,
    pub code: String,
    pub timeout: Option<u64>,
}

/// Filters and paging of a problem listing.
#[derive(Clone, Debug)]
pub struct ProblemQuery {
    pub sector: Option<u16>,
    pub min_grade: Option<u8>,
    pub max_grade: Option<u8>,
    pub name: Option<String>,
    pub page: Option<u32>,
    pub per_page: Option<u32>,
}

} // verus!
