//! Project settings that the engine reads at start-up, and the defaults
//! of those that a project may leave out.
use vstd::prelude::*;

pub mod engine_version;

use engine_version::EngineVersion;

verus! {

/// Settings about the engine itself.
#[derive(Clone, Debug)]
pub struct EngineSettings {
    /// The engine version that the project was made with.
    pub version: EngineVersion,
}

/// Settings of the game window.
#[derive(Clone, Debug)]
pub struct WindowSettings {
    pub title: String,
    pub width: usize,
    pub height: usize,
    pub msaa_sample_count: usize,
    pub high_dpi: bool,
    pub fullscreen: bool,
    pub allow_transparency: bool,
}

/// Window height when the project gives none.
pub fn default_height() -> (res: usize)
    ensures
        res == 600,
{
    600
}

/// Window width when the project gives none.
pub fn default_width() -> (res: usize)
    ensures
        res == 800,
{
    800
}

/// Physics steps per second when the project gives none.
pub fn default_physics_framerate() -> (res: usize)
    ensures
        res == 240,
{
    240
}

/// Window title when the project gives none.
pub fn default_title() -> (res: String)
    ensures
        res@ == "butter game"@,
{
    String::from_str("butter game")
}

/// Multisampling sample count when the project gives none.
pub fn default_msaa_sample_count() -> (res: usize)
    ensures
        res == 4,
{
    4
}

} // verus!
