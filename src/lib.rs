//! Extraction of course results from the pages of a university result portal,
//! and detection of courses that became graded between two snapshots.

pub mod record;
pub mod text;
pub mod markup;
pub mod extract;
pub mod results;
pub mod snapshot;
pub mod portal;
