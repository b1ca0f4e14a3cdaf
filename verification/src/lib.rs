//! Verified core logic of the Strata file manager: search exclusions,
//! camera library discovery, bounded icon reads and the file-manager
//! integration dialog.

pub mod camera_library;
pub mod exclusions;
pub mod icon;
pub mod paths;
pub mod portal;
pub mod text;
pub mod text_order;
