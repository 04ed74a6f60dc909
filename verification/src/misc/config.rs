use vstd::prelude::*;

verus! {

pub const LIBRARY_EXT: &'static str = "mlib";

pub const METADATA_FN: &'static str = "metadata.json";

pub const DATABASE_FN: &'static str = "shiromana.db";

pub const SHARED_DATABASE_FN: &'static str = "shared.db";

pub const THUMBNAIL_DATABASE_FN: &'static str = "thumbnail.db";

pub const FINGERPRINT_FN: &'static str = ".shiromana";

pub const DEFAULT_MEDIAS_FOLDER: &'static str = "medias";

pub const MEDIAS_HASH_LEVEL: u32 = 1;

/// Only a hint for warnings; nothing enforces it.
pub const MEDIAS_FOLDER_MAX_FILES: u32 = 10000;

pub const DEFAULT_HASH_ALGO: &'static str = "BLAKE3";

pub const LOCKFILE: &'static str = ".LOCK";

/// The version of the catalog format that this library writes: major,
/// minor, patch.
pub const VERSION: (u64, u64, u64) = (0, 1, 0);

/// Width and height ceiling of a generated preview, in pixels.
pub const THUMBNAIL_SIZE: (u32, u32) = (256, 256);

} // verus!
