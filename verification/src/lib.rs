//! Reading of UBI (Unsorted Block Image) flash dumps.
//!
//! A dump is a run of physical erase blocks. Each block starts with an
//! erase-counter header, which points at a volume-identifier header, which
//! names the logical volume the block belongs to. One reserved volume holds
//! the volume table. This crate decodes the headers, finds the block size,
//! scans the blocks into an [`Image`] and replays a volume's payload.

pub mod block;
pub mod bytes;
pub mod ec_hdr;
pub mod error;
pub mod fastmap;
pub mod image;
pub mod locate;
pub mod scan;
pub mod table;
pub mod vid_hdr;
pub mod vtbl;

pub use crate::ec_hdr::{EcHdr, EC_HDR_SIZE, UBI_EC_HDR_MAGIC};
pub use crate::error::{FormatError, ImageError};
pub use crate::fastmap::{FmEba, FmEc, FmSb, FmScanPool, FmVolHdr};
pub use crate::image::Image;
pub use crate::locate::find_block_size;
pub use crate::scan::scan_blocks;
pub use crate::table::{read_volume_table, VTBL_VOLID};
pub use crate::vid_hdr::{VidHdr, VolType, UBI_VID_HDR_MAGIC, VID_HDR_SIZE};
pub use crate::vtbl::{VtblRecord, UBI_VOL_NAME_MAX, VTBL_RECORD_SIZE};
