//! Core logic of a model, animation, material and texture editor: texture
//! classification, folder ordering, capture arithmetic and pixel order, the
//! log viewer's text cleaning, thumbnail planning and the decisions of the
//! helper bone editor and its bone selection widget.

pub mod capture;
pub mod folder;
pub mod hlpb;
pub mod log;
pub mod names;
pub mod texture;
pub mod thumbnail;
pub mod widgets;

pub use capture::{
    bgra_to_rgba, capture_size, image_from_bgra, screenshot_width, CaptureSize, CapturedImage,
    FrameSequence,
};
pub use folder::{sort_by_name, sort_files, AnimationIndex, AnimationSlot, ModFolder};
pub use log::{clean_log_message, log_display_text, Log, LogEntry, LogLevel};
pub use texture::{TextureDimension, TextureFooter, ViewDimension};
pub use thumbnail::{ThumbnailCandidate, ThumbnailJob, ThumbnailSource};
pub use widgets::{apply_bone_combo_input, bone_combo_options, BoneComboInput};
