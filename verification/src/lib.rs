//! Rendering and interactive-input core of a terminal file browser:
//! viewport scrolling over a directory listing, width-bounded name
//! truncation, file classification by mode bits and extension, and a
//! single-line editor that tracks its cursor under variable-width glyphs.

mod editor;
mod truncate;
mod unix;
mod viewport;
mod width;

pub use editor::glyph_of;
pub use editor::glyphs_width;
pub use editor::is_char_code;
pub use editor::lemma_insert_backspace;
pub use editor::lemma_sequence_preserves_wf;
pub use editor::lemma_step_preserves_wf;
pub use editor::status_spec;
pub use editor::step_spec;
pub use editor::steps_spec;
pub use editor::wf;
pub use editor::EditCommand;
pub use editor::EditModel;
pub use editor::EditStatus;
pub use editor::Glyph;
pub use editor::LineEditState;
pub use editor::RenameStart;
pub use truncate::ext_cols;
pub use truncate::lemma_truncation_bound;
pub use truncate::lemma_truncation_fidelity;
pub use truncate::lemma_truncation_head_prefix;
pub use truncate::plan_spec;
pub use truncate::reserved_cols;
pub use truncate::trim_count;
pub use truncate::plan_width;
pub use truncate::truncate_name;
pub use truncate::PlanModel;
pub use truncate::RenderPlan;
pub use truncate::ELLIPSIS;
pub use unix::classify;
pub use unix::classify_spec;
pub use unix::is_image_ext_spec;
pub use unix::is_media_ext_spec;
pub use unix::is_executable;
pub use unix::is_executable_spec;
pub use unix::is_image_ext;
pub use unix::is_media_ext;
pub use unix::mode_string;
pub use unix::perm_chars;
pub use unix::stringify_mode;
pub use unix::type_char;
pub use unix::BITMASK;
pub use unix::S_IFBLK;
pub use unix::S_IFCHR;
pub use unix::S_IFDIR;
pub use unix::S_IFIFO;
pub use unix::S_IFLNK;
pub use unix::S_IFREG;
pub use unix::S_IFSOCK;
pub use unix::S_IXGRP;
pub use unix::S_IXOTH;
pub use unix::S_IXUSR;
pub use unix::FileCategory;

pub use viewport::find_window;
pub use viewport::lemma_viewport_containment;
pub use viewport::lemma_viewport_stability;
pub use viewport::window_end;
pub use viewport::window_start;
pub use viewport::DEFAULT_MARGIN;

pub use width::chars_width;
pub use width::char_width_of;
pub use width::display_width;
pub use width::glyph_width;
pub use width::seq_width;
