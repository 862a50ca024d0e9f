//! File-system path handling, virtual file system bookkeeping and HID / input device
//! helpers of a game engine, with their behaviour stated as contracts.

pub mod text;
pub mod display;
pub mod path_model;
pub mod path_root;
pub mod path_component;
pub mod components;
pub mod path;
pub mod path_buf;
pub mod path_order;
pub mod vfs_parts;
pub mod normalize;
pub mod qualified;
pub mod macro_subst;
pub mod vfs;
pub mod entry;
pub mod hid_usages;
pub mod usb_vendors;
pub mod raw_input;
pub mod hid;
pub mod input;
pub mod keyboard;
pub mod mouse;
pub mod gamepad;
pub mod dualsense;
pub mod input_definitions;
pub mod user;
pub mod logging;
pub mod device_storage;
pub mod name_filter;
pub mod laws;
pub mod push_laws;
pub mod name_laws;
pub mod fs_types;
pub mod win32_flags;
