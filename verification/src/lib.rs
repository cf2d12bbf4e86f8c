//! The decisions of a tiling Wayland compositor, apart from its I/O.

pub mod actions;
pub mod ancestors;
mod assoc;
pub mod bsp;
pub mod bsp_laws;
pub mod capture;
pub mod cast_frames;
pub mod cast_registry;
pub mod cast_session;
pub mod cli;
pub mod compositor;
pub mod config;
pub mod desk;
pub mod desk_laws;
pub mod ext_workspace;
pub mod ext_workspace_laws;
pub mod geometry;
pub mod input_laws;
pub mod ipc;
pub mod ipc_documents;
pub mod ipc_laws;
pub mod ipc_requests;
pub mod json;
pub mod keyboard;
pub mod layer_shell;
pub mod layouts;
pub mod layouts_laws;
pub mod lifecycle_laws;
pub mod limit_laws;
pub mod looks;
pub mod master;
pub mod output_configuration;
pub mod output_laws;
pub mod point_laws;
pub mod pointer;
pub mod popups;
pub mod portal;
pub mod press;
pub mod ratio;
pub mod resize;
pub mod ripple;
pub mod screencast;
pub mod screencopy;
pub mod seqs;
pub mod services;
pub mod session;
pub mod session_laws;
pub mod session_tasks;
pub mod sharing_laws;
pub mod smallvil;
pub mod source_picker;
pub mod state_laws;
pub mod surface_laws;
pub mod tearing_control;
pub mod text;
pub mod text_laws;
pub mod tiling_laws;
pub mod toplevels;
pub mod touchpad;
pub mod view_laws;
pub mod window_laws;
pub mod wlr_foreign_toplevel;
pub mod wlr_gamma_control;
pub mod wlr_output_management;
pub mod wlr_output_power_management;
pub mod workspace_laws;
pub mod xdg_shell;

pub use assoc::{Assoc, Key};
