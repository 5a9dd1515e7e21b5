//! Verified core logic of the takusu resident agent: permissions, approval
//! layers and the approval flow, contact policy, planner events, coverage,
//! presentation templates, the device surface state machine, history
//! trimming, the tool registry and search, the decisions of an agent turn,
//! of carrying out approved changes and of the voice front end.

pub mod intake;
pub mod text;
pub mod labels;
pub mod permissions;
pub mod tool;
pub mod capability;
pub mod presentation;
pub mod session;
pub mod surface;
pub mod habit_steps;
pub mod clock;
pub mod json;
pub mod approval_layers;
pub mod coverage;
pub mod events;
pub mod contact_policy;
pub mod history;
pub mod readback;
pub mod tool_presentation;
pub mod tool_search;
pub mod audio_config;
pub mod config;
pub mod tool_stats;
pub mod notification;
pub mod tool_registry;
pub mod api;
pub mod json_schema;
pub mod approval_flow;
pub mod turn;
pub mod audio;
pub mod change_plan;
pub mod error;
pub mod presentation_decode;
pub mod prompt;
