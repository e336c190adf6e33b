//! Core of a peer-to-peer collaborative whiteboard backend.

pub mod actors;
pub mod ai_bridge;
pub mod analyst;
pub mod beginnings;
pub mod board;
pub mod board_changes;
pub mod chat;
pub mod cli;
pub mod collections;
pub mod command;
pub mod company;
pub mod coordination;
pub mod discovery;
pub mod drawing;
pub mod element;
pub mod files;
pub mod force_graph;
pub mod frame;
pub mod gossip;
pub mod hash;
pub mod ids;
pub mod import_orchestrator;
pub mod imports;
pub mod integration_bridge;
pub mod invitation;
pub mod invite;
pub mod json;
pub mod lens_bridge;
pub mod membership;
pub mod model;
pub mod network;
pub mod objects;
pub mod profile;
pub mod project_board;
pub mod replication;
pub mod running;
pub mod sharing;
pub mod snapshot;
pub mod strings;
pub mod system;
pub mod tables;
pub mod telling;
pub mod text;
pub mod upkeep;
pub mod wording;

pub use model::{
    BoardMetadata, ChatDTO, CommandMsg, DirectChatOutbound, FileDTO, FileTransferMsg, Group,
    NetworkCommand, NetworkEvent, Object, SwiftEvent, WhiteboardDTO, Workspace,
};
pub use snapshot::{IntegrationBindingDTO, TreeSnapshotDTO};
