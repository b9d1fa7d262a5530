//! The LAN side of the messenger: input validation, peer ports, shared
//! files, discovery targets and the handling of received packets.
pub mod validation;
pub mod peer_directory;
pub mod file_registry;
pub mod discovery;
pub mod packet_dispatcher;
pub mod engine;
pub mod ack_tracker;
pub mod dir_stream;
pub mod transfer;

pub use ack_tracker::AckTracker;
pub use engine::{EngineStats, NetworkEngine, UploadRequestDetails};
pub use file_registry::{FileRegistry, SharedFile};
pub use packet_dispatcher::{
    BrEntryHandler, BrExitHandler, InputHandler, KnockHandler, NetAction, PacketContext,
    PacketDispatcher, RecvMsgHandler, SendMsgHandler,
};
pub use peer_directory::PeerDirectory;
