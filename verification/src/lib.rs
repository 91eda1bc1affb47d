//! Frame-synchronised input for two-player netplay: the payload's input
//! buffers and start-up menu sequence, and the runner's log, peer table and
//! key-binding state.

pub mod input_queue;
pub mod init_sequence;
pub mod input_handler;
pub mod text;
pub mod log;
pub mod net;
pub mod ui_state;
pub mod inject;
pub mod module_name;
