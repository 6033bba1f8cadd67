//! Process discovery on Linux, from what `/proc` says.
pub mod environment;
pub mod groups;
pub mod job;
pub mod members;
pub mod model;
pub mod proc_fs;
pub mod session;
pub mod snapshot;
pub mod stat;
pub mod tree;

pub use crate::shell::{
    detached_custom_command_argv, interactive_shell_command,
    pane_custom_command_pty_builder_platform, scrollback_editor_argv,
};
pub use crate::sys::foreground_process_group_id_for_tty_fd;
pub use crate::unix_desktop::{
    open_url, read_clipboard_image, read_clipboard_text, show_desktop_notification, write_clipboard,
};
pub use environment::{should_draw_host_cursor_by_default, should_query_host_terminal_palette};
pub use job::{available_pane_shell, foreground_group_leader_job, foreground_job};
pub use proc_fs::foreground_process_group_id;
pub use session::{
    process_agent_hint, process_cwd, process_exists, raise_server_nofile_limit, session_processes,
    signal_processes,
};
