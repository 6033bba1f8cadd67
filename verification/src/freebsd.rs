//! FreeBSD: processes as the kernel's tables give them, and configuration staging.
pub mod attributes;
pub mod config;
pub mod errors;
pub mod preservation;
pub mod processes;
pub mod records;
pub mod replacement;
pub mod session;
pub mod sysctl;

pub use crate::shell::{
    detached_custom_command_argv, interactive_shell_command,
    pane_custom_command_pty_builder_platform, scrollback_editor_argv,
};
pub use crate::sys::foreground_process_group_id_for_tty_fd;
pub use crate::unix_desktop::{
    open_url, read_clipboard_image, read_clipboard_text, show_desktop_notification, write_clipboard,
};
pub use config::{check_config_write_target, create_config_temporary, write_existing_config};
pub use processes::{
    available_pane_shell, foreground_group_leader_job, foreground_job, foreground_process_group_id,
};
pub use replacement::write_config_temporary;
pub use session::{
    process_agent_hint, process_cwd, process_exists, raise_server_nofile_limit, session_processes,
    should_draw_host_cursor_by_default, should_query_host_terminal_palette, signal_processes,
};
