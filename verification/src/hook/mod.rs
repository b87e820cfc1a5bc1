//! Hook lifecycle: the tray binary is itself the statusline command that
//! the assistant runs.

pub mod command;
pub mod legacy;
pub mod lifecycle;
pub mod report;
pub mod settings;

pub use self::command::{
    build_command, is_plain, parse_our_command, quote_if_needed, shell_quote, shell_split, OurCommand,
};
pub use self::legacy::{strip_legacy_blocks, SCRIPT_BACKUP_SUFFIX};
pub use self::settings::{
    read_settings, HookError, HookErrorKind, SettingsDoc, SETTINGS_BACKUP_FILE_NAME,
    SETTINGS_FILE_NAME,
};
pub use self::lifecycle::{
    append_suffix, command_to_wrap, install_in, script_path_of, uninstall_in, Install, InstallInput,
    InstallReport, ScriptFile, Uninstall, UninstallInput, UninstallReport,
};
pub use self::report::{install_toast, recorded_config_dir, status_in, StatusReport};
