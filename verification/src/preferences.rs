//! Shared application preferences and their defaults.

use vstd::prelude::*;

verus! {

/// Policy used when a destination item already exists.
#[derive(Clone, Copy, Debug, PartialEq, Eq, Structural)]
pub enum ExistingItemAction {
    /// Ask the user which action to take.
    Ask,
    /// Replace the existing destination item.
    Replace,
    /// Leave the existing item untouched and skip the incoming item.
    Skip,
}

impl Default for ExistingItemAction {
    fn default() -> (r: Self)
        ensures
            r == ExistingItemAction::Ask,
    {
        ExistingItemAction::Ask
    }
}

/// Action performed when a file row is double-clicked.
#[derive(Clone, Copy, Debug, PartialEq, Eq, Structural)]
pub enum DoubleClickAction {
    /// Open or enter the selected item.
    Open,
    /// Transfer the selected item to the opposite pane.
    Transfer,
    /// Show metadata for the selected item.
    Inspect,
}

impl Default for DoubleClickAction {
    fn default() -> (r: Self)
        ensures
            r == DoubleClickAction::Open,
    {
        DoubleClickAction::Open
    }
}

/// Preferences controlling file-browser interaction.
#[derive(Clone, Copy, Debug, PartialEq, Eq, Structural)]
pub struct FilePreferences {
    /// Whether deletion requires confirmation.
    pub confirm_delete: bool,
    /// Action assigned to double-click.
    pub double_click_action: DoubleClickAction,
}

impl Default for FilePreferences {
    fn default() -> (r: Self)
        ensures
            r.confirm_delete,
            r.double_click_action == DoubleClickAction::Open,
    {
        FilePreferences { confirm_delete: true, double_click_action: DoubleClickAction::Open }
    }
}

/// Preferences controlling transfer conflict and queue behavior.
#[derive(Clone, Copy, Debug, PartialEq, Eq, Structural)]
pub struct TransferPreferences {
    /// Conflict policy for downloaded files.
    pub downloading_files: ExistingItemAction,
    /// Conflict policy for downloaded folders.
    pub downloading_folders: ExistingItemAction,
    /// Conflict policy for uploaded files.
    pub uploading_files: ExistingItemAction,
    /// Conflict policy for uploaded folders.
    pub uploading_folders: ExistingItemAction,
    /// Maximum number of simultaneous transfers requested by the user.
    pub simultaneous_transfers: u8,
    /// Whether completed activity entries remain visible.
    pub keep_activity: bool,
}

impl Default for TransferPreferences {
    fn default() -> (r: Self)
        ensures
            r.downloading_files == ExistingItemAction::Ask,
            r.downloading_folders == ExistingItemAction::Ask,
            r.uploading_files == ExistingItemAction::Ask,
            r.uploading_folders == ExistingItemAction::Ask,
            r.simultaneous_transfers == 5,
            r.keep_activity,
    {
        TransferPreferences {
            downloading_files: ExistingItemAction::Ask,
            downloading_folders: ExistingItemAction::Ask,
            uploading_files: ExistingItemAction::Ask,
            uploading_folders: ExistingItemAction::Ask,
            simultaneous_transfers: 5,
            keep_activity: true,
        }
    }
}

/// Preferences for connection and diagnostic behavior.
#[derive(Clone, Copy, Debug, PartialEq, Eq, Structural)]
pub struct AdvancedPreferences {
    /// Whether idle connections should use keepalive behavior.
    pub keep_connections_alive: bool,
    /// Whether verbose diagnostic logging is enabled.
    pub verbose_logging: bool,
}

impl Default for AdvancedPreferences {
    fn default() -> (r: Self)
        ensures
            r.keep_connections_alive,
            !r.verbose_logging,
    {
        AdvancedPreferences { keep_connections_alive: true, verbose_logging: false }
    }
}

/// Complete preference set.
#[derive(Clone, Copy, Debug, PartialEq, Eq, Structural)]
pub struct AppPreferences {
    /// File-browser preferences.
    pub files: FilePreferences,
    /// Transfer preferences.
    pub transfers: TransferPreferences,
    /// Advanced preferences.
    pub advanced: AdvancedPreferences,
}

/// The conservative defaults: ask before replacing anything, five
/// simultaneous transfers, confirm deletes, keep connections alive.
pub open spec fn default_preferences() -> AppPreferences {
    AppPreferences {
        files: FilePreferences { confirm_delete: true, double_click_action: DoubleClickAction::Open },
        transfers: TransferPreferences {
            downloading_files: ExistingItemAction::Ask,
            downloading_folders: ExistingItemAction::Ask,
            uploading_files: ExistingItemAction::Ask,
            uploading_folders: ExistingItemAction::Ask,
            simultaneous_transfers: 5,
            keep_activity: true,
        },
        advanced: AdvancedPreferences { keep_connections_alive: true, verbose_logging: false },
    }
}

impl Default for AppPreferences {
    fn default() -> (r: Self)
        ensures
            r == default_preferences(),
    {
        AppPreferences {
            files: FilePreferences::default(),
            transfers: TransferPreferences::default(),
            advanced: AdvancedPreferences::default(),
        }
    }
}

/// Position of an existing-item action in the preference selector.
pub open spec fn conflict_position(action: ExistingItemAction) -> u32 {
    match action {
        ExistingItemAction::Ask => 0,
        ExistingItemAction::Replace => 1,
        ExistingItemAction::Skip => 2,
    }
}

/// Returns the selector position of an existing-item action.
pub fn conflict_index(action: ExistingItemAction) -> (r: u32)
    ensures
        r == conflict_position(action),
{
    match action {
        ExistingItemAction::Ask => 0,
        ExistingItemAction::Replace => 1,
        ExistingItemAction::Skip => 2,
    }
}

/// Action picked in the selector; no selection or an unknown position asks.
pub open spec fn conflict_choice(choice: Option<u32>) -> ExistingItemAction {
    match choice {
        Some(1) => ExistingItemAction::Replace,
        Some(2) => ExistingItemAction::Skip,
        _ => ExistingItemAction::Ask,
    }
}

/// Returns the action picked in the selector.
pub fn conflict_action_from_choice(choice: Option<u32>) -> (r: ExistingItemAction)
    ensures
        r == conflict_choice(choice),
{
    match choice {
        Some(1) => ExistingItemAction::Replace,
        Some(2) => ExistingItemAction::Skip,
        _ => ExistingItemAction::Ask,
    }
}

/// Position of a double-click action in its selector.
pub open spec fn double_click_position(action: DoubleClickAction) -> u32 {
    match action {
        DoubleClickAction::Open => 0,
        DoubleClickAction::Transfer => 1,
        DoubleClickAction::Inspect => 2,
    }
}

/// Returns the selector position of a double-click action.
pub fn double_click_index(action: DoubleClickAction) -> (r: u32)
    ensures
        r == double_click_position(action),
{
    match action {
        DoubleClickAction::Open => 0,
        DoubleClickAction::Transfer => 1,
        DoubleClickAction::Inspect => 2,
    }
}

/// Double-click action picked in its selector; anything else opens.
pub open spec fn double_click_choice(choice: Option<u32>) -> DoubleClickAction {
    match choice {
        Some(1) => DoubleClickAction::Transfer,
        Some(2) => DoubleClickAction::Inspect,
        _ => DoubleClickAction::Open,
    }
}

/// Returns the double-click action picked in its selector.
pub fn double_click_from_choice(choice: Option<u32>) -> (r: DoubleClickAction)
    ensures
        r == double_click_choice(choice),
{
    match choice {
        Some(1) => DoubleClickAction::Transfer,
        Some(2) => DoubleClickAction::Inspect,
        _ => DoubleClickAction::Open,
    }
}

/// Selecting the position a selector shows for a value gives the value back.
pub proof fn lemma_selector_positions_round_trip(action: ExistingItemAction, click: DoubleClickAction)
    ensures
        conflict_choice(Some(conflict_position(action))) == action,
        double_click_choice(Some(double_click_position(click))) == click,
{
}

/// One of the four existing-item preferences.
#[derive(Clone, Copy, Debug, PartialEq, Eq, Structural)]
pub enum ConflictField {
    /// Files copied from a remote pane into a local one.
    DownloadingFiles,
    /// Folders copied from a remote pane into a local one.
    DownloadingFolders,
    /// Files copied any other way.
    UploadingFiles,
    /// Folders copied any other way.
    UploadingFolders,
}

/// Value of one existing-item preference.
pub open spec fn conflict_setting_of(t: TransferPreferences, field: ConflictField) -> ExistingItemAction {
    match field {
        ConflictField::DownloadingFiles => t.downloading_files,
        ConflictField::DownloadingFolders => t.downloading_folders,
        ConflictField::UploadingFiles => t.uploading_files,
        ConflictField::UploadingFolders => t.uploading_folders,
    }
}

/// Reads one existing-item preference.
pub fn conflict_setting(preferences: &TransferPreferences, field: ConflictField) -> (r: ExistingItemAction)
    ensures
        r == conflict_setting_of(*preferences, field),
{
    match field {
        ConflictField::DownloadingFiles => preferences.downloading_files,
        ConflictField::DownloadingFolders => preferences.downloading_folders,
        ConflictField::UploadingFiles => preferences.uploading_files,
        ConflictField::UploadingFolders => preferences.uploading_folders,
    }
}

/// Preferences with one existing-item preference replaced.
pub open spec fn with_conflict_setting(
    t: TransferPreferences,
    field: ConflictField,
    action: ExistingItemAction,
) -> TransferPreferences {
    match field {
        ConflictField::DownloadingFiles => TransferPreferences { downloading_files: action, ..t },
        ConflictField::DownloadingFolders => TransferPreferences { downloading_folders: action, ..t },
        ConflictField::UploadingFiles => TransferPreferences { uploading_files: action, ..t },
        ConflictField::UploadingFolders => TransferPreferences { uploading_folders: action, ..t },
    }
}

/// Replaces one existing-item preference.
pub fn set_conflict_setting(preferences: &mut TransferPreferences, field: ConflictField, action: ExistingItemAction)
    ensures
        *final(preferences) == with_conflict_setting(*old(preferences), field, action),
{
    match field {
        ConflictField::DownloadingFiles => preferences.downloading_files = action,
        ConflictField::DownloadingFolders => preferences.downloading_folders = action,
        ConflictField::UploadingFiles => preferences.uploading_files = action,
        ConflictField::UploadingFolders => preferences.uploading_folders = action,
    }
}

/// Setting one existing-item preference and reading it back gives the value
/// set, and leaves the other three, the transfer count and the activity
/// setting as they were.
pub proof fn lemma_conflict_setting_read_after_write(
    t: TransferPreferences,
    field: ConflictField,
    other: ConflictField,
    action: ExistingItemAction,
)
    ensures
        conflict_setting_of(with_conflict_setting(t, field, action), field) == action,
        other != field ==> conflict_setting_of(with_conflict_setting(t, field, action), other)
            == conflict_setting_of(t, other),
        with_conflict_setting(t, field, action).simultaneous_transfers == t.simultaneous_transfers,
        with_conflict_setting(t, field, action).keep_activity == t.keep_activity,
{
}

} // verus!
