//! The browser protocol: which request a message names, and in which
//! format an export is written.

use vstd::prelude::*;
use crate::text::{str_eq, chars_of};

verus! {

/// A request a browser client sends over the WebSocket, named by the
/// message's `type` field.
#[derive(Debug, Clone, Copy, PartialEq, Eq, Structural)]
pub enum ClientRequest {
    /// Send the full state snapshot.
    GetState,
    /// Set one parameter of a patch.
    SetPatchParam,
    /// Set a note's volume.
    SetNoteVolume,
    /// Set a note's time offset.
    SetNoteOffset,
    /// Replace a note's transition.
    SetNoteTransition,
    /// Append a note to a heartbeat.
    AddNote,
    /// Remove a note from a heartbeat.
    RemoveNote,
    /// Replace a heartbeat's label tiers.
    SetTiers,
    /// Pin a heartbeat's metric to a value.
    OverrideHeartbeat,
    /// Release a pinned metric.
    ClearOverride,
    /// Play a heartbeat once, now.
    TriggerHeartbeat,
    /// Set a patch parameter, then play the patch.
    SetPatchParamAndPlay,
    /// Mute or unmute all output.
    SetMuted,
    /// Set the master volume.
    SetMasterVolume,
    /// Set a heartbeat's cycle offset.
    SetCycleOffset,
    /// Set a heartbeat's crossfade time.
    SetCrossfadeMs,
    /// Set a heartbeat's poll interval.
    SetPollInterval,
    /// Set a heartbeat's cycle length.
    SetCycleSecs,
    /// Set a heartbeat's phrase gap.
    SetPhraseGap,
    /// Set a heartbeat's repeat rate.
    SetRepeatRate,
    /// Rename a heartbeat.
    SetHeartbeatName,
    /// Change a heartbeat's probe command.
    SetHeartbeatCommand,
    /// Change how a probe's result is read.
    SetResultMode,
    /// Change a heartbeat's playback mode.
    SetPlayback,
    /// Revert to the configuration as loaded.
    RevertAll,
    /// Export the configuration as text.
    ExportConfig,
    /// Import patches from text.
    ImportConfig,
    /// Create a new patch.
    CreatePatch,
    /// Create an override of a patch.
    CreateOverride,
    /// Rename a patch.
    RenamePatch,
    /// Let an override follow its base on one parameter again.
    ResetOverrideParam,
    /// Write the configuration file.
    SaveConfig,
    /// Add a new heartbeat.
    CreateHeartbeat,
}

/// The request named by `msg_type`; `None` for a name the protocol
/// does not know (such messages are ignored).
pub open spec fn request_of(msg_type: Seq<char>) -> Option<ClientRequest> {
    if msg_type == "get_state"@ {
        Some(ClientRequest::GetState)
    } else if msg_type == "set_patch_param"@ {
        Some(ClientRequest::SetPatchParam)
    } else if msg_type == "set_note_volume"@ {
        Some(ClientRequest::SetNoteVolume)
    } else if msg_type == "set_note_offset"@ {
        Some(ClientRequest::SetNoteOffset)
    } else if msg_type == "set_note_transition"@ {
        Some(ClientRequest::SetNoteTransition)
    } else if msg_type == "add_note"@ {
        Some(ClientRequest::AddNote)
    } else if msg_type == "remove_note"@ {
        Some(ClientRequest::RemoveNote)
    } else if msg_type == "set_tiers"@ {
        Some(ClientRequest::SetTiers)
    } else if msg_type == "override_heartbeat"@ {
        Some(ClientRequest::OverrideHeartbeat)
    } else if msg_type == "clear_override"@ {
        Some(ClientRequest::ClearOverride)
    } else if msg_type == "trigger_heartbeat"@ {
        Some(ClientRequest::TriggerHeartbeat)
    } else if msg_type == "set_patch_param_and_play"@ {
        Some(ClientRequest::SetPatchParamAndPlay)
    } else if msg_type == "set_muted"@ {
        Some(ClientRequest::SetMuted)
    } else if msg_type == "set_master_volume"@ {
        Some(ClientRequest::SetMasterVolume)
    } else if msg_type == "set_cycle_offset"@ {
        Some(ClientRequest::SetCycleOffset)
    } else if msg_type == "set_crossfade_ms"@ {
        Some(ClientRequest::SetCrossfadeMs)
    } else if msg_type == "set_poll_interval"@ {
        Some(ClientRequest::SetPollInterval)
    } else if msg_type == "set_cycle_secs"@ {
        Some(ClientRequest::SetCycleSecs)
    } else if msg_type == "set_phrase_gap"@ {
        Some(ClientRequest::SetPhraseGap)
    } else if msg_type == "set_repeat_rate"@ {
        Some(ClientRequest::SetRepeatRate)
    } else if msg_type == "set_heartbeat_name"@ {
        Some(ClientRequest::SetHeartbeatName)
    } else if msg_type == "set_heartbeat_command"@ {
        Some(ClientRequest::SetHeartbeatCommand)
    } else if msg_type == "set_result_mode"@ {
        Some(ClientRequest::SetResultMode)
    } else if msg_type == "set_playback"@ {
        Some(ClientRequest::SetPlayback)
    } else if msg_type == "revert_all"@ {
        Some(ClientRequest::RevertAll)
    } else if msg_type == "export_config"@ {
        Some(ClientRequest::ExportConfig)
    } else if msg_type == "import_config"@ {
        Some(ClientRequest::ImportConfig)
    } else if msg_type == "create_patch"@ {
        Some(ClientRequest::CreatePatch)
    } else if msg_type == "create_override"@ {
        Some(ClientRequest::CreateOverride)
    } else if msg_type == "rename_patch"@ {
        Some(ClientRequest::RenamePatch)
    } else if msg_type == "reset_override_param"@ {
        Some(ClientRequest::ResetOverrideParam)
    } else if msg_type == "save_config"@ {
        Some(ClientRequest::SaveConfig)
    } else if msg_type == "create_heartbeat"@ {
        Some(ClientRequest::CreateHeartbeat)
    } else {
        None
    }
}

/// The request a message of type `msg_type` makes.
pub fn parse_request(msg_type: &str) -> (r: Option<ClientRequest>)
    ensures
        r == request_of(msg_type@),
{
    if str_eq(msg_type, "get_state") {
        Some(ClientRequest::GetState)
    } else if str_eq(msg_type, "set_patch_param") {
        Some(ClientRequest::SetPatchParam)
    } else if str_eq(msg_type, "set_note_volume") {
        Some(ClientRequest::SetNoteVolume)
    } else if str_eq(msg_type, "set_note_offset") {
        Some(ClientRequest::SetNoteOffset)
    } else if str_eq(msg_type, "set_note_transition") {
        Some(ClientRequest::SetNoteTransition)
    } else if str_eq(msg_type, "add_note") {
        Some(ClientRequest::AddNote)
    } else if str_eq(msg_type, "remove_note") {
        Some(ClientRequest::RemoveNote)
    } else if str_eq(msg_type, "set_tiers") {
        Some(ClientRequest::SetTiers)
    } else if str_eq(msg_type, "override_heartbeat") {
        Some(ClientRequest::OverrideHeartbeat)
    } else if str_eq(msg_type, "clear_override") {
        Some(ClientRequest::ClearOverride)
    } else if str_eq(msg_type, "trigger_heartbeat") {
        Some(ClientRequest::TriggerHeartbeat)
    } else if str_eq(msg_type, "set_patch_param_and_play") {
        Some(ClientRequest::SetPatchParamAndPlay)
    } else if str_eq(msg_type, "set_muted") {
        Some(ClientRequest::SetMuted)
    } else if str_eq(msg_type, "set_master_volume") {
        Some(ClientRequest::SetMasterVolume)
    } else if str_eq(msg_type, "set_cycle_offset") {
        Some(ClientRequest::SetCycleOffset)
    } else if str_eq(msg_type, "set_crossfade_ms") {
        Some(ClientRequest::SetCrossfadeMs)
    } else if str_eq(msg_type, "set_poll_interval") {
        Some(ClientRequest::SetPollInterval)
    } else if str_eq(msg_type, "set_cycle_secs") {
        Some(ClientRequest::SetCycleSecs)
    } else if str_eq(msg_type, "set_phrase_gap") {
        Some(ClientRequest::SetPhraseGap)
    } else if str_eq(msg_type, "set_repeat_rate") {
        Some(ClientRequest::SetRepeatRate)
    } else if str_eq(msg_type, "set_heartbeat_name") {
        Some(ClientRequest::SetHeartbeatName)
    } else if str_eq(msg_type, "set_heartbeat_command") {
        Some(ClientRequest::SetHeartbeatCommand)
    } else if str_eq(msg_type, "set_result_mode") {
        Some(ClientRequest::SetResultMode)
    } else if str_eq(msg_type, "set_playback") {
        Some(ClientRequest::SetPlayback)
    } else if str_eq(msg_type, "revert_all") {
        Some(ClientRequest::RevertAll)
    } else if str_eq(msg_type, "export_config") {
        Some(ClientRequest::ExportConfig)
    } else if str_eq(msg_type, "import_config") {
        Some(ClientRequest::ImportConfig)
    } else if str_eq(msg_type, "create_patch") {
        Some(ClientRequest::CreatePatch)
    } else if str_eq(msg_type, "create_override") {
        Some(ClientRequest::CreateOverride)
    } else if str_eq(msg_type, "rename_patch") {
        Some(ClientRequest::RenamePatch)
    } else if str_eq(msg_type, "reset_override_param") {
        Some(ClientRequest::ResetOverrideParam)
    } else if str_eq(msg_type, "save_config") {
        Some(ClientRequest::SaveConfig)
    } else if str_eq(msg_type, "create_heartbeat") {
        Some(ClientRequest::CreateHeartbeat)
    } else {
        None
    }
}

/// The text format of an exported configuration.
#[derive(Debug, Clone, Copy, PartialEq, Eq, Structural)]
pub enum ExportFormat {
    Toml,
    Json,
    Nix,
}

/// The format an export request asks for: `json` and `nix` by name,
/// TOML for any other name or none.
pub open spec fn export_format_of(format: Option<Seq<char>>) -> ExportFormat {
    match format {
        Some(f) => {
            if f == "json"@ {
                ExportFormat::Json
            } else if f == "nix"@ {
                ExportFormat::Nix
            } else {
                ExportFormat::Toml
            }
        },
        None => ExportFormat::Toml,
    }
}

/// Pick the export format from the request's optional `format` field.
pub fn export_format(format: Option<&str>) -> (r: ExportFormat)
    ensures
        r == export_format_of(
            match format {
                Some(f) => Some(f@),
                None => None,
            },
        ),
{
    match format {
        Some(f) => {
            if str_eq(f, "json") {
                ExportFormat::Json
            } else if str_eq(f, "nix") {
                ExportFormat::Nix
            } else {
                ExportFormat::Toml
            }
        },
        None => ExportFormat::Toml,
    }
}

/// Whether a character is white space in Unicode's sense (the
/// White_Space property, as `char::is_whitespace` decides): tab through
/// carriage return, space, next line, no-break space, ogham space mark,
/// en quad through hair space, line and paragraph separators, narrow
/// no-break space, medium mathematical space and ideographic space.
pub open spec fn is_white_space(c: char) -> bool {
    let u = c as u32;
    ||| 0x09 <= u <= 0x0D
    ||| u == 0x20
    ||| u == 0x85
    ||| u == 0xA0
    ||| u == 0x1680
    ||| 0x2000 <= u <= 0x200A
    ||| u == 0x2028
    ||| u == 0x2029
    ||| u == 0x202F
    ||| u == 0x205F
    ||| u == 0x3000
}

/// Whether `c` is white space (see `is_white_space`).
fn white_space(c: char) -> (r: bool)
    ensures
        r == is_white_space(c),
{
    let u = c as u32;
    (0x09 <= u && u <= 0x0D) || u == 0x20 || u == 0x85 || u == 0xA0 || u == 0x1680 || (0x2000 <= u && u
        <= 0x200A) || u == 0x2028 || u == 0x2029 || u == 0x202F || u == 0x205F || u == 0x3000
}

/// The text format of imported patches.
#[derive(Debug, Clone, Copy, PartialEq, Eq, Structural)]
pub enum ImportFormat {
    Json,
    Toml,
}

/// Whether position `i` holds the first character of `text` that is
/// not white space.
pub open spec fn is_first_non_space(text: Seq<char>, i: int) -> bool {
    &&& 0 <= i < text.len()
    &&& !is_white_space(text[i])
    &&& forall|j: int| 0 <= j < i ==> is_white_space(#[trigger] text[j])
}

/// Imported text is JSON when its first character other than white
/// space is `{`, and TOML otherwise.
pub open spec fn import_format_of(text: Seq<char>) -> ImportFormat {
    if exists|i: int| is_first_non_space(text, i) && text[i] == '{' {
        ImportFormat::Json
    } else {
        ImportFormat::Toml
    }
}

/// Detect the format of imported patch text.
pub fn import_format(text: &str) -> (r: ImportFormat)
    ensures
        r == import_format_of(text@),
{
    let v = chars_of(text);
    let mut i: usize = 0;
    while i < v.len()
        invariant
            v@ == text@,
            i <= v@.len(),
            forall|j: int| 0 <= j < i ==> is_white_space(#[trigger] v@[j]),
        decreases v@.len() - i,
    {
        let c = v[i];
        if !white_space(c) {
            proof {
                assert(is_first_non_space(text@, i as int));
                assert forall|k: int| #[trigger] is_first_non_space(text@, k) implies k == i by {
                    if k < i {
                        assert(is_white_space(v@[k]));
                    } else if k > i {
                        assert(is_white_space(text@[i as int]));
                    }
                }
            }
            if c == '{' {
                return ImportFormat::Json;
            } else {
                return ImportFormat::Toml;
            }
        }
        i = i + 1;
    }
    proof {
        assert forall|k: int| !is_first_non_space(text@, k) by {
            if 0 <= k < text@.len() {
                assert(is_white_space(v@[k]));
            }
        }
    }
    ImportFormat::Toml
}

} // verus!
