//! The host player's client API as plain values: its event kinds, data
//! formats and error codes, with their numeric codes, and the reading of a
//! host event as a session event.

use vstd::prelude::*;
use crate::session::Event;

verus! {

/// An opaque client handle of the host player; only ever held by address.
#[allow(non_camel_case_types)]
pub struct mpv_handle {
    _unused: (),
}

/// Error codes of the host player's client API.
#[allow(non_camel_case_types)]
#[derive(Clone, Copy, Debug, PartialEq, Eq, Structural)]
pub enum mpv_error {
    MPV_ERROR_SUCCESS,
    MPV_ERROR_EVENT_QUEUE_FULL,
    MPV_ERROR_NOMEM,
    MPV_ERROR_UNINITIALIZED,
    MPV_ERROR_INVALID_PARAMETER,
    MPV_ERROR_OPTION_NOT_FOUND,
    MPV_ERROR_OPTION_FORMAT,
    MPV_ERROR_OPTION_ERROR,
    MPV_ERROR_PROPERTY_NOT_FOUND,
    MPV_ERROR_PROPERTY_FORMAT,
    MPV_ERROR_PROPERTY_UNAVAILABLE,
    MPV_ERROR_PROPERTY_ERROR,
    MPV_ERROR_COMMAND,
    MPV_ERROR_LOADING_FAILED,
    MPV_ERROR_AO_INIT_FAILED,
    MPV_ERROR_VO_INIT_FAILED,
    MPV_ERROR_NOTHING_TO_PLAY,
    MPV_ERROR_UNKNOWN_FORMAT,
    MPV_ERROR_UNSUPPORTED,
    MPV_ERROR_NOT_IMPLEMENTED,
    MPV_ERROR_GENERIC,
}

/// The host's numeric code of each `mpv_error`.
pub open spec fn error_code(v: mpv_error) -> int {
    match v {
        mpv_error::MPV_ERROR_SUCCESS => 0,
        mpv_error::MPV_ERROR_EVENT_QUEUE_FULL => -1,
        mpv_error::MPV_ERROR_NOMEM => -2,
        mpv_error::MPV_ERROR_UNINITIALIZED => -3,
        mpv_error::MPV_ERROR_INVALID_PARAMETER => -4,
        mpv_error::MPV_ERROR_OPTION_NOT_FOUND => -5,
        mpv_error::MPV_ERROR_OPTION_FORMAT => -6,
        mpv_error::MPV_ERROR_OPTION_ERROR => -7,
        mpv_error::MPV_ERROR_PROPERTY_NOT_FOUND => -8,
        mpv_error::MPV_ERROR_PROPERTY_FORMAT => -9,
        mpv_error::MPV_ERROR_PROPERTY_UNAVAILABLE => -10,
        mpv_error::MPV_ERROR_PROPERTY_ERROR => -11,
        mpv_error::MPV_ERROR_COMMAND => -12,
        mpv_error::MPV_ERROR_LOADING_FAILED => -13,
        mpv_error::MPV_ERROR_AO_INIT_FAILED => -14,
        mpv_error::MPV_ERROR_VO_INIT_FAILED => -15,
        mpv_error::MPV_ERROR_NOTHING_TO_PLAY => -16,
        mpv_error::MPV_ERROR_UNKNOWN_FORMAT => -17,
        mpv_error::MPV_ERROR_UNSUPPORTED => -18,
        mpv_error::MPV_ERROR_NOT_IMPLEMENTED => -19,
        mpv_error::MPV_ERROR_GENERIC => -20,
    }
}

pub open spec fn error_code_known(c: int) -> bool {
    c == 0 || c == -1 || c == -2 || c == -3 || c == -4 || c == -5 || c == -6 || c == -7 || c == -8 || c == -9 || c == -10 || c == -11 || c == -12 || c == -13 || c == -14 || c == -15 || c == -16 || c == -17 || c == -18 || c == -19 || c == -20
}

impl mpv_error {
    /// The host's numeric code.
    pub fn code(&self) -> (r: i32)
        ensures
            r as int == error_code(*self),
    {
        match self {
            mpv_error::MPV_ERROR_SUCCESS => 0,
            mpv_error::MPV_ERROR_EVENT_QUEUE_FULL => -1,
            mpv_error::MPV_ERROR_NOMEM => -2,
            mpv_error::MPV_ERROR_UNINITIALIZED => -3,
            mpv_error::MPV_ERROR_INVALID_PARAMETER => -4,
            mpv_error::MPV_ERROR_OPTION_NOT_FOUND => -5,
            mpv_error::MPV_ERROR_OPTION_FORMAT => -6,
            mpv_error::MPV_ERROR_OPTION_ERROR => -7,
            mpv_error::MPV_ERROR_PROPERTY_NOT_FOUND => -8,
            mpv_error::MPV_ERROR_PROPERTY_FORMAT => -9,
            mpv_error::MPV_ERROR_PROPERTY_UNAVAILABLE => -10,
            mpv_error::MPV_ERROR_PROPERTY_ERROR => -11,
            mpv_error::MPV_ERROR_COMMAND => -12,
            mpv_error::MPV_ERROR_LOADING_FAILED => -13,
            mpv_error::MPV_ERROR_AO_INIT_FAILED => -14,
            mpv_error::MPV_ERROR_VO_INIT_FAILED => -15,
            mpv_error::MPV_ERROR_NOTHING_TO_PLAY => -16,
            mpv_error::MPV_ERROR_UNKNOWN_FORMAT => -17,
            mpv_error::MPV_ERROR_UNSUPPORTED => -18,
            mpv_error::MPV_ERROR_NOT_IMPLEMENTED => -19,
            mpv_error::MPV_ERROR_GENERIC => -20,
        }
    }

    /// The value with host code `c`, if there is one.
    pub fn from_code(c: i32) -> (r: Option<mpv_error>)
        ensures
            r is Some <==> error_code_known(c as int),
            r is Some ==> error_code(r.unwrap()) == c as int,
    {
        match c {
            0 => Some(mpv_error::MPV_ERROR_SUCCESS),
            -1 => Some(mpv_error::MPV_ERROR_EVENT_QUEUE_FULL),
            -2 => Some(mpv_error::MPV_ERROR_NOMEM),
            -3 => Some(mpv_error::MPV_ERROR_UNINITIALIZED),
            -4 => Some(mpv_error::MPV_ERROR_INVALID_PARAMETER),
            -5 => Some(mpv_error::MPV_ERROR_OPTION_NOT_FOUND),
            -6 => Some(mpv_error::MPV_ERROR_OPTION_FORMAT),
            -7 => Some(mpv_error::MPV_ERROR_OPTION_ERROR),
            -8 => Some(mpv_error::MPV_ERROR_PROPERTY_NOT_FOUND),
            -9 => Some(mpv_error::MPV_ERROR_PROPERTY_FORMAT),
            -10 => Some(mpv_error::MPV_ERROR_PROPERTY_UNAVAILABLE),
            -11 => Some(mpv_error::MPV_ERROR_PROPERTY_ERROR),
            -12 => Some(mpv_error::MPV_ERROR_COMMAND),
            -13 => Some(mpv_error::MPV_ERROR_LOADING_FAILED),
            -14 => Some(mpv_error::MPV_ERROR_AO_INIT_FAILED),
            -15 => Some(mpv_error::MPV_ERROR_VO_INIT_FAILED),
            -16 => Some(mpv_error::MPV_ERROR_NOTHING_TO_PLAY),
            -17 => Some(mpv_error::MPV_ERROR_UNKNOWN_FORMAT),
            -18 => Some(mpv_error::MPV_ERROR_UNSUPPORTED),
            -19 => Some(mpv_error::MPV_ERROR_NOT_IMPLEMENTED),
            -20 => Some(mpv_error::MPV_ERROR_GENERIC),
            _ => None,
        }
    }
}

/// Data formats of the host player's client API.
#[allow(non_camel_case_types)]
#[derive(Clone, Copy, Debug, PartialEq, Eq, Structural)]
pub enum mpv_format {
    MPV_FORMAT_NONE,
    MPV_FORMAT_STRING,
    MPV_FORMAT_OSD_STRING,
    MPV_FORMAT_FLAG,
    MPV_FORMAT_INT64,
    MPV_FORMAT_DOUBLE,
    MPV_FORMAT_NODE,
    MPV_FORMAT_NODE_ARRAY,
    MPV_FORMAT_NODE_MAP,
    MPV_FORMAT_BYTE_ARRAY,
}

/// The host's numeric code of each `mpv_format`.
pub open spec fn format_code(v: mpv_format) -> int {
    match v {
        mpv_format::MPV_FORMAT_NONE => 0,
        mpv_format::MPV_FORMAT_STRING => 1,
        mpv_format::MPV_FORMAT_OSD_STRING => 2,
        mpv_format::MPV_FORMAT_FLAG => 3,
        mpv_format::MPV_FORMAT_INT64 => 4,
        mpv_format::MPV_FORMAT_DOUBLE => 5,
        mpv_format::MPV_FORMAT_NODE => 6,
        mpv_format::MPV_FORMAT_NODE_ARRAY => 7,
        mpv_format::MPV_FORMAT_NODE_MAP => 8,
        mpv_format::MPV_FORMAT_BYTE_ARRAY => 9,
    }
}

pub open spec fn format_code_known(c: int) -> bool {
    c == 0 || c == 1 || c == 2 || c == 3 || c == 4 || c == 5 || c == 6 || c == 7 || c == 8 || c == 9
}

impl mpv_format {
    /// The host's numeric code.
    pub fn code(&self) -> (r: i32)
        ensures
            r as int == format_code(*self),
    {
        match self {
            mpv_format::MPV_FORMAT_NONE => 0,
            mpv_format::MPV_FORMAT_STRING => 1,
            mpv_format::MPV_FORMAT_OSD_STRING => 2,
            mpv_format::MPV_FORMAT_FLAG => 3,
            mpv_format::MPV_FORMAT_INT64 => 4,
            mpv_format::MPV_FORMAT_DOUBLE => 5,
            mpv_format::MPV_FORMAT_NODE => 6,
            mpv_format::MPV_FORMAT_NODE_ARRAY => 7,
            mpv_format::MPV_FORMAT_NODE_MAP => 8,
            mpv_format::MPV_FORMAT_BYTE_ARRAY => 9,
        }
    }

    /// The value with host code `c`, if there is one.
    pub fn from_code(c: i32) -> (r: Option<mpv_format>)
        ensures
            r is Some <==> format_code_known(c as int),
            r is Some ==> format_code(r.unwrap()) == c as int,
    {
        match c {
            0 => Some(mpv_format::MPV_FORMAT_NONE),
            1 => Some(mpv_format::MPV_FORMAT_STRING),
            2 => Some(mpv_format::MPV_FORMAT_OSD_STRING),
            3 => Some(mpv_format::MPV_FORMAT_FLAG),
            4 => Some(mpv_format::MPV_FORMAT_INT64),
            5 => Some(mpv_format::MPV_FORMAT_DOUBLE),
            6 => Some(mpv_format::MPV_FORMAT_NODE),
            7 => Some(mpv_format::MPV_FORMAT_NODE_ARRAY),
            8 => Some(mpv_format::MPV_FORMAT_NODE_MAP),
            9 => Some(mpv_format::MPV_FORMAT_BYTE_ARRAY),
            _ => None,
        }
    }
}

/// Event kinds of the host player's client API.
#[allow(non_camel_case_types)]
#[derive(Clone, Copy, Debug, PartialEq, Eq, Structural)]
pub enum mpv_event_id {
    MPV_EVENT_NONE,
    MPV_EVENT_SHUTDOWN,
    MPV_EVENT_LOG_MESSAGE,
    MPV_EVENT_GET_PROPERTY_REPLY,
    MPV_EVENT_SET_PROPERTY_REPLY,
    MPV_EVENT_COMMAND_REPLY,
    MPV_EVENT_START_FILE,
    MPV_EVENT_END_FILE,
    MPV_EVENT_FILE_LOADED,
    MPV_EVENT_IDLE,
    MPV_EVENT_TICK,
    MPV_EVENT_CLIENT_MESSAGE,
    MPV_EVENT_VIDEO_RECONFIG,
    MPV_EVENT_AUDIO_RECONFIG,
    MPV_EVENT_SEEK,
    MPV_EVENT_PLAYBACK_RESTART,
    MPV_EVENT_PROPERTY_CHANGE,
    MPV_EVENT_QUEUE_OVERFLOW,
    MPV_EVENT_HOOK,
}

/// The host's numeric code of each `mpv_event_id`.
pub open spec fn event_code(v: mpv_event_id) -> int {
    match v {
        mpv_event_id::MPV_EVENT_NONE => 0,
        mpv_event_id::MPV_EVENT_SHUTDOWN => 1,
        mpv_event_id::MPV_EVENT_LOG_MESSAGE => 2,
        mpv_event_id::MPV_EVENT_GET_PROPERTY_REPLY => 3,
        mpv_event_id::MPV_EVENT_SET_PROPERTY_REPLY => 4,
        mpv_event_id::MPV_EVENT_COMMAND_REPLY => 5,
        mpv_event_id::MPV_EVENT_START_FILE => 6,
        mpv_event_id::MPV_EVENT_END_FILE => 7,
        mpv_event_id::MPV_EVENT_FILE_LOADED => 8,
        mpv_event_id::MPV_EVENT_IDLE => 11,
        mpv_event_id::MPV_EVENT_TICK => 14,
        mpv_event_id::MPV_EVENT_CLIENT_MESSAGE => 16,
        mpv_event_id::MPV_EVENT_VIDEO_RECONFIG => 17,
        mpv_event_id::MPV_EVENT_AUDIO_RECONFIG => 18,
        mpv_event_id::MPV_EVENT_SEEK => 20,
        mpv_event_id::MPV_EVENT_PLAYBACK_RESTART => 21,
        mpv_event_id::MPV_EVENT_PROPERTY_CHANGE => 22,
        mpv_event_id::MPV_EVENT_QUEUE_OVERFLOW => 24,
        mpv_event_id::MPV_EVENT_HOOK => 25,
    }
}

pub open spec fn event_code_known(c: int) -> bool {
    c == 0 || c == 1 || c == 2 || c == 3 || c == 4 || c == 5 || c == 6 || c == 7 || c == 8 || c == 11 || c == 14 || c == 16 || c == 17 || c == 18 || c == 20 || c == 21 || c == 22 || c == 24 || c == 25
}

impl mpv_event_id {
    /// The host's numeric code.
    pub fn code(&self) -> (r: i32)
        ensures
            r as int == event_code(*self),
    {
        match self {
            mpv_event_id::MPV_EVENT_NONE => 0,
            mpv_event_id::MPV_EVENT_SHUTDOWN => 1,
            mpv_event_id::MPV_EVENT_LOG_MESSAGE => 2,
            mpv_event_id::MPV_EVENT_GET_PROPERTY_REPLY => 3,
            mpv_event_id::MPV_EVENT_SET_PROPERTY_REPLY => 4,
            mpv_event_id::MPV_EVENT_COMMAND_REPLY => 5,
            mpv_event_id::MPV_EVENT_START_FILE => 6,
            mpv_event_id::MPV_EVENT_END_FILE => 7,
            mpv_event_id::MPV_EVENT_FILE_LOADED => 8,
            mpv_event_id::MPV_EVENT_IDLE => 11,
            mpv_event_id::MPV_EVENT_TICK => 14,
            mpv_event_id::MPV_EVENT_CLIENT_MESSAGE => 16,
            mpv_event_id::MPV_EVENT_VIDEO_RECONFIG => 17,
            mpv_event_id::MPV_EVENT_AUDIO_RECONFIG => 18,
            mpv_event_id::MPV_EVENT_SEEK => 20,
            mpv_event_id::MPV_EVENT_PLAYBACK_RESTART => 21,
            mpv_event_id::MPV_EVENT_PROPERTY_CHANGE => 22,
            mpv_event_id::MPV_EVENT_QUEUE_OVERFLOW => 24,
            mpv_event_id::MPV_EVENT_HOOK => 25,
        }
    }

    /// The value with host code `c`, if there is one.
    pub fn from_code(c: i32) -> (r: Option<mpv_event_id>)
        ensures
            r is Some <==> event_code_known(c as int),
            r is Some ==> event_code(r.unwrap()) == c as int,
    {
        match c {
            0 => Some(mpv_event_id::MPV_EVENT_NONE),
            1 => Some(mpv_event_id::MPV_EVENT_SHUTDOWN),
            2 => Some(mpv_event_id::MPV_EVENT_LOG_MESSAGE),
            3 => Some(mpv_event_id::MPV_EVENT_GET_PROPERTY_REPLY),
            4 => Some(mpv_event_id::MPV_EVENT_SET_PROPERTY_REPLY),
            5 => Some(mpv_event_id::MPV_EVENT_COMMAND_REPLY),
            6 => Some(mpv_event_id::MPV_EVENT_START_FILE),
            7 => Some(mpv_event_id::MPV_EVENT_END_FILE),
            8 => Some(mpv_event_id::MPV_EVENT_FILE_LOADED),
            11 => Some(mpv_event_id::MPV_EVENT_IDLE),
            14 => Some(mpv_event_id::MPV_EVENT_TICK),
            16 => Some(mpv_event_id::MPV_EVENT_CLIENT_MESSAGE),
            17 => Some(mpv_event_id::MPV_EVENT_VIDEO_RECONFIG),
            18 => Some(mpv_event_id::MPV_EVENT_AUDIO_RECONFIG),
            20 => Some(mpv_event_id::MPV_EVENT_SEEK),
            21 => Some(mpv_event_id::MPV_EVENT_PLAYBACK_RESTART),
            22 => Some(mpv_event_id::MPV_EVENT_PROPERTY_CHANGE),
            24 => Some(mpv_event_id::MPV_EVENT_QUEUE_OVERFLOW),
            25 => Some(mpv_event_id::MPV_EVENT_HOOK),
            _ => None,
        }
    }
}

/// The session event that a host event stands for; `toggle` tells whether a
/// client message asks to switch comments on or off.
pub open spec fn event_of(id: mpv_event_id, toggle: bool) -> Event {
    match id {
        mpv_event_id::MPV_EVENT_SHUTDOWN => Event::Shutdown,
        mpv_event_id::MPV_EVENT_FILE_LOADED => Event::FileLoaded,
        mpv_event_id::MPV_EVENT_SEEK => Event::Seek,
        mpv_event_id::MPV_EVENT_CLIENT_MESSAGE => if toggle {
            Event::Toggle
        } else {
            Event::ForeignMessage
        },
        _ => Event::Other,
    }
}

/// Reads a host event as a session event.
pub fn to_event(id: mpv_event_id, toggle: bool) -> (e: Event)
    ensures
        e == event_of(id, toggle),
{
    match id {
        mpv_event_id::MPV_EVENT_SHUTDOWN => Event::Shutdown,
        mpv_event_id::MPV_EVENT_FILE_LOADED => Event::FileLoaded,
        mpv_event_id::MPV_EVENT_SEEK => Event::Seek,
        mpv_event_id::MPV_EVENT_CLIENT_MESSAGE => if toggle {
            Event::Toggle
        } else {
            Event::ForeignMessage
        },
        _ => Event::Other,
    }
}

} // verus!
