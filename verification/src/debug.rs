//! How validation layer messages are reported.
//!
//! Severities and message types arrive as the raw flag values the Vulkan
//! API defines for `VkDebugUtilsMessageSeverityFlagBitsEXT` and
//! `VkDebugUtilsMessageTypeFlagBitsEXT`.

use vstd::prelude::*;
use crate::text::{chars_of, find, find_chars};

verus! {

pub const SEVERITY_VERBOSE: u32 = 0x1;
pub const SEVERITY_INFO: u32 = 0x10;
pub const SEVERITY_WARNING: u32 = 0x100;
pub const SEVERITY_ERROR: u32 = 0x1000;

pub const TYPE_GENERAL: u32 = 0x1;
pub const TYPE_VALIDATION: u32 = 0x2;
pub const TYPE_PERFORMANCE: u32 = 0x4;
pub const TYPE_DEVICE_ADDRESS_BINDING: u32 = 0x8;

/// The severities the messenger listens to: warnings and errors.
pub const MESSENGER_SEVERITIES: u32 = 0x1100;

/// The message types the messenger listens to: general, validation and
/// performance.
pub const MESSENGER_TYPES: u32 = 0x7;

/// The level a message is logged at.
#[derive(Clone, Copy, Debug, PartialEq, Eq, Structural)]
pub enum LogLevel {
    Debug,
    Info,
    Warning,
    Error,
}

/// The log level for a message of `severity`: verbose messages are debug
/// output, info is info, warnings are warnings, and anything else is an
/// error.
pub fn message_level(severity: u32) -> (r: LogLevel)
    ensures
        r == (if severity == SEVERITY_VERBOSE {
            LogLevel::Debug
        } else if severity == SEVERITY_INFO {
            LogLevel::Info
        } else if severity == SEVERITY_WARNING {
            LogLevel::Warning
        } else {
            LogLevel::Error
        }),
{
    if severity == SEVERITY_VERBOSE {
        LogLevel::Debug
    } else if severity == SEVERITY_INFO {
        LogLevel::Info
    } else if severity == SEVERITY_WARNING {
        LogLevel::Warning
    } else {
        LogLevel::Error
    }
}

/// The log source for a message of `message_type`.
pub fn message_source(message_type: u32) -> (r: &'static str)
    ensures
        r@ == (if message_type == TYPE_GENERAL {
            "vulkan::general"@
        } else if message_type == TYPE_PERFORMANCE {
            "vulkan::performance"@
        } else if message_type == TYPE_VALIDATION {
            "vulkan::validation"@
        } else if message_type == TYPE_DEVICE_ADDRESS_BINDING {
            "vulkan::DAB"@
        } else {
            "vulkan::unknown"@
        }),
{
    if message_type == TYPE_GENERAL {
        "vulkan::general"
    } else if message_type == TYPE_PERFORMANCE {
        "vulkan::performance"
    } else if message_type == TYPE_VALIDATION {
        "vulkan::validation"
    } else if message_type == TYPE_DEVICE_ADDRESS_BINDING {
        "vulkan::DAB"
    } else {
        "vulkan::unknown"
    }
}

/// The coloured label of a message's severity.
pub fn severity_label(severity: u32) -> (r: &'static str)
    ensures
        r@ == (if severity == SEVERITY_VERBOSE {
            "\x1b[36;1m[Verbose]"@
        } else if severity == SEVERITY_INFO {
            "\x1b[36;1m[Info]"@
        } else if severity == SEVERITY_WARNING {
            "\x1b[33;1m[Warning]"@
        } else if severity == SEVERITY_ERROR {
            "\x1b[31;1m[Error]"@
        } else {
            "\x1b[35;1m[Unknown]"@
        }),
{
    if severity == SEVERITY_VERBOSE {
        "\x1b[36;1m[Verbose]"
    } else if severity == SEVERITY_INFO {
        "\x1b[36;1m[Info]"
    } else if severity == SEVERITY_WARNING {
        "\x1b[33;1m[Warning]"
    } else if severity == SEVERITY_ERROR {
        "\x1b[31;1m[Error]"
    } else {
        "\x1b[35;1m[Unknown]"
    }
}

/// The coloured label of a message's type.
pub fn type_label(message_type: u32) -> (r: &'static str)
    ensures
        r@ == (if message_type == TYPE_GENERAL {
            "\x1b[36;1m[General]"@
        } else if message_type == TYPE_PERFORMANCE {
            "\x1b[33;1m[Performance]"@
        } else if message_type == TYPE_VALIDATION {
            "\x1b[31;1m[Validation]"@
        } else {
            "\x1b[35;1m[Unknown]"@
        }),
{
    if message_type == TYPE_GENERAL {
        "\x1b[36;1m[General]"
    } else if message_type == TYPE_PERFORMANCE {
        "\x1b[33;1m[Performance]"
    } else if message_type == TYPE_VALIDATION {
        "\x1b[31;1m[Validation]"
    } else {
        "\x1b[35;1m[Unknown]"
    }
}

/// The marker put in front of the part of a message that quotes the
/// Vulkan specification.
pub open spec fn spec_marker() -> Seq<char> {
    "\n\x1b[35;1m->\x1b[0m "@
}

/// `msg` with the marker put in front of its first
/// `The Vulkan spec states:`, or `msg` itself when it has none.
pub open spec fn spec_mark_spec_statement(msg: Seq<char>) -> Seq<char> {
    match find(msg, "The Vulkan spec states:"@) {
        None => msg,
        Some(i) => msg.take(i) + spec_marker() + msg.skip(i),
    }
}

/// Puts a marker in front of the first `The Vulkan spec states:` of a
/// validation message.
pub fn mark_spec_statement(msg: &str) -> (r: String)
    ensures
        r@ == spec_mark_spec_statement(msg@),
{
    let chars = chars_of(msg);
    let needle = chars_of("The Vulkan spec states:");
    match find_chars(chars.as_slice(), needle.as_slice()) {
        None => msg.to_owned(),
        Some(i) => {
            proof {
                crate::shader_input::lemma_find_bounds(msg@, "The Vulkan spec states:"@, 0);
            }
            let n = msg.unicode_len();
            let mut r = String::from_str(msg.substring_char(0, i));
            r.append("\n\x1b[35;1m->\x1b[0m ");
            r.append(msg.substring_char(i, n));
            r
        },
    }
}

} // verus!
