//! The memory of the device, read from the report of the vendor's tool.
//!
//! The tool writes a JSON object with one member for each card; the card's
//! object holds the device's memory and the memory in use, in bytes, as
//! text. Whatever goes wrong, the memory is reported as zero, so that the
//! scheduler takes nothing for free that may not be.

use crate::text::{chars_of, parse_unsigned, parse_unsigned_range};
use vstd::prelude::*;

verus! {

/// The member that holds the device's memory in bytes.
pub const TOTAL_KEY: &'static str = "VRAM Total Memory (B)";

/// The member that holds the memory in use in bytes.
pub const USED_KEY: &'static str = "VRAM Total Used Memory (B)";

/// The bytes in a megabyte.
pub const MEGABYTE: u64 = 1_000_000;

/// The memory of the device in megabytes.
#[derive(Debug, Clone, Copy, PartialEq, Eq)]
pub struct Memory {
    pub total_mb: u64,
    pub used_mb: u64,
}

impl Default for Memory {
    fn default() -> (r: Memory)
        ensures
            r == (Memory { total_mb: 0, used_mb: 0 }),
    {
        Memory { total_mb: 0, used_mb: 0 }
    }
}

/// Reads the device's memory from the tool's report.
#[derive(Debug, Clone, Copy, PartialEq, Eq)]
pub struct VramRepository;

/// The text under `key` in the first member of the JSON object that
/// `report` writes: nothing where the report is not JSON, is no object or
/// an empty one, or where that member holds no text under `key`.
pub uninterp spec fn first_card_text(report: Seq<char>, key: Seq<char>) -> Option<Seq<char>>;

/// `serde_json::from_str` reads `report` as a JSON value;
/// `Value::as_object` and the map's `values` give its first member,
/// `Value::get` that member's entry under `key`, and `Value::as_str` the
/// entry's text. Each depends on its arguments alone.
#[verifier::external_body]
fn card_text(report: &str, key: &str) -> (r: Option<String>)
    ensures
        r is Some <==> first_card_text(report@, key@) is Some,
        r matches Some(text) ==> first_card_text(report@, key@) == Some(text@),
{
    let value: serde_json::Value = serde_json::from_str(report).ok()?;
    let card = value.as_object()?.values().next()?;
    Some(card.get(key)?.as_str()?.to_string())
}

/// The number of bytes that a field of the report writes: zero where the
/// field is missing or is not a decimal number.
pub open spec fn bytes_of_field(field: Option<Seq<char>>) -> u64 {
    match field {
        Some(text) => match parse_unsigned(text, u64::MAX as nat) {
            Some(bytes) => bytes as u64,
            None => 0,
        },
        None => 0,
    }
}

/// Bytes in megabytes, rounded up.
pub open spec fn megabytes_up(bytes: u64) -> u64 {
    if bytes % MEGABYTE == 0 {
        bytes / MEGABYTE
    } else {
        (bytes / MEGABYTE + 1) as u64
    }
}

/// The memory that the two fields of a report write.
pub open spec fn memory_of(total: Option<Seq<char>>, used: Option<Seq<char>>) -> Memory {
    Memory {
        total_mb: megabytes_up(bytes_of_field(total)),
        used_mb: megabytes_up(bytes_of_field(used)),
    }
}

/// The free memory in megabytes that the two fields of a report write:
/// what is left of the device's memory, rounded down.
pub open spec fn available_of(total: Option<Seq<char>>, used: Option<Seq<char>>) -> u64 {
    let total_bytes = bytes_of_field(total);
    let used_bytes = bytes_of_field(used);
    if used_bytes >= total_bytes {
        0
    } else {
        ((total_bytes - used_bytes) / MEGABYTE as int) as u64
    }
}

/// The fields of a report: none where there is no report.
pub open spec fn field_of(report: Option<Seq<char>>, key: Seq<char>) -> Option<Seq<char>> {
    match report {
        Some(text) => first_card_text(text, key),
        None => None,
    }
}

/// The view of an optional text.
pub open spec fn opt_view(text: Option<&str>) -> Option<Seq<char>> {
    match text {
        Some(t) => Some(t@),
        None => None,
    }
}

/// Reads a field of the report as a number of bytes.
pub fn field_bytes(field: Option<&str>) -> (bytes: u64)
    ensures
        bytes == bytes_of_field(opt_view(field)),
{
    match field {
        Some(text) => {
            let chars = chars_of(text);
            assert(chars@.subrange(0, chars@.len() as int) == chars@);
            match parse_unsigned_range(chars.as_slice(), 0, chars.len(), u64::MAX) {
                Some(bytes) => bytes,
                None => 0,
            }
        },
        None => 0,
    }
}

fn to_megabytes_up(bytes: u64) -> (mb: u64)
    ensures
        mb == megabytes_up(bytes),
{
    if bytes % MEGABYTE == 0 {
        bytes / MEGABYTE
    } else {
        bytes / MEGABYTE + 1
    }
}

/// Reads the device's memory from the two fields of a report.
pub fn memory_of_fields(total: Option<&str>, used: Option<&str>) -> (memory: Memory)
    ensures
        memory == memory_of(opt_view(total), opt_view(used)),
{
    Memory {
        total_mb: to_megabytes_up(field_bytes(total)),
        used_mb: to_megabytes_up(field_bytes(used)),
    }
}

/// Reads the free memory from the two fields of a report.
pub fn available_of_fields(total: Option<&str>, used: Option<&str>) -> (free: u64)
    ensures
        free == available_of(opt_view(total), opt_view(used)),
{
    let total_bytes = field_bytes(total);
    let used_bytes = field_bytes(used);
    if used_bytes >= total_bytes {
        0
    } else {
        (total_bytes - used_bytes) / MEGABYTE
    }
}

/// Looks a field up in a report.
fn report_field(report: Option<&str>, key: &str) -> (field: Option<String>)
    ensures
        match field {
            Some(text) => field_of(opt_view(report), key@) == Some(text@),
            None => field_of(opt_view(report), key@) is None,
        },
{
    match report {
        Some(text) => card_text(text, key),
        None => None,
    }
}

/// Reads the free memory in megabytes from the tool's report: what is left
/// of the device's memory, rounded down. `None` stands for a tool that did
/// not run or failed.
pub fn get_available_memory(report: Option<&str>) -> (free: u64)
    ensures
        free == available_of(
            field_of(opt_view(report), TOTAL_KEY@),
            field_of(opt_view(report), USED_KEY@),
        ),
{
    let total = report_field(report, TOTAL_KEY);
    let used = report_field(report, USED_KEY);
    available_of_fields(
        match &total {
            Some(text) => Some(text.as_str()),
            None => None,
        },
        match &used {
            Some(text) => Some(text.as_str()),
            None => None,
        },
    )
}

impl VramRepository {
    pub fn new() -> (r: VramRepository) {
        VramRepository
    }

    /// Reads the device's memory from the tool's report. `None` stands for
    /// a tool that did not run or failed.
    pub fn get_memory(&self, report: Option<&str>) -> (memory: Memory)
        ensures
            memory == memory_of(
                field_of(opt_view(report), TOTAL_KEY@),
                field_of(opt_view(report), USED_KEY@),
            ),
    {
        let total = report_field(report, TOTAL_KEY);
        let used = report_field(report, USED_KEY);
        memory_of_fields(
            match &total {
                Some(text) => Some(text.as_str()),
                None => None,
            },
            match &used {
                Some(text) => Some(text.as_str()),
                None => None,
            },
        )
    }

    /// The device's memory in megabytes.
    pub fn get_total_memory(&self, report: Option<&str>) -> (mb: u64)
        ensures
            mb == memory_of(
                field_of(opt_view(report), TOTAL_KEY@),
                field_of(opt_view(report), USED_KEY@),
            ).total_mb,
    {
        self.get_memory(report).total_mb
    }

    /// The memory in use in megabytes.
    pub fn get_used_memory(&self, report: Option<&str>) -> (mb: u64)
        ensures
            mb == memory_of(
                field_of(opt_view(report), TOTAL_KEY@),
                field_of(opt_view(report), USED_KEY@),
            ).used_mb,
    {
        self.get_memory(report).used_mb
    }

    /// The free memory in megabytes: what the device has beyond what is in
    /// use, and nothing where more is in use than the device has.
    pub fn get_free_memory(&self, report: Option<&str>) -> (mb: u64)
        ensures
            mb == free_of(
                memory_of(
                    field_of(opt_view(report), TOTAL_KEY@),
                    field_of(opt_view(report), USED_KEY@),
                ),
            ),
    {
        let memory = self.get_memory(report);
        if memory.used_mb >= memory.total_mb {
            0
        } else {
            memory.total_mb - memory.used_mb
        }
    }
}

/// The free memory of a device.
pub open spec fn free_of(memory: Memory) -> u64 {
    if memory.used_mb >= memory.total_mb {
        0
    } else {
        (memory.total_mb - memory.used_mb) as u64
    }
}

} // verus!
