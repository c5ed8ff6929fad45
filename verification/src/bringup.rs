//! Opt-in startup diagnostics, readable over SSH after a failed PnP start.
//! The test installer creates Services\VirtioGpu\Parameters\Bringup first.
//!
//! Each function decides what is written; the caller performs the write. With
//! diagnostics disabled nothing is counted and nothing is written.

use crate::text::{append_decimal, encode_utf16};
use vstd::prelude::*;

pub mod runtime;

verus! {

/// IRQL at which registry routines may be called.
pub const PASSIVE_LEVEL: u8 = 0;

/// Number of events that are recorded; later ones are only counted.
pub const EVENT_LIMIT: u32 = 256;

/// One value for the diagnostics key: a name and a number.
#[derive(Debug)]
pub struct Record {
    pub name: String,
    pub value: u32,
}

impl View for Record {
    type V = (Seq<char>, u32);

    open spec fn view(&self) -> (Seq<char>, u32) {
        (self.name@, self.value)
    }
}

/// A `REG_DWORD` write: counted UTF-16 strings for the key and the value name,
/// with the byte counts that go into their 16-bit length fields.
#[derive(Debug)]
pub struct RegistryWrite {
    pub key: Vec<u16>,
    pub key_bytes: u16,
    pub name: Vec<u16>,
    pub name_bytes: u16,
    pub value: u32,
}

/// The diagnostics key.
pub open spec fn bringup_key() -> Seq<char> {
    "\\Registry\\Machine\\System\\CurrentControlSet\\Services\\VirtioGpu\\Parameters\\Bringup"@
}

/// The byte count of `units` code units, as far as 16 bits hold it.
pub open spec fn counted_bytes(units: nat) -> u16 {
    ((2 * units) % 0x1_0000) as u16
}

/// Whether a registry write may be made now.
pub open spec fn may_write(enabled: bool, irql: u8) -> bool {
    enabled && irql == PASSIVE_LEVEL
}

fn byte_count(units: usize) -> (bytes: u16)
    ensures
        bytes == counted_bytes(units as nat),
{
    assert((2 * units) % 0x1_0000 == 2 * (units as int % 0x8000));
    ((units % 0x8000) * 2) as u16
}

/// The write that records `value` under `name`, if one may be made.
///
/// Registry APIs require PASSIVE_LEVEL. Callback behavior is never changed just
/// to emit a diagnostic.
pub fn record(enabled: bool, irql: u8, name: &str, value: u32) -> (write: Option<RegistryWrite>)
    ensures
        write is Some <==> may_write(enabled, irql),
        write is Some <==> enabled && irql == 0,
        write matches Some(w) ==> {
            &&& w.key@ == crate::text::utf16(bringup_key())
            &&& w.key_bytes == counted_bytes(w.key@.len())
            &&& w.name@ == crate::text::utf16(name@)
            &&& w.name_bytes == counted_bytes(w.name@.len())
            &&& w.value == value
            &&& w.key_bytes as int == (2 * w.key@.len()) % 0x1_0000
            &&& w.name_bytes as int == (2 * w.name@.len()) % 0x1_0000
        },
{
    if !enabled || irql != PASSIVE_LEVEL {
        return None;
    }
    let key: Vec<u16> = encode_utf16(
        "\\Registry\\Machine\\System\\CurrentControlSet\\Services\\VirtioGpu\\Parameters\\Bringup",
    );
    let key_bytes: u16 = byte_count(key.len());
    let name: Vec<u16> = encode_utf16(name);
    let name_bytes: u16 = byte_count(name.len());
    Some(RegistryWrite { key, key_bytes, name, name_bytes, value })
}

/// Whether the diagnostics key was opened, so that the value is set and the
/// handle closed; an NTSTATUS below zero is an error.
pub fn key_opened(status: i32) -> (opened: bool)
    ensures
        opened == (status >= 0),
{
    status >= 0
}

/// Publish a running total instead of a flag. `record` overwrites, so a repeated
/// call site cannot be told apart from a single one; the allocation paths need
/// the distinction to attribute a failure to this driver or to dxgkrnl.
pub fn count(enabled: bool, name: &str, counter: &mut u32) -> (total: Option<Record>)
    requires
        enabled ==> *old(counter) < u32::MAX,
    ensures
        total is Some <==> enabled,
        *final(counter) == (if enabled { *old(counter) + 1 } else { *old(counter) as int }),
        total matches Some(r) ==> r@ == (name@, *final(counter)),
        total matches Some(r) ==> r.name@ == name@ && r.value == *old(counter) + 1,
{
    if !enabled {
        return None;
    }
    *counter = *counter + 1;
    Some(Record { name: name.to_owned(), value: *counter })
}

/// The name under which the event with the given number is recorded.
pub open spec fn event_name(sequence: u32, name: Seq<char>) -> Seq<char> {
    "Event"@ + crate::text::decimal(sequence as nat, 3) + "_"@ + name
}

/// Preserve callback order without unbounded registry growth. Callbacks above
/// PASSIVE_LEVEL are deliberately skipped and take no number, like `record`
/// skips them.
pub fn event(
    enabled: bool,
    irql: u8,
    sequence: &mut u32,
    name: &str,
    value: u32,
) -> (recorded: Option<Record>)
    ensures
        *final(sequence) == (if may_write(enabled, irql) {
            (*old(sequence) + 1) % 0x1_0000_0000
        } else {
            *old(sequence) as int
        }),
        recorded is Some <==> may_write(enabled, irql) && *old(sequence) < EVENT_LIMIT,
        recorded matches Some(r) ==> r@ == (event_name(*old(sequence), name@), value),
        recorded is Some <==> enabled && irql == 0 && *old(sequence) < 256,
        enabled && irql == 0 ==> *final(sequence) == (*old(sequence) + 1) % 0x1_0000_0000,
        !enabled || irql != 0 ==> *final(sequence) == *old(sequence),
        recorded matches Some(r) ==> r.name@ == event_name(*old(sequence), name@) && r.value
            == value,
{
    if !enabled || irql != PASSIVE_LEVEL {
        return None;
    }
    let number: u32 = *sequence;
    *sequence = number.wrapping_add(1);
    if number < EVENT_LIMIT {
        let mut text: String = "Event".to_owned();
        append_decimal(&mut text, number, 3);
        text.append("_");
        text.append(name);
        Some(Record { name: text, value })
    } else {
        None
    }
}

/// The length field of a name of up to 16383 characters is exact.
pub proof fn law_short_names_are_counted_exactly(name: Seq<char>)
    requires
        name.len() <= 16383,
    ensures
        counted_bytes(crate::text::utf16(name).len()) == 2 * crate::text::utf16(name).len(),
{
    crate::text::lemma_utf16_len(name);
}

/// Recorded events sort in the order in which they happened, whatever they are
/// called.
pub proof fn law_event_names_keep_order(a: u32, b: u32, first: Seq<char>, second: Seq<char>)
    requires
        a < b < EVENT_LIMIT,
    ensures
        crate::text::sorts_before(event_name(a, first), event_name(b, second)),
{
    reveal_strlit("Event");
    let da = crate::text::decimal(a as nat, 3);
    let db = crate::text::decimal(b as nat, 3);
    let x = event_name(a, first);
    let y = event_name(b, second);
    assert(vstd::arithmetic::power::pow(10, 3) == 1000) by {
        reveal_with_fuel(vstd::arithmetic::power::pow, 4);
    }
    crate::text::law_decimal_keeps_order(a as nat, b as nat, 3);
    crate::text::lemma_decimal_len(a as nat, 3);
    crate::text::lemma_decimal_len(b as nat, 3);
    let i = choose|i: int|
        {
            &&& 0 <= i < da.len()
            &&& i < db.len()
            &&& #[trigger] da[i] < db[i]
            &&& da.take(i) == db.take(i)
        };
    assert(x[5 + i] == da[i] && y[5 + i] == db[i]);
    assert(x.take(5 + i) =~= "Event"@ + da.take(i));
    assert(y.take(5 + i) =~= "Event"@ + db.take(i));
    assert(x[5 + i] < y[5 + i]);
}

/// A record is its name and its value.
pub proof fn law_record_view(record: Record)
    ensures
        record@ == (record.name@, record.value),
{
}

/// Diagnostics are written exactly when they are enabled and the IRQL is zero.
pub proof fn law_writes_need_passive_level(enabled: bool, irql: u8)
    ensures
        may_write(enabled, irql) <==> enabled && irql == 0,
{
}

/// A length field holds the byte count of the text, two for each code unit,
/// short by a multiple of 64 KiB at most.
pub proof fn law_length_field(units: nat)
    ensures
        (2 * units - counted_bytes(units)) % 0x1_0000 == 0,
        2 * units < 0x1_0000 ==> counted_bytes(units) == 2 * units,
{
}

/// The value name of an event is `Event`, its number in three digits, an
/// underscore, and what the event is called, unchanged.
pub proof fn law_event_name_parts(sequence: u32, name: Seq<char>)
    requires
        sequence < 1000,
    ensures
        event_name(sequence, name).len() == 9 + name.len(),
        event_name(sequence, name).subrange(0, 5) == seq!['E', 'v', 'e', 'n', 't'],
        event_name(sequence, name)[5] as int == 48 + sequence as int / 100,
        event_name(sequence, name)[6] as int == 48 + sequence as int / 10 % 10,
        event_name(sequence, name)[7] as int == 48 + sequence as int % 10,
        event_name(sequence, name)[8] == '_',
        event_name(sequence, name).subrange(9, 9 + name.len() as int) == name,
{
    reveal_strlit("Event");
    reveal_strlit("_");
    reveal_with_fuel(crate::text::decimal, 4);
    let full = event_name(sequence, name);
    crate::text::lemma_decimal_len(sequence as nat, 3);
    assert(full.subrange(0, 5) =~= seq!['E', 'v', 'e', 'n', 't']);
    assert(full.subrange(9, 9 + name.len() as int) =~= name);
}

} // verus!
