//! Every function and type from outside this crate that the verified code
//! relies on, each with the contract it is taken to have.

use crate::logging;
use crate::logging::LogLevel;
use crate::options::AutoOffsetReset;
use std::collections::hash_map::DefaultHasher;
use std::hash::Hash;
use std::time::Duration;
use vstd::prelude::*;
use vstd::utf8::*;

verus! {

/// `String::push` of the standard library appends the character at the end.
pub assume_specification[ String::push ](s: &mut String, c: char)
    ensures
        final(s)@ == old(s)@.push(c),
;

/// The length of a duration in nanoseconds, as `Duration::as_nanos` reports it.
pub uninterp spec fn duration_nanos(d: Duration) -> nat;

/// `llingr_nexus::duration_ms_ceil` gives the whole milliseconds of a
/// duration, counting a started millisecond as a whole one: it divides
/// `Duration::as_nanos` by one million, rounding up.
pub assume_specification[ llingr_nexus::duration_ms_ceil ](d: Duration) -> (ms: u128)
    ensures
        ms as nat == (duration_nanos(d) + 999_999) / 1_000_000,
;

/// A text as the standard library's `Debug` for `str` writes it: in double
/// quotes, with the characters escaped that `char::escape_debug` escapes.
pub uninterp spec fn debug_quoted(s: Seq<char>) -> Seq<char>;

/// `Debug` for `str` of the standard library, through `format!("{:?}")`. The
/// output is named and nothing more is claimed of it.
#[verifier::external_body]
pub(crate) fn quoted(s: &str) -> (r: String)
    ensures
        r@ == debug_quoted(s@),
{
    format!("{:?}", s)
}

/// What `String::from_utf8_lossy` makes of a byte sequence.
pub uninterp spec fn lossy_utf8(bytes: Seq<u8>) -> Seq<char>;

/// The text is what `String::from_utf8_lossy` makes of the bytes: their
/// decoding, where they are valid UTF-8.
pub open spec fn reads_as(bytes: Seq<u8>, text: Seq<char>) -> bool {
    &&& text == lossy_utf8(bytes)
    &&& valid_utf8(bytes) ==> text == decode_utf8(bytes)
}

/// `String::from_utf8_lossy` of the standard library: valid UTF-8 is decoded
/// as it stands; of other input the result is named and nothing more is
/// claimed.
#[verifier::external_body]
pub(crate) fn lossy_text(bytes: &[u8]) -> (r: String)
    ensures
        r@ == lossy_utf8(bytes@),
        valid_utf8(bytes@) ==> r@ == decode_utf8(bytes@),
{
    String::from_utf8_lossy(bytes).into_owned()
}

/// `AutoOffsetReset::as_str` of llingr-nexus: the option value that the broker
/// client understands, `earliest` or `latest`.
#[verifier::external_body]
pub(crate) fn offset_reset_name(reset: AutoOffsetReset) -> (name: &'static str)
    ensures
        name@ == (match reset {
            AutoOffsetReset::Earliest => "earliest"@,
            AutoOffsetReset::Latest => "latest"@,
        }),
{
    let outside = match reset {
        AutoOffsetReset::Earliest => llingr_nexus::AutoOffsetReset::Earliest,
        AutoOffsetReset::Latest => llingr_nexus::AutoOffsetReset::Latest,
    };
    outside.as_str()
}

/// The registry of prometheus-client, which holds the live series; it is only
/// carried.
#[verifier::external_type_specification]
#[verifier::external_body]
pub struct ExRegistry(prometheus_client::registry::Registry);

/// The write-once cell of the standard library; it is only carried.
#[verifier::external_type_specification]
#[verifier::external_body]
#[verifier::reject_recursive_types(T)]
pub struct ExOnceLock<T>(std::sync::OnceLock<T>);

/// `OnceLock::new` of the standard library makes a cell. Which one is not
/// said: of a cell nothing is known but that it is itself.
pub assume_specification<T>[ std::sync::OnceLock::<T>::new ]() -> (r: std::sync::OnceLock<T>);

/// The error that `core::str::from_utf8` reports; nothing is read from it.
#[verifier::external_type_specification]
#[verifier::external_body]
pub struct ExUtf8Error(core::str::Utf8Error);

/// `core::str::from_utf8` accepts exactly the valid UTF-8 byte sequences, and
/// gives the text that has those bytes.
pub assume_specification[ core::str::from_utf8 ](v: &[u8]) -> (r: Result<
    &str,
    core::str::Utf8Error,
>)
    ensures
        r is Ok <==> valid_utf8(v@),
        r matches Ok(s) ==> encode_utf8(s@) == v@,
;

/// `LogLevel::from_raw` of llingr-nexus: 0 is debug, 1 info, 2 warn, 3 error,
/// and any other number info.
#[verifier::external_body]
pub(crate) fn engine_log_level(raw: i32) -> (r: LogLevel)
    ensures
        r == logging::level_of(raw),
{
    match llingr_nexus::LogLevel::from_raw(raw) {
        llingr_nexus::LogLevel::Debug => LogLevel::Debug,
        llingr_nexus::LogLevel::Info => LogLevel::Info,
        llingr_nexus::LogLevel::Warn => LogLevel::Warn,
        llingr_nexus::LogLevel::Error => LogLevel::Error,
    }
}

/// `Traits::raw` of llingr-nexus keeps the application bits and clears the ten
/// framework bits.
#[verifier::external_body]
pub(crate) fn application_traits(bits: u64) -> (r: u64)
    ensures
        r == bits & !0x3ffu64,
{
    llingr_nexus::Traits::from_raw(bits).raw()
}

/// `Traits::has_process_error` of llingr-nexus reads framework bit 0: the
/// process handler returned an error.
#[verifier::external_body]
pub(crate) fn has_process_error(bits: u64) -> (r: bool)
    ensures
        r == (bits & 1 != 0),
{
    llingr_nexus::Traits::from_raw(bits).has_process_error()
}

/// `Traits::has_process_panic` of llingr-nexus reads framework bit 1: the
/// engine recovered a panic.
#[verifier::external_body]
pub(crate) fn has_process_panic(bits: u64) -> (r: bool)
    ensures
        r == (bits & 2 != 0),
{
    llingr_nexus::Traits::from_raw(bits).has_process_panic()
}

/// `Traits::has_dead_letter` of llingr-nexus reads framework bit 2: the message
/// went to the dead-letter handler.
#[verifier::external_body]
pub(crate) fn has_dead_letter(bits: u64) -> (r: bool)
    ensures
        r == (bits & 4 != 0),
{
    llingr_nexus::Traits::from_raw(bits).has_dead_letter()
}

/// `Traits::has_duplicate` of llingr-nexus reads framework bit 4: the message
/// was delivered again.
#[verifier::external_body]
pub(crate) fn has_duplicate(bits: u64) -> (r: bool)
    ensures
        r == (bits & 16 != 0),
{
    llingr_nexus::Traits::from_raw(bits).has_duplicate()
}

/// `Traits::has_used_overflow` of llingr-nexus reads framework bit 5: the
/// message took the overflow path.
#[verifier::external_body]
pub(crate) fn has_used_overflow(bits: u64) -> (r: bool)
    ensures
        r == (bits & 32 != 0),
{
    llingr_nexus::Traits::from_raw(bits).has_used_overflow()
}

/// The character has the Unicode `White_Space` property.
pub open spec fn white_space(c: char) -> bool {
    let n = c as u32;
    ||| 0x9 <= n <= 0xd
    ||| n == 0x20
    ||| n == 0x85
    ||| n == 0xa0
    ||| n == 0x1680
    ||| 0x2000 <= n <= 0x200a
    ||| 0x2028 <= n <= 0x2029
    ||| n == 0x202f
    ||| n == 0x205f
    ||| n == 0x3000
}

/// `char::is_whitespace` of the standard library: it tells whether the
/// character has the Unicode `White_Space` property, which these twenty-five
/// characters have.
pub assume_specification[ char::is_whitespace ](c: char) -> (r: bool)
    ensures
        r == white_space(c),
;

/// What `Hash` for `str` of the standard library feeds to a hasher.
pub uninterp spec fn text_writes(s: Seq<char>) -> Seq<Seq<u8>>;

/// `Hash::hash` for `str` of the standard library: what it feeds to the hasher
/// depends on the text alone. The writes are named and nothing more is claimed
/// of them.
#[verifier::external_body]
pub(crate) fn hash_text(s: &str, hasher: &mut DefaultHasher)
    ensures
        final(hasher)@ == old(hasher)@ + text_writes(s@),
{
    s.hash(hasher)
}

} // verus!
