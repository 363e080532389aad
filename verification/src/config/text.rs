//! Spans of time, text rules and parsing of configuration literals.

use vstd::prelude::*;
use vstd::string::*;

use crate::domain::ArithmeticError;
use crate::primitives::{
    address, address_from_text, address_literal, b256, b256_from_text, b256_literal,
    group_address, group_b256, group_u256, u256, u256_from_text, u256_literal, Address, B256, U256,
};

verus! {

/// Span of time in whole seconds and nanoseconds of the second.
#[derive(Clone, Copy, Debug, PartialEq, Eq, Structural)]
pub struct Duration {
    /// Whole seconds.
    pub secs: u64,
    /// Nanoseconds past the whole seconds.
    pub nanos: u32,
}

impl Duration {
    /// A span of whole seconds.
    pub open spec fn of_secs(secs: u64) -> Duration {
        Duration { secs, nanos: 0 }
    }

    /// Makes a span of whole seconds.
    pub fn from_secs(secs: u64) -> (r: Duration)
        ensures
            r == Duration::of_secs(secs),
    {
        Duration { secs, nanos: 0 }
    }

    /// Whole seconds of the span.
    pub fn as_secs(&self) -> (r: u64)
        ensures
            r == self.secs,
    {
        self.secs
    }

    /// Whole milliseconds of the span.
    pub open spec fn millis(self) -> nat {
        (self.secs * 1_000 + self.nanos / 1_000_000) as nat
    }

    /// Whole milliseconds of the span.
    pub fn as_millis(&self) -> (r: u128)
        ensures
            r == self.millis(),
    {
        self.secs as u128 * 1_000 + (self.nanos / 1_000_000) as u128
    }

    /// Whether the span is empty.
    pub open spec fn empty(self) -> bool {
        self.secs == 0 && self.nanos == 0
    }

    /// Whether the span is empty.
    pub fn is_zero(&self) -> (r: bool)
        ensures
            r == self.empty(),
    {
        self.secs == 0 && self.nanos == 0
    }

    /// Whether the span is strictly longer.
    pub open spec fn longer(self, other: Duration) -> bool {
        self.secs > other.secs || (self.secs == other.secs && self.nanos > other.nanos)
    }

    /// Whether the span is strictly longer than another.
    pub fn exceeds(&self, other: &Duration) -> (r: bool)
        ensures
            r == self.longer(*other),
    {
        self.secs > other.secs || (self.secs == other.secs && self.nanos > other.nanos)
    }
}

/// Configuration load or validation failure.
#[derive(Debug)]
pub enum ConfigError {
    /// Configuration extension is not one of the supported strict formats.
    UnsupportedFormat,
    /// A named field violates a fail-closed invariant.
    Validation {
        /// Stable field path.
        field: String,
        /// Human-readable reason without secret data.
        reason: &'static str,
    },
    /// Exact unit conversion failed.
    Arithmetic(ArithmeticError),
}

/// What a configuration failure says.
pub ghost enum ConfigFailure {
    /// The extension names no supported format.
    UnsupportedFormat,
    /// A named field violates an invariant.
    Validation {
        /// Field path.
        field: Seq<char>,
        /// Reason.
        reason: Seq<char>,
    },
    /// Exact unit conversion failed.
    Arithmetic(ArithmeticError),
}

impl View for ConfigError {
    type V = ConfigFailure;

    open spec fn view(&self) -> ConfigFailure {
        match *self {
            ConfigError::UnsupportedFormat => ConfigFailure::UnsupportedFormat,
            ConfigError::Validation { field, reason } => ConfigFailure::Validation {
                field: field@,
                reason: reason@,
            },
            ConfigError::Arithmetic(error) => ConfigFailure::Arithmetic(error),
        }
    }
}

/// A result with its error by what it says.
pub open spec fn reported<T>(r: Result<T, ConfigError>) -> Result<T, ConfigFailure> {
    match r {
        Ok(value) => Ok(value),
        Err(error) => Err(error@),
    }
}

/// Whether a result is the first failure where there is one, and else the value.
pub open spec fn settles<T: View>(
    r: Result<T, ConfigError>,
    failure: Option<ConfigFailure>,
    value: T::V,
) -> bool {
    match failure {
        Some(reason) => r is Err && r->Err_0@ == reason,
        None => r is Ok && r->Ok_0@ == value,
    }
}

/// Whether a check passes exactly where there is no failure, and else reports it.
pub open spec fn checks(r: Result<(), ConfigError>, failure: Option<ConfigFailure>) -> bool {
    match failure {
        Some(reason) => r is Err && r->Err_0@ == reason,
        None => r is Ok,
    }
}

/// The failure of a field for a reason.
pub open spec fn invalid(field: &str, reason: &str) -> ConfigFailure {
    ConfigFailure::Validation { field: field@, reason: reason@ }
}

/// Makes the failure of a field for a reason.
pub(crate) fn validation(field: &str, reason: &'static str) -> (r: ConfigError)
    ensures
        r@ == invalid(field, reason),
{
    ConfigError::Validation { field: field.to_owned(), reason }
}

/// Whether a character has the Unicode `White_Space` property.
pub open spec fn is_white_space(c: char) -> bool {
    let code = c as u32;
    ||| 0x9 <= code <= 0xd
    ||| code == 0x20
    ||| code == 0x85
    ||| code == 0xa0
    ||| code == 0x1680
    ||| 0x2000 <= code <= 0x200a
    ||| code == 0x2028
    ||| code == 0x2029
    ||| code == 0x202f
    ||| code == 0x205f
    ||| code == 0x3000
}

/// Whether a text has no character other than white space.
pub open spec fn blank(text: Seq<char>) -> bool {
    forall|i: int| 0 <= i < text.len() ==> is_white_space(#[trigger] text[i])
}

/// Whether a text has no character other than white space.
pub fn is_blank(text: &str) -> (r: bool)
    ensures
        r == blank(text@),
{
    let length: usize = text.unicode_len();
    let mut i: usize = 0;
    while i < length
        invariant
            i <= length,
            length == text@.len(),
            forall|j: int| 0 <= j < i ==> is_white_space(#[trigger] text@[j]),
        decreases length - i,
    {
        let c = text.get_char(i);
        let code: u32 = c as u32;
        let space = (0x9 <= code && code <= 0xd) || code == 0x20 || code == 0x85 || code == 0xa0
            || code == 0x1680 || (0x2000 <= code && code <= 0x200a) || code == 0x2028 || code
            == 0x2029 || code == 0x202f || code == 0x205f || code == 0x3000;
        if !space {
            assert(!is_white_space(text@[i as int]));
            return false;
        }
        i = i + 1;
    }
    true
}

/// Whether a text orders strictly before another from index `from` on, character by character.
pub open spec fn text_before_from(left: Seq<char>, right: Seq<char>, from: int) -> bool
    decreases left.len() - from,
{
    if from >= right.len() {
        false
    } else if from >= left.len() {
        true
    } else if left[from] != right[from] {
        left[from] < right[from]
    } else {
        text_before_from(left, right, from + 1)
    }
}

/// Whether a text orders strictly before another.
pub fn text_before(left: &str, right: &str) -> (r: bool)
    ensures
        r == text_before_from(left@, right@, 0),
{
    let left_length: usize = left.unicode_len();
    let right_length: usize = right.unicode_len();
    let mut i: usize = 0;
    while i < left_length && i < right_length
        invariant
            left_length == left@.len(),
            right_length == right@.len(),
            i <= left_length,
            i <= right_length,
            text_before_from(left@, right@, 0) == text_before_from(left@, right@, i as int),
        decreases left_length - i,
    {
        let a = left.get_char(i);
        let b = right.get_char(i);
        if a < b {
            return true;
        }
        if b < a {
            return false;
        }
        i = i + 1;
    }
    i < right_length
}

/// Two texts that agree before index `from` are equal or one orders before the other, never both.
pub proof fn text_order_is_total(left: Seq<char>, right: Seq<char>, from: int)
    requires
        0 <= from <= left.len(),
        from <= right.len(),
        forall|i: int| 0 <= i < from ==> left[i] == right[i],
    ensures
        left == right || text_before_from(left, right, from) || text_before_from(right, left, from),
        !(text_before_from(left, right, from) && text_before_from(right, left, from)),
        left == right ==> !text_before_from(left, right, from),
    decreases left.len() - from,
{
    if from < left.len() && from < right.len() {
        if left[from] == right[from] {
            text_order_is_total(left, right, from + 1);
        }
    } else if left.len() == right.len() {
        assert(left =~= right);
    }
}

/// The order of texts is transitive.
pub proof fn text_order_is_transitive(
    first: Seq<char>,
    second: Seq<char>,
    third: Seq<char>,
    from: int,
)
    requires
        0 <= from,
        text_before_from(first, second, from),
        text_before_from(second, third, from),
    ensures
        text_before_from(first, third, from),
    decreases first.len() - from,
{
    if from < first.len() && from < second.len() && from < third.len() && first[from]
        == second[from] && second[from] == third[from] {
        text_order_is_transitive(first, second, third, from + 1);
    }
}

/// The ASCII lower-case form of a character.
pub open spec fn lower_case(c: char) -> char {
    if 'A' <= c <= 'Z' {
        (c as u32 + 32) as char
    } else {
        c
    }
}

/// Whether two characters are equal up to ASCII case.
fn same_letter(c: char, lower: char) -> (r: bool)
    ensures
        r == (lower_case(c) == lower),
{
    let code: u32 = c as u32;
    if 'A' <= c && c <= 'Z' {
        code + 32 == lower as u32
    } else {
        c == lower
    }
}

/// Whether a text is a lower-case word up to ASCII case.
pub open spec fn same_word(text: Seq<char>, word: Seq<char>) -> bool {
    text.len() == word.len() && forall|i: int|
        0 <= i < text.len() ==> lower_case(#[trigger] text[i]) == word[i]
}

fn is_word(text: &str, word: &str) -> (r: bool)
    ensures
        r == same_word(text@, word@),
{
    let length: usize = text.unicode_len();
    if length != word.unicode_len() {
        return false;
    }
    let mut i: usize = 0;
    while i < length
        invariant
            i <= length,
            length == text@.len(),
            length == word@.len(),
            forall|j: int| 0 <= j < i ==> lower_case(#[trigger] text@[j]) == word@[j],
        decreases length - i,
    {
        if !same_letter(text.get_char(i), word.get_char(i)) {
            assert(lower_case(text@[i as int]) != word@[i as int]);
            return false;
        }
        i = i + 1;
    }
    true
}

/// Supported strict configuration format.
#[derive(Clone, Copy, Debug, PartialEq, Eq, Structural)]
pub enum ConfigFormat {
    /// JSON.
    Json,
    /// YAML.
    Yaml,
}

/// The format that a file extension names, whatever its case.
pub open spec fn format_of(extension: Option<Seq<char>>) -> Result<ConfigFormat, ConfigFailure> {
    match extension {
        Some(text) => if same_word(text, "json"@) {
            Ok(ConfigFormat::Json)
        } else if same_word(text, "yaml"@) || same_word(text, "yml"@) {
            Ok(ConfigFormat::Yaml)
        } else {
            Err(ConfigFailure::UnsupportedFormat)
        },
        None => Err(ConfigFailure::UnsupportedFormat),
    }
}

/// Selects the configuration format from a file extension.
pub fn config_format(extension: Option<&str>) -> (r: Result<ConfigFormat, ConfigError>)
    ensures
        reported(r) == format_of(
            match extension {
                Some(text) => Some(text@),
                None => None,
            },
        ),
{
    match extension {
        Some(text) => {
            if is_word(text, "json") {
                Ok(ConfigFormat::Json)
            } else if is_word(text, "yaml") || is_word(text, "yml") {
                Ok(ConfigFormat::Yaml)
            } else {
                Err(ConfigError::UnsupportedFormat)
            }
        },
        None => Err(ConfigError::UnsupportedFormat),
    }
}

/// Whether a text denotes an address.
pub open spec fn is_address(text: Seq<char>) -> bool {
    address_literal(text) is Some
}

/// The address that a text denotes.
pub open spec fn address_in(text: Seq<char>) -> Address {
    address(address_literal(text)->0)
}

/// Failure of a field that denotes no address.
pub open spec fn not_an_address(field: &str) -> ConfigFailure {
    invalid(field, "invalid EVM address")
}

/// Parses an address field.
pub fn parse_address(field: &str, raw: &str) -> (r: Result<Address, ConfigError>)
    ensures
        reported(r) == if is_address(raw@) {
            Ok(address_in(raw@))
        } else {
            Err(not_an_address(field))
        },
{
    broadcast use group_address;

    match address_from_text(raw) {
        Some(value) => Ok(value),
        None => Err(validation(field, "invalid EVM address")),
    }
}

/// Whether a text denotes a 32-byte hash.
pub open spec fn is_hash(text: Seq<char>) -> bool {
    b256_literal(text) is Some
}

/// The hash that a text denotes.
pub open spec fn hash_in(text: Seq<char>) -> B256 {
    b256(b256_literal(text)->0)
}

/// Failure of a field that denotes no hash.
pub open spec fn not_a_hash(field: &str) -> ConfigFailure {
    invalid(field, "invalid 32-byte hash")
}

/// Parses a hash field.
pub fn parse_hash(field: &str, raw: &str) -> (r: Result<B256, ConfigError>)
    ensures
        reported(r) == if is_hash(raw@) {
            Ok(hash_in(raw@))
        } else {
            Err(not_a_hash(field))
        },
{
    broadcast use group_b256;

    match b256_from_text(raw) {
        Some(value) => Ok(value),
        None => Err(validation(field, "invalid 32-byte hash")),
    }
}

/// Failure of a code-hash field, if any.
pub open spec fn code_hash_failure(field: &str, text: Seq<char>) -> Option<ConfigFailure> {
    if !is_hash(text) {
        Some(not_a_hash(field))
    } else if hash_in(text)@ == 0 {
        Some(invalid(field, "expected code hash must be nonzero"))
    } else {
        None
    }
}

/// Parses a code-hash field, which may not be zero.
pub fn parse_nonzero_hash(field: &str, raw: &str) -> (r: Result<B256, ConfigError>)
    ensures
        reported(r) == (match code_hash_failure(field, raw@) {
            Some(failure) => Err::<B256, ConfigFailure>(failure),
            None => Ok(hash_in(raw@)),
        }),
{
    let hash = parse_hash(field, raw)?;
    if hash.is_zero() {
        return Err(validation(field, "expected code hash must be nonzero"));
    }
    Ok(hash)
}

/// Whether a text denotes an unsigned integer.
pub open spec fn is_amount(text: Seq<char>) -> bool {
    u256_literal(text) is Some
}

/// The unsigned integer that a text denotes.
pub open spec fn amount_in(text: Seq<char>) -> U256 {
    u256(u256_literal(text)->0)
}

/// Failure of a field that denotes no unsigned integer.
pub open spec fn not_an_amount(field: &str) -> ConfigFailure {
    invalid(field, "invalid unsigned integer")
}

/// Parses an unsigned integer field.
pub fn parse_u256(field: &str, raw: &str) -> (r: Result<U256, ConfigError>)
    ensures
        reported(r) == if is_amount(raw@) {
            Ok(amount_in(raw@))
        } else {
            Err(not_an_amount(field))
        },
{
    broadcast use group_u256;

    match u256_from_text(raw) {
        Some(value) => Ok(value),
        None => Err(validation(field, "invalid unsigned integer")),
    }
}

/// Whether every text denotes an address.
pub open spec fn are_addresses(values: Seq<String>) -> bool {
    forall|i: int| 0 <= i < values.len() ==> is_address(#[trigger] values[i]@)
}

/// The addresses that texts denote.
pub open spec fn addresses_in(values: Seq<String>) -> Seq<Address> {
    Seq::new(values.len(), |i: int| address_in(values[i]@))
}

/// Parses a list of addresses.
pub fn parse_addresses(field: &str, values: &Vec<String>) -> (r: Result<Vec<Address>, ConfigError>)
    ensures
        if are_addresses(values@) {
            r is Ok && r->Ok_0@ == addresses_in(values@)
        } else {
            r is Err && r->Err_0@ == not_an_address(field)
        },
{
    let mut addresses: Vec<Address> = Vec::new();
    let mut i: usize = 0;
    while i < values.len()
        invariant
            i <= values.len(),
            forall|j: int| 0 <= j < i ==> is_address(#[trigger] values@[j]@),
            addresses@ == addresses_in(values@).subrange(0, i as int),
        decreases values.len() - i,
    {
        let parsed = parse_address(field, values[i].as_str());
        match parsed {
            Ok(value) => {
                addresses.push(value);
            },
            Err(error) => {
                assert(!is_address(values@[i as int]@));
                return Err(error);
            },
        }
        i = i + 1;
        assert(addresses@ =~= addresses_in(values@).subrange(0, i as int));
    }
    assert(addresses@ =~= addresses_in(values@));
    Ok(addresses)
}

} // verus!
