//! Role-scoped JSON-RPC provider rules with no generic public request surface.

use vstd::prelude::*;
use vstd::string::*;

use crate::collections::{has_key, OrderedKey, OrderedSet};
use crate::config::RpcRole;
use crate::domain::BlockRef;
use crate::endpoint::{is_http_endpoint, url_parts};
use crate::primitives::{digit_value, hex_prefix, Address, B256};

verus! {

/// Provider capability role.
#[derive(Clone, Copy, Debug, PartialEq, Eq, Structural)]
pub enum ProviderRole {
    /// Canonical head polling.
    Head,
    /// Log retrieval.
    Logs,
    /// Exact state reads.
    Read,
    /// Transaction simulation.
    Simulate,
    /// Signed transaction submission.
    Submit,
    /// Receipt reads.
    Receipt,
    /// Independent correctness checkpoint.
    Checkpoint,
}

impl ProviderRole {
    fn place(self) -> (r: u8)
        ensures
            r == self.rank(),
    {
        match self {
            ProviderRole::Head => 0,
            ProviderRole::Logs => 1,
            ProviderRole::Read => 2,
            ProviderRole::Simulate => 3,
            ProviderRole::Submit => 4,
            ProviderRole::Receipt => 5,
            ProviderRole::Checkpoint => 6,
        }
    }
}

impl OrderedKey for ProviderRole {
    open spec fn rank(self) -> int {
        match self {
            ProviderRole::Head => 0,
            ProviderRole::Logs => 1,
            ProviderRole::Read => 2,
            ProviderRole::Simulate => 3,
            ProviderRole::Submit => 4,
            ProviderRole::Receipt => 5,
            ProviderRole::Checkpoint => 6,
        }
    }

    proof fn rank_injective(a: Self, b: Self) {
    }

    fn before(self, other: Self) -> (r: bool) {
        self.place() < other.place()
    }
}

/// The capability role of a configured role.
pub open spec fn role_of(value: RpcRole) -> ProviderRole {
    match value {
        RpcRole::Head => ProviderRole::Head,
        RpcRole::Logs => ProviderRole::Logs,
        RpcRole::Read => ProviderRole::Read,
        RpcRole::Simulate => ProviderRole::Simulate,
        RpcRole::Submit => ProviderRole::Submit,
        RpcRole::Receipt => ProviderRole::Receipt,
        RpcRole::Checkpoint => ProviderRole::Checkpoint,
    }
}

impl From<RpcRole> for ProviderRole {
    fn from(value: RpcRole) -> (r: Self) {
        match value {
            RpcRole::Head => ProviderRole::Head,
            RpcRole::Logs => ProviderRole::Logs,
            RpcRole::Read => ProviderRole::Read,
            RpcRole::Simulate => ProviderRole::Simulate,
            RpcRole::Submit => ProviderRole::Submit,
            RpcRole::Receipt => ProviderRole::Receipt,
            RpcRole::Checkpoint => ProviderRole::Checkpoint,
        }
    }
}

impl vstd::std_specs::convert::FromSpecImpl<RpcRole> for ProviderRole {
    open spec fn obeys_from_spec() -> bool {
        true
    }

    open spec fn from_spec(value: RpcRole) -> Self {
        role_of(value)
    }
}

/// Capability roles of the first `count` configured roles.
pub open spec fn roles_of(roles: Seq<RpcRole>, count: int) -> Seq<ProviderRole>
    decreases count,
{
    if count <= 0 {
        Seq::empty()
    } else {
        crate::collections::with_key(roles_of(roles, count - 1), role_of(roles[count - 1]))
    }
}

/// Collects the capability roles of configured roles.
pub fn provider_roles(roles: &Vec<RpcRole>) -> (r: OrderedSet<ProviderRole>)
    ensures
        r@ == roles_of(roles@, roles@.len() as int),
{
    let mut set: OrderedSet<ProviderRole> = OrderedSet::new();
    let mut i: usize = 0;
    while i < roles.len()
        invariant
            i <= roles.len(),
            set@ == roles_of(roles@, i as int),
        decreases roles.len() - i,
    {
        let _added = set.insert(ProviderRole::from(roles[i]));
        i = i + 1;
    }
    set
}

/// Exact provider log response.
#[derive(Debug)]
pub struct RpcLog {
    /// Emitting address.
    pub address: Address,
    /// Event topics.
    pub topics: Vec<B256>,
    /// Event data.
    pub data: Vec<u8>,
    /// Canonical block number quantity.
    pub block_number: Option<String>,
    /// Canonical block hash.
    pub block_hash: Option<B256>,
    /// Transaction hash.
    pub transaction_hash: Option<B256>,
    /// Transaction index quantity.
    pub transaction_index: Option<String>,
    /// Log index quantity.
    pub log_index: Option<String>,
    /// Provider removed marker.
    pub removed: bool,
}

/// Exact provider transaction receipt response.
#[derive(Debug)]
pub struct RpcReceipt {
    /// Transaction hash.
    pub transaction_hash: B256,
    /// Block hash.
    pub block_hash: B256,
    /// Block number quantity.
    pub block_number: String,
    /// Transaction index quantity.
    pub transaction_index: String,
    /// Optional status quantity.
    pub status: Option<String>,
    /// Gas-used quantity.
    pub gas_used: String,
    /// Ordered receipt logs.
    pub logs: Vec<RpcLog>,
}

/// Exact provider header response.
#[derive(Debug)]
pub struct RpcHeader {
    /// Block number quantity.
    pub number: String,
    /// Block hash.
    pub hash: B256,
    /// Parent block hash.
    pub parent_hash: B256,
    /// Timestamp quantity.
    pub timestamp: String,
    /// Gas-limit quantity.
    pub gas_limit: String,
}

/// Stable category of a JSON-RPC error.
#[derive(Clone, Copy, Debug, PartialEq, Eq, Structural)]
pub enum RpcErrorCategory {
    /// The provider limits the request rate.
    RateLimited,
    /// The provider's server is unavailable.
    ServerUnavailable,
    /// The provider's transport is unavailable.
    TransportUnavailable,
    /// No known category.
    Unknown,
}

/// Provider or JSON-RPC failure. Endpoint URLs and credentials are never part of one.
#[derive(Debug, PartialEq, Eq)]
pub enum ProviderError {
    /// Required role is absent from this provider.
    MissingRole {
        /// Stable provider name.
        provider: String,
        /// Required role.
        role: ProviderRole,
    },
    /// Endpoint environment reference is absent or malformed.
    Endpoint,
    /// HTTP transport failed; details are left out to protect credential-bearing URLs.
    Transport {
        /// Static method name.
        method: &'static str,
    },
    /// HTTP answered with a failure status.
    HttpStatus {
        /// Static method name.
        method: &'static str,
        /// HTTP status code.
        status: u16,
    },
    /// JSON-RPC response could not be decoded.
    MalformedResponse {
        /// Static method name.
        method: &'static str,
    },
    /// JSON-RPC method is unsupported.
    MethodUnsupported {
        /// Static method name.
        method: &'static str,
    },
    /// JSON-RPC returned an execution or parameter error.
    Rpc {
        /// Static method name.
        method: &'static str,
        /// JSON-RPC error code.
        code: i64,
        /// Error category.
        category: RpcErrorCategory,
    },
    /// A requested block was not returned.
    MissingBlock,
    /// Hex quantity is malformed or exceeds `u64`.
    Quantity {
        /// Stable field name.
        field: &'static str,
    },
    /// Returned chain differs from configured chain.
    ChainMismatch {
        /// Configured chain ID.
        expected: u64,
        /// Returned chain ID.
        observed: u64,
    },
    /// HyperEVM reports the configured signer uses big blocks.
    SignerUsesBigBlocks,
}

fn read_digit(c: char) -> (r: Option<u64>)
    ensures
        (match r {
            Some(value) => Some(value as nat),
            None => None::<nat>,
        }) == digit_value(c),
        r is Some ==> r->0 < 16,
{
    let code: u32 = c as u32;
    if '0' <= c && c <= '9' {
        Some((code - 48) as u64)
    } else if 'a' <= c && c <= 'f' {
        Some((code - 87) as u64)
    } else if 'A' <= c && c <= 'F' {
        Some((code - 55) as u64)
    } else {
        None
    }
}

/// The value that a quantity denotes: `0x` and at least one hexadecimal digit, below `2^64`.
pub open spec fn quantity_value(text: Seq<char>) -> Option<u64> {
    if text.len() <= 2 || text[0] != '0' || text[1] != 'x' {
        None
    } else {
        match hex_prefix(text, 2, text.len() - 2) {
            Some(value) => if value <= u64::MAX {
                Some(value as u64)
            } else {
                None
            },
            None => None,
        }
    }
}

proof fn lemma_hex_prefix_grows(text: Seq<char>, start: int, count: int, total: int)
    requires
        0 <= count <= total,
    ensures
        hex_prefix(text, start, count) is None ==> hex_prefix(text, start, total) is None,
        hex_prefix(text, start, count) is Some && hex_prefix(text, start, total) is Some
            ==> hex_prefix(text, start, count)->0 <= hex_prefix(text, start, total)->0,
    decreases total - count,
{
    if count < total {
        lemma_hex_prefix_grows(text, start, count, total - 1);
    }
}

/// Parses an EVM hex quantity into `u64` without narrowing.
pub fn parse_quantity(field: &'static str, quantity: &str) -> (r: Result<u64, ProviderError>)
    ensures
        r == quantity_value(quantity@).ok_or(ProviderError::Quantity { field }),
{
    let length: usize = quantity.unicode_len();
    if length <= 2 || quantity.get_char(0) != '0' || quantity.get_char(1) != 'x' {
        return Err(ProviderError::Quantity { field });
    }
    let mut value: u64 = 0;
    let mut i: usize = 2;
    while i < length
        invariant
            length == quantity@.len(),
            2 <= i <= length,
            2 < length,
            quantity@[0] == '0',
            quantity@[1] == 'x',
            hex_prefix(quantity@, 2, i - 2) == Some(value as nat),
        decreases length - i,
    {
        proof {
            lemma_hex_prefix_grows(quantity@, 2, i - 1, quantity@.len() - 2);
        }
        let digit: u64 = match read_digit(quantity.get_char(i)) {
            Some(digit) => digit,
            None => return Err(ProviderError::Quantity { field }),
        };
        if value > 0x0fff_ffff_ffff_ffff {
            return Err(ProviderError::Quantity { field });
        }
        value = value * 16 + digit;
        i = i + 1;
    }
    Ok(value)
}

/// The lower-case hexadecimal digit of a value below sixteen.
pub open spec fn digit_char(value: int) -> char {
    if value < 10 {
        (value + '0' as u32) as char
    } else {
        (value - 10 + 'a' as u32) as char
    }
}

/// Hexadecimal digits of a value without leading zeroes.
pub open spec fn hex_digits(value: nat) -> Seq<char>
    decreases value,
{
    if value < 16 {
        seq![digit_char(value as int)]
    } else {
        hex_digits(value / 16).push(digit_char((value % 16) as int))
    }
}

/// The canonical quantity of a value.
pub open spec fn quantity_text(value: u64) -> Seq<char> {
    seq!['0', 'x'] + hex_digits(value as nat)
}

fn digit_text(value: u64) -> (r: &'static str)
    requires
        value < 16,
    ensures
        r@ == seq![digit_char(value as int)],
{
    proof {
        reveal_strlit("0");
        reveal_strlit("1");
        reveal_strlit("2");
        reveal_strlit("3");
        reveal_strlit("4");
        reveal_strlit("5");
        reveal_strlit("6");
        reveal_strlit("7");
        reveal_strlit("8");
        reveal_strlit("9");
        reveal_strlit("a");
        reveal_strlit("b");
        reveal_strlit("c");
        reveal_strlit("d");
        reveal_strlit("e");
        reveal_strlit("f");
    }
    let text = match value {
        0 => "0",
        1 => "1",
        2 => "2",
        3 => "3",
        4 => "4",
        5 => "5",
        6 => "6",
        7 => "7",
        8 => "8",
        9 => "9",
        10 => "a",
        11 => "b",
        12 => "c",
        13 => "d",
        14 => "e",
        _ => "f",
    };
    assert(text@ =~= seq![digit_char(value as int)]);
    text
}

fn append_hex(text: &mut String, value: u64)
    ensures
        final(text)@ == old(text)@ + hex_digits(value as nat),
    decreases value,
{
    if value < 16 {
        text.append(digit_text(value));
    } else {
        append_hex(text, value / 16);
        let ghost held = text@;
        text.append(digit_text(value % 16));
        assert(text@ =~= old(text)@ + hex_digits((value / 16) as nat).push(
            digit_char((value % 16) as int),
        ));
    }
}

/// Formats an EVM hex quantity without leading zeroes.
pub fn format_quantity(value: u64) -> (r: String)
    ensures
        r@ == quantity_text(value),
{
    proof {
        reveal_strlit("0x");
    }
    let mut text = "0x".to_owned();
    assert(text@ =~= seq!['0', 'x']);
    append_hex(&mut text, value);
    text
}

proof fn lemma_digit_round_trip(value: int)
    requires
        0 <= value < 16,
    ensures
        digit_value(digit_char(value)) == Some(value as nat),
{
}

proof fn lemma_hex_round_trip(value: nat, text: Seq<char>, start: int)
    requires
        0 <= start,
        start + hex_digits(value).len() <= text.len(),
        forall|i: int|
            0 <= i < hex_digits(value).len() ==> text[start + i] == #[trigger] hex_digits(value)[i],
    ensures
        hex_digits(value).len() >= 1,
        hex_prefix(text, start, hex_digits(value).len() as int) == Some(value),
        value > 0 ==> hex_digits(value)[0] != '0',
    decreases value,
{
    if value < 16 {
        lemma_digit_round_trip(value as int);
        reveal_with_fuel(hex_prefix, 2);
        assert(text[start + 0] == hex_digits(value)[0]);
    } else {
        let high = hex_digits(value / 16);
        assert forall|i: int| 0 <= i < high.len() implies text[start + i] == #[trigger] high[i] by {
            assert(hex_digits(value)[i] == high[i]);
        }
        lemma_hex_round_trip(value / 16, text, start);
        lemma_digit_round_trip((value % 16) as int);
        assert(text[start + high.len()] == hex_digits(value)[high.len() as int]);
        assert(hex_digits(value)[0] == high[0]);
    }
}

/// Parsing a formatted quantity gives back the value, and the only canonical quantity that begins
/// with the digit zero is that of zero.
pub proof fn parsing_undoes_formatting(value: u64)
    ensures
        quantity_value(quantity_text(value)) == Some(value),
        value > 0 ==> quantity_text(value)[2] != '0',
{
    let text = quantity_text(value);
    let digits = hex_digits(value as nat);
    assert forall|i: int| 0 <= i < digits.len() implies text[2 + i] == #[trigger] digits[i] by {}
    lemma_hex_round_trip(value as nat, text, 2);
    assert(text[2] == digits[0]);
}

impl RpcHeader {
    /// The block that a header denotes, or the first quantity that is malformed.
    pub open spec fn denoted(self) -> Result<BlockRef, ProviderError> {
        match (
            quantity_value(self.number@),
            quantity_value(self.timestamp@),
            quantity_value(self.gas_limit@),
        ) {
            (None, _, _) => Err(ProviderError::Quantity { field: "block.number" }),
            (_, None, _) => Err(ProviderError::Quantity { field: "block.timestamp" }),
            (_, _, None) => Err(ProviderError::Quantity { field: "block.gas_limit" }),
            (Some(number), Some(timestamp), Some(gas_limit)) => Ok(
                BlockRef {
                    number,
                    hash: self.hash,
                    parent_hash: self.parent_hash,
                    timestamp,
                    gas_limit,
                },
            ),
        }
    }

    /// Reads the exact block identity of a header.
    pub fn into_block_ref(&self) -> (r: Result<BlockRef, ProviderError>)
        ensures
            r == self.denoted(),
    {
        let number: u64 = parse_quantity("block.number", self.number.as_str())?;
        let timestamp: u64 = parse_quantity("block.timestamp", self.timestamp.as_str())?;
        let gas_limit: u64 = parse_quantity("block.gas_limit", self.gas_limit.as_str())?;
        Ok(
            BlockRef {
                number,
                hash: self.hash,
                parent_hash: self.parent_hash,
                timestamp,
                gas_limit,
            },
        )
    }
}

/// The block of an optional header, which must be present.
pub open spec fn header_block(header: Option<RpcHeader>) -> Result<BlockRef, ProviderError> {
    match header {
        Some(value) => value.denoted(),
        None => Err(ProviderError::MissingBlock),
    }
}

/// Reads the block of an optional header response.
pub fn require_block(header: Option<RpcHeader>) -> (r: Result<BlockRef, ProviderError>)
    ensures
        r == header_block(header),
{
    match header {
        Some(value) => value.into_block_ref(),
        None => Err(ProviderError::MissingBlock),
    }
}

/// Refuses a provider without a role.
pub fn require_role(name: &String, roles: &OrderedSet<ProviderRole>, role: ProviderRole) -> (r:
    Result<(), ProviderError>)
    ensures
        r == if has_key(roles@, role) {
            Ok(())
        } else {
            Err(ProviderError::MissingRole { provider: *name, role })
        },
{
    if roles.contains(role) {
        Ok(())
    } else {
        Err(ProviderError::MissingRole { provider: name.clone(), role })
    }
}

/// Refuses a provider that owns none of the acceptable roles; the failure names the first of them,
/// or the read role where none is acceptable.
pub fn require_any_role(
    name: &String,
    roles: &OrderedSet<ProviderRole>,
    acceptable: &Vec<ProviderRole>,
) -> (r: Result<(), ProviderError>)
    ensures
        r == if exists|i: int|
            0 <= i < acceptable@.len() && has_key(roles@, #[trigger] acceptable@[i]) {
            Ok(())
        } else {
            Err(
                ProviderError::MissingRole {
                    provider: *name,
                    role: if acceptable@.len() > 0 {
                        acceptable@[0]
                    } else {
                        ProviderRole::Read
                    },
                },
            )
        },
{
    let mut i: usize = 0;
    while i < acceptable.len()
        invariant
            i <= acceptable.len(),
            forall|j: int| 0 <= j < i ==> !has_key(roles@, #[trigger] acceptable@[j]),
        decreases acceptable.len() - i,
    {
        if roles.contains(acceptable[i]) {
            assert(has_key(roles@, acceptable@[i as int]));
            return Ok(());
        }
        i = i + 1;
    }
    let role = if acceptable.len() > 0 {
        acceptable[0]
    } else {
        ProviderRole::Read
    };
    Err(ProviderError::MissingRole { provider: name.clone(), role })
}

/// Refuses text that is no HTTP endpoint.
pub fn check_endpoint(raw: &str) -> (r: Result<(), ProviderError>)
    ensures
        r == if url_parts(raw@) matches Some(parts) && (parts.0 == "http"@ || parts.0 == "https"@) {
            Ok(())
        } else {
            Err(ProviderError::Endpoint)
        },
{
    if is_http_endpoint(raw) {
        Ok(())
    } else {
        Err(ProviderError::Endpoint)
    }
}

/// JSON-RPC code of an unsupported method.
pub const METHOD_NOT_FOUND: i64 = -32_601;

/// Outcome of one JSON-RPC exchange before its result is read.
pub open spec fn envelope_outcome(
    method: &'static str,
    id: u64,
    version: Seq<char>,
    returned_id: u64,
    error: Option<(i64, RpcErrorCategory)>,
) -> Result<(), ProviderError> {
    if version != "2.0"@ || returned_id != id {
        Err(ProviderError::MalformedResponse { method })
    } else {
        match error {
            None => Ok(()),
            Some((code, category)) => if code == METHOD_NOT_FOUND {
                Err(ProviderError::MethodUnsupported { method })
            } else {
                Err(ProviderError::Rpc { method, code, category })
            },
        }
    }
}

/// Judges a JSON-RPC envelope: version and identifier first, then its error.
pub fn check_envelope(
    method: &'static str,
    id: u64,
    version: &String,
    returned_id: u64,
    error: Option<(i64, RpcErrorCategory)>,
) -> (r: Result<(), ProviderError>)
    ensures
        r == envelope_outcome(method, id, version@, returned_id, error),
{
    let supported = "2.0".to_owned();
    if *version != supported || returned_id != id {
        return Err(ProviderError::MalformedResponse { method });
    }
    match error {
        None => Ok(()),
        Some((code, category)) => {
            if code == METHOD_NOT_FOUND {
                Err(ProviderError::MethodUnsupported { method })
            } else {
                Err(ProviderError::Rpc { method, code, category })
            }
        },
    }
}

/// Startup capability probe inputs with no secret values.
#[derive(Debug)]
pub struct CapabilityProbe {
    /// Read-only target used for code/storage/call/estimate checks.
    pub read_target: Address,
    /// Approved read calldata for `eth_call` and gas capability checks.
    pub read_calldata: Vec<u8>,
    /// Configured dedicated signer.
    pub signer: Address,
    /// Known transaction hash; null results still establish method support.
    pub known_transaction_hash: B256,
}

/// Results of required startup RPC capability calls.
#[derive(Clone, Copy, Debug, PartialEq, Eq, Structural)]
pub struct ProviderCapabilities {
    /// Returned chain ID.
    pub chain_id: u64,
    /// Latest head.
    pub latest_head: BlockRef,
    /// Block receipts method is available.
    pub block_receipts: bool,
    /// One-block log query succeeded.
    pub logs: bool,
    /// Read-only call succeeded.
    pub call: bool,
    /// Gas estimate succeeded.
    pub estimate_gas: bool,
    /// Code read succeeded.
    pub code: bool,
    /// Storage read succeeded.
    pub storage: bool,
    /// Transaction-count read succeeded.
    pub transaction_count: bool,
    /// Transaction lookup method succeeded.
    pub transaction_lookup: bool,
    /// Receipt lookup method succeeded.
    pub receipt_lookup: bool,
    /// HyperEVM signer is confirmed not to use big blocks.
    pub signer_uses_big_blocks: bool,
}

/// Startup probe progress; each state names the request that is due.
#[derive(Clone, Copy, Debug, PartialEq, Eq, Structural)]
pub enum ProbeState {
    /// `eth_chainId`.
    ChainId,
    /// `eth_getBlockByNumber` of the latest block.
    LatestHeader {
        /// Confirmed chain ID.
        chain_id: u64,
    },
    /// `eth_getBlockReceipts` of the latest block.
    BlockReceipts {
        /// Confirmed chain ID.
        chain_id: u64,
        /// Latest head.
        head: BlockRef,
    },
    /// One of the method checks, in order: logs, call, gas estimate, code, storage, transaction
    /// count, transaction lookup, receipt lookup.
    Method {
        /// Confirmed chain ID.
        chain_id: u64,
        /// Latest head.
        head: BlockRef,
        /// Whether block receipts are supported.
        block_receipts: bool,
        /// Number of method checks that succeeded.
        passed: u8,
    },
    /// `eth_usingBigBlocks` of the signer.
    SignerLane {
        /// Confirmed chain ID.
        chain_id: u64,
        /// Latest head.
        head: BlockRef,
        /// Whether block receipts are supported.
        block_receipts: bool,
    },
}

/// Number of method checks between block receipts and the signer lane.
pub const METHOD_CHECKS: u8 = 8;

/// Reply to the request that a probe state names.
#[derive(Debug)]
pub enum ProbeReply {
    /// A quantity.
    Quantity(String),
    /// An optional header.
    Header(Option<RpcHeader>),
    /// Success whose value is not used.
    Succeeded,
    /// A flag.
    Flag(bool),
    /// A failure.
    Failed(ProviderError),
}

/// What follows a reply: the next request or the probed capabilities.
#[derive(Clone, Copy, Debug, PartialEq, Eq, Structural)]
pub enum ProbeStep {
    /// The next request is due.
    Continue(ProbeState),
    /// Every check succeeded.
    Complete(ProviderCapabilities),
}

/// Capabilities of a provider whose every required check succeeded.
pub open spec fn probed(
    chain_id: u64,
    latest_head: BlockRef,
    block_receipts: bool,
) -> ProviderCapabilities {
    ProviderCapabilities {
        chain_id,
        latest_head,
        block_receipts,
        logs: true,
        call: true,
        estimate_gas: true,
        code: true,
        storage: true,
        transaction_count: true,
        transaction_lookup: true,
        receipt_lookup: true,
        signer_uses_big_blocks: false,
    }
}

/// What follows a reply in a probe state.
pub open spec fn probe_step(
    state: ProbeState,
    expected_chain_id: u64,
    reply: ProbeReply,
) -> Result<ProbeStep, ProviderError> {
    match (state, reply) {
        (ProbeState::BlockReceipts { chain_id, head }, ProbeReply::Failed(error)) => match error {
            ProviderError::MethodUnsupported { .. } => Ok(
                ProbeStep::Continue(
                    ProbeState::Method { chain_id, head, block_receipts: false, passed: 0 },
                ),
            ),
            _ => Err(error),
        },
        (_, ProbeReply::Failed(error)) => Err(error),
        (ProbeState::ChainId, ProbeReply::Quantity(text)) => match quantity_value(text@) {
            None => Err(ProviderError::Quantity { field: "eth_chainId" }),
            Some(observed) => if observed != expected_chain_id {
                Err(ProviderError::ChainMismatch { expected: expected_chain_id, observed })
            } else {
                Ok(ProbeStep::Continue(ProbeState::LatestHeader { chain_id: observed }))
            },
        },
        (ProbeState::LatestHeader { chain_id }, ProbeReply::Header(header)) => match header_block(
            header,
        ) {
            Err(error) => Err(error),
            Ok(head) => Ok(ProbeStep::Continue(ProbeState::BlockReceipts { chain_id, head })),
        },
        (ProbeState::BlockReceipts { chain_id, head }, ProbeReply::Succeeded) => Ok(
            ProbeStep::Continue(
                ProbeState::Method { chain_id, head, block_receipts: true, passed: 0 },
            ),
        ),
        (ProbeState::Method { chain_id, head, block_receipts, passed }, ProbeReply::Succeeded) => {
            if passed + 1 < METHOD_CHECKS {
                Ok(
                    ProbeStep::Continue(
                        ProbeState::Method {
                            chain_id,
                            head,
                            block_receipts,
                            passed: (passed + 1) as u8,
                        },
                    ),
                )
            } else {
                Ok(ProbeStep::Continue(ProbeState::SignerLane { chain_id, head, block_receipts }))
            }
        },
        (ProbeState::SignerLane { chain_id, head, block_receipts }, ProbeReply::Flag(big)) => {
            if big {
                Err(ProviderError::SignerUsesBigBlocks)
            } else {
                Ok(ProbeStep::Complete(probed(chain_id, head, block_receipts)))
            }
        },
        _ => Err(ProviderError::MalformedResponse { method: "startup probe" }),
    }
}

/// Decides what follows a reply to the request that a probe state names. A reply of the wrong shape
/// is a malformed response.
pub fn advance_probe(state: ProbeState, expected_chain_id: u64, reply: ProbeReply) -> (r: Result<
    ProbeStep,
    ProviderError,
>)
    ensures
        r == probe_step(state, expected_chain_id, reply),
{
    match (state, reply) {
        (ProbeState::BlockReceipts { chain_id, head }, ProbeReply::Failed(error)) => match error {
            ProviderError::MethodUnsupported { .. } => Ok(
                ProbeStep::Continue(
                    ProbeState::Method { chain_id, head, block_receipts: false, passed: 0 },
                ),
            ),
            other => Err(other),
        },
        (_, ProbeReply::Failed(error)) => Err(error),
        (ProbeState::ChainId, ProbeReply::Quantity(text)) => {
            let observed: u64 = parse_quantity("eth_chainId", text.as_str())?;
            if observed != expected_chain_id {
                Err(ProviderError::ChainMismatch { expected: expected_chain_id, observed })
            } else {
                Ok(ProbeStep::Continue(ProbeState::LatestHeader { chain_id: observed }))
            }
        },
        (ProbeState::LatestHeader { chain_id }, ProbeReply::Header(header)) => {
            let head = require_block(header)?;
            Ok(ProbeStep::Continue(ProbeState::BlockReceipts { chain_id, head }))
        },
        (ProbeState::BlockReceipts { chain_id, head }, ProbeReply::Succeeded) => Ok(
            ProbeStep::Continue(
                ProbeState::Method { chain_id, head, block_receipts: true, passed: 0 },
            ),
        ),
        (ProbeState::Method { chain_id, head, block_receipts, passed }, ProbeReply::Succeeded) => {
            if passed < METHOD_CHECKS - 1 {
                Ok(
                    ProbeStep::Continue(
                        ProbeState::Method { chain_id, head, block_receipts, passed: passed + 1 },
                    ),
                )
            } else {
                Ok(ProbeStep::Continue(ProbeState::SignerLane { chain_id, head, block_receipts }))
            }
        },
        (ProbeState::SignerLane { chain_id, head, block_receipts }, ProbeReply::Flag(big)) => {
            if big {
                Err(ProviderError::SignerUsesBigBlocks)
            } else {
                Ok(
                    ProbeStep::Complete(
                        ProviderCapabilities {
                            chain_id,
                            latest_head: head,
                            block_receipts,
                            logs: true,
                            call: true,
                            estimate_gas: true,
                            code: true,
                            storage: true,
                            transaction_count: true,
                            transaction_lookup: true,
                            receipt_lookup: true,
                            signer_uses_big_blocks: false,
                        },
                    ),
                )
            }
        },
        _ => Err(ProviderError::MalformedResponse { method: "startup probe" }),
    }
}

/// Whether a probe state belongs to the expected chain.
pub open spec fn probe_on_chain(state: ProbeState, expected_chain_id: u64) -> bool {
    match state {
        ProbeState::ChainId => true,
        ProbeState::LatestHeader { chain_id } => chain_id == expected_chain_id,
        ProbeState::BlockReceipts { chain_id, .. } => chain_id == expected_chain_id,
        ProbeState::Method { chain_id, .. } => chain_id == expected_chain_id,
        ProbeState::SignerLane { chain_id, .. } => chain_id == expected_chain_id,
    }
}

/// Every step of a probe stays on the expected chain, and a completed probe reports that chain and
/// a signer on the fast-block lane.
pub proof fn probe_never_leaves_the_chain(
    state: ProbeState,
    expected_chain_id: u64,
    reply: ProbeReply,
)
    requires
        probe_on_chain(state, expected_chain_id),
    ensures
        match probe_step(state, expected_chain_id, reply) {
            Ok(ProbeStep::Continue(next)) => probe_on_chain(next, expected_chain_id),
            Ok(ProbeStep::Complete(capabilities)) => capabilities.chain_id == expected_chain_id
                && !capabilities.signer_uses_big_blocks,
            Err(_) => true,
        },
{
}

} // verus!
