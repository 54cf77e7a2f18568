//! Transaction-side logic: destination validation, amount formatting and
//! parsing, priority levels, and the signature quorum tracker that decides,
//! across independent signing invocations, when a multisig transaction has
//! collected enough co-signatures to be submitted.

use vstd::prelude::*;

use crate::config::Network;
use crate::decimal::{
    dec_pad, dec_str, is_canon_digits, is_digit_char, lemma_dec_pad_of_dec_val, lemma_dec_pad_wf,
    lemma_dec_str_len_le, lemma_dec_str_of_dec_val, lemma_dec_str_wf, lemma_dec_val_of_dec_pad,
    lemma_dec_val_of_dec_str, lemma_pow10_12, parse_digits, u64_to_dec, u64_to_dec_pad,
};
use crate::error::TransactionError;

verus! {

use vstd::string::StringExecFns;
use vstd::string::StrSliceExecFns;

/// Atomic units per XMR: one XMR is a million million piconero.
pub const PICONERO_PER_XMR: u64 = 1_000_000_000_000;

/// A destination for an outgoing transfer.
#[derive(Debug, Clone)]
pub struct Destination {
    /// Recipient Monero address.
    pub address: String,
    /// Amount in atomic units.
    pub amount: u64,
}

/// Priority level for transaction fee estimation.
#[derive(Debug, Clone, Copy, PartialEq, Eq, Structural)]
pub enum Priority {
    Default,
    Low,
    Medium,
    High,
}

impl Priority {
    /// The numeric level the wallet service expects for this priority.
    pub fn level(&self) -> (r: u32)
        ensures
            r == self.spec_level(),
    {
        match self {
            Priority::Default => 0,
            Priority::Low => 1,
            Priority::Medium => 2,
            Priority::High => 3,
        }
    }

    /// The numeric level the wallet service expects for this priority.
    pub open spec fn spec_level(&self) -> u32 {
        match self {
            Priority::Default => 0,
            Priority::Low => 1,
            Priority::Medium => 2,
            Priority::High => 3,
        }
    }

    /// The priority a numeric command-line level selects; anything outside
    /// the three named levels falls back to the default.
    pub fn from_level(level: u32) -> (r: Priority)
        ensures
            level == 1 ==> r == Priority::Low,
            level == 2 ==> r == Priority::Medium,
            level == 3 ==> r == Priority::High,
            !(1 <= level <= 3) ==> r == Priority::Default,
    {
        if level == 1 {
            Priority::Low
        } else if level == 2 {
            Priority::Medium
        } else if level == 3 {
            Priority::High
        } else {
            Priority::Default
        }
    }
}

/// An unsigned multisig transaction awaiting co-signatures.
#[derive(Debug, Clone)]
pub struct UnsignedMultisigTx {
    /// Hex-encoded unsigned transaction data from the wallet RPC.
    pub tx_data_hex: String,
    /// Transaction hash (available after construction).
    pub tx_hash: String,
    /// Fee in atomic units.
    pub fee: u64,
}

impl UnsignedMultisigTx {
    /// Assemble the record for a freshly built transaction from the fields
    /// of the wallet service's transfer response: the multisig transaction
    /// set is the blob that co-signers pass around.
    pub fn from_response(multisig_txset: String, tx_hash: String, fee: u64) -> (r:
        UnsignedMultisigTx)
        ensures
            r.tx_data_hex@ == multisig_txset@,
            r.tx_hash@ == tx_hash@,
            r.fee == fee,
    {
        UnsignedMultisigTx { tx_data_hex: multisig_txset, tx_hash, fee }
    }
}

/// A partially signed multisig transaction, with the running signature
/// count that quorum tracking depends on.
#[derive(Debug, Clone)]
pub struct PartiallySignedTx {
    /// Hex-encoded transaction data with at least one co-signature applied.
    pub tx_data_hex: String,
    /// Transaction hash.
    pub tx_hash: String,
    /// Number of signatures collected so far.
    pub signatures_count: u32,
    /// Number of signatures required to broadcast.
    pub signatures_required: u32,
}

/// Mathematical view of [`PartiallySignedTx`].
pub struct PartialTxV {
    pub tx_data_hex: Seq<char>,
    pub tx_hash: Seq<char>,
    pub signatures_count: u32,
    pub signatures_required: u32,
}

impl View for PartiallySignedTx {
    type V = PartialTxV;

    open spec fn view(&self) -> PartialTxV {
        PartialTxV {
            tx_data_hex: self.tx_data_hex@,
            tx_hash: self.tx_hash@,
            signatures_count: self.signatures_count,
            signatures_required: self.signatures_required,
        }
    }
}

/// Field-wise equality of partially signed transaction views.
pub open spec fn partial_tx_eq(a: PartialTxV, b: PartialTxV) -> bool {
    &&& a.tx_data_hex == b.tx_data_hex
    &&& a.tx_hash == b.tx_hash
    &&& a.signatures_count == b.signatures_count
    &&& a.signatures_required == b.signatures_required
}

impl PartialEq for PartiallySignedTx {
    fn eq(&self, other: &PartiallySignedTx) -> (r: bool) {
        self.tx_data_hex == other.tx_data_hex && self.tx_hash == other.tx_hash
            && self.signatures_count == other.signatures_count && self.signatures_required
            == other.signatures_required
    }
}

impl vstd::std_specs::cmp::PartialEqSpecImpl for PartiallySignedTx {
    open spec fn obeys_eq_spec() -> bool {
        true
    }

    open spec fn eq_spec(&self, other: &PartiallySignedTx) -> bool {
        partial_tx_eq(self@, other@)
    }
}

/// Whether a tracked signature count meets an M-signature quorum.
pub open spec fn quorum_reached(count: u32, required: u32) -> bool {
    count >= required
}

impl PartiallySignedTx {
    /// Whether this transaction has collected enough co-signatures to be
    /// submitted: true exactly when the tracked count has reached the
    /// required quorum.
    pub fn ready_to_submit(&self) -> (r: bool)
        ensures
            r == quorum_reached(self.signatures_count, self.signatures_required),
    {
        self.signatures_count >= self.signatures_required
    }
}

/// The outcome of applying this participant's signature: the updated
/// transaction record and whether it may now be submitted.
#[derive(Debug, Clone)]
pub struct SignatureOutcome {
    /// The transaction record after this signature, carrying the updated
    /// blob and the new running count.
    pub tx: PartiallySignedTx,
    /// Whether the tracked count has reached the required quorum.
    pub ready_to_submit: bool,
}

/// Apply this participant's signature to the quorum ledger of a multisig
/// transaction.
///
/// Each signing invocation is a separate process run, so the current count
/// cannot come from memory: the caller supplies the count persisted with
/// the transaction blob, or `None` when it cannot be determined, which is
/// an error rather than a silent assumption of zero. On success the count
/// grows by one and readiness is reported exactly when the new count
/// reaches the required quorum.
pub fn apply_signature(
    prior_count: Option<u32>,
    required: u32,
    tx_data_hex: String,
    tx_hash: String,
) -> (r: Result<SignatureOutcome, TransactionError>)
    ensures
        match r {
            Ok(outcome) => match prior_count {
                Some(c) => {
                    &&& c < u32::MAX
                    &&& outcome.tx.signatures_count == c + 1
                    &&& outcome.tx.signatures_required == required
                    &&& outcome.tx.tx_data_hex@ == tx_data_hex@
                    &&& outcome.tx.tx_hash@ == tx_hash@
                    &&& outcome.ready_to_submit == quorum_reached(
                        outcome.tx.signatures_count,
                        required,
                    )
                },
                None => false,
            },
            Err(e) => {
                &&& (prior_count is None || prior_count == Some(u32::MAX))
                &&& e matches TransactionError::SigningFailed(m)
                &&& (prior_count is None ==> m@
                    == "the current signature count cannot be determined"@)
                &&& (prior_count is Some ==> m@ == "signature count out of range"@)
            },
        },
{
    match prior_count {
        Option::None => Err(TransactionError::SigningFailed(String::from_str(
            "the current signature count cannot be determined",
        ))),
        Option::Some(c) => {
            if c == u32::MAX {
                Err(TransactionError::SigningFailed(String::from_str(
                    "signature count out of range",
                )))
            } else {
                let count = c + 1;
                let ready = count >= required;
                Ok(SignatureOutcome {
                    tx: PartiallySignedTx {
                        tx_data_hex,
                        tx_hash,
                        signatures_count: count,
                        signatures_required: required,
                    },
                    ready_to_submit: ready,
                })
            }
        },
    }
}

/// Gate submission on the quorum: succeed exactly when the tracked count
/// has reached the required number of signatures.
pub fn check_quorum(tx: &PartiallySignedTx) -> (r: Result<(), TransactionError>)
    ensures
        match r {
            Ok(()) => quorum_reached(tx.signatures_count, tx.signatures_required),
            Err(e) => {
                &&& !quorum_reached(tx.signatures_count, tx.signatures_required)
                &&& e matches TransactionError::InsufficientSignatures { have, need } && have
                    == tx.signatures_count && need == tx.signatures_required
            },
        },
{
    if tx.signatures_count >= tx.signatures_required {
        Ok(())
    } else {
        Err(TransactionError::InsufficientSignatures {
            have: tx.signatures_count,
            need: tx.signatures_required,
        })
    }
}

/// The result of submitting a fully signed transaction to the network.
#[derive(Debug, Clone)]
pub struct SubmitResult {
    /// Transaction hash as confirmed by the daemon.
    pub tx_hash: String,
}

/// The first entry of a transaction hash list, or the empty string when
/// the wallet service returned none.
pub fn first_or_empty(list: &Vec<String>) -> (r: String)
    ensures
        list@.len() > 0 ==> r == list@[0],
        list@.len() == 0 ==> r@ == Seq::<char>::empty(),
{
    if list.len() > 0 {
        list[0].clone()
    } else {
        String::new()
    }
}

/// Verify that the wallet can cover an amount before a transfer is
/// attempted: succeed exactly when the available balance is sufficient.
pub fn check_balance(have: u64, need: u64) -> (r: Result<(), TransactionError>)
    ensures
        match r {
            Ok(()) => have >= need,
            Err(e) => {
                &&& have < need
                &&& e matches TransactionError::InsufficientBalance { need: n, have: h } && n
                    == need && h == have
            },
        },
{
    if have >= need {
        Ok(())
    } else {
        Err(TransactionError::InsufficientBalance { need, have })
    }
}

/// Confirmed and pending balance, in atomic units.
#[derive(Debug, Clone)]
pub struct Balance {
    /// Confirmed balance in atomic units.
    pub balance: u64,
    /// Unconfirmed (pending) balance in atomic units.
    pub unlocked_balance: u64,
}

// ── Address validation ──────────────────────────────────────────────────

/// The first character a valid address carries on the given network.
pub open spec fn expected_prefix(network: Network) -> char {
    match network {
        Network::Mainnet => '4',
        Network::Testnet => '9',
        Network::Stagenet => '9',
    }
}

/// Whether an address has the right prefix and one of the two accepted
/// lengths (95 for standard, 106 for integrated) for the network.
pub open spec fn spec_address_valid(s: Seq<char>, network: Network) -> bool {
    &&& s.len() > 0
    &&& s[0] == expected_prefix(network)
    &&& (s.len() == 95 || s.len() == 106)
}

/// The message reported for a wrong address prefix on the given network.
pub open spec fn prefix_err_msg(network: Network) -> Seq<char> {
    "address should start with '"@ + seq![expected_prefix(network)] + "' for "@
        + network.spec_name()
}

/// The message reported for a wrong address length.
pub open spec fn length_err_msg(len: nat) -> Seq<char> {
    "invalid address length: "@ + dec_str(len) + " (expected 95 for standard or 106 for integrated)"@
}

/// Validate that a Monero address has the expected prefix (`4` on mainnet,
/// `9` on testnet and stagenet) and one of the two accepted lengths, 95 or
/// 106 characters; no other length passes. Enforced before any destination
/// is handed to the wallet service.
pub fn validate_address(address: &str, network: Network) -> (r: Result<(), TransactionError>)
    ensures
        match r {
            Ok(()) => spec_address_valid(address@, network),
            Err(e) => {
                &&& !spec_address_valid(address@, network)
                &&& e matches TransactionError::InvalidAddress(m)
                &&& (address@.len() == 0 || address@[0] != expected_prefix(network) ==> m@
                    == prefix_err_msg(network))
                &&& (address@.len() > 0 && address@[0] == expected_prefix(network) ==> m@
                    == length_err_msg(address@.len()))
            },
        },
{
    let len = address.unicode_len();
    let prefix_ok = if len == 0 {
        false
    } else {
        let c = address.get_char(0);
        match network {
            Network::Mainnet => c == '4',
            Network::Testnet => c == '9',
            Network::Stagenet => c == '9',
        }
    };
    if !prefix_ok {
        let digit = match network {
            Network::Mainnet => "4",
            Network::Testnet => "9",
            Network::Stagenet => "9",
        };
        proof {
            reveal_strlit("4");
            reveal_strlit("9");
            assert(digit@ =~= seq![expected_prefix(network)]);
        }
        let msg = String::from_str("address should start with '").concat(digit).concat(
            "' for ",
        ).concat(network.name());
        proof {
            assert(msg@ =~= prefix_err_msg(network));
        }
        Err(TransactionError::InvalidAddress(msg))
    } else if len != 95 && len != 106 {
        let len_str = u64_to_dec(len as u64);
        let msg = String::from_str("invalid address length: ").concat(len_str.as_str()).concat(
            " (expected 95 for standard or 106 for integrated)",
        );
        proof {
            assert(msg@ =~= length_err_msg(address@.len()));
        }
        Err(TransactionError::InvalidAddress(msg))
    } else {
        Ok(())
    }
}

/// Validate every destination of a transfer before any call to the wallet
/// service: succeed exactly when each destination address passes
/// [`validate_address`] for the network.
pub fn validate_destinations(destinations: &Vec<Destination>, network: Network) -> (r: Result<
    (),
    TransactionError,
>)
    ensures
        match r {
            Ok(()) => forall|i: int|
                0 <= i < destinations@.len() ==> spec_address_valid(
                    #[trigger] destinations@[i].address@,
                    network,
                ),
            Err(e) => {
                &&& exists|i: int|
                    0 <= i < destinations@.len() && !spec_address_valid(
                        #[trigger] destinations@[i].address@,
                        network,
                    )
                &&& e matches TransactionError::InvalidAddress(_)
            },
        },
{
    let mut i: usize = 0;
    while i < destinations.len()
        invariant
            i <= destinations@.len(),
            forall|j: int|
                0 <= j < i ==> spec_address_valid(#[trigger] destinations@[j].address@, network),
        decreases destinations@.len() - i,
    {
        match validate_address(destinations[i].address.as_str(), network) {
            Ok(()) => {},
            Err(e) => {
                return Err(e);
            },
        }
        i = i + 1;
    }
    Ok(())
}

// ── Amount formatting ───────────────────────────────────────────────────

/// The rendering of an atomic-unit amount as XMR: the whole part in
/// canonical decimal, a dot, and exactly twelve fractional digits.
pub open spec fn xmr_str(piconero: u64) -> Seq<char> {
    dec_str((piconero / PICONERO_PER_XMR) as nat) + seq!['.'] + dec_pad(
        (piconero % PICONERO_PER_XMR) as nat,
        12,
    )
}

/// Format an atomic-unit amount as a human-readable XMR string, with
/// exactly twelve fractional digits.
pub fn format_xmr(piconero: u64) -> (r: String)
    ensures
        r@ == xmr_str(piconero),
{
    let whole = piconero / PICONERO_PER_XMR;
    let frac = piconero % PICONERO_PER_XMR;
    let s = u64_to_dec(whole).concat(".").concat(u64_to_dec_pad(frac, 12).as_str());
    proof {
        reveal_strlit(".");
        assert(s@ =~= xmr_str(piconero));
    }
    s
}

/// Structure of a rendered amount: a one- to eight-digit whole part, a
/// single dot, then exactly twelve fractional digits.
proof fn lemma_xmr_str_shape(p: u64)
    ensures
        ({
            let w = dec_str((p / PICONERO_PER_XMR) as nat).len() as int;
            let t = xmr_str(p);
            &&& 1 <= w <= 8
            &&& t.len() == w + 13
            &&& t[w] == '.'
            &&& t.subrange(0, w) =~= dec_str((p / PICONERO_PER_XMR) as nat)
            &&& t.subrange(w + 1, t.len() as int) =~= dec_pad((p % PICONERO_PER_XMR) as nat, 12)
            &&& is_canon_digits(t.subrange(0, w))
            &&& forall|j: int| 0 <= j < t.len() && j != w ==> is_digit_char(#[trigger] t[j])
        }),
{
    let whole = (p / PICONERO_PER_XMR) as nat;
    let frac = (p % PICONERO_PER_XMR) as nat;
    let w = dec_str(whole).len() as int;
    let t = xmr_str(p);
    lemma_dec_str_wf(whole);
    lemma_dec_pad_wf(frac, 12);
    lemma_pow10_12();
    assert(whole < 100_000_000) by {
        vstd::arithmetic::div_mod::lemma_div_is_ordered(
            p as int,
            u64::MAX as int,
            PICONERO_PER_XMR as int,
        );
    }
    lemma_dec_str_len_le(whole, 8);
    assert(t.subrange(0, w) =~= dec_str(whole));
    assert(t.subrange(w + 1, t.len() as int) =~= dec_pad(frac, 12));
    assert forall|j: int| 0 <= j < t.len() && j != w implies is_digit_char(#[trigger] t[j]) by {
        if j < w {
            assert(t[j] == dec_str(whole)[j]);
        } else {
            assert(t[j] == dec_pad(frac, 12)[j - w - 1]);
        }
    }
}

/// In a rendered amount, the first dot stands exactly after the whole
/// part, and the pieces around it are the two digit runs.
proof fn lemma_first_dot(s: Seq<char>, i: int, p: u64)
    requires
        s == xmr_str(p),
        0 <= i < s.len(),
        s[i] == '.',
        forall|j: int| 0 <= j < i ==> s[j] != '.',
    ensures
        i == dec_str((p / PICONERO_PER_XMR) as nat).len(),
        1 <= i <= 8,
        s.len() == i + 13,
        s.subrange(0, i) =~= dec_str((p / PICONERO_PER_XMR) as nat),
        s.subrange(i + 1, s.len() as int) =~= dec_pad((p % PICONERO_PER_XMR) as nat, 12),
        is_canon_digits(s.subrange(0, i)),
{
    lemma_xmr_str_shape(p);
    let w = dec_str((p / PICONERO_PER_XMR) as nat).len() as int;
    if i < w {
        assert(is_digit_char(s[i]));
        assert(false);
    }
    if i > w {
        assert(s[w] == '.');
        assert(false);
    }
}

/// Two amounts that render the same are the same: together with the
/// contract of [`format_xmr`], formatting round-trips through parsing to
/// the identical atomic value.
pub proof fn lemma_xmr_str_injective(a: u64, b: u64)
    requires
        xmr_str(a) == xmr_str(b),
    ensures
        a == b,
{
    lemma_xmr_str_shape(a);
    lemma_xmr_str_shape(b);
    lemma_pow10_12();
    let t = xmr_str(a);
    let wa = dec_str((a / PICONERO_PER_XMR) as nat).len() as int;
    let wb = dec_str((b / PICONERO_PER_XMR) as nat).len() as int;
    assert(wa == wb) by {
        if wa < wb {
            assert(is_digit_char(xmr_str(b)[wa]));
            assert(xmr_str(a)[wa] == '.');
            assert(false);
        }
        if wb < wa {
            assert(is_digit_char(xmr_str(a)[wb]));
            assert(xmr_str(b)[wb] == '.');
            assert(false);
        }
    }
    assert(dec_str((a / PICONERO_PER_XMR) as nat) =~= dec_str((b / PICONERO_PER_XMR) as nat)) by {
        assert(t.subrange(0, wa) =~= dec_str((a / PICONERO_PER_XMR) as nat));
        assert(t.subrange(0, wb) =~= dec_str((b / PICONERO_PER_XMR) as nat));
    }
    assert(a / PICONERO_PER_XMR == b / PICONERO_PER_XMR) by {
        lemma_dec_val_of_dec_str((a / PICONERO_PER_XMR) as nat);
        lemma_dec_val_of_dec_str((b / PICONERO_PER_XMR) as nat);
    }
    assert(dec_pad((a % PICONERO_PER_XMR) as nat, 12) =~= dec_pad(
        (b % PICONERO_PER_XMR) as nat,
        12,
    )) by {
        assert(t.subrange(wa + 1, t.len() as int) =~= dec_pad((a % PICONERO_PER_XMR) as nat, 12));
        assert(t.subrange(wb + 1, t.len() as int) =~= dec_pad((b % PICONERO_PER_XMR) as nat, 12));
    }
    assert(a % PICONERO_PER_XMR == b % PICONERO_PER_XMR) by {
        lemma_dec_val_of_dec_pad((a % PICONERO_PER_XMR) as nat, 12);
        lemma_dec_val_of_dec_pad((b % PICONERO_PER_XMR) as nat, 12);
    }
    assert(a == b) by {
        vstd::arithmetic::div_mod::lemma_fundamental_div_mod(a as int, PICONERO_PER_XMR as int);
        vstd::arithmetic::div_mod::lemma_fundamental_div_mod(b as int, PICONERO_PER_XMR as int);
    }
}

/// Parse an XMR amount string, the exact shape [`format_xmr`] produces,
/// back to its atomic-unit value: a whole part without leading zeros, a
/// dot, and exactly twelve fractional digits. Accepts precisely the
/// strings that some amount renders to, and recovers that amount.
pub fn parse_xmr(s: &str) -> (r: Option<u64>)
    ensures
        match r {
            Some(v) => s@ == xmr_str(v),
            None => forall|p: u64| s@ != xmr_str(p),
        },
{
    let n = s.unicode_len();
    let mut i: usize = 0;
    while i < n && s.get_char(i) != '.'
        invariant
            i <= n,
            n == s@.len(),
            forall|j: int| 0 <= j < i ==> s@[j] != '.',
        decreases n - i,
    {
        i = i + 1;
    }
    if i == n {
        proof {
            assert forall|p: u64| s@ != xmr_str(p) by {
                if s@ == xmr_str(p) {
                    lemma_xmr_str_shape(p);
                    let w = dec_str((p / PICONERO_PER_XMR) as nat).len() as int;
                    assert(s@[w] == '.');
                }
            }
        }
        return None;
    }
    if i == 0 || i > 8 || n - i != 13 {
        proof {
            assert forall|p: u64| s@ != xmr_str(p) by {
                if s@ == xmr_str(p) {
                    lemma_first_dot(s@, i as int, p);
                }
            }
        }
        return None;
    }
    let whole_v = match parse_digits(s, 0, i) {
        Option::Some(v) => v,
        Option::None => {
            proof {
                assert forall|p: u64| s@ != xmr_str(p) by {
                    if s@ == xmr_str(p) {
                        lemma_first_dot(s@, i as int, p);
                    }
                }
            }
            return None;
        },
    };
    if s.get_char(0) == '0' && i != 1 {
        proof {
            assert forall|p: u64| s@ != xmr_str(p) by {
                if s@ == xmr_str(p) {
                    lemma_first_dot(s@, i as int, p);
                    assert(s@.subrange(0, i as int)[0] == s@[0]);
                }
            }
        }
        return None;
    }
    let frac_v = match parse_digits(s, i + 1, n) {
        Option::Some(v) => v,
        Option::None => {
            proof {
                assert forall|p: u64| s@ != xmr_str(p) by {
                    if s@ == xmr_str(p) {
                        lemma_first_dot(s@, i as int, p);
                        lemma_dec_pad_wf((p % PICONERO_PER_XMR) as nat, 12);
                    }
                }
            }
            return None;
        },
    };
    if whole_v > u64::MAX / PICONERO_PER_XMR {
        proof {
            assert forall|p: u64| s@ != xmr_str(p) by {
                if s@ == xmr_str(p) {
                    lemma_first_dot(s@, i as int, p);
                    lemma_dec_val_of_dec_str((p / PICONERO_PER_XMR) as nat);
                    vstd::arithmetic::div_mod::lemma_div_is_ordered(
                        p as int,
                        u64::MAX as int,
                        PICONERO_PER_XMR as int,
                    );
                }
            }
        }
        return None;
    }
    let base = whole_v * PICONERO_PER_XMR;
    proof {
        vstd::arithmetic::mul::lemma_mul_inequality(
            whole_v as int,
            (u64::MAX / PICONERO_PER_XMR) as int,
            PICONERO_PER_XMR as int,
        );
        vstd::arithmetic::div_mod::lemma_fundamental_div_mod(u64::MAX as int, PICONERO_PER_XMR as int);
    }
    if frac_v > u64::MAX - base {
        proof {
            assert forall|p: u64| s@ != xmr_str(p) by {
                if s@ == xmr_str(p) {
                    lemma_first_dot(s@, i as int, p);
                    lemma_dec_val_of_dec_str((p / PICONERO_PER_XMR) as nat);
                    lemma_pow10_12();
                    lemma_dec_val_of_dec_pad((p % PICONERO_PER_XMR) as nat, 12);
                    vstd::arithmetic::div_mod::lemma_fundamental_div_mod(
                        p as int,
                        PICONERO_PER_XMR as int,
                    );
                }
            }
        }
        return None;
    }
    let v = base + frac_v;
    proof {
        lemma_pow10_12();
        assert(frac_v < PICONERO_PER_XMR);
        assert(v as int / PICONERO_PER_XMR as int == whole_v as int && v as int
            % PICONERO_PER_XMR as int == frac_v as int) by {
            vstd::arithmetic::div_mod::lemma_fundamental_div_mod_converse(
                v as int,
                PICONERO_PER_XMR as int,
                whole_v as int,
                frac_v as int,
            );
        }
        let whole_part = s@.subrange(0, i as int);
        let frac_part = s@.subrange(i as int + 1, n as int);
        assert(is_canon_digits(whole_part)) by {
            assert(whole_part[0] == s@[0]);
        }
        lemma_dec_str_of_dec_val(whole_part);
        lemma_dec_pad_of_dec_val(frac_part);
        assert(dec_str((v / PICONERO_PER_XMR) as nat) =~= whole_part);
        assert(dec_pad((v % PICONERO_PER_XMR) as nat, 12) =~= frac_part);
        assert(s@ =~= whole_part + seq![s@[i as int]] + frac_part);
        assert(s@ =~= xmr_str(v));
    }
    Some(v)
}

} // verus!
