//! The wallet setup state machine and key exchange coordination.
//!
//! Each command-line invocation is a fresh process; the only memory of how
//! far a wallet has progressed through setup is the persisted state record.
//! This module owns the valid transitions between setup states (created,
//! exchanging keys, ready) and the decisions a key exchange round requires;
//! the actual cryptography and transport live with the external wallet-RPC
//! service and are driven by unverified glue around this library.

use vstd::prelude::*;

use crate::error::WalletError;

verus! {

use vstd::string::StringExecFns;

/// Parameters of an M-of-N multisig wallet.
#[derive(Debug, Clone)]
pub struct MultisigParams {
    /// Required number of signers (M).
    pub threshold: u32,
    /// Total number of participants (N).
    pub total: u32,
    /// Human-readable wallet label.
    pub label: String,
}

/// Mathematical view of [`MultisigParams`].
pub struct ParamsV {
    pub threshold: u32,
    pub total: u32,
    pub label: Seq<char>,
}

impl View for MultisigParams {
    type V = ParamsV;

    open spec fn view(&self) -> ParamsV {
        ParamsV { threshold: self.threshold, total: self.total, label: self.label@ }
    }
}

/// Whether an (M, N) pair is a valid multisig configuration: at least one
/// required signer, no more required signers than participants, and at
/// least two participants.
pub open spec fn valid_params(threshold: u32, total: u32) -> bool {
    1 <= threshold <= total && total >= 2
}

impl MultisigParams {
    /// Validate and assemble multisig parameters. Succeeds exactly on the
    /// valid configurations; both `M = N` and `M < N` are accepted.
    pub fn new(threshold: u32, total: u32, label: String) -> (r: Result<MultisigParams, WalletError>)
        ensures
            match r {
                Ok(p) => valid_params(threshold, total) && p@ == (ParamsV {
                    threshold,
                    total,
                    label: label@,
                }),
                Err(e) => {
                    &&& !valid_params(threshold, total)
                    &&& e matches WalletError::InvalidParams(m)
                    &&& (total < 2 ==> m@ == "at least two participants are required"@)
                    &&& (total >= 2 ==> m@
                        == "threshold must be between 1 and the participant count"@)
                },
            },
    {
        if total < 2 {
            Err(WalletError::InvalidParams(String::from_str("at least two participants are required")))
        } else if threshold < 1 || threshold > total {
            Err(WalletError::InvalidParams(String::from_str(
                "threshold must be between 1 and the participant count",
            )))
        } else {
            Ok(MultisigParams { threshold, total, label })
        }
    }
}

/// The persisted coordination state of one participant's wallet.
#[derive(Debug, Clone)]
pub enum WalletState {
    /// Wallet initialized locally; no key material exchanged yet.
    Created { wallet_path: String, params: MultisigParams },
    /// At least one exchange round completed, more required.
    KeyExchangeInProgress { wallet_path: String, params: MultisigParams, round: u32 },
    /// Key exchange finished; the wallet can sign and spend.
    Ready { wallet_path: String, params: MultisigParams, address: String },
}

/// Mathematical view of [`WalletState`].
pub enum StateV {
    Created { wallet_path: Seq<char>, params: ParamsV },
    KeyExchangeInProgress { wallet_path: Seq<char>, params: ParamsV, round: u32 },
    Ready { wallet_path: Seq<char>, params: ParamsV, address: Seq<char> },
}

impl View for WalletState {
    type V = StateV;

    open spec fn view(&self) -> StateV {
        match self {
            WalletState::Created { wallet_path, params } => StateV::Created {
                wallet_path: wallet_path@,
                params: params@,
            },
            WalletState::KeyExchangeInProgress { wallet_path, params, round } => {
                StateV::KeyExchangeInProgress {
                    wallet_path: wallet_path@,
                    params: params@,
                    round: *round,
                }
            },
            WalletState::Ready { wallet_path, params, address } => StateV::Ready {
                wallet_path: wallet_path@,
                params: params@,
                address: address@,
            },
        }
    }
}

/// The outcome of one key exchange round, as interpreted from the wallet
/// service's response.
#[derive(Debug, Clone)]
pub enum KeyExchangeResult {
    /// Another round is needed; `next_info` is the blob to share with peers.
    Partial { next_info: String },
    /// The exchange finished; the wallet's address is known.
    Complete { address: String },
}

/// Mathematical view of [`KeyExchangeResult`].
pub enum OutcomeV {
    Partial { next_info: Seq<char> },
    Complete { address: Seq<char> },
}

impl View for KeyExchangeResult {
    type V = OutcomeV;

    open spec fn view(&self) -> OutcomeV {
        match self {
            KeyExchangeResult::Partial { next_info } => OutcomeV::Partial {
                next_info: next_info@,
            },
            KeyExchangeResult::Complete { address } => OutcomeV::Complete { address: address@ },
        }
    }
}

/// Creating a wallet record is allowed exactly when none exists yet.
pub open spec fn spec_create(
    existing: Option<StateV>,
    wallet_path: Seq<char>,
    params: ParamsV,
) -> Option<StateV> {
    if existing is None {
        Some(StateV::Created { wallet_path, params })
    } else {
        None
    }
}

/// One more completed round, capped so that an arbitrary number of rounds
/// can never wrap the advisory counter.
pub open spec fn next_round(round: u32) -> u32 {
    if round < u32::MAX {
        (round + 1) as u32
    } else {
        round
    }
}

/// The transition relation of the setup state machine: what one key
/// exchange outcome does to the persisted state. `None` means the
/// transition is forbidden, which happens exactly in the terminal state.
pub open spec fn spec_advance(pre: StateV, outcome: OutcomeV) -> Option<StateV> {
    match pre {
        StateV::Created { wallet_path, params } => Some(
            match outcome {
                OutcomeV::Partial { next_info } => StateV::KeyExchangeInProgress {
                    wallet_path,
                    params,
                    round: 1,
                },
                OutcomeV::Complete { address } => StateV::Ready { wallet_path, params, address },
            },
        ),
        StateV::KeyExchangeInProgress { wallet_path, params, round } => Some(
            match outcome {
                OutcomeV::Partial { next_info } => StateV::KeyExchangeInProgress {
                    wallet_path,
                    params,
                    round: next_round(round),
                },
                OutcomeV::Complete { address } => StateV::Ready { wallet_path, params, address },
            },
        ),
        StateV::Ready { .. } => None,
    }
}

impl WalletState {
    /// Whether setup has finished and the wallet can sign and spend.
    pub open spec fn spec_is_ready(&self) -> bool {
        self@ is Ready
    }

    /// Create the initial wallet record for a directory. Succeeds exactly
    /// when the directory holds no record yet; a second creation on the
    /// same directory fails with `AlreadyExists` naming the wallet path.
    pub fn create(
        existing: &Option<WalletState>,
        wallet_path: String,
        params: MultisigParams,
    ) -> (r: Result<WalletState, WalletError>)
        ensures
            match r {
                Ok(st) => existing is None && Some(st@) == spec_create(
                    spec_existing_view(existing),
                    wallet_path@,
                    params@,
                ),
                Err(e) => {
                    &&& existing is Some
                    &&& spec_create(spec_existing_view(existing), wallet_path@, params@) is None
                    &&& e matches WalletError::AlreadyExists(m)
                    &&& m@ == wallet_path@
                },
            },
    {
        match existing {
            Option::None => Ok(WalletState::Created { wallet_path, params }),
            Option::Some(_) => Err(WalletError::AlreadyExists(wallet_path)),
        }
    }

    /// Apply the outcome of one key exchange round to the current state.
    ///
    /// Valid only before setup has finished: from `Created` or
    /// `KeyExchangeInProgress`, a `Partial` outcome advances the round
    /// counter and a `Complete` outcome makes the wallet `Ready`. From
    /// `Ready` the operation always fails, whatever the outcome and however
    /// many rounds came before.
    pub fn advance_exchange(self, outcome: KeyExchangeResult) -> (r: Result<
        WalletState,
        WalletError,
    >)
        ensures
            match r {
                Ok(st) => spec_advance(self@, outcome@) == Some(st@),
                Err(e) => {
                    &&& spec_advance(self@, outcome@) is None
                    &&& self@ is Ready
                    &&& e matches WalletError::AlreadyExists(m)
                    &&& m@ == "wallet is already fully set up"@
                },
            },
    {
        match self {
            WalletState::Created { wallet_path, params } => Ok(
                match outcome {
                    KeyExchangeResult::Partial { .. } => WalletState::KeyExchangeInProgress {
                        wallet_path,
                        params,
                        round: 1,
                    },
                    KeyExchangeResult::Complete { address } => WalletState::Ready {
                        wallet_path,
                        params,
                        address,
                    },
                },
            ),
            WalletState::KeyExchangeInProgress { wallet_path, params, round } => Ok(
                match outcome {
                    KeyExchangeResult::Partial { .. } => WalletState::KeyExchangeInProgress {
                        wallet_path,
                        params,
                        round: if round < u32::MAX {
                            round + 1
                        } else {
                            round
                        },
                    },
                    KeyExchangeResult::Complete { address } => WalletState::Ready {
                        wallet_path,
                        params,
                        address,
                    },
                },
            ),
            WalletState::Ready { .. } => Err(
                WalletError::AlreadyExists(String::from_str("wallet is already fully set up")),
            ),
        }
    }

    /// Gate a transaction operation on finished setup: hand back the
    /// wallet's address when the state is `Ready`, and fail with `NotReady`
    /// from `Created` or `KeyExchangeInProgress`.
    pub fn ensure_ready(&self) -> (r: Result<String, WalletError>)
        ensures
            match r {
                Ok(address) => self@ matches StateV::Ready { address: a, .. } && address@ == a,
                Err(e) => !self.spec_is_ready() && e matches WalletError::NotReady,
            },
    {
        match self {
            WalletState::Ready { address, .. } => Ok(address.clone()),
            _ => Err(WalletError::NotReady),
        }
    }
}

/// View of an optional existing record.
pub open spec fn spec_existing_view(existing: &Option<WalletState>) -> Option<StateV> {
    match existing {
        Option::Some(st) => Some(st@),
        Option::None => None,
    }
}

/// Validate the peer info blobs handed to a key exchange round before any
/// call to the wallet service is attempted. The very first round, from a
/// freshly created wallet, needs the initial info blob of every other
/// participant, so an empty peer set is rejected there; once setup has
/// finished the round is refused outright.
pub fn check_exchange_input(state: &WalletState, peer_count: usize) -> (r: Result<
    (),
    WalletError,
>)
    ensures
        match r {
            Ok(()) => !(state@ is Ready) && !(state@ is Created && peer_count == 0),
            Err(e) => match e {
                WalletError::AlreadyExists(m) => state@ is Ready && m@
                    == "wallet is already fully set up"@,
                WalletError::InvalidParams(m) => {
                    &&& state@ is Created
                    &&& peer_count == 0
                    &&& m@ == "the first exchange round needs one info blob from every peer"@
                },
                _ => false,
            },
        },
{
    match state {
        WalletState::Ready { .. } => Err(
            WalletError::AlreadyExists(String::from_str("wallet is already fully set up")),
        ),
        WalletState::Created { .. } => {
            if peer_count == 0 {
                Err(WalletError::InvalidParams(String::from_str(
                    "the first exchange round needs one info blob from every peer",
                )))
            } else {
                Ok(())
            }
        },
        WalletState::KeyExchangeInProgress { .. } => Ok(()),
    }
}

/// Interpret the wallet service's answer to one exchange round. The
/// service reports completion by returning the wallet's address; while the
/// address is still empty, more rounds are needed and the returned blob
/// must be redistributed to the peers.
pub fn interpret_exchange_response(address: String, next_info: String) -> (r: KeyExchangeResult)
    ensures
        address@.len() > 0 ==> r@ == (OutcomeV::Complete { address: address@ }),
        address@.len() == 0 ==> r@ == (OutcomeV::Partial { next_info: next_info@ }),
{
    if address.as_str().unicode_len() > 0 {
        KeyExchangeResult::Complete { address }
    } else {
        KeyExchangeResult::Partial { next_info }
    }
}

/// Field-wise equality of parameter views.
pub open spec fn params_eq(a: ParamsV, b: ParamsV) -> bool {
    a.threshold == b.threshold && a.total == b.total && a.label == b.label
}

/// Field-wise equality of state views.
pub open spec fn state_eq(a: StateV, b: StateV) -> bool {
    match (a, b) {
        (
            StateV::Created { wallet_path: p1, params: m1 },
            StateV::Created { wallet_path: p2, params: m2 },
        ) => p1 == p2 && params_eq(m1, m2),
        (
            StateV::KeyExchangeInProgress { wallet_path: p1, params: m1, round: r1 },
            StateV::KeyExchangeInProgress { wallet_path: p2, params: m2, round: r2 },
        ) => p1 == p2 && params_eq(m1, m2) && r1 == r2,
        (
            StateV::Ready { wallet_path: p1, params: m1, address: a1 },
            StateV::Ready { wallet_path: p2, params: m2, address: a2 },
        ) => p1 == p2 && params_eq(m1, m2) && a1 == a2,
        _ => false,
    }
}

/// Field-wise equality of outcome views.
pub open spec fn outcome_eq(a: OutcomeV, b: OutcomeV) -> bool {
    match (a, b) {
        (OutcomeV::Partial { next_info: i1 }, OutcomeV::Partial { next_info: i2 }) => i1 == i2,
        (OutcomeV::Complete { address: a1 }, OutcomeV::Complete { address: a2 }) => a1 == a2,
        _ => false,
    }
}

impl PartialEq for MultisigParams {
    fn eq(&self, other: &MultisigParams) -> (r: bool) {
        self.threshold == other.threshold && self.total == other.total && self.label
            == other.label
    }
}

impl vstd::std_specs::cmp::PartialEqSpecImpl for MultisigParams {
    open spec fn obeys_eq_spec() -> bool {
        true
    }

    open spec fn eq_spec(&self, other: &MultisigParams) -> bool {
        params_eq(self@, other@)
    }
}

impl PartialEq for WalletState {
    fn eq(&self, other: &WalletState) -> (r: bool) {
        match (self, other) {
            (
                WalletState::Created { wallet_path: p1, params: m1 },
                WalletState::Created { wallet_path: p2, params: m2 },
            ) => *p1 == *p2 && *m1 == *m2,
            (
                WalletState::KeyExchangeInProgress { wallet_path: p1, params: m1, round: r1 },
                WalletState::KeyExchangeInProgress { wallet_path: p2, params: m2, round: r2 },
            ) => *p1 == *p2 && *m1 == *m2 && *r1 == *r2,
            (
                WalletState::Ready { wallet_path: p1, params: m1, address: a1 },
                WalletState::Ready { wallet_path: p2, params: m2, address: a2 },
            ) => *p1 == *p2 && *m1 == *m2 && *a1 == *a2,
            _ => false,
        }
    }
}

impl vstd::std_specs::cmp::PartialEqSpecImpl for WalletState {
    open spec fn obeys_eq_spec() -> bool {
        true
    }

    open spec fn eq_spec(&self, other: &WalletState) -> bool {
        state_eq(self@, other@)
    }
}

impl PartialEq for KeyExchangeResult {
    fn eq(&self, other: &KeyExchangeResult) -> (r: bool) {
        match (self, other) {
            (
                KeyExchangeResult::Partial { next_info: i1 },
                KeyExchangeResult::Partial { next_info: i2 },
            ) => *i1 == *i2,
            (
                KeyExchangeResult::Complete { address: a1 },
                KeyExchangeResult::Complete { address: a2 },
            ) => *a1 == *a2,
            _ => false,
        }
    }
}

impl vstd::std_specs::cmp::PartialEqSpecImpl for KeyExchangeResult {
    open spec fn obeys_eq_spec() -> bool {
        true
    }

    open spec fn eq_spec(&self, other: &KeyExchangeResult) -> bool {
        outcome_eq(self@, other@)
    }
}

/// A wallet record can be created exactly once per directory: on an empty
/// directory creation yields the initial record, and a second creation,
/// whatever record the first left behind, is refused.
pub proof fn lemma_create_exactly_once(wallet_path: Seq<char>, params: ParamsV, second: StateV)
    ensures
        spec_create(None, wallet_path, params) == Some(
            StateV::Created { wallet_path, params },
        ),
        spec_create(Some(second), wallet_path, params) is None,
{
}

/// The terminal state is terminal: no key exchange outcome can advance a
/// wallet that is already `Ready`, however many rounds came before it.
pub proof fn lemma_ready_is_terminal(pre: StateV, outcome: OutcomeV)
    requires
        pre is Ready,
    ensures
        spec_advance(pre, outcome) is None,
{
}

/// Setup never leaves the terminal state by itself: every allowed
/// transition out of a non-`Ready` state lands in `KeyExchangeInProgress`
/// on a partial outcome and in `Ready` on a complete one, and preserves
/// the wallet path and parameters.
pub proof fn lemma_advance_shape(pre: StateV, outcome: OutcomeV)
    requires
        !(pre is Ready),
    ensures
        spec_advance(pre, outcome) is Some,
        outcome matches OutcomeV::Partial { .. } ==> spec_advance(pre, outcome)->Some_0
            is KeyExchangeInProgress,
        outcome matches OutcomeV::Complete { address } ==> spec_advance(pre, outcome)->Some_0
            matches StateV::Ready { address: a, .. } && a == address,
{
}

} // verus!
