//! The persisted record format for coordination state.
//!
//! Each CLI invocation is a fresh process, so everything the protocol has
//! to remember lives in one durable record per data directory. The format
//! is deliberately simple — a tag character followed by length-prefixed
//! fields — and is proved to round-trip: decoding an encoded record always
//! recovers the record, so no state is lost between invocations. Writing
//! the record to disk (atomically, via a temporary file and a rename) and
//! reading it back is the surrounding application's job; this module owns
//! the bytes-to-values correspondence.

use vstd::prelude::*;

use crate::decimal::{
    all_digits, dec_str, dec_val, is_canon_digits, is_digit_char, pow10, char_digit_val,
    is_digit, lemma_dec_str_wf, lemma_dec_val_of_dec_str, lemma_dec_val_lower, lemma_pow10_mono,
    lemma_pow10_20, u64_to_dec,
};
use crate::error::ConfigError;
use crate::transaction::{PartialTxV, PartiallySignedTx};
use crate::wallet::{MultisigParams, ParamsV, StateV, WalletState};

verus! {

use vstd::string::StringExecFns;
use vstd::string::StrSliceExecFns;

// ── Record format, at the specification level ───────────────────────────

/// A number token: the canonical decimal rendering, closed by a colon.
pub open spec fn enc_num(n: nat) -> Seq<char> {
    dec_str(n) + seq![':']
}

/// A string token: the length as a number token, then the characters.
pub open spec fn enc_str(t: Seq<char>) -> Seq<char> {
    enc_num(t.len()) + t
}

/// The token run for multisig parameters: threshold, total, label.
pub open spec fn enc_params(p: ParamsV) -> Seq<char> {
    enc_num(p.threshold as nat) + enc_num(p.total as nat) + enc_str(p.label)
}

/// The full record for a wallet state: a tag character for the variant,
/// then the variant's fields as tokens.
pub open spec fn enc_state(st: StateV) -> Seq<char> {
    match st {
        StateV::Created { wallet_path, params } => seq!['C'] + enc_str(wallet_path) + enc_params(
            params,
        ),
        StateV::KeyExchangeInProgress { wallet_path, params, round } => seq!['K'] + enc_str(
            wallet_path,
        ) + enc_params(params) + enc_num(round as nat),
        StateV::Ready { wallet_path, params, address } => seq!['R'] + enc_str(wallet_path)
            + enc_params(params) + enc_str(address),
    }
}

/// The full record for a partially signed transaction: data, hash, the
/// running signature count and the required quorum.
pub open spec fn enc_partial_tx(tx: PartialTxV) -> Seq<char> {
    seq!['T'] + enc_str(tx.tx_data_hex) + enc_str(tx.tx_hash) + enc_num(
        tx.signatures_count as nat,
    ) + enc_num(tx.signatures_required as nat)
}

/// The end of the run of digit characters that starts at `i`.
pub open spec fn scan_digits_end(s: Seq<char>, i: int) -> int
    decreases s.len() - i when 0 <= i <= s.len()
{
    if i < s.len() && is_digit_char(s[i]) {
        scan_digits_end(s, i + 1)
    } else {
        i
    }
}

/// Read a number token at `i`: a canonical digit run closed by a colon.
/// Yields the value and the position after the colon.
pub open spec fn scan_num(s: Seq<char>, i: int) -> Option<(nat, int)> {
    let j = scan_digits_end(s, i);
    if j < s.len() && s[j] == ':' && is_canon_digits(s.subrange(i, j)) {
        Some((dec_val(s.subrange(i, j)), j + 1))
    } else {
        None
    }
}

/// Read a string token at `i`: a length, then that many characters.
pub open spec fn scan_str(s: Seq<char>, i: int) -> Option<(Seq<char>, int)> {
    match scan_num(s, i) {
        Some((l, j)) => if j + l <= s.len() {
            Some((s.subrange(j, j + l), j + l as int))
        } else {
            None
        },
        None => None,
    }
}

/// Read the three parameter tokens at `i`.
pub open spec fn scan_params(s: Seq<char>, i: int) -> Option<(ParamsV, int)> {
    match scan_num(s, i) {
        Some((m, j1)) => if m <= u32::MAX {
            match scan_num(s, j1) {
                Some((n, j2)) => if n <= u32::MAX {
                    match scan_str(s, j2) {
                        Some((label, j3)) => Some(
                            (ParamsV { threshold: m as u32, total: n as u32, label }, j3),
                        ),
                        None => None,
                    }
                } else {
                    None
                },
                None => None,
            }
        } else {
            None
        },
        None => None,
    }
}

/// Decode a wallet state record. Exactly the sequences produced by
/// [`enc_state`] decode, and to the state that produced them.
pub open spec fn spec_decode_state(s: Seq<char>) -> Option<StateV> {
    if s.len() == 0 {
        None
    } else if s[0] == 'C' {
        match scan_str(s, 1) {
            Some((wallet_path, i)) => match scan_params(s, i) {
                Some((params, j)) => if j == s.len() {
                    Some(StateV::Created { wallet_path, params })
                } else {
                    None
                },
                None => None,
            },
            None => None,
        }
    } else if s[0] == 'K' {
        match scan_str(s, 1) {
            Some((wallet_path, i)) => match scan_params(s, i) {
                Some((params, j)) => match scan_num(s, j) {
                    Some((round, k)) => if round <= u32::MAX && k == s.len() {
                        Some(
                            StateV::KeyExchangeInProgress {
                                wallet_path,
                                params,
                                round: round as u32,
                            },
                        )
                    } else {
                        None
                    },
                    None => None,
                },
                None => None,
            },
            None => None,
        }
    } else if s[0] == 'R' {
        match scan_str(s, 1) {
            Some((wallet_path, i)) => match scan_params(s, i) {
                Some((params, j)) => match scan_str(s, j) {
                    Some((address, k)) => if k == s.len() {
                        Some(StateV::Ready { wallet_path, params, address })
                    } else {
                        None
                    },
                    None => None,
                },
                None => None,
            },
            None => None,
        }
    } else {
        None
    }
}

/// Decode a partially signed transaction record.
pub open spec fn spec_decode_partial_tx(s: Seq<char>) -> Option<PartialTxV> {
    if s.len() == 0 || s[0] != 'T' {
        None
    } else {
        match scan_str(s, 1) {
            Some((tx_data_hex, i)) => match scan_str(s, i) {
                Some((tx_hash, j)) => match scan_num(s, j) {
                    Some((count, k)) => if count <= u32::MAX {
                        match scan_num(s, k) {
                            Some((required, l)) => if required <= u32::MAX && l == s.len() {
                                Some(
                                    PartialTxV {
                                        tx_data_hex,
                                        tx_hash,
                                        signatures_count: count as u32,
                                        signatures_required: required as u32,
                                    },
                                )
                            } else {
                                None
                            },
                            None => None,
                        }
                    } else {
                        None
                    },
                    None => None,
                },
                None => None,
            },
            None => None,
        }
    }
}

// ── Round-trip proofs ───────────────────────────────────────────────────

proof fn lemma_scan_digits_end_bounds(s: Seq<char>, i: int)
    requires
        0 <= i <= s.len(),
    ensures
        i <= scan_digits_end(s, i) <= s.len(),
    decreases s.len() - i,
{
    if i < s.len() && is_digit_char(s[i]) {
        lemma_scan_digits_end_bounds(s, i + 1);
    }
}

proof fn lemma_scan_digits_range(s: Seq<char>, i: int, j: int)
    requires
        0 <= i <= j <= s.len(),
        forall|k: int| i <= k < j ==> is_digit_char(#[trigger] s[k]),
        j < s.len() ==> !is_digit_char(s[j]),
    ensures
        scan_digits_end(s, i) == j,
    decreases j - i,
{
    if i < j {
        lemma_scan_digits_range(s, i + 1, j);
    }
}

proof fn lemma_scan_num_exact(pre: Seq<char>, n: nat, rest: Seq<char>)
    ensures
        scan_num(pre + enc_num(n) + rest, pre.len() as int) == Some(
            (n, (pre.len() + dec_str(n).len() + 1) as int),
        ),
{
    let s = pre + enc_num(n) + rest;
    let i = pre.len() as int;
    let w = dec_str(n).len() as int;
    lemma_dec_str_wf(n);
    lemma_dec_val_of_dec_str(n);
    assert forall|k: int| i <= k < i + w implies is_digit_char(#[trigger] s[k]) by {
        assert(s[k] == dec_str(n)[k - i]);
    }
    assert(s[i + w] == ':');
    assert(!is_digit_char(':'));
    lemma_scan_digits_range(s, i, i + w);
    assert(s.subrange(i, i + w) =~= dec_str(n));
}

proof fn lemma_scan_str_exact(pre: Seq<char>, t: Seq<char>, rest: Seq<char>)
    ensures
        scan_str(pre + enc_str(t) + rest, pre.len() as int) == Some(
            (t, (pre.len() + enc_str(t).len()) as int),
        ),
{
    let s = pre + enc_str(t) + rest;
    assert(s =~= pre + enc_num(t.len()) + (t + rest));
    lemma_scan_num_exact(pre, t.len(), t + rest);
    let j = (pre.len() + dec_str(t.len()).len() + 1) as int;
    assert(j + t.len() <= s.len());
    assert(s.subrange(j, j + t.len() as int) =~= t);
}

proof fn lemma_scan_params_exact(pre: Seq<char>, p: ParamsV, rest: Seq<char>)
    ensures
        scan_params(pre + enc_params(p) + rest, pre.len() as int) == Some(
            (p, (pre.len() + enc_params(p).len()) as int),
        ),
{
    let s = pre + enc_params(p) + rest;
    let rest1 = enc_num(p.total as nat) + enc_str(p.label) + rest;
    assert(s =~= pre + enc_num(p.threshold as nat) + rest1);
    lemma_scan_num_exact(pre, p.threshold as nat, rest1);
    let pre2 = pre + enc_num(p.threshold as nat);
    let rest2 = enc_str(p.label) + rest;
    assert(s =~= pre2 + enc_num(p.total as nat) + rest2);
    lemma_scan_num_exact(pre2, p.total as nat, rest2);
    let pre3 = pre2 + enc_num(p.total as nat);
    assert(s =~= pre3 + enc_str(p.label) + rest);
    lemma_scan_str_exact(pre3, p.label, rest);
    assert((p.threshold as nat) as u32 == p.threshold);
    assert((p.total as nat) as u32 == p.total);
}

/// Decoding inverts encoding for every wallet state: the persisted record
/// format loses nothing, whatever variant is saved and reloaded.
pub proof fn lemma_state_record_round_trip(st: StateV)
    ensures
        spec_decode_state(enc_state(st)) == Some(st),
{
    let s = enc_state(st);
    match st {
        StateV::Created { wallet_path, params } => {
            assert(s[0] == 'C');
            assert(s =~= seq!['C'] + enc_str(wallet_path) + enc_params(params));
            lemma_scan_str_exact(seq!['C'], wallet_path, enc_params(params));
            let pre2 = seq!['C'] + enc_str(wallet_path);
            assert(s =~= pre2 + enc_params(params) + Seq::<char>::empty());
            lemma_scan_params_exact(pre2, params, Seq::<char>::empty());
        },
        StateV::KeyExchangeInProgress { wallet_path, params, round } => {
            assert(s[0] == 'K');
            assert(s =~= seq!['K'] + enc_str(wallet_path) + (enc_params(params) + enc_num(
                round as nat,
            )));
            lemma_scan_str_exact(
                seq!['K'],
                wallet_path,
                enc_params(params) + enc_num(round as nat),
            );
            let pre2 = seq!['K'] + enc_str(wallet_path);
            assert(s =~= pre2 + enc_params(params) + enc_num(round as nat));
            lemma_scan_params_exact(pre2, params, enc_num(round as nat));
            let pre3 = pre2 + enc_params(params);
            assert(s =~= pre3 + enc_num(round as nat) + Seq::<char>::empty());
            lemma_scan_num_exact(pre3, round as nat, Seq::<char>::empty());
            assert((round as nat) as u32 == round);
        },
        StateV::Ready { wallet_path, params, address } => {
            assert(s[0] == 'R');
            assert(s =~= seq!['R'] + enc_str(wallet_path) + (enc_params(params) + enc_str(
                address,
            )));
            lemma_scan_str_exact(seq!['R'], wallet_path, enc_params(params) + enc_str(address));
            let pre2 = seq!['R'] + enc_str(wallet_path);
            assert(s =~= pre2 + enc_params(params) + enc_str(address));
            lemma_scan_params_exact(pre2, params, enc_str(address));
            let pre3 = pre2 + enc_params(params);
            assert(s =~= pre3 + enc_str(address) + Seq::<char>::empty());
            lemma_scan_str_exact(pre3, address, Seq::<char>::empty());
        },
    }
}

/// Decoding inverts encoding for every partially signed transaction
/// record: the running signature count survives the trip through the
/// blob that co-signers pass around.
pub proof fn lemma_partial_tx_record_round_trip(tx: PartialTxV)
    ensures
        spec_decode_partial_tx(enc_partial_tx(tx)) == Some(tx),
{
    let s = enc_partial_tx(tx);
    assert(s[0] == 'T');
    assert(s =~= seq!['T'] + enc_str(tx.tx_data_hex) + (enc_str(tx.tx_hash) + enc_num(
        tx.signatures_count as nat,
    ) + enc_num(tx.signatures_required as nat)));
    lemma_scan_str_exact(
        seq!['T'],
        tx.tx_data_hex,
        enc_str(tx.tx_hash) + enc_num(tx.signatures_count as nat) + enc_num(
            tx.signatures_required as nat,
        ),
    );
    let pre2 = seq!['T'] + enc_str(tx.tx_data_hex);
    assert(s =~= pre2 + enc_str(tx.tx_hash) + (enc_num(tx.signatures_count as nat) + enc_num(
        tx.signatures_required as nat,
    )));
    lemma_scan_str_exact(
        pre2,
        tx.tx_hash,
        enc_num(tx.signatures_count as nat) + enc_num(tx.signatures_required as nat),
    );
    let pre3 = pre2 + enc_str(tx.tx_hash);
    assert(s =~= pre3 + enc_num(tx.signatures_count as nat) + enc_num(
        tx.signatures_required as nat,
    ));
    lemma_scan_num_exact(pre3, tx.signatures_count as nat, enc_num(tx.signatures_required as nat));
    let pre4 = pre3 + enc_num(tx.signatures_count as nat);
    assert(s =~= pre4 + enc_num(tx.signatures_required as nat) + Seq::<char>::empty());
    lemma_scan_num_exact(pre4, tx.signatures_required as nat, Seq::<char>::empty());
    assert((tx.signatures_count as nat) as u32 == tx.signatures_count);
    assert((tx.signatures_required as nat) as u32 == tx.signatures_required);
}

// ── Encoding, executable ────────────────────────────────────────────────

fn enc_num_exec(n: u64) -> (r: String)
    ensures
        r@ == enc_num(n as nat),
{
    let r = u64_to_dec(n).concat(":");
    proof {
        reveal_strlit(":");
        assert(r@ =~= enc_num(n as nat));
    }
    r
}

fn enc_str_exec(t: &str) -> (r: String)
    ensures
        r@ == enc_str(t@),
{
    let len = t.unicode_len();
    let r = enc_num_exec(len as u64).concat(t);
    proof {
        assert(r@ =~= enc_str(t@));
    }
    r
}

fn enc_params_exec(p: &MultisigParams) -> (r: String)
    ensures
        r@ == enc_params(p@),
{
    let mut out = enc_num_exec(p.threshold as u64);
    out.append(enc_num_exec(p.total as u64).as_str());
    out.append(enc_str_exec(p.label.as_str()).as_str());
    proof {
        assert(out@ =~= enc_params(p@));
    }
    out
}

/// Encode a wallet state as its persisted record.
pub fn encode_wallet_state(st: &WalletState) -> (r: String)
    ensures
        r@ == enc_state(st@),
{
    proof {
        reveal_strlit("C");
        reveal_strlit("K");
        reveal_strlit("R");
    }
    match st {
        WalletState::Created { wallet_path, params } => {
            let mut out = String::from_str("C");
            out.append(enc_str_exec(wallet_path.as_str()).as_str());
            out.append(enc_params_exec(params).as_str());
            proof {
                assert(out@ =~= enc_state(st@));
            }
            out
        },
        WalletState::KeyExchangeInProgress { wallet_path, params, round } => {
            let mut out = String::from_str("K");
            out.append(enc_str_exec(wallet_path.as_str()).as_str());
            out.append(enc_params_exec(params).as_str());
            out.append(enc_num_exec(*round as u64).as_str());
            proof {
                assert(out@ =~= enc_state(st@));
            }
            out
        },
        WalletState::Ready { wallet_path, params, address } => {
            let mut out = String::from_str("R");
            out.append(enc_str_exec(wallet_path.as_str()).as_str());
            out.append(enc_params_exec(params).as_str());
            out.append(enc_str_exec(address.as_str()).as_str());
            proof {
                assert(out@ =~= enc_state(st@));
            }
            out
        },
    }
}

/// Encode a partially signed transaction, with its running signature
/// count, as the blob that co-signers pass around.
pub fn encode_partial_tx(tx: &PartiallySignedTx) -> (r: String)
    ensures
        r@ == enc_partial_tx(tx@),
{
    proof {
        reveal_strlit("T");
    }
    let mut out = String::from_str("T");
    out.append(enc_str_exec(tx.tx_data_hex.as_str()).as_str());
    out.append(enc_str_exec(tx.tx_hash.as_str()).as_str());
    out.append(enc_num_exec(tx.signatures_count as u64).as_str());
    out.append(enc_num_exec(tx.signatures_required as u64).as_str());
    proof {
        assert(out@ =~= enc_partial_tx(tx@));
    }
    out
}

// ── Decoding, executable ────────────────────────────────────────────────

/// Read a number token. Yields the value exactly when the token is there
/// and its value fits sixty-four bits.
fn scan_num_exec(s: &str, i: usize) -> (r: Option<(u64, usize)>)
    requires
        i <= s@.len(),
    ensures
        match r {
            Some((v, j)) => scan_num(s@, i as int) == Some((v as nat, j as int)) && i < j
                <= s@.len(),
            None => match scan_num(s@, i as int) {
                Some((v, j)) => v > u64::MAX,
                None => true,
            },
        },
{
    let n = s.unicode_len();
    let mut j = i;
    while j < n && is_digit(s.get_char(j))
        invariant
            i <= j <= n,
            n == s@.len(),
            forall|k: int| i <= k < j ==> is_digit_char(#[trigger] s@[k]),
        decreases n - j,
    {
        j = j + 1;
    }
    proof {
        lemma_scan_digits_range(s@, i as int, j as int);
    }
    if j == n || s.get_char(j) != ':' {
        return None;
    }
    if j == i {
        return None;
    }
    if s.get_char(i) == '0' && j - i > 1 {
        return None;
    }
    let ghost run = s@.subrange(i as int, j as int);
    proof {
        assert(is_canon_digits(run));
    }
    if j - i > 20 {
        proof {
            lemma_dec_val_lower(run);
            lemma_pow10_mono(20, (run.len() - 1) as nat);
            lemma_pow10_20();
        }
        return None;
    }
    let mut acc: u128 = 0;
    let mut k = i;
    while k < j
        invariant
            i <= k <= j <= n,
            n == s@.len(),
            j - i <= 20,
            run == s@.subrange(i as int, j as int),
            forall|q: int| i <= q < j ==> is_digit_char(#[trigger] s@[q]),
            acc as nat == dec_val(s@.subrange(i as int, k as int)),
            (acc as nat) < pow10((k - i) as nat),
        decreases j - k,
    {
        let c = s.get_char(k);
        let d = match char_digit_val(c) {
            Option::Some(d) => d,
            Option::None => {
                proof {
                    assert(false);
                }
                0
            },
        };
        proof {
            lemma_pow10_mono((k - i) as nat, 19);
            lemma_pow10_20();
        }
        acc = acc * 10 + d as u128;
        proof {
            let pre = s@.subrange(i as int, k as int);
            let ext = s@.subrange(i as int, k as int + 1);
            assert(ext.drop_last() =~= pre);
            assert(ext.last() == s@[k as int]);
            assert(dec_val(ext) == dec_val(pre) * 10 + crate::decimal::digit_val(s@[k as int]));
        }
        k = k + 1;
    }
    proof {
        assert(s@.subrange(i as int, k as int) == run);
    }
    if acc > u64::MAX as u128 {
        return None;
    }
    Some((acc as u64, j + 1))
}

/// Read a string token: a length, then that many characters.
fn scan_str_exec(s: &str, i: usize) -> (r: Option<(String, usize)>)
    requires
        i <= s@.len(),
    ensures
        match r {
            Some((t, j)) => scan_str(s@, i as int) == Some((t@, j as int)) && i < j <= s@.len(),
            None => scan_str(s@, i as int) is None,
        },
{
    let n = s.unicode_len();
    proof {
        assert(n as nat == s@.len());
        assert((usize::MAX as nat) <= (u64::MAX as nat));
        lemma_scan_digits_end_bounds(s@, i as int);
    }
    match scan_num_exec(s, i) {
        Option::None => None,
        Option::Some((l, j)) => {
            if l > (n - j) as u64 {
                None
            } else {
                let end = j + l as usize;
                let sub = s.substring_char(j, end);
                Some((String::from_str(sub), end))
            }
        },
    }
}

/// Read the three parameter tokens.
fn scan_params_exec(s: &str, i: usize) -> (r: Option<(MultisigParams, usize)>)
    requires
        i <= s@.len(),
    ensures
        match r {
            Some((p, j)) => scan_params(s@, i as int) == Some((p@, j as int)) && i < j
                <= s@.len(),
            None => scan_params(s@, i as int) is None,
        },
{
    match scan_num_exec(s, i) {
        Option::None => None,
        Option::Some((m, j1)) => {
            if m > u32::MAX as u64 {
                return None;
            }
            match scan_num_exec(s, j1) {
                Option::None => None,
                Option::Some((n, j2)) => {
                    if n > u32::MAX as u64 {
                        return None;
                    }
                    match scan_str_exec(s, j2) {
                        Option::None => None,
                        Option::Some((label, j3)) => Some(
                            (MultisigParams { threshold: m as u32, total: n as u32, label }, j3),
                        ),
                    }
                },
            }
        },
    }
}

/// The message every undecodable record reports.
fn corrupt_record_error() -> (r: ConfigError)
    ensures
        r matches ConfigError::ParseError(m) && m@ == "persisted record is corrupt"@,
{
    ConfigError::ParseError(String::from_str("persisted record is corrupt"))
}

/// Decode a persisted wallet state record. Exactly the records written by
/// [`encode_wallet_state`] decode, and to the state that was encoded; a
/// record that exists but cannot be decoded is reported as corrupt,
/// distinguishable from an absent record.
pub fn decode_wallet_state(s: &str) -> (r: Result<WalletState, ConfigError>)
    ensures
        match r {
            Ok(st) => spec_decode_state(s@) == Some(st@),
            Err(e) => {
                &&& spec_decode_state(s@) is None
                &&& e matches ConfigError::ParseError(m)
                &&& m@ == "persisted record is corrupt"@
            },
        },
{
    let n = s.unicode_len();
    if n == 0 {
        return Err(corrupt_record_error());
    }
    let tag = s.get_char(0);
    if tag == 'C' {
        match scan_str_exec(s, 1) {
            Option::Some((wallet_path, i)) => match scan_params_exec(s, i) {
                Option::Some((params, j)) => {
                    if j == n {
                        Ok(WalletState::Created { wallet_path, params })
                    } else {
                        Err(corrupt_record_error())
                    }
                },
                Option::None => Err(corrupt_record_error()),
            },
            Option::None => Err(corrupt_record_error()),
        }
    } else if tag == 'K' {
        match scan_str_exec(s, 1) {
            Option::Some((wallet_path, i)) => match scan_params_exec(s, i) {
                Option::Some((params, j)) => match scan_num_exec(s, j) {
                    Option::Some((round, k)) => {
                        if round <= u32::MAX as u64 && k == n {
                            Ok(
                                WalletState::KeyExchangeInProgress {
                                    wallet_path,
                                    params,
                                    round: round as u32,
                                },
                            )
                        } else {
                            Err(corrupt_record_error())
                        }
                    },
                    Option::None => Err(corrupt_record_error()),
                },
                Option::None => Err(corrupt_record_error()),
            },
            Option::None => Err(corrupt_record_error()),
        }
    } else if tag == 'R' {
        match scan_str_exec(s, 1) {
            Option::Some((wallet_path, i)) => match scan_params_exec(s, i) {
                Option::Some((params, j)) => match scan_str_exec(s, j) {
                    Option::Some((address, k)) => {
                        if k == n {
                            Ok(WalletState::Ready { wallet_path, params, address })
                        } else {
                            Err(corrupt_record_error())
                        }
                    },
                    Option::None => Err(corrupt_record_error()),
                },
                Option::None => Err(corrupt_record_error()),
            },
            Option::None => Err(corrupt_record_error()),
        }
    } else {
        Err(corrupt_record_error())
    }
}

/// Decode a partially signed transaction blob. Exactly the blobs written
/// by [`encode_partial_tx`] decode, and to the record that was encoded.
pub fn decode_partial_tx(s: &str) -> (r: Result<PartiallySignedTx, ConfigError>)
    ensures
        match r {
            Ok(tx) => spec_decode_partial_tx(s@) == Some(tx@),
            Err(e) => {
                &&& spec_decode_partial_tx(s@) is None
                &&& e matches ConfigError::ParseError(m)
                &&& m@ == "persisted record is corrupt"@
            },
        },
{
    let n = s.unicode_len();
    if n == 0 {
        return Err(corrupt_record_error());
    }
    if s.get_char(0) != 'T' {
        return Err(corrupt_record_error());
    }
    match scan_str_exec(s, 1) {
        Option::Some((tx_data_hex, i)) => match scan_str_exec(s, i) {
            Option::Some((tx_hash, j)) => match scan_num_exec(s, j) {
                Option::Some((count, k)) => {
                    if count > u32::MAX as u64 {
                        return Err(corrupt_record_error());
                    }
                    match scan_num_exec(s, k) {
                        Option::Some((required, l)) => {
                            if required <= u32::MAX as u64 && l == n {
                                Ok(
                                    PartiallySignedTx {
                                        tx_data_hex,
                                        tx_hash,
                                        signatures_count: count as u32,
                                        signatures_required: required as u32,
                                    },
                                )
                            } else {
                                Err(corrupt_record_error())
                            }
                        },
                        Option::None => Err(corrupt_record_error()),
                    }
                },
                Option::None => Err(corrupt_record_error()),
            },
            Option::None => Err(corrupt_record_error()),
        },
        Option::None => Err(corrupt_record_error()),
    }
}

} // verus!
