//! Protocol-parameter validation for multiparty computation.
//!
//! The HoneyBadger protocol is Byzantine fault tolerant and needs
//! `parties >= 3 * threshold + 1` as well as at least five parties, so a
//! configuration is valid exactly when `parties >= 5` and
//! `threshold < (parties + 2) / 3` (integer division).

use vstd::prelude::*;
use vstd::string::StringExecFns;

verus! {

/// The multiparty-computation protocols the tool knows about.
///
/// Validation dispatches on this tag so that a future protocol variant only
/// needs its own rules here, not new logic at every call site.
#[derive(Clone, Copy, Debug, PartialEq, Eq, Structural)]
pub enum MpcProtocol {
    /// The HoneyBadger Byzantine-fault-tolerant protocol.
    Honeybadger,
}

/// Why a set of protocol parameters was rejected.
#[derive(Clone, Copy, Debug, PartialEq, Eq, Structural)]
pub enum ValidationError {
    /// Fewer parties than the protocol can run with.
    InvalidPartyCount { parties: u8 },
    /// A corruption threshold too large for the given party count;
    /// `max_threshold` is the largest value that would have been accepted.
    InvalidThreshold { parties: u8, threshold: u8, max_threshold: u8 },
}

impl ValidationError {
    /// The human-readable description of the failure.
    pub fn message(&self) -> (r: String)
        ensures
            self is InvalidPartyCount ==> r@ == "HoneyBadger protocol requires at least 5 parties"@,
            self matches ValidationError::InvalidThreshold { parties, max_threshold, .. } ==> r@
                == "HoneyBadger protocol requires threshold < n/3. For "@
                + crate::numbers::dec_rep(parties as nat) + " parties, max threshold is "@
                + crate::numbers::dec_rep(max_threshold as nat),
    {
        match self {
            ValidationError::InvalidPartyCount { .. } => {
                String::from_str("HoneyBadger protocol requires at least 5 parties")
            },
            ValidationError::InvalidThreshold { parties, max_threshold, .. } => {
                let mut s = String::from_str("HoneyBadger protocol requires threshold < n/3. For ");
                let parties_digits = crate::numbers::u8_to_string(*parties);
                s.append(parties_digits.as_str());
                s.append(" parties, max threshold is ");
                let max_digits = crate::numbers::u8_to_string(*max_threshold);
                s.append(max_digits.as_str());
                assert(s@ =~= "HoneyBadger protocol requires threshold < n/3. For "@
                    + crate::numbers::dec_rep(*parties as nat) + " parties, max threshold is "@
                    + crate::numbers::dec_rep(*max_threshold as nat));
                s
            },
        }
    }
}

/// The largest corruption threshold valid for `parties` under HoneyBadger.
pub open spec fn spec_max_threshold(parties: int) -> int {
    (parties + 2) / 3 - 1
}

/// Whether `parties` and `threshold` form a valid HoneyBadger configuration.
pub open spec fn spec_params_valid(parties: int, threshold: int) -> bool {
    &&& parties >= 5
    &&& threshold < (parties + 2) / 3
}

/// The threshold chosen automatically when the caller supplies none.
pub open spec fn spec_auto_threshold(parties: int) -> int {
    if parties < 5 {
        1
    } else {
        (parties - 1) / 3
    }
}

/// Compute the default corruption threshold for a party count.
///
/// For HoneyBadger this is `(parties - 1) / 3`; party counts below the
/// protocol minimum get a placeholder that validation will reject anyway.
pub fn calculate_threshold(parties: u8, protocol: &MpcProtocol) -> (t: u8)
    ensures
        t == spec_auto_threshold(parties as int),
{
    match protocol {
        MpcProtocol::Honeybadger => {
            if parties < 5 {
                1
            } else {
                (parties - 1) / 3
            }
        },
    }
}

/// Check protocol parameters, failing before any side effect elsewhere.
///
/// Returns `Ok(())` exactly when the pair is valid for the protocol;
/// otherwise reports either the party count or the threshold as the culprit,
/// including the largest threshold that would have passed.
pub fn validate_mpc_params(parties: u8, threshold: u8, protocol: &MpcProtocol) -> (r: Result<
    (),
    ValidationError,
>)
    ensures
        r is Ok <==> spec_params_valid(parties as int, threshold as int),
        parties < 5 ==> r == Result::<(), ValidationError>::Err(
            ValidationError::InvalidPartyCount { parties },
        ),
        parties >= 5 && threshold >= (parties as int + 2) / 3 ==> r == Result::<
            (),
            ValidationError,
        >::Err(
            ValidationError::InvalidThreshold {
                parties,
                threshold,
                max_threshold: spec_max_threshold(parties as int) as u8,
            },
        ),
{
    match protocol {
        MpcProtocol::Honeybadger => {
            if parties < 5 {
                Err(ValidationError::InvalidPartyCount { parties })
            } else {
                let max_threshold = ((parties as u16 + 2) / 3 - 1) as u8;
                if threshold > max_threshold {
                    Err(ValidationError::InvalidThreshold { parties, threshold, max_threshold })
                } else {
                    Ok(())
                }
            }
        },
    }
}

/// For every party count of at least five, the automatically computed
/// threshold equals `(parties - 1) / 3` and validates successfully under
/// HoneyBadger.
pub proof fn lemma_auto_threshold_valid(parties: u8)
    requires
        parties >= 5,
    ensures
        spec_auto_threshold(parties as int) == (parties as int - 1) / 3,
        spec_params_valid(parties as int, spec_auto_threshold(parties as int)),
{
    let p = parties as int;
    assert((p + 2) / 3 == (p - 1) / 3 + 1) by {
        vstd::arithmetic::div_mod::lemma_div_plus_one(p - 1, 3);
    };
}

/// For every party count below five, validation fails no matter which
/// threshold is supplied.
pub proof fn lemma_too_few_parties_invalid(parties: u8, threshold: u8)
    requires
        parties < 5,
    ensures
        !spec_params_valid(parties as int, threshold as int),
{
}

} // verus!
