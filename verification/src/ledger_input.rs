//! What the ledgers ask of the ids and numbers that they are given.

use crate::error;
use crate::error::{DataLayerError, DataLayerFault};
use crate::text;
use vstd::prelude::*;
use vstd::string::*;
use vstd::utf8::*;

verus! {

/// The most bytes in an id of a ledger.
pub const MAX_USAGE_POLICY_LEDGER_ID_BYTES: usize = 128;

/// The largest number that the database holds.
pub const MAX_DATABASE_INTEGER: u64 = 0x7fff_ffff_ffff_ffff;

/// Of two faults the one found first.
pub open spec fn earlier(
    first: Option<DataLayerFault>,
    second: Option<DataLayerFault>,
) -> Option<DataLayerFault> {
    if first is Some {
        first
    } else {
        second
    }
}

/// The fault of an id that holds white space alone.
pub open spec fn empty_id_fault(value: Seq<char>, field: Seq<char>) -> Option<DataLayerFault> {
    if text::trimmed(value).len() == 0 {
        Some(DataLayerFault::InvalidInput(field + " must not be empty"@))
    } else {
        None
    }
}

/// The fault of an id that is empty or too long.
pub open spec fn id_fault(value: Seq<char>, field: Seq<char>) -> Option<DataLayerFault> {
    earlier(
        empty_id_fault(value, field),
        if encode_utf8(value).len() > MAX_USAGE_POLICY_LEDGER_ID_BYTES {
            Some(
                DataLayerFault::InvalidInput(
                    field + " exceeds "@ + text::decimal(MAX_USAGE_POLICY_LEDGER_ID_BYTES as nat)
                        + " bytes"@,
                ),
            )
        } else {
            None
        },
    )
}

/// The fault of a number that the database does not hold.
pub open spec fn range_fault(value: u64, field: Seq<char>) -> Option<DataLayerFault> {
    if value > MAX_DATABASE_INTEGER {
        Some(DataLayerFault::InvalidInput(field + " exceeds the database integer range"@))
    } else {
        None
    }
}

/// Checks that an id is not blank.
pub fn validate_non_empty_id(value: &str, field: &str) -> (r: Result<(), DataLayerError>)
    ensures
        error::fails_with(r, empty_id_fault(value@, field@)),
{
    if text::trim(value).is_empty() {
        return Err(DataLayerError::InvalidInput(text::joined(field, " must not be empty")));
    }
    Ok(())
}

/// Checks that an id is not blank and not too long.
pub fn validate_bounded_id(value: &str, field: &str) -> (r: Result<(), DataLayerError>)
    ensures
        error::fails_with(r, id_fault(value@, field@)),
{
    validate_non_empty_id(value, field)?;
    if value.as_bytes().len() > MAX_USAGE_POLICY_LEDGER_ID_BYTES {
        let mut message = text::joined(field, " exceeds ");
        message.append(text::decimal_text(MAX_USAGE_POLICY_LEDGER_ID_BYTES as u64).as_str());
        message.append(" bytes");
        return Err(DataLayerError::InvalidInput(message));
    }
    Ok(())
}

/// Checks that the database holds a number.
pub fn validate_database_u64(value: u64, field: &str) -> (r: Result<(), DataLayerError>)
    ensures
        error::fails_with(r, range_fault(value, field@)),
{
    if value > MAX_DATABASE_INTEGER {
        return Err(
            DataLayerError::InvalidInput(
                text::joined(field, " exceeds the database integer range"),
            ),
        );
    }
    Ok(())
}

/// Checks that the database holds a number of cost units.
pub fn validate_cost_units(value: u64, field: &str) -> (r: Result<(), DataLayerError>)
    ensures
        error::fails_with(r, range_fault(value, field@)),
{
    if value > MAX_DATABASE_INTEGER {
        return Err(
            DataLayerError::InvalidInput(
                text::joined(field, " exceeds the database integer range"),
            ),
        );
    }
    Ok(())
}

} // verus!
