//! How the outcome of a statement is read.

use vstd::prelude::*;

verus! {

/// What can go wrong with a statement that was meant for one row.
#[derive(Clone, Copy, Debug, PartialEq, Eq, Structural)]
pub enum DbError {
    /// The statement did not touch exactly one row.
    RowNotFound,
}

/// A statement aimed at one row has done its work exactly when it touched
/// one row.
pub fn expect_one_row(rows_affected: u64) -> (r: Result<(), DbError>)
    ensures
        r is Ok <==> rows_affected == 1,
        r is Err ==> r == Err::<(), DbError>(DbError::RowNotFound),
{
    if rows_affected == 1 {
        Ok(())
    } else {
        Err(DbError::RowNotFound)
    }
}

/// A statement that adds or removes one row has changed something exactly
/// when it touched one row.
pub fn changed_one_row(rows_affected: u64) -> (r: bool)
    ensures
        r == (rows_affected == 1),
{
    rows_affected == 1
}

} // verus!
