use vstd::prelude::*;
use vstd::string::StrSliceExecFns;

use crate::error::MyDbError;
use crate::records::Layer;

verus! {

/// The outcome of an update or a delete that touched `rows` records: a
/// missing record is `NotFound`.
pub fn rows_affected_outcome(rows: u64) -> (r: Result<(), MyDbError>)
    ensures
        r is Ok <==> rows > 0,
        r matches Err(e) ==> e == MyDbError::NotFound,
{
    if rows == 0 {
        Err(MyDbError::NotFound)
    } else {
        Ok(())
    }
}

/// The layers of an image as the store listed them: an image without layers
/// has an empty list, and only a missing image is `NotFound`.
pub fn layers_listing(image_found: bool, layers: Vec<Layer>) -> (r: Result<Vec<Layer>, MyDbError>)
    ensures
        r is Ok <==> image_found,
        r matches Ok(v) ==> v@ == layers@,
        r matches Err(e) ==> e == MyDbError::NotFound,
{
    if image_found {
        Ok(layers)
    } else {
        Err(MyDbError::NotFound)
    }
}

/// SQLSTATE `code` is of class 23, integrity constraint violation.
pub open spec fn is_constraint_class(code: Seq<char>) -> bool {
    code.len() >= 2 && code[0] == '2' && code[1] == '3'
}

/// The error for a failure that the store reported with SQLSTATE `code`: a
/// broken referential or uniqueness constraint is `ConstraintViolation`; any
/// other failure, and one without a code (the store or the pool could not be
/// reached), is `StoreUnavailable`.
pub fn store_error(code: Option<&str>) -> (r: MyDbError)
    ensures
        r == (if code matches Some(c) && is_constraint_class(c@) {
            MyDbError::ConstraintViolation
        } else {
            MyDbError::StoreUnavailable
        }),
{
    match code {
        Some(c) => {
            if c.unicode_len() >= 2 && c.get_char(0) == '2' && c.get_char(1) == '3' {
                MyDbError::ConstraintViolation
            } else {
                MyDbError::StoreUnavailable
            }
        },
        None => MyDbError::StoreUnavailable,
    }
}

} // verus!
