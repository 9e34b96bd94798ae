//! Locating the four required fields in the CSV header row, and pulling one
//! record's fields out of a row by that plan.

use vstd::prelude::*;

use crate::errors::IngestError;
use crate::models::RawRecord;

verus! {

/// The column of each required field in the input's header row.
pub struct HeaderPlan {
    pub timestamp_idx: usize,
    pub user_idx: usize,
    pub color_idx: usize,
    pub coordinate_idx: usize,
}

/// Does some column carry the given name?
pub open spec fn has_header(headers: Seq<String>, name: Seq<char>) -> bool {
    exists|i: int| 0 <= i < headers.len() && (#[trigger] headers[i])@ == name
}

/// Character-by-character string equality.
fn str_eq(a: &str, b: &str) -> (r: bool)
    ensures
        r == (a@ == b@),
{
    let na = a.unicode_len();
    let nb = b.unicode_len();
    if na != nb {
        return false;
    }
    let mut i: usize = 0;
    while i < na
        invariant
            0 <= i <= na,
            na == a@.len(),
            na == b@.len(),
            forall|j: int| 0 <= j < i ==> a@[j] == b@[j],
        decreases na - i,
    {
        if a.get_char(i) != b.get_char(i) {
            return false;
        }
        i = i + 1;
    }
    proof {
        assert(a@ =~= b@);
    }
    true
}

/// The first column carrying `name`, if any.
fn find_header(headers: &Vec<String>, name: &str) -> (r: Option<usize>)
    ensures
        r matches Some(i) ==> i < headers@.len() && headers@[i as int]@ == name@,
        r is None ==> !has_header(headers@, name@),
{
    let mut i: usize = 0;
    while i < headers.len()
        invariant
            0 <= i <= headers@.len(),
            forall|j: int| 0 <= j < i ==> (#[trigger] headers@[j])@ != name@,
        decreases headers@.len() - i,
    {
        if str_eq(headers[i].as_str(), name) {
            return Some(i);
        }
        i = i + 1;
    }
    None
}

/// Find the four required fields in the header row. Fails with the first
/// missing name, in the order `timestamp`, `user_id`, `pixel_color`,
/// `coordinate`.
pub fn plan_header(headers: &Vec<String>) -> (r: Result<HeaderPlan, IngestError>)
    ensures
        r is Ok <==> {
            &&& has_header(headers@, "timestamp"@)
            &&& has_header(headers@, "user_id"@)
            &&& has_header(headers@, "pixel_color"@)
            &&& has_header(headers@, "coordinate"@)
        },
        r is Ok ==> {
            let p = r->Ok_0;
            &&& p.timestamp_idx < headers@.len() && headers@[p.timestamp_idx as int]@
                == "timestamp"@
            &&& p.user_idx < headers@.len() && headers@[p.user_idx as int]@ == "user_id"@
            &&& p.color_idx < headers@.len() && headers@[p.color_idx as int]@ == "pixel_color"@
            &&& p.coordinate_idx < headers@.len() && headers@[p.coordinate_idx as int]@
                == "coordinate"@
        },
        r is Err ==> {
            let e = r->Err_0;
            &&& e matches IngestError::HeaderMissing { name }
            &&& !has_header(headers@, "timestamp"@) ==> (e matches IngestError::HeaderMissing {
                name,
            } && name@ == "timestamp"@)
            &&& has_header(headers@, "timestamp"@) && !has_header(headers@, "user_id"@) ==> (e
                matches IngestError::HeaderMissing { name } && name@ == "user_id"@)
            &&& has_header(headers@, "timestamp"@) && has_header(headers@, "user_id"@)
                && !has_header(headers@, "pixel_color"@) ==> (e matches
                IngestError::HeaderMissing { name } && name@ == "pixel_color"@)
            &&& has_header(headers@, "timestamp"@) && has_header(headers@, "user_id"@)
                && has_header(headers@, "pixel_color"@) && !has_header(headers@, "coordinate"@)
                ==> (e matches IngestError::HeaderMissing { name } && name@ == "coordinate"@)
        },
{
    let timestamp_idx = match find_header(headers, "timestamp") {
        Some(i) => i,
        None => {
            return Err(IngestError::HeaderMissing { name: "timestamp".to_owned() });
        },
    };
    let user_idx = match find_header(headers, "user_id") {
        Some(i) => i,
        None => {
            return Err(IngestError::HeaderMissing { name: "user_id".to_owned() });
        },
    };
    let color_idx = match find_header(headers, "pixel_color") {
        Some(i) => i,
        None => {
            return Err(IngestError::HeaderMissing { name: "pixel_color".to_owned() });
        },
    };
    let coordinate_idx = match find_header(headers, "coordinate") {
        Some(i) => i,
        None => {
            return Err(IngestError::HeaderMissing { name: "coordinate".to_owned() });
        },
    };
    Ok(HeaderPlan { timestamp_idx, user_idx, color_idx, coordinate_idx })
}

/// Pull the four raw fields of one row out by the header plan. `None` means
/// the row is too short for the plan.
pub fn extract_record(fields: &Vec<String>, plan: &HeaderPlan) -> (r: Option<RawRecord>)
    ensures
        r is Some <==> {
            &&& plan.timestamp_idx < fields@.len()
            &&& plan.user_idx < fields@.len()
            &&& plan.color_idx < fields@.len()
            &&& plan.coordinate_idx < fields@.len()
        },
        r matches Some(rec) ==> {
            &&& rec.timestamp@ == fields@[plan.timestamp_idx as int]@
            &&& rec.user_hash@ == fields@[plan.user_idx as int]@
            &&& rec.pixel_color@ == fields@[plan.color_idx as int]@
            &&& rec.coordinate@ == fields@[plan.coordinate_idx as int]@
        },
{
    let n = fields.len();
    if plan.timestamp_idx < n && plan.user_idx < n && plan.color_idx < n && plan.coordinate_idx
        < n {
        Some(
            RawRecord {
                timestamp: fields[plan.timestamp_idx].clone(),
                user_hash: fields[plan.user_idx].clone(),
                pixel_color: fields[plan.color_idx].clone(),
                coordinate: fields[plan.coordinate_idx].clone(),
            },
        )
    } else {
        None
    }
}

} // verus!
