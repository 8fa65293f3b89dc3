use vstd::prelude::*;
use crate::errors::{is_missing_field, Error};
use crate::options::{lookup, OptionsArray};
use crate::parse::{digits_val, is_u64_string, parse_u64};
use crate::record::{Message, MessageV};

verus! {

/// A retrieval request: an exact key match with optional strict time bounds.
///
/// The bounds come from the client; an absent bound leaves that side of the
/// range open. Both bounds are deliberately exclusive.
pub struct GetRequest {
    pub key: String,
    pub time_gt: Option<u64>,
    pub time_lt: Option<u64>,
}

/// Spec-level mirror of `GetRequest`.
pub ghost struct GetRequestV {
    pub key: Seq<char>,
    pub time_gt: Option<u64>,
    pub time_lt: Option<u64>,
}

impl View for GetRequest {
    type V = GetRequestV;

    open spec fn view(&self) -> GetRequestV {
        GetRequestV { key: self.key@, time_gt: self.time_gt, time_lt: self.time_lt }
    }
}

/// An ingestion request: the record to create, with the time the server
/// assigned at the moment of processing. The client never supplies the time
/// on a write; it only supplies bounds on reads.
pub struct PostRequest {
    pub time: u64,
    pub key: String,
    pub value: String,
}

impl PostRequest {
    /// The record that this ingestion request creates.
    pub fn to_message(&self) -> (m: Message)
        ensures
            m@ == (MessageV { key: self.key@, value: self.value@, time: self.time }),
    {
        Message { key: self.key.clone(), value: self.value.clone(), time: self.time }
    }
}

/// The time part of a storage filter: strict bounds on the `time` field.
pub struct TimeFilter {
    pub gt: Option<u64>,
    pub lt: Option<u64>,
}

/// Spec-level mirror of `TimeFilter`.
pub ghost struct TimeFilterV {
    pub gt: Option<u64>,
    pub lt: Option<u64>,
}

impl View for TimeFilter {
    type V = TimeFilterV;

    open spec fn view(&self) -> TimeFilterV {
        TimeFilterV { gt: self.gt, lt: self.lt }
    }
}

/// A storage filter: key equality, plus a time clause only when at least one
/// bound was requested.
pub struct QueryFilter {
    pub key: String,
    pub time: Option<TimeFilter>,
}

/// Spec-level mirror of `QueryFilter`.
pub ghost struct QueryFilterV {
    pub key: Seq<char>,
    pub time: Option<TimeFilterV>,
}

impl View for QueryFilter {
    type V = QueryFilterV;

    open spec fn view(&self) -> QueryFilterV {
        QueryFilterV {
            key: self.key@,
            time: match self.time {
                Some(tf) => Some(tf@),
                None => None,
            },
        }
    }
}

/// The storage filter a retrieval request translates to.
pub open spec fn spec_to_query(q: GetRequestV) -> QueryFilterV {
    QueryFilterV {
        key: q.key,
        time: if q.time_gt is Some || q.time_lt is Some {
            Some(TimeFilterV { gt: q.time_gt, lt: q.time_lt })
        } else {
            None
        },
    }
}

impl GetRequest {
    /// Translates the request into the filter handed to the storage
    /// collection: key equality, and a time clause exactly when some bound
    /// is present.
    pub fn to_query(&self) -> (f: QueryFilter)
        ensures
            f@ == spec_to_query(self@),
    {
        let lt = self.time_lt.is_some();
        let gt = self.time_gt.is_some();
        let mut time_filter = TimeFilter { gt: None, lt: None };
        if gt {
            time_filter.gt = self.time_gt;
        }
        if lt {
            time_filter.lt = self.time_lt;
        }
        QueryFilter {
            key: self.key.clone(),
            time: if gt || lt {
                Some(time_filter)
            } else {
                None
            },
        }
    }
}

/// Does this looked-up option parse as a time bound wherever it is present?
pub open spec fn time_opt_ok(o: Option<Seq<char>>) -> bool {
    o matches Some(s) ==> is_u64_string(s)
}

/// The numeric value of a looked-up time option; `None` when absent.
pub open spec fn time_opt_val(o: Option<Seq<char>>) -> Option<u64> {
    match o {
        Some(s) => Some(digits_val(s) as u64),
        None => None,
    }
}

/// Reads the optional time bound named `name` from the decoded options.
///
/// Absence is not an error; a present value that is not a valid
/// non-negative integer is.
pub fn insert_time_option(name: &str, oa: &OptionsArray) -> (r: Result<Option<u64>, Error>)
    requires
        oa.wf(),
    ensures
        match lookup(oa@, name@) {
            None => r == Ok::<Option<u64>, Error>(None),
            Some(s) => if is_u64_string(s) {
                r == Ok::<Option<u64>, Error>(Some(digits_val(s) as u64))
            } else {
                r == Err::<Option<u64>, Error>(Error::InvalidTimeValue)
            },
        },
{
    match oa.get(name) {
        None => Ok(None),
        Some(raw) => match parse_u64(raw.as_str()) {
            Some(t) => Ok(Some(t)),
            None => Err(Error::InvalidTimeValue),
        },
    }
}

impl GetRequest {
    /// Builds a retrieval request from the decoded options.
    ///
    /// The `key` option is required; `time_gt` and `time_lt` are optional
    /// but must be valid non-negative integers where present.
    pub fn from_options(oa: &OptionsArray) -> (r: Result<GetRequest, Error>)
        requires
            oa.wf(),
        ensures
            lookup(oa@, "key"@) is None ==> (r matches Err(e) && is_missing_field(e, "key"@)),
            lookup(oa@, "key"@) matches Some(k) ==> {
                let gt = lookup(oa@, "time_gt"@);
                let lt = lookup(oa@, "time_lt"@);
                if time_opt_ok(gt) && time_opt_ok(lt) {
                    r matches Ok(q) && q@ == (GetRequestV {
                        key: k,
                        time_gt: time_opt_val(gt),
                        time_lt: time_opt_val(lt),
                    })
                } else {
                    r == Err::<GetRequest, Error>(Error::InvalidTimeValue)
                }
            },
    {
        let key = match oa.get("key") {
            Some(k) => k.clone(),
            None => {
                return Err(Error::MissingRequiredField("key".to_owned()));
            },
        };
        let time_lt = insert_time_option("time_lt", oa)?;
        let time_gt = insert_time_option("time_gt", oa)?;
        Ok(GetRequest { key, time_gt, time_lt })
    }
}

impl PostRequest {
    /// Builds an ingestion request from the decoded options and the
    /// server-assigned time.
    ///
    /// Both `key` and `value` are required; any client-supplied `time`
    /// option is ignored here, never consumed.
    pub fn from_options(oa: &OptionsArray, time: u64) -> (r: Result<PostRequest, Error>)
        requires
            oa.wf(),
        ensures
            lookup(oa@, "key"@) is None ==> (r matches Err(e) && is_missing_field(e, "key"@)),
            lookup(oa@, "key"@) matches Some(k) ==> {
                &&& lookup(oa@, "value"@) is None ==> (r matches Err(e) && is_missing_field(
                    e,
                    "value"@,
                ))
                &&& lookup(oa@, "value"@) matches Some(v) ==> r matches Ok(p) && p.time == time
                    && p.key@ == k && p.value@ == v
            },
    {
        let key = match oa.get("key") {
            Some(k) => k.clone(),
            None => {
                return Err(Error::MissingRequiredField("key".to_owned()));
            },
        };
        let value = match oa.get("value") {
            Some(v) => v.clone(),
            None => {
                return Err(Error::MissingRequiredField("value".to_owned()));
            },
        };
        Ok(PostRequest { time, key, value })
    }
}

} // verus!
