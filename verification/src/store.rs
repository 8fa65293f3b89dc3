use vstd::prelude::*;
use std::time::SystemTime;
use std::time::UNIX_EPOCH;
use crate::errors::{is_missing_field, Error};
use crate::options::{create_options_map, decoded_pairs, lookup};
use crate::query::{spec_to_query, time_opt_ok, time_opt_val, GetRequest, GetRequestV, PostRequest,
    QueryFilter, QueryFilterV};
use crate::record::{doc_of, spec_to_message, Document, Message, MessageV, ValueV};

verus! {

/// The contents of one storage document, at the spec level.
pub type DocV = Seq<(Seq<char>, ValueV)>;

/// Relies on `std::time::SystemTime`: the wall-clock time at the moment of
/// the call, in whole seconds since the Unix epoch. The value is the
/// environment's, so nothing is promised of it; it panics only if the clock
/// reads earlier than the epoch.
#[verifier::external_body]
pub fn get_time() -> u64 {
    SystemTime::now().duration_since(UNIX_EPOCH).unwrap().as_secs()
}

/// The `time` field of a document, where it exists and is numeric.
pub open spec fn doc_time(d: DocV) -> Option<u64> {
    match lookup(d, "time"@) {
        Some(v) => match v {
            ValueV::Num(t) => Some(t),
            ValueV::Text(_) => None,
        },
        None => None,
    }
}

/// Does the stored document `d` satisfy the retrieval predicate of `q`?
///
/// The document's key must equal the queried key, and each bound that is
/// present must be strictly satisfied by the document's numeric time field:
/// `time_gt` and `time_lt` are exclusive, deliberately.
pub open spec fn query_matches(d: DocV, q: GetRequestV) -> bool {
    &&& lookup(d, "key"@) == Some(ValueV::Text(q.key))
    &&& (q.time_gt matches Some(g) ==> (doc_time(d) matches Some(t) && t > g))
    &&& (q.time_lt matches Some(l) ==> (doc_time(d) matches Some(t) && t < l))
}

/// Does the stored document `d` satisfy the storage filter `f`?
pub open spec fn doc_matches_filter(d: DocV, f: QueryFilterV) -> bool {
    &&& lookup(d, "key"@) == Some(ValueV::Text(f.key))
    &&& match f.time {
        None => true,
        Some(tf) => match doc_time(d) {
            Some(t) => {
                &&& (tf.gt matches Some(g) ==> t > g)
                &&& (tf.lt matches Some(l) ==> t < l)
            },
            None => false,
        },
    }
}

/// The filter a request translates to selects exactly the documents that
/// the request's own predicate selects.
pub proof fn lemma_filter_agrees(d: DocV, q: GetRequestV)
    ensures
        doc_matches_filter(d, spec_to_query(q)) == query_matches(d, q),
{
}

/// The documents of `docs` that satisfy `q`, in storage order.
pub open spec fn matching(docs: Seq<DocV>, q: GetRequestV) -> Seq<DocV>
    decreases docs.len(),
{
    if docs.len() == 0 {
        Seq::empty()
    } else {
        let rest = matching(docs.drop_last(), q);
        if query_matches(docs.last(), q) {
            rest.push(docs.last())
        } else {
            rest
        }
    }
}

/// The views of a sequence of documents.
pub open spec fn docs_view(s: Seq<Document>) -> Seq<DocV> {
    Seq::new(s.len(), |i: int| s[i]@)
}

/// The ordered storage collection: insert-one and find-by-predicate, which
/// is all the core asks of its storage.
///
/// Documents are held in insertion order; retrieval returns matches in that
/// storage-native order and nothing ever updates or deletes one.
pub struct Store {
    docs: Vec<Document>,
}

impl View for Store {
    type V = Seq<DocV>;

    closed spec fn view(&self) -> Seq<DocV> {
        docs_view(self.docs@)
    }
}

impl Store {
    pub fn new() -> (r: Self)
        ensures
            r@ == Seq::<DocV>::empty(),
    {
        let r = Store { docs: Vec::new() };
        proof {
            assert(r@ =~= Seq::<DocV>::empty());
        }
        r
    }

    /// Appends one document; nothing else ever changes the collection.
    pub fn insert_one(&mut self, d: Document)
        ensures
            final(self)@ == old(self)@.push(d@),
    {
        let ghost dv = d@;
        self.docs.push(d);
        proof {
            assert(self@ =~= old(self)@.push(dv));
        }
    }
}

impl Document {
    /// Persists this document as one new stored record.
    pub fn insert_into(self, store: &mut Store)
        ensures
            final(store)@ == old(store)@.push(self@),
    {
        store.insert_one(self);
    }
}

/// Does `d` satisfy the filter `f`?
fn doc_matches(d: &Document, f: &QueryFilter) -> (r: bool)
    ensures
        r == doc_matches_filter(d@, f@),
{
    let key_ok = match d.get_str("key") {
        Some(k) => *k == f.key,
        None => false,
    };
    if !key_ok {
        return false;
    }
    match &f.time {
        None => true,
        Some(tf) => match d.get_u64("time") {
            Some(t) => {
                let gt_ok = match tf.gt {
                    Some(g) => t > g,
                    None => true,
                };
                let lt_ok = match tf.lt {
                    Some(l) => t < l,
                    None => true,
                };
                gt_ok && lt_ok
            },
            None => false,
        },
    }
}

/// The range retrieval engine: hands the request's filter to the storage
/// collection and returns the matching documents in storage order. The
/// engine itself never re-filters or re-orders.
pub fn get_documents(get_request: &GetRequest, store: &Store) -> (r: Vec<Document>)
    ensures
        docs_view(r@) == matching(store@, get_request@),
{
    let f = get_request.to_query();
    let mut r: Vec<Document> = Vec::new();
    let mut i: usize = 0;
    proof {
        assert(docs_view(r@) =~= matching(store@.subrange(0, 0), get_request@));
    }
    while i < store.docs.len()
        invariant
            i <= store@.len(),
            f@ == spec_to_query(get_request@),
            docs_view(r@) == matching(store@.subrange(0, i as int), get_request@),
        decreases store@.len() - i,
    {
        let ghost pre = store@.subrange(0, i as int);
        let ghost cur = store@.subrange(0, i as int + 1);
        proof {
            assert(cur.drop_last() =~= pre);
            assert(cur.last() == store@[i as int]);
            lemma_filter_agrees(store@[i as int], get_request@);
        }
        if doc_matches(&store.docs[i], &f) {
            r.push(store.docs[i].clone());
        }
        proof {
            assert(docs_view(r@) =~= matching(cur, get_request@));
        }
        i += 1;
    }
    proof {
        assert(store@.subrange(0, store@.len() as int) =~= store@);
    }
    r
}

/// Decodes every retrieved document back into a record.
///
/// A single undecodable document aborts the whole retrieval with a storage
/// failure: all-or-nothing, never a partial list silently missing entries.
pub fn documents_to_messages(documents: &Vec<Document>) -> (r: Result<Vec<Message>, Error>)
    ensures
        match r {
            Ok(ms) => ms@.len() == documents@.len() && forall|i: int|
                0 <= i < documents@.len() ==> (#[trigger] spec_to_message(documents@[i]@)) is Some
                    && ms@[i]@ == spec_to_message(documents@[i]@)->0,
            Err(e) => e == Error::StorageFailure && exists|i: int|
                0 <= i < documents@.len() && (#[trigger] spec_to_message(documents@[i]@)) is None,
        },
{
    let mut ms: Vec<Message> = Vec::new();
    let mut i: usize = 0;
    while i < documents.len()
        invariant
            i <= documents@.len(),
            ms@.len() == i,
            forall|j: int| 0 <= j < i ==> (#[trigger] spec_to_message(documents@[j]@)) is Some
                && ms@[j]@ == spec_to_message(documents@[j]@)->0,
        decreases documents@.len() - i,
    {
        match documents[i].to_message() {
            Ok(m) => {
                ms.push(m);
            },
            Err(e) => {
                return Err(e);
            },
        }
        i += 1;
    }
    Ok(ms)
}

/// Handles one ingestion request, given the decoded-tokens sequence.
///
/// Validates the options, stamps the current wall-clock time, and persists
/// exactly one new record; on any failure nothing is stored.
pub fn post(store: &mut Store, tokens: &Vec<String>) -> (r: Result<(), Error>)
    ensures
        ({
            let t = tokens.deep_view();
            let opts = decoded_pairs(t);
            &&& t.len() % 2 != 0 ==> r == Err::<(), Error>(Error::MalformedOptions)
                && final(store)@ == old(store)@
            &&& t.len() % 2 == 0 ==> {
                &&& lookup(opts, "key"@) is None ==> (r matches Err(e) && is_missing_field(
                    e,
                    "key"@,
                ) && final(store)@ == old(store)@)
                &&& lookup(opts, "key"@) matches Some(k) ==> {
                    &&& lookup(opts, "value"@) is None ==> (r matches Err(e) && is_missing_field(
                        e,
                        "value"@,
                    ) && final(store)@ == old(store)@)
                    &&& lookup(opts, "value"@) matches Some(v) ==> r == Ok::<(), Error>(()) && (
                    exists|tm: u64| final(store)@ == old(store)@.push(doc_of(k, v, tm)))
                }
            }
        }),
{
    let options_array = match create_options_map(tokens) {
        Some(x) => x,
        None => {
            return Err(Error::MalformedOptions);
        },
    };
    let post_request = match PostRequest::from_options(&options_array, get_time()) {
        Ok(p) => p,
        Err(e) => {
            return Err(e);
        },
    };
    let ghost tm = post_request.time;
    let ghost k = post_request.key@;
    let ghost v = post_request.value@;
    post_request.to_message().to_document().insert_into(store);
    proof {
        assert(final(store)@ == old(store)@.push(doc_of(k, v, tm)));
    }
    Ok(())
}

/// Handles one retrieval request, given the decoded-tokens sequence.
///
/// Validates the options, builds the range query, retrieves the matching
/// documents in storage order, and decodes them all back into records.
pub fn get(store: &Store, tokens: &Vec<String>) -> (r: Result<Vec<Message>, Error>)
    ensures
        ({
            let t = tokens.deep_view();
            let opts = decoded_pairs(t);
            &&& t.len() % 2 != 0 ==> r == Err::<Vec<Message>, Error>(Error::MalformedOptions)
            &&& t.len() % 2 == 0 ==> {
                &&& lookup(opts, "key"@) is None ==> (r matches Err(e) && is_missing_field(
                    e,
                    "key"@,
                ))
                &&& lookup(opts, "key"@) matches Some(k) ==> {
                    let gt = lookup(opts, "time_gt"@);
                    let lt = lookup(opts, "time_lt"@);
                    &&& !(time_opt_ok(gt) && time_opt_ok(lt)) ==> r == Err::<Vec<Message>, Error>(Error::InvalidTimeValue)
                    &&& time_opt_ok(gt) && time_opt_ok(lt) ==> {
                        let q = GetRequestV {
                            key: k,
                            time_gt: time_opt_val(gt),
                            time_lt: time_opt_val(lt),
                        };
                        let found = matching(store@, q);
                        match r {
                            Ok(ms) => ms@.len() == found.len() && forall|i: int|
                                0 <= i < found.len() ==> (#[trigger] spec_to_message(
                                    found[i],
                                )) is Some && ms@[i]@ == spec_to_message(found[i])->0,
                            Err(e) => e == Error::StorageFailure && exists|i: int|
                                0 <= i < found.len() && (#[trigger] spec_to_message(
                                    found[i],
                                )) is None,
                        }
                    }
                }
            }
        }),
{
    let options_array = match create_options_map(tokens) {
        Some(x) => x,
        None => {
            return Err(Error::MalformedOptions);
        },
    };
    let get_request = match GetRequest::from_options(&options_array) {
        Ok(q) => q,
        Err(e) => {
            return Err(e);
        },
    };
    let documents = get_documents(&get_request, store);
    proof {
        assert(forall|i: int| 0 <= i < documents@.len() ==> #[trigger] documents@[i]@ == docs_view(
            documents@,
        )[i]);
    }
    let messages = match documents_to_messages(&documents) {
        Ok(ms) => ms,
        Err(e) => {
            return Err(e);
        },
    };
    Ok(messages)
}

/// For a record in storage form, the retrieval predicate is exactly key
/// equality plus the strict bounds on the record's time: each bound that is
/// present excludes its own endpoint, so a caller wanting an inclusive
/// boundary must pass an adjusted value.
pub proof fn lemma_record_matching(k: Seq<char>, v: Seq<char>, t: u64, q: GetRequestV)
    ensures
        query_matches(doc_of(k, v, t), q) <==> {
            &&& k == q.key
            &&& (q.time_gt matches Some(g) ==> t > g)
            &&& (q.time_lt matches Some(l) ==> t < l)
        },
{
    crate::record::lemma_doc_of_fields(k, v, t);
}

/// Ingestion is deliberately not idempotent: there is no deduplication, so
/// two identical ingestion calls append two distinct records (differing at
/// most in their server-assigned times), and a key-only query afterwards
/// retrieves both, decoded intact, after whatever matched before.
pub proof fn lemma_duplicate_ingestion(docs: Seq<DocV>, k: Seq<char>, v: Seq<char>, t1: u64, t2: u64)
    ensures
        ({
            let q = GetRequestV { key: k, time_gt: None, time_lt: None };
            let d1 = doc_of(k, v, t1);
            let d2 = doc_of(k, v, t2);
            &&& matching(docs.push(d1).push(d2), q) == matching(docs, q).push(d1).push(d2)
            &&& spec_to_message(d1) == Some(MessageV { key: k, value: v, time: t1 })
            &&& spec_to_message(d2) == Some(MessageV { key: k, value: v, time: t2 })
        }),
{
    let q = GetRequestV { key: k, time_gt: None, time_lt: None };
    let d1 = doc_of(k, v, t1);
    let d2 = doc_of(k, v, t2);
    crate::record::lemma_doc_of_fields(k, v, t1);
    crate::record::lemma_doc_of_fields(k, v, t2);
    crate::record::lemma_round_trip(k, v, t1);
    crate::record::lemma_round_trip(k, v, t2);
    let once = docs.push(d1);
    let twice = once.push(d2);
    assert(twice.drop_last() =~= once);
    assert(once.drop_last() =~= docs);
    assert(query_matches(d1, q));
    assert(query_matches(d2, q));
    assert(matching(once, q) == matching(docs, q).push(d1));
    assert(matching(twice, q) == matching(once, q).push(d2));
}

} // verus!
