//! The networking bridge's verified core: the shared header set, the
//! classification of completed HTTP exchanges into script-visible replies,
//! the flat JSON object decode, and the reentrancy gate that forbids
//! nesting one per-call task runner inside another.
//!
//! The transport itself (issuing the GET and collecting status, headers
//! and body) is outside work performed by the host around this module.
use vstd::prelude::*;
use vstd::string::*;

use crate::kvmap;
use crate::text;

verus! {

/// The mutable header set attached to every outgoing request.
pub struct HeaderSet {
    entries: Vec<(String, String)>,
}

impl View for HeaderSet {
    type V = Map<Seq<char>, Seq<char>>;

    closed spec fn view(&self) -> Map<Seq<char>, Seq<char>> {
        kvmap::assoc_map(self.entries@)
    }
}

impl HeaderSet {
    /// Well-formedness: no header name is stored twice.
    pub closed spec fn wf(&self) -> bool {
        kvmap::distinct_keys(self.entries@)
    }

    /// The headers every fresh session starts with.
    pub fn new() -> (hs: HeaderSet)
        ensures
            hs.wf(),
            hs@ == Map::<Seq<char>, Seq<char>>::empty().insert("User-Agent"@, "Cumulus/1.0"@)
                .insert("Accept"@, "application/json"@),
    {
        let mut entries: Vec<(String, String)> = Vec::new();
        let k1 = String::from_str("User-Agent");
        let v1 = String::from_str("Cumulus/1.0");
        proof {
            kvmap::lemma_assoc_map_push(entries@, k1, v1);
        }
        entries.push((k1, v1));
        let k2 = String::from_str("Accept");
        let v2 = String::from_str("application/json");
        proof {
            reveal_strlit("User-Agent");
            reveal_strlit("Accept");
            assert("User-Agent"@.len() == 10);
            assert("Accept"@.len() == 6);
            kvmap::lemma_assoc_map_push(entries@, k2, v2);
        }
        entries.push((k2, v2));
        proof {
            assert(kvmap::distinct_keys(entries@));
        }
        HeaderSet { entries }
    }

    /// The position of a header name, if present.
    fn find_index(&self, key: &String) -> (r: Option<usize>)
        ensures
            match r {
                Some(i) => i < self.entries@.len() && self.entries@[i as int].0@ == key@,
                None => !kvmap::has_key(self.entries@, key@),
            },
    {
        let mut i: usize = 0;
        while i < self.entries.len()
            invariant
                i <= self.entries@.len(),
                forall|j: int| 0 <= j < i ==> self.entries@[j].0@ != key@,
            decreases self.entries@.len() - i,
        {
            if self.entries[i].0 == *key {
                return Some(i);
            }
            i += 1;
        }
        None
    }

    /// Sets a header: a later value for the same name replaces the
    /// earlier one, and takes effect on all subsequent requests.
    pub fn set(&mut self, key: String, value: String)
        requires
            old(self).wf(),
        ensures
            final(self).wf(),
            final(self)@ == old(self)@.insert(key@, value@),
    {
        match self.find_index(&key) {
            None => {
                proof {
                    kvmap::lemma_assoc_map_push(self.entries@, key, value);
                }
                self.entries.push((key, value));
                proof {
                    assert(kvmap::distinct_keys(self.entries@));
                }
            },
            Some(i) => {
                let ghost s0 = self.entries@;
                proof {
                    kvmap::lemma_assoc_map_remove::<String, String>(s0, i as int);
                }
                let _ = self.entries.remove(i);
                proof {
                    assert forall|j: int|
                        0 <= j < self.entries@.len() implies self.entries@[j].0@ != key@ by {
                        if j < i {
                            assert(self.entries@[j] == s0[j]);
                        } else {
                            assert(self.entries@[j] == s0[j + 1]);
                        }
                    }
                    assert(kvmap::distinct_keys(self.entries@));
                    kvmap::lemma_assoc_map_push(self.entries@, key, value);
                }
                self.entries.push((key, value));
                proof {
                    assert(kvmap::distinct_keys(self.entries@));
                    assert(kvmap::assoc_map(s0).remove(s0[i as int].0@).insert(key@, value@)
                        =~= kvmap::assoc_map(s0).insert(key@, value@));
                }
            },
        }
    }

    /// The current value of a header, if set.
    pub fn get(&self, key: &String) -> (r: Option<&String>)
        requires
            self.wf(),
        ensures
            match r {
                Some(v) => self@.dom().contains(key@) && v@ == self@[key@],
                None => !self@.dom().contains(key@),
            },
    {
        proof {
            kvmap::lemma_assoc_map_dom::<String, String>(self.entries@);
        }
        match self.find_index(key) {
            Some(i) => {
                proof {
                    kvmap::lemma_assoc_map_index::<String, String>(self.entries@, i as int);
                }
                Some(&self.entries[i].1)
            },
            None => None,
        }
    }

    /// The header pairs to attach to an outgoing request.
    pub fn entries(&self) -> (r: &Vec<(String, String)>)
        requires
            self.wf(),
        ensures
            kvmap::distinct_keys(r@),
            kvmap::assoc_map(r@) == self@,
    {
        &self.entries
    }
}

/// A 2xx status.
pub open spec fn spec_is_success(status: u16) -> bool {
    200 <= status < 300
}

/// What the script receives from the plain `get` operation.
#[derive(Debug, PartialEq, Eq)]
pub enum GetReply {
    Failure { message: String },
    Success { status_line: String, body: String },
}

/// Classifies a completed GET exchange: a non-2xx status yields a failure
/// carrying the status line; otherwise the status line and the body are
/// handed through unchanged.
pub fn get_reply(status: u16, status_line: String, body: String) -> (r: GetReply)
    ensures
        spec_is_success(status) ==> (r matches GetReply::Success { status_line: sl, body: b }
            && sl@ == status_line@ && b@ == body@),
        !spec_is_success(status) ==> (r matches GetReply::Failure { message } && message@
            == status_line@),
{
    if 200 <= status && status < 300 {
        GetReply::Success { status_line, body }
    } else {
        GetReply::Failure { message: status_line }
    }
}

/// The flat string-to-string object a body decodes to, if it decodes.
pub uninterp spec fn json_object_of(body: Seq<char>) -> Option<Map<Seq<char>, Seq<char>>>;

/// Relies on serde_json::from_str: whether and to what a text decodes as
/// a flat string-to-string object depends on that text alone; the entries
/// come back in an unspecified order.
#[verifier::external_body]
fn decode_flat_object(body: &str) -> (r: Option<Vec<(String, String)>>)
    ensures
        r is Some <==> json_object_of(body@) is Some,
        r matches Some(v) ==> json_object_of(body@) matches Some(m) && kvmap::distinct_keys(v@)
            && kvmap::assoc_map(v@) == m,
{
    match serde_json::from_str::<std::collections::HashMap<String, String>>(body) {
        Ok(m) => Some(m.into_iter().collect()),
        Err(_) => None,
    }
}

/// The content type names a JSON payload.
pub open spec fn content_type_is_json(ct: Option<Seq<char>>) -> bool {
    match ct {
        Some(s) => text::contains_sub(s, "application/json"@),
        None => false,
    }
}

/// What the script receives from the `json` operation.
#[derive(Debug, PartialEq, Eq)]
pub enum JsonReply {
    Failure { message: String },
    Object { entries: Vec<(String, String)> },
}

/// Classifies a completed GET for the `json` operation: a non-2xx status
/// fails with the status line; a content type that does not indicate
/// JSON fails without any decode attempt; otherwise the body is decoded
/// as a flat string-to-string object, and a decode failure surfaces as a
/// script-visible error, never a host crash.
pub fn json_reply(
    status: u16,
    status_line: String,
    content_type: &Option<String>,
    body: &str,
) -> (r: JsonReply)
    ensures
        !spec_is_success(status) ==> (r matches JsonReply::Failure { message } && message@
            == status_line@),
        spec_is_success(status) && !content_type_is_json(content_type.deep_view())
            ==> (r matches JsonReply::Failure { message } && message@
            == "Response is not valid json"@),
        spec_is_success(status) && content_type_is_json(content_type.deep_view())
            && json_object_of(body@) is None ==> (r matches JsonReply::Failure { message }
            && message@ == "Failed to decode json response"@),
        spec_is_success(status) && content_type_is_json(content_type.deep_view()) ==> (
        json_object_of(body@) matches Some(m) ==> (r matches JsonReply::Object { entries }
            && kvmap::distinct_keys(entries@) && kvmap::assoc_map(entries@) == m)),
{
    if !(200 <= status && status < 300) {
        return JsonReply::Failure { message: status_line };
    }
    let ct_json = match content_type {
        Some(ct) => text::str_contains(ct.as_str(), "application/json"),
        None => false,
    };
    if !ct_json {
        return JsonReply::Failure { message: String::from_str("Response is not valid json") };
    }
    match decode_flat_object(body) {
        Some(entries) => JsonReply::Object { entries },
        None => JsonReply::Failure {
            message: String::from_str("Failed to decode json response"),
        },
    }
}

/// The reentrancy gate of the bridge: a per-call asynchronous task runner
/// must never be created while one is already running on this thread.
pub struct TaskGate {
    busy: bool,
}

impl TaskGate {
    /// A call is currently in flight.
    pub closed spec fn is_busy(&self) -> bool {
        self.busy
    }

    pub fn new() -> (g: TaskGate)
        ensures
            !g.is_busy(),
    {
        TaskGate { busy: false }
    }

    /// Claims the bridge for one call; refused exactly when a call is
    /// already in flight, which is the nested-runner case.
    pub fn enter(&mut self) -> (ok: bool)
        ensures
            ok == !old(self).is_busy(),
            final(self).is_busy(),
    {
        if self.busy {
            false
        } else {
            self.busy = true;
            true
        }
    }

    /// Releases the bridge once the call's runner is torn down.
    pub fn leave(&mut self)
        ensures
            !final(self).is_busy(),
    {
        self.busy = false;
    }
}

} // verus!
