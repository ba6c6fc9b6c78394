//! The one procedure that the broker serves itself: `core.new_rpc`, by which a
//! peer offers to serve a function.

use crate::json::{
    json_entries,
    json_member,
    json_text,
    json_u64,
    member,
    number,
    object,
    string,
    text,
    unsigned,
};
use crate::seqs::{any, entries_map, keyed, lemma_any, lemma_found};
use serde_json::Value;
use vstd::prelude::*;

verus! {

/// The arguments of `core.new_rpc`: the function's name and the priority at
/// which the peer offers to serve it. A lower number is tried first.
#[derive(Debug, PartialEq, Eq)]
pub struct NewRpcRequest {
    pub priority: u16,
    pub name: String,
}

/// The name of the procedure that the broker serves itself.
pub open spec fn new_rpc_name() -> Seq<char> {
    "core.new_rpc"@
}

/// The priority that `args` asks for: the member `priority`, when it is an
/// integer that fits in 16 bits.
pub open spec fn requested_priority(args: Value) -> Option<u16> {
    match json_member(args, "priority"@) {
        Some(p) => match json_u64(p) {
            Some(n) => if n <= u16::MAX {
                Some(n as u16)
            } else {
                None
            },
            None => None,
        },
        None => None,
    }
}

/// The function name that `args` gives: the member `name`, when it is a
/// string.
pub open spec fn requested_name(args: Value) -> Option<Seq<char>> {
    match json_member(args, "name"@) {
        Some(n) => json_text(n),
        None => None,
    }
}

/// Whether `args` is a request to register a function: an object with an
/// integer `priority` of at most 65535 and a string `name`.
pub open spec fn is_new_rpc_request(args: Value) -> bool {
    requested_priority(args) is Some && requested_name(args) is Some
}

impl NewRpcRequest {
    /// Writes the request as the arguments of a call: an object with the
    /// members `priority` and `name`. Reading it gives the request back.
    pub fn encode(&self) -> (res: Value)
        ensures
            is_new_rpc_request(res),
            requested_priority(res) == Some(self.priority),
            requested_name(res) == Some(self.name@),
            json_entries(res) matches Some(members) && members.dom() == set!["priority"@, "name"@],
    {
        let mut members: Vec<(String, Value)> = Vec::new();
        members.push((String::from_str("priority"), number(self.priority as u64)));
        members.push((String::from_str("name"), string(self.name.clone())));
        proof {
            reveal_strlit("priority");
            reveal_strlit("name");
            assert("priority"@.len() != "name"@.len());
            lemma_found(members@, 0);
            lemma_found(members@, 1);
            assert(entries_map(members@).dom() =~= set!["priority"@, "name"@]) by {
                assert forall|key: Seq<char>|
                    any(members@, keyed::<Value>(key)) <==> (key == "priority"@ || key
                        == "name"@) by {
                    lemma_any(members@, keyed::<Value>(key));
                    if key == "priority"@ {
                        assert(keyed::<Value>(key)(members@[0]));
                    }
                    if key == "name"@ {
                        assert(keyed::<Value>(key)(members@[1]));
                    }
                }
            }
        }
        object(members)
    }

    /// Reads a registration request out of the arguments of a call; `None`
    /// when they are not one.
    pub fn decode(args: &Value) -> (res: Option<NewRpcRequest>)
        ensures
            res is Some <==> is_new_rpc_request(*args),
            res matches Some(request) ==> Some(request.priority) == requested_priority(*args)
                && Some(request.name@) == requested_name(*args),
    {
        let priority: u16 = match member(args, "priority") {
            Some(p) => match unsigned(p) {
                Some(n) => {
                    if n <= 65535 {
                        n as u16
                    } else {
                        return None;
                    }
                },
                None => {
                    return None;
                },
            },
            None => {
                return None;
            },
        };
        match member(args, "name") {
            Some(n) => match text(n) {
                Some(name) => Some(NewRpcRequest { priority, name }),
                None => None,
            },
            None => None,
        }
    }
}

} // verus!
