//! The wire envelope: its typed form, and its JSON encoding and decoding.

use vstd::prelude::*;
use crate::json::{
    JsonModel, json_parse, json_of, flat_object, flat_value, str_of, keys_distinct, has_key,
    parse_json, to_json_text, json_get, json_as_str, json_as_array, json_is_null, json_null,
    json_string, json_array, json_object,
};

verus! {

/// The kind of an envelope; on the wire a lowercase tag.
#[derive(Clone, Copy, Debug, PartialEq, Eq, Structural)]
pub enum MsgTypes {
    Users,
    Register,
    Message,
}

/// Every way in which handling a frame or rendering the state can fail.
/// None of them is fatal: the frame or the message concerned is dropped.
#[derive(Clone, Copy, Debug, PartialEq, Eq, Structural)]
pub enum ChatError {
    /// The frame is not JSON, or has no string `messageType`, or a payload field
    /// of the wrong type.
    MalformedEnvelope,
    /// The frame's `messageType` names no known kind.
    UnknownMessageKind,
    /// A chat envelope whose `data` is missing or is not a `{from, message}` object.
    MalformedMessagePayload,
    /// A message whose sender is not in the roster.
    UnresolvedSender,
    /// The outbound channel is closed.
    ChannelClosed,
}

/// The typed form of a wire envelope.
#[derive(Debug)]
pub struct Envelope {
    pub message_type: MsgTypes,
    pub data_array: Option<Vec<String>>,
    pub data: Option<String>,
}

/// The mathematical value of an envelope.
pub struct EnvelopeModel {
    pub kind: MsgTypes,
    pub list: Option<Seq<Seq<char>>>,
    pub scalar: Option<Seq<char>>,
}

pub open spec fn strings_view(v: Seq<String>) -> Seq<Seq<char>> {
    v.map_values(|s: String| s@)
}

impl View for Envelope {
    type V = EnvelopeModel;

    open spec fn view(&self) -> EnvelopeModel {
        EnvelopeModel {
            kind: self.message_type,
            list: match self.data_array {
                Some(v) => Some(strings_view(v@)),
                None => None,
            },
            scalar: match self.data {
                Some(s) => Some(s@),
                None => None,
            },
        }
    }
}

pub open spec fn envelope_result(r: Result<Envelope, ChatError>) -> Result<EnvelopeModel, ChatError> {
    match r {
        Ok(e) => Ok(e@),
        Err(x) => Err(x),
    }
}

/// The canonical (lowercase) wire tag of a kind.
pub open spec fn tag_text(k: MsgTypes) -> Seq<char> {
    match k {
        MsgTypes::Users => seq!['u', 's', 'e', 'r', 's'],
        MsgTypes::Register => seq!['r', 'e', 'g', 'i', 's', 't', 'e', 'r'],
        MsgTypes::Message => seq!['m', 'e', 's', 's', 'a', 'g', 'e'],
    }
}

/// `c` is the lowercase ASCII letter `t`, or its uppercase form.
pub open spec fn same_letter(c: char, t: char) -> bool {
    c == t || c as int + 32 == t as int
}

/// `s` spells the tag of `k`, ignoring ASCII case.
pub open spec fn tag_matches(s: Seq<char>, k: MsgTypes) -> bool {
    s.len() == tag_text(k).len() && forall|i: int| 0 <= i < s.len() ==> same_letter(#[trigger] s[i], tag_text(k)[i])
}

/// The kind that a wire tag names, if any.
pub open spec fn kind_of_tag(s: Seq<char>) -> Option<MsgTypes> {
    if tag_matches(s, MsgTypes::Users) {
        Some(MsgTypes::Users)
    } else if tag_matches(s, MsgTypes::Register) {
        Some(MsgTypes::Register)
    } else if tag_matches(s, MsgTypes::Message) {
        Some(MsgTypes::Message)
    } else {
        None
    }
}

/// A member of an object that is present and not `null`.
pub open spec fn member(m: Map<Seq<char>, JsonModel>, key: Seq<char>) -> Option<JsonModel> {
    if m.contains_key(key) && !(m[key] is Null) {
        Some(m[key])
    } else {
        None
    }
}

pub open spec fn all_str(items: Seq<JsonModel>) -> bool {
    forall|i: int| 0 <= i < items.len() ==> (#[trigger] items[i]) is Str
}

pub open spec fn strs_of(items: Seq<JsonModel>) -> Seq<Seq<char>> {
    items.map_values(|j: JsonModel| str_of(j))
}

/// A `dataArray` member that is present is an array of strings.
pub open spec fn list_ok(m: Map<Seq<char>, JsonModel>) -> bool {
    match member(m, "dataArray"@) {
        Some(a) => a is Arr && all_str(a->Arr_0),
        None => true,
    }
}

/// A `data` member that is present is a string.
pub open spec fn scalar_ok(m: Map<Seq<char>, JsonModel>) -> bool {
    match member(m, "data"@) {
        Some(s) => s is Str,
        None => true,
    }
}

/// The envelope that a JSON value stands for.
pub open spec fn envelope_from_json(j: JsonModel) -> Result<EnvelopeModel, ChatError> {
    match j {
        JsonModel::Obj(m) => {
            if !(m.contains_key("messageType"@) && m["messageType"@] is Str) {
                Err(ChatError::MalformedEnvelope)
            } else if kind_of_tag(str_of(m["messageType"@])) is None {
                Err(ChatError::UnknownMessageKind)
            } else if !list_ok(m) || !scalar_ok(m) {
                Err(ChatError::MalformedEnvelope)
            } else {
                Ok(
                    EnvelopeModel {
                        kind: kind_of_tag(str_of(m["messageType"@]))->Some_0,
                        list: match member(m, "dataArray"@) {
                            Some(a) => Some(strs_of(a->Arr_0)),
                            None => None,
                        },
                        scalar: match member(m, "data"@) {
                            Some(s) => Some(str_of(s)),
                            None => None,
                        },
                    },
                )
            }
        },
        _ => Err(ChatError::MalformedEnvelope),
    }
}

/// The envelope that a frame's text stands for.
pub open spec fn envelope_from_text(s: Seq<char>) -> Result<EnvelopeModel, ChatError> {
    match json_parse(s) {
        Some(j) => envelope_from_json(j),
        None => Err(ChatError::MalformedEnvelope),
    }
}

/// The JSON value that an envelope is written as.
pub open spec fn envelope_json(e: EnvelopeModel) -> JsonModel {
    JsonModel::Obj(
        map![
            "messageType"@ => JsonModel::Str(tag_text(e.kind)),
            "dataArray"@ => match e.list {
                Some(l) => JsonModel::Arr(l.map_values(|s: Seq<char>| JsonModel::Str(s))),
                None => JsonModel::Null,
            },
            "data"@ => match e.scalar {
                Some(s) => JsonModel::Str(s),
                None => JsonModel::Null,
            },
        ],
    )
}

/// Decoding gives back every envelope from the JSON value it is written as:
/// whatever text parses to that value decodes to the envelope.
pub proof fn lemma_envelope_round_trip(e: EnvelopeModel)
    ensures
        envelope_from_json(envelope_json(e)) == Ok::<EnvelopeModel, ChatError>(e),
        flat_object(envelope_json(e)),
        forall|s: Seq<char>| json_parse(s) == Some(envelope_json(e)) ==> envelope_from_text(s) == Ok::<EnvelopeModel, ChatError>(e),
{
    reveal_strlit("messageType");
    reveal_strlit("dataArray");
    reveal_strlit("data");
    assert("messageType"@.len() == 11);
    assert("dataArray"@.len() == 9);
    assert("data"@.len() == 4);
    let m = envelope_json(e)->Obj_0;
    assert(m.contains_key("messageType"@));
    assert(m["messageType"@] == JsonModel::Str(tag_text(e.kind)));
    assert(tag_matches(tag_text(e.kind), e.kind));
    assert(kind_of_tag(tag_text(e.kind)) == Some(e.kind));
    match e.list {
        Some(l) => {
            let a = l.map_values(|s: Seq<char>| JsonModel::Str(s));
            assert(m["dataArray"@] == JsonModel::Arr(a));
            assert(strs_of(a) =~= l);
        },
        None => {},
    }
    let r = envelope_from_json(envelope_json(e))->Ok_0;
    assert(r.list == e.list);
    assert(r.scalar == e.scalar);
    assert forall|k: Seq<char>| #[trigger] m.contains_key(k) implies flat_value(m[k]) by {}
}

/// The wire tag written for a kind.
fn tag_str(k: MsgTypes) -> (r: &'static str)
    ensures
        r@ == tag_text(k),
{
    match k {
        MsgTypes::Users => {
            proof {
                reveal_strlit("users");
            }
            assert("users"@ =~= tag_text(k));
            "users"
        },
        MsgTypes::Register => {
            proof {
                reveal_strlit("register");
            }
            assert("register"@ =~= tag_text(k));
            "register"
        },
        MsgTypes::Message => {
            proof {
                reveal_strlit("message");
            }
            assert("message"@ =~= tag_text(k));
            "message"
        },
    }
}

/// Whether `s` spells the tag of `k`, ignoring ASCII case.
fn matches_tag(s: &str, k: MsgTypes) -> (r: bool)
    ensures
        r == tag_matches(s@, k),
{
    let t = tag_str(k);
    let n = s.unicode_len();
    if n != t.unicode_len() {
        return false;
    }
    let mut i: usize = 0;
    while i < n
        invariant
            n == s@.len(),
            n == t@.len(),
            t@ == tag_text(k),
            i <= n,
            forall|j: int| 0 <= j < i ==> same_letter(#[trigger] s@[j], t@[j]),
        decreases n - i,
    {
        let c = s.get_char(i);
        let d = t.get_char(i);
        if !(c == d || (c as u32 as u64) + 32 == d as u32 as u64) {
            return false;
        }
        i = i + 1;
    }
    true
}

/// The kind that a wire tag names, ignoring ASCII case.
pub fn kind_from_tag(s: &str) -> (r: Option<MsgTypes>)
    ensures
        r == kind_of_tag(s@),
{
    if matches_tag(s, MsgTypes::Users) {
        Some(MsgTypes::Users)
    } else if matches_tag(s, MsgTypes::Register) {
        Some(MsgTypes::Register)
    } else if matches_tag(s, MsgTypes::Message) {
        Some(MsgTypes::Message)
    } else {
        None
    }
}

/// The strings held by a list of JSON values, if all of them are strings.
fn strings_of(items: &Vec<serde_json::Value>) -> (r: Option<Vec<String>>)
    ensures
        all_str(items@.map_values(|x: serde_json::Value| json_of(x))) ==> r is Some && strings_view(
            r->Some_0@,
        ) == strs_of(items@.map_values(|x: serde_json::Value| json_of(x))),
        !all_str(items@.map_values(|x: serde_json::Value| json_of(x))) ==> r is None,
{
    let ghost ms = items@.map_values(|x: serde_json::Value| json_of(x));
    let mut out: Vec<String> = Vec::new();
    let mut i: usize = 0;
    while i < items.len()
        invariant
            ms == items@.map_values(|x: serde_json::Value| json_of(x)),
            i <= items@.len(),
            out@.len() == i,
            forall|j: int| 0 <= j < i ==> (#[trigger] ms[j]) is Str,
            strings_view(out@) =~= strs_of(ms).subrange(0, i as int),
        decreases items@.len() - i,
    {
        match json_as_str(&items[i]) {
            Some(s) => {
                out.push(s);
            },
            None => {
                assert(!((ms[i as int]) is Str));
                return None;
            },
        }
        i = i + 1;
        assert(strings_view(out@) =~= strs_of(ms).subrange(0, i as int));
    }
    assert(strs_of(ms).subrange(0, i as int) =~= strs_of(ms));
    Some(out)
}

/// Reads a frame's text as an envelope.
pub fn decode(text: &str) -> (r: Result<Envelope, ChatError>)
    ensures
        envelope_result(r) == envelope_from_text(text@),
{
    let v = match parse_json(text) {
        Some(v) => v,
        None => return Err(ChatError::MalformedEnvelope),
    };
    let tag = match json_get(&v, "messageType") {
        Some(t) => t,
        None => return Err(ChatError::MalformedEnvelope),
    };
    let tag_s = match json_as_str(&tag) {
        Some(s) => s,
        None => return Err(ChatError::MalformedEnvelope),
    };
    let kind = match kind_from_tag(tag_s.as_str()) {
        Some(k) => k,
        None => return Err(ChatError::UnknownMessageKind),
    };
    let data_array = match json_get(&v, "dataArray") {
        None => None,
        Some(a) => {
            if json_is_null(&a) {
                None
            } else {
                match json_as_array(&a) {
                    None => return Err(ChatError::MalformedEnvelope),
                    Some(items) => match strings_of(&items) {
                        Some(l) => Some(l),
                        None => return Err(ChatError::MalformedEnvelope),
                    },
                }
            }
        },
    };
    let data = match json_get(&v, "data") {
        None => None,
        Some(d) => {
            if json_is_null(&d) {
                None
            } else {
                match json_as_str(&d) {
                    None => return Err(ChatError::MalformedEnvelope),
                    Some(s) => Some(s),
                }
            }
        },
    };
    Ok(Envelope { message_type: kind, data_array, data })
}

/// Writes an envelope as a frame's text.
pub fn encode(e: &Envelope) -> (r: String)
    ensures
        json_parse(r@) == Some(envelope_json(e@)),
        envelope_from_text(r@) == Ok::<EnvelopeModel, ChatError>(e@),
{
    let tag = json_string(String::from_str(tag_str(e.message_type)));
    let list = match &e.data_array {
        Some(l) => {
            let mut items: Vec<serde_json::Value> = Vec::new();
            let mut i: usize = 0;
            while i < l.len()
                invariant
                    i <= l@.len(),
                    items@.len() == i,
                    forall|j: int| 0 <= j < i ==> json_of(#[trigger] items@[j]) == JsonModel::Str(l@[j]@),
                decreases l@.len() - i,
            {
                items.push(json_string(l[i].clone()));
                i = i + 1;
            }
            assert(items@.map_values(|x: serde_json::Value| json_of(x)) =~= strings_view(l@).map_values(|s: Seq<char>| JsonModel::Str(s)));
            json_array(items)
        },
        None => json_null(),
    };
    let data = match &e.data {
        Some(s) => json_string(s.clone()),
        None => json_null(),
    };
    let mut entries: Vec<(String, serde_json::Value)> = Vec::new();
    entries.push((String::from_str("messageType"), tag));
    entries.push((String::from_str("dataArray"), list));
    entries.push((String::from_str("data"), data));
    proof {
        reveal_strlit("messageType");
        reveal_strlit("dataArray");
        reveal_strlit("data");
        assert("messageType"@.len() == 11);
        assert("dataArray"@.len() == 9);
        assert("data"@.len() == 4);
        let k0 = entries@[0].0;
        assert(k0@ == "messageType"@);
        assert(keys_distinct(entries@));
    }
    let v = json_object(entries);
    proof {
        let m = json_of(v)->Obj_0;
        let w = envelope_json(e@)->Obj_0;
        assert(entries@[1].0@ == "dataArray"@);
        assert(entries@[2].0@ == "data"@);
        assert(has_key(entries@, "messageType"@));
        assert(has_key(entries@, "dataArray"@));
        assert(has_key(entries@, "data"@));
        assert(m.dom() =~= w.dom());
        assert(m =~= w);
        lemma_envelope_round_trip(e@);
    }
    to_json_text(&v)
}

/// The registration envelope that announces `username`.
pub fn build_register(username: &str) -> (r: Envelope)
    ensures
        r@ == (EnvelopeModel { kind: MsgTypes::Register, list: None, scalar: Some(username@) }),
{
    Envelope { message_type: MsgTypes::Register, data_array: None, data: Some(String::from_str(username)) }
}

/// The chat envelope that carries the raw text `body`; the server stamps the sender.
pub fn build_chat_message(body: &str) -> (r: Envelope)
    ensures
        r@ == (EnvelopeModel { kind: MsgTypes::Message, list: None, scalar: Some(body@) }),
{
    Envelope { message_type: MsgTypes::Message, data_array: None, data: Some(String::from_str(body)) }
}

} // verus!
