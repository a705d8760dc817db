//! Client-side chat state: the reducer that applies inbound envelopes, the
//! outbound frames, and the render-ready projection of the state.

use vstd::prelude::*;
use crate::envelope::{
    ChatError, Envelope, EnvelopeModel, MsgTypes, envelope_from_text, envelope_json, decode, encode,
    build_register, build_chat_message,
};
use crate::json::{JsonModel, json_parse, str_of, parse_json, json_get, json_as_str};

verus! {

/// The avatar URL of a user: a pure function of the name.
pub open spec fn avatar_url(name: Seq<char>) -> Seq<char> {
    "https://robohash.org/"@ + name + ".png?set=set4"@
}

/// The avatar URL of a user.
pub fn generate_avatar_for_user(user_name: &str) -> (r: String)
    ensures
        r@ == avatar_url(user_name@),
{
    let s = String::from_str("https://robohash.org/");
    let s = s.concat(user_name);
    s.concat(".png?set=set4")
}

/// Avatar URLs are never empty, equal names give equal URLs, and distinct
/// names give distinct URLs.
pub proof fn lemma_avatar_injective(a: Seq<char>, b: Seq<char>)
    ensures
        avatar_url(a).len() > 0,
        (avatar_url(a) == avatar_url(b)) <==> (a == b),
{
    reveal_strlit("https://robohash.org/");
    reveal_strlit(".png?set=set4");
    let p: int = "https://robohash.org/"@.len() as int;
    assert(p == 21);
    assert(".png?set=set4"@.len() == 13);
    assert(avatar_url(a).len() == p + a.len() + 13);
    assert(avatar_url(b).len() == p + b.len() + 13);
    if avatar_url(a) == avatar_url(b) {
        assert(a.len() == b.len());
        assert(a =~= avatar_url(a).subrange(p, p + a.len()));
        assert(b =~= avatar_url(b).subrange(p, p + b.len()));
    }
}

/// A user in the roster.
#[derive(Debug)]
pub struct UserProfile {
    pub name: String,
    pub avatar: String,
}

impl UserProfile {
    /// A copy of the profile.
    pub fn duplicate(&self) -> (r: UserProfile)
        ensures
            r.name@ == self.name@,
            r.avatar@ == self.avatar@,
    {
        UserProfile { name: self.name.clone(), avatar: self.avatar.clone() }
    }
}

/// A chat message as the server relays it.
#[derive(Debug)]
pub struct ChatMessage {
    pub from: String,
    pub message: String,
}

/// The mathematical value of the chat state: the roster's names in order, and
/// the log of (sender, body) pairs in arrival order.
pub struct ChatModel {
    pub roster: Seq<Seq<char>>,
    pub messages: Seq<(Seq<char>, Seq<char>)>,
}

/// The client-side state of a chat session.
pub struct Chat {
    pub users: Vec<UserProfile>,
    pub messages: Vec<ChatMessage>,
}

impl Chat {
    /// The mathematical value of the state.
    pub open spec fn model(&self) -> ChatModel {
        ChatModel {
            roster: self.users@.map_values(|u: UserProfile| u.name@),
            messages: self.messages@.map_values(|m: ChatMessage| (m.from@, m.message@)),
        }
    }

    /// Every roster entry carries the avatar of its name.
    pub open spec fn wf(&self) -> bool {
        forall|i: int| 0 <= i < self.users@.len() ==> (#[trigger] self.users@[i]).avatar@ == avatar_url(self.users@[i].name@)
    }
}

/// The (sender, body) pair that a chat payload's JSON stands for.
pub open spec fn payload_from_json(j: JsonModel) -> Result<(Seq<char>, Seq<char>), ChatError> {
    match j {
        JsonModel::Obj(m) => {
            if m.contains_key("from"@) && m["from"@] is Str && m.contains_key("message"@) && m["message"@] is Str {
                Ok((str_of(m["from"@]), str_of(m["message"@])))
            } else {
                Err(ChatError::MalformedMessagePayload)
            }
        },
        _ => Err(ChatError::MalformedMessagePayload),
    }
}

/// The (sender, body) pair that a chat payload's text stands for.
pub open spec fn payload_from_text(s: Seq<char>) -> Result<(Seq<char>, Seq<char>), ChatError> {
    match json_parse(s) {
        Some(j) => payload_from_json(j),
        None => Err(ChatError::MalformedMessagePayload),
    }
}

/// The chat message that a chat envelope carries.
pub open spec fn payload_of(e: EnvelopeModel) -> Result<(Seq<char>, Seq<char>), ChatError> {
    match e.scalar {
        Some(s) => payload_from_text(s),
        None => Err(ChatError::MalformedMessagePayload),
    }
}

/// What handling an envelope returns: whether a redraw is due, or the error.
pub open spec fn handle_outcome(e: EnvelopeModel) -> Result<bool, ChatError> {
    match e.kind {
        MsgTypes::Users => Ok(true),
        MsgTypes::Message => match payload_of(e) {
            Ok(_) => Ok(true),
            Err(x) => Err(x),
        },
        MsgTypes::Register => Ok(false),
    }
}

/// The state after handling an envelope: a roster is replaced whole, a chat
/// message is appended, anything else leaves the state as it was.
pub open spec fn next_state(s: ChatModel, e: EnvelopeModel) -> ChatModel {
    match e.kind {
        MsgTypes::Users => ChatModel {
            roster: match e.list {
                Some(l) => l,
                None => Seq::empty(),
            },
            messages: s.messages,
        },
        MsgTypes::Message => match payload_of(e) {
            Ok(p) => ChatModel { roster: s.roster, messages: s.messages.push(p) },
            Err(_) => s,
        },
        MsgTypes::Register => s,
    }
}

/// Reads a chat payload `{"from": ..., "message": ...}`.
pub fn decode_chat_payload(text: &str) -> (r: Result<ChatMessage, ChatError>)
    ensures
        match r {
            Ok(m) => payload_from_text(text@) == Ok::<(Seq<char>, Seq<char>), ChatError>((m.from@, m.message@)),
            Err(x) => payload_from_text(text@) == Err::<(Seq<char>, Seq<char>), ChatError>(x),
        },
{
    let v = match parse_json(text) {
        Some(v) => v,
        None => return Err(ChatError::MalformedMessagePayload),
    };
    let from = match json_get(&v, "from") {
        Some(f) => match json_as_str(&f) {
            Some(s) => s,
            None => return Err(ChatError::MalformedMessagePayload),
        },
        None => return Err(ChatError::MalformedMessagePayload),
    };
    let message = match json_get(&v, "message") {
        Some(m) => match json_as_str(&m) {
            Some(s) => s,
            None => return Err(ChatError::MalformedMessagePayload),
        },
        None => return Err(ChatError::MalformedMessagePayload),
    };
    Ok(ChatMessage { from, message })
}

/// The roster that a list of names stands for, in the same order.
fn profiles_of(names: &Vec<String>) -> (r: Vec<UserProfile>)
    ensures
        r@.map_values(|u: UserProfile| u.name@) =~= names@.map_values(|s: String| s@),
        forall|i: int| 0 <= i < r@.len() ==> (#[trigger] r@[i]).avatar@ == avatar_url(r@[i].name@),
{
    let mut out: Vec<UserProfile> = Vec::new();
    let mut i: usize = 0;
    while i < names.len()
        invariant
            i <= names@.len(),
            out@.len() == i,
            forall|j: int| 0 <= j < i ==> (#[trigger] out@[j]).name@ == names@[j]@,
            forall|j: int| 0 <= j < i ==> (#[trigger] out@[j]).avatar@ == avatar_url(out@[j].name@),
        decreases names@.len() - i,
    {
        let name = &names[i];
        let avatar = generate_avatar_for_user(name.as_str());
        out.push(UserProfile { name: name.clone(), avatar });
        i = i + 1;
    }
    out
}

/// An event that the chat component reacts to.
pub enum Msg {
    /// A frame arrived from the server.
    HandleMsg(String),
    /// The user submitted the text in the input field.
    SubmitMessage(String),
}

/// What the surrounding view must do after an event.
#[derive(Debug)]
pub enum Reaction {
    /// The state changed: render again.
    Redraw,
    /// Nothing changed.
    Unchanged,
    /// Send this frame to the server.
    Send(String),
}

/// The reaction that a handling outcome calls for.
pub open spec fn reaction_of(o: Result<bool, ChatError>) -> Result<Reaction, ChatError> {
    match o {
        Ok(true) => Ok(Reaction::Redraw),
        Ok(false) => Ok(Reaction::Unchanged),
        Err(x) => Err(x),
    }
}

/// The empty state.
pub open spec fn empty_model() -> ChatModel {
    ChatModel { roster: Seq::empty(), messages: Seq::empty() }
}

impl Chat {
    /// Starts a session for `username`: the empty state, and the registration
    /// frame to send before anything else.
    pub fn create(username: &str) -> (r: (Chat, String))
        ensures
            r.0.model() == empty_model(),
            r.0.wf(),
            json_parse(r.1@) == Some(envelope_json(EnvelopeModel { kind: MsgTypes::Register, list: None, scalar: Some(username@) })),
            envelope_from_text(r.1@) == Ok::<EnvelopeModel, ChatError>(EnvelopeModel { kind: MsgTypes::Register, list: None, scalar: Some(username@) }),
    {
        let chat = Chat { users: Vec::new(), messages: Vec::new() };
        assert(chat.model().roster =~= Seq::<Seq<char>>::empty());
        assert(chat.model().messages =~= Seq::<(Seq<char>, Seq<char>)>::empty());
        let frame = encode(&build_register(username));
        (chat, frame)
    }

    /// Applies an inbound envelope to the state, and says whether a redraw is due.
    pub fn handle(&mut self, env: &Envelope) -> (r: Result<bool, ChatError>)
        ensures
            final(self).model() == next_state(old(self).model(), env@),
            r == handle_outcome(env@),
            old(self).wf() ==> final(self).wf(),
            env@.kind is Users ==> final(self).wf(),
            env@.kind is Users ==> final(self).users@.len() == env@.list.unwrap_or(Seq::empty()).len(),
            env@.kind is Users ==> forall|i: int| 0 <= i < final(self).users@.len() ==> (#[trigger] final(self).users@[i]).avatar@.len() > 0,
    {
        match env.message_type {
            MsgTypes::Users => {
                let users = match &env.data_array {
                    Some(names) => profiles_of(names),
                    None => Vec::new(),
                };
                self.users = users;
                assert(self.model().roster =~= next_state(old(self).model(), env@).roster);
                assert(self.users@.len() == self.model().roster.len());
                assert forall|i: int| 0 <= i < self.users@.len() implies (#[trigger] self.users@[i]).avatar@.len() > 0 by {
                    lemma_avatar_injective(self.users@[i].name@, self.users@[i].name@);
                }
                Ok(true)
            },
            MsgTypes::Message => {
                let decoded = match &env.data {
                    Some(text) => decode_chat_payload(text.as_str()),
                    None => Err(ChatError::MalformedMessagePayload),
                };
                match decoded {
                    Ok(m) => {
                        self.messages.push(m);
                        assert(self.model().messages =~= next_state(old(self).model(), env@).messages);
                        Ok(true)
                    },
                    Err(x) => Err(x),
                }
            },
            MsgTypes::Register => Ok(false),
        }
    }

    /// Reacts to an event: an inbound frame is decoded and applied; submitted
    /// text becomes an outbound chat frame. A frame that fails leaves the state
    /// as it was.
    pub fn update(&mut self, msg: Msg) -> (r: Result<Reaction, ChatError>)
        ensures
            old(self).wf() ==> final(self).wf(),
            match msg {
                Msg::HandleMsg(frame) => match envelope_from_text(frame@) {
                    Ok(e) => final(self).model() == next_state(old(self).model(), e) && r == reaction_of(handle_outcome(e)),
                    Err(x) => final(self).model() == old(self).model() && r == Err::<Reaction, ChatError>(x),
                },
                Msg::SubmitMessage(text) => final(self).model() == old(self).model() && r is Ok && r->Ok_0 is Send
                    && envelope_from_text(r->Ok_0->Send_0@) == Ok::<EnvelopeModel, ChatError>(EnvelopeModel { kind: MsgTypes::Message, list: None, scalar: Some(text@) }),
            },
    {
        match msg {
            Msg::HandleMsg(frame) => match decode(frame.as_str()) {
                Ok(env) => match self.handle(&env) {
                    Ok(true) => Ok(Reaction::Redraw),
                    Ok(false) => Ok(Reaction::Unchanged),
                    Err(x) => Err(x),
                },
                Err(x) => Err(x),
            },
            Msg::SubmitMessage(text) => Ok(Reaction::Send(encode(&build_chat_message(text.as_str())))),
        }
    }
}

/// Handling the same roster envelope twice leaves the roster as once: a
/// roster replaces the previous one whole.
pub proof fn lemma_roster_replay(s: ChatModel, e: EnvelopeModel)
    requires
        e.kind is Users,
    ensures
        next_state(next_state(s, e), e) == next_state(s, e),
        next_state(next_state(s, e), e).roster == e.list.unwrap_or(Seq::empty()),
{
}

/// The state after handling a sequence of envelopes in order.
pub open spec fn run(s: ChatModel, es: Seq<EnvelopeModel>) -> ChatModel
    decreases es.len(),
{
    if es.len() == 0 {
        s
    } else {
        next_state(run(s, es.drop_last()), es.last())
    }
}

/// The chat messages carried by those envelopes whose payload decodes, in order.
pub open spec fn decoded_payloads(es: Seq<EnvelopeModel>) -> Seq<(Seq<char>, Seq<char>)>
    decreases es.len(),
{
    if es.len() == 0 {
        Seq::empty()
    } else {
        match payload_of(es.last()) {
            Ok(p) => decoded_payloads(es.drop_last()).push(p),
            Err(_) => decoded_payloads(es.drop_last()),
        }
    }
}

/// Chat envelopes only ever append to the log: after a sequence of them, the
/// log is the old log followed by each payload that decoded, in arrival
/// order, and the roster is untouched.
pub proof fn lemma_messages_append_only(s: ChatModel, es: Seq<EnvelopeModel>)
    requires
        forall|i: int| 0 <= i < es.len() ==> (#[trigger] es[i]).kind is Message,
    ensures
        run(s, es).messages == s.messages + decoded_payloads(es),
        run(s, es).messages.len() == s.messages.len() + decoded_payloads(es).len(),
        run(s, es).roster == s.roster,
    decreases es.len(),
{
    if es.len() == 0 {
        assert(s.messages + Seq::empty() =~= s.messages);
    } else {
        let init = es.drop_last();
        assert forall|i: int| 0 <= i < init.len() implies (#[trigger] init[i]).kind is Message by {
            assert(init[i] == es[i]);
        }
        lemma_messages_append_only(s, init);
        assert(es.last() == es[es.len() - 1]);
        match payload_of(es.last()) {
            Ok(p) => {
                assert(s.messages + decoded_payloads(init).push(p) =~= (s.messages + decoded_payloads(init)).push(p));
            },
            Err(_) => {},
        }
    }
}

/// `s` ends with exactly the characters of `suffix`.
pub open spec fn ends_with(s: Seq<char>, suffix: Seq<char>) -> bool {
    s.len() >= suffix.len() && s.subrange(s.len() - suffix.len(), s.len() as int) == suffix
}

/// A body that ends with `.gif` (case-sensitive) is shown as an image.
pub open spec fn is_gif_body(body: Seq<char>) -> bool {
    ends_with(body, ".gif"@)
}

/// Whether a message body is shown as an image.
pub fn is_gif(body: &str) -> (r: bool)
    ensures
        r == is_gif_body(body@),
{
    let suffix = ".gif";
    let n = body.unicode_len();
    let m = suffix.unicode_len();
    if n < m {
        return false;
    }
    let mut i: usize = 0;
    while i < m
        invariant
            n == body@.len(),
            m == suffix@.len(),
            suffix@ == ".gif"@,
            m <= n,
            i <= m,
            forall|j: int| 0 <= j < i ==> body@[n - m + j] == #[trigger] suffix@[j],
        decreases m - i,
    {
        if body.get_char(n - m + i) != suffix.get_char(i) {
            assert(body@.subrange(n - m, n as int)[i as int] != suffix@[i as int]);
            return false;
        }
        i = i + 1;
    }
    assert(body@.subrange(n - m, n as int) =~= suffix@);
    true
}

/// `i` is the first roster position that holds the name `n`.
pub open spec fn is_first_match(names: Seq<Seq<char>>, n: Seq<char>, i: int) -> bool {
    0 <= i < names.len() && names[i] == n && forall|j: int| 0 <= j < i ==> names[j] != n
}

/// The avatar shown for a sender that is not in the roster.
pub open spec fn placeholder_avatar() -> Seq<char> {
    "/assets/avatar-placeholder.png"@
}

/// A message ready to render.
#[derive(Debug)]
pub struct MessageView {
    pub sender: String,
    pub body: String,
    /// The body is shown as an image.
    pub is_gif: bool,
    /// The sender's roster entry, or `UnresolvedSender`.
    pub profile: Result<UserProfile, ChatError>,
}

impl MessageView {
    /// The avatar to show: the sender's, or a neutral placeholder.
    pub fn avatar(&self) -> (r: String)
        ensures
            r@ == match self.profile {
                Ok(p) => p.avatar@,
                Err(_) => placeholder_avatar(),
            },
    {
        match &self.profile {
            Ok(p) => p.avatar.clone(),
            Err(_) => String::from_str("/assets/avatar-placeholder.png"),
        }
    }
}

/// The state ready to render: the roster, and the messages with their senders.
#[derive(Debug)]
pub struct ChatView {
    pub users: Vec<UserProfile>,
    pub messages: Vec<MessageView>,
}

impl Chat {
    /// The roster entry of the first user named `name`, or `UnresolvedSender`.
    pub fn resolve_sender(&self, name: &String) -> (r: Result<UserProfile, ChatError>)
        ensures
            match r {
                Ok(p) => exists|i: int| is_first_match(self.model().roster, name@, i) && p.name@ == self.users@[i].name@ && p.avatar@ == self.users@[i].avatar@,
                Err(x) => x == ChatError::UnresolvedSender && !self.model().roster.contains(name@),
            },
    {
        let ghost names = self.model().roster;
        let mut i: usize = 0;
        while i < self.users.len()
            invariant
                names == self.model().roster,
                i <= self.users@.len(),
                forall|j: int| 0 <= j < i ==> names[j] != name@,
            decreases self.users@.len() - i,
        {
            if self.users[i].name == *name {
                assert(is_first_match(names, name@, i as int));
                return Ok(self.users[i].duplicate());
            }
            i = i + 1;
        }
        Err(ChatError::UnresolvedSender)
    }

    /// The render-ready projection of the state. A message whose sender is not
    /// in the roster gets `UnresolvedSender` as its profile; the others are not
    /// affected.
    pub fn view(&self) -> (r: ChatView)
        ensures
            r.users@.len() == self.users@.len(),
            forall|i: int| 0 <= i < r.users@.len() ==> (#[trigger] r.users@[i]).name@ == self.users@[i].name@ && r.users@[i].avatar@ == self.users@[i].avatar@,
            r.messages@.len() == self.messages@.len(),
            forall|k: int| 0 <= k < r.messages@.len() ==> {
                let v = #[trigger] r.messages@[k];
                let m = self.messages@[k];
                &&& v.sender@ == m.from@
                &&& v.body@ == m.message@
                &&& v.is_gif == is_gif_body(m.message@)
                &&& match v.profile {
                    Ok(p) => exists|i: int| is_first_match(self.model().roster, m.from@, i) && p.name@ == self.users@[i].name@ && p.avatar@ == self.users@[i].avatar@,
                    Err(x) => x == ChatError::UnresolvedSender && !self.model().roster.contains(m.from@),
                }
            },
    {
        let mut users: Vec<UserProfile> = Vec::new();
        let mut i: usize = 0;
        while i < self.users.len()
            invariant
                i <= self.users@.len(),
                users@.len() == i,
                forall|j: int| 0 <= j < i ==> (#[trigger] users@[j]).name@ == self.users@[j].name@ && users@[j].avatar@ == self.users@[j].avatar@,
            decreases self.users@.len() - i,
        {
            users.push(self.users[i].duplicate());
            i = i + 1;
        }
        let mut messages: Vec<MessageView> = Vec::new();
        let mut k: usize = 0;
        while k < self.messages.len()
            invariant
                k <= self.messages@.len(),
                messages@.len() == k,
                forall|j: int| 0 <= j < k ==> {
                    let v = #[trigger] messages@[j];
                    let m = self.messages@[j];
                    &&& v.sender@ == m.from@
                    &&& v.body@ == m.message@
                    &&& v.is_gif == is_gif_body(m.message@)
                    &&& match v.profile {
                        Ok(p) => exists|i: int| is_first_match(self.model().roster, m.from@, i) && p.name@ == self.users@[i].name@ && p.avatar@ == self.users@[i].avatar@,
                        Err(x) => x == ChatError::UnresolvedSender && !self.model().roster.contains(m.from@),
                    }
                },
            decreases self.messages@.len() - k,
        {
            let m = &self.messages[k];
            let profile = self.resolve_sender(&m.from);
            let gif = is_gif(m.message.as_str());
            messages.push(MessageView { sender: m.from.clone(), body: m.message.clone(), is_gif: gif, profile });
            k = k + 1;
        }
        ChatView { users, messages }
    }
}

} // verus!
