//! The JSON parts of a message that the core builds or reads: headers,
//! execute requests, reply correlation and the shutdown signal.
use crate::wire::{copy_bytes, EnvelopeModel, MessageEnvelope};
use vstd::prelude::*;

verus! {

/// The JSON string literal that serde_json writes for `s`.
pub uninterp spec fn json_quote_of(s: Seq<char>) -> Seq<u8>;

/// The string member `key` of the JSON object in `doc`, as serde_json reads it:
/// `None` where `doc` is not JSON, is no object, or the member is absent or no string.
pub uninterp spec fn json_str_member_of(doc: Seq<u8>, key: Seq<char>) -> Option<Seq<char>>;

/// Relies on `serde_json::to_vec` on a `&str`: the JSON string literal of `s`.
/// Writing a string into a `Vec` cannot fail, so the error arm is never taken.
#[verifier::external_body]
fn json_quote(s: &str) -> (r: Vec<u8>)
    ensures
        r@ == json_quote_of(s@),
{
    match serde_json::to_vec(s) {
        Ok(v) => v,
        Err(_) => Vec::new(),
    }
}

/// Relies on `serde_json::from_slice` into a `serde_json::Value`, then
/// `Value::get` and `Value::as_str`: the string member `key` of the object in `doc`.
#[verifier::external_body]
fn json_str_member(doc: &[u8], key: &str) -> (r: Option<String>)
    ensures
        match r {
            Some(s) => json_str_member_of(doc@, key@) == Some(s@),
            None => json_str_member_of(doc@, key@) is None,
        },
{
    match serde_json::from_slice::<serde_json::Value>(doc) {
        Ok(v) => v.get(key).and_then(|m| m.as_str()).map(|m| m.to_string()),
        Err(_) => None,
    }
}

/// One member `"key":value` of a JSON object; the value is JSON text already.
pub open spec fn json_member(key: Seq<char>, value: Seq<u8>) -> Seq<u8> {
    json_quote_of(key) + seq![58u8] + value
}

/// The members of a JSON object, separated by commas.
pub open spec fn json_members(entries: Seq<(Seq<char>, Seq<u8>)>) -> Seq<u8>
    decreases entries.len(),
{
    if entries.len() == 0 {
        Seq::empty()
    } else if entries.len() == 1 {
        json_member(entries[0].0, entries[0].1)
    } else {
        json_members(entries.drop_last()) + seq![44u8] + json_member(entries.last().0, entries.last().1)
    }
}

/// A JSON object from its members in order, in serde_json's compact form
/// (which lists the members of a map sorted by name).
pub open spec fn json_object(entries: Seq<(Seq<char>, Seq<u8>)>) -> Seq<u8> {
    seq![123u8] + json_members(entries) + seq![125u8]
}

pub open spec fn json_false() -> Seq<u8> {
    seq![102u8, 97u8, 108u8, 115u8, 101u8]
}

pub open spec fn json_true() -> Seq<u8> {
    seq![116u8, 114u8, 117u8, 101u8]
}

pub open spec fn json_empty_object() -> Seq<u8> {
    seq![123u8, 125u8]
}

/// The protocol version written into every header.
pub open spec fn protocol_version() -> Seq<char> {
    "5.3"@
}

/// The user name written into every header.
pub open spec fn client_username() -> Seq<char> {
    "runtimed"@
}

/// The header document of a fresh message.
pub open spec fn header_json(msg_id: Seq<char>, msg_type: Seq<char>, session: Seq<char>, date: Seq<char>) -> Seq<u8> {
    json_object(
        seq![
            ("date"@, json_quote_of(date)),
            ("msg_id"@, json_quote_of(msg_id)),
            ("msg_type"@, json_quote_of(msg_type)),
            ("session"@, json_quote_of(session)),
            ("username"@, json_quote_of(client_username())),
            ("version"@, json_quote_of(protocol_version())),
        ],
    )
}

/// The content of an execute request for `code`.
pub open spec fn execute_content(code: Seq<char>) -> Seq<u8> {
    json_object(
        seq![
            ("allow_stdin"@, json_false()),
            ("code"@, json_quote_of(code)),
            ("silent"@, json_false()),
            ("store_history"@, json_true()),
            ("user_expressions"@, json_empty_object()),
        ],
    )
}

/// A fresh envelope: no identities, metadata `{}`, no buffers, and as parent
/// header a copy of the parent's header, or `{}` when uncorrelated.
pub open spec fn constructed(
    msg_type: Seq<char>,
    content: Seq<u8>,
    parent: Option<Seq<u8>>,
    session: Seq<char>,
    msg_id: Seq<char>,
    date: Seq<char>,
) -> EnvelopeModel {
    EnvelopeModel {
        identities: Seq::empty(),
        header: header_json(msg_id, msg_type, session, date),
        parent_header: match parent {
            Some(p) => p,
            None => json_empty_object(),
        },
        metadata: json_empty_object(),
        content: content,
        buffers: Seq::empty(),
    }
}

/// Reply `reply` answers request `request`: the parent header's message id is
/// the request header's message id.
pub open spec fn correlated(reply: EnvelopeModel, request: EnvelopeModel) -> bool {
    &&& json_str_member_of(request.header, "msg_id"@) is Some
    &&& json_str_member_of(reply.parent_header, "msg_id"@) == json_str_member_of(request.header, "msg_id"@)
}

/// The in-band signal that the kernel has shut down: a reply to a shutdown
/// request that reports the kernel idle.
pub open spec fn shutdown_signal(e: EnvelopeModel) -> bool {
    &&& json_str_member_of(e.parent_header, "msg_type"@) == Some("shutdown_request"@)
    &&& json_str_member_of(e.content, "execution_state"@) == Some("idle"@)
}

fn push_all(out: &mut Vec<u8>, v: &Vec<u8>)
    ensures
        final(out)@ == old(out)@ + v@,
{
    let mut i: usize = 0;
    while i < v.len()
        invariant
            i <= v@.len(),
            out@ == old(out)@ + v@.subrange(0, i as int),
        decreases v@.len() - i,
    {
        out.push(v[i]);
        i = i + 1;
        assert(out@ =~= old(out)@ + v@.subrange(0, i as int));
    }
    assert(v@.subrange(0, v@.len() as int) =~= v@);
}

/// The JSON object with member names `keys` and JSON values `values`.
pub fn write_object(keys: &Vec<&str>, values: &Vec<Vec<u8>>) -> (r: Vec<u8>)
    requires
        keys@.len() == values@.len(),
    ensures
        r@ == json_object(Seq::new(keys@.len(), |i: int| (keys@[i]@, values@[i]@))),
{
    let ghost entries = Seq::new(keys@.len(), |i: int| (keys@[i]@, values@[i]@));
    let mut body: Vec<u8> = Vec::new();
    let mut i: usize = 0;
    while i < keys.len()
        invariant
            i <= keys@.len(),
            keys@.len() == values@.len(),
            entries == Seq::new(keys@.len(), |i: int| (keys@[i]@, values@[i]@)),
            body@ == json_members(entries.subrange(0, i as int)),
        decreases keys@.len() - i,
    {
        let ghost prev = entries.subrange(0, i as int);
        let ghost next = entries.subrange(0, i + 1);
        assert(next.drop_last() =~= prev);
        assert(next.last() == (keys@[i as int]@, values@[i as int]@));
        if i > 0 {
            body.push(44u8);
        }
        let mut q = json_quote(keys[i]);
        body.append(&mut q);
        body.push(58u8);
        push_all(&mut body, &values[i]);
        i = i + 1;
        assert(body@ =~= json_members(entries.subrange(0, i as int)));
    }
    assert(entries.subrange(0, keys@.len() as int) =~= entries);
    let mut r: Vec<u8> = vec![123u8];
    r.append(&mut body);
    r.push(125u8);
    assert(r@ =~= json_object(entries));
    r
}

fn empty_object() -> (r: Vec<u8>)
    ensures
        r@ == json_empty_object(),
{
    let r = vec![123u8, 125u8];
    assert(r@ =~= json_empty_object());
    r
}

/// The header document of a fresh message.
pub fn write_header(msg_id: &str, msg_type: &str, session: &str, date: &str) -> (r: Vec<u8>)
    ensures
        r@ == header_json(msg_id@, msg_type@, session@, date@),
{
    let keys: Vec<&str> = vec!["date", "msg_id", "msg_type", "session", "username", "version"];
    let values: Vec<Vec<u8>> = vec![
        json_quote(date),
        json_quote(msg_id),
        json_quote(msg_type),
        json_quote(session),
        json_quote("runtimed"),
        json_quote("5.3"),
    ];
    let r = write_object(&keys, &values);
    assert(Seq::new(keys@.len(), |i: int| (keys@[i]@, values@[i]@)) =~= seq![
        ("date"@, json_quote_of(date@)),
        ("msg_id"@, json_quote_of(msg_id@)),
        ("msg_type"@, json_quote_of(msg_type@)),
        ("session"@, json_quote_of(session@)),
        ("username"@, json_quote_of(client_username())),
        ("version"@, json_quote_of(protocol_version())),
    ]);
    r
}

/// The content block of an execute request: the code, not silent, stored in
/// history, no user expressions, no stdin.
pub fn execute_request_content(code: &str) -> (r: Vec<u8>)
    ensures
        r@ == execute_content(code@),
{
    let keys: Vec<&str> = vec!["allow_stdin", "code", "silent", "store_history", "user_expressions"];
    let f1 = vec![102u8, 97u8, 108u8, 115u8, 101u8];
    let f2 = vec![102u8, 97u8, 108u8, 115u8, 101u8];
    let t = vec![116u8, 114u8, 117u8, 101u8];
    assert(f1@ =~= json_false());
    assert(f2@ =~= json_false());
    assert(t@ =~= json_true());
    let values: Vec<Vec<u8>> = vec![f1, json_quote(code), f2, t, empty_object()];
    let r = write_object(&keys, &values);
    assert(Seq::new(keys@.len(), |i: int| (keys@[i]@, values@[i]@)) =~= seq![
        ("allow_stdin"@, json_false()),
        ("code"@, json_quote_of(code@)),
        ("silent"@, json_false()),
        ("store_history"@, json_true()),
        ("user_expressions"@, json_empty_object()),
    ]);
    r
}

/// The header that a fresh envelope copies from its parent, if any.
pub open spec fn parent_header_of(parent: Option<&MessageEnvelope>) -> Option<Seq<u8>> {
    match parent {
        Some(p) => Some(p.header@),
        None => None,
    }
}

impl MessageEnvelope {
    /// A fresh envelope with the given message id and date.
    pub fn construct_with(
        msg_type: &str,
        content: Vec<u8>,
        parent: Option<&MessageEnvelope>,
        session: &str,
        msg_id: &str,
        date: &str,
    ) -> (r: MessageEnvelope)
        ensures
            r@ == constructed(
                msg_type@,
                content@,
                parent_header_of(parent),
                session@,
                msg_id@,
                date@,
            ),
    {
        let parent_header = match parent {
            Some(p) => copy_bytes(&p.header),
            None => empty_object(),
        };
        let r = MessageEnvelope {
            identities: Vec::new(),
            header: write_header(msg_id, msg_type, session, date),
            parent_header,
            metadata: empty_object(),
            content,
            buffers: Vec::new(),
        };
        assert(r@.identities =~= Seq::<Seq<u8>>::empty());
        assert(r@.buffers =~= Seq::<Seq<u8>>::empty());
        r
    }

    /// The string member `key` of the header.
    pub fn header_str(&self, key: &str) -> (r: Option<String>)
        ensures
            match r {
                Some(s) => json_str_member_of(self.header@, key@) == Some(s@),
                None => json_str_member_of(self.header@, key@) is None,
            },
    {
        json_str_member(self.header.as_slice(), key)
    }

    /// The string member `key` of the parent header.
    pub fn parent_str(&self, key: &str) -> (r: Option<String>)
        ensures
            match r {
                Some(s) => json_str_member_of(self.parent_header@, key@) == Some(s@),
                None => json_str_member_of(self.parent_header@, key@) is None,
            },
    {
        json_str_member(self.parent_header.as_slice(), key)
    }

    /// The string member `key` of the content.
    pub fn content_str(&self, key: &str) -> (r: Option<String>)
        ensures
            match r {
                Some(s) => json_str_member_of(self.content@, key@) == Some(s@),
                None => json_str_member_of(self.content@, key@) is None,
            },
    {
        json_str_member(self.content.as_slice(), key)
    }

    /// Whether this envelope is the reply to `request`: correlation is by exact
    /// message id, never by position.
    pub fn is_reply_to(&self, request: &MessageEnvelope) -> (r: bool)
        ensures
            r == correlated(self@, request@),
    {
        let want = request.header_str("msg_id");
        let got = self.parent_str("msg_id");
        match (want, got) {
            (Some(w), Some(g)) => crate::wire::str_eq(w.as_str(), g.as_str()),
            _ => false,
        }
    }

    /// Whether this envelope is the kernel's in-band shutdown signal.
    pub fn is_shutdown_signal(&self) -> (r: bool)
        ensures
            r == shutdown_signal(self@),
    {
        let parent_type = self.parent_str("msg_type");
        let state = self.content_str("execution_state");
        match (parent_type, state) {
            (Some(t), Some(s)) => crate::wire::str_eq(t.as_str(), "shutdown_request")
                && crate::wire::str_eq(s.as_str(), "idle"),
            _ => false,
        }
    }
}

} // verus!
