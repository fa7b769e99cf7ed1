use vstd::prelude::*;

verus! {

/// One message event as the broker sends it.
#[derive(Clone, Debug)]
pub struct NtfyMessage {
    pub id: String,
    pub time: i64,
    pub event: String,
    pub topic: String,
    pub message: Option<String>,
    pub title: Option<String>,
    pub tags: Option<Vec<String>>,
    pub priority: Option<i32>,
}

/// What is shown and emitted for one message that qualifies.
#[derive(Clone, Debug)]
pub struct Dispatch {
    /// Title of the desktop notification.
    pub title: String,
    /// Body of the desktop notification.
    pub body: String,
    /// Handle of the desktop notification.
    pub notification_id: i32,
    /// Server the message came from, without trailing slashes.
    pub server_url: String,
    /// The message itself, for the UI event.
    pub message: NtfyMessage,
}

/// The largest `i32`, the modulus of notification handles.
pub const ID_MODULUS: i64 = 2147483647;

/// The event kind that is shown to the user.
pub open spec fn message_kind() -> Seq<char> {
    seq!['m', 'e', 's', 's', 'a', 'g', 'e']
}

/// The label put before the topic when a message has no title: `ntfy: `.
pub open spec fn broker_label() -> Seq<char> {
    seq!['n', 't', 'f', 'y', ':', ' ']
}

/// The title shown for a message: its own, or `ntfy: <topic>`.
pub open spec fn title_spec(title: Option<String>, topic: Seq<char>) -> Seq<char> {
    match title {
        Some(t) => t@,
        None => broker_label() + topic,
    }
}

/// The body shown for a message: its own, or nothing.
pub open spec fn body_spec(body: Option<String>) -> Seq<char> {
    match body {
        Some(b) => b@,
        None => Seq::empty(),
    }
}

/// The notification handle of a timestamp: the timestamp reduced modulo the
/// largest `i32`, into the range `0 .. i32::MAX`.
pub open spec fn notification_id_spec(time: int) -> int {
    time % (ID_MODULUS as int)
}

/// A message leads to a notification and an event.
pub open spec fn qualifies(m: NtfyMessage) -> bool {
    m.event@ == message_kind()
}

/// `d` is what is dispatched for `m`, received from `server_url`.
pub open spec fn dispatch_of(d: Dispatch, server_url: Seq<char>, m: NtfyMessage) -> bool {
    &&& d.title@ == title_spec(m.title, m.topic@)
    &&& d.body@ == body_spec(m.message)
    &&& d.notification_id as int == notification_id_spec(m.time as int)
    &&& d.server_url@ == server_url
    &&& d.message == m
}

proof fn lemma_neg_mod_zero(a: int, m: int)
    requires
        0 < a,
        0 < m,
        a % m == 0,
    ensures
        (-a) % m == 0,
{
    let q = a / m;
    vstd::arithmetic::div_mod::lemma_fundamental_div_mod(a, m);
    assert(a == q * m);
    assert(-a == (-q) * m) by (nonlinear_arith)
        requires
            a == q * m,
    ;
    vstd::arithmetic::div_mod::lemma_mod_multiples_basic(-q, m);
}

proof fn lemma_neg_mod(a: int, m: int)
    requires
        0 < a,
        0 < m,
        a % m != 0,
    ensures
        (-a) % m == m - a % m,
{
    let q = a / m;
    let r = a % m;
    vstd::arithmetic::div_mod::lemma_fundamental_div_mod(a, m);
    vstd::arithmetic::div_mod::lemma_mod_bound(a, m);
    assert(a == q * m + r);
    assert(-a == (-q - 1) * m + (m - r)) by (nonlinear_arith)
        requires
            a == q * m + r,
    ;
    vstd::arithmetic::div_mod::lemma_fundamental_div_mod_converse(-a, m, -q - 1, m - r);
}

/// Whether an event kind is the one that is shown to the user.
pub fn is_message_kind(kind: &str) -> (r: bool)
    ensures
        r == (kind@ == message_kind()),
{
    let expected = "message";
    proof {
        reveal_strlit("message");
    }
    let n = kind.unicode_len();
    if n != 7 {
        return false;
    }
    let mut i: usize = 0;
    while i < 7
        invariant
            i <= 7,
            n == kind@.len(),
            n == 7,
            expected@ == message_kind(),
            forall|j: int| 0 <= j < i ==> kind@[j] == message_kind()[j],
        decreases 7 - i,
    {
        if kind.get_char(i) != expected.get_char(i) {
            return false;
        }
        i = i + 1;
    }
    assert(kind@ =~= message_kind());
    true
}

/// The title shown for a message: its own, or `ntfy: <topic>`.
pub fn display_title(title: &Option<String>, topic: &str) -> (r: String)
    ensures
        r@ == title_spec(*title, topic@),
{
    match title {
        Some(t) => t.clone(),
        None => {
            let mut s = String::from_str("ntfy: ");
            proof {
                reveal_strlit("ntfy: ");
            }
            s.append(topic);
            s
        },
    }
}

/// The body shown for a message: its own, or the empty string.
pub fn display_body(body: &Option<String>) -> (r: String)
    ensures
        r@ == body_spec(*body),
{
    match body {
        Some(b) => b.clone(),
        None => String::new(),
    }
}

/// The notification handle of a timestamp, so that repeated alerts replace one
/// another consistently.
pub fn notification_id(time: i64) -> (r: i32)
    ensures
        r as int == notification_id_spec(time as int),
        0 <= r < ID_MODULUS,
{
    let m: u64 = ID_MODULUS as u64;
    if time >= 0 {
        ((time as u64) % m) as i32
    } else {
        let magnitude: u64 = ((-(time + 1)) as u64) + 1;
        assert(magnitude as int == -(time as int));
        let rem: u64 = magnitude % m;
        if rem == 0 {
            proof {
                lemma_neg_mod_zero(magnitude as int, m as int);
            }
            0
        } else {
            proof {
                lemma_neg_mod(magnitude as int, m as int);
            }
            (m - rem) as i32
        }
    }
}

/// What to show and emit for a message received from `server_url`: nothing
/// unless its event kind is `message`.
pub fn plan_dispatch(server_url: &str, msg: NtfyMessage) -> (r: Option<Dispatch>)
    ensures
        r is Some <==> qualifies(msg),
        r matches Some(d) ==> dispatch_of(d, server_url@, msg),
{
    if !is_message_kind(msg.event.as_str()) {
        return None;
    }
    let title = display_title(&msg.title, msg.topic.as_str());
    let body = display_body(&msg.message);
    let notification_id = notification_id(msg.time);
    Some(Dispatch { title, body, notification_id, server_url: String::from_str(server_url), message: msg })
}

} // verus!
