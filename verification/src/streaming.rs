//! The registry of streaming connections and subscriptions, and what is done
//! with a frame that arrives on a connection.
//!
//! The sockets themselves live outside this library. The registry decides;
//! its caller opens sockets, delivers commands and emits events.

use crate::error::{ErrorView, NoteDeckError};
use crate::ids::fresh_id;
use crate::json;
use crate::json::{json_of, json_parse, json_text, Json};
use crate::text::{concat, concat3, str_eq};
use crate::timeline::{channel_of, unknown_timeline, TimelineType};
use vstd::prelude::*;

verus! {

/// What a subscription carries: notes of a timeline, or the account's own
/// events.
#[derive(Debug, Clone, Copy, PartialEq, Eq)]
pub enum SubscriptionKind {
    Timeline,
    Main,
}

/// A subscription of an account to a channel of its server.
#[derive(Debug, Clone, PartialEq, Eq)]
pub struct Subscription {
    pub id: String,
    pub account_id: String,
    pub host: String,
    pub kind: SubscriptionKind,
    pub channel: String,
}

/// A subscription, as a value.
pub ghost struct SubscriptionView {
    pub id: Seq<char>,
    pub account_id: Seq<char>,
    pub host: Seq<char>,
    pub kind: SubscriptionKind,
    pub channel: Seq<char>,
}

impl View for Subscription {
    type V = SubscriptionView;

    open spec fn view(&self) -> SubscriptionView {
        SubscriptionView {
            id: self.id@,
            account_id: self.account_id@,
            host: self.host@,
            kind: self.kind,
            channel: self.channel@,
        }
    }
}

impl Subscription {
    /// A copy of the subscription.
    pub fn duplicate(&self) -> (r: Subscription)
        ensures
            r@ == self@,
    {
        Subscription {
            id: self.id.clone(),
            account_id: self.account_id.clone(),
            host: self.host.clone(),
            kind: self.kind,
            channel: self.channel.clone(),
        }
    }
}

/// A live connection of an account to its server.
#[derive(Debug, Clone, PartialEq, Eq)]
pub struct Connection {
    pub account_id: String,
    pub host: String,
}

/// A connection, as a value.
pub ghost struct ConnectionView {
    pub account_id: Seq<char>,
    pub host: Seq<char>,
}

impl View for Connection {
    type V = ConnectionView;

    open spec fn view(&self) -> ConnectionView {
        ConnectionView { account_id: self.account_id@, host: self.host@ }
    }
}

/// A command for the task that owns a connection's socket.
#[derive(Debug, Clone, PartialEq, Eq)]
pub enum WsCommand {
    Subscribe { channel: String, id: String },
    Unsubscribe { id: String },
    Shutdown,
}

/// A command to a connection, as a value.
pub ghost enum WsCommandView {
    Subscribe { channel: Seq<char>, id: Seq<char> },
    Unsubscribe { id: Seq<char> },
    Shutdown,
}

impl View for WsCommand {
    type V = WsCommandView;

    open spec fn view(&self) -> WsCommandView {
        match self {
            WsCommand::Subscribe { channel, id } => WsCommandView::Subscribe {
                channel: channel@,
                id: id@,
            },
            WsCommand::Unsubscribe { id } => WsCommandView::Unsubscribe { id: id@ },
            WsCommand::Shutdown => WsCommandView::Shutdown,
        }
    }
}

/// The state of an account's connection, as announced to the front-end.
#[derive(Debug, Clone, PartialEq, Eq)]
pub struct StreamStatusEvent {
    pub account_id: String,
    pub state: String,
}

/// What is to be done to connect an account.
#[derive(Debug, Clone, PartialEq, Eq)]
pub enum ConnectPlan {
    /// The account has a connection: nothing is opened.
    AlreadyConnected,
    /// Open a socket at this address.
    Open { url: String },
}

/// What a received frame asks of its receiver.
#[derive(Debug, PartialEq)]
pub enum StreamDispatch {
    /// Not a channel frame, or for no known subscription.
    Ignore,
    /// A note on a timeline: normalize it for `host`, cache it and emit it.
    Note { subscription_id: String, host: String, body: serde_json::Value },
    /// A change to a note on a timeline.
    NoteUpdated {
        subscription_id: String,
        note_id: String,
        update_type: String,
        body: serde_json::Value,
    },
    /// A notification of the account: normalize it for `host` and emit it.
    Notification { subscription_id: String, host: String, body: serde_json::Value },
    /// Any other event of the account, passed on as it came.
    MainEvent { subscription_id: String, event_type: String, body: serde_json::Value },
}

/// What a frame of the server leads to, as a value.
pub ghost enum DispatchView {
    Ignore,
    Note { subscription_id: Seq<char>, host: Seq<char>, body: Json },
    NoteUpdated { subscription_id: Seq<char>, note_id: Seq<char>, update_type: Seq<char>, body: Json },
    Notification { subscription_id: Seq<char>, host: Seq<char>, body: Json },
    MainEvent { subscription_id: Seq<char>, event_type: Seq<char>, body: Json },
}

impl View for StreamDispatch {
    type V = DispatchView;

    open spec fn view(&self) -> DispatchView {
        match self {
            StreamDispatch::Ignore => DispatchView::Ignore,
            StreamDispatch::Note { subscription_id, host, body } => DispatchView::Note {
                subscription_id: subscription_id@,
                host: host@,
                body: json_of(*body),
            },
            StreamDispatch::NoteUpdated {
                subscription_id,
                note_id,
                update_type,
                body,
            } => DispatchView::NoteUpdated {
                subscription_id: subscription_id@,
                note_id: note_id@,
                update_type: update_type@,
                body: json_of(*body),
            },
            StreamDispatch::Notification {
                subscription_id,
                host,
                body,
            } => DispatchView::Notification {
                subscription_id: subscription_id@,
                host: host@,
                body: json_of(*body),
            },
            StreamDispatch::MainEvent {
                subscription_id,
                event_type,
                body,
            } => DispatchView::MainEvent {
                subscription_id: subscription_id@,
                event_type: event_type@,
                body: json_of(*body),
            },
        }
    }
}

impl DispatchView {
    /// The name of the event under which the frame is passed on.
    pub open spec fn event_name(self) -> Option<Seq<char>> {
        match self {
            DispatchView::Ignore => None,
            DispatchView::Note { .. } => Some("stream-note"@),
            DispatchView::NoteUpdated { .. } => Some("stream-note-updated"@),
            DispatchView::Notification { .. } => Some("stream-notification"@),
            DispatchView::MainEvent { .. } => Some("stream-main-event"@),
        }
    }
}

/// The subscriptions of a list, as values.
pub open spec fn subscription_views(subs: Seq<Subscription>) -> Seq<SubscriptionView> {
    subs.map_values(|s: Subscription| s@)
}

/// The connections of a list, as values.
pub open spec fn connection_views(conns: Seq<Connection>) -> Seq<ConnectionView> {
    conns.map_values(|c: Connection| c@)
}

/// The subscriptions with another id than `id`.
pub open spec fn not_id(id: Seq<char>) -> spec_fn(SubscriptionView) -> bool {
    |s: SubscriptionView| s.id != id
}

/// The subscriptions of the account.
pub open spec fn of_account(account: Seq<char>) -> spec_fn(SubscriptionView) -> bool {
    |s: SubscriptionView| s.account_id == account
}

/// The subscriptions of other accounts.
pub open spec fn not_of_account(account: Seq<char>) -> spec_fn(SubscriptionView) -> bool {
    |s: SubscriptionView| s.account_id != account
}

/// The connections of other accounts.
pub open spec fn other_account(account: Seq<char>) -> spec_fn(ConnectionView) -> bool {
    |c: ConnectionView| c.account_id != account
}

/// The command that subscribes anew to what `s` is subscribed to.
pub open spec fn resubscribe(s: SubscriptionView) -> WsCommandView {
    WsCommandView::Subscribe { channel: s.channel, id: s.id }
}

/// The registry as a mathematical value: the connections and the
/// subscriptions, each in the order in which they were made.
pub ghost struct ManagerView {
    pub connections: Seq<ConnectionView>,
    pub subscriptions: Seq<SubscriptionView>,
}

impl ManagerView {
    /// Whether the account has a connection.
    pub open spec fn is_connected(self, account: Seq<char>) -> bool {
        exists|i: int|
            0 <= i < self.connections.len() && #[trigger] self.connections[i].account_id == account
    }

    /// The host of the account's connection.
    pub open spec fn host_of(self, account: Seq<char>) -> Seq<char>
        recommends
            self.is_connected(account),
    {
        let i = choose|i: int|
            0 <= i < self.connections.len() && #[trigger] self.connections[i].account_id == account;
        self.connections[i].host
    }

    /// Whether there is a subscription with the id.
    pub open spec fn is_subscribed(self, id: Seq<char>) -> bool {
        exists|i: int|
            0 <= i < self.subscriptions.len() && #[trigger] self.subscriptions[i].id == id
    }

    /// The subscription with the given id.
    pub open spec fn subscription(self, id: Seq<char>) -> SubscriptionView
        recommends
            self.is_subscribed(id),
    {
        let i = choose|i: int|
            0 <= i < self.subscriptions.len() && #[trigger] self.subscriptions[i].id == id;
        self.subscriptions[i]
    }

    /// No account has two connections, no id has two subscriptions, and
    /// every subscription belongs to an account that has a connection.
    pub open spec fn wf(self) -> bool {
        &&& forall|i: int, j: int|
            0 <= i < j < self.connections.len() ==> #[trigger] self.connections[i].account_id
                != #[trigger] self.connections[j].account_id
        &&& forall|i: int, j: int|
            0 <= i < j < self.subscriptions.len() ==> #[trigger] self.subscriptions[i].id
                != #[trigger] self.subscriptions[j].id
        &&& forall|i: int|
            0 <= i < self.subscriptions.len() ==> self.is_connected(
                #[trigger] self.subscriptions[i].account_id,
            )
    }

    /// No connection and no subscription.
    pub open spec fn empty() -> ManagerView {
        ManagerView { connections: Seq::empty(), subscriptions: Seq::empty() }
    }

    /// The registry after `account` got a connection to `host`; unchanged if
    /// it had one.
    pub open spec fn connect(self, account: Seq<char>, host: Seq<char>) -> ManagerView {
        if self.is_connected(account) {
            self
        } else {
            ManagerView {
                connections: self.connections.push(ConnectionView { account_id: account, host }),
                ..self
            }
        }
    }

    /// The registry without the connection of `account` and without its
    /// subscriptions.
    pub open spec fn disconnect(self, account: Seq<char>) -> ManagerView {
        ManagerView {
            connections: self.connections.filter(other_account(account)),
            subscriptions: self.subscriptions.filter(not_of_account(account)),
        }
    }

    /// The registry with `s` recorded, in place of any subscription of the
    /// same id.
    pub open spec fn subscribe(self, s: SubscriptionView) -> ManagerView {
        ManagerView { subscriptions: self.subscriptions.filter(not_id(s.id)).push(s), ..self }
    }

    /// The registry without the subscription `id`.
    pub open spec fn unsubscribe(self, id: Seq<char>) -> ManagerView {
        ManagerView { subscriptions: self.subscriptions.filter(not_id(id)), ..self }
    }

    /// The commands that bring a fresh socket of `account` up to date: one
    /// subscribe command for each of its subscriptions.
    pub open spec fn replay(self, account: Seq<char>) -> Seq<WsCommandView> {
        self.subscriptions.filter(of_account(account)).map_values(
            |s: SubscriptionView| resubscribe(s),
        )
    }

    /// What a frame with the document `msg` asks of its receiver.
    pub open spec fn dispatch(self, msg: Json) -> DispatchView {
        if msg.str_field("type"@) != Some("channel"@) {
            DispatchView::Ignore
        } else {
            match msg.field("body"@) {
                None => DispatchView::Ignore,
                Some(body) => match (
                    body.str_field("id"@),
                    body.str_field("type"@),
                    body.field("body"@),
                ) {
                    (Some(id), Some(event_type), Some(payload)) => if self.is_subscribed(id) {
                        route(self.subscription(id), event_type, payload)
                    } else {
                        DispatchView::Ignore
                    },
                    _ => DispatchView::Ignore,
                },
            }
        }
    }
}

/// The text of an optional string, empty where there is none.
pub open spec fn text_or_empty(t: Option<Seq<char>>) -> Seq<char> {
    match t {
        Some(s) => s,
        None => Seq::empty(),
    }
}

/// What an event of type `event_type` with the given payload asks for when it
/// arrives for the subscription `s`.
pub open spec fn route(s: SubscriptionView, event_type: Seq<char>, payload: Json) -> DispatchView {
    match s.kind {
        SubscriptionKind::Timeline => if event_type == "note"@ {
            DispatchView::Note { subscription_id: s.id, host: s.host, body: payload }
        } else if event_type == "noteUpdated"@ {
            DispatchView::NoteUpdated {
                subscription_id: s.id,
                note_id: text_or_empty(payload.str_field("id"@)),
                update_type: text_or_empty(payload.str_field("type"@)),
                body: match payload.field("body"@) {
                    Some(b) => b,
                    None => Json::Null,
                },
            }
        } else {
            DispatchView::Ignore
        },
        SubscriptionKind::Main => if event_type == "notification"@ {
            DispatchView::Notification { subscription_id: s.id, host: s.host, body: payload }
        } else {
            DispatchView::MainEvent { subscription_id: s.id, event_type, body: payload }
        },
    }
}

/// The address of the streaming socket of `host` for the holder of `token`.
pub open spec fn streaming_url(host: Seq<char>, token: Seq<char>) -> Seq<char> {
    "wss://"@ + host + "/streaming?i="@ + token
}

/// The registry of connections and subscriptions.
pub struct StreamingManager {
    connections: Vec<Connection>,
    subscriptions: Vec<Subscription>,
}

impl View for StreamingManager {
    type V = ManagerView;

    closed spec fn view(&self) -> ManagerView {
        ManagerView {
            connections: connection_views(self.connections@),
            subscriptions: subscription_views(self.subscriptions@),
        }
    }
}

proof fn lemma_filter_keeps_distinct_ids(subs: Seq<SubscriptionView>, p: spec_fn(SubscriptionView) -> bool)
    requires
        forall|i: int, j: int|
            0 <= i < j < subs.len() ==> #[trigger] subs[i].id != #[trigger] subs[j].id,
    ensures
        forall|i: int, j: int|
            0 <= i < j < subs.filter(p).len() ==> #[trigger] subs.filter(p)[i].id
                != #[trigger] subs.filter(p)[j].id,
        forall|i: int|
            0 <= i < subs.filter(p).len() ==> subs.contains(#[trigger] subs.filter(p)[i]) && p(
                subs.filter(p)[i],
            ),
    decreases subs.len(),
{
    reveal(Seq::filter);
    if subs.len() > 0 {
        let rest = subs.drop_last();
        let last = subs.last();
        lemma_filter_keeps_distinct_ids(rest, p);
        let f = subs.filter(p);
        let fr = rest.filter(p);
        assert forall|i: int| 0 <= i < f.len() implies subs.contains(#[trigger] f[i]) && p(
            f[i],
        ) by {
            if i < fr.len() {
                assert(rest.contains(fr[i]));
                let k = choose|k: int| 0 <= k < rest.len() && rest[k] == fr[i];
                assert(subs[k] == fr[i]);
            } else {
                assert(f[i] == last);
                assert(subs[subs.len() - 1] == last);
            }
        }
        assert forall|i: int, j: int| 0 <= i < j < f.len() implies #[trigger] f[i].id
            != #[trigger] f[j].id by {
            if j < fr.len() {
            } else {
                assert(f[j] == last);
                assert(rest.contains(fr[i]));
                let k = choose|k: int| 0 <= k < rest.len() && rest[k] == fr[i];
                assert(subs[k].id != subs[subs.len() - 1].id);
            }
        }
    }
}

proof fn lemma_filter_keeps_distinct_accounts(conns: Seq<ConnectionView>, p: spec_fn(ConnectionView) -> bool)
    requires
        forall|i: int, j: int|
            0 <= i < j < conns.len() ==> #[trigger] conns[i].account_id
                != #[trigger] conns[j].account_id,
    ensures
        forall|i: int, j: int|
            0 <= i < j < conns.filter(p).len() ==> #[trigger] conns.filter(p)[i].account_id
                != #[trigger] conns.filter(p)[j].account_id,
        forall|i: int|
            0 <= i < conns.filter(p).len() ==> conns.contains(#[trigger] conns.filter(p)[i]) && p(
                conns.filter(p)[i],
            ),
    decreases conns.len(),
{
    reveal(Seq::filter);
    if conns.len() > 0 {
        let rest = conns.drop_last();
        let last = conns.last();
        lemma_filter_keeps_distinct_accounts(rest, p);
        let f = conns.filter(p);
        let fr = rest.filter(p);
        assert forall|i: int| 0 <= i < f.len() implies conns.contains(#[trigger] f[i]) && p(
            f[i],
        ) by {
            if i < fr.len() {
                assert(rest.contains(fr[i]));
                let k = choose|k: int| 0 <= k < rest.len() && rest[k] == fr[i];
                assert(conns[k] == fr[i]);
            } else {
                assert(f[i] == last);
                assert(conns[conns.len() - 1] == last);
            }
        }
        assert forall|i: int, j: int| 0 <= i < j < f.len() implies #[trigger] f[i].account_id
            != #[trigger] f[j].account_id by {
            if j < fr.len() {
            } else {
                assert(f[j] == last);
                assert(rest.contains(fr[i]));
                let k = choose|k: int| 0 <= k < rest.len() && rest[k] == fr[i];
                assert(conns[k].account_id != conns[conns.len() - 1].account_id);
            }
        }
    }
}

/// Connecting an account keeps the registry well formed.
pub proof fn lemma_connect_wf(m: ManagerView, account: Seq<char>, host: Seq<char>)
    requires
        m.wf(),
    ensures
        m.connect(account, host).wf(),
        m.connect(account, host).is_connected(account),
{
    let n = m.connect(account, host);
    if !m.is_connected(account) {
        assert(n.connections[m.connections.len() as int].account_id == account);
        assert forall|i: int| 0 <= i < n.subscriptions.len() implies n.is_connected(
            #[trigger] n.subscriptions[i].account_id,
        ) by {
            let a = m.subscriptions[i].account_id;
            assert(m.is_connected(a));
            let k = choose|k: int|
                0 <= k < m.connections.len() && #[trigger] m.connections[k].account_id == a;
            assert(n.connections[k].account_id == a);
        }
    }
}

/// Recording a subscription of a connected account keeps the registry well
/// formed, and the subscription can be found under its id.
pub proof fn lemma_subscribe_wf(m: ManagerView, s: SubscriptionView)
    requires
        m.wf(),
        m.is_connected(s.account_id),
    ensures
        m.subscribe(s).wf(),
        m.subscribe(s).is_subscribed(s.id),
        m.subscribe(s).subscription(s.id) == s,
{
    let n = m.subscribe(s);
    let kept = m.subscriptions.filter(not_id(s.id));
    lemma_filter_keeps_distinct_ids(m.subscriptions, not_id(s.id));
    assert(n.subscriptions[kept.len() as int] == s);
    assert forall|i: int| 0 <= i < n.subscriptions.len() implies n.is_connected(
        #[trigger] n.subscriptions[i].account_id,
    ) by {
        if i < kept.len() {
            assert(m.subscriptions.contains(kept[i]));
            let k = choose|k: int| 0 <= k < m.subscriptions.len() && m.subscriptions[k] == kept[i];
            assert(m.is_connected(m.subscriptions[k].account_id));
        }
        let a = n.subscriptions[i].account_id;
        assert(m.is_connected(a));
        let c = choose|c: int|
            0 <= c < m.connections.len() && #[trigger] m.connections[c].account_id == a;
        assert(n.connections[c].account_id == a);
    }
    assert forall|i: int, j: int| 0 <= i < j < n.subscriptions.len() implies #[trigger] n.subscriptions[i].id
        != #[trigger] n.subscriptions[j].id by {
        if j == kept.len() {
            assert(not_id(s.id)(kept[i]));
        }
    }
    let c = choose|i: int|
        0 <= i < n.subscriptions.len() && #[trigger] n.subscriptions[i].id == s.id;
    if c < kept.len() {
        assert(not_id(s.id)(kept[c]));
    }
}

/// Removing a subscription keeps the registry well formed, and the id is
/// then free.
pub proof fn lemma_unsubscribe_wf(m: ManagerView, id: Seq<char>)
    requires
        m.wf(),
    ensures
        m.unsubscribe(id).wf(),
        !m.unsubscribe(id).is_subscribed(id),
{
    let n = m.unsubscribe(id);
    lemma_filter_keeps_distinct_ids(m.subscriptions, not_id(id));
    assert forall|i: int| 0 <= i < n.subscriptions.len() implies n.is_connected(
        #[trigger] n.subscriptions[i].account_id,
    ) by {
        assert(m.subscriptions.contains(n.subscriptions[i]));
        let k = choose|k: int|
            0 <= k < m.subscriptions.len() && m.subscriptions[k] == n.subscriptions[i];
        assert(m.is_connected(m.subscriptions[k].account_id));
        let a = n.subscriptions[i].account_id;
        let c = choose|c: int|
            0 <= c < m.connections.len() && #[trigger] m.connections[c].account_id == a;
        assert(n.connections[c].account_id == a);
    }
    if n.is_subscribed(id) {
        let c = choose|i: int|
            0 <= i < n.subscriptions.len() && #[trigger] n.subscriptions[i].id == id;
        assert(not_id(id)(n.subscriptions[c]));
    }
}

/// Disconnecting an account keeps the registry well formed and leaves
/// neither a connection nor a subscription of the account.
pub proof fn lemma_disconnect_wf(m: ManagerView, account: Seq<char>)
    requires
        m.wf(),
    ensures
        m.disconnect(account).wf(),
        !m.disconnect(account).is_connected(account),
        m.disconnect(account).replay(account).len() == 0,
{
    let n = m.disconnect(account);
    lemma_filter_keeps_distinct_ids(m.subscriptions, not_of_account(account));
    lemma_filter_keeps_distinct_accounts(m.connections, other_account(account));
    assert forall|i: int| 0 <= i < n.subscriptions.len() implies n.is_connected(
        #[trigger] n.subscriptions[i].account_id,
    ) by {
        let s = n.subscriptions[i];
        assert(m.subscriptions.contains(s));
        assert(not_of_account(account)(s));
        let w = choose|w: int| 0 <= w < m.subscriptions.len() && m.subscriptions[w] == s;
        assert(m.is_connected(m.subscriptions[w].account_id));
        let k = choose|k: int|
            0 <= k < m.connections.len() && #[trigger] m.connections[k].account_id
                == s.account_id;
        assert(other_account(account)(m.connections[k]));
        m.connections.lemma_filter_contains(other_account(account), k);
        let c = m.connections[k];
        let k2 = choose|k2: int| 0 <= k2 < n.connections.len() && n.connections[k2] == c;
        assert(n.connections[k2].account_id == s.account_id);
    }
    if n.is_connected(account) {
        let c = choose|i: int|
            0 <= i < n.connections.len() && #[trigger] n.connections[i].account_id == account;
        assert(other_account(account)(n.connections[c]));
    }
    let again = n.subscriptions.filter(of_account(account));
    if again.len() > 0 {
        n.subscriptions.lemma_filter_pred(of_account(account), 0);
        n.subscriptions.lemma_filter_contains_rev(of_account(account), again[0]);
        let k = choose|k: int| 0 <= k < n.subscriptions.len() && n.subscriptions[k] == again[0];
        assert(not_of_account(account)(n.subscriptions[k]));
    }
}

impl StreamingManager {
    /// Whether the registry is well formed; every constructor and method
    /// keeps it so.
    pub open spec fn wf(&self) -> bool {
        self@.wf()
    }

    /// A registry without connections and subscriptions.
    pub fn new() -> (r: Self)
        ensures
            r@ == ManagerView::empty(),
            r.wf(),
    {
        let r = StreamingManager { connections: Vec::new(), subscriptions: Vec::new() };
        assert(r@.connections =~= Seq::empty());
        assert(r@.subscriptions =~= Seq::empty());
        r
    }

    fn find_connection(&self, account_id: &str) -> (r: Option<usize>)
        ensures
            match r {
                Some(i) => i < self.connections.len() && self.connections[i as int].account_id@
                    == account_id@,
                None => !self@.is_connected(account_id@),
            },
    {
        let mut i: usize = 0;
        while i < self.connections.len()
            invariant
                i <= self.connections.len(),
                forall|k: int| 0 <= k < i ==> self.connections[k].account_id@ != account_id@,
            decreases self.connections.len() - i,
        {
            if str_eq(self.connections[i].account_id.as_str(), account_id) {
                return Some(i);
            }
            i += 1;
        }
        proof {
            if self@.is_connected(account_id@) {
                let k = choose|k: int|
                    0 <= k < self@.connections.len() && #[trigger] self@.connections[k].account_id
                        == account_id@;
                assert(self.connections[k].account_id@ != account_id@);
            }
        }
        None
    }

    fn find_subscription(&self, id: &str) -> (r: Option<usize>)
        ensures
            match r {
                Some(i) => i < self.subscriptions.len() && self.subscriptions[i as int].id@ == id@,
                None => !self@.is_subscribed(id@),
            },
    {
        let mut i: usize = 0;
        while i < self.subscriptions.len()
            invariant
                i <= self.subscriptions.len(),
                forall|k: int| 0 <= k < i ==> self.subscriptions[k].id@ != id@,
            decreases self.subscriptions.len() - i,
        {
            if str_eq(self.subscriptions[i].id.as_str(), id) {
                return Some(i);
            }
            i += 1;
        }
        proof {
            if self@.is_subscribed(id@) {
                let k = choose|k: int|
                    0 <= k < self@.subscriptions.len() && #[trigger] self@.subscriptions[k].id
                        == id@;
                assert(self.subscriptions[k].id@ != id@);
            }
        }
        None
    }

    /// Whether the account has a connection.
    pub fn is_connected(&self, account_id: &str) -> (r: bool)
        ensures
            r == self@.is_connected(account_id@),
    {
        match self.find_connection(account_id) {
            Some(i) => {
                proof {
                    assert(self@.connections[i as int].account_id == account_id@);
                }
                true
            },
            None => false,
        }
    }

    /// The host of the account's connection; a fault where it has none.
    pub fn get_host(&self, account_id: &str) -> (r: Result<String, NoteDeckError>)
        requires
            self.wf(),
        ensures
            match r {
                Ok(h) => self@.is_connected(account_id@) && h@ == self@.host_of(account_id@),
                Err(e) => !self@.is_connected(account_id@) && e@ == ErrorView::NoConnection(
                    account_id@,
                ),
            },
    {
        match self.find_connection(account_id) {
            Some(i) => {
                proof {
                    assert(self@.connections[i as int].account_id == account_id@);
                    let c = choose|c: int|
                        0 <= c < self@.connections.len()
                            && #[trigger] self@.connections[c].account_id == account_id@;
                    if c < i {
                        assert(self@.connections[c].account_id != self@.connections[i as int].account_id);
                    }
                    if i < c {
                        assert(self@.connections[i as int].account_id != self@.connections[c].account_id);
                    }
                }
                Ok(self.connections[i].host.clone())
            },
            None => Err(NoteDeckError::NoConnection(account_id.to_owned())),
        }
    }

    /// Decides what connecting the account takes: nothing where it has a
    /// connection, else a socket at the streaming address of the host, opened
    /// with the token.
    pub fn connect(&self, account_id: &str, host: &str, token: &str) -> (plan: ConnectPlan)
        ensures
            match plan {
                ConnectPlan::AlreadyConnected => self@.is_connected(account_id@),
                ConnectPlan::Open { url } => !self@.is_connected(account_id@) && url@
                    == streaming_url(host@, token@),
            },
    {
        if self.is_connected(account_id) {
            ConnectPlan::AlreadyConnected
        } else {
            let base = concat3("wss://", host, "/streaming?i=");
            ConnectPlan::Open { url: concat(base.as_str(), token) }
        }
    }

    /// Records that the socket of the account is open, and returns the
    /// status to announce.
    pub fn register_connection(&mut self, account_id: &str, host: &str) -> (event: StreamStatusEvent)
        requires
            old(self).wf(),
        ensures
            final(self)@ == old(self)@.connect(account_id@, host@),
            final(self).wf(),
            event.account_id@ == account_id@,
            event.state@ == "connected"@,
    {
        proof {
            lemma_connect_wf(self@, account_id@, host@);
        }
        if !self.is_connected(account_id) {
            let ghost before = self@;
            self.connections.push(Connection { account_id: account_id.to_owned(), host: host.to_owned() });
            proof {
                assert(self@.connections =~= before.connections.push(
                    ConnectionView { account_id: account_id@, host: host@ },
                ));
            }
        }
        StreamStatusEvent { account_id: account_id.to_owned(), state: "connected".to_owned() }
    }

    fn drop_subscriptions_with_id(&mut self, id: &str)
        ensures
            final(self)@.subscriptions == old(self)@.subscriptions.filter(not_id(id@)),
            final(self)@.connections == old(self)@.connections,
    {
        let mut kept: Vec<Subscription> = Vec::new();
        let mut i: usize = 0;
        assert(subscription_views(self.subscriptions@.take(0)) =~= Seq::empty());
        assert(Seq::<SubscriptionView>::empty().filter(not_id(id@)) =~= Seq::empty()) by {
            reveal(Seq::filter);
        }
        while i < self.subscriptions.len()
            invariant
                i <= self.subscriptions.len(),
                subscription_views(kept@) == subscription_views(
                    self.subscriptions@.take(i as int),
                ).filter(not_id(id@)),
            decreases self.subscriptions.len() - i,
        {
            let s = &self.subscriptions[i];
            proof {
                let before = subscription_views(self.subscriptions@.take(i as int));
                assert(subscription_views(self.subscriptions@.take(i + 1)) =~= before.push(s@));
                before.lemma_filter_push(s@, not_id(id@));
            }
            if !str_eq(s.id.as_str(), id) {
                let ghost old_kept = subscription_views(kept@);
                kept.push(s.duplicate());
                proof {
                    assert(subscription_views(kept@) =~= old_kept.push(s@));
                }
            }
            i += 1;
        }
        proof {
            assert(self.subscriptions@.take(self.subscriptions.len() as int)
                == self.subscriptions@);
        }
        self.subscriptions = kept;
    }

    /// Removes the account's connection and all its subscriptions. Returns
    /// whether there was a connection to shut down, and the status to
    /// announce.
    pub fn disconnect(&mut self, account_id: &str) -> (r: (bool, StreamStatusEvent))
        requires
            old(self).wf(),
        ensures
            final(self)@ == old(self)@.disconnect(account_id@),
            final(self).wf(),
            r.0 == old(self)@.is_connected(account_id@),
            r.1.account_id@ == account_id@,
            r.1.state@ == "disconnected"@,
    {
        proof {
            lemma_disconnect_wf(self@, account_id@);
        }
        let had = self.is_connected(account_id);
        let mut conns: Vec<Connection> = Vec::new();
        let mut i: usize = 0;
        assert(connection_views(self.connections@.take(0)) =~= Seq::empty());
        assert(Seq::<ConnectionView>::empty().filter(other_account(account_id@)) =~= Seq::empty())
            by {
            reveal(Seq::filter);
        }
        while i < self.connections.len()
            invariant
                i <= self.connections.len(),
                connection_views(conns@) == connection_views(
                    self.connections@.take(i as int),
                ).filter(other_account(account_id@)),
            decreases self.connections.len() - i,
        {
            let c = &self.connections[i];
            proof {
                let before = connection_views(self.connections@.take(i as int));
                assert(connection_views(self.connections@.take(i + 1)) =~= before.push(c@));
                before.lemma_filter_push(c@, other_account(account_id@));
            }
            if !str_eq(c.account_id.as_str(), account_id) {
                let ghost old_conns = connection_views(conns@);
                conns.push(Connection { account_id: c.account_id.clone(), host: c.host.clone() });
                proof {
                    assert(connection_views(conns@) =~= old_conns.push(c@));
                }
            }
            i += 1;
        }
        let mut subs: Vec<Subscription> = Vec::new();
        let mut j: usize = 0;
        assert(subscription_views(self.subscriptions@.take(0)) =~= Seq::empty());
        assert(Seq::<SubscriptionView>::empty().filter(not_of_account(account_id@))
            =~= Seq::empty()) by {
            reveal(Seq::filter);
        }
        while j < self.subscriptions.len()
            invariant
                j <= self.subscriptions.len(),
                subscription_views(subs@) == subscription_views(
                    self.subscriptions@.take(j as int),
                ).filter(not_of_account(account_id@)),
            decreases self.subscriptions.len() - j,
        {
            let s = &self.subscriptions[j];
            proof {
                let before = subscription_views(self.subscriptions@.take(j as int));
                assert(subscription_views(self.subscriptions@.take(j + 1)) =~= before.push(s@));
                before.lemma_filter_push(s@, not_of_account(account_id@));
            }
            if !str_eq(s.account_id.as_str(), account_id) {
                let ghost old_subs = subscription_views(subs@);
                subs.push(s.duplicate());
                proof {
                    assert(subscription_views(subs@) =~= old_subs.push(s@));
                }
            }
            j += 1;
        }
        proof {
            assert(self.connections@.take(self.connections.len() as int) == self.connections@);
            assert(self.subscriptions@.take(self.subscriptions.len() as int)
                == self.subscriptions@);
        }
        self.connections = conns;
        self.subscriptions = subs;
        (
            had,
            StreamStatusEvent {
                account_id: account_id.to_owned(),
                state: "disconnected".to_owned(),
            },
        )
    }

    fn record(&mut self, s: Subscription)
        requires
            old(self).wf(),
            old(self)@.is_connected(s@.account_id),
        ensures
            final(self)@ == old(self)@.subscribe(s@),
            final(self).wf(),
    {
        proof {
            lemma_subscribe_wf(self@, s@);
        }
        self.drop_subscriptions_with_id(s.id.as_str());
        let ghost kept = self@.subscriptions;
        self.subscriptions.push(s);
        proof {
            assert(self@.subscriptions =~= kept.push(s@));
        }
    }

    /// Subscribes the account to a timeline under the given id: the
    /// subscription is recorded, and the command for the connection's task
    /// is returned. Fails on an unknown timeline and on an account without
    /// a connection, and then records nothing.
    pub fn subscribe_timeline_with_id(
        &mut self,
        account_id: &str,
        timeline_type: &TimelineType,
        sub_id: &str,
    ) -> (r: Result<WsCommand, NoteDeckError>)
        requires
            old(self).wf(),
        ensures
            final(self).wf(),
            match r {
                Ok(cmd) => {
                    &&& channel_of(timeline_type@) matches Some(channel)
                    &&& old(self)@.is_connected(account_id@)
                    &&& cmd@ == (WsCommandView::Subscribe { channel, id: sub_id@ })
                    &&& final(self)@ == old(self)@.subscribe(
                        SubscriptionView {
                            id: sub_id@,
                            account_id: account_id@,
                            host: old(self)@.host_of(account_id@),
                            kind: SubscriptionKind::Timeline,
                            channel,
                        },
                    )
                },
                Err(e) => {
                    &&& final(self)@ == old(self)@
                    &&& if channel_of(timeline_type@) is None {
                        e@ == unknown_timeline(timeline_type@)
                    } else {
                        !old(self)@.is_connected(account_id@) && e@ == ErrorView::NoConnection(
                            account_id@,
                        )
                    }
                },
            },
    {
        let channel = match timeline_type.ws_channel() {
            Ok(c) => c,
            Err(e) => {
                return Err(e);
            },
        };
        self.subscribe_channel(account_id, SubscriptionKind::Timeline, channel, sub_id)
    }

    fn subscribe_channel(
        &mut self,
        account_id: &str,
        kind: SubscriptionKind,
        channel: String,
        sub_id: &str,
    ) -> (r: Result<WsCommand, NoteDeckError>)
        requires
            old(self).wf(),
        ensures
            final(self).wf(),
            match r {
                Ok(cmd) => {
                    &&& old(self)@.is_connected(account_id@)
                    &&& cmd@ == (WsCommandView::Subscribe { channel: channel@, id: sub_id@ })
                    &&& final(self)@ == old(self)@.subscribe(
                        SubscriptionView {
                            id: sub_id@,
                            account_id: account_id@,
                            host: old(self)@.host_of(account_id@),
                            kind,
                            channel: channel@,
                        },
                    )
                },
                Err(e) => {
                    &&& final(self)@ == old(self)@
                    &&& !old(self)@.is_connected(account_id@)
                    &&& e@ == ErrorView::NoConnection(account_id@)
                },
            },
    {
        let host = match self.get_host(account_id) {
            Ok(h) => h,
            Err(e) => {
                return Err(e);
            },
        };
        let cmd = WsCommand::Subscribe { channel: channel.clone(), id: sub_id.to_owned() };
        self.record(
            Subscription {
                id: sub_id.to_owned(),
                account_id: account_id.to_owned(),
                host,
                kind,
                channel,
            },
        );
        Ok(cmd)
    }

    /// Subscribes the account to a timeline under a fresh id, which is
    /// returned with the command for the connection's task.
    pub fn subscribe_timeline(&mut self, account_id: &str, timeline_type: &TimelineType) -> (r:
        Result<(String, WsCommand), NoteDeckError>)
        requires
            old(self).wf(),
        ensures
            final(self).wf(),
            match r {
                Ok((sub_id, cmd)) => {
                    &&& channel_of(timeline_type@) matches Some(channel)
                    &&& old(self)@.is_connected(account_id@)
                    &&& cmd@ == (WsCommandView::Subscribe { channel, id: sub_id@ })
                    &&& final(self)@ == old(self)@.subscribe(
                        SubscriptionView {
                            id: sub_id@,
                            account_id: account_id@,
                            host: old(self)@.host_of(account_id@),
                            kind: SubscriptionKind::Timeline,
                            channel,
                        },
                    )
                },
                Err(e) => {
                    &&& final(self)@ == old(self)@
                    &&& if channel_of(timeline_type@) is None {
                        e@ == unknown_timeline(timeline_type@)
                    } else {
                        !old(self)@.is_connected(account_id@) && e@ == ErrorView::NoConnection(
                            account_id@,
                        )
                    }
                },
            },
    {
        let sub_id = fresh_id();
        match self.subscribe_timeline_with_id(account_id, timeline_type, sub_id.as_str()) {
            Ok(cmd) => Ok((sub_id, cmd)),
            Err(e) => Err(e),
        }
    }

    /// Subscribes the account to its own events under the given id.
    pub fn subscribe_main_with_id(&mut self, account_id: &str, sub_id: &str) -> (r: Result<
        WsCommand,
        NoteDeckError,
    >)
        requires
            old(self).wf(),
        ensures
            final(self).wf(),
            match r {
                Ok(cmd) => {
                    &&& old(self)@.is_connected(account_id@)
                    &&& cmd@ == (WsCommandView::Subscribe { channel: "main"@, id: sub_id@ })
                    &&& final(self)@ == old(self)@.subscribe(
                        SubscriptionView {
                            id: sub_id@,
                            account_id: account_id@,
                            host: old(self)@.host_of(account_id@),
                            kind: SubscriptionKind::Main,
                            channel: "main"@,
                        },
                    )
                },
                Err(e) => {
                    &&& final(self)@ == old(self)@
                    &&& !old(self)@.is_connected(account_id@)
                    &&& e@ == ErrorView::NoConnection(account_id@)
                },
            },
    {
        self.subscribe_channel(account_id, SubscriptionKind::Main, "main".to_owned(), sub_id)
    }

    /// Subscribes the account to its own events under a fresh id, which is
    /// returned with the command for the connection's task.
    pub fn subscribe_main(&mut self, account_id: &str) -> (r: Result<
        (String, WsCommand),
        NoteDeckError,
    >)
        requires
            old(self).wf(),
        ensures
            final(self).wf(),
            match r {
                Ok((sub_id, cmd)) => {
                    &&& old(self)@.is_connected(account_id@)
                    &&& cmd@ == (WsCommandView::Subscribe { channel: "main"@, id: sub_id@ })
                    &&& final(self)@ == old(self)@.subscribe(
                        SubscriptionView {
                            id: sub_id@,
                            account_id: account_id@,
                            host: old(self)@.host_of(account_id@),
                            kind: SubscriptionKind::Main,
                            channel: "main"@,
                        },
                    )
                },
                Err(e) => {
                    &&& final(self)@ == old(self)@
                    &&& !old(self)@.is_connected(account_id@)
                    &&& e@ == ErrorView::NoConnection(account_id@)
                },
            },
    {
        let sub_id = fresh_id();
        match self.subscribe_main_with_id(account_id, sub_id.as_str()) {
            Ok(cmd) => Ok((sub_id, cmd)),
            Err(e) => Err(e),
        }
    }

    /// Ends a subscription: it leaves the registry, and the command for the
    /// connection's task is returned. Fails, and changes nothing, where the
    /// account has no connection.
    pub fn unsubscribe(&mut self, account_id: &str, subscription_id: &str) -> (r: Result<
        WsCommand,
        NoteDeckError,
    >)
        requires
            old(self).wf(),
        ensures
            final(self).wf(),
            match r {
                Ok(cmd) => {
                    &&& old(self)@.is_connected(account_id@)
                    &&& cmd@ == (WsCommandView::Unsubscribe { id: subscription_id@ })
                    &&& final(self)@ == old(self)@.unsubscribe(subscription_id@)
                },
                Err(e) => {
                    &&& final(self)@ == old(self)@
                    &&& !old(self)@.is_connected(account_id@)
                    &&& e@ == ErrorView::NoConnection(account_id@)
                },
            },
    {
        if !self.is_connected(account_id) {
            return Err(NoteDeckError::NoConnection(account_id.to_owned()));
        }
        proof {
            lemma_unsubscribe_wf(self@, subscription_id@);
        }
        self.drop_subscriptions_with_id(subscription_id);
        Ok(WsCommand::Unsubscribe { id: subscription_id.to_owned() })
    }

    /// The commands to send on a fresh socket of the account before its
    /// frames are read: one subscribe command for each of its subscriptions.
    pub fn replay(&self, account_id: &str) -> (r: Vec<WsCommand>)
        ensures
            r@.map_values(|c: WsCommand| c@) == self@.replay(account_id@),
    {
        let mut out: Vec<WsCommand> = Vec::new();
        let mut i: usize = 0;
        let ghost views = |c: WsCommand| c@;
        let ghost again = |s: SubscriptionView| resubscribe(s);
        assert(subscription_views(self.subscriptions@.take(0)) =~= Seq::empty());
        assert(Seq::<SubscriptionView>::empty().filter(of_account(account_id@)) =~= Seq::empty())
            by {
            reveal(Seq::filter);
        }
        assert(out@.map_values(views) =~= Seq::<SubscriptionView>::empty().map_values(again));
        while i < self.subscriptions.len()
            invariant
                i <= self.subscriptions.len(),
                views == |c: WsCommand| c@,
                again == |s: SubscriptionView| resubscribe(s),
                out@.map_values(views) == subscription_views(
                    self.subscriptions@.take(i as int),
                ).filter(of_account(account_id@)).map_values(again),
            decreases self.subscriptions.len() - i,
        {
            let s = &self.subscriptions[i];
            proof {
                let before = subscription_views(self.subscriptions@.take(i as int));
                assert(subscription_views(self.subscriptions@.take(i + 1)) =~= before.push(s@));
                before.lemma_filter_push(s@, of_account(account_id@));
            }
            if str_eq(s.account_id.as_str(), account_id) {
                let ghost old_out = out@.map_values(views);
                let ghost kept = subscription_views(self.subscriptions@.take(i as int)).filter(
                    of_account(account_id@),
                );
                let cmd = WsCommand::Subscribe { channel: s.channel.clone(), id: s.id.clone() };
                out.push(cmd);
                proof {
                    assert(out@.map_values(views) =~= old_out.push(resubscribe(s@)));
                    assert(kept.push(s@).map_values(again) =~= kept.map_values(again).push(
                        resubscribe(s@),
                    ));
                }
            }
            i += 1;
        }
        proof {
            assert(self.subscriptions@.take(self.subscriptions.len() as int)
                == self.subscriptions@);
        }
        out
    }
}

impl StreamingManager {
    /// Decides what a frame with the document `msg` asks for. Only channel
    /// frames for a known subscription ask for anything.
    pub fn dispatch(&self, msg: &serde_json::Value) -> (r: StreamDispatch)
        requires
            self.wf(),
        ensures
            r@ == self@.dispatch(json_of(*msg)),
    {
        let is_channel = match json::get_str(msg, "type") {
            Some(t) => str_eq(t, "channel"),
            None => false,
        };
        if !is_channel {
            return StreamDispatch::Ignore;
        }
        let body = match json::get(msg, "body") {
            Some(b) => b,
            None => {
                return StreamDispatch::Ignore;
            },
        };
        let id = match json::get_str(body, "id") {
            Some(id) => id,
            None => {
                return StreamDispatch::Ignore;
            },
        };
        let event_type = match json::get_str(body, "type") {
            Some(t) => t,
            None => {
                return StreamDispatch::Ignore;
            },
        };
        let payload = match json::get(body, "body") {
            Some(p) => p,
            None => {
                return StreamDispatch::Ignore;
            },
        };
        let i = match self.find_subscription(id) {
            Some(i) => i,
            None => {
                return StreamDispatch::Ignore;
            },
        };
        let sub = &self.subscriptions[i];
        proof {
            assert(self@.subscriptions[i as int].id == id@);
            let c = choose|c: int|
                0 <= c < self@.subscriptions.len() && #[trigger] self@.subscriptions[c].id == id@;
            if c < i {
                assert(self@.subscriptions[c].id != self@.subscriptions[i as int].id);
            }
            if i < c {
                assert(self@.subscriptions[i as int].id != self@.subscriptions[c].id);
            }
            assert(self@.subscription(id@) == sub@);
        }
        route_frame(sub, event_type, payload)
    }

    /// Decides what a text frame asks for: nothing where the text is no
    /// JSON, else what its document asks for.
    pub fn handle_ws_message(&self, text: &str) -> (r: StreamDispatch)
        requires
            self.wf(),
        ensures
            r@ == match json_parse(text@) {
                Some(msg) => self@.dispatch(msg),
                None => DispatchView::Ignore,
            },
    {
        match json::parse(text) {
            Ok(msg) => self.dispatch(&msg),
            Err(_) => StreamDispatch::Ignore,
        }
    }
}

fn owned_or_empty(t: Option<&str>) -> (r: String)
    ensures
        r@ == match t {
            Some(s) => s@,
            None => Seq::<char>::empty(),
        },
{
    match t {
        Some(s) => s.to_owned(),
        None => String::new(),
    }
}

/// Decides what an event of type `event_type` with the given payload asks for
/// when it arrives for the subscription `sub`.
pub fn route_frame(sub: &Subscription, event_type: &str, payload: &serde_json::Value) -> (r:
    StreamDispatch)
    ensures
        r@ == route(sub@, event_type@, json_of(*payload)),
{
    match sub.kind {
        SubscriptionKind::Timeline => {
            if str_eq(event_type, "note") {
                StreamDispatch::Note {
                    subscription_id: sub.id.clone(),
                    host: sub.host.clone(),
                    body: json::duplicate(payload),
                }
            } else if str_eq(event_type, "noteUpdated") {
                let note_id = owned_or_empty(json::get_str(payload, "id"));
                let update_type = owned_or_empty(json::get_str(payload, "type"));
                let body = match json::get(payload, "body") {
                    Some(b) => json::duplicate(b),
                    None => json::null(),
                };
                StreamDispatch::NoteUpdated {
                    subscription_id: sub.id.clone(),
                    note_id,
                    update_type,
                    body,
                }
            } else {
                StreamDispatch::Ignore
            }
        },
        SubscriptionKind::Main => {
            if str_eq(event_type, "notification") {
                StreamDispatch::Notification {
                    subscription_id: sub.id.clone(),
                    host: sub.host.clone(),
                    body: json::duplicate(payload),
                }
            } else {
                StreamDispatch::MainEvent {
                    subscription_id: sub.id.clone(),
                    event_type: event_type.to_owned(),
                    body: json::duplicate(payload),
                }
            }
        },
    }
}

impl StreamDispatch {
    /// The name of the event under which the frame is passed on; `None`
    /// where nothing is.
    pub fn event_name(&self) -> (r: Option<&'static str>)
        ensures
            match r {
                Some(n) => self@.event_name() == Some(n@),
                None => self@.event_name() is None,
            },
    {
        match self {
            StreamDispatch::Ignore => None,
            StreamDispatch::Note { .. } => Some("stream-note"),
            StreamDispatch::NoteUpdated { .. } => Some("stream-note-updated"),
            StreamDispatch::Notification { .. } => Some("stream-notification"),
            StreamDispatch::MainEvent { .. } => Some("stream-main-event"),
        }
    }
}

/// The frame that subscribes to `channel` under `id`.
pub open spec fn connect_frame(channel: Seq<char>, id: Seq<char>) -> Json {
    Json::empty_object().with("type"@, Json::Str("connect"@)).with(
        "body"@,
        Json::empty_object().with("channel"@, Json::Str(channel)).with("id"@, Json::Str(id)),
    )
}

/// The frame that ends the subscription `id`.
pub open spec fn disconnect_frame(id: Seq<char>) -> Json {
    Json::empty_object().with("type"@, Json::Str("disconnect"@)).with(
        "body"@,
        Json::empty_object().with("id"@, Json::Str(id)),
    )
}

/// The text of the frame that subscribes to `channel` under `id`.
pub fn connect_frame_text(channel: &str, id: &str) -> (r: String)
    ensures
        r@ == json_text(connect_frame(channel@, id@)),
{
    let mut body = json::empty_object();
    json::insert(&mut body, "channel", json::string(channel));
    json::insert(&mut body, "id", json::string(id));
    let mut frame = json::empty_object();
    json::insert(&mut frame, "type", json::string("connect"));
    json::insert(&mut frame, "body", body);
    json::render(&frame)
}

/// The text of the frame that ends the subscription `id`.
pub fn disconnect_frame_text(id: &str) -> (r: String)
    ensures
        r@ == json_text(disconnect_frame(id@)),
{
    let mut body = json::empty_object();
    json::insert(&mut body, "id", json::string(id));
    let mut frame = json::empty_object();
    json::insert(&mut frame, "type", json::string("disconnect"));
    json::insert(&mut frame, "body", body);
    json::render(&frame)
}

/// Why a session on a socket ended.
#[derive(Debug, Clone, Copy, PartialEq, Eq)]
pub enum WsExitReason {
    Disconnected,
    Shutdown,
}

/// What happens to a session while it runs.
#[derive(Debug, Clone, PartialEq, Eq)]
pub enum SessionEvent {
    /// A text frame arrived.
    Text(String),
    /// A ping arrived.
    Ping(Vec<u8>),
    /// A close frame arrived, the stream ended or reading failed.
    Closed,
    /// A frame of any other kind arrived.
    OtherFrame,
    /// A command arrived.
    Command(WsCommand),
    /// The sender of commands is gone.
    CommandsClosed,
    /// The keepalive interval of thirty seconds has passed.
    KeepaliveDue,
}

/// What the session does next.
#[derive(Debug, Clone, PartialEq, Eq)]
pub enum SessionAction {
    /// Hand the text to [`StreamingManager::handle_ws_message`] and act on
    /// the result.
    Handle { text: String },
    /// Send a text frame; a failure is logged and the session goes on.
    SendText { text: String },
    /// Answer a ping with its payload; a failure ends the session as
    /// disconnected.
    SendPong { payload: Vec<u8> },
    /// Send a ping without payload; a failure ends the session as
    /// disconnected.
    SendPing,
    /// Close the socket and end the session as shut down.
    CloseAndExit,
    /// End the session as disconnected.
    ExitDisconnected,
    /// Go on reading.
    Continue,
}

/// The seconds between two keepalive pings of a session.
pub const KEEPALIVE_SECS: u64 = 30;

/// The seconds within which a socket must be open.
pub const WS_CONNECT_TIMEOUT_SECS: u64 = 10;

/// The largest message that is taken from a socket, in bytes: ten mebibytes.
pub const WS_MAX_MESSAGE_BYTES: usize = 10485760;

/// The largest frame that is taken from a socket, in bytes: two mebibytes.
pub const WS_MAX_FRAME_BYTES: usize = 2097152;

/// Decides what a session does on an event.
pub fn session_step(event: SessionEvent) -> (action: SessionAction)
    ensures
        match event {
            SessionEvent::Text(t) => action matches SessionAction::Handle { text } && text@ == t@,
            SessionEvent::Ping(p) => action matches SessionAction::SendPong { payload } && payload@
                == p@,
            SessionEvent::Closed => action is ExitDisconnected,
            SessionEvent::OtherFrame => action is Continue,
            SessionEvent::Command(WsCommand::Subscribe { channel, id }) => action
                matches SessionAction::SendText { text } && text@ == json_text(
                connect_frame(channel@, id@),
            ),
            SessionEvent::Command(WsCommand::Unsubscribe { id }) => action
                matches SessionAction::SendText { text } && text@ == json_text(
                disconnect_frame(id@),
            ),
            SessionEvent::Command(WsCommand::Shutdown) => action is CloseAndExit,
            SessionEvent::CommandsClosed => action is CloseAndExit,
            SessionEvent::KeepaliveDue => action is SendPing,
        },
{
    match event {
        SessionEvent::Text(t) => SessionAction::Handle { text: t },
        SessionEvent::Ping(p) => SessionAction::SendPong { payload: p },
        SessionEvent::Closed => SessionAction::ExitDisconnected,
        SessionEvent::OtherFrame => SessionAction::Continue,
        SessionEvent::Command(WsCommand::Subscribe { channel, id }) => SessionAction::SendText {
            text: connect_frame_text(channel.as_str(), id.as_str()),
        },
        SessionEvent::Command(WsCommand::Unsubscribe { id }) => SessionAction::SendText {
            text: disconnect_frame_text(id.as_str()),
        },
        SessionEvent::Command(WsCommand::Shutdown) => SessionAction::CloseAndExit,
        SessionEvent::CommandsClosed => SessionAction::CloseAndExit,
        SessionEvent::KeepaliveDue => SessionAction::SendPing,
    }
}

/// Decides whether a session ends when sending failed: it ends as
/// disconnected after a failed pong or ping, and goes on after a failed text
/// frame.
pub fn after_send_failure(action: &SessionAction) -> (r: Option<WsExitReason>)
    ensures
        r == if action is SendPong || action is SendPing {
            Some(WsExitReason::Disconnected)
        } else {
            None::<WsExitReason>
        },
{
    match action {
        SessionAction::SendPong { .. } => Some(WsExitReason::Disconnected),
        SessionAction::SendPing => Some(WsExitReason::Disconnected),
        _ => None,
    }
}

/// The longest wait between two attempts to reconnect, in seconds.
pub const MAX_BACKOFF_SECS: u64 = 30;

/// Where the supervisor of a connection stands.
#[derive(Debug, Clone, Copy, PartialEq, Eq)]
pub enum SupervisorState {
    /// A session runs on an open socket.
    Running,
    /// The socket is lost; the supervisor waits before it reconnects.
    Waiting { backoff_secs: u64 },
    /// The wait is over; an attempt to reconnect is under way.
    Connecting { backoff_secs: u64 },
    /// The supervisor has ended.
    Stopped,
}

/// What the supervisor is told.
#[derive(Debug, Clone, Copy, PartialEq, Eq)]
pub enum SupervisorEvent {
    /// The session ended.
    SessionEnded(WsExitReason),
    /// A shutdown command arrived, or the sender of commands is gone.
    ShutdownRequested,
    /// A subscribe or unsubscribe command arrived.
    SubscriptionCommand,
    /// The wait is over.
    BackoffElapsed,
    /// The socket is open again.
    Reconnected,
    /// Reconnecting failed or timed out.
    ReconnectFailed,
}

/// What the supervisor does next.
#[derive(Debug, Clone, Copy, PartialEq, Eq)]
pub enum SupervisorAction {
    /// Nothing: go on with what is under way.
    Nothing,
    /// End the task.
    Stop,
    /// Announce the state `reconnecting`, then wait for so many seconds,
    /// listening for commands meanwhile.
    AnnounceAndWait { secs: u64 },
    /// Try to open the socket again, within the connect timeout.
    Reconnect,
    /// Announce the state `connected` and run a session on the new socket.
    AnnounceAndRun,
}

/// The wait after a failed attempt that followed a wait of `secs`: twice as
/// long, at most thirty seconds.
pub open spec fn next_backoff(secs: int) -> int {
    if 2 * secs > 30 {
        30
    } else {
        2 * secs
    }
}

impl SupervisorState {
    /// A wait lasts at least one second and at most thirty.
    pub open spec fn wf(self) -> bool {
        match self {
            SupervisorState::Waiting { backoff_secs } => 1 <= backoff_secs <= 30,
            SupervisorState::Connecting { backoff_secs } => 1 <= backoff_secs <= 30,
            _ => true,
        }
    }

    /// The state and the action that follow an event. An event that cannot
    /// occur in a state changes nothing.
    pub open spec fn next(self, event: SupervisorEvent) -> (SupervisorState, SupervisorAction) {
        match (self, event) {
            (SupervisorState::Running, SupervisorEvent::SessionEnded(WsExitReason::Shutdown)) => (
                SupervisorState::Stopped,
                SupervisorAction::Stop,
            ),
            (
                SupervisorState::Running,
                SupervisorEvent::SessionEnded(WsExitReason::Disconnected),
            ) => (
                SupervisorState::Waiting { backoff_secs: 1 },
                SupervisorAction::AnnounceAndWait { secs: 1 },
            ),
            (SupervisorState::Waiting { .. }, SupervisorEvent::ShutdownRequested) => (
                SupervisorState::Stopped,
                SupervisorAction::Stop,
            ),
            (SupervisorState::Waiting { backoff_secs }, SupervisorEvent::BackoffElapsed) => (
                SupervisorState::Connecting { backoff_secs },
                SupervisorAction::Reconnect,
            ),
            (SupervisorState::Connecting { .. }, SupervisorEvent::Reconnected) => (
                SupervisorState::Running,
                SupervisorAction::AnnounceAndRun,
            ),
            (SupervisorState::Connecting { backoff_secs }, SupervisorEvent::ReconnectFailed) => (
                SupervisorState::Waiting { backoff_secs: next_backoff(backoff_secs as int) as u64 },
                SupervisorAction::AnnounceAndWait { secs: next_backoff(backoff_secs as int) as u64 },
            ),
            _ => (self, SupervisorAction::Nothing),
        }
    }

    /// The state of a supervisor whose first session has just begun.
    pub fn start() -> (r: SupervisorState)
        ensures
            r == SupervisorState::Running,
    {
        SupervisorState::Running
    }

    /// Decides what follows an event.
    pub fn step(self, event: SupervisorEvent) -> (r: (SupervisorState, SupervisorAction))
        ensures
            r == self.next(event),
            self.wf() ==> r.0.wf(),
    {
        match self {
            SupervisorState::Running => match event {
                SupervisorEvent::SessionEnded(WsExitReason::Shutdown) => (
                    SupervisorState::Stopped,
                    SupervisorAction::Stop,
                ),
                SupervisorEvent::SessionEnded(WsExitReason::Disconnected) => (
                    SupervisorState::Waiting { backoff_secs: 1 },
                    SupervisorAction::AnnounceAndWait { secs: 1 },
                ),
                _ => (self, SupervisorAction::Nothing),
            },
            SupervisorState::Waiting { backoff_secs } => match event {
                SupervisorEvent::ShutdownRequested => (
                    SupervisorState::Stopped,
                    SupervisorAction::Stop,
                ),
                SupervisorEvent::BackoffElapsed => (
                    SupervisorState::Connecting { backoff_secs },
                    SupervisorAction::Reconnect,
                ),
                _ => (self, SupervisorAction::Nothing),
            },
            SupervisorState::Connecting { backoff_secs } => match event {
                SupervisorEvent::Reconnected => (
                    SupervisorState::Running,
                    SupervisorAction::AnnounceAndRun,
                ),
                SupervisorEvent::ReconnectFailed => {
                    let secs: u64 = if backoff_secs > 15 {
                        30
                    } else {
                        2 * backoff_secs
                    };
                    (
                        SupervisorState::Waiting { backoff_secs: secs },
                        SupervisorAction::AnnounceAndWait { secs },
                    )
                },
                _ => (self, SupervisorAction::Nothing),
            },
            SupervisorState::Stopped => (self, SupervisorAction::Nothing),
        }
    }
}

/// Tells the supervisor's event for a command that arrives while it waits:
/// a shutdown, or a missing sender, ends it; anything else is dropped, since
/// the registry already holds what the next session replays.
pub fn wait_event(cmd: Option<&WsCommand>) -> (r: SupervisorEvent)
    ensures
        r == match cmd {
            Some(WsCommand::Shutdown) => SupervisorEvent::ShutdownRequested,
            None => SupervisorEvent::ShutdownRequested,
            _ => SupervisorEvent::SubscriptionCommand,
        },
{
    match cmd {
        Some(WsCommand::Shutdown) => SupervisorEvent::ShutdownRequested,
        None => SupervisorEvent::ShutdownRequested,
        _ => SupervisorEvent::SubscriptionCommand,
    }
}

/// The announcement of a connection state of an account.
pub fn status_event(account_id: &str, state: &str) -> (r: StreamStatusEvent)
    ensures
        r.account_id@ == account_id@,
        r.state@ == state@,
{
    StreamStatusEvent { account_id: account_id.to_owned(), state: state.to_owned() }
}

/// A subscription outlives the loss of its socket: once it is recorded for
/// a connected account, one forced disconnect and reconnect brings the
/// supervisor back to a running session, and the replay for that session
/// holds the subscribe command with the same id and channel, and no other
/// command with that id.
pub proof fn lemma_subscription_survives_reconnect(m: ManagerView, s: SubscriptionView)
    requires
        m.wf(),
        m.is_connected(s.account_id),
    ensures
        SupervisorState::Running.next(SupervisorEvent::SessionEnded(WsExitReason::Disconnected)).0
            == (SupervisorState::Waiting { backoff_secs: 1 }),
        (SupervisorState::Waiting { backoff_secs: 1 }).next(SupervisorEvent::BackoffElapsed)
            == (SupervisorState::Connecting { backoff_secs: 1 }, SupervisorAction::Reconnect),
        (SupervisorState::Connecting { backoff_secs: 1 }).next(SupervisorEvent::Reconnected) == (
            SupervisorState::Running,
            SupervisorAction::AnnounceAndRun,
        ),
        ({
            let replay = m.subscribe(s).replay(s.account_id);
            &&& replay.len() > 0
            &&& replay.last() == resubscribe(s)
            &&& forall|j: int|
                0 <= j < replay.len() - 1 ==> (#[trigger] replay[j]) is Subscribe
                    && replay[j]->Subscribe_id != s.id
        }),
{
    let kept = m.subscriptions.filter(not_id(s.id));
    let mine = of_account(s.account_id);
    kept.lemma_filter_push(s, mine);
    assert(mine(s));
    let before = kept.filter(mine);
    let replay = m.subscribe(s).replay(s.account_id);
    assert(m.subscribe(s).subscriptions.filter(mine) == before.push(s));
    assert(replay.len() == before.len() + 1);
    assert(replay.last() == resubscribe(s));
    assert forall|j: int| 0 <= j < replay.len() - 1 implies (#[trigger] replay[j]) is Subscribe
        && replay[j]->Subscribe_id != s.id by {
        assert(replay[j] == resubscribe(before[j]));
        kept.lemma_filter_contains_rev(mine, before[j]);
        let k = choose|k: int| 0 <= k < kept.len() && kept[k] == before[j];
        m.subscriptions.lemma_filter_pred(not_id(s.id), k);
    }
}

} // verus!
