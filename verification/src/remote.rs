//! The client of the service: which protocol it speaks, what it sends and when it tries again.
//!
//! Messages go through the pipe as bytes; here they count as what they say.

use vstd::prelude::*;

use crate::text::to_decimal;

verus! {

/// The target goes out again after a second without a change: the service may have been started
/// anew and forgotten it. In milliseconds, as all times here.
pub const TARGET_REFRESH: u64 = 1000;

/// How the connection stands, for the line in the overlay.
#[derive(Debug, PartialEq)]
pub enum Link {
    Connecting,
    /// `sensor_options`: the service understands the options of the sensors. An old one does not,
    /// and the client speaks the old protocol with it.
    Connected { service_version: String, sensor_options: bool },
    Refused(String),
}

pub enum LinkView {
    Connecting,
    Connected { service_version: Seq<char>, sensor_options: bool },
    Refused(Seq<char>),
}

impl View for Link {
    type V = LinkView;

    open spec fn view(&self) -> LinkView {
        match self {
            Link::Connecting => LinkView::Connecting,
            Link::Connected { service_version, sensor_options } => LinkView::Connected {
                service_version: service_version@,
                sensor_options: *sensor_options,
            },
            Link::Refused(reason) => LinkView::Refused(reason@),
        }
    }
}

impl Clone for Link {
    fn clone(&self) -> (r: Link)
        ensures
            r@ == self@,
    {
        match self {
            Link::Connecting => Link::Connecting,
            Link::Connected { service_version, sensor_options } => Link::Connected {
                service_version: service_version.clone(),
                sensor_options: *sensor_options,
            },
            Link::Refused(reason) => Link::Refused(reason.clone()),
        }
    }
}

/// What the client knows beyond one connection.
#[derive(Debug)]
pub struct Client {
    pub link: Link,
    /// The protocol to greet with. An old service refuses the new one; then the client speaks
    /// the old one until the service is gone, for it may be getting an update.
    pub protocol: u32,
}

impl Client {
    pub fn new(newest: u32) -> (r: Client)
        ensures
            r.link@ == LinkView::Connecting,
            r.protocol == newest,
    {
        Client { link: Link::Connecting, protocol: newest }
    }

    pub fn link(&self) -> (r: Link)
        ensures
            r@ == self.link@,
    {
        self.link.clone()
    }

    /// Whether the last readings of the service count: old ones are worse than none.
    pub fn shows_snapshot(&self) -> (r: bool)
        ensures
            r == (self.link@ is Connected),
    {
        match self.link {
            Link::Connected { service_version: _, sensor_options: _ } => true,
            _ => false,
        }
    }

    /// The service does not answer. It may be getting an update, so the next greeting is in the
    /// newest protocol again.
    pub fn not_connected(&mut self, newest: u32)
        ensures
            final(self).link@ == LinkView::Connecting,
            final(self).protocol == newest,
    {
        self.link = Link::Connecting;
        self.protocol = newest;
    }

    /// A connection that was greeted in `protocol` is over: whether to try again at once, which
    /// is where the protocol has changed. A refusal stays on show.
    pub fn after_session(&mut self, protocol: u32) -> (r: bool)
        ensures
            r == (old(self).protocol != protocol),
            final(self).protocol == old(self).protocol,
            final(self).link@ == (if r || old(self).link@ is Refused {
                old(self).link@
            } else {
                LinkView::Connecting
            }),
    {
        if self.protocol != protocol {
            return true;
        }
        let refused = match self.link {
            Link::Refused(_) => true,
            _ => false,
        };
        if !refused {
            self.link = Link::Connecting;
        }
        false
    }
}

/// What arrives from the service.
#[derive(Debug)]
pub enum Incoming {
    Nothing,
    Hello(String),
    Snapshot,
    Refused(String),
    /// The connection is gone, or what came cannot be read.
    Closed,
}

pub enum IncomingView {
    Nothing,
    Hello(Seq<char>),
    Snapshot,
    Refused(Seq<char>),
    Closed,
}

impl View for Incoming {
    type V = IncomingView;

    open spec fn view(&self) -> IncomingView {
        match self {
            Incoming::Nothing => IncomingView::Nothing,
            Incoming::Hello(version) => IncomingView::Hello(version@),
            Incoming::Snapshot => IncomingView::Snapshot,
            Incoming::Refused(reason) => IncomingView::Refused(reason@),
            Incoming::Closed => IncomingView::Closed,
        }
    }
}

/// One connection.
#[derive(Debug)]
pub struct Session {
    pub protocol: u32,
    pub sensor_options: bool,
    pub sent_target: Option<Vec<u8>>,
    pub sent_sensors: Option<Vec<u8>>,
    pub next_refresh: u64,
}

#[verifier::ext_equal]
pub struct SessionView {
    pub protocol: u32,
    pub sensor_options: bool,
    pub sent_target: Option<Seq<u8>>,
    pub sent_sensors: Option<Seq<u8>>,
    pub next_refresh: u64,
}

pub open spec fn bytes_of(message: Option<Vec<u8>>) -> Option<Seq<u8>> {
    match message {
        Some(bytes) => Some(bytes@),
        None => None,
    }
}

impl View for Session {
    type V = SessionView;

    open spec fn view(&self) -> SessionView {
        SessionView {
            protocol: self.protocol,
            sensor_options: self.sensor_options,
            sent_target: bytes_of(self.sent_target),
            sent_sensors: bytes_of(self.sent_sensors),
            next_refresh: self.next_refresh,
        }
    }
}

/// What follows a message.
#[derive(Debug, PartialEq)]
pub struct Received {
    /// Whether the connection goes on.
    pub goes_on: bool,
    /// A line for the journal.
    pub log: Option<String>,
    /// Whether there is something new to show.
    pub repaint: bool,
}

/// The state of a connection and of the client after a message.
pub open spec fn after_message(
    session: SessionView,
    link: LinkView,
    protocol: u32,
    message: IncomingView,
    oldest: u32,
) -> (SessionView, LinkView, u32) {
    match message {
        IncomingView::Hello(version) => (
            SessionView { sent_target: None, sent_sensors: None, ..session },
            LinkView::Connected {
                service_version: version,
                sensor_options: session.sensor_options,
            },
            protocol,
        ),
        IncomingView::Refused(reason) => if session.protocol > oldest {
            (session, link, oldest)
        } else {
            (session, LinkView::Refused(reason), protocol)
        },
        _ => (session, link, protocol),
    }
}

/// What the journal gets of a message.
pub open spec fn message_line(protocol: u32, message: IncomingView, oldest: u32) -> Option<
    Seq<char>,
> {
    match message {
        IncomingView::Hello(version) => Some(
            "служба "@ + version + " подключена, протокол "@ + crate::text::decimal(
                protocol as nat,
            ),
        ),
        IncomingView::Refused(reason) => Some(
            if protocol > oldest {
                "служба отказала ("@ + reason + ") — протокол "@ + crate::text::decimal(
                    oldest as nat,
                )
            } else {
                "служба отказала: "@ + reason
            },
        ),
        _ => None,
    }
}

fn same_bytes(sent: &Option<Vec<u8>>, b: &Vec<u8>) -> (r: bool)
    ensures
        r == (bytes_of(*sent) == Some(b@)),
{
    match sent {
        None => false,
        Some(a) => {
            if a.len() != b.len() {
                return false;
            }
            let mut i: usize = 0;
            while i < a.len()
                invariant
                    i <= a.len(),
                    a.len() == b.len(),
                    bytes_of(*sent) == Some(a@),
                    forall|j: int| 0 <= j < i ==> a@[j] == b@[j],
                decreases a.len() - i,
            {
                if a[i] != b[i] {
                    return false;
                }
                i += 1;
            }
            proof {
                assert(a@ =~= b@);
            }
            true
        },
    }
}

fn copy_bytes(bytes: &Vec<u8>) -> (r: Vec<u8>)
    ensures
        r@ == bytes@,
{
    let mut copy: Vec<u8> = Vec::new();
    let mut i: usize = 0;
    while i < bytes.len()
        invariant
            i <= bytes.len(),
            copy@ == bytes@.take(i as int),
        decreases bytes.len() - i,
    {
        copy.push(bytes[i]);
        i += 1;
    }
    proof {
        assert(bytes@.take(i as int) =~= bytes@);
    }
    copy
}

/// Whether the target is to be sent: it is another one, or it is time.
pub open spec fn target_due(session: SessionView, target: Option<Seq<u8>>, now: u64) -> bool {
    target is Some && (session.sent_target != target || now >= session.next_refresh)
}

/// Whether the options are to be sent: the service understands them, and they are others.
pub open spec fn sensors_due(session: SessionView, options: Seq<u8>) -> bool {
    session.sensor_options && session.sent_sensors != Some(options)
}

impl Session {
    /// A connection that begins with a greeting.
    pub fn new(protocol: u32, sensor_options: bool, now: u64) -> (r: Session)
        ensures
            r@ == (SessionView {
                protocol,
                sensor_options,
                sent_target: None,
                sent_sensors: None,
                next_refresh: now,
            }),
    {
        Session {
            protocol,
            sensor_options,
            sent_target: None,
            sent_sensors: None,
            next_refresh: now,
        }
    }

    /// Takes a message. A service that knows neither target nor options gets both at once. One
    /// that refuses the protocol is older than this program: the next greeting is in the oldest
    /// one, and where that was refused, the refusal is final.
    pub fn receive(&mut self, client: &mut Client, message: Incoming, oldest: u32) -> (r: Received)
        ensures
            (final(self)@, final(client).link@, final(client).protocol) == after_message(
                old(self)@,
                old(client).link@,
                old(client).protocol,
                message@,
                oldest,
            ),
            r.goes_on == (message@ is Nothing || message@ is Hello || message@ is Snapshot),
            r.repaint == (message@ is Snapshot),
            crate::paths::text_of(r.log) == message_line(old(self).protocol, message@, oldest),
    {
        match message {
            Incoming::Nothing => Received { goes_on: true, log: None, repaint: false },
            Incoming::Hello(service_version) => {
                let mut line = "служба ".to_string();
                line.append(service_version.as_str());
                line.append(" подключена, протокол ");
                line.append(to_decimal(self.protocol as u64).as_str());
                client.link = Link::Connected {
                    service_version,
                    sensor_options: self.sensor_options,
                };
                self.sent_target = None;
                self.sent_sensors = None;
                Received { goes_on: true, log: Some(line), repaint: false }
            },
            Incoming::Snapshot => Received { goes_on: true, log: None, repaint: true },
            Incoming::Refused(reason) => {
                if self.protocol > oldest {
                    let mut line = "служба отказала (".to_string();
                    line.append(reason.as_str());
                    line.append(") — протокол ");
                    line.append(to_decimal(oldest as u64).as_str());
                    client.protocol = oldest;
                    Received { goes_on: false, log: Some(line), repaint: false }
                } else {
                    let mut line = "служба отказала: ".to_string();
                    line.append(reason.as_str());
                    client.link = Link::Refused(reason);
                    Received { goes_on: false, log: Some(line), repaint: false }
                }
            },
            Incoming::Closed => Received { goes_on: false, log: None, repaint: false },
        }
    }

    /// What to send now: whether the target, and whether the options.
    pub fn outgoing(&mut self, target: &Option<Vec<u8>>, options: &Vec<u8>, now: u64) -> (r: (
        bool,
        bool,
    ))
        requires
            now + TARGET_REFRESH <= u64::MAX,
        ensures
            r.0 == target_due(old(self)@, bytes_of(*target), now),
            r.1 == sensors_due(old(self)@, options@),
            final(self)@ == (SessionView {
                sent_target: if r.0 {
                    bytes_of(*target)
                } else {
                    old(self)@.sent_target
                },
                next_refresh: if r.0 {
                    (now + TARGET_REFRESH) as u64
                } else {
                    old(self).next_refresh
                },
                sent_sensors: if r.1 {
                    Some(options@)
                } else {
                    old(self)@.sent_sensors
                },
                ..old(self)@
            }),
    {
        let mut send_target = false;
        if let Some(target) = target {
            if !same_bytes(&self.sent_target, target) || now >= self.next_refresh {
                send_target = true;
                self.sent_target = Some(copy_bytes(target));
                self.next_refresh = now + TARGET_REFRESH;
            }
        }
        let send_sensors = self.sensor_options && !same_bytes(&self.sent_sensors, options);
        if send_sensors {
            self.sent_sensors = Some(copy_bytes(options));
        }
        (send_target, send_sensors)
    }
}

/// After a greeting of the service both the target and the options go out, the options only to a
/// service that understands them.
pub proof fn law_greeting_sends_everything(
    session: SessionView,
    link: LinkView,
    protocol: u32,
    version: Seq<char>,
    oldest: u32,
    target: Seq<u8>,
    options: Seq<u8>,
    now: u64,
)
    ensures
        ({
            let after = after_message(
                session,
                link,
                protocol,
                IncomingView::Hello(version),
                oldest,
            ).0;
            &&& target_due(after, Some(target), now)
            &&& sensors_due(after, options) == session.sensor_options
        }),
{
}

/// A refusal is answered with the oldest protocol once; a refusal of that one is final.
pub proof fn law_refusals_end(
    session: SessionView,
    link: LinkView,
    reason: Seq<char>,
    oldest: u32,
)
    ensures
        ({
            let first = after_message(
                session,
                link,
                session.protocol,
                IncomingView::Refused(reason),
                oldest,
            );
            let retried = SessionView { protocol: first.2, ..session };
            let second = after_message(
                retried,
                first.1,
                first.2,
                IncomingView::Refused(reason),
                oldest,
            );
            &&& session.protocol > oldest ==> first.2 == oldest && second.1 == LinkView::Refused(
                reason,
            )
            &&& session.protocol <= oldest ==> first.1 == LinkView::Refused(reason) && first.2
                == session.protocol
        }),
{
}

/// What was sent is not sent again before it changes or, for the target, before it is time.
pub proof fn law_nothing_is_sent_twice(
    session: SessionView,
    target: Seq<u8>,
    options: Seq<u8>,
    now: u64,
    later: u64,
)
    requires
        later < now + 1_000,
        now + 1_000 <= u64::MAX,
    ensures
        ({
            let after = SessionView {
                sent_target: Some(target),
                next_refresh: (now + 1_000) as u64,
                sent_sensors: Some(options),
                ..session
            };
            &&& !target_due(after, Some(target), later)
            &&& !sensors_due(after, options)
        }),
{
}

/// A greeting connects the client with the version that the service has; a refusal of a newer
/// protocol shows nothing yet. No other message changes what is known of the connection.
pub proof fn law_messages_change_the_link(
    session: SessionView,
    link: LinkView,
    protocol: u32,
    message: IncomingView,
    oldest: u32,
)
    ensures
        ({
            let (next, now, speaks) = after_message(session, link, protocol, message, oldest);
            &&& message matches IncomingView::Hello(version) ==> now == (LinkView::Connected {
                service_version: version,
                sensor_options: session.sensor_options,
            }) && speaks == protocol
            &&& message matches IncomingView::Refused(reason) ==> if session.protocol > oldest {
                now == link && speaks == oldest
            } else {
                now == LinkView::Refused(reason) && speaks == protocol
            }
            &&& !(message is Hello) && !(message is Refused) ==> next == session && now == link
                && speaks == protocol
            &&& next.protocol == session.protocol
            &&& next.sensor_options == session.sensor_options
            &&& next.next_refresh == session.next_refresh
        }),
{
}

/// Another target is sent at once, the same one only when its time has come; other options are
/// sent at once to a service that understands them, and never to one that does not.
pub proof fn law_changes_are_sent(
    session: SessionView,
    target: Seq<u8>,
    options: Seq<u8>,
    now: u64,
)
    ensures
        session.sent_target != Some(target) ==> target_due(session, Some(target), now),
        session.sent_target == Some(target) ==> (target_due(session, Some(target), now)
            <==> now >= session.next_refresh),
        !target_due(session, None, now),
        !session.sensor_options ==> !sensors_due(session, options),
        session.sensor_options ==> (sensors_due(session, options) <==> session.sent_sensors
            != Some(options)),
{
}

/// What was due is what is sent, and is remembered as sent; what was not due is left as it was.
pub proof fn law_sent_is_remembered(
    session: &mut Session,
    target: Option<Vec<u8>>,
    options: Vec<u8>,
    now: u64,
    r: (bool, bool),
)
    requires
        call_ensures(Session::outgoing, (session, &target, &options, now), r),
        now + 1_000 <= u64::MAX,
    ensures
        r.0 <==> target_due(old(session)@, bytes_of(target), now),
        r.1 <==> sensors_due(old(session)@, options@),
        r.0 ==> final(session)@.sent_target == bytes_of(target) && final(session).next_refresh
            == now + 1_000,
        !r.0 ==> final(session)@.sent_target == old(session)@.sent_target
            && final(session).next_refresh == old(session).next_refresh,
        r.1 ==> final(session)@.sent_sensors == Some(options@),
        !r.1 ==> final(session)@.sent_sensors == old(session)@.sent_sensors,
{
}

/// A session goes on as long as the service greets and sends, and only a snapshot is drawn.
pub proof fn law_snapshots_are_drawn(
    session: &mut Session,
    client: &mut Client,
    message: Incoming,
    oldest: u32,
    r: Received,
)
    requires
        call_ensures(Session::receive, (session, client, message, oldest), r),
    ensures
        r.repaint <==> message@ is Snapshot,
        r.repaint ==> r.goes_on,
        message@ is Refused ==> !r.goes_on,
        message@ is Nothing ==> r.goes_on && !r.repaint,
        message@ is Hello ==> r.goes_on,
{
}

/// Without a connection the newest protocol is tried again.
pub proof fn law_newest_protocol_is_tried_again(client: &mut Client, newest: u32)
    requires
        call_ensures(Client::not_connected, (client, newest), ()),
    ensures
        final(client).protocol == newest,
        final(client).link@ is Connecting,
{
}

} // verus!
