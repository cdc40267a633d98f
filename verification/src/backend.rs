//! Where the readings come from: the service, or the engine in this process.
//!
//! The service is the better way: it has the rights to see everything, and the overlay needs
//! none. Without it the engine runs here and says what it cannot see.

use vstd::prelude::*;

use crate::paths::text_of;
use crate::remote::Link;
use crate::remote::LinkView;

verus! {

/// What the engine in this process needs.
#[derive(Debug, PartialEq)]
pub struct LocalConfig {
    pub presentmon: String,
    pub presentmon_override: Option<String>,
}

/// Where the readings come from now.
#[derive(Debug, PartialEq)]
pub enum Backend {
    /// The engine here; `installed` says that the program is installed, so its service is
    /// stopped.
    Local { installed: bool },
    Remote(Link),
}

pub enum BackendView {
    Local { installed: bool },
    Remote(LinkView),
}

impl View for Backend {
    type V = BackendView;

    open spec fn view(&self) -> BackendView {
        match self {
            Backend::Local { installed } => BackendView::Local { installed: *installed },
            Backend::Remote(link) => BackendView::Remote(link@),
        }
    }
}

impl Backend {
    /// The service where it listens, else the engine here.
    pub fn start(service_available: bool, installed: bool) -> (r: Backend)
        ensures
            r@ == (if service_available {
                BackendView::Remote(LinkView::Connecting)
            } else {
                BackendView::Local { installed }
            }),
    {
        if service_available {
            Backend::Remote(Link::Connecting)
        } else {
            Backend::start_local(installed)
        }
    }

    pub fn start_local(installed: bool) -> (r: Backend)
        ensures
            r@ == (BackendView::Local { installed }),
    {
        Backend::Local { installed }
    }

    pub fn is_local(&self) -> (r: bool)
        ensures
            r == (self@ is Local),
    {
        match self {
            Backend::Local { installed: _ } => true,
            Backend::Remote(_) => false,
        }
    }

    pub fn is_remote(&self) -> (r: bool)
        ensures
            r == (self@ is Remote),
    {
        match self {
            Backend::Local { installed: _ } => false,
            Backend::Remote(_) => true,
        }
    }

    /// Whether the options of the sensors take effect. Only an old service leaves them out.
    pub fn sensor_options_supported(&self) -> (r: bool)
        ensures
            r == (match self@ {
                BackendView::Remote(LinkView::Connected { service_version: _, sensor_options }) =>
                    sensor_options,
                _ => true,
            }),
    {
        match self {
            Backend::Remote(Link::Connected { service_version: _, sensor_options }) =>
                *sensor_options,
            _ => true,
        }
    }

    /// A line for the overlay on the connection, where there is something to say.
    pub fn note(&self) -> (r: Option<String>)
        ensures
            text_of(r) == note_of(self@),
    {
        match self {
            Backend::Local { installed } => if *installed {
                Some(
                    "служба MH Monitoring остановлена — запустите её в настройках, «Установка»".to_string(),
                )
            } else {
                None
            },
            Backend::Remote(Link::Connected { service_version: _, sensor_options: _ }) => None,
            Backend::Remote(Link::Connecting) => Some(
                "служба MH Monitoring не отвечает — жду".to_string(),
            ),
            Backend::Remote(Link::Refused(reason)) => {
                let mut text = "служба отказала: ".to_string();
                text.append(reason.as_str());
                Some(text)
            },
        }
    }

    /// For the page about the program.
    pub fn describe(&self) -> (r: String)
        ensures
            r@ == description(self@),
    {
        match self {
            Backend::Local { installed: _ } => "движок в этом процессе".to_string(),
            Backend::Remote(Link::Connected { service_version, sensor_options }) => {
                let mut text = "служба ".to_string();
                text.append(service_version.as_str());
                if !*sensor_options {
                    text.append(" (старого протокола)");
                }
                text
            },
            Backend::Remote(Link::Connecting) => "служба — нет связи".to_string(),
            Backend::Remote(Link::Refused(reason)) => {
                let mut text = "служба отказала: ".to_string();
                text.append(reason.as_str());
                text
            },
        }
    }
}

/// What the overlay says of the connection.
pub open spec fn note_of(backend: BackendView) -> Option<Seq<char>> {
    match backend {
        BackendView::Local { installed } => if installed {
            Some("служба MH Monitoring остановлена — запустите её в настройках, «Установка»"@)
        } else {
            None
        },
        BackendView::Remote(LinkView::Connected { service_version: _, sensor_options: _ }) => None,
        BackendView::Remote(LinkView::Connecting) => Some(
            "служба MH Monitoring не отвечает — жду"@,
        ),
        BackendView::Remote(LinkView::Refused(reason)) => Some("служба отказала: "@ + reason),
    }
}

/// What the page about the program says of the connection.
pub open spec fn description(backend: BackendView) -> Seq<char> {
    match backend {
        BackendView::Local { installed: _ } => "движок в этом процессе"@,
        BackendView::Remote(LinkView::Connected { service_version, sensor_options }) =>
            if sensor_options {
                "служба "@ + service_version
            } else {
                "служба "@ + service_version + " (старого протокола)"@
            },
        BackendView::Remote(LinkView::Connecting) => "служба — нет связи"@,
        BackendView::Remote(LinkView::Refused(reason)) => "служба отказала: "@ + reason,
    }
}

/// The overlay says something of the connection where the service is stopped, silent or refusing,
/// and nothing where it answers or was never installed.
pub proof fn law_troubles_are_told(backend: BackendView)
    ensures
        note_of(backend) is None <==> (match backend {
            BackendView::Local { installed } => !installed,
            BackendView::Remote(link) => link is Connected,
        }),
        forall|reason: Seq<char>|
            backend == BackendView::Remote(LinkView::Refused(reason)) ==> note_of(backend) == Some(
                #[trigger] ("служба отказала: "@ + reason),
            ) && description(backend) == "служба отказала: "@ + reason,
{
}

/// The page about the program tells the engine here from the service, names the version of the
/// service, and says where it is an old one.
pub proof fn law_service_is_described(version: Seq<char>, installed: bool)
    ensures
        description(BackendView::Local { installed }) == "движок в этом процессе"@,
        description(BackendView::Remote(LinkView::Connecting)) == "служба — нет связи"@,
        description(
            BackendView::Remote(
                LinkView::Connected { service_version: version, sensor_options: true },
            ),
        ) == "служба "@ + version,
        description(
            BackendView::Remote(
                LinkView::Connected { service_version: version, sensor_options: false },
            ),
        ) == "служба "@ + version + " (старого протокола)"@,
{
}

/// The readings come from the service wherever it listens, and from the engine here only where it
/// does not.
pub proof fn law_service_comes_first(available: bool, installed: bool, r: Backend)
    requires
        call_ensures(Backend::start, (available, installed), r),
    ensures
        available <==> r@ is Remote,
        !available ==> r@ == (BackendView::Local { installed }),
{
}

} // verus!
