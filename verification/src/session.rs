//! The monitor's state and the decisions it takes on each user action and
//! each answer of the background worker. The caller performs the work that a
//! decision asks for (connect, refresh, save the configuration) and hands the
//! outcome back.
use vstd::prelude::*;
use crate::model::{AppConfig, AppView, ConnectionState, ServerConfig, ServerFields, blank_server, blank_server_config};
use crate::service::{is_safe_service, service_name_is_safe};
use crate::text::{chars_of, string_of, trim, trimmed};

verus! {

/// What the background worker reports.
pub enum WorkerMessage<S> {
    /// The outcome of a connection test.
    Test(Result<(), String>),
    /// The outcome of a refresh.
    Snapshot(Result<S, String>),
}

/// What the monitor asks for on a timer tick.
pub enum TickAction {
    /// Nothing: automatic refresh is off, busy or disconnected.
    Idle,
    /// Look again in a second.
    Repaint,
    /// Refresh this server, and look again in a second.
    RefreshAndRepaint(ServerConfig),
}

/// The server a tick asks to refresh, if any.
pub open spec fn tick_server(a: TickAction) -> Option<ServerConfig> {
    match a {
        TickAction::RefreshAndRepaint(c) => Some(c),
        _ => None,
    }
}

/// "Select a server first."
pub open spec fn no_server_message() -> Seq<char> {
    "Select a server first."@
}

/// The error shown when a server form is incomplete.
pub open spec fn missing_fields_message() -> Seq<char> {
    "Name, host, username, and private key path are required."@
}

/// The error shown for a service name that is not safe.
pub open spec fn bad_service_message() -> Seq<char> {
    "Service names may only contain letters, numbers, '.', '_', '-', ':', and '@'."@
}

/// The name shown when no server is selected.
pub open spec fn no_selection_name() -> Seq<char> {
    "No server selected"@
}

/// Whether a server form has a name, host, user name and key path that are
/// more than white space.
pub open spec fn form_complete(d: ServerFields) -> bool {
    &&& trim(d.name).len() > 0
    &&& trim(d.host).len() > 0
    &&& trim(d.username).len() > 0
    &&& trim(d.private_key_path).len() > 0
}

/// `after` is `before` with one more service, named `svc`.
pub open spec fn adds_service(before: ServerConfig, after: ServerConfig, svc: Seq<char>) -> bool {
    &&& after.name == before.name
    &&& after.host == before.host
    &&& after.port == before.port
    &&& after.username == before.username
    &&& after.private_key_path == before.private_key_path
    &&& after.services@ == before.services@.push(after.services@.last())
    &&& after.services@.last()@ == svc
}

/// The state of the monitor. `S` is what a refresh produces.
pub struct AppState<S> {
    pub config: AppConfig,
    pub selected_server: Option<usize>,
    pub view: AppView,
    pub connection_state: ConnectionState,
    pub snapshot: Option<S>,
    pub error: Option<String>,
    pub draft_server: ServerConfig,
    pub service_draft: String,
    pub auto_refresh_secs: u64,
    pub auto_refresh: bool,
    pub worker_busy: bool,
}

impl<S> AppState<S> {
    /// The selection, where there is one, names a server.
    pub open spec fn wf(&self) -> bool {
        match self.selected_server {
            Some(i) => i < self.config.servers.len(),
            None => true,
        }
    }

    /// The selected server's index, where it names one.
    pub open spec fn selected_index(&self) -> Option<int> {
        match self.selected_server {
            Some(i) => if i < self.config.servers.len() {
                Some(i as int)
            } else {
                None
            },
            None => None,
        }
    }

    /// The text of the error shown, if any.
    pub open spec fn error_text(&self) -> Option<Seq<char>> {
        match self.error {
            Some(e) => Some(e@),
            None => None,
        }
    }

    /// `self` and `other` agree on the configuration, the selection, the
    /// screen, the forms and the refresh settings.
    pub open spec fn same_setup(&self, other: &Self) -> bool {
        &&& self.config == other.config
        &&& self.selected_server == other.selected_server
        &&& self.view == other.view
        &&& self.draft_server == other.draft_server
        &&& self.service_draft == other.service_draft
        &&& self.auto_refresh_secs == other.auto_refresh_secs
        &&& self.auto_refresh == other.auto_refresh
    }

    /// `new` is `old` after starting background work in `state` on the
    /// selected server, which `r` hands out; or, with no server selected,
    /// after showing "Select a server first.".
    pub open spec fn starts_work(
        old: &Self,
        new: &Self,
        r: Option<ServerConfig>,
        state: ConnectionState,
    ) -> bool {
        &&& new.same_setup(old)
        &&& new.snapshot == old.snapshot
        &&& match old.selected_index() {
            None => {
                &&& r is None
                &&& new.error_text() == Some(no_server_message())
                &&& new.connection_state == old.connection_state
                &&& new.worker_busy == old.worker_busy
            },
            Some(i) => {
                &&& r matches Some(c) && c@ == old.config.servers[i]@
                &&& new.connection_state == state
                &&& new.error is None
                &&& new.worker_busy
            },
        }
    }

    /// Whether automatic refresh is off, the worker busy, or the server
    /// disconnected.
    pub open spec fn auto_refresh_blocked(&self) -> bool {
        !self.auto_refresh || self.worker_busy || self.connection_state
            == ConnectionState::Disconnected
    }

    /// The state at start with configuration `config`: the first server
    /// selected where there is one, the server list shown, disconnected, an
    /// empty server form, automatic refresh off with a 10 second period.
    pub fn new(config: AppConfig) -> (s: Self)
        ensures
            s.wf(),
            s.config == config,
            s.selected_server == (if config.servers.len() > 0 {
                Some(0usize)
            } else {
                None
            }),
            s.view == AppView::Servers,
            s.connection_state == ConnectionState::Disconnected,
            s.snapshot is None,
            s.error is None,
            s.draft_server@ == blank_server(),
            s.service_draft@ == Seq::<char>::empty(),
            s.auto_refresh_secs == 10,
            !s.auto_refresh,
            !s.worker_busy,
    {
        let selected_server = if config.servers.len() > 0 {
            Some(0usize)
        } else {
            None
        };
        AppState {
            selected_server,
            config,
            view: AppView::Servers,
            connection_state: ConnectionState::Disconnected,
            snapshot: None,
            error: None,
            draft_server: blank_server_config(),
            service_draft: String::new(),
            auto_refresh_secs: 10,
            auto_refresh: false,
            worker_busy: false,
        }
    }

    /// A copy of the selected server, where the selection names one.
    pub fn selected_config(&self) -> (r: Option<ServerConfig>)
        ensures
            match self.selected_index() {
                Some(i) => r matches Some(c) && c@ == self.config.servers[i]@,
                None => r is None,
            },
    {
        match self.selected_server {
            Some(idx) => {
                if idx < self.config.servers.len() {
                    Some(self.config.servers[idx].duplicate())
                } else {
                    None
                }
            },
            None => None,
        }
    }

    /// The name of the selected server, or "No server selected".
    pub fn selected_server_name(&self) -> (s: String)
        ensures
            s@ == match self.selected_index() {
                Some(i) => self.config.servers[i].name@,
                None => no_selection_name(),
            },
    {
        match self.selected_config() {
            Some(server) => server.name,
            None => String::from_str("No server selected"),
        }
    }

    /// Records that saving the configuration failed with `err`.
    pub fn save_failed(&mut self, err: String)
        ensures
            final(self).same_setup(old(self)),
            final(self).snapshot == old(self).snapshot,
            final(self).worker_busy == old(self).worker_busy,
            final(self).connection_state == ConnectionState::Error,
            final(self).error_text() == Some(err@),
            old(self).wf() ==> final(self).wf(),
    {
        self.error = Some(err);
        self.connection_state = ConnectionState::Error;
    }

    /// Starts background work in `state` on the selected server.
    fn begin_work(&mut self, state: ConnectionState) -> (r: Option<ServerConfig>)
        ensures
            Self::starts_work(old(self), final(self), r, state),
            old(self).wf() ==> final(self).wf(),
    {
        match self.selected_config() {
            None => {
                self.error = Some(String::from_str("Select a server first."));
                None
            },
            Some(server) => {
                self.connection_state = state;
                self.error = None;
                self.worker_busy = true;
                Some(server)
            },
        }
    }

    /// Starts a connection test of the selected server, which it hands out to
    /// be tested; with none selected, shows "Select a server first.".
    pub fn begin_test(&mut self) -> (r: Option<ServerConfig>)
        ensures
            Self::starts_work(old(self), final(self), r, ConnectionState::Connecting),
            old(self).wf() ==> final(self).wf(),
    {
        self.begin_work(ConnectionState::Connecting)
    }

    /// Starts a refresh of the selected server, which it hands out to be
    /// read; with none selected, shows "Select a server first.".
    pub fn begin_refresh(&mut self) -> (r: Option<ServerConfig>)
        ensures
            Self::starts_work(old(self), final(self), r, ConnectionState::Refreshing),
            old(self).wf() ==> final(self).wf(),
    {
        self.begin_work(ConnectionState::Refreshing)
    }

    /// Takes in a report of the worker. A successful test starts a refresh,
    /// whose server it hands out; a successful refresh shows its snapshot; a
    /// failure shows its error.
    pub fn handle_worker_message(&mut self, msg: WorkerMessage<S>) -> (r: Option<ServerConfig>)
        ensures
            old(self).wf() ==> final(self).wf(),
            match msg {
                WorkerMessage::Test(Ok(_)) => Self::starts_work(
                    &(AppState {
                        worker_busy: false,
                        connection_state: ConnectionState::Connected,
                        error: None,
                        ..*old(self)
                    }),
                    final(self),
                    r,
                    ConnectionState::Refreshing,
                ),
                WorkerMessage::Test(Err(e)) => {
                    &&& r is None
                    &&& final(self).same_setup(old(self))
                    &&& final(self).snapshot == old(self).snapshot
                    &&& final(self).connection_state == ConnectionState::Error
                    &&& final(self).error_text() == Some(e@)
                    &&& !final(self).worker_busy
                },
                WorkerMessage::Snapshot(Ok(snap)) => {
                    &&& r is None
                    &&& final(self).same_setup(old(self))
                    &&& final(self).snapshot == Some(snap)
                    &&& final(self).connection_state == ConnectionState::Connected
                    &&& final(self).error is None
                    &&& !final(self).worker_busy
                },
                WorkerMessage::Snapshot(Err(e)) => {
                    &&& r is None
                    &&& final(self).same_setup(old(self))
                    &&& final(self).snapshot == old(self).snapshot
                    &&& final(self).connection_state == ConnectionState::Error
                    &&& final(self).error_text() == Some(e@)
                    &&& !final(self).worker_busy
                },
            },
    {
        self.worker_busy = false;
        match msg {
            WorkerMessage::Test(Ok(())) => {
                self.connection_state = ConnectionState::Connected;
                self.error = None;
                self.begin_refresh()
            },
            WorkerMessage::Test(Err(err)) => {
                self.connection_state = ConnectionState::Error;
                self.error = Some(err);
                None
            },
            WorkerMessage::Snapshot(Ok(snapshot)) => {
                self.snapshot = Some(snapshot);
                self.connection_state = ConnectionState::Connected;
                self.error = None;
                None
            },
            WorkerMessage::Snapshot(Err(err)) => {
                self.connection_state = ConnectionState::Error;
                self.error = Some(err);
                None
            },
        }
    }

    /// On a timer tick, with `since_refresh` nanoseconds since the last
    /// refresh started (`None` where none has): nothing while automatic
    /// refresh is off, the worker busy or the server disconnected; otherwise
    /// a refresh once the period has passed, and another look in a second.
    pub fn maybe_auto_refresh(&mut self, since_refresh: Option<u128>) -> (a: TickAction)
        ensures
            old(self).wf() ==> final(self).wf(),
            old(self).auto_refresh_blocked() ==> a is Idle && *final(self) == *old(self),
            !old(self).auto_refresh_blocked() ==> a !is Idle,
            !old(self).auto_refresh_blocked() && (since_refresh matches Some(n) && n
                < old(self).auto_refresh_secs * 1_000_000_000) ==> a is Repaint && *final(self)
                == *old(self),
            !old(self).auto_refresh_blocked() && !(since_refresh matches Some(n) && n
                < old(self).auto_refresh_secs * 1_000_000_000) ==> Self::starts_work(
                old(self),
                final(self),
                tick_server(a),
                ConnectionState::Refreshing,
            ),
    {
        if !self.auto_refresh || self.worker_busy || self.connection_state
            == ConnectionState::Disconnected {
            return TickAction::Idle;
        }
        let period: u128 = (self.auto_refresh_secs as u128) * 1_000_000_000;
        let due = match since_refresh {
            Some(n) => n >= period,
            None => true,
        };
        if due {
            match self.begin_refresh() {
                Some(server) => TickAction::RefreshAndRepaint(server),
                None => TickAction::Repaint,
            }
        } else {
            TickAction::Repaint
        }
    }

    /// Disconnects: stops automatic refresh and forgets the worker.
    pub fn disconnect(&mut self)
        ensures
            final(self).connection_state == ConnectionState::Disconnected,
            !final(self).auto_refresh,
            !final(self).worker_busy,
            final(self).config == old(self).config,
            final(self).selected_server == old(self).selected_server,
            final(self).view == old(self).view,
            final(self).draft_server == old(self).draft_server,
            final(self).service_draft == old(self).service_draft,
            final(self).auto_refresh_secs == old(self).auto_refresh_secs,
            final(self).snapshot == old(self).snapshot,
            final(self).error == old(self).error,
            old(self).wf() ==> final(self).wf(),
    {
        self.connection_state = ConnectionState::Disconnected;
        self.auto_refresh = false;
        self.worker_busy = false;
    }

    /// Selects server `idx`: forgets the snapshot and error, and disconnects.
    pub fn select_server(&mut self, idx: usize)
        ensures
            final(self).selected_server == Some(idx),
            final(self).snapshot is None,
            final(self).connection_state == ConnectionState::Disconnected,
            final(self).error is None,
            final(self).config == old(self).config,
            final(self).view == old(self).view,
            final(self).draft_server == old(self).draft_server,
            final(self).service_draft == old(self).service_draft,
            final(self).auto_refresh_secs == old(self).auto_refresh_secs,
            final(self).auto_refresh == old(self).auto_refresh,
            final(self).worker_busy == old(self).worker_busy,
            idx < old(self).config.servers.len() ==> final(self).wf(),
    {
        self.selected_server = Some(idx);
        self.snapshot = None;
        self.connection_state = ConnectionState::Disconnected;
        self.error = None;
    }

    /// Adds the server form as a new server, selects it and empties the
    /// form, where its name, host, user name and key path are more than
    /// white space; otherwise shows what is required. Answers whether the
    /// configuration changed and is to be saved.
    pub fn add_draft_server(&mut self) -> (saved: bool)
        ensures
            saved == form_complete(old(self).draft_server@),
            old(self).wf() ==> final(self).wf(),
            final(self).view == old(self).view,
            final(self).service_draft == old(self).service_draft,
            final(self).auto_refresh_secs == old(self).auto_refresh_secs,
            final(self).auto_refresh == old(self).auto_refresh,
            final(self).worker_busy == old(self).worker_busy,
            final(self).connection_state == old(self).connection_state,
            final(self).snapshot == old(self).snapshot,
            saved ==> {
                &&& final(self).config.servers@ == old(self).config.servers@.push(
                    old(self).draft_server,
                )
                &&& final(self).selected_server == Some(old(self).config.servers.len())
                &&& final(self).draft_server@ == blank_server()
                &&& final(self).error == old(self).error
                &&& final(self).wf()
            },
            !saved ==> {
                &&& final(self).config == old(self).config
                &&& final(self).selected_server == old(self).selected_server
                &&& final(self).draft_server == old(self).draft_server
                &&& final(self).error_text() == Some(missing_fields_message())
            },
    {
        let name = trimmed(chars_of(self.draft_server.name.as_str()).as_slice());
        let host = trimmed(chars_of(self.draft_server.host.as_str()).as_slice());
        let user = trimmed(chars_of(self.draft_server.username.as_str()).as_slice());
        let key = trimmed(chars_of(self.draft_server.private_key_path.as_str()).as_slice());
        if name.len() == 0 || host.len() == 0 || user.len() == 0 || key.len() == 0 {
            self.error = Some(
                String::from_str("Name, host, username, and private key path are required."),
            );
            return false;
        }
        let mut draft = blank_server_config();
        std::mem::swap(&mut draft, &mut self.draft_server);
        self.config.servers.push(draft);
        self.selected_server = Some(self.config.servers.len() - 1);
        true
    }

    /// Removes the selected server, where the selection names one: selects
    /// the first server left, if any, forgets the snapshot and disconnects.
    /// Answers whether the configuration changed and is to be saved.
    pub fn remove_selected_server(&mut self) -> (saved: bool)
        ensures
            saved == (old(self).selected_index() is Some),
            old(self).wf() ==> final(self).wf(),
            !saved ==> *final(self) == *old(self),
            saved ==> {
                &&& final(self).config.servers@ == old(self).config.servers@.remove(
                    old(self).selected_index()->0,
                )
                &&& final(self).selected_server == (if final(self).config.servers.len() > 0 {
                    Some(0usize)
                } else {
                    None
                })
                &&& final(self).snapshot is None
                &&& final(self).connection_state == ConnectionState::Disconnected
                &&& final(self).view == old(self).view
                &&& final(self).draft_server == old(self).draft_server
                &&& final(self).service_draft == old(self).service_draft
                &&& final(self).auto_refresh_secs == old(self).auto_refresh_secs
                &&& final(self).auto_refresh == old(self).auto_refresh
                &&& final(self).worker_busy == old(self).worker_busy
                &&& final(self).error == old(self).error
                &&& final(self).wf()
            },
    {
        if let Some(idx) = self.selected_server {
            if idx < self.config.servers.len() {
                self.config.servers.remove(idx);
                self.selected_server = if self.config.servers.len() > 0 {
                    Some(0usize)
                } else {
                    None
                };
                self.snapshot = None;
                self.connection_state = ConnectionState::Disconnected;
                return true;
            }
        }
        false
    }

    /// Adds the service form, trimmed, to the selected server's services and
    /// empties the form, where the name is safe; otherwise shows which names
    /// are allowed. Answers whether the configuration changed and is to be
    /// saved. With no server selected it does nothing.
    pub fn add_service_draft(&mut self) -> (saved: bool)
        ensures
            old(self).wf() ==> final(self).wf(),
            final(self).selected_server == old(self).selected_server,
            final(self).view == old(self).view,
            final(self).draft_server == old(self).draft_server,
            final(self).auto_refresh_secs == old(self).auto_refresh_secs,
            final(self).auto_refresh == old(self).auto_refresh,
            final(self).worker_busy == old(self).worker_busy,
            final(self).connection_state == old(self).connection_state,
            final(self).snapshot == old(self).snapshot,
            saved <==> (old(self).selected_index() is Some && is_safe_service(
                trim(old(self).service_draft@),
            )),
            saved ==> {
                let i = old(self).selected_index()->0;
                &&& final(self).config.servers.len() == old(self).config.servers.len()
                &&& forall|j: int|
                    0 <= j < final(self).config.servers.len() && j != i
                        ==> #[trigger] final(self).config.servers[j] == old(
                        self,
                    ).config.servers[j]
                &&& adds_service(
                    old(self).config.servers[i],
                    final(self).config.servers[i],
                    trim(old(self).service_draft@),
                )
                &&& final(self).service_draft@ == Seq::<char>::empty()
                &&& final(self).error == old(self).error
            },
            !saved ==> final(self).config == old(self).config && final(self).service_draft
                == old(self).service_draft,
            !saved && old(self).selected_server is Some && !is_safe_service(
                trim(old(self).service_draft@),
            ) ==> final(self).error_text() == Some(bad_service_message()),
            !saved && !(old(self).selected_server is Some && !is_safe_service(
                trim(old(self).service_draft@),
            )) ==> final(self).error == old(self).error,
    {
        let idx = match self.selected_server {
            Some(idx) => idx,
            None => {
                return false;
            },
        };
        let service = string_of(trimmed(chars_of(self.service_draft.as_str()).as_slice()).as_slice());
        if !service_name_is_safe(service.as_str()) {
            self.error = Some(
                String::from_str(
                    "Service names may only contain letters, numbers, '.', '_', '-', ':', and '@'.",
                ),
            );
            return false;
        }
        if idx >= self.config.servers.len() {
            return false;
        }
        let ghost before = self.config.servers@;
        let mut server = self.config.servers.remove(idx);
        let ghost old_server = server;
        server.services.push(service);
        self.config.servers.insert(idx, server);
        assert(self.config.servers@ =~= before.update(idx as int, server));
        self.service_draft = String::new();
        true
    }
}

} // verus!
