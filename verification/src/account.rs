//! The account sheet: the ChatGPT sign-in flow that Codex models need.
//! The requests go to the daemon through the caller; this module decides
//! what the sheet shows and what each answer changes.
use crate::proto::auth::AuthState;
use crate::text::{contains, contains_seq, owned};
use crate::view::RuntimeState;
use vstd::prelude::*;
use vstd::string::*;

verus! {

/// A request of the sign-in flow.
#[derive(Debug, Clone, Copy, PartialEq, Eq, Structural)]
pub enum AuthRequest {
    /// Ask for the current sign-in state.
    Status,
    /// Start a browser authorization.
    Begin,
    /// Wait for the started authorization to finish.
    Wait,
    Cancel,
    Logout,
}

/// A control of the sheet.
#[derive(Debug, Clone, Copy, PartialEq, Eq, Structural)]
pub enum AccountControl {
    Connect,
    OpenBrowser,
    CopyLink,
    Cancel,
    SignOut,
    TryAgain,
}

/// The sheet: the account's state, whether a request runs, the last
/// error, and whether the sheet is shown.
#[derive(Debug, Clone, PartialEq, Eq)]
pub struct AccountSheet {
    pub status: AuthState,
    pub loading: bool,
    pub error: Option<String>,
    pub open: bool,
}

/// What an answer asks of the caller besides the sheet: the next request,
/// and whether the daemon connection should be retried now that an
/// account is connected.
#[derive(Debug, Clone, Copy, PartialEq, Eq, Structural)]
pub struct AuthOutcome {
    pub next: Option<AuthRequest>,
    pub retry_daemon: bool,
}

/// A connection that failed for want of the account.
pub open spec fn failed_for_account(runtime: RuntimeState) -> bool {
    runtime matches RuntimeState::Failed(m) && contains_seq(m@, "ChatGPT"@)
}

pub open spec fn opt_text(o: Option<String>) -> Option<Seq<char>> {
    match o {
        Some(s) => Some(s@),
        None => None,
    }
}

/// The controls of each state, in order.
pub open spec fn controls_of(status: AuthState) -> Seq<AccountControl> {
    match status {
        AuthState::SignedOut => seq![AccountControl::Connect],
        AuthState::Pending { .. } => seq![
            AccountControl::OpenBrowser,
            AccountControl::CopyLink,
            AccountControl::Cancel,
        ],
        AuthState::SignedIn { .. } => seq![AccountControl::SignOut],
        AuthState::Failed { .. } => seq![AccountControl::TryAgain],
    }
}

pub open spec fn control_label(c: AccountControl, loading: bool) -> Seq<char> {
    match c {
        AccountControl::Connect => if loading {
            "Connecting..."@
        } else {
            "Connect ChatGPT"@
        },
        AccountControl::OpenBrowser => "Open Browser"@,
        AccountControl::CopyLink => "Copy Link"@,
        AccountControl::Cancel => "Cancel"@,
        AccountControl::SignOut => "Sign Out"@,
        AccountControl::TryAgain => "Try Again"@,
    }
}

/// What the sheet says of each state.
pub open spec fn body_of(status: AuthState) -> Seq<Seq<char>> {
    match status {
        AuthState::SignedOut => seq![
            "Tau will open a secure browser authorization page. Your password is never visible to Tau."@,
        ],
        AuthState::Pending { authorize_url } => seq![
            "Authorization is waiting in your browser."@,
            authorize_url@,
        ],
        AuthState::SignedIn { email, account_id } => seq!["Connected"@] + match email {
            Some(e) => seq![e@],
            None => Seq::empty(),
        } + match account_id {
            Some(a) => seq![a@],
            None => Seq::empty(),
        },
        AuthState::Failed { message } => seq![message@],
    }
}

impl AccountSheet {
    pub fn new() -> (s: Self)
        ensures
            s.status == AuthState::SignedOut,
            !s.loading,
            s.error is None,
            !s.open,
    {
        AccountSheet { status: AuthState::SignedOut, loading: false, error: None, open: false }
    }

    /// Show the sheet; its state is asked for again.
    pub fn open_sheet(&mut self) -> (r: AuthRequest)
        ensures
            r == AuthRequest::Status,
            final(self).open,
            final(self).loading,
            final(self).error is None,
            final(self).status == old(self).status,
    {
        self.open = true;
        self.begin(AuthRequest::Status);
        AuthRequest::Status
    }

    pub fn close_sheet(&mut self)
        ensures
            !final(self).open,
            final(self).status == old(self).status,
            final(self).loading == old(self).loading,
            final(self).error == old(self).error,
    {
        self.open = false;
    }

    /// A request starts: asking for the state and starting an
    /// authorization clear the last error; waiting shows nothing new.
    pub fn begin(&mut self, request: AuthRequest)
        ensures
            final(self).loading == (request != AuthRequest::Wait || old(self).loading),
            final(self).error == (if request == AuthRequest::Status || request == AuthRequest::Begin {
                None
            } else {
                old(self).error
            }),
            final(self).status == old(self).status,
            final(self).open == old(self).open,
    {
        match request {
            AuthRequest::Status | AuthRequest::Begin => {
                self.loading = true;
                self.error = None;
            },
            AuthRequest::Cancel | AuthRequest::Logout => {
                self.loading = true;
            },
            AuthRequest::Wait => {},
        }
    }

    /// Take in the answer to a request.  The new state is shown, or the
    /// error.  A started authorization is waited for.  Once an account is
    /// connected the sheet closes; the daemon connection is retried when it
    /// came from the wait, or when the connection had failed for want of the
    /// account.
    pub fn finish(
        &mut self,
        request: AuthRequest,
        reply: Result<AuthState, String>,
        runtime: &RuntimeState,
    ) -> (r: AuthOutcome)
        ensures
            !final(self).loading,
            match reply {
                Ok(s) => {
                    let signed_in = s is SignedIn;
                    &&& final(self).status == s
                    &&& final(self).error == (if request == AuthRequest::Wait {
                        None
                    } else {
                        old(self).error
                    })
                    &&& final(self).open == (old(self).open && !(signed_in && (request
                        == AuthRequest::Status || request == AuthRequest::Wait)))
                    &&& r.next == (if request == AuthRequest::Begin {
                        Some(AuthRequest::Wait)
                    } else {
                        None
                    })
                    &&& r.retry_daemon == (signed_in && (request == AuthRequest::Wait || (request
                        == AuthRequest::Status && failed_for_account(*runtime))))
                },
                Err(e) => {
                    &&& final(self).status == old(self).status
                    &&& final(self).error == Some(e)
                    &&& final(self).open == old(self).open
                    &&& r.next is None
                    &&& !r.retry_daemon
                },
            },
    {
        self.loading = false;
        match reply {
            Ok(s) => {
                let signed_in = matches!(s, AuthState::SignedIn { .. });
                self.status = s;
                let mut retry_daemon = false;
                match request {
                    AuthRequest::Status => if signed_in {
                        self.open = false;
                        retry_daemon = match runtime {
                            RuntimeState::Failed(m) => {
                                proof {
                                    reveal_strlit("ChatGPT");
                                }
                                contains(m.as_str(), "ChatGPT")
                            },
                            _ => false,
                        };
                    },
                    AuthRequest::Wait => {
                        self.error = None;
                        if signed_in {
                            self.open = false;
                            retry_daemon = true;
                        }
                    },
                    _ => {},
                }
                let next = if matches!(request, AuthRequest::Begin) {
                    Some(AuthRequest::Wait)
                } else {
                    None
                };
                AuthOutcome { next, retry_daemon }
            },
            Err(e) => {
                self.error = Some(e);
                AuthOutcome { next: None, retry_daemon: false }
            },
        }
    }

    /// The controls the sheet offers now, with their labels.
    pub fn controls(&self) -> (r: Vec<(String, AccountControl)>)
        ensures
            r@.len() == controls_of(self.status).len(),
            forall|i: int|
                0 <= i < r@.len() ==> (#[trigger] r@[i]).1 == controls_of(self.status)[i]
                    && r@[i].0@ == control_label(r@[i].1, self.loading),
    {
        let mut r: Vec<(String, AccountControl)> = Vec::new();
        match &self.status {
            AuthState::SignedOut => {
                let label = if self.loading {
                    owned("Connecting...")
                } else {
                    owned("Connect ChatGPT")
                };
                r.push((label, AccountControl::Connect));
            },
            AuthState::Pending { .. } => {
                r.push((owned("Open Browser"), AccountControl::OpenBrowser));
                r.push((owned("Copy Link"), AccountControl::CopyLink));
                r.push((owned("Cancel"), AccountControl::Cancel));
            },
            AuthState::SignedIn { .. } => r.push((owned("Sign Out"), AccountControl::SignOut)),
            AuthState::Failed { .. } => r.push((owned("Try Again"), AccountControl::TryAgain)),
        }
        r
    }

    /// The authorization link, while one is pending: what the browser and
    /// copy controls use.
    pub fn link(&self) -> (r: Option<String>)
        ensures
            match self.status {
                AuthState::Pending { authorize_url } => opt_text(r) == Some(authorize_url@),
                _ => r is None,
            },
    {
        match &self.status {
            AuthState::Pending { authorize_url } => Some(owned(authorize_url.as_str())),
            _ => None,
        }
    }

    /// The lines the sheet shows for its state.
    pub fn body(&self) -> (r: Vec<String>)
        ensures
            r@.map_values(|s: String| s@) == body_of(self.status),
    {
        let mut r: Vec<String> = Vec::new();
        match &self.status {
            AuthState::SignedOut => r.push(
                owned(
                    "Tau will open a secure browser authorization page. Your password is never visible to Tau.",
                ),
            ),
            AuthState::Pending { authorize_url } => {
                r.push(owned("Authorization is waiting in your browser."));
                r.push(owned(authorize_url.as_str()));
            },
            AuthState::SignedIn { email, account_id } => {
                r.push(owned("Connected"));
                match email {
                    Some(e) => r.push(owned(e.as_str())),
                    None => {},
                }
                match account_id {
                    Some(a) => r.push(owned(a.as_str())),
                    None => {},
                }
            },
            AuthState::Failed { message } => r.push(owned(message.as_str())),
        }
        assert(r@.map_values(|s: String| s@) =~= body_of(self.status));
        r
    }
}

} // verus!
