//! The command plane: the request and response of the local control channel,
//! the command-line surface of the client, and the handlers that answer
//! requests against a cluster.

use vstd::prelude::*;
use crate::cluster::{Cluster, SetManaged, managed_set, set_managed_outcome};
use crate::resource::Resource;

verus! {

/// Response of the local control channel, shared by client and daemon.
pub struct AxumResponse {
    /// True iff the request changed nothing.
    pub error: bool,
    /// Human-readable explanation, always present.
    pub text: String,
}

/// Body of a Set-managed request.
pub struct ManageBody {
    pub resource: String,
    pub manage: bool,
}

/// An error that has already been reported; it carries no data.
#[derive(PartialEq, Eq, Structural, Clone, Copy, Debug)]
pub struct HandledError {}

pub type HandledResult<T> = Result<T, HandledError>;

/// A failed result whose error has been handled already.
pub fn handled_error() -> (r: HandledResult<()>)
    ensures
        r == HandledResult::<()>::Err(HandledError {}),
{
    HandledResult::Err(HandledError {})
}

/// What a result holds, as seen from its two sides.
pub trait Outcome<T, E> {
    /// The value held on success.
    spec fn ok_value(&self) -> Option<T>;

    /// The error held on failure.
    spec fn err_value(&self) -> Option<E>;
}

impl<T, E> Outcome<T, E> for Result<T, E> {
    open spec fn ok_value(&self) -> Option<T> {
        match self {
            Ok(v) => Some(*v),
            Err(_) => None,
        }
    }

    open spec fn err_value(&self) -> Option<E> {
        match self {
            Ok(_) => None,
            Err(e) => Some(*e),
        }
    }
}

/// Turns an error into a `HandledError`, after running code that reports it.
pub trait Handle<T, E, F: FnOnce(E)>: Sized + Outcome<T, E> {
    /// Passes a success on unchanged; runs `handler` on an error and passes
    /// on a `HandledError` in its place.
    fn handle_err(self, handler: F) -> (r: HandledResult<T>)
        requires
            forall|e: E| #[trigger] handler.requires((e,)),
        ensures
            self.ok_value() matches Some(v) ==> r == Ok::<T, HandledError>(v),
            self.err_value() is Some ==> r == Err::<T, HandledError>(HandledError {}),
            self.err_value() matches Some(e) ==> handler.ensures((e,), ()),
    ;
}

impl<T, E, F: FnOnce(E)> Handle<T, E, F> for Result<T, E> {
    fn handle_err(self, handler: F) -> (r: HandledResult<T>) {
        match self {
            Ok(v) => Ok(v),
            Err(e) => {
                handler(e);
                Err(HandledError {})
            },
        }
    }
}

/// Arguments of `manage <resource_id>`.
pub struct ManageArgs {
    /// Resource to manage
    pub resource_id: String,
}

/// Arguments of `unmanage <resource_id>`.
pub struct UnManageArgs {
    /// Resource to unmanage
    pub resource_id: String,
}

impl ManageArgs {
    /// The request that asks for the resource to be managed.
    pub fn request(&self) -> (r: ManageBody)
        ensures
            r.resource@ == self.resource_id@,
            r.manage,
    {
        ManageBody { resource: self.resource_id.clone(), manage: true }
    }
}

impl UnManageArgs {
    /// The request that asks for the resource to be unmanaged.
    pub fn request(&self) -> (r: ManageBody)
        ensures
            r.resource@ == self.resource_id@,
            !r.manage,
    {
        ManageBody { resource: self.resource_id.clone(), manage: false }
    }
}

/// Subcommands of the client.
pub enum Commands {
    Manage(ManageArgs),
    Unmanage(UnManageArgs),
}

impl Commands {
    /// The request that the subcommand sends.
    pub fn request(&self) -> (r: ManageBody)
        ensures
            match self {
                Commands::Manage(a) => r.resource@ == a.resource_id@ && r.manage,
                Commands::Unmanage(a) => r.resource@ == a.resource_id@ && !r.manage,
            },
    {
        match self {
            Commands::Manage(a) => a.request(),
            Commands::Unmanage(a) => a.request(),
        }
    }
}

/// Global options of the client and of the daemon.
pub struct Cli {
    pub config: Option<String>,
    pub socket: Option<String>,
    pub verbose: bool,
    pub mtls: bool,
    /// Whether to run in Manage mode (actively manage resource state) rather
    /// than Observe mode (only check on resource status).
    pub manage_resources: bool,
    pub command: Option<Commands>,
}

pub open spec fn default_socket_spec() -> Seq<char> {
    "/var/run/halo.socket"@
}

pub open spec fn default_config_path_spec() -> Seq<char> {
    "/etc/halo/halo.conf"@
}

/// Well-known path of the daemon's socket.
pub fn default_socket() -> (r: String)
    ensures
        r@ == default_socket_spec(),
{
    String::from_str("/var/run/halo.socket")
}

/// Well-known path of the configuration file.
pub fn default_config_path() -> (r: String)
    ensures
        r@ == default_config_path_spec(),
{
    String::from_str("/etc/halo/halo.conf")
}

impl Default for Cli {
    fn default() -> (r: Cli)
        ensures
            r.config matches Some(c) && c@ == default_config_path_spec(),
            r.socket matches Some(s) && s@ == default_socket_spec(),
            !r.verbose,
            !r.mtls,
            !r.manage_resources,
            r.command is None,
    {
        Cli {
            config: Some(default_config_path()),
            socket: Some(default_socket()),
            verbose: false,
            mtls: false,
            manage_resources: false,
            command: None,
        }
    }
}

impl Cli {
    /// The socket path to use: the one given, else the well-known one.
    pub fn socket_path(&self) -> (r: String)
        ensures
            r@ == match self.socket {
                Some(s) => s@,
                None => default_socket_spec(),
            },
    {
        match &self.socket {
            Some(s) => s.clone(),
            None => default_socket(),
        }
    }
}

/// The Debug rendering of a string: quoted, with special characters escaped.
pub uninterp spec fn debug_str(s: Seq<char>) -> Seq<char>;

/// Relies on the Debug formatting of `str`, which quotes and escapes it.
#[verifier::external_body]
fn debug_quote(s: &str) -> (r: String)
    ensures
        r@ == debug_str(s@),
{
    format!("{:?}", s)
}

pub open spec fn state_word(m: bool) -> Seq<char> {
    if m {
        "managed"@
    } else {
        "unmanaged"@
    }
}

/// The text that answers a Set-managed request for `id` with the given outcome.
pub open spec fn set_managed_text(outcome: SetManaged, id: Seq<char>, m: bool) -> Seq<char> {
    quoted_text(outcome, debug_str(id), m)
}

/// The same text, from the id already quoted.
pub open spec fn quoted_text(outcome: SetManaged, quoted: Seq<char>, m: bool) -> Seq<char> {
    "Resource "@ + quoted + match outcome {
        SetManaged::NotFound => " not found"@,
        SetManaged::Unchanged => " is already "@ + state_word(m),
        SetManaged::Changed => " set to be "@ + state_word(m),
    }
}

fn state_word_exec(m: bool) -> (r: &'static str)
    ensures
        r@ == state_word(m),
{
    if m {
        "managed"
    } else {
        "unmanaged"
    }
}

/// The answer to a Set-managed request, from its outcome.
pub fn set_managed_response(outcome: SetManaged, id: &String, m: bool) -> (r: AxumResponse)
    ensures
        r.error == (outcome != SetManaged::Changed),
        r.text@ == set_managed_text(outcome, id@, m),
{
    let q = debug_quote(id.as_str());
    quoted_response(outcome, &q, m)
}

/// The answer to a Set-managed request, from its outcome and the id as it is
/// to be shown (quoted).
pub fn quoted_response(outcome: SetManaged, quoted: &String, m: bool) -> (r: AxumResponse)
    ensures
        r.error == (outcome != SetManaged::Changed),
        r.text@ == quoted_text(outcome, quoted@, m),
{
    let mut text = String::from_str("Resource ");
    text.append(quoted.as_str());
    match outcome {
        SetManaged::NotFound => {
            text.append(" not found");
        },
        SetManaged::Unchanged => {
            text.append(" is already ");
            text.append(state_word_exec(m));
        },
        SetManaged::Changed => {
            text.append(" set to be ");
            text.append(state_word_exec(m));
        },
    }
    AxumResponse { error: outcome != SetManaged::Changed, text }
}

/// Handles a Set-managed request: sets the flag of the named resource when
/// it differs, and says what happened.
pub fn manage_resource(cluster: &mut Cluster, body: &ManageBody) -> (r: AxumResponse)
    requires
        old(cluster).wf(),
    ensures
        final(cluster).wf(),
        final(cluster).view_config() == old(cluster).view_config(),
        final(cluster).view_resources() == managed_set(
            old(cluster).view_resources(),
            body.resource@,
            body.manage,
        ),
        r.error == (set_managed_outcome(old(cluster).view_resources(), body.resource@, body.manage)
            != SetManaged::Changed),
        r.text@ == set_managed_text(
            set_managed_outcome(old(cluster).view_resources(), body.resource@, body.manage),
            body.resource@,
            body.manage,
        ),
{
    let outcome = cluster.set_managed(&body.resource, body.manage);
    set_managed_response(outcome, &body.resource, body.manage)
}

/// Answers a Set-managed request on the resource that it names, found by
/// the caller: sets the flag when it differs, and says what happened.
pub fn manage_found(res: &mut Resource, body: &ManageBody) -> (r: AxumResponse)
    requires
        old(res).id@ == body.resource@,
    ensures
        *final(res) == (Resource { managed: body.manage, ..*old(res) }),
        r.error == (old(res).managed == body.manage),
        r.text@ == set_managed_text(
            if old(res).managed == body.manage {
                SetManaged::Unchanged
            } else {
                SetManaged::Changed
            },
            body.resource@,
            body.manage,
        ),
{
    let outcome = res.request_managed(body.manage);
    set_managed_response(outcome, &body.resource, body.manage)
}

/// Answers a Set-managed request whose resource does not exist.
pub fn manage_missing(body: &ManageBody) -> (r: AxumResponse)
    ensures
        r.error,
        r.text@ == set_managed_text(SetManaged::NotFound, body.resource@, body.manage),
{
    set_managed_response(SetManaged::NotFound, &body.resource, body.manage)
}

pub open spec fn alive_text() -> Seq<char> {
    "Manager Service is Alive"@
}

/// Answers the liveness probe.
pub fn is_manager_alive() -> (r: AxumResponse)
    ensures
        !r.error,
        r.text@ == alive_text(),
{
    AxumResponse { error: false, text: String::from_str("Manager Service is Alive") }
}

} // verus!
