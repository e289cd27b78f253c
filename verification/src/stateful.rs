//! The stateful Hyperlight backend: a sandbox is provisioned, started, asked to execute code any
//! number of times, stopped and deprovisioned. What the code leaves behind in the guest survives
//! from one execution to the next until the session stops.
//!
//! The backend keeps the running sessions and decides what happens next. Its caller resolves image
//! homes, installs snapshots, creates runtimes of type `R` from image homes of type `H` and runs
//! code in them, and hands back what came of it.

use vstd::prelude::*;
use vstd::string::*;
use crate::error::{MxcError, MxcErrorCode};
use crate::request::ExecutionRequest;
use crate::scan::split_once;
use crate::text::same_text;

verus! {

/// What the ids of this backend's sandboxes begin with, before the colon.
pub const ID_PREFIX: &'static str = "hl";

/// What requests call this backend.
pub const BACKEND_KEY: &'static str = "hyperlight";

/// How a text looks between quotes with its special characters escaped, as the `Debug` format of
/// `str` in the standard library writes it.
pub uninterp spec fn debug_quoted(s: Seq<char>) -> Seq<char>;

/// The `Debug` format of `str` in the standard library. Its result is named `debug_quoted`: it
/// depends on the text alone, by escapes that are not spelled out here.
#[verifier::external_body]
pub(crate) fn quote_debug(s: &str) -> (r: String)
    ensures
        r@ == debug_quoted(s@),
{
    format!("{:?}", s)
}

/// Whether `s` is the id of a sandbox of this backend: the prefix, a colon and a token.
pub open spec fn is_sandbox_id(s: Seq<char>) -> bool {
    exists|token: Seq<char>| token.len() > 0 && s == #[trigger] sandbox_id_of(token)
}

/// The id with the given token.
pub open spec fn sandbox_id_of(token: Seq<char>) -> Seq<char> {
    ID_PREFIX@ + seq![':'] + token
}

/// The token of an id.
pub open spec fn token_of(s: Seq<char>) -> Seq<char> {
    s.skip(ID_PREFIX@.len() as int + 1)
}

/// The message for an id of the wrong form; `quoted` is the id between quotes.
pub open spec fn malformed_id_text(quoted: Seq<char>) -> Seq<char> {
    "expected "@ + ID_PREFIX@ + ":<token>, got "@ + quoted
}

/// The error for an id of the wrong form; `quoted` is the id between quotes.
pub fn malformed_id_error(quoted: &str) -> (r: MxcError)
    ensures
        r.says(MxcErrorCode::MalformedId, malformed_id_text(quoted@)),
{
    let mut m = String::from_str("expected ");
    m.append(ID_PREFIX);
    m.append(":<token>, got ");
    m.append(quoted);
    MxcError::malformed_id(m)
}

/// A started session.
#[derive(Debug)]
pub struct ActiveSession<R, H> {
    pub runtime: R,
    /// The image home that the runtime was created from.
    pub home: H,
}

#[derive(Debug)]
struct Entry<R, H> {
    id: String,
    session: ActiveSession<R, H>,
}

/// The stateful backend: the running sessions by the ids of their sandboxes.
#[derive(Debug)]
pub struct HyperlightStatefulBackend<R, H> {
    sessions: Vec<Entry<R, H>>,
}

spec fn holds_id<R, H>(s: Seq<Entry<R, H>>, id: Seq<char>) -> bool {
    exists|i: int| 0 <= i < s.len() && (#[trigger] s[i]).id@ == id
}

spec fn place_of<R, H>(s: Seq<Entry<R, H>>, id: Seq<char>) -> int {
    choose|i: int| 0 <= i < s.len() && (#[trigger] s[i]).id@ == id
}

spec fn distinct<R, H>(s: Seq<Entry<R, H>>) -> bool {
    forall|i: int, j: int|
        0 <= i < j < s.len() ==> (#[trigger] s[i]).id@ != (#[trigger] s[j]).id@
}

spec fn sessions_by_id<R, H>(s: Seq<Entry<R, H>>) -> Map<Seq<char>, ActiveSession<R, H>> {
    Map::new(|id: Seq<char>| holds_id(s, id), |id: Seq<char>| s[place_of(s, id)].session)
}

impl<R, H> View for HyperlightStatefulBackend<R, H> {
    type V = Map<Seq<char>, ActiveSession<R, H>>;

    closed spec fn view(&self) -> Map<Seq<char>, ActiveSession<R, H>> {
        sessions_by_id(self.sessions@)
    }
}

proof fn lemma_place<R, H>(s: Seq<Entry<R, H>>, i: int)
    requires
        distinct(s),
        0 <= i < s.len(),
    ensures
        holds_id(s, s[i].id@),
        place_of(s, s[i].id@) == i,
{
    let id = s[i].id@;
    let k = place_of(s, id);
    assert(0 <= k < s.len() && s[k].id@ == id);
    if k < i {
        assert(s[k].id@ != s[i].id@);
    }
    if i < k {
        assert(s[i].id@ != s[k].id@);
    }
}

proof fn lemma_push<R, H>(s: Seq<Entry<R, H>>, e: Entry<R, H>)
    requires
        distinct(s),
        !holds_id(s, e.id@),
    ensures
        distinct(s.push(e)),
        sessions_by_id(s.push(e)) == sessions_by_id(s).insert(e.id@, e.session),
{
    let t = s.push(e);
    assert forall|i: int, j: int| 0 <= i < j < t.len() implies (#[trigger] t[i]).id@ != (
    #[trigger] t[j]).id@ by {
        if j == s.len() {
            assert(t[i] == s[i]);
        }
    }
    assert forall|k: Seq<char>| holds_id(t, k) <==> holds_id(s, k) || k == e.id@ by {
        if holds_id(t, k) {
            let i = place_of(t, k);
            if i < s.len() {
                assert(s[i].id@ == k);
            }
        }
        if holds_id(s, k) {
            assert(t[place_of(s, k)].id@ == k);
        }
        assert(t[s.len() as int].id@ == e.id@);
    }
    assert forall|k: Seq<char>| holds_id(t, k) implies t[place_of(t, k)].session == (if k == e.id@ {
        e.session
    } else {
        s[place_of(s, k)].session
    }) by {
        if k == e.id@ {
            lemma_place(t, s.len() as int);
        } else {
            lemma_place(t, place_of(s, k));
        }
    }
    assert(sessions_by_id(t) =~= sessions_by_id(s).insert(e.id@, e.session));
}

proof fn lemma_update<R, H>(s: Seq<Entry<R, H>>, n: int, e: Entry<R, H>)
    requires
        distinct(s),
        0 <= n < s.len(),
        e.id@ == s[n].id@,
    ensures
        distinct(s.update(n, e)),
        sessions_by_id(s).contains_key(e.id@),
        sessions_by_id(s)[e.id@] == s[n].session,
        sessions_by_id(s.update(n, e)) == sessions_by_id(s).insert(e.id@, e.session),
{
    let t = s.update(n, e);
    lemma_place(s, n);
    assert forall|i: int, j: int| 0 <= i < j < t.len() implies (#[trigger] t[i]).id@ != (
    #[trigger] t[j]).id@ by {
        assert(s[i].id@ != s[j].id@);
    }
    assert forall|k: Seq<char>| holds_id(t, k) <==> holds_id(s, k) by {
        if holds_id(t, k) {
            assert(s[place_of(t, k)].id@ == k);
        }
        if holds_id(s, k) {
            assert(t[place_of(s, k)].id@ == k);
        }
    }
    assert forall|k: Seq<char>| holds_id(t, k) implies t[place_of(t, k)].session == (if k == e.id@ {
        e.session
    } else {
        s[place_of(s, k)].session
    }) by {
        assert(t[place_of(s, k)].id@ == k);
        lemma_place(t, place_of(s, k));
    }
    assert(sessions_by_id(t) =~= sessions_by_id(s).insert(e.id@, e.session));
}

proof fn lemma_remove<R, H>(s: Seq<Entry<R, H>>, n: int)
    requires
        distinct(s),
        0 <= n < s.len(),
    ensures
        distinct(s.remove(n)),
        sessions_by_id(s).contains_key(s[n].id@),
        !holds_id(s.remove(n), s[n].id@),
        sessions_by_id(s.remove(n)) == sessions_by_id(s).remove(s[n].id@),
{
    let t = s.remove(n);
    let id = s[n].id@;
    lemma_place(s, n);
    assert forall|k: Seq<char>| holds_id(t, k) <==> holds_id(s, k) && k != id by {
        if holds_id(t, k) {
            let i = place_of(t, k);
            let j = if i < n { i } else { i + 1 };
            assert(s[j].id@ == k);
            lemma_place(s, j);
        }
        if holds_id(s, k) && k != id {
            let j = place_of(s, k);
            let i = if j < n { j } else { j - 1 };
            assert(t[i].id@ == k);
        }
    }
    assert forall|k: Seq<char>| holds_id(t, k) implies t[place_of(t, k)].session == s[place_of(
        s,
        k,
    )].session by {
        let i = place_of(t, k);
        let j = if i < n { i } else { i + 1 };
        assert(t[i] == s[j]);
        lemma_place(s, j);
    }
    assert(sessions_by_id(t) =~= sessions_by_id(s).remove(id));
}

impl<R, H> HyperlightStatefulBackend<R, H> {
    /// No two sessions have the same id, and every id is one of this backend.
    pub closed spec fn valid(self) -> bool {
        &&& distinct(self.sessions@)
        &&& forall|i: int|
            0 <= i < self.sessions@.len() ==> is_sandbox_id((#[trigger] self.sessions@[i]).id@)
    }

    /// A backend without sessions.
    pub fn new() -> (r: Self)
        ensures
            r.valid(),
            r@ == Map::<Seq<char>, ActiveSession<R, H>>::empty(),
    {
        let r = HyperlightStatefulBackend { sessions: Vec::new() };
        assert(r@ =~= Map::<Seq<char>, ActiveSession<R, H>>::empty());
        r
    }

    /// The token in a sandbox id.
    pub fn extract_token<'a>(sandbox_id: &'a str) -> (r: Result<&'a str, MxcError>)
        ensures
            is_sandbox_id(sandbox_id@) ==> r is Ok && r->Ok_0@ == token_of(sandbox_id@),
            !is_sandbox_id(sandbox_id@) ==> r is Err && is_refusal(
                r->Err_0,
                MxcErrorCode::MalformedId,
                sandbox_id@,
            ),
    {
        proof {
            reveal_strlit("hl");
            assert forall|token: Seq<char>| sandbox_id@ == #[trigger] sandbox_id_of(token) implies {
                &&& sandbox_id@.contains(':')
                &&& sandbox_id@[2] == ':'
                &&& sandbox_id@.take(2) == ID_PREFIX@
                &&& token == sandbox_id@.skip(3)
            } by {
                assert(sandbox_id@[2] == ':');
                assert(sandbox_id@.take(2) =~= ID_PREFIX@);
                assert(token =~= sandbox_id@.skip(3));
            }
        }
        match split_once(sandbox_id, ':') {
            Some((prefix, rest)) => {
                proof {
                    if is_sandbox_id(sandbox_id@) {
                        let n = prefix@.len() as int;
                        assert(sandbox_id@[n] == ':');
                        if n > 2 {
                            assert(prefix@[2] == sandbox_id@[2]);
                        }
                        assert(sandbox_id@.take(2)[0] == 'h');
                        assert(sandbox_id@.take(2)[1] == 'l');
                        assert(n == 2);
                        assert(prefix@ =~= ID_PREFIX@);
                        assert(rest@ =~= sandbox_id@.skip(3));
                    }
                }
                if same_text(prefix, ID_PREFIX) && !rest.is_empty() {
                    proof {
                        assert(sandbox_id@ == sandbox_id_of(rest@));
                        assert(rest@ =~= token_of(sandbox_id@));
                    }
                    return Ok(rest);
                }
            },
            None => {},
        }
        let quoted = quote_debug(sandbox_id);
        Err(malformed_id_error(quoted.as_str()))
    }

    fn position(&self, sandbox_id: &str) -> (r: Option<usize>)
        ensures
            match r {
                Some(i) => i < self.sessions@.len() && self.sessions@[i as int].id@ == sandbox_id@,
                None => !holds_id(self.sessions@, sandbox_id@),
            },
    {
        let mut i: usize = 0;
        while i < self.sessions.len()
            invariant
                i <= self.sessions@.len(),
                forall|j: int| 0 <= j < i ==> (#[trigger] self.sessions@[j]).id@ != sandbox_id@,
            decreases self.sessions@.len() - i,
        {
            if same_text(self.sessions[i].id.as_str(), sandbox_id) {
                return Some(i);
            }
            i += 1;
        }
        None
    }
}

/// The running sessions of a backend by their ids.
pub type Sessions<R, H> = Map<Seq<char>, ActiveSession<R, H>>;

/// Why a session may not be started, if it may not.
pub open spec fn start_refusal<R, H>(m: Sessions<R, H>, id: Seq<char>) -> Option<MxcErrorCode> {
    if !is_sandbox_id(id) {
        Some(MxcErrorCode::MalformedId)
    } else if m.contains_key(id) {
        Some(MxcErrorCode::AlreadyStarted)
    } else {
        None
    }
}

/// Why nothing may be executed in a session, if that is so.
pub open spec fn exec_refusal<R, H>(m: Sessions<R, H>, id: Seq<char>) -> Option<MxcErrorCode> {
    if !is_sandbox_id(id) {
        Some(MxcErrorCode::MalformedId)
    } else if !m.contains_key(id) {
        Some(MxcErrorCode::NotStarted)
    } else {
        None
    }
}

/// Why a session may not be stopped, if it may not.
pub open spec fn stop_refusal<R, H>(m: Sessions<R, H>, id: Seq<char>) -> Option<MxcErrorCode> {
    if !is_sandbox_id(id) {
        Some(MxcErrorCode::MalformedId)
    } else if !m.contains_key(id) {
        Some(MxcErrorCode::AlreadyStopped)
    } else {
        None
    }
}

/// Why a sandbox may not be deprovisioned, if it may not.
pub open spec fn deprovision_refusal(id: Seq<char>) -> Option<MxcErrorCode> {
    if !is_sandbox_id(id) {
        Some(MxcErrorCode::MalformedId)
    } else {
        None
    }
}

/// What a refused operation on `id` says.
pub open spec fn refusal_text(code: MxcErrorCode, id: Seq<char>) -> Seq<char> {
    match code {
        MxcErrorCode::MalformedId => malformed_id_text(debug_quoted(id)),
        MxcErrorCode::AlreadyStarted => "session "@ + id + " is already started"@,
        MxcErrorCode::NotStarted => "no running session for "@ + id + " \u{2014} call start first"@,
        _ => "no running session for "@ + id,
    }
}

/// Whether `e` is the error that an operation on `id` is refused with.
pub open spec fn is_refusal(e: MxcError, code: MxcErrorCode, id: Seq<char>) -> bool {
    e.says(code, refusal_text(code, id))
}

/// The sessions once `id` runs with the given runtime.
pub open spec fn with_session<R, H>(
    m: Sessions<R, H>,
    id: Seq<char>,
    runtime: R,
    home: H,
) -> Sessions<R, H> {
    m.insert(id, ActiveSession { runtime, home })
}

/// The sessions once an execution in `id` has left its runtime as given.
pub open spec fn with_runtime<R, H>(
    m: Sessions<R, H>,
    id: Seq<char>,
    runtime: R,
) -> Sessions<R, H> {
    m.insert(id, ActiveSession { runtime, home: m[id].home })
}

/// The sessions once `id` no longer runs.
pub open spec fn without_session<R, H>(m: Sessions<R, H>, id: Seq<char>) -> Sessions<R, H> {
    m.remove(id)
}

/// What provisioning does next.
#[derive(Debug)]
pub enum ProvisionStep<H> {
    /// The image home holds a warmed snapshot: mint a token.
    MintToken,
    /// Warm a snapshot as planned, and mint a token if that succeeds.
    Install(InstallPlan<H>),
}

/// How a snapshot is to be warmed from the kernel and the initrd in an image home.
#[derive(Debug)]
pub struct InstallPlan<H> {
    pub home: H,
    /// The host directories that the guest sees, each with its path in the guest.
    pub mounts: Vec<(String, String)>,
    /// Whether the guest reaches the network.
    pub network: bool,
    /// The ports that the guest may listen on.
    pub listen_ports: Vec<u16>,
    pub max_surrogates: Option<u32>,
    /// Whether an image that is there already is replaced.
    pub force: bool,
}

/// How a runtime is to be created from an image home.
#[derive(Debug)]
pub struct RuntimePlan<H> {
    pub home: H,
    /// The host directories that the guest sees, each with its path in the guest.
    pub mounts: Vec<(String, String)>,
    /// Whether the guest reaches the network.
    pub network: bool,
    /// The ports that the guest may listen on.
    pub listen_ports: Vec<u16>,
    pub max_surrogates: Option<u32>,
}

/// Whether `p` warms a snapshot in `home` without mounts, without network, without surrogates, and
/// without touching an image that is there already.
pub open spec fn is_install_plan<H>(p: InstallPlan<H>, home: H) -> bool {
    &&& p.home == home
    &&& p.mounts@.len() == 0
    &&& !p.network
    &&& p.listen_ports@.len() == 0
    &&& p.max_surrogates == Some(0u32)
    &&& !p.force
}

/// Whether `p` creates a runtime from `home` without mounts, without network and without
/// surrogates.
pub open spec fn is_runtime_plan<H>(p: RuntimePlan<H>, home: H) -> bool {
    &&& p.home == home
    &&& p.mounts@.len() == 0
    &&& !p.network
    &&& p.listen_ports@.len() == 0
    &&& p.max_surrogates == Some(0u32)
}

/// A session that may be started once its runtime is there.
#[derive(Debug)]
pub struct PendingStart {
    id: String,
}

impl PendingStart {
    /// The id of the session.
    pub closed spec fn id(self) -> Seq<char> {
        self.id@
    }

    /// The id is one of this backend.
    pub open spec fn valid(self) -> bool {
        is_sandbox_id(self.id())
    }
}

/// A running session and the code that it is to execute, as it stands, without going back to the
/// snapshot first.
#[derive(Debug)]
pub struct ExecStep<'a, R> {
    pub runtime: &'a mut R,
    pub code: String,
    /// The longest that the code may run, in milliseconds. Code that overruns it is to be
    /// interrupted.
    pub timeout_ms: u32,
}

/// The result of provisioning.
#[derive(Debug)]
pub struct ProvisionResult {
    pub sandbox_id: String,
    pub metadata: Option<()>,
}

/// The result of starting.
#[derive(Debug)]
pub struct StartResult {
    pub metadata: Option<()>,
}

/// The result of an execution: the exit code, and pipes that hold nothing.
#[derive(Debug)]
pub struct ExecHandle {
    pub stdout: i64,
    pub stderr: i64,
    pub stdin: i64,
    pub exit_code: i32,
}

/// The result of stopping.
#[derive(Debug)]
pub struct StopResult {
    pub metadata: Option<()>,
}

/// The result of deprovisioning.
#[derive(Debug)]
pub struct DeprovisionResult {
    pub metadata: Option<()>,
}

/// The number of a pipe handle that nothing may be read from: a null handle on Windows, an invalid
/// file descriptor elsewhere.
pub fn sentinel_pipe(windows: bool) -> (r: i64)
    ensures
        r == (if windows {
            0int
        } else {
            -1
        }),
{
    if windows {
        0
    } else {
        -1
    }
}

/// A backend error that says `what` and then why.
fn backend_failure(what: &str, why: &str) -> (r: MxcError)
    ensures
        r.says(MxcErrorCode::BackendError, what@ + why@),
{
    let mut m = String::from_str(what);
    m.append(why);
    MxcError::backend_error(m)
}

/// The text `before`, `id`, `after`.
fn about_session(before: &str, id: &str, after: &str) -> (r: String)
    ensures
        r@ == before@ + id@ + after@,
{
    let mut m = String::from_str(before);
    m.append(id);
    m.append(after);
    m
}

fn already_started_error(id: &str) -> (r: MxcError)
    ensures
        is_refusal(r, MxcErrorCode::AlreadyStarted, id@),
{
    MxcError::already_started(about_session("session ", id, " is already started"))
}

impl<R, H> HyperlightStatefulBackend<R, H> {
    /// Begins to provision a sandbox, given the image home or the reason why there is none, and
    /// whether the home holds a warmed snapshot and the files to warm one from.
    pub fn provision(
        &self,
        _request: &ExecutionRequest,
        _config: Option<()>,
        home: Result<H, String>,
        installed: bool,
        has_source: bool,
    ) -> (r: Result<ProvisionStep<H>, MxcError>)
        ensures
            match home {
                Err(e) => r is Err && r->Err_0.says(
                    MxcErrorCode::BackendError,
                    "hyperlight provision: image home resolution: "@ + e@,
                ),
                Ok(h) => if installed {
                    r == Ok::<ProvisionStep<H>, MxcError>(ProvisionStep::MintToken)
                } else if has_source {
                    r matches Ok(ProvisionStep::Install(p)) && is_install_plan(p, h)
                } else {
                    r is Err && r->Err_0.says(
                        MxcErrorCode::BackendError,
                        "no warmed snapshot and no kernel/initrd to install from. run `--setup-hyperlight` first."@,
                    )
                },
            },
    {
        match home {
            Err(e) => Err(
                backend_failure("hyperlight provision: image home resolution: ", e.as_str()),
            ),
            Ok(home) => {
                if installed {
                    Ok(ProvisionStep::MintToken)
                } else if has_source {
                    Ok(
                        ProvisionStep::Install(
                            InstallPlan {
                                home,
                                mounts: Vec::new(),
                                network: false,
                                listen_ports: Vec::new(),
                                max_surrogates: Some(0),
                                force: false,
                            },
                        ),
                    )
                } else {
                    Err(
                        MxcError::backend_error(
                            String::from_str(
                                "no warmed snapshot and no kernel/initrd to install from. run `--setup-hyperlight` first.",
                            ),
                        ),
                    )
                }
            },
        }
    }

    /// Goes on with provisioning after an installation, or gives up if that failed.
    pub fn provision_installed(&self, outcome: Result<(), String>) -> (r: Result<(), MxcError>)
        ensures
            match outcome {
                Ok(_) => r is Ok,
                Err(e) => r is Err && r->Err_0.says(
                    MxcErrorCode::BackendError,
                    "hyperlight auto-install: "@ + e@,
                ),
            },
    {
        match outcome {
            Ok(_) => Ok(()),
            Err(e) => Err(backend_failure("hyperlight auto-install: ", e.as_str())),
        }
    }

    /// Ends provisioning: the sandbox gets the id with the token that was minted for it.
    pub fn provision_minted(&self, token: &str) -> (r: ProvisionResult)
        ensures
            r.sandbox_id@ == sandbox_id_of(token@),
            r.metadata is None,
    {
        let mut id = String::from_str(ID_PREFIX);
        id.push(':');
        id.append(token);
        assert(id@ =~= sandbox_id_of(token@));
        ProvisionResult { sandbox_id: id, metadata: None }
    }

    /// Begins to start a session. The caller then resolves the image home.
    pub fn start(
        &self,
        sandbox_id: &str,
        _request: &ExecutionRequest,
        _config: Option<()>,
    ) -> (r: Result<PendingStart, MxcError>)
        requires
            self.valid(),
        ensures
            match start_refusal(self@, sandbox_id@) {
                Some(code) => r is Err && is_refusal(r->Err_0, code, sandbox_id@),
                None => r matches Ok(p) && p.valid() && p.id() == sandbox_id@,
            },
    {
        match Self::extract_token(sandbox_id) {
            Ok(_) => {},
            Err(e) => {
                return Err(e);
            },
        }
        match self.position(sandbox_id) {
            Some(i) => {
                assert(holds_id(self.sessions@, sandbox_id@));
                Err(already_started_error(sandbox_id))
            },
            None => Ok(PendingStart { id: String::from_str(sandbox_id) }),
        }
    }

    /// Goes on with a start once the image home is resolved, or gives up if there is none. The
    /// caller then creates the runtime as planned.
    pub fn start_home(&self, home: Result<H, String>) -> (r: Result<RuntimePlan<H>, MxcError>)
        ensures
            match home {
                Ok(h) => r matches Ok(p) && is_runtime_plan(p, h),
                Err(e) => r is Err && r->Err_0.says(
                    MxcErrorCode::BackendError,
                    "hyperlight start: image home resolution: "@ + e@,
                ),
            },
    {
        match home {
            Ok(home) => Ok(
                RuntimePlan {
                    home,
                    mounts: Vec::new(),
                    network: false,
                    listen_ports: Vec::new(),
                    max_surrogates: Some(0),
                },
            ),
            Err(e) => Err(backend_failure("hyperlight start: image home resolution: ", e.as_str())),
        }
    }

    /// Ends a start: the session runs if its runtime was created. A session that was started in the
    /// meantime keeps the runtime that it has.
    pub fn start_runtime(
        &mut self,
        pending: PendingStart,
        home: H,
        runtime: Result<R, String>,
    ) -> (r: Result<StartResult, MxcError>)
        requires
            old(self).valid(),
            pending.valid(),
        ensures
            final(self).valid(),
            match start_refusal(old(self)@, pending.id()) {
                Some(code) => {
                    &&& r is Err && is_refusal(r->Err_0, code, pending.id())
                    &&& final(self)@ == old(self)@
                },
                None => match runtime {
                    Ok(rt) => {
                        &&& r matches Ok(s) && s.metadata is None
                        &&& final(self)@ == with_session(old(self)@, pending.id(), rt, home)
                    },
                    Err(e) => {
                        &&& r is Err && r->Err_0.says(
                            MxcErrorCode::BackendError,
                            "hyperlight start: runtime init: "@ + e@,
                        )
                        &&& final(self)@ == old(self)@
                    },
                },
            },
    {
        if self.position(pending.id.as_str()).is_some() {
            assert(holds_id(self.sessions@, pending.id@));
            return Err(already_started_error(pending.id.as_str()));
        }
        let runtime = match runtime {
            Ok(rt) => rt,
            Err(e) => {
                return Err(backend_failure("hyperlight start: runtime init: ", e.as_str()));
            },
        };
        let entry = Entry { id: pending.id, session: ActiveSession { runtime, home } };
        proof {
            lemma_push(self.sessions@, entry);
        }
        self.sessions.push(entry);
        Ok(StartResult { metadata: None })
    }

    /// Takes the session with the given id out, and tells whether there was one.
    fn drop_session(&mut self, sandbox_id: &str) -> (r: bool)
        requires
            old(self).valid(),
        ensures
            final(self).valid(),
            r == old(self)@.contains_key(sandbox_id@),
            final(self)@ == old(self)@.remove(sandbox_id@),
            !holds_id(final(self).sessions@, sandbox_id@),
    {
        match self.position(sandbox_id) {
            None => {
                assert(self@ =~= old(self)@.remove(sandbox_id@));
                false
            },
            Some(i) => {
                proof {
                    lemma_remove(self.sessions@, i as int);
                }
                self.sessions.remove(i);
                true
            },
        }
    }

    /// Begins to execute code in a running session. The caller runs the code in the runtime, no
    /// longer than the request allows.
    pub fn exec<'a>(
        &'a mut self,
        sandbox_id: &str,
        request: &ExecutionRequest,
        _config: Option<()>,
    ) -> (r: Result<ExecStep<'a, R>, MxcError>)
        requires
            old(self).valid(),
        ensures
            final(self).valid(),
            match exec_refusal(old(self)@, sandbox_id@) {
                Some(code) => {
                    &&& r is Err && is_refusal(r->Err_0, code, sandbox_id@)
                    &&& final(self)@ == old(self)@
                },
                None => {
                    &&& r matches Ok(step)
                    &&& step.code@ == request.script_code@
                    &&& step.timeout_ms == request.script_timeout
                    &&& *step.runtime == old(self)@[sandbox_id@].runtime
                    &&& final(self)@ == with_runtime(
                        old(self)@,
                        sandbox_id@,
                        *final(step.runtime),
                    )
                },
            },
    {
        match Self::extract_token(sandbox_id) {
            Ok(_) => {},
            Err(e) => {
                return Err(e);
            },
        }
        match self.position(sandbox_id) {
            Some(i) => {
                let code = request.script_code.clone();
                let ghost before = self.sessions@;
                let step = ExecStep {
                    runtime: &mut self.sessions[i].session.runtime,
                    code,
                    timeout_ms: request.script_timeout,
                };
                proof {
                    let was = before[i as int];
                    lemma_update(
                        before,
                        i as int,
                        Entry {
                            id: was.id,
                            session: ActiveSession {
                                runtime: *final(step.runtime),
                                home: was.session.home,
                            },
                        },
                    );
                }
                Ok(step)
            },
            None => Err(
                MxcError::not_started(
                    about_session("no running session for ", sandbox_id, " \u{2014} call start first"),
                ),
            ),
        }
    }

    /// Ends an execution: the exit code of the code, or the reason why it did not run.
    pub fn exec_done(&self, outcome: Result<i32, String>, windows: bool) -> (r: Result<
        ExecHandle,
        MxcError,
    >)
        ensures
            match outcome {
                Ok(code) => {
                    let pipe = if windows {
                        0int
                    } else {
                        -1
                    };
                    &&& r matches Ok(h)
                    &&& h.exit_code == code
                    &&& h.stdout == pipe
                    &&& h.stderr == pipe
                    &&& h.stdin == pipe
                },
                Err(e) => r is Err && r->Err_0.says(
                    MxcErrorCode::BackendError,
                    "hyperlight exec: "@ + e@,
                ),
            },
    {
        match outcome {
            Ok(exit_code) => {
                let null: i64 = sentinel_pipe(windows);
                Ok(ExecHandle { stdout: null, stderr: null, stdin: null, exit_code })
            },
            Err(e) => Err(backend_failure("hyperlight exec: ", e.as_str())),
        }
    }

    /// Stops a session. Its runtime, and with it the guest, is gone.
    pub fn stop(
        &mut self,
        sandbox_id: &str,
        _request: &ExecutionRequest,
        _config: Option<()>,
    ) -> (r: Result<StopResult, MxcError>)
        requires
            old(self).valid(),
        ensures
            final(self).valid(),
            match stop_refusal(old(self)@, sandbox_id@) {
                Some(code) => {
                    &&& r is Err && is_refusal(r->Err_0, code, sandbox_id@)
                    &&& final(self)@ == old(self)@
                },
                None => {
                    &&& r matches Ok(s) && s.metadata is None
                    &&& final(self)@ == without_session(old(self)@, sandbox_id@)
                },
            },
    {
        match Self::extract_token(sandbox_id) {
            Ok(_) => {},
            Err(e) => {
                return Err(e);
            },
        }
        if self.drop_session(sandbox_id) {
            Ok(StopResult { metadata: None })
        } else {
            assert(self@ =~= old(self)@);
            let mut m = String::from_str("no running session for ");
            m.append(sandbox_id);
            Err(MxcError::already_stopped(m))
        }
    }

    /// Deprovisions a sandbox. A session that still runs is stopped first; nothing else is left
    /// to clean up.
    pub fn deprovision(
        &mut self,
        sandbox_id: &str,
        _request: &ExecutionRequest,
        _config: Option<()>,
    ) -> (r: Result<DeprovisionResult, MxcError>)
        requires
            old(self).valid(),
        ensures
            final(self).valid(),
            match deprovision_refusal(sandbox_id@) {
                Some(code) => {
                    &&& r is Err && is_refusal(r->Err_0, code, sandbox_id@)
                    &&& final(self)@ == old(self)@
                },
                None => {
                    &&& r matches Ok(d) && d.metadata is None
                    &&& final(self)@ == without_session(old(self)@, sandbox_id@)
                },
            },
    {
        match Self::extract_token(sandbox_id) {
            Ok(_) => {},
            Err(e) => {
                return Err(e);
            },
        }
        self.drop_session(sandbox_id);
        Ok(DeprovisionResult { metadata: None })
    }

    /// Checks a request to provision. This backend accepts every one.
    pub fn validate_provision(&self, _request: &ExecutionRequest, _config: Option<()>) -> (r: Result<
        (),
        MxcError,
    >)
        ensures
            r is Ok,
    {
        Ok(())
    }

    /// Checks a request to start. This backend accepts every one.
    pub fn validate_start(
        &self,
        _sandbox_id: &str,
        _request: &ExecutionRequest,
        _config: Option<()>,
    ) -> (r: Result<(), MxcError>)
        ensures
            r is Ok,
    {
        Ok(())
    }

    /// Checks a request to execute. This backend accepts every one.
    pub fn validate_exec(
        &self,
        _sandbox_id: &str,
        _request: &ExecutionRequest,
        _config: Option<()>,
    ) -> (r: Result<(), MxcError>)
        ensures
            r is Ok,
    {
        Ok(())
    }

    /// Checks a request to stop. This backend accepts every one.
    pub fn validate_stop(
        &self,
        _sandbox_id: &str,
        _request: &ExecutionRequest,
        _config: Option<()>,
    ) -> (r: Result<(), MxcError>)
        ensures
            r is Ok,
    {
        Ok(())
    }

    /// Checks a request to deprovision. This backend accepts every one.
    pub fn validate_deprovision(
        &self,
        _sandbox_id: &str,
        _request: &ExecutionRequest,
        _config: Option<()>,
    ) -> (r: Result<(), MxcError>)
        ensures
            r is Ok,
    {
        Ok(())
    }
}

/// An id that provisioning made is accepted, and its token is the one that was minted.
pub proof fn provisioned_id_is_accepted(token: Seq<char>)
    requires
        token.len() > 0,
    ensures
        is_sandbox_id(sandbox_id_of(token)),
        token_of(sandbox_id_of(token)) == token,
{
    assert(token_of(sandbox_id_of(token)) =~= token);
}

/// An id of the wrong form is refused as such by every operation.
pub proof fn malformed_id_is_refused<R, H>(m: Sessions<R, H>, id: Seq<char>)
    requires
        !is_sandbox_id(id),
    ensures
        start_refusal(m, id) == Some(MxcErrorCode::MalformedId),
        exec_refusal(m, id) == Some(MxcErrorCode::MalformedId),
        stop_refusal(m, id) == Some(MxcErrorCode::MalformedId),
        deprovision_refusal(id) == Some(MxcErrorCode::MalformedId),
{
}

/// Every running session has an id of this backend.
pub proof fn running_ids_are_well_formed<R, H>(b: HyperlightStatefulBackend<R, H>, id: Seq<char>)
    requires
        b.valid(),
        b@.contains_key(id),
    ensures
        is_sandbox_id(id),
{
    let i = place_of(b.sessions@, id);
    assert(is_sandbox_id(b.sessions@[i].id@));
}

/// A session that was started can execute and stop but not start again.
pub proof fn started_session_runs<R, H>(m: Sessions<R, H>, id: Seq<char>, runtime: R, home: H)
    requires
        start_refusal(m, id) is None,
    ensures
        start_refusal(with_session(m, id, runtime, home), id) == Some(MxcErrorCode::AlreadyStarted),
        exec_refusal(with_session(m, id, runtime, home), id) is None,
        stop_refusal(with_session(m, id, runtime, home), id) is None,
        with_session(m, id, runtime, home)[id].runtime == runtime,
{
}

/// An execution leaves its session running, in the state that it left behind: the next execution
/// finds just that runtime.
pub proof fn state_persists_across_executions<R, H>(m: Sessions<R, H>, id: Seq<char>, left: R)
    requires
        exec_refusal(m, id) is None,
    ensures
        exec_refusal(with_runtime(m, id, left), id) is None,
        with_runtime(m, id, left)[id].runtime == left,
        with_runtime(m, id, left)[id].home == m[id].home,
        with_runtime(m, id, left).dom() == m.dom(),
{
    assert(with_runtime(m, id, left).dom() =~= m.dom());
}

/// A session that was stopped, or deprovisioned, no longer executes and cannot be stopped again,
/// but it can be started anew and deprovisioned as often as one likes.
pub proof fn stopped_session_is_gone<R, H>(m: Sessions<R, H>, id: Seq<char>)
    requires
        is_sandbox_id(id),
    ensures
        exec_refusal(without_session(m, id), id) == Some(MxcErrorCode::NotStarted),
        stop_refusal(without_session(m, id), id) == Some(MxcErrorCode::AlreadyStopped),
        start_refusal(without_session(m, id), id) is None,
        deprovision_refusal(id) is None,
        without_session(without_session(m, id), id) == without_session(m, id),
{
    assert(without_session(without_session(m, id), id) =~= without_session(m, id));
}

/// Stopping undoes starting: whatever was executed in between, the sessions are those before.
pub proof fn stop_undoes_start<R, H>(
    m: Sessions<R, H>,
    id: Seq<char>,
    runtime: R,
    home: H,
    left: R,
)
    requires
        start_refusal(m, id) is None,
    ensures
        without_session(with_session(m, id, runtime, home), id) == m,
        without_session(with_runtime(with_session(m, id, runtime, home), id, left), id) == m,
{
    assert(without_session(with_session(m, id, runtime, home), id) =~= m);
    assert(without_session(with_runtime(with_session(m, id, runtime, home), id, left), id) =~= m);
}

/// Sessions are independent: whatever happens to one, every other runs, or does not run, as
/// before, with its runtime untouched.
pub proof fn sessions_are_independent<R, H>(
    m: Sessions<R, H>,
    id: Seq<char>,
    other: Seq<char>,
    runtime: R,
    home: H,
)
    requires
        other != id,
    ensures
        with_session(m, id, runtime, home).contains_key(other) == m.contains_key(other),
        with_runtime(m, id, runtime).contains_key(other) == m.contains_key(other),
        without_session(m, id).contains_key(other) == m.contains_key(other),
        m.contains_key(other) ==> {
            &&& with_session(m, id, runtime, home)[other] == m[other]
            &&& with_runtime(m, id, runtime)[other] == m[other]
            &&& without_session(m, id)[other] == m[other]
        },
{
}

/// Just the texts that begin with the prefix and a colon and go on after it are ids, whatever follows.
pub proof fn ids_are_the_prefix_and_a_token(id: Seq<char>)
    ensures
        is_sandbox_id(id) <==> id.len() > 3 && id[0] == 'h' && id[1] == 'l' && id[2] == ':',
        is_sandbox_id(id) ==> token_of(id) == id.skip(3),
{
    reveal_strlit("hl");
    if is_sandbox_id(id) {
        let token = choose|token: Seq<char>| token.len() > 0 && id == #[trigger] sandbox_id_of(token);
        assert(id.len() == 3 + token.len());
    }
    if id.len() > 3 && id[0] == 'h' && id[1] == 'l' && id[2] == ':' {
        let token = id.skip(3);
        assert(id =~= sandbox_id_of(token));
    }
}

/// What may be done with a sandbox depends on its id and on whether it runs, and on nothing else: it
/// may be started if and only if it does not run, executed in and stopped if and only if it does, and
/// deprovisioned in any case.
pub proof fn what_runs_decides_what_may_be_done<R, H>(m: Sessions<R, H>, id: Seq<char>)
    requires
        is_sandbox_id(id),
    ensures
        start_refusal(m, id) is None <==> !m.contains_key(id),
        start_refusal(m, id) is Some ==> start_refusal(m, id) == Some(MxcErrorCode::AlreadyStarted),
        exec_refusal(m, id) is None <==> m.contains_key(id),
        exec_refusal(m, id) is Some ==> exec_refusal(m, id) == Some(MxcErrorCode::NotStarted),
        stop_refusal(m, id) is None <==> m.contains_key(id),
        stop_refusal(m, id) is Some ==> stop_refusal(m, id) == Some(MxcErrorCode::AlreadyStopped),
        deprovision_refusal(id) is None,
{
}

/// A session runs with the runtime and the home that it was started with, and starting it changes no
/// other.
pub proof fn start_adds_just_the_session<R, H>(m: Sessions<R, H>, id: Seq<char>, runtime: R, home: H)
    ensures
        with_session(m, id, runtime, home).dom() == m.dom().insert(id),
        with_session(m, id, runtime, home)[id].runtime == runtime,
        with_session(m, id, runtime, home)[id].home == home,
        without_session(m, id).dom() == m.dom().remove(id),
{
    assert(with_session(m, id, runtime, home).dom() =~= m.dom().insert(id));
    assert(without_session(m, id).dom() =~= m.dom().remove(id));
}

/// A refusal names the sandbox as it was given, between the same words for every sandbox; one for an
/// id of the wrong form quotes it.
pub proof fn refusals_name_the_sandbox(code: MxcErrorCode, id: Seq<char>)
    ensures
        code is AlreadyStarted ==> refusal_text(code, id) == "session "@ + id + " is already started"@,
        code is NotStarted ==> refusal_text(code, id) == "no running session for "@ + id
            + " \u{2014} call start first"@,
        code is AlreadyStopped ==> refusal_text(code, id) == "no running session for "@ + id,
        code is MalformedId ==> refusal_text(code, id) == "expected "@ + "hl"@ + ":<token>, got "@
            + debug_quoted(id),
{
}

/// A refusal is an error of its kind with its words.
pub proof fn refusal_is_of_its_kind(e: MxcError, code: MxcErrorCode, id: Seq<char>)
    requires
        is_refusal(e, code, id),
    ensures
        e.code == code,
        e.message@ == refusal_text(code, id),
{
}

/// Guests get no host directories, no network, no ports to listen on and no surrogates, whichever
/// home they come from, and an installation leaves an image alone that is there already.
pub proof fn guests_get_no_access<H>(p: RuntimePlan<H>, q: InstallPlan<H>, home: H)
    requires
        is_runtime_plan(p, home),
        is_install_plan(q, home),
    ensures
        p.home == home && q.home == home,
        p.mounts@.len() == 0 && q.mounts@.len() == 0,
        !p.network && !q.network,
        p.listen_ports@.len() == 0 && q.listen_ports@.len() == 0,
        p.max_surrogates == Some(0u32) && q.max_surrogates == Some(0u32),
        !q.force,
{
}

impl<R, H> Default for HyperlightStatefulBackend<R, H> {
    /// A backend without sessions.
    fn default() -> (r: Self)
        ensures
            r.valid(),
            r@ == Map::<Seq<char>, ActiveSession<R, H>>::empty(),
    {
        Self::new()
    }
}

} // verus!
