//! Taking workspaces under management, and letting snapshots and workspaces go.

use vstd::prelude::*;
use vstd::utf8::*;

use super::index::{SnapshotIndex, SnapshotMeta};
use super::protocol;
use super::protocol::{
    error_resp, snapshot_resolve_error_response, workspace_not_found, ErrorCode, Response,
    Workspace,
};
use crate::paths;
use crate::paths::{file_name_of, is_under};
use crate::text;
use crate::text::{cat2, cat3, chars_of, push_decimal, string_of};

verus! {

// ---- paths and numbers ----------------------------------------------------------
/// A path without the slashes at its end; the root stays.
pub open spec fn without_slashes(s: Seq<char>) -> Seq<char>
    decreases s.len(),
{
    if s.len() == 0 {
        seq!['/']
    } else if s.last() == '/' {
        without_slashes(s.drop_last())
    } else {
        s
    }
}

/// What is stripped are slashes at the end, and all of them; a path of slashes
/// alone becomes the root.
pub proof fn only_slashes_are_stripped(s: Seq<char>)
    ensures
        ({
            let r = without_slashes(s);
            &&& r.len() > 0
            &&& r == "/"@ || r[r.len() - 1] != '/' && r.len() <= s.len() && s.take(r.len() as int)
                == r
            &&& forall|i: int|
                0 <= i < s.len() && (r == "/"@ || r.len() <= i) ==> #[trigger] s[i] == '/'
        }),
    decreases s.len(),
{
    reveal_strlit("/");
    assert("/"@ =~= seq!['/']);
    let r = without_slashes(s);
    if s.len() > 0 && s.last() == '/' {
        let t = s.drop_last();
        only_slashes_are_stripped(t);
        if r != "/"@ {
            assert(s.take(r.len() as int) =~= t.take(r.len() as int));
        }
        assert forall|i: int| 0 <= i < s.len() && (r == "/"@ || r.len() <= i) implies #[trigger] s[i]
            == '/' by {
            if i < t.len() {
                assert(t[i] == s[i]);
            }
        }
    } else if s.len() > 0 {
        assert(s.take(s.len() as int) =~= s);
        assert(s[s.len() - 1] != '/');
    }
}

/// Strips the slashes at the end of a path; the root stays.
pub fn strip_trailing_slashes(s: &str) -> (r: String)
    ensures
        r@ == without_slashes(s@),
        r@.len() > 0,
        r@ == "/"@ || r@[r@.len() - 1] != '/' && r@.len() <= s@.len()
            && s@.take(r@.len() as int) == r@,
        forall|i: int| 0 <= i < s@.len() && (r@ == "/"@ || r@.len() <= i)
            ==> #[trigger] s@[i] == '/',
{
    proof {
        only_slashes_are_stripped(s@);
    }
    let v = chars_of(s);
    let mut end: usize = v.len();
    assert(v@.take(end as int) =~= s@);
    while end > 0 && v[end - 1] == '/'
        invariant
            v@ == s@,
            end <= v@.len(),
            without_slashes(v@.take(end as int)) == without_slashes(s@),
        decreases end,
    {
        assert(v@.take(end as int).drop_last() =~= v@.take(end - 1));
        end = end - 1;
    }
    if end == 0 {
        let mut r = String::new();
        r.push('/');
        assert(r@ =~= seq!['/']);
        r
    } else {
        assert(v@.subrange(0, end as int) =~= v@.take(end as int));
        string_of(&v, 0, end)
    }
}

/// The SHA-256 digest of a byte sequence.
pub uninterp spec fn sha256(data: Seq<u8>) -> Seq<u8>;

/// Calls `sha2::Sha256::digest`. The digest is 32 bytes long and a function of
/// the data alone; which function is not said.
#[verifier::external_body]
fn sha256_digest(data: &[u8]) -> (r: Vec<u8>)
    ensures
        r@ == sha256(data@),
        r@.len() == 32,
{
    <sha2::Sha256 as sha2::Digest>::digest(data).to_vec()
}

/// Two lower-case hexadecimal digits for each byte.
pub open spec fn hex_text(bytes: Seq<u8>) -> Seq<char>
    decreases bytes.len(),
{
    if bytes.len() == 0 {
        Seq::empty()
    } else {
        hex_text(bytes.drop_last()).push(text::hex_char(bytes.last() as int / 16)).push(
            text::hex_char(bytes.last() as int % 16),
        )
    }
}

/// Calls `hex::encode`, which writes each byte as two lower-case hexadecimal
/// digits, the high one first.
#[verifier::external_body]
fn hex_encode(bytes: &Vec<u8>) -> (r: String)
    ensures
        r@ == hex_text(bytes@),
{
    hex::encode(bytes)
}

/// The number of a workspace, before any collision: the first three bytes of
/// the digest of its path.
pub open spec fn ws_id_base(path: Seq<char>) -> Seq<char> {
    "ws-"@ + hex_text(sha256(encode_utf8(path)).take(3))
}

/// The number of the workspace at `path`, before any collision.
pub fn generate_ws_id_base(path: &str) -> (r: String)
    ensures
        r@ == ws_id_base(path@),
        r@.len() == 9,
        r@.take(3) == "ws-"@,
        forall|i: int|
            #![trigger sha256(encode_utf8(path@))[i]]
            0 <= i < 3 ==> {
                let b = sha256(encode_utf8(path@))[i] as int;
                &&& r@[3 + 2 * i] == text::hex_char(b / 16)
                &&& r@[4 + 2 * i] == text::hex_char(b % 16)
            },
{
    let digest = sha256_digest(path.as_bytes());
    base_of_digest(&digest)
}

/// The number of a workspace whose path has this digest.
pub fn base_of_digest(digest: &Vec<u8>) -> (r: String)
    requires
        digest@.len() >= 3,
    ensures
        r@ == "ws-"@ + hex_text(digest@.take(3)),
        r@.len() == 9,
        r@.take(3) == "ws-"@,
        forall|i: int|
            #![trigger digest@[i]]
            0 <= i < 3 ==> {
                &&& r@[3 + 2 * i] == text::hex_char(digest@[i] as int / 16)
                &&& r@[4 + 2 * i] == text::hex_char(digest@[i] as int % 16)
            },
{
    let mut first: Vec<u8> = Vec::new();
    first.push(digest[0]);
    first.push(digest[1]);
    first.push(digest[2]);
    proof {
        assert(first@ =~= digest@.take(3));
        ws_id_has_six_digits(digest@);
        reveal_strlit("ws-");
    }
    let hash = hex_encode(&first);
    let r = cat2("ws-", hash.as_str());
    proof {
        assert(r@.take(3) =~= "ws-"@);
        assert forall|i: int| #![trigger digest@[i]] 0 <= i < 3 implies {
            &&& r@[3 + 2 * i] == text::hex_char(digest@[i] as int / 16)
            &&& r@[4 + 2 * i] == text::hex_char(digest@[i] as int % 16)
        } by {
            assert(r@[3 + 2 * i] == hash@[2 * i]);
            assert(r@[4 + 2 * i] == hash@[2 * i + 1]);
        }
    }
    r
}

/// A workspace number has the prefix and six hexadecimal digits.
pub proof fn ws_id_has_six_digits(digest: Seq<u8>)
    requires
        digest.len() >= 3,
    ensures
        hex_text(digest.take(3)).len() == 6,
        forall|i: int|
            0 <= i < 6 ==> {
                let c = #[trigger] hex_text(digest.take(3))[i];
                ('0' <= c && c <= '9') || ('a' <= c && c <= 'f')
            },
        forall|i: int|
            #![trigger digest[i]]
            0 <= i < 3 ==> {
                &&& hex_text(digest.take(3))[2 * i] == text::hex_char(digest[i] as int / 16)
                &&& hex_text(digest.take(3))[2 * i + 1] == text::hex_char(digest[i] as int % 16)
            },
{
    reveal_with_fuel(hex_text, 4);
    let t = digest.take(3);
    assert(t.drop_last() =~= digest.take(2));
    assert(digest.take(2).drop_last() =~= digest.take(1));
    assert(digest.take(1).drop_last() =~= Seq::empty());
}

/// The number to try after collisions: the base, then the base with `-2`, `-3`
/// and so on.
pub open spec fn ws_id_candidate(base: Seq<char>, suffix: u32) -> Seq<char> {
    if suffix < 2 {
        base
    } else {
        base + "-"@ + text::decimal(suffix as nat)
    }
}

/// The number to try after collisions.
pub fn format_candidate(base: &str, suffix: u32) -> (r: String)
    ensures
        r@ == ws_id_candidate(base@, suffix),
        suffix < 2 ==> r@ == base@,
        suffix >= 2 ==> r@ == base@ + "-"@ + text::decimal(suffix as nat),
{
    if suffix < 2 {
        return base.to_owned();
    }
    let mut r = cat2(base, "-");
    push_decimal(&mut r, suffix as u64);
    r
}

proof fn lemma_decimal_differs(a: nat, b: nat)
    requires
        a != b,
    ensures
        text::decimal(a) != text::decimal(b),
    decreases a,
{
    let x = text::decimal(a);
    let y = text::decimal(b);
    if x == y {
        assert(x.last() == y.last());
        assert(x.drop_last() == y.drop_last());
        if a >= 10 && b >= 10 {
            assert(x.drop_last() =~= text::decimal(a / 10));
            assert(y.drop_last() =~= text::decimal(b / 10));
            assert(a % 10 == b % 10);
            lemma_decimal_differs(a / 10, b / 10);
        } else if a >= 10 {
            lemma_decimal_not_empty(a / 10);
            assert(x.drop_last() =~= text::decimal(a / 10));
        } else if b >= 10 {
            lemma_decimal_not_empty(b / 10);
            assert(y.drop_last() =~= text::decimal(b / 10));
        }
    }
}

proof fn lemma_decimal_not_empty(n: nat)
    ensures
        text::decimal(n).len() > 0,
{
}

/// No number is tried twice.
pub proof fn candidates_differ(base: Seq<char>, a: u32, b: u32)
    requires
        1 <= a < b,
    ensures
        ws_id_candidate(base, a) != ws_id_candidate(base, b),
{
    let y = ws_id_candidate(base, b);
    let stem = base + "-"@;
    assert(y.skip(stem.len() as int) =~= text::decimal(b as nat));
    if a >= 2 {
        let x = ws_id_candidate(base, a);
        assert(x.skip(stem.len() as int) =~= text::decimal(a as nat));
        lemma_decimal_differs(a as nat, b as nat);
    } else {
        lemma_decimal_not_empty(b as nat);
        assert(y.len() > base.len());
    }
}

// ---- init -----------------------------------------------------------------------
/// What taking a workspace under management has to do next.
#[derive(Clone, Debug)]
pub enum InitAction {
    /// Read where the path points to, if it is a link. Answer: the text.
    ReadLink(String),
    /// See whether the target of the link is there. Answer: the flag.
    StatTarget(String),
    /// See whether the number is managed. Answer: the flag.
    FindId(String),
    /// Load or rebuild the index of the workspace with this number, and manage
    /// it again. Answer: the flag is set.
    RecoverIndex(String),
    /// Remove the broken link. Answer: the flag, whatever came of it.
    RemoveLink(String),
    /// Resolve the path. Answer: the text.
    Canonicalize(String),
    /// See what the path is. Answer: whether it is a directory.
    Stat(String),
    /// See which workspace the path belongs to. Answer: the text of its number.
    FindByPath(String),
    /// See whether the copying tool is there. Answer: whether it is, or nothing
    /// where that cannot be told.
    CheckRsync,
    /// See whether the number is taken on disk. Answer: the flag.
    TryId(String),
    /// Create the workspace. Answer: the flag.
    Create { path: String, ws_id: String },
    /// Make and save the index, and manage the workspace. Answer: the flag.
    Finish { path: String, ws_id: String },
    /// The end: this is the answer.
    Reply(Response),
    /// The end: the failure of the last action is the answer.
    Fail,
}

/// What came of an action.
#[derive(Clone, Debug)]
pub enum InitEvent {
    Text(Option<String>),
    Flag(bool),
    Kind(Option<bool>),
}

#[derive(Clone, Debug)]
enum InitState {
    Link,
    Target(String),
    Managed(String),
    Recovering(String),
    Unlinking,
    Resolving,
    Checking(String),
    Owner(String),
    Tool(String),
    Naming { path: String, base: String, suffix: u32 },
    Creating { path: String, ws_id: String },
    Finishing { path: String, ws_id: String },
    Done,
}

/// Where the run stands.
pub ghost enum InitStage {
    Link,
    Target(Seq<char>),
    Managed(Seq<char>),
    Recovering(Seq<char>),
    Unlinking,
    Resolving,
    Checking(Seq<char>),
    Owner(Seq<char>),
    Tool(Seq<char>),
    /// The number with this suffix is being tried.
    Naming { path: Seq<char>, base: Seq<char>, suffix: u32 },
    Creating { path: Seq<char>, ws_id: Seq<char> },
    Finishing { path: Seq<char>, ws_id: Seq<char> },
    Done,
}

/// What is to be done, as a value.
pub ghost enum InitStep {
    ReadLink(Seq<char>),
    StatTarget(Seq<char>),
    FindId(Seq<char>),
    RecoverIndex(Seq<char>),
    RemoveLink(Seq<char>),
    Canonicalize(Seq<char>),
    Stat(Seq<char>),
    FindByPath(Seq<char>),
    CheckRsync,
    TryId(Seq<char>),
    Create { path: Seq<char>, ws_id: Seq<char> },
    Finish { path: Seq<char>, ws_id: Seq<char> },
    InitOk(Seq<char>),
    Refuse(ErrorCode, Seq<char>),
    Fail,
}

/// What came of an action, as a value.
pub ghost enum InitResult {
    Text(Option<Seq<char>>),
    Flag(bool),
    Kind(Option<bool>),
}

impl View for InitEvent {
    type V = InitResult;

    open spec fn view(&self) -> InitResult {
        match self {
            InitEvent::Text(Some(s)) => InitResult::Text(Some(s@)),
            InitEvent::Text(None) => InitResult::Text(None),
            InitEvent::Flag(b) => InitResult::Flag(*b),
            InitEvent::Kind(k) => InitResult::Kind(*k),
        }
    }
}

impl InitAction {
    /// The action does this.
    pub open spec fn does(self, step: InitStep) -> bool {
        match step {
            InitStep::ReadLink(p) => self matches InitAction::ReadLink(s) && s@ == p,
            InitStep::StatTarget(p) => self matches InitAction::StatTarget(s) && s@ == p,
            InitStep::FindId(p) => self matches InitAction::FindId(s) && s@ == p,
            InitStep::RecoverIndex(p) => self matches InitAction::RecoverIndex(s) && s@ == p,
            InitStep::RemoveLink(p) => self matches InitAction::RemoveLink(s) && s@ == p,
            InitStep::Canonicalize(p) => self matches InitAction::Canonicalize(s) && s@ == p,
            InitStep::Stat(p) => self matches InitAction::Stat(s) && s@ == p,
            InitStep::FindByPath(p) => self matches InitAction::FindByPath(s) && s@ == p,
            InitStep::CheckRsync => self is CheckRsync,
            InitStep::TryId(p) => self matches InitAction::TryId(s) && s@ == p,
            InitStep::Create { path, ws_id } => self matches InitAction::Create {
                path: p,
                ws_id: w,
            } && p@ == path && w@ == ws_id,
            InitStep::Finish { path, ws_id } => self matches InitAction::Finish {
                path: p,
                ws_id: w,
            } && p@ == path && w@ == ws_id,
            InitStep::InitOk(id) => self matches InitAction::Reply(
                Response::InitOk { ws_id },
            ) && ws_id@ == id,
            InitStep::Refuse(code, message) => self matches InitAction::Reply(r) && r.refuses(
                code,
                message,
            ),
            InitStep::Fail => self is Fail,
        }
    }
}

/// The surroundings of a run: the path that was asked for, without slashes at
/// its end, where the backend is mounted, and where it keeps its workspaces.
pub ghost struct InitPlace {
    pub workspace: Seq<char>,
    pub mount_path: Seq<char>,
    pub data_root: Seq<char>,
}

/// The answer to the last action is of the kind that was asked for, and numbers
/// have not run out.
pub open spec fn init_expects(stage: InitStage, r: InitResult) -> bool {
    match stage {
        InitStage::Link => r is Text,
        InitStage::Target(_) => r is Flag,
        InitStage::Managed(_) => r is Flag,
        InitStage::Recovering(_) => r is Flag,
        InitStage::Unlinking => r is Flag,
        InitStage::Resolving => r is Text,
        InitStage::Checking(_) => r is Kind,
        InitStage::Owner(_) => r is Text,
        InitStage::Tool(_) => r is Kind,
        InitStage::Naming { path, base, suffix } => r is Flag && suffix < u32::MAX,
        InitStage::Creating { .. } => r is Flag,
        InitStage::Finishing { .. } => r is Flag,
        InitStage::Done => false,
    }
}

/// The number of the workspace that a link of ours points to.
pub open spec fn linked_id(target: Seq<char>) -> Seq<char> {
    match paths::file_name(target) {
        Some(name) => name,
        None => Seq::empty(),
    }
}

/// The message for a path below the mount point.
pub open spec fn inside_mount_text(mount_path: Seq<char>, path: Seq<char>) -> Seq<char> {
    "path is inside mount_path ("@ + mount_path + "): "@ + path
}

/// What follows the answer to the last action.
pub open spec fn init_next(place: InitPlace, stage: InitStage, r: InitResult) -> (
    InitStage,
    InitStep,
) {
    match stage {
        // A link into our own data means that the workspace was managed before.
        InitStage::Link => match r {
            InitResult::Text(Some(target)) => if paths::lies_under(target, place.data_root) {
                (InitStage::Target(target), InitStep::StatTarget(target))
            } else {
                (InitStage::Resolving, InitStep::Canonicalize(place.workspace))
            },
            _ => (InitStage::Resolving, InitStep::Canonicalize(place.workspace)),
        },
        InitStage::Target(target) => if r == InitResult::Flag(true) {
            let id = linked_id(target);
            (InitStage::Managed(id), InitStep::FindId(id))
        } else {
            (InitStage::Unlinking, InitStep::RemoveLink(place.workspace))
        },
        InitStage::Managed(id) => if r == InitResult::Flag(true) {
            (InitStage::Done, InitStep::InitOk(id))
        } else {
            (InitStage::Recovering(id), InitStep::RecoverIndex(id))
        },
        InitStage::Recovering(id) => (InitStage::Done, InitStep::InitOk(id)),
        InitStage::Unlinking => (InitStage::Resolving, InitStep::Canonicalize(place.workspace)),
        InitStage::Resolving => match r {
            InitResult::Text(Some(path)) => (InitStage::Checking(path), InitStep::Stat(path)),
            _ => (
                InitStage::Done,
                InitStep::Refuse(
                    ErrorCode::InvalidPath,
                    "path does not exist: "@ + place.workspace,
                ),
            ),
        },
        InitStage::Checking(path) => match r {
            InitResult::Kind(Some(true)) => (InitStage::Owner(path), InitStep::FindByPath(path)),
            InitResult::Kind(Some(false)) => (
                InitStage::Done,
                InitStep::Refuse(ErrorCode::InvalidPath, "not a directory: "@ + path),
            ),
            _ => (
                InitStage::Done,
                InitStep::Refuse(ErrorCode::InvalidPath, "cannot stat path: "@ + path),
            ),
        },
        InitStage::Owner(path) => match r {
            InitResult::Text(Some(id)) => (InitStage::Done, InitStep::InitOk(id)),
            _ => if paths::lies_under(path, place.mount_path) {
                (
                    InitStage::Done,
                    InitStep::Refuse(
                        ErrorCode::InvalidPath,
                        inside_mount_text(place.mount_path, path),
                    ),
                )
            } else {
                (InitStage::Tool(path), InitStep::CheckRsync)
            },
        },
        InitStage::Tool(path) => match r {
            InitResult::Kind(Some(true)) => {
                let base = ws_id_base(path);
                (InitStage::Naming { path, base, suffix: 1 }, InitStep::TryId(base))
            },
            InitResult::Kind(Some(false)) => (
                InitStage::Done,
                InitStep::Refuse(
                    ErrorCode::InternalError,
                    "rsync is not installed or not in PATH"@,
                ),
            ),
            _ => (InitStage::Done, InitStep::Fail),
        },
        InitStage::Naming { path, base, suffix } => if r == InitResult::Flag(true) {
            let next = (suffix + 1) as u32;
            (
                InitStage::Naming { path, base, suffix: next },
                InitStep::TryId(ws_id_candidate(base, next)),
            )
        } else {
            let ws_id = ws_id_candidate(base, suffix);
            (InitStage::Creating { path, ws_id }, InitStep::Create { path, ws_id })
        },
        InitStage::Creating { path, ws_id } => if r == InitResult::Flag(true) {
            (InitStage::Finishing { path, ws_id }, InitStep::Finish { path, ws_id })
        } else {
            (InitStage::Done, InitStep::Fail)
        },
        InitStage::Finishing { path, ws_id } => if r == InitResult::Flag(true) {
            (InitStage::Done, InitStep::InitOk(ws_id))
        } else {
            (InitStage::Done, InitStep::Fail)
        },
        InitStage::Done => (InitStage::Done, InitStep::Fail),
    }
}

/// Taking one workspace under management.
pub struct InitRun {
    workspace: String,
    mount_path: String,
    data_root: String,
    state: InitState,
}

impl InitRun {
    pub closed spec fn place(&self) -> InitPlace {
        InitPlace {
            workspace: self.workspace@,
            mount_path: self.mount_path@,
            data_root: self.data_root@,
        }
    }

    /// Where the run stands.
    pub closed spec fn stage(&self) -> InitStage {
        match self.state {
            InitState::Link => InitStage::Link,
            InitState::Target(s) => InitStage::Target(s@),
            InitState::Managed(s) => InitStage::Managed(s@),
            InitState::Recovering(s) => InitStage::Recovering(s@),
            InitState::Unlinking => InitStage::Unlinking,
            InitState::Resolving => InitStage::Resolving,
            InitState::Checking(s) => InitStage::Checking(s@),
            InitState::Owner(s) => InitStage::Owner(s@),
            InitState::Tool(s) => InitStage::Tool(s@),
            InitState::Naming { path, base, suffix } => InitStage::Naming {
                path: path@,
                base: base@,
                suffix,
            },
            InitState::Creating { path, ws_id } => InitStage::Creating {
                path: path@,
                ws_id: ws_id@,
            },
            InitState::Finishing { path, ws_id } => InitStage::Finishing {
                path: path@,
                ws_id: ws_id@,
            },
            InitState::Done => InitStage::Done,
        }
    }

    /// A run for a path, and its first action. Links into the backend's own
    /// data are looked at before the path is resolved.
    pub fn init(workspace: &str, mount_path: &str, data_root: &str) -> (r: (Self, InitAction))
        ensures
            r.0.place() == (InitPlace {
                workspace: without_slashes(workspace@),
                mount_path: mount_path@,
                data_root: data_root@,
            }),
            r.0.stage() == InitStage::Link,
            r.1.does(InitStep::ReadLink(without_slashes(workspace@))),
    {
        let path = strip_trailing_slashes(workspace);
        let action = InitAction::ReadLink(path.clone());
        (
            InitRun {
                workspace: path,
                mount_path: mount_path.to_owned(),
                data_root: data_root.to_owned(),
                state: InitState::Link,
            },
            action,
        )
    }

    /// Takes in what came of the last action. Returns the next one.
    pub fn advance(&mut self, event: InitEvent) -> (r: InitAction)
        requires
            init_expects(old(self).stage(), event@),
        ensures
            final(self).place() == old(self).place(),
            final(self).stage() == init_next(old(self).place(), old(self).stage(), event@).0,
            r.does(init_next(old(self).place(), old(self).stage(), event@).1),
    {
        let mut state = InitState::Done;
        std::mem::swap(&mut state, &mut self.state);
        let (next, action) = self.follow(state, event);
        self.state = next;
        action
    }

    fn resolve(&self) -> (r: (InitState, InitAction))
        ensures
            r.0 is Resolving,
            r.1.does(InitStep::Canonicalize(self.place().workspace)),
    {
        (InitState::Resolving, InitAction::Canonicalize(self.workspace.clone()))
    }

    fn follow(&self, state: InitState, event: InitEvent) -> (r: (InitState, InitAction))
        requires
            init_expects((InitRun { state, ..*self }).stage(), event@),
        ensures
            ({
                let before = InitRun { state, ..*self };
                let after = InitRun { state: r.0, ..*self };
                let expected = init_next(self.place(), before.stage(), event@);
                after.stage() == expected.0 && r.1.does(expected.1)
            }),
    {
        match (state, event) {
            (InitState::Link, InitEvent::Text(Some(target))) => {
                if is_under(target.as_str(), self.data_root.as_str()) {
                    let action = InitAction::StatTarget(target.clone());
                    (InitState::Target(target), action)
                } else {
                    self.resolve()
                }
            },
            (InitState::Link, _) => self.resolve(),
            (InitState::Target(target), InitEvent::Flag(there)) => {
                if there {
                    let id = match file_name_of(target.as_str()) {
                        Some(name) => name,
                        None => String::new(),
                    };
                    assert(id@ == linked_id(target@));
                    let action = InitAction::FindId(id.clone());
                    (InitState::Managed(id), action)
                } else {
                    (InitState::Unlinking, InitAction::RemoveLink(self.workspace.clone()))
                }
            },
            (InitState::Managed(id), InitEvent::Flag(managed)) => {
                if managed {
                    (InitState::Done, InitAction::Reply(Response::InitOk { ws_id: id }))
                } else {
                    let action = InitAction::RecoverIndex(id.clone());
                    (InitState::Recovering(id), action)
                }
            },
            (InitState::Recovering(id), _) => (
                InitState::Done,
                InitAction::Reply(Response::InitOk { ws_id: id }),
            ),
            (InitState::Unlinking, _) => self.resolve(),
            (InitState::Resolving, InitEvent::Text(Some(path))) => {
                let action = InitAction::Stat(path.clone());
                (InitState::Checking(path), action)
            },
            (InitState::Resolving, _) => (
                InitState::Done,
                InitAction::Reply(
                    error_resp(
                        ErrorCode::InvalidPath,
                        cat2("path does not exist: ", self.workspace.as_str()),
                    ),
                ),
            ),
            (InitState::Checking(path), InitEvent::Kind(Some(true))) => {
                let action = InitAction::FindByPath(path.clone());
                (InitState::Owner(path), action)
            },
            (InitState::Checking(path), InitEvent::Kind(Some(false))) => (
                InitState::Done,
                InitAction::Reply(
                    error_resp(ErrorCode::InvalidPath, cat2("not a directory: ", path.as_str())),
                ),
            ),
            (InitState::Checking(path), _) => (
                InitState::Done,
                InitAction::Reply(
                    error_resp(ErrorCode::InvalidPath, cat2("cannot stat path: ", path.as_str())),
                ),
            ),
            (InitState::Owner(_path), InitEvent::Text(Some(id))) => (
                InitState::Done,
                InitAction::Reply(Response::InitOk { ws_id: id }),
            ),
            (InitState::Owner(path), _) => {
                if is_under(path.as_str(), self.mount_path.as_str()) {
                    let mut m = cat3(
                        "path is inside mount_path (",
                        self.mount_path.as_str(),
                        "): ",
                    );
                    m.append(path.as_str());
                    (
                        InitState::Done,
                        InitAction::Reply(error_resp(ErrorCode::InvalidPath, m)),
                    )
                } else {
                    (InitState::Tool(path), InitAction::CheckRsync)
                }
            },
            (InitState::Tool(path), InitEvent::Kind(Some(true))) => {
                let base = generate_ws_id_base(path.as_str());
                let action = InitAction::TryId(base.clone());
                (InitState::Naming { path, base, suffix: 1 }, action)
            },
            (InitState::Tool(_path), InitEvent::Kind(Some(false))) => (
                InitState::Done,
                InitAction::Reply(
                    error_resp(
                        ErrorCode::InternalError,
                        "rsync is not installed or not in PATH".to_owned(),
                    ),
                ),
            ),
            (InitState::Tool(_path), _) => (InitState::Done, InitAction::Fail),
            (InitState::Naming { path, base, suffix }, InitEvent::Flag(taken)) => {
                if taken {
                    let next: u32 = suffix + 1;
                    let action = InitAction::TryId(format_candidate(base.as_str(), next));
                    (InitState::Naming { path, base, suffix: next }, action)
                } else {
                    let ws_id = format_candidate(base.as_str(), suffix);
                    let action = InitAction::Create { path: path.clone(), ws_id: ws_id.clone() };
                    (InitState::Creating { path, ws_id }, action)
                }
            },
            (InitState::Creating { path, ws_id }, InitEvent::Flag(created)) => {
                if created {
                    let action = InitAction::Finish { path: path.clone(), ws_id: ws_id.clone() };
                    (InitState::Finishing { path, ws_id }, action)
                } else {
                    (InitState::Done, InitAction::Fail)
                }
            },
            (InitState::Finishing { path: _path, ws_id }, InitEvent::Flag(finished)) => {
                if finished {
                    (InitState::Done, InitAction::Reply(Response::InitOk { ws_id }))
                } else {
                    (InitState::Done, InitAction::Fail)
                }
            },
            (_, _) => (InitState::Done, InitAction::Fail),
        }
    }
}

/// The stage and the action after a run of answers.
pub open spec fn init_after(place: InitPlace, answers: Seq<InitResult>) -> (InitStage, InitStep)
    decreases answers.len(),
{
    if answers.len() == 0 {
        (InitStage::Link, InitStep::ReadLink(place.workspace))
    } else {
        init_next(place, init_after(place, answers.drop_last()).0, answers.last())
    }
}

/// Whatever the answers, no workspace is created below the mount point.
pub proof fn nothing_is_created_inside_the_mount(
    place: InitPlace,
    answers: Seq<InitResult>,
    path: Seq<char>,
    ws_id: Seq<char>,
)
    requires
        init_after(place, answers).1 == (InitStep::Create { path, ws_id }),
    ensures
        !paths::lies_under(path, place.mount_path),
{
    lemma_stage_is_outside(place, answers);
    if answers.len() > 0 {
        lemma_stage_is_outside(place, answers.drop_last());
    }
}

/// The path that a run is about to create a workspace for.
spec fn stage_path(stage: InitStage) -> Option<Seq<char>> {
    match stage {
        InitStage::Tool(path) => Some(path),
        InitStage::Naming { path, base, suffix } => Some(path),
        InitStage::Creating { path, ws_id } => Some(path),
        InitStage::Finishing { path, ws_id } => Some(path),
        _ => None,
    }
}

proof fn lemma_stage_is_outside(place: InitPlace, answers: Seq<InitResult>)
    ensures
        stage_path(init_after(place, answers).0) matches Some(path) ==> !paths::lies_under(
            path,
            place.mount_path,
        ),
    decreases answers.len(),
{
    if answers.len() > 0 {
        lemma_stage_is_outside(place, answers.drop_last());
    }
}

/// Asking again for a workspace that is a link into our own data and managed is
/// answered with its number, and nothing is changed.
pub proof fn asking_again_is_harmless(place: InitPlace, target: Seq<char>)
    requires
        paths::lies_under(target, place.data_root),
    ensures
        init_after(
            place,
            seq![
                InitResult::Text(Some(target)),
                InitResult::Flag(true),
                InitResult::Flag(true),
            ],
        ) == (InitStage::Done, InitStep::InitOk(linked_id(target))),
        init_after(place, seq![InitResult::Text(Some(target)), InitResult::Flag(true)]).1
            == InitStep::FindId(linked_id(target)),
        init_after(place, seq![InitResult::Text(Some(target))]).1 == InitStep::StatTarget(target),
{
    let a = seq![InitResult::Text(Some(target))];
    let b = seq![InitResult::Text(Some(target)), InitResult::Flag(true)];
    let c = seq![
        InitResult::Text(Some(target)),
        InitResult::Flag(true),
        InitResult::Flag(true),
    ];
    assert(a.drop_last() =~= Seq::empty());
    assert(b.drop_last() =~= a);
    assert(c.drop_last() =~= b);
    assert(init_after(place, Seq::empty()).0 == InitStage::Link);
    assert(init_after(place, a).0 == InitStage::Target(target));
    assert(init_after(place, b).0 == InitStage::Managed(linked_id(target)));
}

/// Asking again for a path that is managed already, and is no link into our own
/// data, is answered with the number of its workspace. The path is only looked
/// at: nothing is created, wherever it lies.
pub proof fn asking_again_for_a_path_is_harmless(
    place: InitPlace,
    link: Option<Seq<char>>,
    path: Seq<char>,
    id: Seq<char>,
)
    requires
        link matches Some(target) ==> !paths::lies_under(target, place.data_root),
    ensures
        ({
            let answers = seq![
                InitResult::Text(link),
                InitResult::Text(Some(path)),
                InitResult::Kind(Some(true)),
                InitResult::Text(Some(id)),
            ];
            &&& init_after(place, answers) == (InitStage::Done, InitStep::InitOk(id))
            &&& init_after(place, answers.take(3)).1 == InitStep::FindByPath(path)
            &&& init_after(place, answers.take(2)).1 == InitStep::Stat(path)
            &&& init_after(place, answers.take(1)).1 == InitStep::Canonicalize(place.workspace)
            &&& init_after(place, answers.take(0)).1 == InitStep::ReadLink(place.workspace)
        }),
{
    let answers = seq![
        InitResult::Text(link),
        InitResult::Text(Some(path)),
        InitResult::Kind(Some(true)),
        InitResult::Text(Some(id)),
    ];
    assert(answers.drop_last() =~= answers.take(3));
    assert(answers.take(3).drop_last() =~= answers.take(2));
    assert(answers.take(2).drop_last() =~= answers.take(1));
    assert(answers.take(1).drop_last() =~= answers.take(0));
    assert(init_after(place, answers.take(0)).0 == InitStage::Link);
    assert(init_after(place, answers.take(1)).0 == InitStage::Resolving);
    assert(init_after(place, answers.take(2)).0 == InitStage::Checking(path));
    assert(init_after(place, answers.take(3)).0 == InitStage::Owner(path));
}

/// An action does a step exactly where it is of the same kind and about the same
/// things.
pub proof fn actions_are_what_they_are_called(action: InitAction, step: InitStep)
    ensures
        step is ReadLink && action.does(step) ==> action is ReadLink
            && action->ReadLink_0@ == step->ReadLink_0,
        step is StatTarget && action.does(step) ==> action is StatTarget
            && action->StatTarget_0@ == step->StatTarget_0,
        step is FindId && action.does(step) ==> action is FindId
            && action->FindId_0@ == step->FindId_0,
        step is RecoverIndex && action.does(step) ==> action is RecoverIndex
            && action->RecoverIndex_0@ == step->RecoverIndex_0,
        step is RemoveLink && action.does(step) ==> action is RemoveLink
            && action->RemoveLink_0@ == step->RemoveLink_0,
        step is Canonicalize && action.does(step) ==> action is Canonicalize
            && action->Canonicalize_0@ == step->Canonicalize_0,
        step is Stat && action.does(step) ==> action is Stat && action->Stat_0@ == step->Stat_0,
        step is FindByPath && action.does(step) ==> action is FindByPath
            && action->FindByPath_0@ == step->FindByPath_0,
        step is TryId && action.does(step) ==> action is TryId && action->TryId_0@ == step->TryId_0,
        step is CheckRsync && action.does(step) ==> action is CheckRsync,
        step is Fail && action.does(step) ==> action is Fail,
        step is Create && action.does(step) ==> {
            &&& action is Create
            &&& action->Create_path@ == step->Create_path
            &&& action->Create_ws_id@ == step->Create_ws_id
        },
        step is Finish && action.does(step) ==> {
            &&& action is Finish
            &&& action->Finish_path@ == step->Finish_path
            &&& action->Finish_ws_id@ == step->Finish_ws_id
        },
        step is InitOk && action.does(step) ==> action is Reply && action->Reply_0 is InitOk
            && action->Reply_0->InitOk_ws_id@ == step->InitOk_0,
        step is Refuse && action.does(step) ==> action is Reply && action->Reply_0 is Error
            && action->Reply_0->code == step->Refuse_0 && action->Reply_0->message@
            == step->Refuse_1,
{
}

/// The stage and the action after more answers.
proof fn lemma_one_more(place: InitPlace, answers: Seq<InitResult>, r: InitResult)
    ensures
        init_after(place, answers.push(r)) == init_next(place, init_after(place, answers).0, r),
{
    assert(answers.push(r).drop_last() =~= answers);
}

/// The answers of a path that is no link into our own data: what it links to, and
/// what it resolves to.
pub open spec fn plain_start(link: Option<Seq<char>>, path: Option<Seq<char>>) -> Seq<InitResult> {
    Seq::<InitResult>::empty().push(InitResult::Text(link)).push(InitResult::Text(path))
}

/// A path that cannot be resolved, or is no directory, is refused with what is
/// wrong with it.
pub proof fn bad_paths_are_refused(place: InitPlace, link: Option<Seq<char>>, path: Seq<char>)
    requires
        link is Some ==> !paths::lies_under(link->Some_0, place.data_root),
    ensures
        init_after(place, plain_start(link, None)) == (
            InitStage::Done,
            InitStep::Refuse(ErrorCode::InvalidPath, "path does not exist: "@ + place.workspace),
        ),
        init_after(place, plain_start(link, Some(path)).push(InitResult::Kind(None))) == (
            InitStage::Done,
            InitStep::Refuse(ErrorCode::InvalidPath, "cannot stat path: "@ + path),
        ),
        init_after(place, plain_start(link, Some(path)).push(InitResult::Kind(Some(false)))) == (
            InitStage::Done,
            InitStep::Refuse(ErrorCode::InvalidPath, "not a directory: "@ + path),
        ),
{
    let none = Seq::<InitResult>::empty();
    let linked = none.push(InitResult::Text(link));
    lemma_one_more(place, none, InitResult::Text(link));
    lemma_one_more(place, linked, InitResult::Text(None));
    lemma_one_more(place, linked, InitResult::Text(Some(path)));
    let resolved = plain_start(link, Some(path));
    lemma_one_more(place, resolved, InitResult::Kind(None));
    lemma_one_more(place, resolved, InitResult::Kind(Some(false)));
}

/// The answers of a directory that is not managed.
pub open spec fn new_directory(link: Option<Seq<char>>, path: Seq<char>) -> Seq<InitResult> {
    plain_start(link, Some(path)).push(InitResult::Kind(Some(true))).push(InitResult::Text(None))
}

proof fn lemma_new_directory(place: InitPlace, link: Option<Seq<char>>, path: Seq<char>)
    requires
        link is Some ==> !paths::lies_under(link->Some_0, place.data_root),
    ensures
        init_after(place, plain_start(link, Some(path)).push(InitResult::Kind(Some(true)))).0
            == InitStage::Owner(path),
        init_after(place, new_directory(link, path)) == init_next(
            place,
            InitStage::Owner(path),
            InitResult::Text(None),
        ),
{
    let none = Seq::<InitResult>::empty();
    let linked = none.push(InitResult::Text(link));
    lemma_one_more(place, none, InitResult::Text(link));
    lemma_one_more(place, linked, InitResult::Text(Some(path)));
    let resolved = plain_start(link, Some(path));
    lemma_one_more(place, resolved, InitResult::Kind(Some(true)));
    lemma_one_more(
        place,
        resolved.push(InitResult::Kind(Some(true))),
        InitResult::Text(None),
    );
}

/// A directory below the mount point is refused, and no other is; without the
/// copying tool nothing goes on.
pub proof fn only_what_lies_outside_goes_on(
    place: InitPlace,
    link: Option<Seq<char>>,
    path: Seq<char>,
)
    requires
        link is Some ==> !paths::lies_under(link->Some_0, place.data_root),
    ensures
        paths::lies_under(path, place.mount_path) ==> init_after(place, new_directory(link, path))
            == (
            InitStage::Done,
            InitStep::Refuse(
                ErrorCode::InvalidPath,
                "path is inside mount_path ("@ + place.mount_path + "): "@ + path,
            ),
        ),
        !paths::lies_under(path, place.mount_path) ==> {
            &&& init_after(place, new_directory(link, path)).1 == InitStep::CheckRsync
            &&& init_after(place, new_directory(link, path).push(InitResult::Kind(Some(false)))) == (
                InitStage::Done,
                InitStep::Refuse(
                    ErrorCode::InternalError,
                    "rsync is not installed or not in PATH"@,
                ),
            )
            &&& init_after(place, new_directory(link, path).push(InitResult::Kind(None))) == (
                InitStage::Done,
                InitStep::Fail,
            )
        },
{
    lemma_new_directory(place, link, path);
    lemma_one_more(place, new_directory(link, path), InitResult::Kind(Some(false)));
    lemma_one_more(place, new_directory(link, path), InitResult::Kind(None));
}

/// The answers of a new directory for which the first `taken` numbers are taken.
pub open spec fn names_taken(link: Option<Seq<char>>, path: Seq<char>, taken: nat) -> Seq<
    InitResult,
>
    decreases taken,
{
    if taken == 0 {
        new_directory(link, path).push(InitResult::Kind(Some(true)))
    } else {
        names_taken(link, path, (taken - 1) as nat).push(InitResult::Flag(true))
    }
}

/// A workspace gets the first number that is free: the one of its path, then that
/// one with -2, -3 and so on. It is created under it, then finished, and only then
/// answered.
pub proof fn first_free_number_is_used(
    place: InitPlace,
    link: Option<Seq<char>>,
    path: Seq<char>,
    taken: nat,
)
    requires
        link is Some ==> !paths::lies_under(link->Some_0, place.data_root),
        !paths::lies_under(path, place.mount_path),
        taken < u32::MAX,
    ensures
        ({
            let id = if taken == 0 {
                ws_id_base(path)
            } else {
                ws_id_base(path) + "-"@ + text::decimal(taken + 1)
            };
            let tried = names_taken(link, path, taken);
            let free = tried.push(InitResult::Flag(false));
            let made = free.push(InitResult::Flag(true));
            &&& init_after(place, tried).1 == InitStep::TryId(id)
            &&& init_after(place, free).1 == (InitStep::Create { path, ws_id: id })
            &&& init_after(place, made).1 == (InitStep::Finish { path, ws_id: id })
            &&& init_after(place, free.push(InitResult::Flag(false))).1 == InitStep::Fail
            &&& init_after(place, made.push(InitResult::Flag(true))) == (
                InitStage::Done,
                InitStep::InitOk(id),
            )
            &&& init_after(place, made.push(InitResult::Flag(false))) == (
                InitStage::Done,
                InitStep::Fail,
            )
        }),
{
    lemma_naming(place, link, path, taken);
    let tried = names_taken(link, path, taken);
    let free = tried.push(InitResult::Flag(false));
    let made = free.push(InitResult::Flag(true));
    lemma_one_more(place, tried, InitResult::Flag(false));
    lemma_one_more(place, free, InitResult::Flag(true));
    lemma_one_more(place, free, InitResult::Flag(false));
    lemma_one_more(place, made, InitResult::Flag(true));
    lemma_one_more(place, made, InitResult::Flag(false));
}

proof fn lemma_naming(place: InitPlace, link: Option<Seq<char>>, path: Seq<char>, taken: nat)
    requires
        link is Some ==> !paths::lies_under(link->Some_0, place.data_root),
        !paths::lies_under(path, place.mount_path),
        taken < u32::MAX,
    ensures
        init_after(place, names_taken(link, path, taken)).0 == (InitStage::Naming {
            path,
            base: ws_id_base(path),
            suffix: (taken + 1) as u32,
        }),
        init_after(place, names_taken(link, path, taken)).1 == InitStep::TryId(
            ws_id_candidate(ws_id_base(path), (taken + 1) as u32),
        ),
    decreases taken,
{
    if taken == 0 {
        lemma_new_directory(place, link, path);
        lemma_one_more(place, new_directory(link, path), InitResult::Kind(Some(true)));
    } else {
        lemma_naming(place, link, path, (taken - 1) as nat);
        lemma_one_more(
            place,
            names_taken(link, path, (taken - 1) as nat),
            InitResult::Flag(true),
        );
    }
}

/// A link into our own data is followed: where its target is there but not managed,
/// the workspace of that name is managed again; where the target is gone, the link
/// is removed and the path is taken as it then is.
pub proof fn links_of_ours_are_followed(
    place: InitPlace,
    target: Seq<char>,
    removed: bool,
    saved: bool,
)
    requires
        paths::lies_under(target, place.data_root),
    ensures
        ({
            let linked = Seq::<InitResult>::empty().push(InitResult::Text(Some(target)));
            let id = match paths::file_name(target) {
                Some(name) => name,
                None => Seq::empty(),
            };
            let there = linked.push(InitResult::Flag(true)).push(InitResult::Flag(false));
            let gone = linked.push(InitResult::Flag(false));
            &&& init_after(place, there).1 == InitStep::RecoverIndex(id)
            &&& init_after(place, there.push(InitResult::Flag(saved))) == (
                InitStage::Done,
                InitStep::InitOk(id),
            )
            &&& init_after(place, gone).1 == InitStep::RemoveLink(place.workspace)
            &&& init_after(place, gone.push(InitResult::Flag(removed))) == init_after(
                place,
                Seq::<InitResult>::empty().push(InitResult::Text(None)),
            )
            &&& init_after(place, gone.push(InitResult::Flag(removed))).1
                == InitStep::Canonicalize(place.workspace)
        }),
{
    let none = Seq::<InitResult>::empty();
    let linked = none.push(InitResult::Text(Some(target)));
    lemma_one_more(place, none, InitResult::Text(Some(target)));
    lemma_one_more(place, none, InitResult::Text(None));
    lemma_one_more(place, linked, InitResult::Flag(true));
    lemma_one_more(place, linked, InitResult::Flag(false));
    let there = linked.push(InitResult::Flag(true)).push(InitResult::Flag(false));
    lemma_one_more(place, linked.push(InitResult::Flag(true)), InitResult::Flag(false));
    lemma_one_more(place, there, InitResult::Flag(saved));
    lemma_one_more(place, linked.push(InitResult::Flag(false)), InitResult::Flag(removed));
}

// ---- indexes --------------------------------------------------------------------
/// Nothing was loaded, or an index without snapshots.
pub open spec fn is_bare(loaded: Option<SnapshotIndex>) -> bool {
    loaded matches Some(i) ==> i.snapshots.order().len() == 0
}

/// Whether the index of a workspace that is managed again has to be rebuilt from
/// disk.
pub fn needs_rebuild(loaded: &Option<SnapshotIndex>) -> (r: bool)
    ensures
        r == is_bare(*loaded),
        r <==> loaded is None || loaded->Some_0.snapshots.order().len() == 0,
{
    match loaded {
        Some(i) => i.snapshots.len() == 0,
        None => true,
    }
}

/// The index of a workspace that is managed again: the one that was loaded, or
/// a new one; where it holds no snapshot and the one rebuilt from disk does,
/// that one, which is then to be saved.
pub fn recovered_index(
    loaded: Option<SnapshotIndex>,
    rebuilt: Option<SnapshotIndex>,
    path: &str,
) -> (r: (SnapshotIndex, bool))
    ensures
        if is_bare(loaded) && rebuilt is Some && rebuilt->Some_0.snapshots.order().len() > 0 {
            r == (rebuilt->Some_0, true)
        } else {
            &&& !r.1
            &&& loaded matches Some(i) ==> r.0 == i
            &&& loaded is None ==> is_new_index(r.0, path@)
        },
{
    let bare: bool = needs_rebuild(&loaded);
    let index = match loaded {
        Some(i) => i,
        None => SnapshotIndex::new(path.to_owned()),
    };
    if bare {
        match rebuilt {
            Some(i) => {
                if i.snapshots.len() > 0 {
                    return (i, true);
                }
            },
            None => {},
        }
    }
    (index, false)
}

/// An index without snapshots for a path.
pub open spec fn is_new_index(idx: SnapshotIndex, path: Seq<char>) -> bool {
    &&& idx.wf()
    &&& idx.workspace_path@ == path
    &&& idx.snapshots@ == Map::<Seq<char>, SnapshotMeta>::empty()
    &&& idx.snapshots.order().len() == 0
}

/// The index of a new workspace: what was found on disk, where that holds
/// snapshots, else a new one.
pub fn initial_index(rebuilt: Option<SnapshotIndex>, path: &str) -> (r: SnapshotIndex)
    ensures
        if rebuilt is Some && rebuilt->Some_0.snapshots.order().len() > 0 {
            r == rebuilt->Some_0
        } else {
            is_new_index(r, path@)
        },
{
    match rebuilt {
        Some(i) => {
            if i.snapshots.len() > 0 {
                return i;
            }
        },
        None => {},
    }
    SnapshotIndex::new(path.to_owned())
}

// ---- delete ---------------------------------------------------------------------
/// A deletion that may be carried out.
#[derive(Clone, Debug)]
pub struct DeletePlan {
    pub ws_id: String,
    pub snapshot_id: String,
}

/// Whether a snapshot may be deleted, and which one is meant. A pinned one is
/// only deleted with `force`.
pub fn delete_plan(
    ws: Option<&Workspace>,
    workspace: &str,
    snapshot_id: &str,
    force: bool,
) -> (r: Result<DeletePlan, Response>)
    requires
        ws matches Some(w) ==> w.wf(),
    ensures
        match ws {
            None => r is Err && r->Err_0.refuses(
                ErrorCode::WorkspaceNotFound,
                protocol::no_workspace_text(workspace@),
            ),
            Some(w) => match w.index.resolves(snapshot_id@) {
                Err(e) => r is Err && r->Err_0.refuses(
                    ErrorCode::SnapshotNotFound,
                    protocol::unresolved_text(snapshot_id@, e),
                ),
                Ok(id) => if w.index.snapshots@[id].pinned && !force {
                    r is Err && r->Err_0.refuses(
                        ErrorCode::ConfirmationRequired,
                        "快照已标记为 pinned，使用 --force 确认删除"@,
                    )
                } else {
                    r matches Ok(plan) && plan.ws_id@ == w.ws_id@ && plan.snapshot_id@ == id
                },
            },
        },
{
    let w = match ws {
        Some(w) => w,
        None => {
            return Err(workspace_not_found(workspace));
        },
    };
    match w.index.resolve_by_prefix(snapshot_id) {
        Err(e) => Err(snapshot_resolve_error_response(snapshot_id, e)),
        Ok((id, meta)) => {
            if meta.pinned && !force {
                return Err(
                    error_resp(
                        ErrorCode::ConfirmationRequired,
                        "快照已标记为 pinned，使用 --force 确认删除".to_owned(),
                    ),
                );
            }
            Ok(DeletePlan { ws_id: w.ws_id.clone(), snapshot_id: id.to_owned() })
        },
    }
}

/// Takes a deleted snapshot out of the index.
pub fn delete_done(idx: &mut SnapshotIndex, plan: DeletePlan) -> (r: Response)
    requires
        old(idx).wf(),
    ensures
        final(idx).wf(),
        final(idx).workspace_path == old(idx).workspace_path,
        final(idx).snapshots@ == old(idx).snapshots@.remove(plan.snapshot_id@),
        r == (Response::DeleteOk { target: plan.snapshot_id }),
{
    let _gone = idx.snapshots.remove(plan.snapshot_id.as_str());
    Response::DeleteOk { target: plan.snapshot_id }
}

// ---- recover --------------------------------------------------------------------
/// A workspace that is to be turned back into a plain directory.
#[derive(Clone, Debug)]
pub struct RecoverPlan {
    pub ws_id: String,
    pub path: String,
}

/// Which workspace is to be turned back into a plain directory.
pub fn recover_plan(ws: Option<&Workspace>, workspace: &str) -> (r: Result<RecoverPlan, Response>)
    ensures
        match ws {
            None => r is Err && r->Err_0.refuses(
                ErrorCode::WorkspaceNotFound,
                protocol::no_workspace_text(workspace@),
            ),
            Some(w) => r matches Ok(plan) && plan.ws_id@ == w.ws_id@ && plan.path@ == w.path@,
        },
{
    match ws {
        None => Err(workspace_not_found(workspace)),
        Some(w) => Ok(RecoverPlan { ws_id: w.ws_id.clone(), path: w.path.clone() }),
    }
}

/// The answer once a workspace has been turned back.
pub fn recover_done(plan: RecoverPlan) -> (r: Response)
    ensures
        r == (Response::RecoverOk { workspace: plan.path }),
{
    Response::RecoverOk { workspace: plan.path }
}

} // verus!
