//! The dispatcher's decisions: what each message does to the session and
//! which effects the surrounding loop must carry out.

use vstd::prelude::*;
use crate::message::{
    ChangeParams, ChangeEvent, Method, Notification, PositionParams, ReferenceParams, Request,
    ServerMessage,
};
use crate::reply::{Response, Reply, initialize_reply, is_advertised};
use crate::resolve::{Span, path_of_uri, uri_path};

verus! {

/// How urgently the build queue should run a build.
#[derive(Debug, Clone, Copy, PartialEq, Eq, Structural)]
pub enum BuildPriority {
    Immediate,
    Normal,
}

/// What the build queue answered to a build request.
#[derive(Debug, Clone, Copy, PartialEq, Eq, Structural)]
pub enum BuildOutcome {
    Success,
    Failure,
    Squashed,
    Error,
}

/// Whether the analysis store must reload after a build that ended so: only
/// a build that ran, well or not, produced new data.
pub fn needs_reload(outcome: BuildOutcome) -> (r: bool)
    ensures
        r == (outcome == BuildOutcome::Success || outcome == BuildOutcome::Failure),
{
    match outcome {
        BuildOutcome::Success | BuildOutcome::Failure => true,
        BuildOutcome::Squashed | BuildOutcome::Error => false,
    }
}

/// One edit for the file overlay.
#[derive(Debug, PartialEq, Eq)]
pub struct FileChange {
    pub span: Span,
    pub text: String,
}

/// Something the surrounding loop must do, in order.
#[derive(Debug)]
pub enum Effect {
    /// Send this reply.
    Reply(Response),
    /// Ask the build queue to build this project.
    Build(String, BuildPriority),
    /// Apply these edits to the file overlay, as one batch.
    ApplyChanges(Vec<FileChange>),
    /// Run a hover query under the deadline, then send `hover_reply`.
    Hover(u64, PositionParams),
    /// Run a definition query under the deadline, then send `goto_def_reply`.
    GotoDef(u64, PositionParams),
    /// Run a references query under the deadline, then send `find_all_refs_reply`.
    FindAllRef(u64, ReferenceParams),
    /// Stop reading messages.
    Exit,
}

/// The dispatcher's state.
#[derive(Debug)]
pub struct Session {
    /// The project root given by `initialize`; once set, it is never cleared.
    pub current_project: Option<String>,
}

/// `c` is the overlay edit for event `e` of the file at `path`.
pub open spec fn is_change_for(c: FileChange, path: Seq<char>, e: ChangeEvent) -> bool {
    &&& c.span.file_name@ == path
    &&& c.span.line_start == e.range.start.line
    &&& c.span.column_start == e.range.start.character
    &&& c.span.line_end == e.range.end.line
    &&& c.span.column_end == e.range.end.character
    &&& c.text == e.text
}

pub open spec fn changes_for(cs: Seq<FileChange>, params: ChangeParams) -> bool {
    let events = params.content_changes@;
    let path = uri_path(params.text_document.uri@);
    cs.len() == events.len() && forall|i: int|
        0 <= i < cs.len() ==> is_change_for(#[trigger] cs[i], path, events[i])
}

/// The project path that a build after an edit is asked for: the current
/// project, or the empty path where none is set.
pub open spec fn project_path(s: Session) -> Seq<char> {
    match s.current_project {
        Some(p) => p@,
        None => Seq::empty(),
    }
}

/// The step of the dispatcher: from state `s`, message `m` leads to state
/// `t` with effects `e`.
pub open spec fn handles(s: Session, m: ServerMessage, t: Session, e: Seq<Effect>) -> bool {
    match m {
        ServerMessage::Request(Request { id, method }) => match method {
            Method::Shutdown => t == s && e.len() == 1 && e[0] matches Effect::Exit,
            Method::Initialize(p) => {
                &&& t.current_project == Some(p.root_path)
                &&& e.len() == 2
                &&& e[0] matches Effect::Reply(r) && r.id == id && (r.body matches Ok(
                    Reply::Capabilities(c),
                ) && is_advertised(c))
                &&& e[1] matches Effect::Build(path, prio) && path == p.root_path && prio
                    == BuildPriority::Immediate
            },
            Method::Hover(p) => t == s && e == seq![Effect::Hover(id, p)],
            Method::GotoDef(p) => t == s && e == seq![Effect::GotoDef(id, p)],
            Method::FindAllRef(p) => t == s && e == seq![Effect::FindAllRef(id, p)],
        },
        ServerMessage::Notification(Notification::CancelRequest(_)) => t == s && e.len() == 0,
        ServerMessage::Notification(Notification::Change(params)) => {
            &&& t == s
            &&& e.len() == 2
            &&& e[0] matches Effect::ApplyChanges(cs) && changes_for(cs@, params)
            &&& e[1] matches Effect::Build(path, prio) && path@ == project_path(s) && prio
                == BuildPriority::Normal
        },
    }
}

fn change_for(path: &String, e: &ChangeEvent) -> (r: FileChange)
    ensures
        is_change_for(r, path@, *e),
{
    FileChange {
        span: Span {
            file_name: path.clone(),
            line_start: e.range.start.line,
            column_start: e.range.start.character,
            line_end: e.range.end.line,
            column_end: e.range.end.character,
        },
        text: e.text.clone(),
    }
}

/// The overlay edits for a change notification, in the order of its events.
pub fn changes_of(params: &ChangeParams) -> (r: Vec<FileChange>)
    ensures
        changes_for(r@, *params),
{
    let path = path_of_uri(params.text_document.uri.as_str());
    let mut out: Vec<FileChange> = Vec::new();
    let mut i: usize = 0;
    while i < params.content_changes.len()
        invariant
            i <= params.content_changes@.len(),
            path@ == uri_path(params.text_document.uri@),
            out@.len() == i,
            forall|k: int|
                0 <= k < i ==> is_change_for(
                    #[trigger] out@[k],
                    path@,
                    params.content_changes@[k],
                ),
        decreases params.content_changes@.len() - i,
    {
        out.push(change_for(&path, &params.content_changes[i]));
        i = i + 1;
    }
    out
}

impl Session {
    /// A session that no `initialize` has reached yet.
    pub fn new() -> (r: Session)
        ensures
            r.current_project.is_none(),
    {
        Session { current_project: None }
    }

    fn project(&self) -> (r: String)
        ensures
            r@ == project_path(*self),
    {
        match &self.current_project {
            Some(p) => p.clone(),
            None => String::new(),
        }
    }

    /// Takes one message and returns the effects it calls for, in order.
    pub fn handle(&mut self, m: ServerMessage) -> (r: Vec<Effect>)
        ensures
            handles(*old(self), m, *final(self), r@),
    {
        match m {
            ServerMessage::Request(Request { id, method }) => match method {
                Method::Shutdown => vec![Effect::Exit],
                Method::Initialize(p) => {
                    let root = p.root_path;
                    let mut v: Vec<Effect> = Vec::new();
                    v.push(Effect::Reply(initialize_reply(id)));
                    v.push(Effect::Build(root.clone(), BuildPriority::Immediate));
                    self.current_project = Some(root);
                    v
                },
                Method::Hover(p) => {
                    let v = vec![Effect::Hover(id, p)];
                    assert(v@ =~= seq![Effect::Hover(id, p)]);
                    v
                },
                Method::GotoDef(p) => {
                    let v = vec![Effect::GotoDef(id, p)];
                    assert(v@ =~= seq![Effect::GotoDef(id, p)]);
                    v
                },
                Method::FindAllRef(p) => {
                    let v = vec![Effect::FindAllRef(id, p)];
                    assert(v@ =~= seq![Effect::FindAllRef(id, p)]);
                    v
                },
            },
            ServerMessage::Notification(Notification::CancelRequest(_)) => Vec::new(),
            ServerMessage::Notification(Notification::Change(params)) => {
                let mut v: Vec<Effect> = Vec::new();
                v.push(Effect::ApplyChanges(changes_of(&params)));
                v.push(Effect::Build(self.project(), BuildPriority::Normal));
                v
            },
        }
    }
}

/// The request id that an effect answers, where it leads to a reply.
pub open spec fn reply_id(e: Effect) -> Option<u64> {
    match e {
        Effect::Reply(r) => Some(r.id),
        Effect::Hover(id, _) => Some(id),
        Effect::GotoDef(id, _) => Some(id),
        Effect::FindAllRef(id, _) => Some(id),
        _ => None,
    }
}

/// How many replies a list of effects leads to.
pub open spec fn replies_in(es: Seq<Effect>) -> nat
    decreases es.len(),
{
    if es.len() == 0 {
        0
    } else {
        replies_in(es.drop_last()) + if reply_id(es.last()).is_some() {
            1nat
        } else {
            0nat
        }
    }
}

/// A request that is owed a reply: any but `shutdown`.
pub open spec fn is_answered(m: ServerMessage) -> bool {
    m matches ServerMessage::Request(r) && !(r.method matches Method::Shutdown)
}

pub open spec fn count_answered(ms: Seq<ServerMessage>) -> nat
    decreases ms.len(),
{
    if ms.len() == 0 {
        0
    } else {
        count_answered(ms.drop_last()) + if is_answered(ms.last()) {
            1nat
        } else {
            0nat
        }
    }
}

pub open spec fn total_replies(ess: Seq<Seq<Effect>>) -> nat
    decreases ess.len(),
{
    if ess.len() == 0 {
        0
    } else {
        total_replies(ess.drop_last()) + replies_in(ess.last())
    }
}

/// A run of the dispatcher: each message takes one state to the next with
/// its effects.
pub open spec fn is_run(states: Seq<Session>, ms: Seq<ServerMessage>, ess: Seq<Seq<Effect>>) -> bool {
    &&& states.len() == ms.len() + 1
    &&& ess.len() == ms.len()
    &&& forall|i: int|
        0 <= i < ms.len() ==> handles(#[trigger] states[i], ms[i], states[i + 1], ess[i])
}

/// Every effect that leads to a reply to a request carries that request's id,
/// and a notification leads to none.
pub proof fn lemma_reply_carries_id(s: Session, m: ServerMessage, t: Session, e: Seq<Effect>)
    requires
        handles(s, m, t, e),
    ensures
        forall|i: int|
            0 <= i < e.len() ==> match m {
                ServerMessage::Request(r) => (#[trigger] reply_id(e[i])).is_none() || reply_id(
                    e[i],
                ) == Some(r.id),
                ServerMessage::Notification(_) => reply_id(e[i]).is_none(),
            },
{
}

/// One message leads to exactly one reply where it is a request other than
/// `shutdown`, and to none otherwise.
pub proof fn lemma_step_replies(s: Session, m: ServerMessage, t: Session, e: Seq<Effect>)
    requires
        handles(s, m, t, e),
    ensures
        replies_in(e) == if is_answered(m) {
            1nat
        } else {
            0nat
        },
{
    if e.len() == 2 {
        assert(e.drop_last().drop_last() =~= Seq::<Effect>::empty());
        assert(e.drop_last().last() == e[0]);
        assert(replies_in(e.drop_last().drop_last()) == 0);
        assert(replies_in(e.drop_last()) == if reply_id(e[0]).is_some() {
            1nat
        } else {
            0nat
        });
    } else if e.len() == 1 {
        assert(e.drop_last() =~= Seq::<Effect>::empty());
        assert(replies_in(e.drop_last()) == 0);
    }
}

/// Over any run, the replies number exactly the requests other than
/// `shutdown`: notifications and `shutdown` get none.
pub proof fn lemma_reply_count(states: Seq<Session>, ms: Seq<ServerMessage>, ess: Seq<Seq<Effect>>)
    requires
        is_run(states, ms, ess),
    ensures
        total_replies(ess) == count_answered(ms),
    decreases ms.len(),
{
    if ms.len() > 0 {
        let n = ms.len() - 1;
        assert(is_run(states.drop_last(), ms.drop_last(), ess.drop_last())) by {
            assert forall|i: int| 0 <= i < ms.drop_last().len() implies handles(
                #[trigger] states.drop_last()[i],
                ms.drop_last()[i],
                states.drop_last()[i + 1],
                ess.drop_last()[i],
            ) by {
                assert(handles(states[i], ms[i], states[i + 1], ess[i]));
            }
        }
        lemma_reply_count(states.drop_last(), ms.drop_last(), ess.drop_last());
        assert(handles(states[n], ms[n], states[n + 1], ess[n]));
        lemma_step_replies(states[n], ms[n], states[n + 1], ess[n]);
    }
}

/// Once set, the current project stays set over any run.
pub proof fn lemma_project_kept(states: Seq<Session>, ms: Seq<ServerMessage>, ess: Seq<Seq<Effect>>, i: int, j: int)
    requires
        is_run(states, ms, ess),
        0 <= i <= j < states.len(),
        states[i].current_project.is_some(),
    ensures
        states[j].current_project.is_some(),
    decreases j - i,
{
    if i < j {
        assert(handles(states[i], ms[i], states[i + 1], ess[i]));
        lemma_project_kept(states, ms, ess, i + 1, j);
    }
}

} // verus!
