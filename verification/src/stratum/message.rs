//! The messages of the Aleo stratum protocol.

use vstd::prelude::*;

use crate::stratum::codec::{Id, IdView, ResponseParams, ResponseParamsView, RpcError, RpcErrorView};

verus! {

pub enum StratumMessage {
    /// This first version doesn't support vhosts.
    /// (id, user_agent, protocol_version, session_id)
    Subscribe(Id, String, String, Option<String>),
    /// (id, worker_name, worker_password)
    Authorize(Id, String, String),
    /// This is the difficulty target for the next job.
    /// (difficulty_target)
    SetTarget(u64),
    /// New job from the mining pool.
    /// (job_id, epoch_challenge, address, clean_jobs)
    Notify(String, String, Option<String>, bool),
    /// Submit shares to the pool.
    /// (id, worker_name, job_id, nonce, commitment, proof)
    Submit(Id, String, String, String, String, String),
    /// (id, result, error)
    Response(Id, Option<ResponseParams>, Option<RpcError>),
}

/// A stratum message as the contracts see it.
pub enum StratumMessageView {
    Subscribe(IdView, Seq<char>, Seq<char>, Option<Seq<char>>),
    Authorize(IdView, Seq<char>, Seq<char>),
    SetTarget(u64),
    Notify(Seq<char>, Seq<char>, Option<Seq<char>>, bool),
    Submit(IdView, Seq<char>, Seq<char>, Seq<char>, Seq<char>, Seq<char>),
    Response(IdView, Option<ResponseParamsView>, Option<RpcErrorView>),
}

/// The view of an optional string.
pub open spec fn opt_str_view(s: Option<String>) -> Option<Seq<char>> {
    match s {
        Some(s) => Some(s@),
        None => None,
    }
}

impl View for StratumMessage {
    type V = StratumMessageView;

    open spec fn view(&self) -> StratumMessageView {
        match self {
            StratumMessage::Subscribe(id, a, v, s) => StratumMessageView::Subscribe(
                id@,
                a@,
                v@,
                opt_str_view(*s),
            ),
            StratumMessage::Authorize(id, n, p) => StratumMessageView::Authorize(id@, n@, p@),
            StratumMessage::SetTarget(t) => StratumMessageView::SetTarget(*t),
            StratumMessage::Notify(j, e, a, c) => StratumMessageView::Notify(
                j@,
                e@,
                opt_str_view(*a),
                *c,
            ),
            StratumMessage::Submit(id, w, j, n, c, p) => StratumMessageView::Submit(
                id@,
                w@,
                j@,
                n@,
                c@,
                p@,
            ),
            StratumMessage::Response(id, r, e) => StratumMessageView::Response(
                id@,
                match r {
                    Some(r) => Some(r@),
                    None => None,
                },
                match e {
                    Some(e) => Some(e@),
                    None => None,
                },
            ),
        }
    }
}

/// The protocol's name for each kind of message.
pub open spec fn message_name(m: StratumMessageView) -> Seq<char> {
    match m {
        StratumMessageView::Subscribe(..) => "mining.subscribe"@,
        StratumMessageView::Authorize(..) => "mining.authorize"@,
        StratumMessageView::SetTarget(..) => "mining.set_target"@,
        StratumMessageView::Notify(..) => "mining.notify"@,
        StratumMessageView::Submit(..) => "mining.submit"@,
        StratumMessageView::Response(..) => "mining.response"@,
    }
}

impl StratumMessage {
    pub fn name(&self) -> (name: &'static str)
        ensures
            name@ == message_name(self@),
    {
        match self {
            StratumMessage::Subscribe(..) => "mining.subscribe",
            StratumMessage::Authorize(..) => "mining.authorize",
            StratumMessage::SetTarget(..) => "mining.set_target",
            StratumMessage::Notify(..) => "mining.notify",
            StratumMessage::Submit(..) => "mining.submit",
            StratumMessage::Response(..) => "mining.response",
        }
    }
}

} // verus!
