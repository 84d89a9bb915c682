//! How stratum messages map to JSON-RPC 2.0 requests and responses.
//!
//! Every message is one JSON-RPC object on one line. A message to send is
//! first turned into an [`Outgoing`] request or response; a line received is
//! read as a JSON-RPC request (a method, its parameters and an id) or a
//! response (an id and a result or an error), and [`decode_request`] and
//! [`decode_response`] then decide which message it is.

use vstd::prelude::*;

use crate::stratum::message::{opt_str_view, StratumMessage, StratumMessageView};

verus! {

/// A JSON-RPC request id: a number or a string.
pub enum Id {
    Num(u64),
    Str(String),
}

pub enum IdView {
    Num(u64),
    Str(Seq<char>),
}

impl View for Id {
    type V = IdView;

    open spec fn view(&self) -> IdView {
        match self {
            Id::Num(n) => IdView::Num(*n),
            Id::Str(s) => IdView::Str(s@),
        }
    }
}

/// One element of an array result: a string, an optional number or an
/// optional string.
pub enum BoxedType {
    Str(String),
    OptU64(Option<u64>),
    OptStr(Option<String>),
}

pub enum BoxedTypeView {
    Str(Seq<char>),
    OptU64(Option<u64>),
    OptStr(Option<Seq<char>>),
}

impl View for BoxedType {
    type V = BoxedTypeView;

    open spec fn view(&self) -> BoxedTypeView {
        match self {
            BoxedType::Str(s) => BoxedTypeView::Str(s@),
            BoxedType::OptU64(n) => BoxedTypeView::OptU64(*n),
            BoxedType::OptStr(s) => BoxedTypeView::OptStr(opt_str_view(*s)),
        }
    }
}

pub open spec fn boxed_views(items: Seq<BoxedType>) -> Seq<BoxedTypeView> {
    items.map_values(|b: BoxedType| b@)
}

/// The result of a response.
pub enum ResponseParams {
    Bool(bool),
    Array(Vec<BoxedType>),
    Null,
}

pub enum ResponseParamsView {
    Bool(bool),
    Array(Seq<BoxedTypeView>),
    Null,
}

impl View for ResponseParams {
    type V = ResponseParamsView;

    open spec fn view(&self) -> ResponseParamsView {
        match self {
            ResponseParams::Bool(b) => ResponseParamsView::Bool(*b),
            ResponseParams::Array(items) => ResponseParamsView::Array(boxed_views(items@)),
            ResponseParams::Null => ResponseParamsView::Null,
        }
    }
}

/// A JSON-RPC error object: its code and message.
pub struct RpcError {
    pub code: i64,
    pub message: String,
}

pub struct RpcErrorView {
    pub code: i64,
    pub message: Seq<char>,
}

impl View for RpcError {
    type V = RpcErrorView;

    open spec fn view(&self) -> RpcErrorView {
        RpcErrorView { code: self.code, message: self.message@ }
    }
}

/// One JSON value received inside a parameter or result array, as far as the
/// protocol reads it: numbers that are not unsigned 64-bit integers, arrays
/// and objects carry nothing the protocol uses.
pub enum JsonItem {
    Null,
    Bool(bool),
    U64(u64),
    OtherNumber,
    Str(String),
    Nested,
}

pub enum JsonItemView {
    Null,
    Bool(bool),
    U64(u64),
    OtherNumber,
    Str(Seq<char>),
    Nested,
}

impl View for JsonItem {
    type V = JsonItemView;

    open spec fn view(&self) -> JsonItemView {
        match self {
            JsonItem::Null => JsonItemView::Null,
            JsonItem::Bool(b) => JsonItemView::Bool(*b),
            JsonItem::U64(n) => JsonItemView::U64(*n),
            JsonItem::OtherNumber => JsonItemView::OtherNumber,
            JsonItem::Str(s) => JsonItemView::Str(s@),
            JsonItem::Nested => JsonItemView::Nested,
        }
    }
}

pub open spec fn item_views(items: Seq<JsonItem>) -> Seq<JsonItemView> {
    items.map_values(|j: JsonItem| j@)
}

/// The result member of a received response, as far as the protocol reads
/// it: a boolean, null, an array, or anything else.
pub enum JsonValue {
    Null,
    Bool(bool),
    Array(Vec<JsonItem>),
    Other,
}

pub enum JsonValueView {
    Null,
    Bool(bool),
    Array(Seq<JsonItemView>),
    Other,
}

impl View for JsonValue {
    type V = JsonValueView;

    open spec fn view(&self) -> JsonValueView {
        match self {
            JsonValue::Null => JsonValueView::Null,
            JsonValue::Bool(b) => JsonValueView::Bool(*b),
            JsonValue::Array(items) => JsonValueView::Array(item_views(items@)),
            JsonValue::Other => JsonValueView::Other,
        }
    }
}

/// One parameter of a request to send.
pub enum Param {
    Str(String),
    OptStr(Option<String>),
    U64(u64),
    Bool(bool),
}

pub enum ParamView {
    Str(Seq<char>),
    OptStr(Option<Seq<char>>),
    U64(u64),
    Bool(bool),
}

impl View for Param {
    type V = ParamView;

    open spec fn view(&self) -> ParamView {
        match self {
            Param::Str(s) => ParamView::Str(s@),
            Param::OptStr(s) => ParamView::OptStr(opt_str_view(*s)),
            Param::U64(n) => ParamView::U64(*n),
            Param::Bool(b) => ParamView::Bool(*b),
        }
    }
}

pub open spec fn param_views(params: Seq<Param>) -> Seq<ParamView> {
    params.map_values(|p: Param| p@)
}

/// A JSON-RPC object to send for one message.
pub enum Outgoing {
    /// A request or notification: method, parameters and id (none for a
    /// notification).
    Request(&'static str, Vec<Param>, Option<Id>),
    /// A response with a result; a missing result is sent as null.
    Result(Id, Option<ResponseParams>),
    /// A response with an error.
    Error(Id, RpcError),
}

pub enum OutgoingView {
    Request(Seq<char>, Seq<ParamView>, Option<IdView>),
    Result(IdView, Option<ResponseParamsView>),
    Error(IdView, RpcErrorView),
}

impl View for Outgoing {
    type V = OutgoingView;

    open spec fn view(&self) -> OutgoingView {
        match self {
            Outgoing::Request(m, p, id) => OutgoingView::Request(
                m@,
                param_views(p@),
                match id {
                    Some(i) => Some(i@),
                    None => None,
                },
            ),
            Outgoing::Result(id, r) => OutgoingView::Result(
                id@,
                match r {
                    Some(r) => Some(r@),
                    None => None,
                },
            ),
            Outgoing::Error(id, e) => OutgoingView::Error(id@, e@),
        }
    }
}

/// Why a received line is not a stratum message.
#[derive(PartialEq, Eq, Structural, Clone, Copy, Debug)]
pub enum DecodeError {
    NoParams,
    InvalidParams,
    NotStr,
    NotBool,
    NotU64,
    UnknownMethod,
    InvalidResponseParams,
    /// The line is not a JSON object.
    NotAnObject,
}

/// The text the codec reports for each decoding error.
pub open spec fn spec_decode_error_message(e: DecodeError) -> Seq<char> {
    match e {
        DecodeError::NoParams => "No params"@,
        DecodeError::InvalidParams => "Invalid params"@,
        DecodeError::NotStr => "Param is not str"@,
        DecodeError::NotBool => "Param is not bool"@,
        DecodeError::NotU64 => "Param is not u64"@,
        DecodeError::UnknownMethod => "Unknown method"@,
        DecodeError::InvalidResponseParams => "invalid response params"@,
        DecodeError::NotAnObject => "Not an object"@,
    }
}

impl DecodeError {
    /// The text the codec reports for this error.
    pub fn message(&self) -> (message: &'static str)
        ensures
            message@ == spec_decode_error_message(*self),
    {
        match self {
            DecodeError::NoParams => "No params",
            DecodeError::InvalidParams => "Invalid params",
            DecodeError::NotStr => "Param is not str",
            DecodeError::NotBool => "Param is not bool",
            DecodeError::NotU64 => "Param is not u64",
            DecodeError::UnknownMethod => "Unknown method",
            DecodeError::InvalidResponseParams => "invalid response params",
            DecodeError::NotAnObject => "Not an object",
        }
    }
}

/// The JSON-RPC object that carries a message.
pub open spec fn spec_encode(m: StratumMessageView) -> OutgoingView {
    match m {
        StratumMessageView::Subscribe(id, user_agent, version, session) => OutgoingView::Request(
            "mining.subscribe"@,
            seq![ParamView::Str(user_agent), ParamView::Str(version), ParamView::OptStr(session)],
            Some(id),
        ),
        StratumMessageView::Authorize(id, worker, password) => OutgoingView::Request(
            "mining.authorize"@,
            seq![ParamView::Str(worker), ParamView::Str(password)],
            Some(id),
        ),
        StratumMessageView::SetTarget(target) => OutgoingView::Request(
            "mining.set_target"@,
            seq![ParamView::U64(target)],
            None,
        ),
        StratumMessageView::Notify(job, challenge, address, clean) => OutgoingView::Request(
            "mining.notify"@,
            seq![
                ParamView::Str(job),
                ParamView::Str(challenge),
                ParamView::OptStr(address),
                ParamView::Bool(clean),
            ],
            None,
        ),
        StratumMessageView::Submit(id, worker, job, nonce, commitment, proof) => OutgoingView::Request(
            "mining.submit"@,
            seq![
                ParamView::Str(worker),
                ParamView::Str(job),
                ParamView::Str(nonce),
                ParamView::Str(commitment),
                ParamView::Str(proof),
            ],
            Some(id),
        ),
        StratumMessageView::Response(id, result, error) => match error {
            Some(e) => OutgoingView::Error(id, e),
            None => OutgoingView::Result(id, result),
        },
    }
}

/// A string parameter, or why it is not one.
pub open spec fn spec_str_param(item: JsonItemView) -> Result<Seq<char>, DecodeError> {
    match item {
        JsonItemView::Str(s) => Ok(s),
        _ => Err(DecodeError::NotStr),
    }
}

/// A string-or-null parameter, or why it is not one.
pub open spec fn spec_opt_str_param(item: JsonItemView) -> Result<Option<Seq<char>>, DecodeError> {
    match item {
        JsonItemView::Str(s) => Ok(Some(s)),
        JsonItemView::Null => Ok(None),
        _ => Err(DecodeError::InvalidParams),
    }
}

/// A subscription from its parameters.
pub open spec fn spec_decode_subscribe(id: IdView, p: Seq<JsonItemView>) -> Result<
    StratumMessageView,
    DecodeError,
> {
    if p.len() != 3 {
        Err(DecodeError::InvalidParams)
    } else {
        match (spec_str_param(p[0]), spec_str_param(p[1]), spec_opt_str_param(p[2])) {
            (Err(e), _, _) => Err(e),
            (Ok(_), Err(e), _) => Err(e),
            (Ok(_), Ok(_), Err(e)) => Err(e),
            (Ok(a), Ok(v), Ok(s)) => Ok(StratumMessageView::Subscribe(id, a, v, s)),
        }
    }
}

/// An authorization from its parameters.
pub open spec fn spec_decode_authorize(id: IdView, p: Seq<JsonItemView>) -> Result<
    StratumMessageView,
    DecodeError,
> {
    if p.len() != 2 {
        Err(DecodeError::InvalidParams)
    } else {
        match (spec_str_param(p[0]), spec_str_param(p[1])) {
            (Err(e), _) => Err(e),
            (Ok(_), Err(e)) => Err(e),
            (Ok(w), Ok(pw)) => Ok(StratumMessageView::Authorize(id, w, pw)),
        }
    }
}

/// A new target from its parameters.
pub open spec fn spec_decode_set_target(p: Seq<JsonItemView>) -> Result<
    StratumMessageView,
    DecodeError,
> {
    if p.len() != 1 {
        Err(DecodeError::InvalidParams)
    } else {
        match p[0] {
            JsonItemView::U64(t) => Ok(StratumMessageView::SetTarget(t)),
            _ => Err(DecodeError::NotU64),
        }
    }
}

/// A new job from its parameters.
pub open spec fn spec_decode_notify(p: Seq<JsonItemView>) -> Result<StratumMessageView, DecodeError> {
    if p.len() != 4 {
        Err(DecodeError::InvalidParams)
    } else {
        match (spec_str_param(p[0]), spec_str_param(p[1]), spec_opt_str_param(p[2])) {
            (Err(e), _, _) => Err(e),
            (Ok(_), Err(e), _) => Err(e),
            (Ok(_), Ok(_), Err(e)) => Err(e),
            (Ok(j), Ok(c), Ok(a)) => match p[3] {
                JsonItemView::Bool(b) => Ok(StratumMessageView::Notify(j, c, a, b)),
                _ => Err(DecodeError::NotBool),
            },
        }
    }
}

/// A submitted share from its parameters.
pub open spec fn spec_decode_submit(id: IdView, p: Seq<JsonItemView>) -> Result<
    StratumMessageView,
    DecodeError,
> {
    if p.len() != 5 {
        Err(DecodeError::InvalidParams)
    } else if spec_str_param(p[0]) is Err {
        Err(DecodeError::NotStr)
    } else if spec_str_param(p[1]) is Err {
        Err(DecodeError::NotStr)
    } else if spec_str_param(p[2]) is Err {
        Err(DecodeError::NotStr)
    } else if spec_str_param(p[3]) is Err {
        Err(DecodeError::NotStr)
    } else if spec_str_param(p[4]) is Err {
        Err(DecodeError::NotStr)
    } else {
        Ok(
            StratumMessageView::Submit(
                id,
                spec_str_param(p[0])->Ok_0,
                spec_str_param(p[1])->Ok_0,
                spec_str_param(p[2])->Ok_0,
                spec_str_param(p[3])->Ok_0,
                spec_str_param(p[4])->Ok_0,
            ),
        )
    }
}

/// The message a received request carries, or why it carries none: a
/// request without parameters carries none; otherwise the method picks the
/// message, whose parameters are read in order, the first that fails naming
/// the error.
pub open spec fn spec_decode_request(
    method: Seq<char>,
    params: Option<Seq<JsonItemView>>,
    id: Option<IdView>,
) -> Result<StratumMessageView, DecodeError> {
    let id = match id {
        Some(i) => i,
        None => IdView::Num(0),
    };
    match params {
        None => Err(DecodeError::NoParams),
        Some(p) => if method == "mining.subscribe"@ {
            spec_decode_subscribe(id, p)
        } else if method == "mining.authorize"@ {
            spec_decode_authorize(id, p)
        } else if method == "mining.set_target"@ {
            spec_decode_set_target(p)
        } else if method == "mining.notify"@ {
            spec_decode_notify(p)
        } else if method == "mining.submit"@ {
            spec_decode_submit(id, p)
        } else {
            Err(DecodeError::UnknownMethod)
        },
    }
}

/// The array elements a result array reads as: null as an absent string,
/// strings as strings, numbers as optional unsigned integers (absent when not
/// one); booleans and nested values are skipped.
pub open spec fn spec_items_to_boxed(items: Seq<JsonItemView>) -> Seq<BoxedTypeView>
    decreases items.len(),
{
    if items.len() == 0 {
        Seq::empty()
    } else {
        let rest = spec_items_to_boxed(items.drop_last());
        match items.last() {
            JsonItemView::Null => rest.push(BoxedTypeView::OptStr(None)),
            JsonItemView::Str(s) => rest.push(BoxedTypeView::Str(s)),
            JsonItemView::U64(n) => rest.push(BoxedTypeView::OptU64(Some(n))),
            JsonItemView::OtherNumber => rest.push(BoxedTypeView::OptU64(None)),
            JsonItemView::Bool(_) => rest,
            JsonItemView::Nested => rest,
        }
    }
}

/// The result a received result member reads as.
pub open spec fn spec_result_from_json(v: JsonValueView) -> Result<ResponseParamsView, DecodeError> {
    match v {
        JsonValueView::Bool(b) => Ok(ResponseParamsView::Bool(b)),
        JsonValueView::Array(items) => Ok(ResponseParamsView::Array(spec_items_to_boxed(items))),
        JsonValueView::Null => Ok(ResponseParamsView::Null),
        JsonValueView::Other => Err(DecodeError::InvalidResponseParams),
    }
}

/// The message a received response carries, or why it carries none.
pub open spec fn spec_decode_response(
    id: Option<IdView>,
    payload: Result<JsonValueView, RpcErrorView>,
) -> Result<StratumMessageView, DecodeError> {
    let id = match id {
        Some(i) => i,
        None => IdView::Num(0),
    };
    match payload {
        Ok(v) => match spec_result_from_json(v) {
            Ok(r) => Ok(StratumMessageView::Response(id, Some(r), None)),
            Err(e) => Err(e),
        },
        Err(e) => Ok(StratumMessageView::Response(id, None, Some(e))),
    }
}

/// The view of a decoding result.
pub open spec fn decoded_view(r: Result<StratumMessage, DecodeError>) -> Result<
    StratumMessageView,
    DecodeError,
> {
    match r {
        Ok(m) => Ok(m@),
        Err(e) => Err(e),
    }
}

impl Id {
    pub fn duplicate(&self) -> (copy: Id)
        ensures
            copy@ == self@,
    {
        match self {
            Id::Num(n) => Id::Num(*n),
            Id::Str(s) => Id::Str(s.clone()),
        }
    }
}

fn text_is(text: &String, expected: &str) -> (same: bool)
    ensures
        same == (text@ == expected@),
{
    let expected = String::from_str(expected);
    *text == expected
}

/// The parameter as a string.
pub fn unwrap_str_value(value: &JsonItem) -> (result: Result<String, DecodeError>)
    ensures
        match result {
            Ok(s) => spec_str_param(value@) == Ok::<Seq<char>, DecodeError>(s@),
            Err(e) => spec_str_param(value@) == Err::<Seq<char>, DecodeError>(e),
        },
{
    match value {
        JsonItem::Str(s) => Ok(s.clone()),
        _ => Err(DecodeError::NotStr),
    }
}

/// The parameter as a boolean.
pub fn unwrap_bool_value(value: &JsonItem) -> (result: Result<bool, DecodeError>)
    ensures
        match value@ {
            JsonItemView::Bool(b) => result == Ok::<bool, DecodeError>(b),
            _ => result == Err::<bool, DecodeError>(DecodeError::NotBool),
        },
{
    match value {
        JsonItem::Bool(b) => Ok(*b),
        _ => Err(DecodeError::NotBool),
    }
}

/// The parameter as an unsigned 64-bit integer.
pub fn unwrap_u64_value(value: &JsonItem) -> (result: Result<u64, DecodeError>)
    ensures
        match value@ {
            JsonItemView::U64(n) => result == Ok::<u64, DecodeError>(n),
            _ => result == Err::<u64, DecodeError>(DecodeError::NotU64),
        },
{
    match value {
        JsonItem::U64(n) => Ok(*n),
        _ => Err(DecodeError::NotU64),
    }
}

fn unwrap_opt_str_value(value: &JsonItem) -> (result: Result<Option<String>, DecodeError>)
    ensures
        match result {
            Ok(s) => spec_opt_str_param(value@) == Ok::<Option<Seq<char>>, DecodeError>(
                opt_str_view(s),
            ),
            Err(e) => spec_opt_str_param(value@) == Err::<Option<Seq<char>>, DecodeError>(e),
        },
{
    match value {
        JsonItem::Str(s) => Ok(Some(s.clone())),
        JsonItem::Null => Ok(None),
        _ => Err(DecodeError::InvalidParams),
    }
}

/// The JSON-RPC object that carries `message`.
pub fn encode(message: StratumMessage) -> (out: Outgoing)
    ensures
        out@ == spec_encode(message@),
{
    match message {
        StratumMessage::Subscribe(id, user_agent, version, session) => {
            let mut params: Vec<Param> = Vec::new();
            params.push(Param::Str(user_agent));
            params.push(Param::Str(version));
            params.push(Param::OptStr(session));
            let out = Outgoing::Request("mining.subscribe", params, Some(id));
            assert(out@ == spec_encode(message@)) by {
                assert(param_views(params@) =~= seq![
                    ParamView::Str(user_agent@),
                    ParamView::Str(version@),
                    ParamView::OptStr(opt_str_view(session)),
                ]);
            }
            out
        },
        StratumMessage::Authorize(id, worker, password) => {
            let mut params: Vec<Param> = Vec::new();
            params.push(Param::Str(worker));
            params.push(Param::Str(password));
            let out = Outgoing::Request("mining.authorize", params, Some(id));
            assert(out@ == spec_encode(message@)) by {
                assert(param_views(params@) =~= seq![
                    ParamView::Str(worker@),
                    ParamView::Str(password@),
                ]);
            }
            out
        },
        StratumMessage::SetTarget(target) => {
            let mut params: Vec<Param> = Vec::new();
            params.push(Param::U64(target));
            let out = Outgoing::Request("mining.set_target", params, None);
            assert(out@ == spec_encode(message@)) by {
                assert(param_views(params@) =~= seq![ParamView::U64(target)]);
            }
            out
        },
        StratumMessage::Notify(job, challenge, address, clean) => {
            let mut params: Vec<Param> = Vec::new();
            params.push(Param::Str(job));
            params.push(Param::Str(challenge));
            params.push(Param::OptStr(address));
            params.push(Param::Bool(clean));
            let out = Outgoing::Request("mining.notify", params, None);
            assert(out@ == spec_encode(message@)) by {
                assert(param_views(params@) =~= seq![
                    ParamView::Str(job@),
                    ParamView::Str(challenge@),
                    ParamView::OptStr(opt_str_view(address)),
                    ParamView::Bool(clean),
                ]);
            }
            out
        },
        StratumMessage::Submit(id, worker, job, nonce, commitment, proof) => {
            let mut params: Vec<Param> = Vec::new();
            params.push(Param::Str(worker));
            params.push(Param::Str(job));
            params.push(Param::Str(nonce));
            params.push(Param::Str(commitment));
            params.push(Param::Str(proof));
            let out = Outgoing::Request("mining.submit", params, Some(id));
            assert(out@ == spec_encode(message@)) by {
                assert(param_views(params@) =~= seq![
                    ParamView::Str(worker@),
                    ParamView::Str(job@),
                    ParamView::Str(nonce@),
                    ParamView::Str(commitment@),
                    ParamView::Str(proof@),
                ]);
            }
            out
        },
        StratumMessage::Response(id, result, error) => match error {
            Some(e) => Outgoing::Error(id, e),
            None => Outgoing::Result(id, result),
        },
    }
}

fn decode_subscribe(id: Id, params: &Vec<JsonItem>) -> (result: Result<StratumMessage, DecodeError>)
    ensures
        decoded_view(result) == spec_decode_subscribe(id@, item_views(params@)),
{
    let ghost p = item_views(params@);
    if params.len() != 3 {
        return Err(DecodeError::InvalidParams);
    }
    assert(p[0] == params@[0]@ && p[1] == params@[1]@ && p[2] == params@[2]@);
    let user_agent = match unwrap_str_value(&params[0]) {
        Ok(s) => s,
        Err(e) => return Err(e),
    };
    let version = match unwrap_str_value(&params[1]) {
        Ok(s) => s,
        Err(e) => return Err(e),
    };
    let session = match unwrap_opt_str_value(&params[2]) {
        Ok(s) => s,
        Err(e) => return Err(e),
    };
    Ok(StratumMessage::Subscribe(id, user_agent, version, session))
}

fn decode_authorize(id: Id, params: &Vec<JsonItem>) -> (result: Result<StratumMessage, DecodeError>)
    ensures
        decoded_view(result) == spec_decode_authorize(id@, item_views(params@)),
{
    let ghost p = item_views(params@);
    if params.len() != 2 {
        return Err(DecodeError::InvalidParams);
    }
    assert(p[0] == params@[0]@ && p[1] == params@[1]@);
    let worker = match unwrap_str_value(&params[0]) {
        Ok(s) => s,
        Err(e) => return Err(e),
    };
    let password = match unwrap_str_value(&params[1]) {
        Ok(s) => s,
        Err(e) => return Err(e),
    };
    Ok(StratumMessage::Authorize(id, worker, password))
}

fn decode_set_target(params: &Vec<JsonItem>) -> (result: Result<StratumMessage, DecodeError>)
    ensures
        decoded_view(result) == spec_decode_set_target(item_views(params@)),
{
    let ghost p = item_views(params@);
    if params.len() != 1 {
        return Err(DecodeError::InvalidParams);
    }
    assert(p[0] == params@[0]@);
    match unwrap_u64_value(&params[0]) {
        Ok(t) => Ok(StratumMessage::SetTarget(t)),
        Err(e) => Err(e),
    }
}

fn decode_notify(params: &Vec<JsonItem>) -> (result: Result<StratumMessage, DecodeError>)
    ensures
        decoded_view(result) == spec_decode_notify(item_views(params@)),
{
    let ghost p = item_views(params@);
    if params.len() != 4 {
        return Err(DecodeError::InvalidParams);
    }
    assert(p[0] == params@[0]@ && p[1] == params@[1]@ && p[2] == params@[2]@ && p[3]
        == params@[3]@);
    let job = match unwrap_str_value(&params[0]) {
        Ok(s) => s,
        Err(e) => return Err(e),
    };
    let challenge = match unwrap_str_value(&params[1]) {
        Ok(s) => s,
        Err(e) => return Err(e),
    };
    let address = match unwrap_opt_str_value(&params[2]) {
        Ok(s) => s,
        Err(e) => return Err(e),
    };
    match unwrap_bool_value(&params[3]) {
        Ok(clean) => Ok(StratumMessage::Notify(job, challenge, address, clean)),
        Err(e) => Err(e),
    }
}

fn decode_submit(id: Id, params: &Vec<JsonItem>) -> (result: Result<StratumMessage, DecodeError>)
    ensures
        decoded_view(result) == spec_decode_submit(id@, item_views(params@)),
{
    let ghost p = item_views(params@);
    if params.len() != 5 {
        return Err(DecodeError::InvalidParams);
    }
    assert(p[0] == params@[0]@ && p[1] == params@[1]@ && p[2] == params@[2]@ && p[3]
        == params@[3]@ && p[4] == params@[4]@);
    let worker = match unwrap_str_value(&params[0]) {
        Ok(s) => s,
        Err(e) => return Err(e),
    };
    let job = match unwrap_str_value(&params[1]) {
        Ok(s) => s,
        Err(e) => return Err(e),
    };
    let nonce = match unwrap_str_value(&params[2]) {
        Ok(s) => s,
        Err(e) => return Err(e),
    };
    let commitment = match unwrap_str_value(&params[3]) {
        Ok(s) => s,
        Err(e) => return Err(e),
    };
    let proof = match unwrap_str_value(&params[4]) {
        Ok(s) => s,
        Err(e) => return Err(e),
    };
    Ok(StratumMessage::Submit(id, worker, job, nonce, commitment, proof))
}

/// The message a received JSON-RPC request carries: its method, its
/// parameters (absent when the request has none) and its id (absent ids
/// read as 0).
pub fn decode_request(method: String, params: Option<Vec<JsonItem>>, id: Option<Id>) -> (result:
    Result<StratumMessage, DecodeError>)
    ensures
        decoded_view(result) == spec_decode_request(
            method@,
            match params {
                Some(p) => Some(item_views(p@)),
                None => None,
            },
            match id {
                Some(i) => Some(i@),
                None => None,
            },
        ),
{
    let id = match id {
        Some(i) => i,
        None => Id::Num(0),
    };
    let params = match params {
        Some(p) => p,
        None => return Err(DecodeError::NoParams),
    };
    if text_is(&method, "mining.subscribe") {
        decode_subscribe(id, &params)
    } else if text_is(&method, "mining.authorize") {
        decode_authorize(id, &params)
    } else if text_is(&method, "mining.set_target") {
        decode_set_target(&params)
    } else if text_is(&method, "mining.notify") {
        decode_notify(&params)
    } else if text_is(&method, "mining.submit") {
        decode_submit(id, &params)
    } else {
        Err(DecodeError::UnknownMethod)
    }
}

impl ResponseParams {
    /// The result a received result member reads as.
    pub fn from_json(value: JsonValue) -> (result: Result<ResponseParams, DecodeError>)
        ensures
            match result {
                Ok(r) => spec_result_from_json(value@) == Ok::<
                    ResponseParamsView,
                    DecodeError,
                >(r@),
                Err(e) => spec_result_from_json(value@) == Err::<ResponseParamsView, DecodeError>(
                    e,
                ),
            },
    {
        match value {
            JsonValue::Bool(b) => Ok(ResponseParams::Bool(b)),
            JsonValue::Null => Ok(ResponseParams::Null),
            JsonValue::Other => Err(DecodeError::InvalidResponseParams),
            JsonValue::Array(items) => {
                let ghost all = item_views(items@);
                let mut out: Vec<BoxedType> = Vec::new();
                let mut i: usize = 0;
                while i < items.len()
                    invariant
                        i <= items@.len(),
                        all == item_views(items@),
                        boxed_views(out@) == spec_items_to_boxed(all.subrange(0, i as int)),
                    decreases items@.len() - i,
                {
                    let ghost before = boxed_views(out@);
                    assert(all.subrange(0, i + 1).drop_last() =~= all.subrange(0, i as int));
                    assert(all.subrange(0, i + 1).last() == items@[i as int]@);
                    match &items[i] {
                        JsonItem::Null => {
                            out.push(BoxedType::OptStr(None));
                            assert(boxed_views(out@) =~= before.push(BoxedTypeView::OptStr(None)));
                        },
                        JsonItem::Str(s) => {
                            let copy = s.clone();
                            out.push(BoxedType::Str(copy));
                            assert(boxed_views(out@) =~= before.push(BoxedTypeView::Str(s@)));
                        },
                        JsonItem::U64(n) => {
                            out.push(BoxedType::OptU64(Some(*n)));
                            assert(boxed_views(out@) =~= before.push(
                                BoxedTypeView::OptU64(Some(*n)),
                            ));
                        },
                        JsonItem::OtherNumber => {
                            out.push(BoxedType::OptU64(None));
                            assert(boxed_views(out@) =~= before.push(BoxedTypeView::OptU64(None)));
                        },
                        JsonItem::Bool(_) => {},
                        JsonItem::Nested => {},
                    }
                    i = i + 1;
                }
                assert(all.subrange(0, i as int) =~= all);
                Ok(ResponseParams::Array(out))
            },
        }
    }
}

/// The message a received JSON-RPC response carries: its id (absent ids read
/// as 0) and its result member or error object.
pub fn decode_response(id: Option<Id>, payload: Result<JsonValue, RpcError>) -> (result: Result<
    StratumMessage,
    DecodeError,
>)
    ensures
        decoded_view(result) == spec_decode_response(
            match id {
                Some(i) => Some(i@),
                None => None,
            },
            match payload {
                Ok(v) => Ok(v@),
                Err(e) => Err(e@),
            },
        ),
{
    let id = match id {
        Some(i) => i,
        None => Id::Num(0),
    };
    match payload {
        Ok(value) => match ResponseParams::from_json(value) {
            Ok(r) => Ok(StratumMessage::Response(id, Some(r), None)),
            Err(e) => Err(e),
        },
        Err(e) => Ok(StratumMessage::Response(id, None, Some(e))),
    }
}

/// How a sent parameter reads when it is received: strings as strings, an
/// absent string as null, integers and booleans as themselves.
pub open spec fn param_as_received(p: ParamView) -> JsonItemView {
    match p {
        ParamView::Str(s) => JsonItemView::Str(s),
        ParamView::OptStr(Some(s)) => JsonItemView::Str(s),
        ParamView::OptStr(None) => JsonItemView::Null,
        ParamView::U64(n) => JsonItemView::U64(n),
        ParamView::Bool(b) => JsonItemView::Bool(b),
    }
}

/// How a list of sent parameters reads when it is received.
pub open spec fn params_as_received(params: Seq<ParamView>) -> Seq<JsonItemView> {
    params.map_values(|p: ParamView| param_as_received(p))
}

/// How a sent result element reads when it is received.
pub open spec fn boxed_as_received(b: BoxedTypeView) -> JsonItemView {
    match b {
        BoxedTypeView::Str(s) => JsonItemView::Str(s),
        BoxedTypeView::OptStr(Some(s)) => JsonItemView::Str(s),
        BoxedTypeView::OptStr(None) => JsonItemView::Null,
        BoxedTypeView::OptU64(Some(n)) => JsonItemView::U64(n),
        BoxedTypeView::OptU64(None) => JsonItemView::Null,
    }
}

/// How a sent result reads when it is received.
pub open spec fn result_as_received(r: ResponseParamsView) -> JsonValueView {
    match r {
        ResponseParamsView::Bool(b) => JsonValueView::Bool(b),
        ResponseParamsView::Array(items) => JsonValueView::Array(
            items.map_values(|b: BoxedTypeView| boxed_as_received(b)),
        ),
        ResponseParamsView::Null => JsonValueView::Null,
    }
}

/// The form a result element takes once it has been sent and received: a
/// present string is a string, and an absent number is an absent string.
pub open spec fn normalized_boxed(b: BoxedTypeView) -> BoxedTypeView {
    match b {
        BoxedTypeView::OptStr(Some(s)) => BoxedTypeView::Str(s),
        BoxedTypeView::OptU64(None) => BoxedTypeView::OptStr(None),
        _ => b,
    }
}

/// The form a result takes once it has been sent and received.
pub open spec fn normalized_result(r: ResponseParamsView) -> ResponseParamsView {
    match r {
        ResponseParamsView::Array(items) => ResponseParamsView::Array(
            items.map_values(|b: BoxedTypeView| normalized_boxed(b)),
        ),
        _ => r,
    }
}

proof fn lemma_items_round_trip(items: Seq<BoxedTypeView>)
    ensures
        spec_items_to_boxed(items.map_values(|b: BoxedTypeView| boxed_as_received(b)))
            == items.map_values(|b: BoxedTypeView| normalized_boxed(b)),
    decreases items.len(),
{
    let sent = items.map_values(|b: BoxedTypeView| boxed_as_received(b));
    if items.len() > 0 {
        lemma_items_round_trip(items.drop_last());
        assert(sent.drop_last() =~= items.drop_last().map_values(
            |b: BoxedTypeView| boxed_as_received(b),
        ));
        assert(items.map_values(|b: BoxedTypeView| normalized_boxed(b)) =~= items.drop_last().map_values(
            |b: BoxedTypeView| normalized_boxed(b),
        ).push(normalized_boxed(items.last())));
    } else {
        assert(items.map_values(|b: BoxedTypeView| normalized_boxed(b)) =~= Seq::<
            BoxedTypeView,
        >::empty());
    }
}

proof fn lemma_method_names_distinct()
    ensures
        "mining.subscribe"@ != "mining.authorize"@,
        "mining.subscribe"@ != "mining.set_target"@,
        "mining.subscribe"@ != "mining.notify"@,
        "mining.subscribe"@ != "mining.submit"@,
        "mining.authorize"@ != "mining.set_target"@,
        "mining.authorize"@ != "mining.notify"@,
        "mining.authorize"@ != "mining.submit"@,
        "mining.set_target"@ != "mining.notify"@,
        "mining.set_target"@ != "mining.submit"@,
        "mining.notify"@ != "mining.submit"@,
{
    reveal_strlit("mining.subscribe");
    reveal_strlit("mining.authorize");
    reveal_strlit("mining.set_target");
    reveal_strlit("mining.notify");
    reveal_strlit("mining.submit");
    assert("mining.subscribe"@.len() == 16);
    assert("mining.authorize"@.len() == 16);
    assert("mining.set_target"@.len() == 17);
    assert("mining.notify"@.len() == 13);
    assert("mining.submit"@.len() == 13);
    assert("mining.subscribe"@[7] != "mining.authorize"@[7]);
    assert("mining.notify"@[7] != "mining.submit"@[7]);
}

/// Codec law: every request and notification the pool or a miner sends is
/// read back, by the receiving end, as the very message that was sent.
pub proof fn law_request_round_trip(m: StratumMessageView)
    requires
        !(m is Response),
    ensures
        spec_encode(m) matches OutgoingView::Request(method, params, id) && spec_decode_request(
            method,
            Some(params_as_received(params)),
            id,
        ) == Ok::<StratumMessageView, DecodeError>(m),
{
    lemma_method_names_distinct();
    match spec_encode(m) {
        OutgoingView::Request(method, params, id) => {
            let received = params_as_received(params);
            assert(received.len() == params.len());
            match m {
                StratumMessageView::Subscribe(i, a, v, s) => {
                    assert(received[0] == JsonItemView::Str(a));
                    assert(received[1] == JsonItemView::Str(v));
                    assert(spec_decode_subscribe(i, received) == Ok::<StratumMessageView, DecodeError>(m));
                }
                StratumMessageView::Authorize(i, w, pw) => {
                    assert(received[0] == JsonItemView::Str(w));
                    assert(received[1] == JsonItemView::Str(pw));
                }
                StratumMessageView::SetTarget(t) => {
                    assert(received[0] == JsonItemView::U64(t));
                }
                StratumMessageView::Notify(j, c, a, b) => {
                    assert(received[0] == JsonItemView::Str(j));
                    assert(received[1] == JsonItemView::Str(c));
                    assert(received[3] == JsonItemView::Bool(b));
                }
                StratumMessageView::Submit(i, w, j, n, c, p) => {
                    assert(received[0] == JsonItemView::Str(w));
                    assert(received[1] == JsonItemView::Str(j));
                    assert(received[2] == JsonItemView::Str(n));
                    assert(received[3] == JsonItemView::Str(c));
                    assert(received[4] == JsonItemView::Str(p));
                }
                StratumMessageView::Response(..) => {}
            }
        },
        _ => {},
    }
}

/// Codec law: a response with a boolean or array result is read back with
/// its id and that result in the form it takes on the wire (present strings
/// as strings, absent numbers as absent strings), and that form is sent
/// exactly as the result it was given.
pub proof fn law_result_round_trip(id: IdView, result: ResponseParamsView)
    requires
        !(result is Null),
    ensures
        spec_encode(StratumMessageView::Response(id, Some(result), None)) == OutgoingView::Result(
            id,
            Some(result),
        ),
        spec_decode_response(Some(id), Ok(result_as_received(result))) == Ok::<
            StratumMessageView,
            DecodeError,
        >(StratumMessageView::Response(id, Some(normalized_result(result)), None)),
        result_as_received(normalized_result(result)) == result_as_received(result),
{
    match result {
        ResponseParamsView::Array(items) => {
            lemma_items_round_trip(items);
            assert(items.map_values(|b: BoxedTypeView| normalized_boxed(b)).map_values(
                |b: BoxedTypeView| boxed_as_received(b),
            ) =~= items.map_values(|b: BoxedTypeView| boxed_as_received(b)));
        },
        _ => {},
    }
}

/// Codec law: a response with an error is read back with its id and that
/// error, and no result.
pub proof fn law_error_round_trip(id: IdView, result: Option<ResponseParamsView>, error: RpcErrorView)
    ensures
        spec_encode(StratumMessageView::Response(id, result, Some(error))) == OutgoingView::Error(
            id,
            error,
        ),
        spec_decode_response(Some(id), Err(error)) == Ok::<StratumMessageView, DecodeError>(
            StratumMessageView::Response(id, None, Some(error)),
        ),
{
}

/// An item of a result array that reads as a value and is sent back as
/// the same JSON: null, a string or an unsigned 64-bit number.
pub open spec fn plain_result_item(item: JsonItemView) -> bool {
    item is Null || item is Str || item is U64
}

proof fn lemma_plain_items_sent_back(items: Seq<JsonItemView>)
    requires
        forall|k: int| 0 <= k < items.len() ==> plain_result_item(#[trigger] items[k]),
    ensures
        spec_items_to_boxed(items).map_values(|b: BoxedTypeView| boxed_as_received(b)) == items,
    decreases items.len(),
{
    if items.len() > 0 {
        let rest = items.drop_last();
        assert forall|k: int| 0 <= k < rest.len() implies plain_result_item(#[trigger] rest[k]) by {
            assert(rest[k] == items[k]);
        }
        lemma_plain_items_sent_back(rest);
        assert(plain_result_item(items[items.len() - 1]));
        let boxed = spec_items_to_boxed(items);
        assert(boxed == spec_items_to_boxed(rest).push(boxed.last()));
        assert(boxed.map_values(|b: BoxedTypeView| boxed_as_received(b)) =~= spec_items_to_boxed(
            rest,
        ).map_values(|b: BoxedTypeView| boxed_as_received(b)).push(boxed_as_received(boxed.last())));
        assert(items =~= rest.push(items.last()));
    } else {
        assert(spec_items_to_boxed(items).map_values(|b: BoxedTypeView| boxed_as_received(b)) =~= items);
    }
}

/// Codec law: a result the pool reads (a boolean, null, or an array of
/// nulls, strings and unsigned numbers) is sent back as the very JSON it
/// was read from.
pub proof fn law_read_result_sent_back(value: JsonValueView)
    requires
        match value {
            JsonValueView::Array(items) => forall|k: int|
                0 <= k < items.len() ==> plain_result_item(#[trigger] items[k]),
            JsonValueView::Other => false,
            _ => true,
        },
    ensures
        spec_result_from_json(value) matches Ok(r) && result_as_received(r) == value,
{
    if let JsonValueView::Array(items) = value {
        lemma_plain_items_sent_back(items);
    }
}

/// What a JSON-RPC line holds, as far as the protocol reads it: something
/// that is not an object, a request (an object with a `method` member), or
/// a response (any other object).
pub enum JsonRpcLine {
    NotObject,
    Request { method: String, params: Option<Vec<JsonItem>>, id: Option<Id> },
    Response { id: Option<Id>, payload: Result<JsonValue, RpcError> },
}

/// The message a JSON-RPC line carries: a line that is not an object is
/// refused; a request and a response are read as `decode_request` and
/// `decode_response` read them.
pub fn decode_json_rpc(line: JsonRpcLine) -> (result: Result<StratumMessage, DecodeError>)
    ensures
        match line {
            JsonRpcLine::NotObject => result == Err::<StratumMessage, DecodeError>(DecodeError::NotAnObject),
            JsonRpcLine::Request { method, params, id } => decoded_view(result) == spec_decode_request(
                method@,
                match params {
                    Some(p) => Some(item_views(p@)),
                    None => None,
                },
                match id {
                    Some(i) => Some(i@),
                    None => None,
                },
            ),
            JsonRpcLine::Response { id, payload } => decoded_view(result) == spec_decode_response(
                match id {
                    Some(i) => Some(i@),
                    None => None,
                },
                match payload {
                    Ok(v) => Ok(v@),
                    Err(e) => Err(e@),
                },
            ),
        },
{
    match line {
        JsonRpcLine::NotObject => Err(DecodeError::NotAnObject),
        JsonRpcLine::Request { method, params, id } => decode_request(method, params, id),
        JsonRpcLine::Response { id, payload } => decode_response(id, payload),
    }
}

} // verus!
