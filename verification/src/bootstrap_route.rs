//! How a decode server finds a prefill rank, and how the prefill server answers.
use vstd::prelude::*;
use vstd::string::*;

use crate::bootstrap_frame::{frame_fault_message, MooncakeBootstrapFrameError};
use crate::bootstrap_state::{
    lookup, ready, server_sizes, MooncakeRemoteKvLayout, MooncakeRemoteKvLayoutError,
    PrefillBootstrapState, PrefillRankInfo, PrefillServerInfo, RankAddress, ServerSizes,
};
use crate::order::Place;
use crate::pd_bootstrap::MooncakeDecodeBootstrapError;
use crate::text::{
    bounded, cat2, cat3, cat4, cat5, chars_of, decimal, decimal_i64, decimal_u64, decimal_usize,
    find, find_chars, parse_unsigned, signed_decimal, split_words, text_of, unsigned_value, words,
};

verus! {

/// The ranks that a decode server asks for.
#[derive(Clone, Copy, Debug)]
pub struct RouteQuery {
    pub prefill_dp_rank: i32,
    pub prefill_cp_rank: i32,
    pub target_tp_rank: i32,
    pub target_pp_rank: i32,
}

/// The answer to a query for ranks.
#[derive(Debug)]
pub enum RouteAnswer {
    /// The sizes of the server.
    Server(PrefillServerInfo),
    /// The address of a rank.
    Rank(PrefillRankInfo),
    /// The server cannot answer yet.
    Unavailable(String),
    /// The query is no query.
    BadRequest(String),
    /// No rank has registered at that place.
    NotFound(String),
}

/// What a [`RouteAnswer`] says.
pub enum Route {
    Server(ServerSizes),
    Rank(RankAddress),
    Unavailable(Seq<char>),
    BadRequest(Seq<char>),
    NotFound(Seq<char>),
}

impl View for RouteAnswer {
    type V = Route;

    open spec fn view(&self) -> Route {
        match *self {
            RouteAnswer::Server(info) => Route::Server(info@),
            RouteAnswer::Rank(info) => Route::Rank(info@),
            RouteAnswer::Unavailable(message) => Route::Unavailable(message@),
            RouteAnswer::BadRequest(message) => Route::BadRequest(message@),
            RouteAnswer::NotFound(message) => Route::NotFound(message@),
        }
    }
}

/// What is said while ranks are missing.
pub open spec fn not_registered_message(registered: nat) -> Seq<char> {
    "Prefill server not fully registered yet ("@ + decimal(registered) + " workers registered)."@
}

/// What is said of a place at which no rank has registered.
pub open spec fn not_found_message(query: RouteQuery) -> Seq<char> {
    "Bootstrap info not found for dp_rank="@ + signed_decimal(query.prefill_dp_rank as int)
        + " cp_rank="@ + signed_decimal(query.prefill_cp_rank as int) + " tp_rank="@
        + signed_decimal(query.target_tp_rank as int) + " pp_rank="@ + signed_decimal(
        query.target_pp_rank as int,
    )
}

/// The answer to a query. All ranks being -1 asks for the sizes of the server.
pub open spec fn route_for(
    state: crate::bootstrap_state::BootstrapState,
    query: RouteQuery,
) -> Route {
    let for_server = query.prefill_dp_rank == -1 && query.prefill_cp_rank == -1
        && query.target_tp_rank == -1 && query.target_pp_rank == -1;
    if !ready(state) {
        Route::Unavailable(not_registered_message(state.registered_count))
    } else if for_server {
        Route::Server(server_sizes(state)->0)
    } else if query.prefill_dp_rank < 0 || query.prefill_cp_rank < 0 || query.target_tp_rank < 0
        || query.target_pp_rank < 0 {
        Route::BadRequest("rank query fields must be non-negative"@)
    } else {
        let place: Place = (
            query.prefill_dp_rank as usize,
            query.prefill_cp_rank as usize,
            query.target_tp_rank as usize,
            query.target_pp_rank as usize,
        );
        match lookup(state.ranks, place) {
            Some(address) => Route::Rank(address),
            None => Route::NotFound(not_found_message(query)),
        }
    }
}

impl PrefillBootstrapState {
    /// The answer to a query for ranks.
    pub fn route(&self, query: RouteQuery) -> (answer: RouteAnswer)
        requires
            self.wf(),
        ensures
            answer@ == route_for(self@, query),
    {
        if query.prefill_dp_rank == -1 && query.prefill_cp_rank == -1 && query.target_tp_rank == -1
            && query.target_pp_rank == -1 {
            return match self.server_info() {
                Some(info) => RouteAnswer::Server(info),
                None => RouteAnswer::Unavailable(self.not_registered()),
            };
        }
        if !self.is_ready() {
            return RouteAnswer::Unavailable(self.not_registered());
        }
        if query.prefill_dp_rank < 0 || query.prefill_cp_rank < 0 || query.target_tp_rank < 0
            || query.target_pp_rank < 0 {
            return RouteAnswer::BadRequest(
                "rank query fields must be non-negative".to_owned(),
            );
        }
        match self.rank_info(
            query.prefill_dp_rank as usize,
            query.prefill_cp_rank as usize,
            query.target_tp_rank as usize,
            query.target_pp_rank as usize,
        ) {
            Some(info) => RouteAnswer::Rank(info),
            None => {
                let head = cat4(
                    "Bootstrap info not found for dp_rank=",
                    decimal_i64(query.prefill_dp_rank as i64).as_str(),
                    " cp_rank=",
                    decimal_i64(query.prefill_cp_rank as i64).as_str(),
                );
                RouteAnswer::NotFound(
                    cat5(
                        head.as_str(),
                        " tp_rank=",
                        decimal_i64(query.target_tp_rank as i64).as_str(),
                        " pp_rank=",
                        decimal_i64(query.target_pp_rank as i64).as_str(),
                    ),
                )
            },
        }
    }

    fn not_registered(&self) -> (message: String)
        ensures
            message@ == not_registered_message(self@.registered_count),
    {
        cat3(
            "Prefill server not fully registered yet (",
            decimal_usize(self.registered_count()).as_str(),
            " workers registered).",
        )
    }
}

/// The path that asks a prefill server for a rank.
pub fn route_query_path(query: RouteQuery) -> (path: String)
    ensures
        path@ == "/route?prefill_dp_rank="@ + signed_decimal(query.prefill_dp_rank as int)
            + "&prefill_cp_rank="@ + signed_decimal(query.prefill_cp_rank as int)
            + "&target_tp_rank="@ + signed_decimal(query.target_tp_rank as int)
            + "&target_pp_rank="@ + signed_decimal(query.target_pp_rank as int),
{
    let head = cat4(
        "/route?prefill_dp_rank=",
        decimal_i64(query.prefill_dp_rank as i64).as_str(),
        "&prefill_cp_rank=",
        decimal_i64(query.prefill_cp_rank as i64).as_str(),
    );
    cat5(
        head.as_str(),
        "&target_tp_rank=",
        decimal_i64(query.target_tp_rank as i64).as_str(),
        "&target_pp_rank=",
        decimal_i64(query.target_pp_rank as i64).as_str(),
    )
}

/// The request that fetches `path` from the server at `addr`.
pub fn http_get_request(addr: &str, path: &str) -> (request: String)
    ensures
        request@ == "GET "@ + path@ + " HTTP/1.1\r\nHost: "@ + addr@
            + "\r\nConnection: close\r\n\r\n"@,
{
    cat5("GET ", path, " HTTP/1.1\r\nHost: ", addr, "\r\nConnection: close\r\n\r\n")
}

/// The first line of a text; an empty text has none.
pub open spec fn first_line(text: Seq<char>) -> Seq<char> {
    match find(text, "\n"@) {
        Some(end) => text.take(end as int),
        None => text,
    }
}

/// The status that the head of an HTTP response tells: the second word of its first line.
pub open spec fn http_status(head: Seq<char>) -> Option<nat> {
    let line = words(first_line(head));
    if line.len() >= 2 {
        bounded(unsigned_value(line[1]), 0xffff)
    } else {
        None
    }
}

/// What an HTTP response says: its status and its body.
pub open spec fn http_parts(response: Seq<char>) -> Option<(nat, Seq<char>)> {
    match find(response, "\r\n\r\n"@) {
        Some(end) => match http_status(response.take(end as int)) {
            Some(status) => Some((status, response.skip((end + 4) as int))),
            None => None,
        },
        None => None,
    }
}

/// The body of an HTTP response with the status 200.
pub fn http_success_body(response: &str) -> (body: Result<String, MooncakeDecodeBootstrapError>)
    ensures
        match body {
            Ok(text) => http_parts(response@) == Some((200nat, text@)),
            Err(MooncakeDecodeBootstrapError::HttpStatus { status, body: text }) => status != 200
                && http_parts(response@) == Some((status as nat, text@)),
            Err(MooncakeDecodeBootstrapError::InvalidHttpResponse) => http_parts(
                response@,
            ) is None,
            Err(_) => false,
        },
{
    proof {
        reveal_strlit("\r\n\r\n");
        reveal_strlit("\n");
    }
    let chars = chars_of(response);
    let end: usize = match find_chars(&chars, "\r\n\r\n") {
        Some(place) => place,
        None => {
            return Err(MooncakeDecodeBootstrapError::InvalidHttpResponse);
        },
    };
    let head = chars_of(text_of(&chars, 0, end).as_str());
    proof {
        assert(head@ =~= response@.take(end as int));
    }
    let line_end: usize = match find_chars(&head, "\n") {
        Some(place) => place,
        None => head.len(),
    };
    let line = chars_of(text_of(&head, 0, line_end).as_str());
    proof {
        assert(line@ =~= first_line(head@));
    }
    let line_words = split_words(&line);
    if line_words.len() < 2 {
        return Err(MooncakeDecodeBootstrapError::InvalidHttpResponse);
    }
    proof {
        assert(words(line@)[1] == line_words@[1]@);
    }
    let status: u16 = match parse_unsigned(line_words[1].as_str(), 0xffff) {
        Some(n) => n as u16,
        None => {
            return Err(MooncakeDecodeBootstrapError::InvalidHttpResponse);
        },
    };
    let total: usize = chars.len();
    let body = text_of(&chars, end + 4, total);
    proof {
        assert(body@ =~= response@.skip(end + 4));
    }
    if status != 200 {
        return Err(MooncakeDecodeBootstrapError::HttpStatus { status, body });
    }
    Ok(body)
}

impl MooncakeDecodeBootstrapError {
    /// The message that the error is reported with.
    pub open spec fn message(self) -> Seq<char> {
        match self {
            MooncakeDecodeBootstrapError::HttpStatus { status, body } =>
                "bootstrap route query failed with HTTP "@ + decimal(status as nat) + ": "@ + body@,
            MooncakeDecodeBootstrapError::InvalidHttpResponse =>
                "invalid bootstrap HTTP response"@,
            MooncakeDecodeBootstrapError::Io(error) => "bootstrap HTTP client I/O error: "@
                + error@,
            MooncakeDecodeBootstrapError::Json(error) => "bootstrap HTTP JSON error: "@ + error@,
            MooncakeDecodeBootstrapError::MissingAuxIndex { session_id } =>
                "Mooncake transfer metadata for "@ + session_id@ + " needs aux index"@,
            MooncakeDecodeBootstrapError::TaskJoin(error) => "bootstrap client task join error: "@
                + error@,
            MooncakeDecodeBootstrapError::Zmq(error) => "bootstrap ZMQ client error: "@ + error@,
        }
    }

    /// The message that the error is reported with.
    pub fn to_string(&self) -> (message: String)
        ensures
            message@ == self.message(),
    {
        match self {
            MooncakeDecodeBootstrapError::HttpStatus { status, body } => cat4(
                "bootstrap route query failed with HTTP ",
                decimal_u64(*status as u64).as_str(),
                ": ",
                body.as_str(),
            ),
            MooncakeDecodeBootstrapError::InvalidHttpResponse =>
                "invalid bootstrap HTTP response".to_owned(),
            MooncakeDecodeBootstrapError::Io(error) => cat2(
                "bootstrap HTTP client I/O error: ",
                error.as_str(),
            ),
            MooncakeDecodeBootstrapError::Json(error) => cat2(
                "bootstrap HTTP JSON error: ",
                error.as_str(),
            ),
            MooncakeDecodeBootstrapError::MissingAuxIndex { session_id } => cat3(
                "Mooncake transfer metadata for ",
                session_id.as_str(),
                " needs aux index",
            ),
            MooncakeDecodeBootstrapError::TaskJoin(error) => cat2(
                "bootstrap client task join error: ",
                error.as_str(),
            ),
            MooncakeDecodeBootstrapError::Zmq(error) => cat2(
                "bootstrap ZMQ client error: ",
                error.as_str(),
            ),
        }
    }
}

/// Why a prefill bootstrap server stopped.
#[derive(Clone, Debug)]
pub enum PrefillBootstrapServeError {
    Io(String),
    MooncakeFrame(MooncakeBootstrapFrameError),
    Zmq(String),
}

impl PrefillBootstrapServeError {
    /// The message that the error is reported with.
    pub open spec fn message(self) -> Seq<char> {
        match self {
            PrefillBootstrapServeError::Io(error) => "prefill bootstrap server error: "@ + error@,
            PrefillBootstrapServeError::MooncakeFrame(error) =>
                "prefill bootstrap Mooncake frame error: "@ + frame_fault_message(error@),
            PrefillBootstrapServeError::Zmq(error) => "prefill bootstrap ZMQ error: "@ + error@,
        }
    }

    /// The message that the error is reported with.
    pub fn to_string(&self) -> (message: String)
        ensures
            message@ == self.message(),
    {
        match self {
            PrefillBootstrapServeError::Io(error) => cat2(
                "prefill bootstrap server error: ",
                error.as_str(),
            ),
            PrefillBootstrapServeError::MooncakeFrame(error) => cat2(
                "prefill bootstrap Mooncake frame error: ",
                error.to_string().as_str(),
            ),
            PrefillBootstrapServeError::Zmq(error) => cat2(
                "prefill bootstrap ZMQ error: ",
                error.as_str(),
            ),
        }
    }
}

/// What to do after a room's layouts were asked for.
#[derive(Debug)]
pub enum MetadataPoll {
    /// The layouts are known.
    Layouts(Vec<(String, MooncakeRemoteKvLayout)>),
    /// The time is up.
    Failed(String),
    /// Wait and ask again.
    Wait,
}

/// What to do with an answer to the question for a room's layouts. An error is final once the
/// time is up.
pub fn metadata_poll(
    layouts: Result<Vec<(String, MooncakeRemoteKvLayout)>, MooncakeRemoteKvLayoutError>,
    time_is_up: bool,
) -> (poll: MetadataPoll)
    ensures
        match poll {
            MetadataPoll::Layouts(list) => layouts == Ok::<
                Vec<(String, MooncakeRemoteKvLayout)>,
                MooncakeRemoteKvLayoutError,
            >(list),
            MetadataPoll::Failed(message) => time_is_up && layouts is Err && message@
                == layouts->Err_0.message(),
            MetadataPoll::Wait => !time_is_up && layouts is Err,
        },
{
    match layouts {
        Ok(list) => MetadataPoll::Layouts(list),
        Err(error) => if time_is_up {
            MetadataPoll::Failed(error.to_string())
        } else {
            MetadataPoll::Wait
        },
    }
}

} // verus!
