//! The file that a profile is written to.
use vstd::prelude::*;
use vstd::string::*;

use crate::json::{empty_object, float_free, Json, JsonNumber, JsonView};
use crate::json_text::{indent_json, indented};
use crate::paths::{join_path, joined};
use crate::text::{cat2, cat5, decimal, decimal_u64, same_text};

verus! {

/// When a profile was taken: in milliseconds since the start of 1970, and how long it took.
#[derive(Clone, Copy, Debug, PartialEq, Eq, Structural)]
pub struct ProfileTimes {
    pub started_unix_ms: u64,
    pub stopped_unix_ms: u64,
    pub duration_ms: u64,
}

/// The first `n` attributes as an object; where a name comes twice, the later counts.
pub open spec fn attributes_view(attributes: Seq<(String, String)>, n: nat) -> JsonView
    decreases n,
{
    if n == 0 || n > attributes.len() {
        empty_object()
    } else {
        attributes_view(attributes, (n - 1) as nat).with(
            attributes[n - 1].0@,
            JsonView::Text(attributes[n - 1].1@),
        )
    }
}

/// How the profile was asked for, by the first `n` attributes.
pub open spec fn transport(attributes: Seq<(String, String)>, n: nat) -> Seq<char>
    decreases n,
{
    if n == 0 || n > attributes.len() {
        "tonic-grpc"@
    } else if attributes[n - 1].0@ == "transport"@ {
        attributes[n - 1].1@
    } else {
        transport(attributes, (n - 1) as nat)
    }
}

/// The JSON number `n`.
pub open spec fn number(n: u64) -> JsonView {
    JsonView::Number(JsonNumber::Unsigned(n))
}

/// What a profile says.
pub open spec fn profile_view(
    output_dir: Seq<char>,
    times: ProfileTimes,
    attributes: Seq<(String, String)>,
) -> JsonView {
    empty_object().with(
        "profile"@,
        empty_object().with(
            "transport"@,
            JsonView::Text(transport(attributes, attributes.len())),
        ).with("output_dir"@, JsonView::Text(output_dir)).with(
            "started_unix_ms"@,
            number(times.started_unix_ms),
        ).with("stopped_unix_ms"@, number(times.stopped_unix_ms)).with(
            "duration_ms"@,
            number(times.duration_ms),
        ).with("attributes"@, attributes_view(attributes, attributes.len())),
    )
}

fn attributes_json(attributes: &Vec<(String, String)>) -> (json: Json)
    ensures
        json@ == attributes_view(attributes@, attributes@.len()),
        float_free(json),
{
    let mut json = Json::object();
    let mut i: usize = 0;
    while i < attributes.len()
        invariant
            i <= attributes@.len(),
            json@ == attributes_view(attributes@, i as nat),
            float_free(json),
        decreases attributes@.len() - i,
    {
        let entry = &attributes[i];
        json = json.with(entry.0.as_str(), Json::text(entry.1.as_str()));
        i = i + 1;
    }
    json
}

fn transport_of(attributes: &Vec<(String, String)>) -> (name: String)
    ensures
        name@ == transport(attributes@, attributes@.len()),
{
    let mut name = "tonic-grpc".to_owned();
    let mut i: usize = 0;
    while i < attributes.len()
        invariant
            i <= attributes@.len(),
            name@ == transport(attributes@, i as nat),
        decreases attributes@.len() - i,
    {
        let entry = &attributes[i];
        if same_text(entry.0.as_str(), "transport") {
            name = entry.1.clone();
        }
        i = i + 1;
    }
    name
}

/// What a profile says.
pub fn profile_document(
    output_dir: &str,
    times: ProfileTimes,
    attributes: &Vec<(String, String)>,
) -> (json: Json)
    ensures
        json@ == profile_view(output_dir@, times, attributes@),
        float_free(json),
{
    let name = transport_of(attributes);
    let inner = Json::object().with("transport", Json::text(name.as_str())).with(
        "output_dir",
        Json::text(output_dir),
    ).with("started_unix_ms", Json::natural(times.started_unix_ms)).with(
        "stopped_unix_ms",
        Json::natural(times.stopped_unix_ms),
    ).with("duration_ms", Json::natural(times.duration_ms)).with(
        "attributes",
        attributes_json(attributes),
    );
    Json::object().with("profile", inner)
}

/// The file that a profile is written to.
pub fn profile_path(output_dir: &str, times: ProfileTimes) -> (path: String)
    ensures
        path@ == joined(
            output_dir@,
            "sglang-profile-"@ + decimal(times.started_unix_ms as nat) + "-"@ + decimal(
                times.stopped_unix_ms as nat,
            ) + ".json"@,
        ),
{
    let name = cat5(
        "sglang-profile-",
        decimal_u64(times.started_unix_ms).as_str(),
        "-",
        decimal_u64(times.stopped_unix_ms).as_str(),
        ".json",
    );
    join_path(output_dir, name.as_str())
}

/// The bytes that are written to the file of a profile, or why there are none.
pub fn profile_bytes(
    output_dir: &str,
    times: ProfileTimes,
    attributes: &Vec<(String, String)>,
) -> (bytes: Result<Vec<u8>, String>)
    ensures
        match bytes {
            Ok(b) => indented(profile_view(output_dir@, times, attributes@)) == Ok::<
                Seq<u8>,
                Seq<char>,
            >(b@),
            Err(message) => indented(profile_view(output_dir@, times, attributes@)) is Err
                && message@ == "serialize profile JSON: "@ + indented(
                profile_view(output_dir@, times, attributes@),
            )->Err_0,
        },
{
    let document = profile_document(output_dir, times, attributes);
    match indent_json(&document) {
        Ok(bytes) => Ok(bytes),
        Err(message) => Err(cat2("serialize profile JSON: ", message.as_str())),
    }
}

} // verus!
