//! What is asked of Ollama, and what its answers mean.

use vstd::prelude::*;

use crate::error;
use crate::error::{RouterError, RouterErrorView};
use crate::json;
use crate::json::serde_text;
use crate::json::{Json, JsonNumber, JsonView, NumberView};
use crate::router::threshold;
use crate::table::Table;
use crate::text;

verus! {

broadcast use crate::json::group_json;

/// How long Ollama keeps a model in memory after a request.
pub const OLLAMA_KEEP_ALIVE: &'static str = "30m";

// ---------------------------------------------------------------------------
// Requests

/// Where embeddings are computed.
pub fn embed_endpoint(base_url: &str) -> (r: String)
    ensures
        r@ == base_url@ + "/api/embed"@,
{
    text::concat2(base_url, "/api/embed")
}

/// Where text is generated.
pub fn generate_endpoint(base_url: &str) -> (r: String)
    ensures
        r@ == base_url@ + "/api/generate"@,
{
    text::concat2(base_url, "/api/generate")
}

/// The texts as values.
pub open spec fn str_values(ts: Seq<Seq<char>>) -> Seq<JsonView> {
    ts.map_values(|t: Seq<char>| JsonView::Str(t))
}

/// The body of a request for embeddings.
pub open spec fn embed_body(model: Seq<char>, inputs: Seq<Seq<char>>) -> JsonView {
    JsonView::Object(
        Map::<Seq<char>, JsonView>::empty().insert("model"@, JsonView::Str(model)).insert(
            "input"@,
            JsonView::Array(str_values(inputs)),
        ).insert("keep_alive"@, JsonView::Str(OLLAMA_KEEP_ALIVE@)),
    )
}

/// The body of a request for the embeddings of the texts.
pub fn embed_request(model: &str, inputs: &Vec<String>) -> (r: Json)
    ensures
        r@ == embed_body(model@, text::texts(inputs@)),
{
    let mut input: Vec<Json> = Vec::new();
    let mut i: usize = 0;
    assert(json::items_view(input@) =~= str_values(text::texts(inputs@).take(0)));
    while i < inputs.len()
        invariant
            i <= inputs@.len(),
            json::items_view(input@) == str_values(text::texts(inputs@).take(i as int)),
        decreases inputs@.len() - i,
    {
        input.push(Json::Str(inputs[i].clone()));
        assert(text::texts(inputs@).take(i + 1) =~= text::texts(inputs@).take(i as int).push(inputs@[i as int]@));
        assert(str_values(text::texts(inputs@).take(i + 1)) =~= str_values(text::texts(inputs@).take(i as int)).push(
            JsonView::Str(inputs@[i as int]@),
        ));
        i = i + 1;
    }
    assert(text::texts(inputs@).take(inputs@.len() as int) =~= text::texts(inputs@));
    let mut body: Table<Json> = Table::new();
    body.insert("model".to_owned(), Json::Str(model.to_owned()));
    body.insert("input".to_owned(), Json::Array(input));
    body.insert("keep_alive".to_owned(), Json::Str(OLLAMA_KEEP_ALIVE.to_owned()));
    Json::Object(body)
}

/// The options of a request to generate: nothing is left to chance.
pub open spec fn generate_options() -> JsonView {
    JsonView::Object(
        Map::<Seq<char>, JsonView>::empty().insert(
            "temperature"@,
            JsonView::Number(NumberView::Float("0.0"@)),
        ).insert("seed"@, JsonView::Number(NumberView::Int(0))),
    )
}

/// The body of a request to generate a value that fits the schema. The instructions and the prompt
/// are in keys of their own.
pub open spec fn generate_body(model: Seq<char>, system: Seq<char>, prompt: Seq<char>, schema: JsonView) -> JsonView {
    JsonView::Object(
        Map::<Seq<char>, JsonView>::empty().insert("model"@, JsonView::Str(model)).insert(
            "system"@,
            JsonView::Str(system),
        ).insert("prompt"@, JsonView::Str(prompt)).insert("stream"@, JsonView::Bool(false)).insert(
            "format"@,
            schema,
        ).insert("options"@, generate_options()).insert("keep_alive"@, JsonView::Str(OLLAMA_KEEP_ALIVE@)),
    )
}

/// The body of a request to generate a value that fits the schema.
pub fn generate_request(model: &str, system: &str, prompt: &str, schema: &Json) -> (r: Json)
    ensures
        r@ == generate_body(model@, system@, prompt@, schema@),
{
    let mut options: Table<Json> = Table::new();
    options.insert("temperature".to_owned(), Json::Number(JsonNumber::Float("0.0".to_owned())));
    options.insert("seed".to_owned(), Json::Number(JsonNumber::PosInt(0)));
    let mut body: Table<Json> = Table::new();
    body.insert("model".to_owned(), Json::Str(model.to_owned()));
    body.insert("system".to_owned(), Json::Str(system.to_owned()));
    body.insert("prompt".to_owned(), Json::Str(prompt.to_owned()));
    body.insert("stream".to_owned(), Json::Bool(false));
    body.insert("format".to_owned(), schema.copy());
    body.insert("options".to_owned(), Json::Object(options));
    body.insert("keep_alive".to_owned(), Json::Str(OLLAMA_KEEP_ALIVE.to_owned()));
    Json::Object(body)
}

// ---------------------------------------------------------------------------
// Failures

/// What a request that was not answered means: that there was no connection comes before that it
/// took too long.
pub fn classify_send_error(is_connect: bool, is_timeout: bool, detail: &str, base_url: &str, endpoint: &str) -> (r:
    RouterError)
    ensures
        r@ == (if is_connect {
            RouterErrorView::OllamaUnreachable { base_url: base_url@, detail: detail@ }
        } else if is_timeout {
            RouterErrorView::Timeout { endpoint: endpoint@, seconds: threshold::OLLAMA_TIMEOUT_SECS }
        } else {
            RouterErrorView::MalformedResponse { endpoint: endpoint@, detail: detail@ }
        }),
{
    if is_connect {
        RouterError::OllamaUnreachable { base_url: base_url.to_owned(), detail: detail.to_owned() }
    } else if is_timeout {
        RouterError::Timeout { endpoint: endpoint.to_owned(), seconds: threshold::OLLAMA_TIMEOUT_SECS }
    } else {
        RouterError::MalformedResponse { endpoint: endpoint.to_owned(), detail: detail.to_owned() }
    }
}

/// The body in which Ollama reports an error.
#[derive(Debug, PartialEq)]
pub struct OllamaErrorBody {
    pub error: String,
}

/// The error that a body reports: it is under its key, or the only element of an array.
pub open spec fn reported_error(body: Result<JsonView, Seq<char>>) -> Option<Seq<char>> {
    match body {
        Ok(JsonView::Object(m)) => match json::field(JsonView::Object(m), "error"@) {
            Some(JsonView::Str(e)) => Some(e),
            _ => None,
        },
        Ok(JsonView::Array(items)) => if items.len() == 1 {
            json::text_of(items[0])
        } else {
            None
        },
        _ => None,
    }
}

/// The error that a body which holds the value reports.
pub fn error_in(body: &Json) -> (r: Option<OllamaErrorBody>)
    ensures
        match r {
            Some(e) => reported_error(Ok(body@)) == Some(e.error@),
            None => reported_error(Ok(body@)) is None,
        },
{
    let found = match body {
        Json::Object(t) => t.get("error"),
        Json::Array(items) => if items.len() == 1 {
            assert(json::items_view(items@)[0] == items@[0]@);
            Some(&items[0])
        } else {
            None
        },
        _ => None,
    };
    match found {
        Some(Json::Str(e)) => Some(OllamaErrorBody { error: e.clone() }),
        _ => None,
    }
}

/// The error that a body reports. The body is read as any JSON is: where an object repeats a key, the
/// last one counts.
pub fn read_error_body(body: &str) -> (r: Option<OllamaErrorBody>)
    ensures
        match r {
            Some(e) => reported_error(serde_text::parsed_json(body@)) == Some(e.error@),
            None => reported_error(serde_text::parsed_json(body@)) is None,
        },
{
    match serde_text::parse_json(body) {
        Ok(j) => error_in(&j),
        Err(_) => None,
    }
}

/// What an answer with the status means where it is no success: the words of the status are those
/// of HTTP, and `body` is what could be read of the answer.
pub open spec fn refusal(
    model: Seq<char>,
    endpoint: Seq<char>,
    status: u16,
    status_words: Seq<char>,
    body: Option<Seq<char>>,
) -> Option<RouterErrorView> {
    if status == 404 {
        let reported = match body {
            Some(b) => reported_error(serde_text::parsed_json(b)),
            None => None,
        };
        Some(
            RouterErrorView::ModelNotFound {
                model,
                detail: match reported {
                    Some(e) => e,
                    None => "model not found"@,
                },
            },
        )
    } else if 200 <= status <= 299 {
        None
    } else {
        Some(
            RouterErrorView::MalformedResponse {
                endpoint,
                detail: "HTTP "@ + status_words + ": "@ + match body {
                    Some(b) => b,
                    None => Seq::empty(),
                },
            },
        )
    }
}

/// What an answer with the status means where it is no success.
pub fn refused(model: &str, endpoint: &str, status: u16, status_words: &str, body: &Option<String>) -> (r: Option<
    RouterError,
>)
    ensures
        match r {
            Some(e) => refusal(
                model@,
                endpoint@,
                status,
                status_words@,
                crate::definition::optional_text(*body),
            ) == Some(e@),
            None => refusal(
                model@,
                endpoint@,
                status,
                status_words@,
                crate::definition::optional_text(*body),
            ) is None,
        },
{
    if status == 404 {
        let reported = match body {
            Some(b) => read_error_body(b),
            None => None,
        };
        let detail = match reported {
            Some(e) => e.error,
            None => "model not found".to_owned(),
        };
        Some(RouterError::ModelNotFound { model: model.to_owned(), detail })
    } else if 200 <= status && status <= 299 {
        None
    } else {
        let text = match body {
            Some(b) => b.clone(),
            None => String::new(),
        };
        Some(
            RouterError::MalformedResponse {
                endpoint: endpoint.to_owned(),
                detail: error::words4("HTTP ", status_words, ": ", &text),
            },
        )
    }
}

// ---------------------------------------------------------------------------
// What was generated

/// The text in the envelope of an answer. It is a string, beside a flag that says whether the
/// answer is complete: each under its key, or the two as an array.
pub open spec fn envelope_text(v: JsonView) -> Option<Seq<char>> {
    match v {
        JsonView::Object(m) => match (json::field(v, "response"@), json::field(v, "done"@)) {
            (Some(JsonView::Str(t)), Some(JsonView::Bool(_))) => Some(t),
            _ => None,
        },
        JsonView::Array(items) => if items.len() == 2 && items[0] is Str && items[1] is Bool {
            json::text_of(items[0])
        } else {
            None
        },
        _ => None,
    }
}

/// What is said of an envelope without a text.
pub const NO_ENVELOPE: &'static str = "expected a string `response` and a flag `done`";

/// The text in an envelope, by what the body of an answer was read as; or what is said where there
/// is none.
pub open spec fn text_or_fault(body: Result<JsonView, Seq<char>>) -> Result<Seq<char>, Seq<char>> {
    match body {
        Err(e) => Err(e),
        Ok(v) => match envelope_text(v) {
            Some(t) => Ok(t),
            None => Err(NO_ENVELOPE@),
        },
    }
}

/// The value that was generated, by the text in the envelope and by what that text was read as.
pub open spec fn generated(
    endpoint: Seq<char>,
    envelope: Result<Seq<char>, Seq<char>>,
    inner: Result<JsonView, Seq<char>>,
) -> Result<JsonView, RouterErrorView> {
    match (envelope, inner) {
        (Err(e), _) => Err(RouterErrorView::MalformedResponse { endpoint, detail: e }),
        (Ok(_), Ok(j)) => Ok(j),
        (Ok(_), Err(e)) => Err(
            RouterErrorView::MalformedResponse { endpoint, detail: "`response` field was not valid JSON: "@ + e },
        ),
    }
}

/// The text that an envelope holds; none where there is no envelope.
pub open spec fn inner_text(envelope: Result<Seq<char>, Seq<char>>) -> Seq<char> {
    match envelope {
        Ok(t) => t,
        Err(_) => Seq::empty(),
    }
}

/// The text in the envelope.
pub fn text_in_envelope(v: &Json) -> (r: Option<String>)
    ensures
        match r {
            Some(t) => envelope_text(v@) == Some(t@),
            None => envelope_text(v@) is None,
        },
{
    match v {
        Json::Object(t) => match (t.get("response"), t.get("done")) {
            (Some(Json::Str(t)), Some(Json::Bool(_))) => Some(t.clone()),
            _ => None,
        },
        Json::Array(items) => {
            if items.len() == 2 {
                assert(json::items_view(items@)[0] == items@[0]@);
                assert(json::items_view(items@)[1] == items@[1]@);
                match (&items[0], &items[1]) {
                    (Json::Str(t), Json::Bool(_)) => Some(t.clone()),
                    _ => None,
                }
            } else {
                None
            }
        },
        _ => None,
    }
}

/// The value that was generated: the text in the envelope is read as JSON. Where the body had no
/// envelope, `envelope` is what is said of it.
pub fn generated_in(envelope: Result<String, String>, endpoint: &str) -> (r: Result<Json, RouterError>)
    ensures
        ({
            let envelope = text::text_result(envelope);
            let expected = generated(endpoint@, envelope, serde_text::parsed_json(inner_text(envelope)));
            match r {
                Ok(j) => expected == Ok::<JsonView, RouterErrorView>(j@),
                Err(e) => expected == Err::<JsonView, RouterErrorView>(e@),
            }
        }),
{
    let inner = match envelope {
        Ok(t) => t,
        Err(e) => return Err(RouterError::MalformedResponse { endpoint: endpoint.to_owned(), detail: e }),
    };
    match serde_text::parse_json(&inner) {
        Ok(j) => Ok(j),
        Err(e) => Err(
            RouterError::MalformedResponse {
                endpoint: endpoint.to_owned(),
                detail: text::concat2("`response` field was not valid JSON: ", &e),
            },
        ),
    }
}

/// The value that was generated: the body is read as JSON, and so is the text in its envelope. A
/// value in place of that text is no text. The body is read as any JSON is, so where an object
/// repeats a key, the last one counts; a caller that reads the envelope more strictly hands what it
/// found to `generated_in`.
pub fn parse_generate_envelope(raw_body: &str, endpoint: &str) -> (r: Result<Json, RouterError>)
    ensures
        ({
            let envelope = text_or_fault(serde_text::parsed_json(raw_body@));
            let expected = generated(endpoint@, envelope, serde_text::parsed_json(inner_text(envelope)));
            match r {
                Ok(j) => expected == Ok::<JsonView, RouterErrorView>(j@),
                Err(e) => expected == Err::<JsonView, RouterErrorView>(e@),
            }
        }),
{
    let envelope = match serde_text::parse_json(raw_body) {
        Err(e) => Err(e),
        Ok(v) => match text_in_envelope(&v) {
            Some(t) => Ok(t),
            None => Err(NO_ENVELOPE.to_owned()),
        },
    };
    generated_in(envelope, endpoint)
}

// ---------------------------------------------------------------------------
// Trying again

/// Whether a call for embeddings is made once more: only the first, and only where it took too
/// long.
pub open spec fn is_retried(attempt: u8, error: RouterErrorView) -> bool {
    attempt <= 1 && error is Timeout
}

/// Whether a call for embeddings is made once more.
pub fn retries_embed(attempt: u8, error: &RouterError) -> (r: bool)
    ensures
        r == is_retried(attempt, error@),
{
    attempt <= 1 && match error {
        RouterError::Timeout { .. } => true,
        _ => false,
    }
}

// ---------------------------------------------------------------------------
// What holds of it all

/// A request for embeddings names the model, holds the texts as strings in their order, and asks for
/// the model to be kept for half an hour. It holds nothing else.
pub proof fn embed_requests_hold_the_texts(model: Seq<char>, inputs: Seq<Seq<char>>)
    ensures
        embed_body(model, inputs) matches JsonView::Object(b) && {
            &&& b.dom() == set!["model"@, "input"@, "keep_alive"@]
            &&& b["model"@] == JsonView::Str(model)
            &&& b["keep_alive"@] == JsonView::Str("30m"@)
            &&& b["input"@] matches JsonView::Array(items) && items.len() == inputs.len() && forall|i: int|
                0 <= i < inputs.len() ==> #[trigger] items[i] == JsonView::Str(inputs[i])
        },
{
    reveal_strlit("model");
    reveal_strlit("input");
    reveal_strlit("keep_alive");
    assert("model"@[0] == 'm' && "input"@[0] == 'i' && "keep_alive"@[0] == 'k');
    assert(embed_body(model, inputs)->Object_0.dom() =~= set!["model"@, "input"@, "keep_alive"@]);
}

/// A request to generate names the model, has the instructions and the prompt in two keys, binds the
/// answer to the schema, asks for it in one piece, and leaves nothing to chance.
pub proof fn generate_requests_hold_the_question(model: Seq<char>, system: Seq<char>, prompt: Seq<char>, schema: JsonView)
    ensures
        generate_body(model, system, prompt, schema) matches JsonView::Object(b) && {
            &&& b.dom() == set!["model"@, "system"@, "prompt"@, "stream"@, "format"@, "options"@, "keep_alive"@]
            &&& b["model"@] == JsonView::Str(model)
            &&& b["system"@] == JsonView::Str(system)
            &&& b["prompt"@] == JsonView::Str(prompt)
            &&& b["stream"@] == JsonView::Bool(false)
            &&& b["format"@] == schema
            &&& b["keep_alive"@] == JsonView::Str("30m"@)
            &&& b["options"@] matches JsonView::Object(o) && o.dom() == set!["temperature"@, "seed"@]
                && o["temperature"@] == JsonView::Number(NumberView::Float("0.0"@)) && o["seed"@] == JsonView::Number(
                NumberView::Int(0),
            )
        },
{
    reveal_strlit("model");
    reveal_strlit("system");
    reveal_strlit("prompt");
    reveal_strlit("stream");
    reveal_strlit("format");
    reveal_strlit("options");
    reveal_strlit("keep_alive");
    reveal_strlit("temperature");
    reveal_strlit("seed");
    assert("model"@[0] == 'm' && "prompt"@[0] == 'p' && "format"@[0] == 'f' && "options"@[0] == 'o' && "keep_alive"@[0]
        == 'k');
    assert("system"@[0] == 's' && "system"@[1] == 'y' && "stream"@[0] == 's' && "stream"@[1] == 't');
    assert("temperature"@[0] == 't' && "seed"@[0] == 's');
    let b = generate_body(model, system, prompt, schema)->Object_0;
    assert(b.dom() =~= set!["model"@, "system"@, "prompt"@, "stream"@, "format"@, "options"@, "keep_alive"@]);
    assert(generate_options()->Object_0.dom() =~= set!["temperature"@, "seed"@]);
}

/// A 404 says that the model is not there, in the words of the body's `error` where it has such a
/// text; every other status outside 200 to 299 is a malformed response, with the status and the body
/// in its words; and 200 to 299 is no refusal.
pub proof fn refusals_follow_the_status(
    model: Seq<char>,
    endpoint: Seq<char>,
    status: u16,
    status_words: Seq<char>,
    body: Seq<char>,
    m: Map<Seq<char>, JsonView>,
    e: Seq<char>,
)
    ensures
        200 <= status <= 299 <==> refusal(model, endpoint, status, status_words, Some(body)) is None,
        200 <= status <= 299 <==> refusal(model, endpoint, status, status_words, None) is None,
        refusal(model, endpoint, 404, status_words, None) == Some(
            RouterErrorView::ModelNotFound { model, detail: "model not found"@ },
        ),
        serde_text::parsed_json(body) == Ok::<JsonView, Seq<char>>(JsonView::Object(m)) ==> {
            let r = refusal(model, endpoint, 404, status_words, Some(body));
            &&& m.dom().contains("error"@) && m["error"@] == JsonView::Str(e) ==> r == Some(
                RouterErrorView::ModelNotFound { model, detail: e },
            )
            &&& !(m.dom().contains("error"@) && m["error"@] is Str) ==> r == Some(
                RouterErrorView::ModelNotFound { model, detail: "model not found"@ },
            )
        },
        serde_text::parsed_json(body) is Err ==> refusal(model, endpoint, 404, status_words, Some(body)) == Some(
            RouterErrorView::ModelNotFound { model, detail: "model not found"@ },
        ),
        status != 404 && !(200 <= status <= 299) ==> refusal(model, endpoint, status, status_words, Some(body)) == Some(
            RouterErrorView::MalformedResponse { endpoint, detail: "HTTP "@ + status_words + ": "@ + body },
        ),
{
}

/// The text of an answer is its `response`, where that is a string and `done` is a flag, whichever.
/// What is generated is what that text holds as JSON; a text that is no JSON, and a body without such
/// a text, are malformed responses of the endpoint.
pub proof fn generated_values_stand_in_the_response(
    endpoint: Seq<char>,
    m: Map<Seq<char>, JsonView>,
    t: Seq<char>,
    done: bool,
    inner: Result<JsonView, Seq<char>>,
    fault: Seq<char>,
)
    ensures
        ({
            let body = Ok::<JsonView, Seq<char>>(JsonView::Object(m));
            &&& m.dom().contains("response"@) && m.dom().contains("done"@) && m["response"@] == JsonView::Str(t)
                && m["done"@] == JsonView::Bool(done) ==> text_or_fault(body) == Ok::<Seq<char>, Seq<char>>(t)
            &&& !(m.dom().contains("response"@) && m["response"@] is Str) ==> text_or_fault(body) is Err
            &&& !(m.dom().contains("done"@) && m["done"@] is Bool) ==> text_or_fault(body) is Err
        }),
        text_or_fault(Err(fault)) == Err::<Seq<char>, Seq<char>>(fault),
        inner_text(Ok(t)) == t,
        inner matches Ok(j) ==> generated(endpoint, Ok(t), inner) == Ok::<JsonView, RouterErrorView>(j),
        inner matches Err(e) ==> generated(endpoint, Ok(t), inner) == Err::<JsonView, RouterErrorView>(
            RouterErrorView::MalformedResponse { endpoint, detail: "`response` field was not valid JSON: "@ + e },
        ),
        generated(endpoint, Err(fault), inner) == Err::<JsonView, RouterErrorView>(
            RouterErrorView::MalformedResponse { endpoint, detail: fault },
        ),
{
}

/// Only a first call that took too long is made once more: there is never a third.
pub proof fn one_retry_after_a_timeout(attempt: u8, error: RouterErrorView)
    ensures
        attempt >= 2 ==> !is_retried(attempt, error),
        is_retried(1, error) <==> (error matches RouterErrorView::Timeout { .. }),
{
}

/// A call that could not be made is reported as that: the address where there is no connection, the
/// endpoint and ten seconds where there was no answer in time, and else as an answer that makes no sense.
pub proof fn failed_calls_are_told_apart(
    is_connect: bool,
    is_timeout: bool,
    detail: &str,
    base_url: &str,
    endpoint: &str,
    e: RouterError,
    a: String,
    b: String,
)
    requires
        call_ensures(classify_send_error, (is_connect, is_timeout, detail, base_url, endpoint), e),
        call_ensures(embed_endpoint, (base_url,), a),
        call_ensures(generate_endpoint, (base_url,), b),
    ensures
        a@ == base_url@ + "/api/embed"@,
        b@ == base_url@ + "/api/generate"@,
        is_connect ==> (e@ matches RouterErrorView::OllamaUnreachable { base_url: u, detail: d } && u == base_url@ && d
            == detail@),
        !is_connect && is_timeout ==> (e@ matches RouterErrorView::Timeout { endpoint: p, seconds } && p == endpoint@
            && seconds == 10),
        !is_connect && !is_timeout ==> (e@ matches RouterErrorView::MalformedResponse { endpoint: p, detail: d } && p
            == endpoint@ && d == detail@),
{
}

/// Requests, refusals and answers are made and read as was said of them.
pub proof fn calls_are_made_and_read(
    model: &str,
    inputs: Vec<String>,
    q: Json,
    system: &str,
    prompt: &str,
    schema: Json,
    g: Json,
    endpoint: &str,
    status: u16,
    status_words: &str,
    body: Option<String>,
    f: Option<RouterError>,
    attempt: u8,
    error: RouterError,
    again: bool,
    raw: &str,
    v: Result<Json, RouterError>,
)
    requires
        call_ensures(embed_request, (model, &inputs), q),
        call_ensures(generate_request, (model, system, prompt, &schema), g),
        call_ensures(refused, (model, endpoint, status, status_words, &body), f),
        call_ensures(retries_embed, (attempt, &error), again),
        call_ensures(parse_generate_envelope, (raw, endpoint), v),
    ensures
        q@ == embed_body(model@, text::texts(inputs@)),
        g@ == generate_body(model@, system@, prompt@, schema@),
        f is Some <==> refusal(model@, endpoint@, status, status_words@, crate::definition::optional_text(body)) is Some,
        f is Some ==> refusal(model@, endpoint@, status, status_words@, crate::definition::optional_text(body)) == Some(
            f->0@,
        ),
        again <==> is_retried(attempt, error@),
        ({
            let envelope = text_or_fault(serde_text::parsed_json(raw@));
            let expected = generated(endpoint@, envelope, serde_text::parsed_json(inner_text(envelope)));
            &&& v matches Ok(j) ==> expected == Ok::<JsonView, RouterErrorView>(j@)
            &&& v matches Err(e) ==> expected == Err::<JsonView, RouterErrorView>(e@)
        }),
{
}

/// A body that is a list is read by place: an error is the only text in it, and an answer is a text and
/// a flag. A body without an answer is said to lack one, and a call is made again after a timeout, up to
/// the first.
pub proof fn lists_are_read_by_place(
    model: Seq<char>,
    endpoint: Seq<char>,
    status: u16,
    words: Seq<char>,
    items: Seq<JsonView>,
    t: Seq<char>,
    b: bool,
    v: JsonView,
    attempt: u8,
    error: RouterErrorView,
)
    ensures
        items.len() == 1 && items[0] == JsonView::Str(t) ==> reported_error(Ok(JsonView::Array(items))) == Some(t),
        items.len() != 1 ==> reported_error(Ok(JsonView::Array(items))) is None,
        !(v is Object || v is Array) ==> reported_error(Ok(v)) is None && envelope_text(v) is None,
        items.len() == 2 && items[0] == JsonView::Str(t) && items[1] == JsonView::Bool(b) ==> envelope_text(
            JsonView::Array(items),
        ) == Some(t),
        !(items.len() == 2 && items[0] is Str && items[1] is Bool) ==> envelope_text(JsonView::Array(items)) is None,
        envelope_text(v) is None ==> text_or_fault(Ok(v)) == Err::<Seq<char>, Seq<char>>(
            "expected a string `response` and a flag `done`"@,
        ),
        status != 404 && !(200 <= status <= 299) ==> refusal(model, endpoint, status, words, None) == Some(
            RouterErrorView::MalformedResponse { endpoint, detail: "HTTP "@ + words + ": "@ + Seq::<char>::empty() },
        ),
        is_retried(attempt, error) <==> attempt <= 1 && (error matches RouterErrorView::Timeout { .. }),
{
}

} // verus!
