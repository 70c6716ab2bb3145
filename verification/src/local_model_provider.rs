//! The local inference client's pure half: engine configuration, the
//! `llama-server` command lines, prompt construction, and the index checks
//! that put batched model responses back in request order.
//!
//! The HTTP exchange itself, and the decoding of responses, is done by the
//! caller; everything here works on plain values and request text.
use vstd::prelude::*;
use crate::text::{string_from, append_str, u64_to_decimal, decimal, chars_of, string_views};
use crate::json::{json_string_literal, json_string, json_string_array, json_array_of_strings};
use crate::base64::{png_data_url, image_data_url};

verus! {

/// Context window (tokens) both bundled servers are started with.
pub const SERVER_CONTEXT_SIZE: u32 = 8192;

/// Upper bound on generated tokens per chat/vision request.
pub const MAX_RESPONSE_TOKENS: u32 = 1024;

/// Default loopback host of the bundled engine.
pub const DEFAULT_HOST: &'static str = "127.0.0.1";

/// Default port of the chat/vision server.
pub const DEFAULT_CHAT_PORT: u16 = 8090;

/// Default port of the embedding server.
pub const DEFAULT_EMBED_PORT: u16 = 8091;

/// File name of the chat/vision model.
pub const CHAT_MODEL_FILE: &'static str = "google_gemma-3-4b-it-Q4_K_M.gguf";

/// File name of the multimodal projector used with the chat model.
pub const MMPROJ_FILE: &'static str = "mmproj-google_gemma-3-4b-it-f16.gguf";

/// File name of the embedding model.
pub const EMBED_MODEL_FILE: &'static str = "embeddinggemma-300M-Q8_0.gguf";

/// Download location of the chat/vision model.
pub const CHAT_MODEL_URL: &'static str = "https://huggingface.co/bartowski/google_gemma-3-4b-it-GGUF/resolve/main/google_gemma-3-4b-it-Q4_K_M.gguf";

/// Download location of the multimodal projector.
pub const MMPROJ_URL: &'static str = "https://huggingface.co/bartowski/google_gemma-3-4b-it-GGUF/resolve/main/mmproj-google_gemma-3-4b-it-f16.gguf";

/// Download location of the embedding model.
pub const EMBED_MODEL_URL: &'static str = "https://huggingface.co/ggml-org/embeddinggemma-300M-GGUF/resolve/main/embeddinggemma-300M-Q8_0.gguf";

/// Dimensionality of the embedding model's vectors.
pub const EMBEDDING_DIMENSIONS: usize = 768;

// ---------------------------------------------------------------------------
// Port numbers from configuration text
// ---------------------------------------------------------------------------

/// Whether every character of `s` is an ASCII digit.
pub open spec fn all_digits(s: Seq<char>) -> bool {
    forall|i: int| 0 <= i < s.len() ==> '0' <= #[trigger] s[i] && s[i] <= '9'
}

/// The value of a string of ASCII digits.
pub open spec fn digits_value(s: Seq<char>) -> nat
    decreases s.len(),
{
    if s.len() == 0 {
        0
    } else {
        digits_value(s.drop_last()) * 10 + ((s.last() as u32) - 48) as nat
    }
}

/// The digits of `s` after an optional leading `+`.
pub open spec fn unsigned_body(s: Seq<char>) -> Seq<char> {
    if s.len() > 0 && s[0] == '+' {
        s.drop_first()
    } else {
        s
    }
}

/// What `str::parse::<u16>` returns for `s`: an optional `+`, then at least
/// one ASCII digit, with a value that fits in 16 bits.
pub open spec fn parse_u16_spec(s: Seq<char>) -> Option<u16> {
    let body = unsigned_body(s);
    if body.len() > 0 && all_digits(body) && digits_value(body) <= 65535 {
        Some(digits_value(body) as u16)
    } else {
        None
    }
}

pub(crate) proof fn lemma_digits_prefix(s: Seq<char>, k: int)
    requires
        all_digits(s),
        0 <= k <= s.len(),
    ensures
        digits_value(s.take(k)) <= digits_value(s),
    decreases s.len(),
{
    if k < s.len() {
        assert(all_digits(s.drop_last()));
        lemma_digits_prefix(s.drop_last(), k);
        assert(s.drop_last().take(k) =~= s.take(k));
    } else {
        assert(s.take(k) =~= s);
    }
}

/// Parses a decimal `u16` the way `str::parse::<u16>` does.
pub fn parse_u16(s: &str) -> (r: Option<u16>)
    ensures
        r == parse_u16_spec(s@),
{
    let cs = chars_of(s);
    let n = cs.len();
    let start: usize = if n > 0 && cs[0] == '+' {
        1
    } else {
        0
    };
    let ghost body = unsigned_body(s@);
    assert(body =~= s@.subrange(start as int, n as int));
    if start == n {
        return None;
    }
    let mut value: u32 = 0;
    let mut i: usize = start;
    while i < n
        invariant
            cs@ == s@,
            n == s@.len(),
            start <= i <= n,
            body == s@.subrange(start as int, n as int),
            body == unsigned_body(s@),
            all_digits(s@.subrange(start as int, i as int)),
            value == digits_value(s@.subrange(start as int, i as int)),
            value <= 65535,
        decreases n - i,
    {
        let c = cs[i];
        let ghost prefix = s@.subrange(start as int, i + 1);
        assert(prefix.drop_last() =~= s@.subrange(start as int, i as int));
        if c < '0' || c > '9' {
            assert(!all_digits(body)) by {
                assert(body[i - start] == c);
            }
            return None;
        }
        let d: u32 = (c as u32) - 48;
        value = value * 10 + d;
        assert(all_digits(prefix));
        if value > 65535 {
            proof {
                if all_digits(body) {
                    lemma_digits_prefix(body, i + 1 - start);
                    assert(body.take(i + 1 - start) =~= prefix);
                }
            }
            return None;
        }
        i = i + 1;
    }
    Some(value as u16)
}

// ---------------------------------------------------------------------------
// Provider configuration
// ---------------------------------------------------------------------------

/// Status of the two local inference endpoints as shown to the user.
#[derive(Debug, Clone)]
pub struct LocalModelStatus {
    pub chat_endpoint: String,
    pub embedding_endpoint: String,
    pub chat_model: String,
    pub embedding_model: String,
    pub chat_available: bool,
    pub embedding_available: bool,
}

/// Where the bundled `llama-server` instances listen and which models they
/// serve.
#[derive(Debug, Clone)]
pub struct LlamaCppProvider {
    pub host: String,
    pub chat_port: u16,
    pub embed_port: u16,
    pub chat_model: String,
    pub embedding_model: String,
}

/// `http://host:port`.
pub open spec fn endpoint_url(host: Seq<char>, port: u16) -> Seq<char> {
    "http://"@ + host + ":"@ + decimal(port as nat)
}

fn endpoint_url_exec(host: &str, port: u16) -> (r: String)
    ensures
        r@ == endpoint_url(host@, port),
{
    let mut url = string_from("http://");
    append_str(&mut url, host);
    append_str(&mut url, ":");
    let digits = u64_to_decimal(port as u64);
    append_str(&mut url, digits.as_str());
    url
}

/// The chat-completion endpoint of a server.
pub open spec fn chat_completions_url(host: Seq<char>, port: u16) -> Seq<char> {
    endpoint_url(host, port) + "/v1/chat/completions"@
}

/// The embeddings endpoint of a server.
pub open spec fn embeddings_url(host: Seq<char>, port: u16) -> Seq<char> {
    endpoint_url(host, port) + "/v1/embeddings"@
}

impl LlamaCppProvider {
    /// Where chat and vision requests are sent.
    pub fn chat_url(&self) -> (r: String)
        ensures
            r@ == chat_completions_url(self.host@, self.chat_port),
    {
        let mut url = endpoint_url_exec(self.host.as_str(), self.chat_port);
        append_str(&mut url, "/v1/chat/completions");
        url
    }

    /// Where embedding requests are sent.
    pub fn embed_url(&self) -> (r: String)
        ensures
            r@ == embeddings_url(self.host@, self.embed_port),
    {
        let mut url = endpoint_url_exec(self.host.as_str(), self.embed_port);
        append_str(&mut url, "/v1/embeddings");
        url
    }

    /// The provider configuration given the optional overrides of host, chat
    /// port and embedding port (as read from `CHRONICLE_LLAMA_HOST`,
    /// `CHRONICLE_LLAMA_CHAT_PORT` and `CHRONICLE_LLAMA_EMBED_PORT`); a port
    /// override that is not a valid `u16` falls back to the default port.
    pub fn with_overrides(
        host: Option<String>,
        chat_port: Option<String>,
        embed_port: Option<String>,
    ) -> (p: Self)
        ensures
            p.host@ == (match host {
                Some(h) => h@,
                None => DEFAULT_HOST@,
            }),
            p.chat_port == (match chat_port {
                Some(s) => match parse_u16_spec(s@) {
                    Some(v) => v,
                    None => DEFAULT_CHAT_PORT,
                },
                None => DEFAULT_CHAT_PORT,
            }),
            p.embed_port == (match embed_port {
                Some(s) => match parse_u16_spec(s@) {
                    Some(v) => v,
                    None => DEFAULT_EMBED_PORT,
                },
                None => DEFAULT_EMBED_PORT,
            }),
            p.chat_model@ == CHAT_MODEL_FILE@,
            p.embedding_model@ == EMBED_MODEL_FILE@,
    {
        let host = match host {
            Some(h) => h,
            None => string_from(DEFAULT_HOST),
        };
        let chat_port = match chat_port {
            Some(s) => match parse_u16(s.as_str()) {
                Some(v) => v,
                None => DEFAULT_CHAT_PORT,
            },
            None => DEFAULT_CHAT_PORT,
        };
        let embed_port = match embed_port {
            Some(s) => match parse_u16(s.as_str()) {
                Some(v) => v,
                None => DEFAULT_EMBED_PORT,
            },
            None => DEFAULT_EMBED_PORT,
        };
        LlamaCppProvider {
            host,
            chat_port,
            embed_port,
            chat_model: string_from(CHAT_MODEL_FILE),
            embedding_model: string_from(EMBED_MODEL_FILE),
        }
    }

    /// The status shown for this configuration, given whether each endpoint
    /// accepted a connection.
    pub fn status(&self, chat_available: bool, embedding_available: bool) -> (s: LocalModelStatus)
        ensures
            s.chat_endpoint@ == endpoint_url(self.host@, self.chat_port),
            s.embedding_endpoint@ == endpoint_url(self.host@, self.embed_port),
            s.chat_model@ == self.chat_model@,
            s.embedding_model@ == self.embedding_model@,
            s.chat_available == chat_available,
            s.embedding_available == embedding_available,
    {
        LocalModelStatus {
            chat_endpoint: endpoint_url_exec(self.host.as_str(), self.chat_port),
            embedding_endpoint: endpoint_url_exec(self.host.as_str(), self.embed_port),
            chat_model: string_from(self.chat_model.as_str()),
            embedding_model: string_from(self.embedding_model.as_str()),
            chat_available,
            embedding_available,
        }
    }
}

// ---------------------------------------------------------------------------
// Server command lines
// ---------------------------------------------------------------------------

/// Threads given to llama.cpp: all available cores but one, at least one;
/// four when the core count is unknown.
pub open spec fn inference_threads_spec(available: Option<usize>) -> usize {
    match available {
        Some(n) => if n > 1 { (n - 1) as usize } else { 1 },
        None => 4,
    }
}

/// Threads for inference given `std::thread::available_parallelism`.
pub fn inference_threads_for(available: Option<usize>) -> (t: usize)
    ensures
        t == inference_threads_spec(available),
        t >= 1,
{
    match available {
        Some(n) => if n > 1 {
            n - 1
        } else {
            1
        },
        None => 4,
    }
}

/// Arguments of the chat/vision `llama-server`.
pub open spec fn chat_server_arg_list(
    chat_model: Seq<char>,
    mmproj: Seq<char>,
    host: Seq<char>,
    port: u16,
    threads: usize,
) -> Seq<Seq<char>> {
    seq![
        "-m"@,
        chat_model,
        "--mmproj"@,
        mmproj,
        "--host"@,
        host,
        "--port"@,
        decimal(port as nat),
        "--jinja"@,
        "-c"@,
        decimal(SERVER_CONTEXT_SIZE as nat),
        "-t"@,
        decimal(threads as nat),
    ]
}

/// Whether a local `llama-server` has to be started: only when it is not
/// already answering and both its runtime and its model files are
/// installed; otherwise starting is skipped, which is no failure.
pub open spec fn server_start_needed(reachable: bool, runtime_installed: bool, model_installed: bool) -> bool {
    !reachable && runtime_installed && model_installed
}

/// Computes [`server_start_needed`].
pub fn needs_server_start(reachable: bool, runtime_installed: bool, model_installed: bool) -> (r: bool)
    ensures
        r == server_start_needed(reachable, runtime_installed, model_installed),
{
    !reachable && runtime_installed && model_installed
}

/// Arguments of the embedding `llama-server`.
pub open spec fn embed_server_arg_list(
    embed_model: Seq<char>,
    host: Seq<char>,
    port: u16,
    threads: usize,
) -> Seq<Seq<char>> {
    seq![
        "-m"@,
        embed_model,
        "--host"@,
        host,
        "--port"@,
        decimal(port as nat),
        "--embeddings"@,
        "--jinja"@,
        "-c"@,
        decimal(SERVER_CONTEXT_SIZE as nat),
        "-t"@,
        decimal(threads as nat),
    ]
}

fn push_arg(args: &mut Vec<String>, s: &str)
    ensures
        string_views(final(args)@) == string_views(old(args)@).push(s@),
{
    let ghost before = args@;
    args.push(string_from(s));
    assert(string_views(args@) =~= string_views(before).push(s@));
}

fn push_owned_arg(args: &mut Vec<String>, s: String)
    ensures
        string_views(final(args)@) == string_views(old(args)@).push(s@),
{
    let ghost before = args@;
    args.push(s);
    assert(string_views(args@) =~= string_views(before).push(s@));
}

/// Command line of the chat/vision server: model, projector, listen address,
/// Jinja chat templates, the widened context and an explicit thread count.
pub fn chat_server_args(chat_model: &str, mmproj: &str, host: &str, port: u16, threads: usize) -> (args: Vec<String>)
    ensures
        string_views(args@) == chat_server_arg_list(chat_model@, mmproj@, host@, port, threads),
{
    let mut args: Vec<String> = Vec::new();
    push_arg(&mut args, "-m");
    push_arg(&mut args, chat_model);
    push_arg(&mut args, "--mmproj");
    push_arg(&mut args, mmproj);
    push_arg(&mut args, "--host");
    push_arg(&mut args, host);
    push_arg(&mut args, "--port");
    push_owned_arg(&mut args, u64_to_decimal(port as u64));
    push_arg(&mut args, "--jinja");
    push_arg(&mut args, "-c");
    push_owned_arg(&mut args, u64_to_decimal(SERVER_CONTEXT_SIZE as u64));
    push_arg(&mut args, "-t");
    push_owned_arg(&mut args, u64_to_decimal(threads as u64));
    assert(string_views(args@) =~= chat_server_arg_list(chat_model@, mmproj@, host@, port, threads));
    args
}

/// Command line of the embedding server: model, listen address, embedding
/// mode, the Jinja template engine (harmless for embeddings, it keeps both
/// servers' command lines alike), the widened context and an explicit
/// thread count.
pub fn embed_server_args(embed_model: &str, host: &str, port: u16, threads: usize) -> (args: Vec<String>)
    ensures
        string_views(args@) == embed_server_arg_list(embed_model@, host@, port, threads),
{
    let mut args: Vec<String> = Vec::new();
    push_arg(&mut args, "-m");
    push_arg(&mut args, embed_model);
    push_arg(&mut args, "--host");
    push_arg(&mut args, host);
    push_arg(&mut args, "--port");
    push_owned_arg(&mut args, u64_to_decimal(port as u64));
    push_arg(&mut args, "--embeddings");
    push_arg(&mut args, "--jinja");
    push_arg(&mut args, "-c");
    push_owned_arg(&mut args, u64_to_decimal(SERVER_CONTEXT_SIZE as u64));
    push_arg(&mut args, "-t");
    push_owned_arg(&mut args, u64_to_decimal(threads as u64));
    assert(string_views(args@) =~= embed_server_arg_list(embed_model@, host@, port, threads));
    args
}

// ---------------------------------------------------------------------------
// Prompts
// ---------------------------------------------------------------------------

/// Instruction that opens every single-item analysis prompt.
pub const TEXT_ANALYSIS_INSTRUCTION: &'static str = "Return JSON only with category, summary, entities, relationships, confidence (0..1). Interpret:\n";

/// Instruction sent with a screenshot.
pub const IMAGE_ANALYSIS_INSTRUCTION: &'static str = "Return JSON only with category, summary, entities, relationships, confidence (0..1). Interpret this screenshot.";

/// Instruction that opens every batched analysis prompt.
pub const BATCH_ANALYSIS_INSTRUCTION: &'static str = "Return JSON only as {\"results\":[{\"index\":0,\"category\":\"...\",\"summary\":\"...\",\"entities\":[],\"relationships\":[],\"confidence\":0.0}]}. Include exactly one result for every item, preserving its index.\n";

/// The prompt asking the model to interpret one event context.
pub fn text_analysis_prompt(input: &str) -> (p: String)
    ensures
        p@ == TEXT_ANALYSIS_INSTRUCTION@ + input@,
{
    let mut p = string_from(TEXT_ANALYSIS_INSTRUCTION);
    append_str(&mut p, input);
    p
}

/// `ITEM <index>:` followed by a newline and the item's text.
pub open spec fn numbered_item(index: nat, input: Seq<char>) -> Seq<char> {
    "ITEM "@ + decimal(index) + ":\n"@ + input
}

/// All items numbered from zero, separated by blank lines.
pub open spec fn numbered_items(inputs: Seq<Seq<char>>) -> Seq<char>
    decreases inputs.len(),
{
    if inputs.len() == 0 {
        seq![]
    } else if inputs.len() == 1 {
        numbered_item(0, inputs[0])
    } else {
        numbered_items(inputs.drop_last()) + "\n\n"@ + numbered_item(
            (inputs.len() - 1) as nat,
            inputs.last(),
        )
    }
}

/// The prompt asking the model to interpret several event contexts at once,
/// each tagged with its index so answers can be matched back.
pub open spec fn batch_prompt_spec(inputs: Seq<Seq<char>>) -> Seq<char> {
    BATCH_ANALYSIS_INSTRUCTION@ + numbered_items(inputs)
}

/// Builds the batched analysis prompt for `inputs`.
pub fn batch_prompt(inputs: &Vec<String>) -> (p: String)
    ensures
        p@ == batch_prompt_spec(string_views(inputs@)),
{
    let ghost views = string_views(inputs@);
    let mut numbered = String::new();
    let mut i: usize = 0;
    while i < inputs.len()
        invariant
            views == string_views(inputs@),
            i <= inputs@.len(),
            numbered@ == numbered_items(views.take(i as int)),
        decreases inputs@.len() - i,
    {
        let ghost before = numbered@;
        if i > 0 {
            append_str(&mut numbered, "\n\n");
        }
        append_str(&mut numbered, "ITEM ");
        let digits = u64_to_decimal(i as u64);
        append_str(&mut numbered, digits.as_str());
        append_str(&mut numbered, ":\n");
        append_str(&mut numbered, inputs[i].as_str());
        assert(views.take(i + 1).drop_last() =~= views.take(i as int));
        assert(views.take(i + 1).last() == inputs@[i as int]@);
        if i == 0 {
            assert(numbered@ =~= numbered_items(views.take(1)));
        } else {
            assert(numbered@ =~= numbered_items(views.take(i + 1)));
        }
        i = i + 1;
    }
    assert(views.take(inputs@.len() as int) =~= views);
    let mut p = string_from(BATCH_ANALYSIS_INSTRUCTION);
    append_str(&mut p, numbered.as_str());
    p
}

/// Generation budget for a batch of `n` items: `MAX_RESPONSE_TOKENS` per item
/// (the count taken modulo 2^32, as the `as u32` cast does), saturating.
pub open spec fn batch_max_tokens_spec(n: usize) -> u32 {
    let product = MAX_RESPONSE_TOKENS as int * (n as u32) as int;
    if product > u32::MAX {
        u32::MAX
    } else {
        product as u32
    }
}

/// The `max_tokens` of a batched analysis request.
pub fn batch_max_tokens(n: usize) -> (t: u32)
    ensures
        t == batch_max_tokens_spec(n),
{
    let count: u32 = n as u32;
    assert(MAX_RESPONSE_TOKENS as u64 == 1024);
    let product: u64 = count as u64 * 1024;
    if product > u32::MAX as u64 {
        u32::MAX
    } else {
        product as u32
    }
}

// ---------------------------------------------------------------------------
// Request bodies
// ---------------------------------------------------------------------------

/// The chat-completion request for one user message whose content is the
/// JSON value `content_json`: JSON output, temperature 0.2, at most
/// `max_tokens` generated tokens. Keys are in sorted order, as `serde_json`
/// writes an object.
pub open spec fn chat_body(content_json: Seq<char>, max_tokens: u32) -> Seq<char> {
    "{\"max_tokens\":"@ + decimal(max_tokens as nat) + ",\"messages\":[{\"content\":"@ + content_json
        + ",\"role\":\"user\"}],\"response_format\":{\"type\":\"json_object\"},\"temperature\":0.2}"@
}

fn chat_body_exec(content_json: &str, max_tokens: u32) -> (r: String)
    ensures
        r@ == chat_body(content_json@, max_tokens),
{
    let mut body = string_from("{\"max_tokens\":");
    let digits = u64_to_decimal(max_tokens as u64);
    append_str(&mut body, digits.as_str());
    append_str(&mut body, ",\"messages\":[{\"content\":");
    append_str(&mut body, content_json);
    append_str(
        &mut body,
        ",\"role\":\"user\"}],\"response_format\":{\"type\":\"json_object\"},\"temperature\":0.2}",
    );
    body
}

/// The request analysing one event context.
pub fn text_analysis_body(input: &str) -> (r: String)
    ensures
        r@ == chat_body(json_string_literal(TEXT_ANALYSIS_INSTRUCTION@ + input@), MAX_RESPONSE_TOKENS),
{
    let prompt = text_analysis_prompt(input);
    let content = json_string(prompt.as_str());
    chat_body_exec(content.as_str(), MAX_RESPONSE_TOKENS)
}

/// The request analysing several event contexts at once.
pub fn batch_analysis_body(inputs: &Vec<String>) -> (r: String)
    ensures
        r@ == chat_body(
            json_string_literal(batch_prompt_spec(string_views(inputs@))),
            batch_max_tokens_spec(inputs@.len() as usize),
        ),
{
    let prompt = batch_prompt(inputs);
    let content = json_string(prompt.as_str());
    chat_body_exec(content.as_str(), batch_max_tokens(inputs.len()))
}

/// The message content carrying a screenshot: the image as a data URL,
/// then the instruction.
pub open spec fn image_content_json(data_url: Seq<char>) -> Seq<char> {
    "[{\"image_url\":{\"url\":"@ + json_string_literal(data_url)
        + "},\"type\":\"image_url\"},{\"text\":"@ + json_string_literal(IMAGE_ANALYSIS_INSTRUCTION@)
        + ",\"type\":\"text\"}]"@
}

/// The request analysing the PNG screenshot `png`.
pub fn image_analysis_body(png: &[u8]) -> (r: String)
    ensures
        r@ == chat_body(image_content_json(png_data_url(png@)), MAX_RESPONSE_TOKENS),
{
    let url = image_data_url(png);
    let mut content = string_from("[{\"image_url\":{\"url\":");
    let quoted_url = json_string(url.as_str());
    append_str(&mut content, quoted_url.as_str());
    append_str(&mut content, "},\"type\":\"image_url\"},{\"text\":");
    let quoted_text = json_string(IMAGE_ANALYSIS_INSTRUCTION);
    append_str(&mut content, quoted_text.as_str());
    append_str(&mut content, ",\"type\":\"text\"}]");
    chat_body_exec(content.as_str(), MAX_RESPONSE_TOKENS)
}

/// The request embedding `inputs` in one batch.
pub fn embeddings_body(inputs: &Vec<String>) -> (r: String)
    ensures
        r@ == "{\"input\":"@ + json_string_array(string_views(inputs@)) + "}"@,
{
    let mut body = string_from("{\"input\":");
    let array = json_array_of_strings(inputs);
    append_str(&mut body, array.as_str());
    append_str(&mut body, "}");
    body
}

/// Error when the chat engine answers without any choice.
pub const NO_CHOICES: &'static str = "chat engine returned no choices";

/// The answer of a chat completion: the content of its first choice.
pub fn first_choice_content(contents: Vec<String>) -> (r: Result<String, String>)
    ensures
        contents@.len() > 0 ==> r == Ok::<String, String>(contents@[0]),
        contents@.len() == 0 ==> (r matches Err(e) && e@ == NO_CHOICES@),
{
    let mut contents = contents;
    if contents.len() == 0 {
        Err(string_from(NO_CHOICES))
    } else {
        Ok(contents.swap_remove(0))
    }
}

// ---------------------------------------------------------------------------
// Matching batched answers back to their requests
// ---------------------------------------------------------------------------

/// Error when a batched analysis answers a different number of items.
pub const BATCH_COUNT_MISMATCH: &'static str = "batch semantic response count mismatch";

/// Error when a batched analysis repeats an index or names one out of range.
pub const BATCH_INDEX_MISMATCH: &'static str = "batch semantic response index mismatch";

/// Error when a batched analysis leaves an item unanswered.
pub const BATCH_MISSING_ITEM: &'static str = "batch semantic response missing item";

/// Whether `indices` names each of `0..n` exactly once.
pub open spec fn is_index_permutation(indices: Seq<usize>, n: nat) -> bool {
    &&& indices.len() == n
    &&& forall|j: int| 0 <= j < indices.len() ==> #[trigger] indices[j] < n
    &&& forall|j: int, k: int|
        0 <= j < k < indices.len() ==> #[trigger] indices[j] != #[trigger] indices[k]
}

/// How many slots hold a value.
pub open spec fn filled_count(slots: Seq<Option<usize>>) -> nat
    decreases slots.len(),
{
    if slots.len() == 0 {
        0
    } else {
        filled_count(slots.drop_last()) + if slots.last() is Some {
            1nat
        } else {
            0nat
        }
    }
}

proof fn lemma_filled_count_bound(slots: Seq<Option<usize>>)
    ensures
        filled_count(slots) <= slots.len(),
        filled_count(slots) == slots.len() ==> forall|k: int|
            0 <= k < slots.len() ==> #[trigger] slots[k] is Some,
    decreases slots.len(),
{
    if slots.len() > 0 {
        lemma_filled_count_bound(slots.drop_last());
        if filled_count(slots) == slots.len() {
            assert forall|k: int| 0 <= k < slots.len() implies #[trigger] slots[k] is Some by {
                if k < slots.len() - 1 {
                    assert(slots.drop_last()[k] == slots[k]);
                }
            }
        }
    }
}

proof fn lemma_filled_count_update(slots: Seq<Option<usize>>, k: int, v: usize)
    requires
        0 <= k < slots.len(),
        slots[k] is None,
    ensures
        filled_count(slots.update(k, Some(v))) == filled_count(slots) + 1,
    decreases slots.len(),
{
    let s2 = slots.update(k, Some(v));
    if k < slots.len() - 1 {
        lemma_filled_count_update(slots.drop_last(), k, v);
        assert(s2.drop_last() =~= slots.drop_last().update(k, Some(v)));
    } else {
        assert(s2.drop_last() =~= slots.drop_last());
    }
}

fn empty_slots(n: usize) -> (slots: Vec<Option<usize>>)
    ensures
        slots@.len() == n,
        forall|k: int| 0 <= k < n ==> #[trigger] slots@[k] is None,
        filled_count(slots@) == 0,
{
    let mut slots: Vec<Option<usize>> = Vec::new();
    let mut i: usize = 0;
    while i < n
        invariant
            i <= n,
            slots@.len() == i,
            forall|k: int| 0 <= k < i ==> #[trigger] slots@[k] is None,
            filled_count(slots@) == 0,
        decreases n - i,
    {
        let ghost before = slots@;
        slots.push(None);
        assert(slots@.drop_last() =~= before);
        i = i + 1;
    }
    slots
}

/// Puts batched analysis results back in request order: `indices[j]` is
/// the request index the `j`-th result claims. Succeeds exactly when the
/// results name each of the `n` requests once; then `order[k]` is the
/// position of the result for request `k`.
pub fn order_batch_results(indices: &Vec<usize>, n: usize) -> (r: Result<Vec<usize>, String>)
    ensures
        r is Ok <==> is_index_permutation(indices@, n as nat),
        r matches Err(e) ==> e@ == (if indices@.len() != n {
            BATCH_COUNT_MISMATCH@
        } else {
            BATCH_INDEX_MISMATCH@
        }),
        r matches Ok(order) ==> {
            &&& order@.len() == n
            &&& forall|k: int|
                0 <= k < n ==> #[trigger] order@[k] < n && indices@[order@[k] as int] == k
        },
{
    if indices.len() != n {
        return Err(string_from(BATCH_COUNT_MISMATCH));
    }
    let mut slots = empty_slots(n);
    let mut j: usize = 0;
    while j < n
        invariant
            indices@.len() == n,
            slots@.len() == n,
            j <= n,
            filled_count(slots@) == j,
            forall|a: int| 0 <= a < j ==> #[trigger] indices@[a] < n,
            forall|a: int, b: int| 0 <= a < b < j ==> #[trigger] indices@[a] != #[trigger] indices@[b],
            forall|k: int|
                0 <= k < n ==> match #[trigger] slots@[k] {
                    Some(a) => a < j && indices@[a as int] == k,
                    None => forall|a: int| 0 <= a < j ==> indices@[a] != k,
                },
        decreases n - j,
    {
        let k = indices[j];
        if k >= n {
            return Err(string_from(BATCH_INDEX_MISMATCH));
        }
        if slots[k].is_some() {
            proof {
                let a = slots@[k as int]->0;
                assert(indices@[a as int] == indices@[j as int]);
            }
            return Err(string_from(BATCH_INDEX_MISMATCH));
        }
        proof {
            lemma_filled_count_update(slots@, k as int, j);
        }
        slots.set(k, Some(j));
        j = j + 1;
    }
    proof {
        lemma_filled_count_bound(slots@);
    }
    let mut order: Vec<usize> = Vec::new();
    let mut k: usize = 0;
    while k < n
        invariant
            indices@.len() == n,
            slots@.len() == n,
            k <= n,
            order@.len() == k,
            forall|x: int| 0 <= x < n ==> #[trigger] slots@[x] is Some,
            forall|x: int|
                0 <= x < n ==> match #[trigger] slots@[x] {
                    Some(a) => a < n && indices@[a as int] == x,
                    None => true,
                },
            forall|x: int| 0 <= x < k ==> #[trigger] order@[x] < n && indices@[order@[x] as int] == x,
        decreases n - k,
    {
        match slots[k] {
            Some(a) => {
                order.push(a);
            },
            None => {
                return Err(string_from(BATCH_MISSING_ITEM));
            },
        }
        k = k + 1;
    }
    Ok(order)
}

/// Error when the embedding engine answers a different number of inputs.
pub const EMBED_INCOMPLETE_BATCH: &'static str = "embedding engine returned an incomplete batch";

/// Error when the embedding engine names an index out of range.
pub const EMBED_INDEX_OUT_OF_RANGE: &'static str = "embedding engine returned an out-of-range index";

/// Prefix of the error naming an input the embedding engine left out.
pub const EMBED_MISSING_ITEM_PREFIX: &'static str = "embedding engine response missing item ";

/// Whether some answer names request `k`.
pub open spec fn index_covered(indices: Seq<usize>, k: int) -> bool {
    exists|j: int| 0 <= j < indices.len() && indices[j] == k
}

/// The error for the first request index that no answer names.
pub open spec fn embed_missing_message(k: nat) -> Seq<char> {
    EMBED_MISSING_ITEM_PREFIX@ + decimal(k)
}

/// Puts embedding results back in request order: `indices[j]` is the index
/// the `j`-th vector claims. A repeated index keeps the later vector. Fails
/// on a count mismatch, on an index out of range, or, naming the first such
/// request, when a request has no vector.
pub fn order_embedding_results(indices: &Vec<usize>, n: usize) -> (r: Result<Vec<usize>, String>)
    ensures
        r is Ok <==> {
            &&& indices@.len() == n
            &&& forall|j: int| 0 <= j < indices@.len() ==> #[trigger] indices@[j] < n
            &&& forall|k: int| 0 <= k < n ==> index_covered(indices@, k)
        },
        indices@.len() != n ==> (r matches Err(e) && e@ == EMBED_INCOMPLETE_BATCH@),
        indices@.len() == n && (exists|j: int| 0 <= j < indices@.len() && #[trigger] indices@[j] >= n)
            ==> (r matches Err(e) && e@ == EMBED_INDEX_OUT_OF_RANGE@),
        r matches Err(e) ==> (indices@.len() == n && (forall|j: int|
            0 <= j < indices@.len() ==> #[trigger] indices@[j] < n) ==> exists|k: int|
            0 <= k < n && !index_covered(indices@, k) && (forall|m: int|
                0 <= m < k ==> index_covered(indices@, m)) && e@ == embed_missing_message(k as nat)),
        r matches Ok(order) ==> {
            &&& order@.len() == n
            &&& forall|k: int|
                0 <= k < n ==> #[trigger] order@[k] < n && indices@[order@[k] as int] == k && (
                forall|j: int| order@[k] < j < n ==> indices@[j] != k)
        },
{
    if indices.len() != n {
        return Err(string_from(EMBED_INCOMPLETE_BATCH));
    }
    let mut slots = empty_slots(n);
    let mut j: usize = 0;
    while j < n
        invariant
            indices@.len() == n,
            slots@.len() == n,
            j <= n,
            forall|a: int| 0 <= a < j ==> #[trigger] indices@[a] < n,
            forall|k: int|
                0 <= k < n ==> match #[trigger] slots@[k] {
                    Some(a) => a < j && indices@[a as int] == k && forall|b: int|
                        a < b < j ==> indices@[b] != k,
                    None => forall|a: int| 0 <= a < j ==> indices@[a] != k,
                },
        decreases n - j,
    {
        let k = indices[j];
        if k >= n {
            return Err(string_from(EMBED_INDEX_OUT_OF_RANGE));
        }
        slots.set(k, Some(j));
        j = j + 1;
    }
    let mut order: Vec<usize> = Vec::new();
    let mut k: usize = 0;
    while k < n
        invariant
            indices@.len() == n,
            slots@.len() == n,
            k <= n,
            order@.len() == k,
            forall|a: int| 0 <= a < n ==> #[trigger] indices@[a] < n,
            forall|x: int|
                0 <= x < n ==> match #[trigger] slots@[x] {
                    Some(a) => a < n && indices@[a as int] == x && forall|b: int|
                        a < b < n ==> indices@[b] != x,
                    None => forall|a: int| 0 <= a < n ==> indices@[a] != x,
                },
            forall|x: int|
                0 <= x < k ==> #[trigger] order@[x] < n && indices@[order@[x] as int] == x && (
                forall|b: int| order@[x] < b < n ==> indices@[b] != x),
        decreases n - k,
    {
        match slots[k] {
            Some(a) => {
                order.push(a);
            },
            None => {
                let mut e = string_from(EMBED_MISSING_ITEM_PREFIX);
                let digits = u64_to_decimal(k as u64);
                append_str(&mut e, digits.as_str());
                proof {
                    assert forall|m: int| 0 <= m < k implies index_covered(indices@, m) by {
                        assert(indices@[order@[m] as int] == m);
                    }
                    assert(!index_covered(indices@, k as int));
                }
                return Err(e);
            },
        }
        k = k + 1;
    }
    proof {
        assert forall|x: int| 0 <= x < n implies index_covered(indices@, x) by {
            assert(indices@[order@[x] as int] == x);
        }
    }
    Ok(order)
}

} // verus!
