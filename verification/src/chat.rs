//! The chat client's verifiable core: provider resolution, framing of the
//! single-turn chat-completion request as JSON text, and interpretation of
//! what came back from the one outbound HTTP call.

use vstd::prelude::*;

use crate::text::{push_char, str_eq};

verus! {

/// A named upstream chat service. An unrecognized configured name falls back
/// to the default provider rather than failing.
#[derive(Clone, Copy, Debug, PartialEq, Eq, Structural)]
pub enum Provider {
    Deepseek,
    Zhipu,
    OpenAi,
}

/// The provider selected by a configured name: the default provider unless
/// the name picks another one.
pub open spec fn spec_provider_of(name: Seq<char>) -> Provider {
    if name == "zhipu"@ {
        Provider::Zhipu
    } else if name == "openai"@ {
        Provider::OpenAi
    } else {
        Provider::Deepseek
    }
}

pub fn provider_of(name: &str) -> (p: Provider)
    ensures
        p == spec_provider_of(name@),
{
    if str_eq(name, "zhipu") {
        Provider::Zhipu
    } else if str_eq(name, "openai") {
        Provider::OpenAi
    } else {
        Provider::Deepseek
    }
}

/// The fixed model name dispatched to each provider.
pub open spec fn spec_model(p: Provider) -> Seq<char> {
    match p {
        Provider::Zhipu => "GLM-4.5-Flash"@,
        Provider::OpenAi => "gpt-4o-mini"@,
        Provider::Deepseek => "deepseek-chat"@,
    }
}

pub fn model_name(p: Provider) -> (r: &'static str)
    ensures
        r@ == spec_model(p),
{
    match p {
        Provider::Zhipu => "GLM-4.5-Flash",
        Provider::OpenAi => "gpt-4o-mini",
        Provider::Deepseek => "deepseek-chat",
    }
}

/// The chat-completion endpoint: fixed for the built-in providers, the
/// user-supplied URL for the self-hosted variant.
pub open spec fn spec_endpoint(p: Provider, custom: Seq<char>) -> Seq<char> {
    match p {
        Provider::Zhipu => "https://open.bigmodel.cn/api/paas/v4/chat/completions"@,
        Provider::OpenAi => custom,
        Provider::Deepseek => "https://api.deepseek.com/chat/completions"@,
    }
}

pub fn endpoint_url(p: Provider, custom: &str) -> (r: String)
    ensures
        r@ == spec_endpoint(p, custom@),
{
    match p {
        Provider::Zhipu => String::from_str("https://open.bigmodel.cn/api/paas/v4/chat/completions"),
        Provider::OpenAi => String::from_str(custom),
        Provider::Deepseek => String::from_str("https://api.deepseek.com/chat/completions"),
    }
}

/// The hexadecimal digit character for a value below sixteen.
pub open spec fn spec_hex_digit(d: nat) -> char {
    if d == 0 {
        '0'
    } else if d == 1 {
        '1'
    } else if d == 2 {
        '2'
    } else if d == 3 {
        '3'
    } else if d == 4 {
        '4'
    } else if d == 5 {
        '5'
    } else if d == 6 {
        '6'
    } else if d == 7 {
        '7'
    } else if d == 8 {
        '8'
    } else if d == 9 {
        '9'
    } else if d == 10 {
        'a'
    } else if d == 11 {
        'b'
    } else if d == 12 {
        'c'
    } else if d == 13 {
        'd'
    } else if d == 14 {
        'e'
    } else {
        'f'
    }
}

fn hex_digit_char(d: u32) -> (c: char)
    requires
        d < 16,
    ensures
        c == spec_hex_digit(d as nat),
{
    if d == 0 {
        '0'
    } else if d == 1 {
        '1'
    } else if d == 2 {
        '2'
    } else if d == 3 {
        '3'
    } else if d == 4 {
        '4'
    } else if d == 5 {
        '5'
    } else if d == 6 {
        '6'
    } else if d == 7 {
        '7'
    } else if d == 8 {
        '8'
    } else if d == 9 {
        '9'
    } else if d == 10 {
        'a'
    } else if d == 11 {
        'b'
    } else if d == 12 {
        'c'
    } else if d == 13 {
        'd'
    } else if d == 14 {
        'e'
    } else {
        'f'
    }
}

/// How one character is written inside a JSON string literal: quote,
/// backslash and the common control characters get two-character escapes,
/// the remaining control characters a hexadecimal escape, and every other
/// character stands as itself.
pub open spec fn spec_escape_char(c: char) -> Seq<char> {
    if c == '"' {
        seq!['\\', '"']
    } else if c == '\\' {
        seq!['\\', '\\']
    } else if c == '\n' {
        seq!['\\', 'n']
    } else if c == '\r' {
        seq!['\\', 'r']
    } else if c == '\t' {
        seq!['\\', 't']
    } else if (c as u32) < 32 {
        seq!['\\', 'u', '0', '0', spec_hex_digit(((c as u32) / 16) as nat), spec_hex_digit(
            ((c as u32) % 16) as nat,
        )]
    } else {
        seq![c]
    }
}

/// A whole text written inside a JSON string literal.
pub open spec fn spec_escape(s: Seq<char>) -> Seq<char>
    decreases s.len(),
{
    if s.len() == 0 {
        Seq::<char>::empty()
    } else {
        spec_escape(s.drop_last()) + spec_escape_char(s.last())
    }
}

fn append_escaped_char(out: &mut String, c: char)
    ensures
        final(out)@ == old(out)@ + spec_escape_char(c),
{
    if c == '"' {
        out.append("\\\"");
        proof {
            reveal_strlit("\\\"");
            assert("\\\""@ =~= spec_escape_char(c));
        }
    } else if c == '\\' {
        out.append("\\\\");
        proof {
            reveal_strlit("\\\\");
            assert("\\\\"@ =~= spec_escape_char(c));
        }
    } else if c == '\n' {
        out.append("\\n");
        proof {
            reveal_strlit("\\n");
            assert("\\n"@ =~= spec_escape_char(c));
        }
    } else if c == '\r' {
        out.append("\\r");
        proof {
            reveal_strlit("\\r");
            assert("\\r"@ =~= spec_escape_char(c));
        }
    } else if c == '\t' {
        out.append("\\t");
        proof {
            reveal_strlit("\\t");
            assert("\\t"@ =~= spec_escape_char(c));
        }
    } else if (c as u32) < 32 {
        let ghost pre = out@;
        let u = c as u32;
        out.append("\\u00");
        push_char(out, hex_digit_char(u / 16));
        push_char(out, hex_digit_char(u % 16));
        proof {
            reveal_strlit("\\u00");
            assert(out@ =~= pre + spec_escape_char(c));
        }
    } else {
        let ghost pre = out@;
        push_char(out, c);
        proof {
            assert(out@ =~= pre + spec_escape_char(c));
        }
    }
}

fn append_escaped(out: &mut String, s: &str)
    ensures
        final(out)@ == old(out)@ + spec_escape(s@),
{
    let ghost base = out@;
    let len = s.unicode_len();
    proof {
        assert(base + spec_escape(s@.take(0)) =~= base);
    }
    let mut i: usize = 0;
    while i < len
        invariant
            len == s@.len(),
            i <= len,
            out@ == base + spec_escape(s@.take(i as int)),
        decreases len - i,
    {
        append_escaped_char(out, s.get_char(i));
        proof {
            assert(s@.take(i + 1).drop_last() =~= s@.take(i as int));
            assert(s@.take(i + 1).last() == s@[i as int]);
        }
        i += 1;
    }
    proof {
        assert(s@.take(len as int) =~= s@);
    }
}

/// The JSON body of a single-turn chat-completion request: one user-role
/// message holding the prompt, a conservative reply length and a sampling
/// temperature tuned for varied output.
pub open spec fn spec_chat_request(model: Seq<char>, prompt: Seq<char>) -> Seq<char> {
    "{\"model\":\""@ + spec_escape(model)
        + "\",\"messages\":[{\"role\":\"user\",\"content\":\""@ + spec_escape(prompt)
        + "\"}],\"max_tokens\":50,\"temperature\":1.0}"@
}

/// Frames the chat-completion request body for the given model and prompt.
pub fn build_chat_request(model: &str, prompt: &str) -> (r: String)
    ensures
        r@ == spec_chat_request(model@, prompt@),
{
    let mut out = String::from_str("{\"model\":\"");
    append_escaped(&mut out, model);
    out.append("\",\"messages\":[{\"role\":\"user\",\"content\":\"");
    append_escaped(&mut out, prompt);
    out.append("\"}],\"max_tokens\":50,\"temperature\":1.0}");
    out
}

/// The failures of the AI chat path.
#[derive(Debug, Clone, PartialEq, Eq)]
pub enum ChatError {
    /// The provider answered with a non-success HTTP status; holds the
    /// response body verbatim.
    Api(String),
    /// The provider answered well-formedly but with no completion at all.
    EmptyResponse,
    /// The request never completed; holds a description of the failure.
    Transport(String),
}

impl ChatError {
    /// The human-readable description of the failure.
    pub fn message(&self) -> (r: String)
        ensures
            match self {
                ChatError::Api(b) => r@ == "API 请求失败: "@ + b@,
                ChatError::EmptyResponse => r@ == "没有收到回复"@,
                ChatError::Transport(m) => r@ == "网络请求失败: "@ + m@,
            },
    {
        match self {
            ChatError::Api(b) => {
                let mut s = String::from_str("API 请求失败: ");
                s.append(b.as_str());
                s
            },
            ChatError::EmptyResponse => String::from_str("没有收到回复"),
            ChatError::Transport(m) => {
                let mut s = String::from_str("网络请求失败: ");
                s.append(m.as_str());
                s
            },
        }
    }
}

/// What came back from the one outbound HTTP call, as plain values.
#[derive(Debug, Clone, PartialEq, Eq)]
pub enum ChatOutcome {
    /// The request never completed; holds a description of the failure.
    TransportFailed(String),
    /// A non-success HTTP status; holds the response body verbatim.
    HttpFailure(String),
    /// A success status; holds the content of each returned completion, in
    /// the order the provider listed them.
    Reply(Vec<String>),
}

/// What the chat client hands its caller for each possible outcome: the
/// first completion of a non-empty reply, and the matching error otherwise.
pub open spec fn spec_interpret(outcome: ChatOutcome) -> Result<String, ChatError> {
    match outcome {
        ChatOutcome::TransportFailed(m) => Err(ChatError::Transport(m)),
        ChatOutcome::HttpFailure(b) => Err(ChatError::Api(b)),
        ChatOutcome::Reply(cs) => if cs@.len() == 0 {
            Err(ChatError::EmptyResponse)
        } else {
            Ok(cs@[0])
        },
    }
}

/// Interprets the outcome of the outbound call: takes the first completion
/// of a non-empty reply, and fails with the matching error otherwise.
pub fn interpret_reply(outcome: ChatOutcome) -> (r: Result<String, ChatError>)
    ensures
        r == spec_interpret(outcome),
{
    match outcome {
        ChatOutcome::TransportFailed(m) => Err(ChatError::Transport(m)),
        ChatOutcome::HttpFailure(b) => Err(ChatError::Api(b)),
        ChatOutcome::Reply(cs) => {
            if cs.len() == 0 {
                Err(ChatError::EmptyResponse)
            } else {
                Ok(cs[0].clone())
            }
        },
    }
}

} // verus!
