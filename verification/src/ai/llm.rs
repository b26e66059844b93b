//! The chat-completion request built from a prompt, and the reading of the
//! service's reply.
use vstd::prelude::*;
use vstd::string::*;

use super::prompt::{HistoryTurn, Prompt};

verus! {

/// Chat-completion endpoint.
pub const API_URL: &'static str = "https://api.groq.com/openai/v1/chat/completions";

/// Model that answers.
pub const MODEL: &'static str = "llama-3.1-8b-instant";

/// Why a language-model call cannot go ahead or produced nothing.
#[derive(Debug, Clone, Copy, PartialEq, Eq, Structural)]
pub enum LlmError {
    /// No API key was configured.
    MissingApiKey,
    /// The service replied without any choice.
    NoResponse,
}

impl LlmError {
    /// What went wrong, in words.
    pub fn message(&self) -> (r: &'static str)
        ensures
            *self == LlmError::MissingApiKey ==> r@ == "GROQ_API_KEY env var not set"@,
            *self == LlmError::NoResponse ==> r@ == "Groq no devolvió ninguna respuesta"@,
    {
        match self {
            LlmError::MissingApiKey => "GROQ_API_KEY env var not set",
            LlmError::NoResponse => "Groq no devolvió ninguna respuesta",
        }
    }
}

/// A client of the chat-completion service.
pub struct GroqLlm {
    api_key: String,
}

impl GroqLlm {
    /// The key requests are authorised with.
    pub closed spec fn key(&self) -> Seq<char> {
        self.api_key@
    }

    /// A client authorised with `api_key`; without a key there is no client.
    pub fn new(api_key: Option<String>) -> (r: Result<GroqLlm, LlmError>)
        ensures
            api_key is None ==> r == Err::<GroqLlm, LlmError>(LlmError::MissingApiKey),
            api_key matches Some(k) ==> (r matches Ok(c) && c.key() == k@),
    {
        match api_key {
            Some(k) => Ok(GroqLlm { api_key: k }),
            None => Err(LlmError::MissingApiKey),
        }
    }

    /// The key requests are authorised with.
    pub fn api_key(&self) -> (r: &str)
        ensures
            r@ == self.key(),
    {
        self.api_key.as_str()
    }
}

/// One chat message.
pub struct Message {
    pub role: &'static str,
    pub content: String,
}

/// A chat-completion request.
pub struct Request {
    pub model: &'static str,
    pub messages: Vec<Message>,
}

/// A message as (role, content).
pub open spec fn message_view(m: Message) -> (Seq<char>, Seq<char>) {
    (m.role@, m.content@)
}

/// Messages as (role, content) pairs.
pub open spec fn message_views(s: Seq<Message>) -> Seq<(Seq<char>, Seq<char>)> {
    s.map_values(|m: Message| message_view(m))
}

/// The earlier exchanges replayed as alternating user and assistant messages.
pub open spec fn replayed(history: Seq<HistoryTurn>) -> Seq<(Seq<char>, Seq<char>)>
    decreases history.len(),
{
    if history.len() == 0 {
        Seq::empty()
    } else {
        replayed(history.drop_last()) + seq![
            ("user"@, history.last().question@),
            ("assistant"@, history.last().answer@),
        ]
    }
}

/// The conversation sent for a prompt: the system prompt, each earlier
/// exchange as a user question and an assistant answer, then the question.
pub open spec fn chat(system: Seq<char>, history: Seq<HistoryTurn>, question: Seq<char>) -> Seq<
    (Seq<char>, Seq<char>),
> {
    seq![("system"@, system)] + replayed(history) + seq![("user"@, question)]
}

proof fn lemma_replayed(history: Seq<HistoryTurn>)
    ensures
        replayed(history).len() == 2 * history.len(),
        forall|i: int|
            0 <= i < history.len() ==> replayed(history)[2 * i] == ("user"@, #[trigger] history[i].question@)
                && replayed(history)[2 * i + 1] == ("assistant"@, history[i].answer@),
    decreases history.len(),
{
    if history.len() > 0 {
        let prev = history.drop_last();
        lemma_replayed(prev);
        assert forall|i: int| 0 <= i < history.len() implies replayed(history)[2 * i] == (
            "user"@,
            #[trigger] history[i].question@,
        ) && replayed(history)[2 * i + 1] == ("assistant"@, history[i].answer@) by {
            if i < prev.len() {
                assert(history[i] == prev[i]);
            }
        }
    }
}

/// The conversation always opens with the system prompt and closes with the
/// question; in between, each earlier exchange appears in order as a user
/// message with its question followed by an assistant message with its answer.
pub proof fn lemma_chat_shape(system: Seq<char>, history: Seq<HistoryTurn>, question: Seq<char>)
    ensures
        chat(system, history, question).len() == 2 * history.len() + 2,
        chat(system, history, question)[0] == ("system"@, system),
        chat(system, history, question).last() == ("user"@, question),
        forall|i: int|
            0 <= i < history.len() ==> chat(system, history, question)[2 * i + 1] == (
                "user"@,
                #[trigger] history[i].question@,
            ) && chat(system, history, question)[2 * i + 2] == ("assistant"@, history[i].answer@),
{
    lemma_replayed(history);
    let c = chat(system, history, question);
    assert forall|i: int| 0 <= i < history.len() implies c[2 * i + 1] == (
        "user"@,
        #[trigger] history[i].question@,
    ) && c[2 * i + 2] == ("assistant"@, history[i].answer@) by {
        assert(c[2 * i + 1] == replayed(history)[2 * i]);
        assert(c[2 * i + 2] == replayed(history)[2 * i + 1]);
    }
}

/// The request for `prompt`: the whole conversation, in order.
pub fn build_request(prompt: Prompt) -> (r: Request)
    ensures
        r.model@ == MODEL@,
        message_views(r.messages@) == chat(
            prompt.system@,
            prompt.history@,
            prompt.question@,
        ),
{
    let ghost history = prompt.history@;
    let mut messages: Vec<Message> = Vec::new();
    messages.push(Message { role: "system", content: prompt.system });
    let n = prompt.history.len();
    assert(message_views(messages@) =~= seq![("system"@, prompt.system@)] + replayed(
        history.take(0),
    ));
    for i in 0..n
        invariant
            n == history.len(),
            history == prompt.history@,
            message_views(messages@) == seq![("system"@, prompt.system@)] + replayed(
                history.take(i as int),
            ),
    {
        let turn = &prompt.history[i];
        assert(history.take(i + 1).drop_last() =~= history.take(i as int));
        let ghost before = messages@;
        messages.push(Message { role: "user", content: turn.question.clone() });
        messages.push(Message { role: "assistant", content: turn.answer.clone() });
        assert(messages@ =~= before.push(messages@[before.len() as int]).push(
            messages@[(before.len() + 1) as int],
        ));
        assert(history.take(i + 1).last() == history[i as int]);
        assert(message_view(messages@[before.len() as int]) == ("user"@, history[i as int].question@));
        assert(message_view(messages@[(before.len() + 1) as int]) == ("assistant"@, history[i as int].answer@));
        assert(message_views(messages@) =~= message_views(before).push(
            message_view(messages@[before.len() as int]),
        ).push(message_view(messages@[(before.len() + 1) as int])));
        assert(message_views(messages@) =~= seq![("system"@, prompt.system@)] + replayed(
            history.take(i + 1),
        ));
    }
    let ghost before = messages@;
    messages.push(Message { role: "user", content: prompt.question });
    assert(history.take(n as int) =~= history);
    assert(message_views(messages@) =~= chat(prompt.system@, history, prompt.question@));
    Request { model: MODEL, messages }
}

/// The text of a reply message.
pub struct MessageContent {
    pub content: String,
}

/// One choice of a reply.
pub struct Choice {
    pub message: MessageContent,
}

/// A reply of the chat-completion service.
pub struct Response {
    pub choices: Vec<Choice>,
}

/// The answer in a reply: the content of its first choice.
pub fn extract_content(response: Response) -> (r: Result<String, LlmError>)
    ensures
        response.choices@.len() == 0 ==> r == Err::<String, LlmError>(LlmError::NoResponse),
        response.choices@.len() > 0 ==> (r matches Ok(s) && s@
            == response.choices@[0].message.content@),
{
    let mut choices = response.choices;
    if choices.len() == 0 {
        return Err(LlmError::NoResponse);
    }
    let first = choices.remove(0);
    Ok(first.message.content)
}

} // verus!
