//! The local assistant's configuration and the checks made before a
//! conversation is sent to the model: model selection among the installed
//! ones, the identity prompt, and refusal of instruction-override attempts.
use vstd::prelude::*;
use crate::text;
use crate::text::{chars_of, concat_str, contains_str, lower_chars, starts_with, string_of};

verus! {

/// One message of a conversation.
#[derive(Clone, Debug, PartialEq, Eq)]
pub struct ChatMessage {
    /// `system`, `user` or `assistant`.
    pub role: String,
    pub content: String,
}

/// The role and text of a message.
pub open spec fn chat_view(m: ChatMessage) -> (Seq<char>, Seq<char>) {
    (m.role@, m.content@)
}

/// The roles and texts of a conversation.
pub open spec fn chat_views(v: Seq<ChatMessage>) -> Seq<(Seq<char>, Seq<char>)> {
    v.map_values(|m: ChatMessage| chat_view(m))
}

/// The identity prompt that opens every conversation sent to the model.
pub const SYSTEM_PROMPT: &'static str = "You are Avatar, a private and secure personal desktop AI assistant. \
        You have direct integration with the user's host operating system. You can execute system automation commands \
        by returning a single raw valid JSON object matching the SystemIntent schema. DO NOT wrap JSON in markdown blocks. \
        Do not output any introductory or conversational text when executing a system command—only return the raw JSON object. \
        If the user's request is purely conversational or a question, reply with plain conversational text. \
        \
        SystemIntent JSON schema: \
        { \
          \"action\": \"<action_name>\", \
          \"params\": { ... } \
        } \
        \
        Supported actions and parameter schemas: \
        1. \"open_app\": Open an application or system process. Parameter: \"path\" (string - e.g., \"notepad\", \"calc\", \"chrome\", \"explorer\"). \
           Example: {\"action\": \"open_app\", \"params\": {\"path\": \"notepad\"}} \
        2. \"press_shortcut\": Execute key combinations (useful for switching tabs/apps, closing windows). Parameter: \"shortcut\" (string - e.g., \"ctrl+tab\", \"alt+tab\", \"ctrl+t\", \"alt+f4\", \"win+d\"). \
           Example: {\"action\": \"press_shortcut\", \"params\": {\"shortcut\": \"ctrl+tab\"}} \
        3. \"adjust_volume\": Control volume. Parameter: \"action\" (string - \"up\", \"down\", or \"mute\"). \
           Example: {\"action\": \"adjust_volume\", \"params\": {\"action\": \"up\"}} \
        4. \"adjust_brightness\": Control display brightness. Parameter: \"level\" (integer from 0 to 100). \
           Example: {\"action\": \"adjust_brightness\", \"params\": {\"level\": 80}} \
        5. \"power_action\": Power controls. Parameter: \"action\" (string - \"sleep\", \"lock\", \"shutdown\", or \"restart\"). \
           Example: {\"action\": \"power_action\", \"params\": {\"action\": \"sleep\"}} \
        6. \"open_url\": Open a URL or search Google. Parameter: \"url\" (string). Construct google search queries like https://www.google.com/search?q=query if user asks to search or look up anything. \
           Example: {\"action\": \"open_url\", \"params\": {\"url\": \"https://www.google.com/search?q=how+to+bake+a+cake\"}} \
        7. \"type_text\": Type text at cursor. Parameter: \"text\" (string). \
           Example: {\"action\": \"type_text\", \"params\": {\"text\": \"hello\"}} \
        8. \"press_key\": Click a special keyboard key. Parameter: \"key\" (string - e.g., \"enter\", \"space\", \"backspace\", \"tab\", \"escape\"). \
           Example: {\"action\": \"press_key\", \"params\": {\"key\": \"enter\"}} \
        9. \"get_metrics\": Retrieve system telemetry resource logs. Parameter: none. \
           Example: {\"action\": \"get_metrics\", \"params\": {}} \
        \
        Always prioritize safety. Refuse destructive requests like system formats. Be concise.";

/// The local model server used when none is configured.
pub const DEFAULT_OLLAMA_URL: &'static str = "http://127.0.0.1:11434";

/// The model used when none is configured.
pub const DEFAULT_MODEL: &'static str = "llama3";

/// The refusal returned for a conversation that tries to override the
/// assistant's instructions.
pub const INJECTION_REFUSAL: &'static str = "Security Violation: Request contains disallowed instruction overrides.";

/// The assistant's configuration: model server, default model and identity
/// prompt.
pub struct AiManager {
    ollama_url: String,
    default_model: String,
    system_prompt: String,
}

impl AiManager {
    /// The model server's base address.
    pub closed spec fn url(&self) -> Seq<char> {
        self.ollama_url@
    }

    /// The model used when a query names none.
    pub closed spec fn model(&self) -> Seq<char> {
        self.default_model@
    }

    /// The identity prompt.
    pub closed spec fn prompt(&self) -> Seq<char> {
        self.system_prompt@
    }

    /// A configuration with the given server and model, or the defaults.
    pub fn new(ollama_url: Option<String>, default_model: Option<String>) -> (res: Self)
        ensures
            res.url() == match ollama_url {
                Some(u) => u@,
                None => DEFAULT_OLLAMA_URL@,
            },
            res.model() == match default_model {
                Some(m) => m@,
                None => DEFAULT_MODEL@,
            },
            res.prompt() == SYSTEM_PROMPT@,
    {
        let ollama_url = match ollama_url {
            Some(u) => u,
            None => DEFAULT_OLLAMA_URL.to_string(),
        };
        let default_model = match default_model {
            Some(m) => m,
            None => DEFAULT_MODEL.to_string(),
        };
        AiManager { ollama_url, default_model, system_prompt: SYSTEM_PROMPT.to_string() }
    }

    /// The model server's base address.
    pub fn ollama_url(&self) -> (res: &str)
        ensures
            res@ == self.url(),
    {
        self.ollama_url.as_str()
    }

    /// The model used when a query names none.
    pub fn default_model(&self) -> (res: &str)
        ensures
            res@ == self.model(),
    {
        self.default_model.as_str()
    }

    /// The address listing the installed models.
    pub fn tags_endpoint(&self) -> (res: String)
        ensures
            res@ == self.url() + "/api/tags"@,
    {
        string_of(&concat_str(&chars_of(self.ollama_url.as_str()), "/api/tags"))
    }

    /// The address of the chat completion service.
    pub fn chat_endpoint(&self) -> (res: String)
        ensures
            res@ == self.url() + "/api/chat"@,
    {
        string_of(&concat_str(&chars_of(self.ollama_url.as_str()), "/api/chat"))
    }

    /// The model a query uses: the one it names, or the default, matched
    /// against the installed models when their list could be read.
    pub fn resolve_model(&self, model: Option<&str>, available: Option<&Vec<String>>) -> (res: String)
        ensures
            res@ == resolve_model_for(
                match model {
                    Some(m) => m@,
                    None => self.model(),
                },
                match available {
                    Some(v) => Some(crate::automation::string_views(v@)),
                    None => None,
                },
            ),
    {
        let requested = match model {
            Some(m) => m.to_string(),
            None => self.default_model.clone(),
        };
        match available {
            None => requested,
            Some(v) => pick_model(requested, v),
        }
    }

    /// Whether a text tries to override the assistant's instructions (one of
    /// the known override phrases occurs in its lowercase form).
    pub fn detect_prompt_injection(&self, text: &str) -> (res: bool)
        ensures
            res == injected(text@),
    {
        let lower = chars_of(text::to_lowercase(text).as_str());
        contains_str(&lower, "ignore previous instructions") || contains_str(
            &lower,
            "override system prompt",
        ) || contains_str(&lower, "you are no longer avatar") || contains_str(
            &lower,
            "developer mode",
        ) || contains_str(&lower, "bypass system check") || contains_str(&lower, "system shutdown")
    }

    /// The conversation sent to the model: the identity prompt as a system
    /// message, then the history; refused when any message tries to override
    /// the assistant's instructions.
    pub fn prepare_messages(&self, history: &Vec<ChatMessage>) -> (res: Result<Vec<ChatMessage>, String>)
        ensures
            match res {
                Ok(m) => chat_views(m@) == seq![("system"@, self.prompt())] + chat_views(history@)
                    && !injected(self.prompt()) && forall|i: int|
                    0 <= i < history@.len() ==> !injected(#[trigger] history@[i].content@),
                Err(e) => e@ == INJECTION_REFUSAL@ && (injected(self.prompt()) || exists|i: int|
                    0 <= i < history@.len() && injected(#[trigger] history@[i].content@)),
            },
    {
        let mut messages: Vec<ChatMessage> = Vec::new();
        messages.push(ChatMessage { role: "system".to_string(), content: self.system_prompt.clone() });
        if self.detect_prompt_injection(self.system_prompt.as_str()) {
            return Err(INJECTION_REFUSAL.to_string());
        }
        let mut i: usize = 0;
        while i < history.len()
            invariant
                i <= history@.len(),
                !injected(self.prompt()),
                forall|j: int| 0 <= j < i ==> !injected(#[trigger] history@[j].content@),
                chat_views(messages@) == seq![("system"@, self.prompt())] + chat_views(
                    history@.take(i as int),
                ),
            decreases history.len() - i,
        {
            let m = &history[i];
            if self.detect_prompt_injection(m.content.as_str()) {
                return Err(INJECTION_REFUSAL.to_string());
            }
            let c = ChatMessage { role: m.role.clone(), content: m.content.clone() };
            let ghost before = messages@;
            messages.push(c);
            proof {
                assert(chat_view(c) == chat_view(history@[i as int]));
                assert(chat_views(messages@) =~= chat_views(before).push(chat_view(c)));
                assert(chat_views(history@.take(i + 1)) =~= chat_views(history@.take(i as int)).push(
                    chat_view(history@[i as int]),
                ));
                assert(chat_views(messages@) =~= seq![("system"@, self.prompt())] + chat_views(
                    history@.take(i + 1),
                ));
            }
            i = i + 1;
        }
        proof {
            assert(history@.take(history@.len() as int) =~= history@);
        }
        Ok(messages)
    }
}

/// The override phrases, one of which in a message's lowercase form marks an
/// injection attempt.
pub open spec fn injected(text: Seq<char>) -> bool {
    let l = text::lowercase(text);
    text::contains_seq(l, "ignore previous instructions"@) || text::contains_seq(
        l,
        "override system prompt"@,
    ) || text::contains_seq(l, "you are no longer avatar"@) || text::contains_seq(
        l,
        "developer mode"@,
    ) || text::contains_seq(l, "bypass system check"@) || text::contains_seq(l, "system shutdown"@)
}

/// Position of the first installed model named `<requested>:<tag>`, from
/// position `i` on.
pub open spec fn first_tagged(available: Seq<Seq<char>>, requested: Seq<char>, i: int) -> Option<int>
    decreases available.len() - i,
{
    if i < 0 || i >= available.len() {
        None
    } else if text::starts_with_seq(available[i], requested + ":"@) {
        Some(i)
    } else {
        first_tagged(available, requested, i + 1)
    }
}

/// The model used for a requested name: the name itself when installed (or
/// when the installed list is unknown), else its `:latest` tag, else the
/// first installed tag of it, else the first installed model, else the name.
pub open spec fn resolve_model_for(requested: Seq<char>, available: Option<Seq<Seq<char>>>) -> Seq<char> {
    match available {
        None => requested,
        Some(av) => if av.contains(requested) {
            requested
        } else if av.contains(requested + ":latest"@) {
            requested + ":latest"@
        } else if first_tagged(av, requested, 0) is Some {
            av[first_tagged(av, requested, 0)->0]
        } else if av.len() > 0 {
            av[0]
        } else {
            requested
        },
    }
}

fn contains_name(v: &Vec<String>, name: &String) -> (res: bool)
    ensures
        res == crate::automation::string_views(v@).contains(name@),
{
    let r = text::vec_contains_string(v, name);
    proof {
        let sv = crate::automation::string_views(v@);
        if r {
            let i = choose|i: int| 0 <= i < v@.len() && v@[i]@ == name@;
            assert(sv[i] == name@);
        } else {
            if sv.contains(name@) {
                let i = choose|i: int| 0 <= i < sv.len() && sv[i] == name@;
                assert(v@[i]@ == name@);
            }
        }
    }
    r
}

fn pick_model(requested: String, v: &Vec<String>) -> (res: String)
    ensures
        res@ == resolve_model_for(requested@, Some(crate::automation::string_views(v@))),
{
    let ghost av = crate::automation::string_views(v@);
    if contains_name(v, &requested) {
        return requested;
    }
    let latest = string_of(&concat_str(&chars_of(requested.as_str()), ":latest"));
    if contains_name(v, &latest) {
        return latest;
    }
    let prefix = concat_str(&chars_of(requested.as_str()), ":");
    let mut i: usize = 0;
    while i < v.len()
        invariant
            i <= v@.len(),
            av == crate::automation::string_views(v@),
            prefix@ == requested@ + ":"@,
            !av.contains(requested@),
            !av.contains(requested@ + ":latest"@),
            first_tagged(av, requested@, 0) == first_tagged(av, requested@, i as int),
        decreases v.len() - i,
    {
        let name = chars_of(v[i].as_str());
        proof {
            assert(av[i as int] == v@[i as int]@);
        }
        if starts_with(&name, &prefix) {
            return v[i].clone();
        }
        i = i + 1;
    }
    if v.len() > 0 {
        v[0].clone()
    } else {
        requested
    }
}

} // verus!
