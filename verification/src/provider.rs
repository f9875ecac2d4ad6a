//! Model providers known to the application and `<provider>/<model>` strings.
use vstd::prelude::*;

use crate::text::{
    chars_of, index_of, index_of_vec, lemma_index_of_from, lit, lower, lower_vec, seq_eq,
    slice_vec, string_of, trim, trim_vec,
};

verus! {

#[derive(PartialEq, Eq, Structural, Clone, Copy, Debug)]
pub enum ProviderId {
    MiniMax,
    Kimi,
    Zhipu,
    Gemini,
    Modal,
    OpenAiChatGpt,
}

pub open spec fn provider_name(p: ProviderId) -> Seq<char> {
    match p {
        ProviderId::MiniMax => "minimax"@,
        ProviderId::Kimi => "kimi"@,
        ProviderId::Zhipu => "zhipu"@,
        ProviderId::Gemini => "gemini"@,
        ProviderId::Modal => "modal"@,
        ProviderId::OpenAiChatGpt => "openai-chatgpt"@,
    }
}

/// The provider a (trimmed, lower-cased) name denotes; `glm` and `chatgpt`
/// are accepted as aliases.
pub open spec fn provider_from_name(s: Seq<char>) -> Option<ProviderId> {
    let n = lower(trim(s));
    if n == "minimax"@ {
        Some(ProviderId::MiniMax)
    } else if n == "kimi"@ {
        Some(ProviderId::Kimi)
    } else if n == "zhipu"@ || n == "glm"@ {
        Some(ProviderId::Zhipu)
    } else if n == "gemini"@ {
        Some(ProviderId::Gemini)
    } else if n == "modal"@ {
        Some(ProviderId::Modal)
    } else if n == "openai-chatgpt"@ || n == "chatgpt"@ {
        Some(ProviderId::OpenAiChatGpt)
    } else {
        None
    }
}

fn is_name(v: &Vec<char>, s: &str) -> (r: bool)
    ensures
        r == (v@ == s@),
{
    let c = chars_of(s);
    seq_eq(v, &c)
}

impl ProviderId {
    pub fn as_str(&self) -> (r: &'static str)
        ensures
            r@ == provider_name(*self),
    {
        match self {
            ProviderId::MiniMax => "minimax",
            ProviderId::Kimi => "kimi",
            ProviderId::Zhipu => "zhipu",
            ProviderId::Gemini => "gemini",
            ProviderId::Modal => "modal",
            ProviderId::OpenAiChatGpt => "openai-chatgpt",
        }
    }

    pub fn all() -> (r: Vec<ProviderId>)
        ensures
            r@ == seq![
                ProviderId::MiniMax,
                ProviderId::Kimi,
                ProviderId::Zhipu,
                ProviderId::Gemini,
                ProviderId::Modal,
                ProviderId::OpenAiChatGpt,
            ],
    {
        let r = vec![
            ProviderId::MiniMax,
            ProviderId::Kimi,
            ProviderId::Zhipu,
            ProviderId::Gemini,
            ProviderId::Modal,
            ProviderId::OpenAiChatGpt,
        ];
        assert(r@ =~= seq![
            ProviderId::MiniMax,
            ProviderId::Kimi,
            ProviderId::Zhipu,
            ProviderId::Gemini,
            ProviderId::Modal,
            ProviderId::OpenAiChatGpt,
        ]);
        r
    }

    pub fn from_name(value: &Vec<char>) -> (r: Option<ProviderId>)
        ensures
            r == provider_from_name(value@),
    {
        let n = lower_vec(&trim_vec(value));
        if is_name(&n, "minimax") {
            Some(ProviderId::MiniMax)
        } else if is_name(&n, "kimi") {
            Some(ProviderId::Kimi)
        } else if is_name(&n, "zhipu") || is_name(&n, "glm") {
            Some(ProviderId::Zhipu)
        } else if is_name(&n, "gemini") {
            Some(ProviderId::Gemini)
        } else if is_name(&n, "modal") {
            Some(ProviderId::Modal)
        } else if is_name(&n, "openai-chatgpt") || is_name(&n, "chatgpt") {
            Some(ProviderId::OpenAiChatGpt)
        } else {
            None
        }
    }
}

/// A model string `<provider>/<model>` names its provider when the part
/// before the first `/` is a known provider; the model is then the trimmed
/// rest.  Otherwise there is no provider and the model is the trimmed text.
pub open spec fn model_override_spec(value: Seq<char>) -> (Option<Seq<char>>, Seq<char>) {
    let t = trim(value);
    let i = index_of(t, '/');
    if i >= 0 && provider_from_name(t.take(i)) is Some {
        (Some(provider_name(provider_from_name(t.take(i))->0)), trim(t.skip(i + 1)))
    } else {
        (None, t)
    }
}

/// Parses model override strings in `<provider>/<model>` format.
pub fn parse_model_override(value: &str) -> (r: (Option<String>, String))
    ensures
        crate::text::opt_view(r.0) == model_override_spec(value@).0,
        r.1@ == model_override_spec(value@).1,
{
    let t = trim_vec(&chars_of(value));
    proof {
        lemma_index_of_from(t@, '/', 0);
    }
    match index_of_vec(&t, '/') {
        Some(i) => {
            let head = slice_vec(&t, 0, i);
            assert(head@ =~= t@.take(i as int));
            match ProviderId::from_name(&head) {
                Some(p) => {
                    let rest = slice_vec(&t, i + 1, t.len());
                    assert(rest@ =~= t@.skip(i + 1));
                    let m = trim_vec(&rest);
                    (Some(lit(p.as_str())), string_of(&m))
                },
                None => (None, string_of(&t)),
            }
        },
        None => (None, string_of(&t)),
    }
}

} // verus!
