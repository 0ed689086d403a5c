//! Which of a provider's listed models the model picker offers.
use vstd::prelude::*;
use crate::text::{contains_seq, lower_of, starts_with_seq, str_contains, str_starts_with, to_lower};

verus! {

/// Parts of a model id that mark a model that is not for chat.
pub open spec fn denied(id: Seq<char>) -> bool {
    contains_seq(id, "gpt-image"@) || contains_seq(id, "dall-e"@) || contains_seq(id, "whisper"@)
        || contains_seq(id, "tts"@) || contains_seq(id, "embedding"@) || contains_seq(id, "embed"@)
        || contains_seq(id, "moderation"@) || contains_seq(id, "omni-moderation"@) || contains_seq(
        id,
        "realtime"@,
    ) || contains_seq(id, "audio"@) || contains_seq(id, "transcribe"@) || contains_seq(
        id,
        "transcription"@,
    )
}

/// An OpenAI model is offered where its lowercased id is of a chat family
/// (`gpt-`, `chatgpt-` or `o`) and names no non-chat use.
pub open spec fn model_allowed(model_id: Seq<char>) -> bool {
    allowed_lowered(lower_of(model_id))
}

/// A lowercased model id is of a chat family and names no non-chat use.
pub open spec fn allowed_lowered(id: Seq<char>) -> bool {
    (starts_with_seq(id, "gpt-"@) || starts_with_seq(id, "chatgpt-"@) || starts_with_seq(id, "o"@))
        && !denied(id)
}

/// Whether the OpenAI model `model_id` is offered for chat.
pub fn openai_model_allowed(model_id: &str) -> (r: bool)
    ensures
        r == model_allowed(model_id@),
{
    let l = to_lower(model_id);
    model_id_allowed_lowered(l.as_str())
}

/// Whether an OpenAI model id, already lowercased, is offered for chat.
pub fn model_id_allowed_lowered(id: &str) -> (r: bool)
    ensures
        r == allowed_lowered(id@),
{
    let family_ok = str_starts_with(id, "gpt-") || str_starts_with(id, "chatgpt-") || str_starts_with(
        id,
        "o",
    );
    if !family_ok {
        return false;
    }
    let deny = str_contains(id, "gpt-image") || str_contains(id, "dall-e") || str_contains(
        id,
        "whisper",
    ) || str_contains(id, "tts") || str_contains(id, "embedding") || str_contains(id, "embed")
        || str_contains(id, "moderation") || str_contains(id, "omni-moderation") || str_contains(
        id,
        "realtime",
    ) || str_contains(id, "audio") || str_contains(id, "transcribe") || str_contains(
        id,
        "transcription",
    );
    !deny
}

} // verus!
