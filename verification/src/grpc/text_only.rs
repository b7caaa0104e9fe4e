//! Output modalities of chat requests.

use crate::grpc::error::{bad_request, bad_request_text, ErrorAnswer, ErrorText};
use crate::text::same;
use vstd::prelude::*;

verus! {

/// The first of `modalities` from `from` on that is not text.
pub open spec fn first_not_text(modalities: Seq<String>, from: int) -> Option<int>
    decreases modalities.len() - from,
{
    if from < 0 || from >= modalities.len() {
        None
    } else if modalities[from]@ != "text"@ {
        Some(from)
    } else {
        first_not_text(modalities, from + 1)
    }
}

/// What is wrong with the outputs that a chat request asks for.
pub open spec fn output_problem(return_audio: Option<bool>, modalities: Option<Seq<String>>) -> Option<
    ErrorText,
> {
    if return_audio == Some(true) {
        Some(
            bad_request_text(
                "audio_output_not_supported"@,
                "'return_audio' must be false because the gRPC backend only supports text output"@,
            ),
        )
    } else {
        match modalities {
            None => None,
            Some(m) => match first_not_text(m, 0) {
                None => None,
                Some(i) => Some(
                    bad_request_text(
                        "unsupported_output_modality"@,
                        "unsupported output modality '"@ + m[i]@
                            + "'; the gRPC backend only supports text output"@,
                    ),
                ),
            },
        }
    }
}

/// Only text can be asked for.
pub fn validate_text_only_output(
    return_audio: Option<bool>,
    modalities: Option<&Vec<String>>,
) -> (r: Result<(), ErrorAnswer>)
    ensures
        match output_problem(
            return_audio,
            match modalities {
                Some(m) => Some(m@),
                None => None,
            },
        ) {
            None => r is Ok,
            Some(e) => r matches Err(a) && a@ == e,
        },
{
    if let Some(audio) = return_audio {
        if audio {
            return Err(
                bad_request(
                    "audio_output_not_supported",
                    "'return_audio' must be false because the gRPC backend only supports text output",
                ),
            );
        }
    }
    if let Some(m) = modalities {
        let mut i: usize = 0;
        while i < m.len()
            invariant
                i <= m@.len(),
                return_audio != Some(true),
                modalities == Some(m),
                first_not_text(m@, 0) == first_not_text(m@, i as int),
            decreases m@.len() - i,
        {
            if !same(m[i].as_str(), "text") {
                let mut message = "unsupported output modality '".to_owned();
                message.append(m[i].as_str());
                message.append("'; the gRPC backend only supports text output");
                return Err(bad_request("unsupported_output_modality", message.as_str()));
            }
            i += 1;
        }
    }
    Ok(())
}

/// Text is all that can be asked for: audio is refused first, then the first
/// modality that is not text, by its name.
pub proof fn only_text_is_answered(
    return_audio: Option<bool>,
    modalities: Option<Seq<String>>,
    at: int,
)
    ensures
        output_problem(return_audio, modalities) is None <==> return_audio != Some(true) && (
        modalities matches Some(m) ==> forall|i: int|
            0 <= i < m.len() ==> (#[trigger] m[i])@ == "text"@),
        output_problem(return_audio, modalities) matches Some(e) ==> e.status == 400,
        return_audio == Some(true) ==> (output_problem(return_audio, modalities) matches Some(e)
            && e.code == "audio_output_not_supported"@),
        return_audio != Some(true) ==> (modalities matches Some(m) ==> (0 <= at < m.len() && m[at]@
            != "text"@ && (forall|i: int| 0 <= i < at ==> (#[trigger] m[i])@ == "text"@) ==> (
        output_problem(return_audio, modalities) matches Some(e) && e.code
            == "unsupported_output_modality"@ && e.message == "unsupported output modality '"@
            + m[at]@ + "'; the gRPC backend only supports text output"@))),
{
    if let Some(m) = modalities {
        lemma_first_not_text(m, 0);
        if let Some(i) = first_not_text(m, 0) {
            assert(m[i]@ != "text"@);
        }
    }
}

proof fn lemma_first_not_text(m: Seq<String>, from: int)
    requires
        0 <= from,
    ensures
        match first_not_text(m, from) {
            Some(i) => {
                &&& from <= i < m.len()
                &&& m[i]@ != "text"@
                &&& forall|j: int| from <= j < i ==> (#[trigger] m[j])@ == "text"@
            },
            None => forall|j: int| from <= j < m.len() ==> (#[trigger] m[j])@ == "text"@,
        },
    decreases m.len() - from,
{
    if from < m.len() && m[from]@ == "text"@ {
        lemma_first_not_text(m, from + 1);
    }
}

} // verus!
