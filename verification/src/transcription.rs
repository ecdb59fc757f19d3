//! The transcription catalogue: the supported providers and models with
//! their identifiers, endpoints, and API names, and the shape of a
//! provider's response. The network clients that use these live outside
//! the library.

use vstd::prelude::*;
use crate::text::str_eq;

verus! {

/// A transcription service provider.
#[derive(Debug, Clone, Copy, PartialEq, Eq, Hash, Structural)]
pub enum TranscriptionProvider {
    OpenAI,
    Deepgram,
    DeepInfra,
    Groq,
    Parakeet,
}

impl TranscriptionProvider {
    /// The provider's stable identifier.
    pub fn id(&self) -> (r: &'static str)
        ensures
            *self is OpenAI ==> r@ == "openai"@,
            *self is Deepgram ==> r@ == "deepgram"@,
            *self is DeepInfra ==> r@ == "deepinfra"@,
            *self is Groq ==> r@ == "groq"@,
            *self is Parakeet ==> r@ == "parakeet"@,
    {
        match self {
            TranscriptionProvider::OpenAI => "openai",
            TranscriptionProvider::Deepgram => "deepgram",
            TranscriptionProvider::DeepInfra => "deepinfra",
            TranscriptionProvider::Groq => "groq",
            TranscriptionProvider::Parakeet => "parakeet",
        }
    }

    /// The provider's display name.
    pub fn name(&self) -> (r: &'static str)
        ensures
            *self is OpenAI ==> r@ == "OpenAI"@,
            *self is Deepgram ==> r@ == "Deepgram"@,
            *self is DeepInfra ==> r@ == "DeepInfra"@,
            *self is Groq ==> r@ == "Groq"@,
            *self is Parakeet ==> r@ == "Parakeet"@,
    {
        match self {
            TranscriptionProvider::OpenAI => "OpenAI",
            TranscriptionProvider::Deepgram => "Deepgram",
            TranscriptionProvider::DeepInfra => "DeepInfra",
            TranscriptionProvider::Groq => "Groq",
            TranscriptionProvider::Parakeet => "Parakeet",
        }
    }

    /// Looks a provider up by its identifier.
    pub fn from_id(id: &str) -> (r: Option<Self>)
        ensures
            r matches Some(p) ==> (p is OpenAI && id@ == "openai"@) || (p is Deepgram && id@
                == "deepgram"@) || (p is DeepInfra && id@ == "deepinfra"@) || (p is Groq && id@
                == "groq"@) || (p is Parakeet && id@ == "parakeet"@),
            r is None ==> id@ != "openai"@ && id@ != "deepgram"@ && id@ != "deepinfra"@ && id@
                != "groq"@ && id@ != "parakeet"@,
    {
        if str_eq(id, "openai") {
            Some(TranscriptionProvider::OpenAI)
        } else if str_eq(id, "deepgram") {
            Some(TranscriptionProvider::Deepgram)
        } else if str_eq(id, "deepinfra") {
            Some(TranscriptionProvider::DeepInfra)
        } else if str_eq(id, "groq") {
            Some(TranscriptionProvider::Groq)
        } else if str_eq(id, "parakeet") {
            Some(TranscriptionProvider::Parakeet)
        } else {
            None
        }
    }

    /// All providers, in their catalogue order.
    pub fn all() -> (r: Vec<Self>)
        ensures
            r@ == seq![
                TranscriptionProvider::OpenAI,
                TranscriptionProvider::Deepgram,
                TranscriptionProvider::DeepInfra,
                TranscriptionProvider::Groq,
                TranscriptionProvider::Parakeet,
            ],
    {
        let mut v: Vec<Self> = Vec::new();
        v.push(TranscriptionProvider::OpenAI);
        v.push(TranscriptionProvider::Deepgram);
        v.push(TranscriptionProvider::DeepInfra);
        v.push(TranscriptionProvider::Groq);
        v.push(TranscriptionProvider::Parakeet);
        proof {
            assert(v@ =~= seq![
                TranscriptionProvider::OpenAI,
                TranscriptionProvider::Deepgram,
                TranscriptionProvider::DeepInfra,
                TranscriptionProvider::Groq,
                TranscriptionProvider::Parakeet,
            ]);
        }
        v
    }
}

/// A supported transcription model.
#[derive(Debug, Clone, Copy, PartialEq, Eq, Hash, Structural)]
pub enum TranscriptionModel {
    /// OpenAI GPT-4o Transcribe (latest, best accuracy).
    Gpt4oTranscribe,
    /// OpenAI GPT-4o Mini Transcribe (faster, lighter).
    Gpt4oMiniTranscribe,
    /// OpenAI Whisper (legacy).
    Whisper,
    /// Deepgram Nova 3 (latest, fastest).
    DeepgramNova3,
    /// Deepgram Nova 2 (previous generation).
    DeepgramNova2,
    /// Parakeet TDT 0.6B v2 (local, English-only, offline).
    ParakeetTdtV2,
    /// Parakeet TDT 0.6B v3 (local, 25 European languages, offline).
    ParakeetTdtV3,
}

/// The provider a model is served by.
pub open spec fn provider_of(m: TranscriptionModel) -> TranscriptionProvider {
    match m {
        TranscriptionModel::Gpt4oTranscribe => TranscriptionProvider::OpenAI,
        TranscriptionModel::Gpt4oMiniTranscribe => TranscriptionProvider::OpenAI,
        TranscriptionModel::Whisper => TranscriptionProvider::OpenAI,
        TranscriptionModel::DeepgramNova3 => TranscriptionProvider::Deepgram,
        TranscriptionModel::DeepgramNova2 => TranscriptionProvider::Deepgram,
        TranscriptionModel::ParakeetTdtV2 => TranscriptionProvider::Parakeet,
        TranscriptionModel::ParakeetTdtV3 => TranscriptionProvider::Parakeet,
    }
}

/// A model's stable identifier.
pub open spec fn id_of(m: TranscriptionModel) -> Seq<char> {
    match m {
        TranscriptionModel::Gpt4oTranscribe => "gpt-4o-transcribe"@,
        TranscriptionModel::Gpt4oMiniTranscribe => "gpt-4o-mini-transcribe"@,
        TranscriptionModel::Whisper => "whisper"@,
        TranscriptionModel::DeepgramNova3 => "nova-3"@,
        TranscriptionModel::DeepgramNova2 => "nova-2"@,
        TranscriptionModel::ParakeetTdtV2 => "parakeet-tdt-v2"@,
        TranscriptionModel::ParakeetTdtV3 => "parakeet-tdt-v3"@,
    }
}

/// All models, in their catalogue order.
pub open spec fn all_models() -> Seq<TranscriptionModel> {
    seq![
        TranscriptionModel::Gpt4oTranscribe,
        TranscriptionModel::Gpt4oMiniTranscribe,
        TranscriptionModel::Whisper,
        TranscriptionModel::DeepgramNova3,
        TranscriptionModel::DeepgramNova2,
        TranscriptionModel::ParakeetTdtV2,
        TranscriptionModel::ParakeetTdtV3,
    ]
}

impl TranscriptionModel {
    /// The provider that serves this model.
    pub fn provider(&self) -> (r: TranscriptionProvider)
        ensures
            r == provider_of(*self),
    {
        match self {
            TranscriptionModel::Gpt4oTranscribe
            | TranscriptionModel::Gpt4oMiniTranscribe
            | TranscriptionModel::Whisper => TranscriptionProvider::OpenAI,
            TranscriptionModel::DeepgramNova3 | TranscriptionModel::DeepgramNova2 => {
                TranscriptionProvider::Deepgram
            },
            TranscriptionModel::ParakeetTdtV2 | TranscriptionModel::ParakeetTdtV3 => {
                TranscriptionProvider::Parakeet
            },
        }
    }

    /// The model's stable identifier.
    pub fn id(&self) -> (r: &'static str)
        ensures
            r@ == id_of(*self),
    {
        match self {
            TranscriptionModel::Gpt4oTranscribe => "gpt-4o-transcribe",
            TranscriptionModel::Gpt4oMiniTranscribe => "gpt-4o-mini-transcribe",
            TranscriptionModel::Whisper => "whisper",
            TranscriptionModel::DeepgramNova3 => "nova-3",
            TranscriptionModel::DeepgramNova2 => "nova-2",
            TranscriptionModel::ParakeetTdtV2 => "parakeet-tdt-v2",
            TranscriptionModel::ParakeetTdtV3 => "parakeet-tdt-v3",
        }
    }

    /// A human-readable description.
    pub fn description(&self) -> (r: &'static str)
        ensures
            *self is Gpt4oTranscribe ==> r@ == "GPT-4o Transcribe (latest, best accuracy)"@,
            *self is Gpt4oMiniTranscribe ==> r@ == "GPT-4o Mini Transcribe (faster, lighter)"@,
            *self is Whisper ==> r@ == "Whisper (legacy)"@,
            *self is DeepgramNova3 ==> r@ == "Nova 3 (latest, fastest)"@,
            *self is DeepgramNova2 ==> r@ == "Nova 2 (previous generation)"@,
            *self is ParakeetTdtV2 ==> r@ == "Parakeet TDT v2 (English, offline, ~600MB)"@,
            *self is ParakeetTdtV3 ==> r@ == "Parakeet TDT v3 (25 languages, offline, ~2GB)"@,
    {
        match self {
            TranscriptionModel::Gpt4oTranscribe => "GPT-4o Transcribe (latest, best accuracy)",
            TranscriptionModel::Gpt4oMiniTranscribe => "GPT-4o Mini Transcribe (faster, lighter)",
            TranscriptionModel::Whisper => "Whisper (legacy)",
            TranscriptionModel::DeepgramNova3 => "Nova 3 (latest, fastest)",
            TranscriptionModel::DeepgramNova2 => "Nova 2 (previous generation)",
            TranscriptionModel::ParakeetTdtV2 => "Parakeet TDT v2 (English, offline, ~600MB)",
            TranscriptionModel::ParakeetTdtV3 => "Parakeet TDT v3 (25 languages, offline, ~2GB)",
        }
    }

    /// The API endpoint this model is reached at; local models have none.
    pub fn endpoint(&self) -> (r: &'static str)
        ensures
            provider_of(*self) is OpenAI ==> r@ == "https://api.openai.com/v1/audio/transcriptions"@,
            provider_of(*self) is Deepgram ==> r@ == "https://api.deepgram.com/v1/listen"@,
            provider_of(*self) is Parakeet ==> r@ == "local"@,
    {
        match self {
            TranscriptionModel::Gpt4oTranscribe
            | TranscriptionModel::Gpt4oMiniTranscribe
            | TranscriptionModel::Whisper => "https://api.openai.com/v1/audio/transcriptions",
            TranscriptionModel::DeepgramNova3 | TranscriptionModel::DeepgramNova2 => {
                "https://api.deepgram.com/v1/listen"
            },
            TranscriptionModel::ParakeetTdtV2 | TranscriptionModel::ParakeetTdtV3 => "local",
        }
    }

    /// The model name sent to the API.
    pub fn api_model_name(&self) -> (r: &'static str)
        ensures
            *self is Gpt4oTranscribe ==> r@ == "gpt-4o-transcribe"@,
            *self is Gpt4oMiniTranscribe ==> r@ == "gpt-4o-mini-transcribe"@,
            *self is Whisper ==> r@ == "whisper-1"@,
            *self is DeepgramNova3 ==> r@ == "nova-3"@,
            *self is DeepgramNova2 ==> r@ == "nova-2"@,
            *self is ParakeetTdtV2 ==> r@ == "parakeet-tdt-0.6b-v2"@,
            *self is ParakeetTdtV3 ==> r@ == "parakeet-tdt-0.6b-v3"@,
    {
        match self {
            TranscriptionModel::Gpt4oTranscribe => "gpt-4o-transcribe",
            TranscriptionModel::Gpt4oMiniTranscribe => "gpt-4o-mini-transcribe",
            TranscriptionModel::Whisper => "whisper-1",
            TranscriptionModel::DeepgramNova3 => "nova-3",
            TranscriptionModel::DeepgramNova2 => "nova-2",
            TranscriptionModel::ParakeetTdtV2 => "parakeet-tdt-0.6b-v2",
            TranscriptionModel::ParakeetTdtV3 => "parakeet-tdt-0.6b-v3",
        }
    }

    /// Looks a model up by its identifier.
    pub fn from_id(id: &str) -> (r: Option<Self>)
        ensures
            r matches Some(m) ==> id@ == id_of(m),
            r is None ==> forall|m: TranscriptionModel| id@ != id_of(m),
    {
        if str_eq(id, "gpt-4o-transcribe") {
            Some(TranscriptionModel::Gpt4oTranscribe)
        } else if str_eq(id, "gpt-4o-mini-transcribe") {
            Some(TranscriptionModel::Gpt4oMiniTranscribe)
        } else if str_eq(id, "whisper") {
            Some(TranscriptionModel::Whisper)
        } else if str_eq(id, "nova-3") {
            Some(TranscriptionModel::DeepgramNova3)
        } else if str_eq(id, "nova-2") {
            Some(TranscriptionModel::DeepgramNova2)
        } else if str_eq(id, "parakeet-tdt-v2") {
            Some(TranscriptionModel::ParakeetTdtV2)
        } else if str_eq(id, "parakeet-tdt-v3") {
            Some(TranscriptionModel::ParakeetTdtV3)
        } else {
            None
        }
    }

    /// All models, in their catalogue order.
    pub fn all() -> (r: Vec<Self>)
        ensures
            r@ == all_models(),
    {
        let mut v: Vec<Self> = Vec::new();
        v.push(TranscriptionModel::Gpt4oTranscribe);
        v.push(TranscriptionModel::Gpt4oMiniTranscribe);
        v.push(TranscriptionModel::Whisper);
        v.push(TranscriptionModel::DeepgramNova3);
        v.push(TranscriptionModel::DeepgramNova2);
        v.push(TranscriptionModel::ParakeetTdtV2);
        v.push(TranscriptionModel::ParakeetTdtV3);
        proof {
            assert(v@ =~= all_models());
        }
        v
    }

    /// The identifiers of all models, in catalogue order.
    pub fn available_ids() -> (r: Vec<&'static str>)
        ensures
            r@.len() == all_models().len(),
            forall|i: int| 0 <= i < r@.len() ==> #[trigger] r@[i]@ == id_of(all_models()[i]),
    {
        let mut v: Vec<&'static str> = Vec::new();
        v.push("gpt-4o-transcribe");
        v.push("gpt-4o-mini-transcribe");
        v.push("whisper");
        v.push("nova-3");
        v.push("nova-2");
        v.push("parakeet-tdt-v2");
        v.push("parakeet-tdt-v3");
        v
    }

    /// The models a provider serves, in catalogue order.
    pub fn models_for_provider(provider: &TranscriptionProvider) -> (r: Vec<TranscriptionModel>)
        ensures
            r@ == all_models().filter(|m: TranscriptionModel| provider_of(m) == *provider),
    {
        let mut v: Vec<TranscriptionModel> = Vec::new();
        match provider {
            TranscriptionProvider::OpenAI => {
                v.push(TranscriptionModel::Gpt4oTranscribe);
                v.push(TranscriptionModel::Gpt4oMiniTranscribe);
                v.push(TranscriptionModel::Whisper);
            },
            TranscriptionProvider::Deepgram => {
                v.push(TranscriptionModel::DeepgramNova3);
                v.push(TranscriptionModel::DeepgramNova2);
            },
            TranscriptionProvider::Parakeet => {
                v.push(TranscriptionModel::ParakeetTdtV2);
                v.push(TranscriptionModel::ParakeetTdtV3);
            },
            TranscriptionProvider::DeepInfra => {},
            TranscriptionProvider::Groq => {},
        }
        proof {
            assert(v@ =~= all_models().filter(
                |m: TranscriptionModel| provider_of(m) == *provider,
            )) by {
                reveal_with_fuel(Seq::filter, 8);
            }
        }
        v
    }
}

/// The unified response of the HTTP transcription APIs.
#[derive(Debug, Clone)]
pub struct TranscriptionResponse {
    /// The transcribed text.
    pub text: String,
}

/// The response of Whisper-style APIs that answer `{"text": ...}`.
#[derive(Debug)]
pub struct WhisperApiResponse {
    /// The transcribed text.
    pub text: String,
}

} // verus!
