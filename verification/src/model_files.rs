//! Selection of the local speech-model files: which file names a model
//! directory must hold (quantized variants preferred) and which error to
//! report when one is missing. Listing the directory is unverified glue;
//! the choice among the present names is made here.

use vstd::prelude::*;
use crate::text::str_eq;

verus! {

/// Whether one of the names equals `name`.
pub open spec fn holds_name(present: Seq<String>, name: Seq<char>) -> bool {
    exists|i: int| 0 <= i < present.len() && present[i]@ == name
}

/// The first of four candidate names that is present, if any.
pub open spec fn pick4(
    present: Seq<String>,
    a: Seq<char>,
    b: Seq<char>,
    c: Seq<char>,
    d: Seq<char>,
) -> Option<Seq<char>> {
    if holds_name(present, a) {
        Some(a)
    } else if holds_name(present, b) {
        Some(b)
    } else if holds_name(present, c) {
        Some(c)
    } else if holds_name(present, d) {
        Some(d)
    } else {
        None
    }
}

/// The encoder candidates, preferred first.
pub open spec fn encoder_choice(present: Seq<String>) -> Option<Seq<char>> {
    pick4(
        present,
        "encoder.int8.onnx"@,
        "encoder.onnx"@,
        "encoder-model.int8.onnx"@,
        "encoder-model.onnx"@,
    )
}

/// The decoder candidates, preferred first.
pub open spec fn decoder_choice(present: Seq<String>) -> Option<Seq<char>> {
    pick4(
        present,
        "decoder.int8.onnx"@,
        "decoder.onnx"@,
        "decoder-model.int8.onnx"@,
        "decoder-model.onnx"@,
    )
}

/// The joiner candidates, preferred first.
pub open spec fn joiner_choice(present: Seq<String>) -> Option<Seq<char>> {
    pick4(
        present,
        "joiner.int8.onnx"@,
        "joiner.onnx"@,
        "joiner-model.int8.onnx"@,
        "joiner-model.onnx"@,
    )
}

/// The token-list candidates, preferred first.
pub open spec fn tokens_choice(present: Seq<String>) -> Option<Seq<char>> {
    if holds_name(present, "tokens.txt"@) {
        Some("tokens.txt"@)
    } else if holds_name(present, "vocab.txt"@) {
        Some("vocab.txt"@)
    } else {
        None
    }
}

/// The chosen file name of each model part.
#[derive(Debug, Clone, PartialEq, Eq)]
pub struct ModelFiles {
    pub encoder: String,
    pub decoder: String,
    pub joiner: String,
    pub tokens: String,
}

/// Which model part is missing.
#[derive(Debug, Clone, Copy, PartialEq, Eq, Structural)]
pub enum ModelFilesError {
    EncoderNotFound,
    DecoderNotFound,
    JoinerNotFound,
    TokensNotFound,
}

fn contains_str(present: &Vec<String>, name: &str) -> (r: bool)
    ensures
        r == holds_name(present@, name@),
{
    let mut i: usize = 0;
    while i < present.len()
        invariant
            i <= present@.len(),
            forall|j: int| 0 <= j < i ==> present@[j]@ != name@,
        decreases present@.len() - i,
    {
        if str_eq(present[i].as_str(), name) {
            return true;
        }
        i = i + 1;
    }
    false
}

fn pick4_exec(present: &Vec<String>, a: &str, b: &str, c: &str, d: &str) -> (r: Option<String>)
    ensures
        r is Some <==> pick4(present@, a@, b@, c@, d@) is Some,
        r matches Some(v) ==> pick4(present@, a@, b@, c@, d@) matches Some(sv) && v@ == sv,
{
    if contains_str(present, a) {
        Some(a.to_owned())
    } else if contains_str(present, b) {
        Some(b.to_owned())
    } else if contains_str(present, c) {
        Some(c.to_owned())
    } else if contains_str(present, d) {
        Some(d.to_owned())
    } else {
        None
    }
}

/// Checks that a model directory's listing holds every part a local
/// transducer model needs, preferring the quantized file of each part,
/// and names the first missing part otherwise.
pub fn verify_model_files(present: &Vec<String>) -> (r: Result<ModelFiles, ModelFilesError>)
    ensures
        match r {
            Ok(m) => (encoder_choice(present@) matches Some(e) && m.encoder@ == e) && (
            decoder_choice(present@) matches Some(x) && m.decoder@ == x) && (joiner_choice(
                present@,
            ) matches Some(j) && m.joiner@ == j) && (tokens_choice(present@) matches Some(t)
                && m.tokens@ == t),
            Err(ModelFilesError::EncoderNotFound) => encoder_choice(present@) is None,
            Err(ModelFilesError::DecoderNotFound) => encoder_choice(present@) is Some
                && decoder_choice(present@) is None,
            Err(ModelFilesError::JoinerNotFound) => encoder_choice(present@) is Some
                && decoder_choice(present@) is Some && joiner_choice(present@) is None,
            Err(ModelFilesError::TokensNotFound) => encoder_choice(present@) is Some
                && decoder_choice(present@) is Some && joiner_choice(present@) is Some
                && tokens_choice(present@) is None,
        },
{
    let encoder = match pick4_exec(
        present,
        "encoder.int8.onnx",
        "encoder.onnx",
        "encoder-model.int8.onnx",
        "encoder-model.onnx",
    ) {
        Some(e) => e,
        None => {
            return Err(ModelFilesError::EncoderNotFound);
        },
    };
    let decoder = match pick4_exec(
        present,
        "decoder.int8.onnx",
        "decoder.onnx",
        "decoder-model.int8.onnx",
        "decoder-model.onnx",
    ) {
        Some(d) => d,
        None => {
            return Err(ModelFilesError::DecoderNotFound);
        },
    };
    let joiner = match pick4_exec(
        present,
        "joiner.int8.onnx",
        "joiner.onnx",
        "joiner-model.int8.onnx",
        "joiner-model.onnx",
    ) {
        Some(j) => j,
        None => {
            return Err(ModelFilesError::JoinerNotFound);
        },
    };
    let tokens = if contains_str(present, "tokens.txt") {
        "tokens.txt".to_owned()
    } else if contains_str(present, "vocab.txt") {
        "vocab.txt".to_owned()
    } else {
        return Err(ModelFilesError::TokensNotFound);
    };
    Ok(ModelFiles { encoder, decoder, joiner, tokens })
}

} // verus!
