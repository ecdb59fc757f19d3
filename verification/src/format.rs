//! The output-format string and what is derived from it: its
//! whitespace-separated tokens, the codec (the first token), the file
//! extension the codec implies, and the argument list handed to the
//! external encoder. Also the word-wrap line count used to center error
//! text.

use vstd::prelude::*;
use crate::version::{is_space, trim_start_idx, skip_spaces, space_at};
use crate::text::str_eq;

verus! {

/// First index at or after `i` holding whitespace, or the length.
pub open spec fn token_end(s: Seq<char>, i: int) -> int
    decreases s.len() - i,
{
    if i < 0 || i >= s.len() {
        s.len() as int
    } else if is_space(s[i]) {
        i
    } else {
        token_end(s, i + 1)
    }
}

pub proof fn lemma_trim_start_bounds(s: Seq<char>, i: int)
    requires
        0 <= i <= s.len(),
    ensures
        i <= trim_start_idx(s, i) <= s.len(),
        trim_start_idx(s, i) < s.len() ==> !is_space(s[trim_start_idx(s, i)]),
    decreases s.len() - i,
{
    if i < s.len() && is_space(s[i]) {
        lemma_trim_start_bounds(s, i + 1);
    }
}

pub proof fn lemma_token_end_bounds(s: Seq<char>, i: int)
    requires
        0 <= i <= s.len(),
    ensures
        i <= token_end(s, i) <= s.len(),
        i < s.len() && !is_space(s[i]) ==> token_end(s, i) > i,
    decreases s.len() - i,
{
    if i < s.len() && !is_space(s[i]) {
        lemma_token_end_bounds(s, i + 1);
    }
}

/// The whitespace-separated tokens of `s`, from position `i` on.
pub open spec fn tokens_from(s: Seq<char>, i: int) -> Seq<Seq<char>>
    decreases s.len() - i,
    when 0 <= i <= s.len()
    via tokens_from_dec
{
    let b = trim_start_idx(s, i);
    if b >= s.len() {
        Seq::empty()
    } else {
        seq![s.subrange(b, token_end(s, b))] + tokens_from(s, token_end(s, b))
    }
}

#[via_fn]
proof fn tokens_from_dec(s: Seq<char>, i: int) {
    lemma_trim_start_bounds(s, i);
    let b = trim_start_idx(s, i);
    if b < s.len() {
        lemma_token_end_bounds(s, b);
    }
}

/// The whitespace-separated tokens of a string.
pub open spec fn tokens_of(s: Seq<char>) -> Seq<Seq<char>> {
    tokens_from(s, 0)
}

/// There are no more tokens than characters, and no token is longer than
/// the text it came from.
pub proof fn lemma_tokens_bounded(s: Seq<char>, i: int)
    requires
        0 <= i <= s.len(),
    ensures
        tokens_from(s, i).len() <= s.len() - i,
        forall|k: int|
            0 <= k < tokens_from(s, i).len() ==> #[trigger] tokens_from(s, i)[k].len() <= s.len()
                - i,
    decreases s.len() - i,
{
    lemma_trim_start_bounds(s, i);
    let b = trim_start_idx(s, i);
    if b < s.len() {
        lemma_token_end_bounds(s, b);
        let e = token_end(s, b);
        lemma_tokens_bounded(s, e);
    }
}

/// Finds where the token starting at `from` ends.
fn scan_token_end(s: &str, from: usize) -> (k: usize)
    requires
        from <= s@.len(),
    ensures
        k as int == token_end(s@, from as int),
        from <= k <= s@.len(),
{
    let n = s.unicode_len();
    let mut k: usize = from;
    while k < n && !space_at(s, k)
        invariant
            n == s@.len(),
            from <= k <= n,
            token_end(s@, from as int) == token_end(s@, k as int),
        decreases n - k,
    {
        k = k + 1;
    }
    k
}

/// Splits a string into its whitespace-separated tokens.
pub fn tokenize(s: &str) -> (out: Vec<String>)
    ensures
        out@.len() == tokens_of(s@).len(),
        forall|k: int| 0 <= k < out@.len() ==> #[trigger] out@[k]@ == tokens_of(s@)[k],
{
    let n = s.unicode_len();
    let mut out: Vec<String> = Vec::new();
    let mut b = skip_spaces(s, 0);
    proof {
        assert(trim_start_idx(s@, b as int) == b);
        assert(out@.map_values(|t: String| t@) + tokens_from(s@, b as int) =~= tokens_of(s@));
    }
    while b < n
        invariant
            n == s@.len(),
            b <= n,
            trim_start_idx(s@, b as int) == b,
            out@.map_values(|t: String| t@) + tokens_from(s@, b as int) == tokens_of(s@),
        decreases n - b,
    {
        let ghost before = out@;
        let e = scan_token_end(s, b);
        proof {
            lemma_token_end_bounds(s@, b as int);
        }
        let tok = s.substring_char(b, e).to_owned();
        out.push(tok);
        let b2 = skip_spaces(s, e);
        proof {
            assert(trim_start_idx(s@, b2 as int) == b2);
            // one token peeled off the front
            assert(tokens_from(s@, b as int) == seq![s@.subrange(b as int, e as int)]
                + tokens_from(s@, e as int));
            // skipping whitespace does not change the remaining tokens
            assert(tokens_from(s@, e as int) == tokens_from(s@, b2 as int));
            assert(out@.map_values(|t: String| t@) =~= before.map_values(|t: String| t@) + seq![
                s@.subrange(b as int, e as int),
            ]);
            assert(out@.map_values(|t: String| t@) + tokens_from(s@, b2 as int) =~= tokens_of(s@));
        }
        b = b2;
    }
    proof {
        assert(tokens_from(s@, b as int) =~= Seq::empty());
        assert(out@.map_values(|t: String| t@) =~= tokens_of(s@));
        assert forall|k: int| 0 <= k < out@.len() implies #[trigger] out@[k]@ == tokens_of(s@)[k]
        by {
            assert(out@.map_values(|t: String| t@)[k] == out@[k]@);
        }
    }
    out
}

/// The first whitespace-separated token, if the string has one.
pub fn first_token<'a>(s: &'a str) -> (r: Option<&'a str>)
    ensures
        r is Some <==> tokens_of(s@).len() > 0,
        r matches Some(t) ==> tokens_of(s@).len() > 0 && t@ == tokens_of(s@)[0],
{
    let n = s.unicode_len();
    let b = skip_spaces(s, 0);
    if b == n {
        proof {
            assert(tokens_from(s@, 0).len() == 0);
        }
        None
    } else {
        let e = scan_token_end(s, b);
        proof {
            lemma_token_end_bounds(s@, b as int);
            assert(tokens_from(s@, 0)[0] == s@.subrange(b as int, e as int));
        }
        Some(s.substring_char(b, e))
    }
}

/// The output file extension a codec implies: the Ogg container for the
/// Opus and Vorbis codecs, the codec's conventional container otherwise,
/// and the codec name itself as a fallback.
pub fn extension_for_codec<'a>(codec: &'a str) -> (r: &'a str)
    ensures
        codec@ == "libopus"@ || codec@ == "libvorbis"@ ==> r@ == "ogg"@,
        codec@ == "flac"@ ==> r@ == "flac"@,
        codec@ == "aac"@ ==> r@ == "m4a"@,
        codec@ == "pcm_s16le"@ ==> r@ == "wav"@,
        codec@ != "libopus"@ && codec@ != "libvorbis"@ && codec@ != "flac"@ && codec@ != "aac"@
            && codec@ != "pcm_s16le"@ ==> r@ == codec@,
{
    proof {
        assert("libvorbis"@ != "libopus"@) by {
            reveal_strlit("libvorbis");
            reveal_strlit("libopus");
            assert("libvorbis"@.len() != "libopus"@.len());
        }
        assert("flac"@ != "libopus"@ && "flac"@ != "libvorbis"@) by {
            reveal_strlit("flac");
            reveal_strlit("libopus");
            reveal_strlit("libvorbis");
            assert("flac"@.len() == 4 && "libopus"@.len() == 7 && "libvorbis"@.len() == 9);
        }
        assert("aac"@ != "libopus"@ && "aac"@ != "libvorbis"@ && "aac"@ != "flac"@) by {
            reveal_strlit("aac");
            reveal_strlit("libopus");
            reveal_strlit("libvorbis");
            reveal_strlit("flac");
            assert("aac"@.len() == 3);
        }
        assert("pcm_s16le"@ != "libopus"@ && "pcm_s16le"@ != "libvorbis"@ && "pcm_s16le"@
            != "flac"@ && "pcm_s16le"@ != "aac"@) by {
            reveal_strlit("pcm_s16le");
            reveal_strlit("libopus");
            reveal_strlit("libvorbis");
            reveal_strlit("flac");
            reveal_strlit("aac");
            assert("pcm_s16le"@.len() == 9 && "pcm_s16le"@[0] == 'p' && "libvorbis"@[0] == 'l');
        }
    }
    if str_eq(codec, "libopus") {
        "ogg"
    } else if str_eq(codec, "libvorbis") {
        "ogg"
    } else if str_eq(codec, "flac") {
        "flac"
    } else if str_eq(codec, "aac") {
        "m4a"
    } else if str_eq(codec, "pcm_s16le") {
        "wav"
    } else {
        codec
    }
}

/// The file extension for a whole format string: the extension of its
/// codec (the first token), or `mp3` when the format is blank.
pub fn extension_for_format<'a>(format: &'a str) -> (r: &'a str)
    ensures
        tokens_of(format@).len() == 0 ==> r@ == "mp3"@,
        tokens_of(format@).len() > 0 ==> ({
            let c = tokens_of(format@)[0];
            &&& (c == "libopus"@ || c == "libvorbis"@) ==> r@ == "ogg"@
            &&& c == "flac"@ ==> r@ == "flac"@
            &&& c == "aac"@ ==> r@ == "m4a"@
            &&& c == "pcm_s16le"@ ==> r@ == "wav"@
            &&& (c != "libopus"@ && c != "libvorbis"@ && c != "flac"@ && c != "aac"@ && c
                != "pcm_s16le"@) ==> r@ == c
        }),
{
    match first_token(format) {
        None => "mp3",
        Some(codec) => extension_for_codec(codec),
    }
}

/// The format string named no codec.
#[derive(Debug, Clone, Copy, PartialEq, Eq, Structural)]
pub enum EncodeError {
    /// The format string is empty or all whitespace.
    EmptyFormat,
}

/// Builds the external encoder's argument list for one conversion: quiet
/// logging, the input file, the codec (the format's first token), forced
/// mono output, overwrite, any further options from the format string,
/// and the output file last. Fails exactly when the format names no
/// codec.
pub fn encoder_args(format: &str, input_path: &str, output_path: &str) -> (r: Result<
    Vec<String>,
    EncodeError,
>)
    ensures
        r is Err <==> tokens_of(format@).len() == 0,
        r matches Ok(args) ==> ({
            let toks = tokens_of(format@);
            &&& args@.len() == 9 + toks.len()
            &&& args@[0]@ == "-loglevel"@
            &&& args@[1]@ == "error"@
            &&& args@[2]@ == "-i"@
            &&& args@[3]@ == input_path@
            &&& args@[4]@ == "-acodec"@
            &&& args@[5]@ == toks[0]
            &&& args@[6]@ == "-ac"@
            &&& args@[7]@ == "1"@
            &&& args@[8]@ == "-y"@
            &&& forall|k: int| 1 <= k < toks.len() ==> #[trigger] args@[8 + k]@ == toks[k]
            &&& args@[args@.len() - 1]@ == output_path@
        }),
{
    let toks = tokenize(format);
    if toks.len() == 0 {
        return Err(EncodeError::EmptyFormat);
    }
    let mut args: Vec<String> = Vec::new();
    args.push("-loglevel".to_owned());
    args.push("error".to_owned());
    args.push("-i".to_owned());
    args.push(input_path.to_owned());
    args.push("-acodec".to_owned());
    args.push(toks[0].clone());
    args.push("-ac".to_owned());
    args.push("1".to_owned());
    args.push("-y".to_owned());
    let mut k: usize = 1;
    while k < toks.len()
        invariant
            1 <= k <= toks@.len(),
            toks@.len() == tokens_of(format@).len(),
            forall|m: int| 0 <= m < toks@.len() ==> #[trigger] toks@[m]@ == tokens_of(format@)[m],
            args@.len() == 8 + k,
            args@[0]@ == "-loglevel"@,
            args@[1]@ == "error"@,
            args@[2]@ == "-i"@,
            args@[3]@ == input_path@,
            args@[4]@ == "-acodec"@,
            args@[5]@ == tokens_of(format@)[0],
            args@[6]@ == "-ac"@,
            args@[7]@ == "1"@,
            args@[8]@ == "-y"@,
            forall|m: int| 1 <= m < k ==> #[trigger] args@[8 + m]@ == tokens_of(format@)[m],
        decreases toks@.len() - k,
    {
        args.push(toks[k].clone());
        k = k + 1;
    }
    args.push(output_path.to_owned());
    Ok(args)
}

/// The wrap state after the first `k` tokens: the line count so far and
/// the width of the current line. A word that does not fit a nonempty
/// line (counting the joining space) starts a new line.
pub open spec fn wrap_steps(tokens: Seq<Seq<char>>, k: int, max_width: int) -> (int, int)
    decreases k,
{
    if k <= 0 {
        (1, 0)
    } else {
        let prev = wrap_steps(tokens, k - 1, max_width);
        let wl = tokens[k - 1].len() as int;
        if prev.1 > 0 && prev.1 + 1 + wl > max_width {
            (prev.0 + 1, wl)
        } else if prev.1 == 0 {
            (prev.0, wl)
        } else {
            (prev.0, prev.1 + 1 + wl)
        }
    }
}

/// The number of lines a message wraps to at a display width (1 for a
/// zero width, where no wrapping is meaningful).
pub open spec fn wrapped_lines_of(text: Seq<char>, max_width: int) -> int {
    if max_width <= 0 {
        1
    } else {
        wrap_steps(tokens_of(text), tokens_of(text).len() as int, max_width).0
    }
}

/// Counts the lines a message wraps to when words are laid out greedily
/// into `max_width` columns (used to center error text vertically).
pub fn wrapped_line_count(text: &str, max_width: u16) -> (lines: usize)
    requires
        text@.len() <= 0x7FFFFFFF,
    ensures
        lines == wrapped_lines_of(text@, max_width as int),
{
    if max_width == 0 {
        return 1;
    }
    let toks = tokenize(text);
    proof {
        lemma_tokens_bounded(text@, 0);
    }
    let mut lines: u64 = 1;
    let mut cur: u64 = 0;
    let mut k: usize = 0;
    while k < toks.len()
        invariant
            max_width >= 1,
            text@.len() <= 0x7FFFFFFF,
            toks@.len() == tokens_of(text@).len(),
            forall|m: int| 0 <= m < toks@.len() ==> #[trigger] toks@[m]@ == tokens_of(text@)[m],
            tokens_of(text@).len() <= text@.len(),
            forall|m: int|
                0 <= m < tokens_of(text@).len() ==> #[trigger] tokens_of(text@)[m].len()
                    <= text@.len(),
            0 <= k <= toks@.len(),
            (lines as int, cur as int) == wrap_steps(
                tokens_of(text@),
                k as int,
                max_width as int,
            ),
            lines <= 1 + k,
            cur <= (k as int) * 0x80000000,
        decreases toks@.len() - k,
    {
        let wl = toks[k].as_str().unicode_len() as u64;
        if cur > 0 && cur + 1 + wl > max_width as u64 {
            lines = lines + 1;
            cur = wl;
        } else if cur == 0 {
            cur = wl;
        } else {
            cur = cur + 1 + wl;
        }
        k = k + 1;
    }
    lines as usize
}

/// The operating-system families the encoder locator knows fixed install
/// locations for.
#[derive(Debug, Clone, Copy, PartialEq, Eq, Structural)]
pub enum HostOs {
    MacOs,
    Linux,
    Windows,
    Other,
}

/// The conventional install locations of the external encoder on each
/// platform, probed in order before falling back to a search of the
/// command path. Platforms without conventional locations get none.
pub fn ffmpeg_candidate_paths(os: HostOs) -> (r: Vec<String>)
    ensures
        os is MacOs ==> r@.len() == 3 && r@[0]@ == "/opt/homebrew/bin/ffmpeg"@ && r@[1]@
            == "/usr/local/bin/ffmpeg"@ && r@[2]@ == "/usr/bin/ffmpeg"@,
        os is Linux ==> r@.len() == 3 && r@[0]@ == "/usr/bin/ffmpeg"@ && r@[1]@
            == "/usr/local/bin/ffmpeg"@ && r@[2]@ == "/snap/bin/ffmpeg"@,
        os is Windows ==> r@.len() == 3 && r@[0]@ == "C:\\ffmpeg\\bin\\ffmpeg.exe"@ && r@[1]@
            == "C:\\Program Files\\ffmpeg\\bin\\ffmpeg.exe"@ && r@[2]@
            == "C:\\Program Files (x86)\\ffmpeg\\bin\\ffmpeg.exe"@,
        os is Other ==> r@.len() == 0,
{
    let mut v: Vec<String> = Vec::new();
    match os {
        HostOs::MacOs => {
            v.push("/opt/homebrew/bin/ffmpeg".to_owned());
            v.push("/usr/local/bin/ffmpeg".to_owned());
            v.push("/usr/bin/ffmpeg".to_owned());
        },
        HostOs::Linux => {
            v.push("/usr/bin/ffmpeg".to_owned());
            v.push("/usr/local/bin/ffmpeg".to_owned());
            v.push("/snap/bin/ffmpeg".to_owned());
        },
        HostOs::Windows => {
            v.push("C:\\ffmpeg\\bin\\ffmpeg.exe".to_owned());
            v.push("C:\\Program Files\\ffmpeg\\bin\\ffmpeg.exe".to_owned());
            v.push("C:\\Program Files (x86)\\ffmpeg\\bin\\ffmpeg.exe".to_owned());
        },
        HostOs::Other => {},
    }
    v
}

} // verus!
