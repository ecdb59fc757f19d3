//! Semantic versions (`major.minor.patch`), their parsing and comparison,
//! and the decision whether first-run setup is needed for a config file.

use vstd::prelude::*;

verus! {

/// ASCII whitespace, the set the parser strips at the ends.
pub open spec fn is_space(c: char) -> bool {
    c == ' ' || c == '\t' || c == '\n' || c == '\r'
}

pub open spec fn is_digit(c: char) -> bool {
    48 <= c as u32 <= 57
}

pub open spec fn digit_val(c: char) -> int {
    c as u32 - 48
}

/// A nonempty, all-digit string.
pub open spec fn is_numeral(s: Seq<char>) -> bool {
    s.len() >= 1 && forall|i: int| 0 <= i < s.len() ==> is_digit(s[i])
}

/// Decimal value of a digit string.
pub open spec fn numeral_val(s: Seq<char>) -> int
    decreases s.len(),
{
    if s.len() == 0 {
        0
    } else {
        numeral_val(s.drop_last()) * 10 + digit_val(s.last())
    }
}

pub proof fn lemma_numeral_val_nonneg(s: Seq<char>)
    requires
        forall|i: int| 0 <= i < s.len() ==> is_digit(s[i]),
    ensures
        numeral_val(s) >= 0,
    decreases s.len(),
{
    if s.len() > 0 {
        lemma_numeral_val_nonneg(s.drop_last());
    }
}

/// A digit string is worth at least any of its prefixes.
pub proof fn lemma_numeral_prefix_le(s: Seq<char>, i: int)
    requires
        forall|k: int| 0 <= k < s.len() ==> is_digit(s[k]),
        0 <= i <= s.len(),
    ensures
        numeral_val(s.subrange(0, i)) <= numeral_val(s),
    decreases s.len() - i,
{
    if i == s.len() {
        assert(s.subrange(0, i) =~= s);
    } else {
        lemma_numeral_prefix_le(s, i + 1);
        let p = s.subrange(0, i);
        let q = s.subrange(0, i + 1);
        assert(q.drop_last() =~= p);
        lemma_numeral_val_nonneg(p);
        assert(numeral_val(q) == numeral_val(p) * 10 + digit_val(s[i]));
        assert(numeral_val(p) * 10 >= numeral_val(p)) by (nonlinear_arith)
            requires numeral_val(p) >= 0;
    }
}

/// First index at or after `i` holding a `.`, or the length if none.
pub open spec fn find_dot(s: Seq<char>, i: int) -> int
    decreases s.len() - i,
{
    if i < 0 || i >= s.len() {
        s.len() as int
    } else if s[i] == '.' {
        i
    } else {
        find_dot(s, i + 1)
    }
}

proof fn lemma_find_dot_of_scan(s: Seq<char>, from: int, k: int)
    requires
        0 <= from <= k <= s.len(),
        forall|m: int| from <= m < k ==> s[m] != '.',
        k == s.len() || s[k] == '.',
    ensures
        find_dot(s, from) == k,
    decreases k - from,
{
    if from < k {
        lemma_find_dot_of_scan(s, from + 1, k);
    }
}

/// First index that is not leading whitespace (the length if all spaces).
pub open spec fn trim_start_idx(s: Seq<char>, i: int) -> int
    decreases s.len() - i,
{
    if i < 0 || i >= s.len() {
        s.len() as int
    } else if is_space(s[i]) {
        trim_start_idx(s, i + 1)
    } else {
        i
    }
}

/// One past the last non-whitespace index at or before `j - 1`.
pub open spec fn trim_end_idx(s: Seq<char>, j: int) -> int
    decreases j,
{
    if j <= 0 {
        0
    } else if j > s.len() {
        trim_end_idx(s, s.len() as int)
    } else if is_space(s[j - 1]) {
        trim_end_idx(s, j - 1)
    } else {
        j
    }
}

/// The input with ASCII whitespace stripped from both ends.
pub open spec fn trimmed(s: Seq<char>) -> Seq<char> {
    let b = trim_start_idx(s, 0);
    let e = trim_end_idx(s, s.len() as int);
    if b <= e {
        s.subrange(b, e)
    } else {
        Seq::empty()
    }
}

/// A semantic version `major.minor.patch`.
#[derive(Debug, Clone, Copy, PartialEq, Eq, PartialOrd, Ord, Hash, Structural)]
pub struct SemanticVersion {
    pub major: u32,
    pub minor: u32,
    pub patch: u32,
}

/// How the parser can reject a version string.
#[derive(Debug, Clone, Copy, PartialEq, Eq, Structural)]
pub enum VersionError {
    /// Not of the form `major.minor.patch`.
    InvalidFormat,
    /// The major part is not a `u32` numeral.
    InvalidMajor,
    /// The minor part is not a `u32` numeral.
    InvalidMinor,
    /// The patch part is not a `u32` numeral.
    InvalidPatch,
}

/// The trimmed input split at its first two dots, provided it holds
/// exactly two dots; the three parts otherwise carry no meaning.
pub open spec fn version_parts(t: Seq<char>) -> (Seq<char>, Seq<char>, Seq<char>) {
    let a = find_dot(t, 0);
    let b = find_dot(t, a + 1);
    (t.subrange(0, a), t.subrange(a + 1, b), t.subrange(b + 1, t.len() as int))
}

/// The shape check: exactly two dots, so that the split yields three parts.
pub open spec fn has_three_parts(t: Seq<char>) -> bool {
    let a = find_dot(t, 0);
    let b = find_dot(t, a + 1);
    a < t.len() && b < t.len() && find_dot(t, b + 1) == t.len()
}

/// A numeral that fits a `u32`.
pub open spec fn is_u32_numeral(s: Seq<char>) -> bool {
    is_numeral(s) && numeral_val(s) <= u32::MAX
}

impl SemanticVersion {
    /// `self` sorts strictly before `other` (lexicographic on
    /// major, minor, patch).
    pub open spec fn precedes(self, other: Self) -> bool {
        self.major < other.major || (self.major == other.major && (self.minor < other.minor || (
        self.minor == other.minor && self.patch < other.patch)))
    }

    /// Whether this version is strictly older than `other`.
    pub fn is_older_than(&self, other: &Self) -> (r: bool)
        ensures
            r == self.precedes(*other),
    {
        if self.major != other.major {
            self.major < other.major
        } else if self.minor != other.minor {
            self.minor < other.minor
        } else {
            self.patch < other.patch
        }
    }

    /// Parses a version string like `1.2.3`, ignoring surrounding
    /// whitespace. The string must hold exactly two dots separating three
    /// decimal `u32` numerals; each failure names the offending part.
    pub fn parse(version_str: &str) -> (r: Result<Self, VersionError>)
        ensures
            ({
                let t = trimmed(version_str@);
                let parts = version_parts(t);
                match r {
                    Ok(v) => has_three_parts(t) && is_u32_numeral(parts.0) && is_u32_numeral(
                        parts.1,
                    ) && is_u32_numeral(parts.2) && v.major == numeral_val(parts.0) && v.minor
                        == numeral_val(parts.1) && v.patch == numeral_val(parts.2),
                    Err(VersionError::InvalidFormat) => !has_three_parts(t),
                    Err(VersionError::InvalidMajor) => has_three_parts(t) && !is_u32_numeral(
                        parts.0,
                    ),
                    Err(VersionError::InvalidMinor) => has_three_parts(t) && is_u32_numeral(
                        parts.0,
                    ) && !is_u32_numeral(parts.1),
                    Err(VersionError::InvalidPatch) => has_three_parts(t) && is_u32_numeral(
                        parts.0,
                    ) && is_u32_numeral(parts.1) && !is_u32_numeral(parts.2),
                }
            }),
    {
        let t = trim_ascii(version_str);
        let n = t.unicode_len();
        let ghost tv = t@;

        let a = scan_dot(t, 0);
        if a == n {
            return Err(VersionError::InvalidFormat);
        }
        let b = scan_dot(t, a + 1);
        if b == n {
            return Err(VersionError::InvalidFormat);
        }
        let c = scan_dot(t, b + 1);
        if c != n {
            return Err(VersionError::InvalidFormat);
        }

        let p0 = t.substring_char(0, a);
        let p1 = t.substring_char(a + 1, b);
        let p2 = t.substring_char(b + 1, n);

        let major = match parse_u32(p0) {
            Some(v) => v,
            None => {
                return Err(VersionError::InvalidMajor);
            },
        };
        let minor = match parse_u32(p1) {
            Some(v) => v,
            None => {
                return Err(VersionError::InvalidMinor);
            },
        };
        let patch = match parse_u32(p2) {
            Some(v) => v,
            None => {
                return Err(VersionError::InvalidPatch);
            },
        };
        Ok(SemanticVersion { major, minor, patch })
    }
}

proof fn lemma_trim_end_le(s: Seq<char>, j: int)
    requires
        0 <= j <= s.len(),
    ensures
        0 <= trim_end_idx(s, j) <= j,
    decreases j,
{
    if j > 0 && is_space(s[j - 1]) {
        lemma_trim_end_le(s, j - 1);
    }
}

/// Whether the character at `i` is ASCII whitespace.
pub(crate) fn space_at(s: &str, i: usize) -> (r: bool)
    requires
        i < s@.len(),
    ensures
        r == is_space(s@[i as int]),
{
    let c = s.get_char(i);
    c == ' ' || c == '\t' || c == '\n' || c == '\r'
}

/// Strips ASCII whitespace from both ends.
pub fn trim_ascii<'a>(s: &'a str) -> (t: &'a str)
    ensures
        t@ == trimmed(s@),
{
    let n = s.unicode_len();
    let mut b: usize = 0;
    while b < n && space_at(s, b)
        invariant
            n == s@.len(),
            0 <= b <= n,
            trim_start_idx(s@, 0) == trim_start_idx(s@, b as int),
        decreases n - b,
    {
        b = b + 1;
    }
    proof {
        assert(trim_start_idx(s@, b as int) == b);
    }
    let mut e: usize = n;
    while e > b && space_at(s, e - 1)
        invariant
            n == s@.len(),
            b <= e <= n,
            b as int == trim_start_idx(s@, 0),
            trim_end_idx(s@, n as int) == trim_end_idx(s@, e as int),
        decreases e,
    {
        e = e - 1;
    }
    proof {
        lemma_trim_end_le(s@, e as int);
        if e > b {
            assert(trim_end_idx(s@, e as int) == e);
        }
    }
    s.substring_char(b, e)
}

/// Whether the character at `i` is a dot.
fn dot_at(s: &str, i: usize) -> (r: bool)
    requires
        i < s@.len(),
    ensures
        r == (s@[i as int] == '.'),
{
    s.get_char(i) == '.'
}

/// Finds the first `.` at or after `from`, returning the length if none.
fn scan_dot(s: &str, from: usize) -> (k: usize)
    requires
        from <= s@.len(),
    ensures
        k as int == find_dot(s@, from as int),
        from <= k <= s@.len(),
        k < s@.len() ==> s@[k as int] == '.',
{
    let n = s.unicode_len();
    let mut k: usize = from;
    while k < n && !dot_at(s, k)
        invariant
            n == s@.len(),
            from <= k <= n,
            forall|m: int| from <= m < k ==> s@[m] != '.',
        decreases n - k,
    {
        k = k + 1;
    }
    proof {
        lemma_find_dot_of_scan(s@, from as int, k as int);
    }
    k
}

/// Parses a decimal `u32` numeral: nonempty, digits only, value in range.
pub fn parse_u32(s: &str) -> (r: Option<u32>)
    ensures
        r is Some <==> is_u32_numeral(s@),
        r matches Some(v) ==> v == numeral_val(s@),
{
    let n = s.unicode_len();
    if n == 0 {
        return None;
    }
    let mut acc: u64 = 0;
    let mut i: usize = 0;
    while i < n
        invariant
            n == s@.len(),
            0 <= i <= n,
            forall|k: int| 0 <= k < i ==> is_digit(s@[k]),
            acc == numeral_val(s@.subrange(0, i as int)),
            acc <= u32::MAX,
        decreases n - i,
    {
        let c = s.get_char(i);
        let cv = c as u32;
        if cv < 48 || cv > 57 {
            proof {
                assert(!is_digit(s@[i as int]));
            }
            return None;
        }
        let d: u64 = (cv - 48) as u64;
        proof {
            let p = s@.subrange(0, i as int);
            let q = s@.subrange(0, i + 1int);
            assert(q.drop_last() =~= p);
            assert(q.last() == s@[i as int]);
        }
        acc = acc * 10 + d;
        i = i + 1;
        if acc > 0xFFFFFFFF {
            proof {
                assert(s@.subrange(0, s@.len() as int) =~= s@);
                if is_numeral(s@) {
                    lemma_numeral_prefix_le(s@, i as int);
                }
            }
            return None;
        }
    }
    proof {
        assert(s@.subrange(0, n as int) =~= s@);
    }
    Some(acc as u32)
}

/// First index at or after `i` holding a double quote, or the length.
pub open spec fn find_quote(s: Seq<char>, i: int) -> int
    decreases s.len() - i,
{
    if i < 0 || i >= s.len() {
        s.len() as int
    } else if s[i] == '"' {
        i
    } else {
        find_quote(s, i + 1)
    }
}

proof fn lemma_find_quote_of_scan(s: Seq<char>, from: int, k: int)
    requires
        0 <= from <= k <= s.len(),
        forall|m: int| from <= m < k ==> s[m] != '"',
        k == s.len() || s[k] == '"',
    ensures
        find_quote(s, from) == k,
    decreases k - from,
{
    if from < k {
        lemma_find_quote_of_scan(s, from + 1, k);
    }
}

/// The version value carried by the first line of a config file: optional
/// whitespace, the word `config_version`, `=`, and a nonempty quoted
/// value, each part separated by optional whitespace.
pub open spec fn config_version_of_line(s: Seq<char>) -> Option<Seq<char>> {
    let i0 = trim_start_idx(s, 0);
    if i0 + 14 <= s.len() && s.subrange(i0, i0 + 14) == "config_version"@ {
        let i1 = trim_start_idx(s, i0 + 14);
        if i1 < s.len() && s[i1] == '=' {
            let i2 = trim_start_idx(s, i1 + 1);
            if i2 < s.len() && s[i2] == '"' {
                let j = find_quote(s, i2 + 1);
                if j < s.len() && j > i2 + 1 {
                    Some(s.subrange(i2 + 1, j))
                } else {
                    None
                }
            } else {
                None
            }
        } else {
            None
        }
    } else {
        None
    }
}

/// Skips whitespace starting at `from`.
pub(crate) fn skip_spaces(s: &str, from: usize) -> (k: usize)
    requires
        from <= s@.len(),
    ensures
        k as int == trim_start_idx(s@, from as int),
        from <= k <= s@.len(),
        k < s@.len() ==> !is_space(s@[k as int]),
    decreases s@.len() - from,
{
    let n = s.unicode_len();
    let mut k: usize = from;
    while k < n && space_at(s, k)
        invariant
            n == s@.len(),
            from <= k <= n,
            trim_start_idx(s@, from as int) == trim_start_idx(s@, k as int),
        decreases n - k,
    {
        k = k + 1;
    }
    k
}

/// Finds the first `"` at or after `from`, returning the length if none.
fn scan_quote(s: &str, from: usize) -> (k: usize)
    requires
        from <= s@.len(),
    ensures
        k as int == find_quote(s@, from as int),
        from <= k <= s@.len(),
        k < s@.len() ==> s@[k as int] == '"',
{
    let n = s.unicode_len();
    let mut k: usize = from;
    while k < n && !quote_at(s, k)
        invariant
            n == s@.len(),
            from <= k <= n,
            forall|m: int| from <= m < k ==> s@[m] != '"',
        decreases n - k,
    {
        k = k + 1;
    }
    proof {
        lemma_find_quote_of_scan(s@, from as int, k as int);
    }
    k
}

/// Whether the character at `i` is a double quote.
fn quote_at(s: &str, i: usize) -> (r: bool)
    requires
        i < s@.len(),
    ensures
        r == (s@[i as int] == '"'),
{
    s.get_char(i) == '"'
}

/// Extracts the version value from a config file's first line, if the
/// line is a well-formed `config_version = "..."` assignment.
pub fn config_version_in_line(line: &str) -> (r: Option<&str>)
    ensures
        r is Some <==> config_version_of_line(line@) is Some,
        r matches Some(v) ==> config_version_of_line(line@) matches Some(sv) && v@ == sv,
{
    let n = line.unicode_len();
    let pat = "config_version";
    proof {
        reveal_strlit("config_version");
    }
    let i0 = skip_spaces(line, 0);
    if n < 14 || i0 > n - 14 {
        return None;
    }
    let mut k: usize = 0;
    while k < 14
        invariant
            n == line@.len(),
            i0 as int == trim_start_idx(line@, 0),
            i0 + 14 <= n,
            pat@ == "config_version"@,
            pat@.len() == 14,
            k <= 14,
            forall|m: int| 0 <= m < k ==> line@[i0 + m] == pat@[m],
        decreases 14 - k,
    {
        if line.get_char(i0 + k) != pat.get_char(k) {
            proof {
                assert(line@.subrange(i0 as int, i0 + 14int)[k as int] != pat@[k as int]);
            }
            return None;
        }
        k = k + 1;
    }
    proof {
        assert(line@.subrange(i0 as int, i0 + 14int) =~= "config_version"@);
    }
    let i1 = skip_spaces(line, i0 + 14);
    if i1 == n {
        return None;
    }
    if line.get_char(i1) != '=' {
        return None;
    }
    let i2 = skip_spaces(line, i1 + 1);
    if i2 == n {
        return None;
    }
    if !quote_at(line, i2) {
        return None;
    }
    let j = scan_quote(line, i2 + 1);
    if j == n {
        return None;
    }
    if j == i2 + 1 {
        return None;
    }
    Some(line.substring_char(i2 + 1, j))
}

/// How the setup check can fail.
#[derive(Debug, Clone, Copy, PartialEq, Eq, Structural)]
pub enum SetupCheckError {
    /// The config file exists but is empty.
    EmptyConfig,
    /// The config file's version string does not parse.
    ConfigVersion(VersionError),
    /// The running application's own version string does not parse.
    CurrentVersion(VersionError),
}

/// Whether first-run setup is needed, from the state of the config file:
/// its existence, its first line (`None` when the file is empty), and the
/// application's own version. Returns the config's version when it is
/// older than the application (or a placeholder when the config carries
/// no version at all), and `None` when no setup is needed.
pub fn check_setup_needed(
    config_exists: bool,
    first_line: Option<&String>,
    current_version: &str,
) -> (r: Result<Option<String>, SetupCheckError>)
    ensures
        ({
            if !config_exists {
                match r {
                    Ok(o) => o is None,
                    Err(_) => false,
                }
            } else {
                match first_line {
                    None => (r matches Err(e) && e is EmptyConfig),
                    Some(l) => match config_version_of_line(l@) {
                        None => (r matches Ok(o) && (o matches Some(m) && m@
                            == "unknown (legacy config)"@)),
                        Some(ver) => match r {
                            Ok(o) => (version_value(ver) matches Some(cfg) && version_value(
                                current_version@,
                            ) matches Some(cur) && if cfg.precedes(cur) {
                                o matches Some(m) && m@ == ver
                            } else {
                                o is None
                            }),
                            Err(SetupCheckError::EmptyConfig) => false,
                            Err(SetupCheckError::ConfigVersion(_)) => version_value(ver) is None,
                            Err(SetupCheckError::CurrentVersion(_)) => version_value(ver) is Some
                                && version_value(current_version@) is None,
                        },
                    },
                }
            }
        }),
{
    if !config_exists {
        return Ok(None);
    }
    let line = match first_line {
        Some(l) => l,
        None => {
            return Err(SetupCheckError::EmptyConfig);
        },
    };
    let ver = match config_version_in_line(line.as_str()) {
        Some(v) => v,
        None => {
            return Ok(Some("unknown (legacy config)".to_owned()));
        },
    };
    let cfg = match SemanticVersion::parse(ver) {
        Ok(v) => v,
        Err(e) => {
            return Err(SetupCheckError::ConfigVersion(e));
        },
    };
    let cur = match SemanticVersion::parse(current_version) {
        Ok(v) => v,
        Err(e) => {
            return Err(SetupCheckError::CurrentVersion(e));
        },
    };
    if cfg.is_older_than(&cur) {
        Ok(Some(ver.to_owned()))
    } else {
        Ok(None)
    }
}

/// The version a string parses to, if it parses.
pub open spec fn version_value(s: Seq<char>) -> Option<SemanticVersion> {
    let t = trimmed(s);
    let parts = version_parts(t);
    if has_three_parts(t) && is_u32_numeral(parts.0) && is_u32_numeral(parts.1) && is_u32_numeral(
        parts.2,
    ) {
        Some(
            SemanticVersion {
                major: numeral_val(parts.0) as u32,
                minor: numeral_val(parts.1) as u32,
                patch: numeral_val(parts.2) as u32,
            },
        )
    } else {
        None
    }
}

} // verus!
