//! A verified scanner over JSON text that locates the value of the
//! first top-level `version` member whose value is a string, so that
//! the Node-style adapter can replace just that value and keep every
//! other byte of the document. The scanner decides nothing about
//! validity; the adapter still parses the document with its JSON
//! library first and falls back to re-serializing whenever the scanner
//! finds no such span.
use vstd::prelude::*;
use vstd::string::*;

verus! {

/// Whether a character is JSON whitespace.
pub open spec fn is_json_ws(c: char) -> bool {
    c == ' ' || c == '\t' || c == '\n' || c == '\r'
}

/// The characters of the key `version`, by position.
pub open spec fn version_key_char(k: int) -> char {
    if k == 0 {
        'v'
    } else if k == 1 {
        'e'
    } else if k == 2 {
        'r'
    } else if k == 3 {
        's'
    } else if k == 4 {
        'i'
    } else if k == 5 {
        'o'
    } else {
        'n'
    }
}

/// Where a left-to-right pass over a JSON document stands. The indices
/// stored in `TargetValue` and `Found` point at the opening and closing
/// quotes of the version value.
#[derive(Clone, Copy)]
pub enum ScanState {
    /// Before the document's opening brace.
    Start,
    /// Inside the top-level object, before a member key.
    BeforeKey,
    /// Inside a member key string; `matched` counts how many characters
    /// of `version` have matched so far (capped), `ok` whether the key
    /// can still be exactly `version`, `esc` whether the last character
    /// was an unconsumed backslash.
    InKey { matched: usize, ok: bool, esc: bool },
    /// Between a key and its colon.
    BeforeColon { is_version: bool },
    /// Between a colon and the value it introduces.
    BeforeValue { is_version: bool },
    /// Inside the string value of the `version` member; `start` is the
    /// index of its opening quote.
    TargetValue { start: usize, esc: bool },
    /// Inside some other string value.
    OtherString { esc: bool },
    /// Inside a nested object or array value.
    Composite { depth: usize, in_str: bool, esc: bool },
    /// Inside a number, boolean or null value.
    Primitive,
    /// After a value, before a comma or the closing brace.
    AfterValue,
    /// The span of the version value: opening and closing quote index.
    Found { start: usize, end_quote: usize },
    /// The pass is over: the object ended, or the text went off script.
    Halt,
}

/// One step of the scanner on the character `c` at index `i`.
pub open spec fn spec_scan_step(st: ScanState, c: char, i: int) -> ScanState {
    match st {
        ScanState::Start => if is_json_ws(c) {
            st
        } else if c == '{' {
            ScanState::BeforeKey
        } else {
            ScanState::Halt
        },
        ScanState::BeforeKey => if is_json_ws(c) {
            st
        } else if c == '"' {
            ScanState::InKey { matched: 0, ok: true, esc: false }
        } else {
            ScanState::Halt
        },
        ScanState::InKey { matched, ok, esc } => if esc {
            ScanState::InKey { matched, ok: false, esc: false }
        } else if c == '\\' {
            ScanState::InKey { matched, ok: false, esc: true }
        } else if c == '"' {
            ScanState::BeforeColon { is_version: ok && matched == 7 }
        } else {
            ScanState::InKey {
                matched: if matched < 8 {
                    (matched + 1) as usize
                } else {
                    matched
                },
                ok: ok && matched < 7 && c == version_key_char(matched as int),
                esc: false,
            }
        },
        ScanState::BeforeColon { is_version } => if is_json_ws(c) {
            st
        } else if c == ':' {
            ScanState::BeforeValue { is_version }
        } else {
            ScanState::Halt
        },
        ScanState::BeforeValue { is_version } => if is_json_ws(c) {
            st
        } else if c == '"' {
            if is_version {
                ScanState::TargetValue { start: i as usize, esc: false }
            } else {
                ScanState::OtherString { esc: false }
            }
        } else if c == '{' || c == '[' {
            ScanState::Composite { depth: 1, in_str: false, esc: false }
        } else if c == ',' || c == '}' || c == ']' || c == ':' {
            ScanState::Halt
        } else {
            ScanState::Primitive
        },
        ScanState::TargetValue { start, esc } => if esc {
            ScanState::TargetValue { start, esc: false }
        } else if c == '\\' {
            ScanState::TargetValue { start, esc: true }
        } else if c == '"' {
            ScanState::Found { start, end_quote: i as usize }
        } else {
            st
        },
        ScanState::OtherString { esc } => if esc {
            ScanState::OtherString { esc: false }
        } else if c == '\\' {
            ScanState::OtherString { esc: true }
        } else if c == '"' {
            ScanState::AfterValue
        } else {
            st
        },
        ScanState::Composite { depth, in_str, esc } => if in_str {
            if esc {
                ScanState::Composite { depth, in_str: true, esc: false }
            } else if c == '\\' {
                ScanState::Composite { depth, in_str: true, esc: true }
            } else if c == '"' {
                ScanState::Composite { depth, in_str: false, esc: false }
            } else {
                st
            }
        } else if c == '"' {
            ScanState::Composite { depth, in_str: true, esc: false }
        } else if c == '{' || c == '[' {
            ScanState::Composite {
                depth: if depth < usize::MAX {
                    (depth + 1) as usize
                } else {
                    depth
                },
                in_str: false,
                esc: false,
            }
        } else if c == '}' || c == ']' {
            if depth <= 1 {
                ScanState::AfterValue
            } else {
                ScanState::Composite { depth: (depth - 1) as usize, in_str: false, esc: false }
            }
        } else {
            st
        },
        ScanState::Primitive => if c == ',' {
            ScanState::BeforeKey
        } else if is_json_ws(c) {
            ScanState::AfterValue
        } else if c == '}' || c == ']' {
            ScanState::Halt
        } else {
            st
        },
        ScanState::AfterValue => if is_json_ws(c) {
            st
        } else if c == ',' {
            ScanState::BeforeKey
        } else {
            ScanState::Halt
        },
        ScanState::Found { .. } => st,
        ScanState::Halt => st,
    }
}

/// The span the scanner reports when started at index `i` in state
/// `st`: the opening- and closing-quote indices of the version value,
/// or nothing.
pub open spec fn spec_scan_from(s: Seq<char>, i: int, st: ScanState) -> Option<(usize, usize)>
    decreases s.len() - i,
{
    match st {
        ScanState::Found { start, end_quote } => Some((start, end_quote)),
        ScanState::Halt => None,
        _ => if i < 0 || i >= s.len() {
            None
        } else {
            spec_scan_from(s, i + 1, spec_scan_step(st, s[i], i))
        },
    }
}

/// The span of the first top-level `version` member whose value is a
/// string: the indices of the value's opening and closing quotes.
pub open spec fn spec_version_span(s: Seq<char>) -> Option<(usize, usize)> {
    spec_scan_from(s, 0, ScanState::Start)
}

/// The indices a state can carry lie strictly before the next index to
/// be read.
spec fn scan_inv(st: ScanState, i: int) -> bool {
    match st {
        ScanState::TargetValue { start, .. } => start < i,
        ScanState::Found { start, end_quote } => start < end_quote && end_quote < i,
        _ => true,
    }
}

proof fn lemma_step_inv(st: ScanState, c: char, i: int)
    requires
        scan_inv(st, i),
        0 <= i <= usize::MAX,
    ensures
        scan_inv(spec_scan_step(st, c, i), i + 1),
{
}

/// A reported span lies inside the text, opening quote strictly before
/// closing quote.
proof fn lemma_scan_bounds(s: Seq<char>, i: int, st: ScanState)
    requires
        0 <= i <= s.len(),
        s.len() <= usize::MAX,
        scan_inv(st, i),
    ensures
        spec_scan_from(s, i, st) matches Some(p) ==> p.0 < p.1 && p.1 < s.len(),
    decreases s.len() - i,
{
    if st matches ScanState::Found { .. } {
    } else if st is Halt {
    } else if i < s.len() {
        lemma_step_inv(st, s[i], i);
        lemma_scan_bounds(s, i + 1, spec_scan_step(st, s[i], i));
    }
}

fn json_ws(c: char) -> (r: bool)
    ensures
        r == is_json_ws(c),
{
    c == ' ' || c == '\t' || c == '\n' || c == '\r'
}

fn key_char(k: usize) -> (r: char)
    requires
        k < 7,
    ensures
        r == version_key_char(k as int),
{
    if k == 0 {
        'v'
    } else if k == 1 {
        'e'
    } else if k == 2 {
        'r'
    } else if k == 3 {
        's'
    } else if k == 4 {
        'i'
    } else if k == 5 {
        'o'
    } else {
        'n'
    }
}

fn scan_step(st: ScanState, c: char, i: usize) -> (r: ScanState)
    ensures
        r == spec_scan_step(st, c, i as int),
{
    match st {
        ScanState::Start => if json_ws(c) {
            st
        } else if c == '{' {
            ScanState::BeforeKey
        } else {
            ScanState::Halt
        },
        ScanState::BeforeKey => if json_ws(c) {
            st
        } else if c == '"' {
            ScanState::InKey { matched: 0, ok: true, esc: false }
        } else {
            ScanState::Halt
        },
        ScanState::InKey { matched, ok, esc } => if esc {
            ScanState::InKey { matched, ok: false, esc: false }
        } else if c == '\\' {
            ScanState::InKey { matched, ok: false, esc: true }
        } else if c == '"' {
            ScanState::BeforeColon { is_version: ok && matched == 7 }
        } else {
            ScanState::InKey {
                matched: if matched < 8 {
                    matched + 1
                } else {
                    matched
                },
                ok: ok && matched < 7 && c == key_char(matched),
                esc: false,
            }
        },
        ScanState::BeforeColon { is_version } => if json_ws(c) {
            st
        } else if c == ':' {
            ScanState::BeforeValue { is_version }
        } else {
            ScanState::Halt
        },
        ScanState::BeforeValue { is_version } => if json_ws(c) {
            st
        } else if c == '"' {
            if is_version {
                ScanState::TargetValue { start: i, esc: false }
            } else {
                ScanState::OtherString { esc: false }
            }
        } else if c == '{' || c == '[' {
            ScanState::Composite { depth: 1, in_str: false, esc: false }
        } else if c == ',' || c == '}' || c == ']' || c == ':' {
            ScanState::Halt
        } else {
            ScanState::Primitive
        },
        ScanState::TargetValue { start, esc } => if esc {
            ScanState::TargetValue { start, esc: false }
        } else if c == '\\' {
            ScanState::TargetValue { start, esc: true }
        } else if c == '"' {
            ScanState::Found { start, end_quote: i }
        } else {
            st
        },
        ScanState::OtherString { esc } => if esc {
            ScanState::OtherString { esc: false }
        } else if c == '\\' {
            ScanState::OtherString { esc: true }
        } else if c == '"' {
            ScanState::AfterValue
        } else {
            st
        },
        ScanState::Composite { depth, in_str, esc } => if in_str {
            if esc {
                ScanState::Composite { depth, in_str: true, esc: false }
            } else if c == '\\' {
                ScanState::Composite { depth, in_str: true, esc: true }
            } else if c == '"' {
                ScanState::Composite { depth, in_str: false, esc: false }
            } else {
                st
            }
        } else if c == '"' {
            ScanState::Composite { depth, in_str: true, esc: false }
        } else if c == '{' || c == '[' {
            ScanState::Composite {
                depth: if depth < usize::MAX {
                    depth + 1
                } else {
                    depth
                },
                in_str: false,
                esc: false,
            }
        } else if c == '}' || c == ']' {
            if depth <= 1 {
                ScanState::AfterValue
            } else {
                ScanState::Composite { depth: depth - 1, in_str: false, esc: false }
            }
        } else {
            st
        },
        ScanState::Primitive => if c == ',' {
            ScanState::BeforeKey
        } else if json_ws(c) {
            ScanState::AfterValue
        } else if c == '}' || c == ']' {
            ScanState::Halt
        } else {
            st
        },
        ScanState::AfterValue => if json_ws(c) {
            st
        } else if c == ',' {
            ScanState::BeforeKey
        } else {
            ScanState::Halt
        },
        ScanState::Found { start, end_quote } => ScanState::Found { start, end_quote },
        ScanState::Halt => ScanState::Halt,
    }
}

/// Finds the span of the first top-level `version` member whose value
/// is a string: the indices of the value's opening and closing quotes.
pub fn find_version_span(content: &str) -> (r: Option<(usize, usize)>)
    ensures
        r == spec_version_span(content@),
        r matches Some(p) ==> p.0 < p.1 && p.1 < content@.len(),
{
    let n = content.unicode_len();
    let mut st = ScanState::Start;
    let mut i: usize = 0;
    while i < n
        invariant
            0 <= i <= n,
            n == content@.len(),
            spec_scan_from(content@, 0, ScanState::Start) == spec_scan_from(
                content@,
                i as int,
                st,
            ),
        decreases n - i,
    {
        let c = content.get_char(i);
        let st2 = scan_step(st, c, i);
        proof {
            assert(spec_scan_from(content@, i as int, st) == spec_scan_from(
                content@,
                i as int + 1,
                st2,
            ));
        }
        st = st2;
        i = i + 1;
    }
    proof {
        lemma_scan_bounds(content@, 0, ScanState::Start);
    }
    match st {
        ScanState::Found { start, end_quote } => Some((start, end_quote)),
        _ => None,
    }
}

} // verus!
