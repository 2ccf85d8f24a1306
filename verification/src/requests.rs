//! Decisions of the HTTP front end: merge strategy names, the fields of a
//! run request, and the preview of a run's output.

use vstd::prelude::*;
use vstd::string::{StrSliceExecFns, StringExecFns};
use crate::json::{json_error_message, json_string_list, parse_json_string_list};
use crate::text::{decode_lossy, trim, trimmed, utf8_lossy};
use crate::sandbox::WasmRunLimits;
use crate::workspace::MergeStrategy;

verus! {

/// ASCII lower case of a character (other characters unchanged).
pub open spec fn ascii_lower(c: char) -> char {
    if 'A' <= c && c <= 'Z' {
        ((c as int) + 32) as char
    } else {
        c
    }
}

/// ASCII lower case of a text.
pub open spec fn ascii_lowercase(s: Seq<char>) -> Seq<char> {
    s.map_values(|c: char| ascii_lower(c))
}

/// Whether the ASCII lower case of `s` is `word`.
pub fn lowercase_equals(s: &str, word: &str) -> (r: bool)
    ensures
        r == (ascii_lowercase(s@) == word@),
{
    let n = s.unicode_len();
    if n != word.unicode_len() {
        proof {
            assert(ascii_lowercase(s@).len() == s@.len());
        }
        return false;
    }
    let mut i: usize = 0;
    while i < n
        invariant
            n == s@.len(),
            n == word@.len(),
            i <= n,
            forall|j: int| 0 <= j < i ==> ascii_lower(#[trigger] s@[j]) == word@[j],
        decreases n - i,
    {
        let c = s.get_char(i);
        let w = word.get_char(i);
        let same = if 'A' <= c && c <= 'Z' {
            (c as u32) + 32 == (w as u32)
        } else {
            c == w
        };
        if !same {
            proof {
                assert(ascii_lowercase(s@)[i as int] == ascii_lower(c));
            }
            return false;
        }
        i = i + 1;
    }
    assert(ascii_lowercase(s@) =~= word@);
    true
}

/// The merge strategy a name denotes, ignoring ASCII case.
pub open spec fn strategy_named(s: Seq<char>) -> Option<MergeStrategy> {
    if ascii_lowercase(s) == "strict"@ {
        Some(MergeStrategy::Strict)
    } else if ascii_lowercase(s) == "ours"@ {
        Some(MergeStrategy::Ours)
    } else if ascii_lowercase(s) == "theirs"@ {
        Some(MergeStrategy::Theirs)
    } else {
        None
    }
}

/// A strategy name is read by its ASCII lower case alone: `strict`, `ours`
/// and `theirs` name the strict, base-keeping and incoming-taking strategies,
/// whatever the case of their letters, and no other text names one.
pub proof fn law_strategy_names(s: Seq<char>)
    ensures
        ascii_lowercase(ascii_lowercase(s)) == ascii_lowercase(s),
        strategy_named(s) == strategy_named(ascii_lowercase(s)),
        ascii_lowercase(s) == "strict"@ ==> strategy_named(s) == Some(MergeStrategy::Strict),
        ascii_lowercase(s) == "ours"@ ==> strategy_named(s) == Some(MergeStrategy::Ours),
        ascii_lowercase(s) == "theirs"@ ==> strategy_named(s) == Some(MergeStrategy::Theirs),
        ascii_lowercase(s) != "strict"@ && ascii_lowercase(s) != "ours"@ && ascii_lowercase(s)
            != "theirs"@ ==> strategy_named(s) is None,
{
    reveal_strlit("strict");
    reveal_strlit("ours");
    reveal_strlit("theirs");
    assert(ascii_lowercase(ascii_lowercase(s)) =~= ascii_lowercase(s));
    assert("strict"@ != "ours"@) by {
        assert("strict"@[0] != "ours"@[0]);
    }
    assert("strict"@ != "theirs"@) by {
        assert("strict"@[0] != "theirs"@[0]);
    }
    assert("ours"@ != "theirs"@) by {
        assert("ours"@[0] != "theirs"@[0]);
    }
}

/// Reads a merge strategy name: `strict`, `ours` or `theirs`, in any ASCII case.
pub fn parse_strategy(s: &str) -> (r: Result<MergeStrategy, &'static str>)
    ensures
        match r {
            Ok(st) => strategy_named(s@) == Some(st),
            Err(m) => strategy_named(s@) is None && m@ == "strategy must be strict, ours, or theirs"@,
        },
        ascii_lowercase(s@) == "strict"@ ==> r == Ok::<MergeStrategy, &'static str>(MergeStrategy::Strict),
        ascii_lowercase(s@) == "ours"@ ==> r == Ok::<MergeStrategy, &'static str>(MergeStrategy::Ours),
        ascii_lowercase(s@) == "theirs"@ ==> r == Ok::<MergeStrategy, &'static str>(MergeStrategy::Theirs),
{
    proof {
        law_strategy_names(s@);
    }
    if lowercase_equals(s, "strict") {
        Ok(MergeStrategy::Strict)
    } else if lowercase_equals(s, "ours") {
        Ok(MergeStrategy::Ours)
    } else if lowercase_equals(s, "theirs") {
        Ok(MergeStrategy::Theirs)
    } else {
        Err("strategy must be strict, ours, or theirs")
    }
}

/// Whether `c` is an ASCII decimal digit.
pub open spec fn is_decimal_digit(c: char) -> bool {
    '0' <= c && c <= '9'
}

/// The value of a text of decimal digits.
pub open spec fn digits_value(s: Seq<char>) -> int
    decreases s.len(),
{
    if s.len() == 0 {
        0
    } else {
        digits_value(s.drop_last()) * 10 + (s.last() as int - 48)
    }
}

/// The digits of a decimal number: `s` without one leading `+`.
pub open spec fn decimal_digits(s: Seq<char>) -> Seq<char> {
    if s.len() > 0 && s[0] == '+' {
        s.drop_first()
    } else {
        s
    }
}

/// The number a decimal text denotes: an optional `+` and one or more ASCII
/// digits, whose value fits in a `u64`.
pub open spec fn decimal_u64(s: Seq<char>) -> Option<u64> {
    let d = decimal_digits(s);
    if d.len() > 0 && (forall|i: int| 0 <= i < d.len() ==> is_decimal_digit(#[trigger] d[i]))
        && digits_value(d) <= u64::MAX {
        Some(digits_value(d) as u64)
    } else {
        None
    }
}

/// A digit text is worth at least any of its prefixes.
proof fn lemma_digits_value_prefix(s: Seq<char>, k: int)
    requires
        0 <= k <= s.len(),
        forall|i: int| 0 <= i < s.len() ==> is_decimal_digit(#[trigger] s[i]),
    ensures
        digits_value(s.take(k)) <= digits_value(s),
        0 <= digits_value(s.take(k)),
    decreases s.len(),
{
    if k < s.len() {
        let t = s.drop_last();
        assert forall|i: int| 0 <= i < t.len() implies is_decimal_digit(#[trigger] t[i]) by {
            assert(t[i] == s[i]);
        }
        lemma_digits_value_prefix(t, k);
        assert(t.take(k) =~= s.take(k));
        lemma_digits_value_prefix(t, t.len() as int);
        assert(t.take(t.len() as int) =~= t);
        assert(is_decimal_digit(s[s.len() - 1]));
    } else {
        assert(s.take(k) =~= s);
        lemma_digits_value_nonnegative(s);
    }
}

/// A digit text has a non-negative value.
proof fn lemma_digits_value_nonnegative(s: Seq<char>)
    requires
        forall|i: int| 0 <= i < s.len() ==> is_decimal_digit(#[trigger] s[i]),
    ensures
        0 <= digits_value(s),
    decreases s.len(),
{
    if s.len() > 0 {
        let t = s.drop_last();
        assert forall|i: int| 0 <= i < t.len() implies is_decimal_digit(#[trigger] t[i]) by {
            assert(t[i] == s[i]);
        }
        lemma_digits_value_nonnegative(t);
        assert(is_decimal_digit(s[s.len() - 1]));
    }
}

/// Reads a decimal `u64`: an optional `+` and one or more ASCII digits.
pub fn parse_decimal_u64(s: &str) -> (r: Option<u64>)
    ensures
        r == decimal_u64(s@),
{
    let n = s.unicode_len();
    let start: usize = if n > 0 && s.get_char(0) == '+' {
        1
    } else {
        0
    };
    let ghost d = decimal_digits(s@);
    proof {
        assert(d =~= s@.skip(start as int));
    }
    if start == n {
        return None;
    }
    let mut acc: u64 = 0;
    let mut i: usize = start;
    while i < n
        invariant
            n == s@.len(),
            start <= i <= n,
            d == s@.skip(start as int),
            d == decimal_digits(s@),
            forall|j: int| 0 <= j < i - start ==> is_decimal_digit(#[trigger] d[j]),
            acc == digits_value(d.take(i - start)),
        decreases n - i,
    {
        let c = s.get_char(i);
        if !('0' <= c && c <= '9') {
            proof {
                assert(d[i - start] == c);
                assert(!is_decimal_digit(d[i - start]));
            }
            return None;
        }
        let digit = (c as u32 - 48) as u64;
        proof {
            assert(d[i - start] == c);
            let t = d.take(i - start + 1);
            assert(t.drop_last() =~= d.take(i - start));
            assert(t.last() == c);
        }
        match acc.checked_mul(10) {
            Some(m) => match m.checked_add(digit) {
                Some(v) => {
                    acc = v;
                },
                None => {
                    proof {
                        self::lemma_overflow_means_none(s@, start as int, i as int);
                    }
                    return None;
                },
            },
            None => {
                proof {
                    self::lemma_overflow_means_none(s@, start as int, i as int);
                }
                return None;
            },
        }
        i = i + 1;
    }
    proof {
        assert(d.take(n - start) =~= d);
    }
    Some(acc)
}

/// Once the digits read so far exceed `u64`, the text denotes no `u64`.
proof fn lemma_overflow_means_none(s: Seq<char>, start: int, i: int)
    requires
        decimal_digits(s) == s.skip(start),
        0 <= start <= i < s.len(),
        forall|j: int| 0 <= j <= i - start ==> is_decimal_digit(#[trigger] decimal_digits(s)[j]),
        digits_value(decimal_digits(s).take(i - start + 1)) > u64::MAX,
    ensures
        decimal_u64(s) is None,
{
    let d = decimal_digits(s);
    if (forall|j: int| 0 <= j < d.len() ==> is_decimal_digit(#[trigger] d[j])) {
        lemma_digits_value_prefix(d, i - start + 1);
    }
}

/// The decimal digits of `n`, most significant first, without leading zeros.
pub open spec fn decimal_text(n: nat) -> Seq<char>
    decreases n,
{
    if n < 10 {
        seq![(48 + n) as char]
    } else {
        decimal_text(n / 10).push((48 + n % 10) as char)
    }
}

/// Appending a digit to a text of digits multiplies its value by ten and adds
/// the digit; in particular a trailing `0` multiplies it by ten.
pub proof fn law_digit_appended(s: Seq<char>, c: char)
    requires
        forall|i: int| 0 <= i < s.len() ==> is_decimal_digit(#[trigger] s[i]),
        is_decimal_digit(c),
    ensures
        digits_value(s.push(c)) == 10 * digits_value(s) + (c as int - 48),
        c == '0' ==> digits_value(s.push(c)) == 10 * digits_value(s),
{
    assert(s.push(c).drop_last() =~= s);
}

/// The digits of `n` are digits, and they are worth `n`.
proof fn lemma_decimal_text(n: nat)
    ensures
        decimal_text(n).len() > 0,
        forall|i: int| 0 <= i < decimal_text(n).len() ==> is_decimal_digit(#[trigger] decimal_text(n)[i]),
        digits_value(decimal_text(n)) == n,
    decreases n,
{
    if n < 10 {
        let t = decimal_text(n);
        assert(t.drop_last() =~= Seq::<char>::empty());
        assert(((48 + n) as char) as int == 48 + n);
        assert(t.last() == (48 + n) as char);
        assert(digits_value(t) == digits_value(t.drop_last()) * 10 + (t.last() as int - 48));
    } else {
        let p = decimal_text(n / 10);
        lemma_decimal_text(n / 10);
        let c = (48 + n % 10) as char;
        assert((c as int) == 48 + n % 10);
        assert forall|i: int| 0 <= i < p.push(c).len() implies is_decimal_digit(#[trigger] p.push(c)[i]) by {
            if i < p.len() {
                assert(p.push(c)[i] == p[i]);
            }
        }
        law_digit_appended(p, c);
        assert(decimal_text(n) == p.push(c));
        assert((n / 10) * 10 + n % 10 == n);
    }
}

/// Reading decimal text inverts writing it: the decimal digits of any `u64`
/// read back as that number, with or without a leading `+`.
pub proof fn law_decimal_round_trip(n: u64)
    ensures
        decimal_u64(decimal_text(n as nat)) == Some(n),
        decimal_u64(seq!['+'] + decimal_text(n as nat)) == Some(n),
{
    lemma_decimal_text(n as nat);
    let t = decimal_text(n as nat);
    assert(t[0] != '+') by {
        assert(is_decimal_digit(t[0]));
    }
    assert(decimal_digits(t) == t);
    assert((seq!['+'] + t).drop_first() =~= t);
    assert(decimal_digits(seq!['+'] + t) == t);
}

/// Longest output, in bytes, shown in a run preview.
pub const PREVIEW_LIMIT: usize = 4096;

/// The preview of a run's stdout: the whole output when it is at most
/// `PREVIEW_LIMIT` bytes, else its first `PREVIEW_LIMIT` bytes and an ellipsis.
pub fn stdout_preview(blob: &[u8]) -> (p: String)
    ensures
        p@ == if blob@.len() <= PREVIEW_LIMIT {
            utf8_lossy(blob@)
        } else {
            utf8_lossy(blob@.take(PREVIEW_LIMIT as int)) + "\u{2026}"@
        },
{
    if blob.len() <= PREVIEW_LIMIT {
        decode_lossy(blob)
    } else {
        let head = vstd::slice::slice_subrange(blob, 0, PREVIEW_LIMIT);
        let mut p = decode_lossy(head);
        proof {
            assert(head@ =~= blob@.take(PREVIEW_LIMIT as int));
        }
        p.append("\u{2026}");
        p
    }
}

/// Why a run request is refused.
#[derive(Debug, Clone, PartialEq, Eq)]
pub enum RunRequestError {
    /// The `fuel` field is not a decimal number.
    InvalidFuel,
    /// The `args` field is not a JSON list of strings (with the parser's message).
    ArgsJson(String),
    /// The `input_cids` field is not a JSON list of strings (with the parser's message).
    InputCidsJson(String),
    /// No `wasm` field was given.
    MissingWasm,
}

/// Default fuel of a run request.
pub const DEFAULT_FUEL: u64 = 10_000_000;

/// The fields of a run request read so far.
#[derive(Debug)]
pub struct RunRequest {
    pub wasm: Option<Vec<u8>>,
    pub fuel: u64,
    pub guest_args: Vec<String>,
    pub input_cids: Vec<String>,
}

/// The text of a request field: its bytes decoded lossily, trimmed.
pub open spec fn field_text(bytes: Seq<u8>) -> Seq<char> {
    trimmed(utf8_lossy(bytes))
}

impl RunRequest {
    /// No module, default fuel, no guest arguments, no input CIDs.
    pub fn new() -> (r: Self)
        ensures
            r.wasm is None,
            r.fuel == DEFAULT_FUEL,
            r.guest_args@.len() == 0,
            r.input_cids@.len() == 0,
    {
        RunRequest { wasm: None, fuel: DEFAULT_FUEL, guest_args: Vec::new(), input_cids: Vec::new() }
    }

    /// Takes one field of the request: `wasm` (the module), `fuel` (decimal),
    /// `args` and `input_cids` (JSON lists of strings); other fields are ignored.
    /// A refused field leaves the request as it was.
    pub fn apply_field(&mut self, name: &str, bytes: Vec<u8>) -> (r: Result<(), RunRequestError>)
        ensures
            name@ == "wasm"@ ==> r is Ok && *final(self) == (RunRequest { wasm: Some(bytes), ..*old(self) }),
            name@ == "fuel"@ ==> match decimal_u64(utf8_lossy(bytes@)) {
                Some(f) => r is Ok && *final(self) == (RunRequest { fuel: f, ..*old(self) }),
                None => r == Err::<(), RunRequestError>(RunRequestError::InvalidFuel) && *final(self) == *old(self),
            },
            name@ == "args"@ ==> match json_string_list(field_text(bytes@)) {
                Ok(v) => r is Ok && final(self).guest_args.deep_view() == v && *final(self) == (RunRequest { guest_args: final(self).guest_args, ..*old(self) }),
                Err(m) => (r matches Err(RunRequestError::ArgsJson(e)) && e@ == m) && *final(self) == *old(self),
            },
            name@ == "input_cids"@ ==> match json_string_list(field_text(bytes@)) {
                Ok(v) => r is Ok && final(self).input_cids.deep_view() == v && *final(self) == (RunRequest { input_cids: final(self).input_cids, ..*old(self) }),
                Err(m) => (r matches Err(RunRequestError::InputCidsJson(e)) && e@ == m) && *final(self) == *old(self),
            },
            name@ != "wasm"@ && name@ != "fuel"@ && name@ != "args"@ && name@ != "input_cids"@ ==> r is Ok && *final(self) == *old(self),
    {
        proof {
            reveal_strlit("wasm");
            reveal_strlit("fuel");
            reveal_strlit("args");
            reveal_strlit("input_cids");
            assert("wasm"@ != "fuel"@) by {
                assert("wasm"@[0] != "fuel"@[0]);
            }
            assert("wasm"@ != "args"@) by {
                assert("wasm"@[0] != "args"@[0]);
            }
            assert("wasm"@ != "input_cids"@) by {
                assert("wasm"@[0] != "input_cids"@[0]);
            }
            assert("fuel"@ != "args"@) by {
                assert("fuel"@[0] != "args"@[0]);
            }
            assert("fuel"@ != "input_cids"@) by {
                assert("fuel"@[0] != "input_cids"@[0]);
            }
            assert("args"@ != "input_cids"@) by {
                assert("args"@[0] != "input_cids"@[0]);
            }
        }
        if crate::text::same_text(name, "wasm") {
            self.wasm = Some(bytes);
            Ok(())
        } else if crate::text::same_text(name, "fuel") {
            let text = decode_lossy(bytes.as_slice());
            match parse_decimal_u64(text.as_str()) {
                Some(f) => {
                    self.fuel = f;
                    Ok(())
                },
                None => Err(RunRequestError::InvalidFuel),
            }
        } else if crate::text::same_text(name, "args") {
            let text = decode_lossy(bytes.as_slice());
            match parse_json_string_list(trim(text.as_str())) {
                Ok(v) => {
                    self.guest_args = v;
                    Ok(())
                },
                Err(e) => Err(RunRequestError::ArgsJson(json_error_message(&e))),
            }
        } else if crate::text::same_text(name, "input_cids") {
            let text = decode_lossy(bytes.as_slice());
            match parse_json_string_list(trim(text.as_str())) {
                Ok(v) => {
                    self.input_cids = v;
                    Ok(())
                },
                Err(e) => Err(RunRequestError::InputCidsJson(json_error_message(&e))),
            }
        } else {
            Ok(())
        }
    }

    /// The module, the limits (the request's fuel, default capacities), the
    /// guest arguments and the input CIDs; refused when no module was given.
    pub fn finish(self) -> (r: Result<(Vec<u8>, WasmRunLimits, Vec<String>, Vec<String>), RunRequestError>)
        ensures
            match r {
                Ok((wasm, limits, args, cids)) => {
                    &&& self.wasm == Some(wasm)
                    &&& limits.fuel == self.fuel
                    &&& limits.stdout_capacity == 256 * 1024
                    &&& limits.stderr_capacity == 256 * 1024
                    &&& args == self.guest_args
                    &&& cids == self.input_cids
                },
                Err(e) => self.wasm is None && e == RunRequestError::MissingWasm,
            },
    {
        match self.wasm {
            Some(wasm) => {
                let mut limits = WasmRunLimits::default();
                limits.fuel = self.fuel;
                Ok((wasm, limits, self.guest_args, self.input_cids))
            },
            None => Err(RunRequestError::MissingWasm),
        }
    }
}

} // verus!
