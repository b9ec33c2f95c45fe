//! The phrasings of the log lines that open and close an invocation.

use vstd::prelude::*;
use vstd::slice::slice_subrange;
use vstd::slice::slice_to_vec;
use vstd::string::StringSliceAdditionalSpecFns;
use vstd::utf8::encode_utf8;
use vstd::utf8::is_ascii_chars;
use vstd::utf8::is_ascii_chars_encode_utf8;

verus! {

/// A program identifier, as the bytes of its text form.
pub type ProgramId = Vec<u8>;

/// How an invocation came to its end.
#[derive(Clone, Copy, Debug, PartialEq, Eq, Structural)]
pub enum EndStatus {
    Success,
    Failure,
}

/// What one log line says about the tree of invocations.
#[derive(Debug, PartialEq, Eq)]
pub enum LineKind {
    /// `Program <id> invoke [<depth>]`
    Invoke { program_id: Vec<u8>, depth: u64 },
    /// `Program <id> success` or `Program <id> failed: <reason>`
    End { program_id: Vec<u8>, status: EndStatus },
    /// Any other line: it leaves the tree as it is.
    Other,
}

/// The mathematical value of a [`LineKind`].
pub enum LineModel {
    Invoke { program_id: Seq<u8>, depth: u64 },
    End { program_id: Seq<u8>, status: EndStatus },
    Other,
}

impl View for LineKind {
    type V = LineModel;

    open spec fn view(&self) -> LineModel {
        match *self {
            LineKind::Invoke { program_id, depth } => LineModel::Invoke {
                program_id: program_id@,
                depth,
            },
            LineKind::End { program_id, status } => LineModel::End {
                program_id: program_id@,
                status,
            },
            LineKind::Other => LineModel::Other,
        }
    }
}

/// Every line that opens or closes an invocation begins with this.
pub open spec fn program_prefix() -> Seq<u8> {
    "Program ".spec_bytes()
}

/// Stands between the identifier and the depth of an opening line.
pub open spec fn invoke_infix() -> Seq<u8> {
    " invoke [".spec_bytes()
}

/// Ends an opening line, after the depth.
pub open spec fn invoke_suffix() -> Seq<u8> {
    "]".spec_bytes()
}

/// Follows the identifier in the line of a normal return.
pub open spec fn success_suffix() -> Seq<u8> {
    " success".spec_bytes()
}

/// Follows the identifier in the line of a failed return; the reason comes after it.
pub open spec fn failed_infix() -> Seq<u8> {
    " failed: ".spec_bytes()
}

/// Identifiers are written with ASCII letters and digits.
pub open spec fn is_id_byte(b: u8) -> bool {
    ||| 0x30 <= b <= 0x39
    ||| 0x41 <= b <= 0x5a
    ||| 0x61 <= b <= 0x7a
}

pub open spec fn is_digit(b: u8) -> bool {
    0x30 <= b <= 0x39
}

/// The number of identifier bytes that `s` begins with.
pub open spec fn id_run(s: Seq<u8>) -> nat
    decreases s.len(),
{
    if s.len() > 0 && is_id_byte(s[0]) {
        1 + id_run(s.drop_first())
    } else {
        0
    }
}

pub open spec fn all_digits(s: Seq<u8>) -> bool {
    forall|i: int| 0 <= i < s.len() ==> is_digit(#[trigger] s[i])
}

/// The number that a run of decimal digits denotes.
pub open spec fn decimal_value(digits: Seq<u8>) -> nat
    decreases digits.len(),
{
    if digits.len() == 0 {
        0
    } else {
        decimal_value(digits.drop_last()) * 10 + (digits.last() - 0x30) as nat
    }
}

/// `s` begins with `pattern`.
pub open spec fn begins_with(s: Seq<u8>, pattern: Seq<u8>) -> bool {
    pattern.len() <= s.len() && s.take(pattern.len() as int) == pattern
}

/// `s` ends with `pattern`.
pub open spec fn ends_with(s: Seq<u8>, pattern: Seq<u8>) -> bool {
    pattern.len() <= s.len() && s.skip(s.len() - pattern.len()) == pattern
}

/// The digits of an opening line, given what follows its identifier.
pub open spec fn depth_digits(tail: Seq<u8>) -> Seq<u8> {
    tail.subrange(invoke_infix().len() as int, tail.len() - invoke_suffix().len())
}

/// What follows the identifier is ` invoke [`, a depth that fits and `]`.
pub open spec fn is_invoke_tail(tail: Seq<u8>) -> bool {
    &&& begins_with(tail, invoke_infix())
    &&& invoke_infix().len() + invoke_suffix().len() < tail.len()
    &&& ends_with(tail, invoke_suffix())
    &&& all_digits(depth_digits(tail))
    &&& decimal_value(depth_digits(tail)) <= u64::MAX
}

/// The reading of what follows the identifier `program_id` in a line.
pub open spec fn classify_tail(program_id: Seq<u8>, tail: Seq<u8>) -> LineModel {
    if tail == success_suffix() {
        LineModel::End { program_id, status: EndStatus::Success }
    } else if begins_with(tail, failed_infix()) {
        LineModel::End { program_id, status: EndStatus::Failure }
    } else if is_invoke_tail(tail) {
        LineModel::Invoke { program_id, depth: decimal_value(depth_digits(tail)) as u64 }
    } else {
        LineModel::Other
    }
}

/// The reading of a line. A line that follows none of the three phrasings,
/// down to the last byte, is [`LineModel::Other`].
pub open spec fn classify_spec(line: Seq<u8>) -> LineModel {
    if !begins_with(line, program_prefix()) {
        LineModel::Other
    } else {
        let body = line.skip(program_prefix().len() as int);
        let n = id_run(body) as int;
        if n == 0 {
            LineModel::Other
        } else {
            classify_tail(body.take(n), body.skip(n))
        }
    }
}

/// The readings of the lines of a batch.
pub open spec fn readings(lines: Seq<Seq<u8>>) -> Seq<LineModel> {
    Seq::new(lines.len(), |i: int| classify_spec(lines[i]))
}

/// The bytes of each line of text.
pub open spec fn lines_bytes(lines: Seq<String>) -> Seq<Seq<u8>> {
    Seq::new(lines.len(), |i: int| encode_utf8(lines[i]@))
}

/// The lines of a batch up to `index` are read as the first `index`
/// readings of the batch.
pub proof fn lemma_readings_take(lines: Seq<Seq<u8>>, index: int)
    requires
        0 <= index < lines.len(),
    ensures
        readings(lines.take(index + 1)).drop_last() == readings(lines.take(index)),
        readings(lines.take(index + 1)).last() == classify_spec(lines[index]),
        lines.take(index + 1).drop_last() == lines.take(index),
        lines.take(index + 1).last() == lines[index],
{
    assert(readings(lines.take(index + 1)).drop_last() =~= readings(lines.take(index)));
    assert(lines.take(index + 1).drop_last() =~= lines.take(index));
}

/// The bytes of the phrasings: `Program `, ` invoke [`, `]`, ` success`
/// and ` failed: `.
pub proof fn lemma_phrasing_bytes()
    ensures
        program_prefix() == seq![0x50u8, 0x72u8, 0x6fu8, 0x67u8, 0x72u8, 0x61u8, 0x6du8, 0x20u8],
        invoke_infix() == seq![
            0x20u8,
            0x69u8,
            0x6eu8,
            0x76u8,
            0x6fu8,
            0x6bu8,
            0x65u8,
            0x20u8,
            0x5bu8,
        ],
        invoke_suffix() == seq![0x5du8],
        success_suffix() == seq![0x20u8, 0x73u8, 0x75u8, 0x63u8, 0x63u8, 0x65u8, 0x73u8, 0x73u8],
        failed_infix() == seq![
            0x20u8,
            0x66u8,
            0x61u8,
            0x69u8,
            0x6cu8,
            0x65u8,
            0x64u8,
            0x3au8,
            0x20u8,
        ],
{
    reveal_strlit("Program ");
    reveal_strlit(" invoke [");
    reveal_strlit("]");
    reveal_strlit(" success");
    reveal_strlit(" failed: ");
    assert(is_ascii_chars("Program "@));
    assert(is_ascii_chars(" invoke ["@));
    assert(is_ascii_chars("]"@));
    assert(is_ascii_chars(" success"@));
    assert(is_ascii_chars(" failed: "@));
    is_ascii_chars_encode_utf8("Program "@);
    is_ascii_chars_encode_utf8(" invoke ["@);
    is_ascii_chars_encode_utf8("]"@);
    is_ascii_chars_encode_utf8(" success"@);
    is_ascii_chars_encode_utf8(" failed: "@);
    assert(program_prefix() =~= seq![
        0x50u8,
        0x72u8,
        0x6fu8,
        0x67u8,
        0x72u8,
        0x61u8,
        0x6du8,
        0x20u8,
    ]);
    assert(invoke_infix() =~= seq![
        0x20u8,
        0x69u8,
        0x6eu8,
        0x76u8,
        0x6fu8,
        0x6bu8,
        0x65u8,
        0x20u8,
        0x5bu8,
    ]);
    assert(invoke_suffix() =~= seq![0x5du8]);
    assert(success_suffix() =~= seq![
        0x20u8,
        0x73u8,
        0x75u8,
        0x63u8,
        0x63u8,
        0x65u8,
        0x73u8,
        0x73u8,
    ]);
    assert(failed_infix() =~= seq![
        0x20u8,
        0x66u8,
        0x61u8,
        0x69u8,
        0x6cu8,
        0x65u8,
        0x64u8,
        0x3au8,
        0x20u8,
    ]);
}

/// An identifier run is known by its bytes and by the byte that stops it.
pub proof fn lemma_id_run(s: Seq<u8>, n: int)
    requires
        0 <= n <= s.len(),
        forall|i: int| 0 <= i < n ==> is_id_byte(#[trigger] s[i]),
        n == s.len() || !is_id_byte(s[n]),
    ensures
        id_run(s) == n,
    decreases n,
{
    if n > 0 {
        let rest = s.drop_first();
        assert forall|i: int| 0 <= i < n - 1 implies is_id_byte(#[trigger] rest[i]) by {
            assert(rest[i] == s[i + 1]);
        }
        lemma_id_run(rest, n - 1);
    }
}

/// A run of digits denotes at least what any of its beginnings denotes.
pub proof fn lemma_decimal_value_grows(digits: Seq<u8>, k: int)
    requires
        0 <= k <= digits.len(),
        all_digits(digits),
    ensures
        decimal_value(digits.take(k)) <= decimal_value(digits),
    decreases digits.len(),
{
    if k == digits.len() {
        assert(digits.take(k) =~= digits);
    } else {
        let shorter = digits.drop_last();
        assert(shorter.take(k) =~= digits.take(k));
        assert forall|i: int| 0 <= i < shorter.len() implies is_digit(#[trigger] shorter[i]) by {
            assert(shorter[i] == digits[i]);
        }
        lemma_decimal_value_grows(shorter, k);
        assert(is_digit(digits[digits.len() - 1]));
    }
}

fn is_id(b: u8) -> (r: bool)
    ensures
        r == is_id_byte(b),
{
    (0x30 <= b && b <= 0x39) || (0x41 <= b && b <= 0x5a) || (0x61 <= b && b <= 0x7a)
}

/// Whether `s` begins with `pattern`.
pub fn begins(s: &[u8], pattern: &[u8]) -> (r: bool)
    ensures
        r == begins_with(s@, pattern@),
{
    let n: usize = pattern.len();
    if s.len() < n {
        return false;
    }
    let mut i: usize = 0;
    while i < n
        invariant
            n <= s@.len(),
            n == pattern@.len(),
            i <= n,
            forall|j: int| 0 <= j < i ==> s@[j] == pattern@[j],
        decreases n - i,
    {
        if s[i] != pattern[i] {
            assert(s@.take(n as int)[i as int] == s@[i as int]);
            return false;
        }
        i += 1;
    }
    assert(s@.take(n as int) =~= pattern@);
    true
}

/// Whether `s` ends with `pattern`.
pub fn ends(s: &[u8], pattern: &[u8]) -> (r: bool)
    ensures
        r == ends_with(s@, pattern@),
{
    if s.len() < pattern.len() {
        return false;
    }
    let from: usize = s.len() - pattern.len();
    let last = slice_subrange(s, from, s.len());
    assert(last@ =~= s@.skip(from as int));
    assert(last@.take(pattern@.len() as int) =~= last@);
    begins(last, pattern)
}

/// Whether `a` and `b` hold the same bytes.
pub fn same(a: &[u8], b: &[u8]) -> (r: bool)
    ensures
        r == (a@ == b@),
{
    assert(a@.take(a@.len() as int) =~= a@);
    a.len() == b.len() && begins(a, b)
}

/// The depth that `digits` denotes, if they are digits and the number fits.
pub fn read_depth(digits: &[u8]) -> (r: Option<u64>)
    ensures
        r.is_some() == (all_digits(digits@) && decimal_value(digits@) <= u64::MAX),
        r.is_some() ==> r.unwrap() == decimal_value(digits@),
{
    let mut value: u64 = 0;
    let mut i: usize = 0;
    while i < digits.len()
        invariant
            i <= digits@.len(),
            all_digits(digits@.take(i as int)),
            value == decimal_value(digits@.take(i as int)),
        decreases digits@.len() - i,
    {
        let b: u8 = digits[i];
        if !(0x30 <= b && b <= 0x39) {
            return None;
        }
        let d: u64 = (b - 0x30) as u64;
        proof {
            let longer = digits@.take(i + 1);
            assert(longer.drop_last() =~= digits@.take(i as int));
            assert(longer.last() == b);
            assert forall|j: int| 0 <= j < longer.len() implies is_digit(#[trigger] longer[j]) by {
                if j < i {
                    assert(digits@.take(i as int)[j] == longer[j]);
                }
            }
        }
        if value > (u64::MAX - d) / 10 {
            proof {
                if all_digits(digits@) {
                    lemma_decimal_value_grows(digits@, i + 1);
                }
            }
            return None;
        }
        value = value * 10 + d;
        i += 1;
    }
    assert(digits@.take(i as int) =~= digits@);
    Some(value)
}

/// The index at which the identifier that starts at `from` stops.
pub fn id_end(line: &[u8], from: usize) -> (end: usize)
    requires
        from <= line@.len(),
    ensures
        from <= end <= line@.len(),
        end - from == id_run(line@.skip(from as int)),
{
    let mut end: usize = from;
    while end < line.len() && is_id(line[end])
        invariant
            from <= end <= line@.len(),
            forall|j: int| from <= j < end ==> is_id_byte(#[trigger] line@[j]),
        decreases line@.len() - end,
    {
        end += 1;
    }
    proof {
        let body = line@.skip(from as int);
        assert forall|j: int| 0 <= j < end - from implies is_id_byte(#[trigger] body[j]) by {
            assert(body[j] == line@[from + j]);
        }
        lemma_id_run(body, end - from);
    }
    end
}

/// Reads what follows the identifier `program_id` in a line.
pub fn read_tail(program_id: ProgramId, tail: &[u8]) -> (kind: LineKind)
    ensures
        kind@ == classify_tail(program_id@, tail@),
{
    if same(tail, " success".as_bytes()) {
        return LineKind::End { program_id, status: EndStatus::Success };
    }
    if begins(tail, " failed: ".as_bytes()) {
        return LineKind::End { program_id, status: EndStatus::Failure };
    }
    let open: usize = " invoke [".as_bytes().len();
    let close: usize = "]".as_bytes().len();
    if !begins(tail, " invoke [".as_bytes()) || tail.len() - open <= close || !ends(
        tail,
        "]".as_bytes(),
    ) {
        return LineKind::Other;
    }
    match read_depth(slice_subrange(tail, open, tail.len() - close)) {
        Some(depth) => LineKind::Invoke { program_id, depth },
        None => LineKind::Other,
    }
}

/// Reads a line given as bytes.
pub fn classify_bytes(line: &[u8]) -> (kind: LineKind)
    ensures
        kind@ == classify_spec(line@),
{
    if !begins(line, "Program ".as_bytes()) {
        return LineKind::Other;
    }
    let head: usize = "Program ".as_bytes().len();
    let end: usize = id_end(line, head);
    if end == head {
        return LineKind::Other;
    }
    let program_id = slice_to_vec(slice_subrange(line, head, end));
    let tail = slice_subrange(line, end, line.len());
    proof {
        let body = line@.skip(head as int);
        assert(body.take(end - head) =~= program_id@);
        assert(body.skip(end - head) =~= tail@);
    }
    read_tail(program_id, tail)
}

/// Reads a line of text.
pub fn classify(line: &str) -> (kind: LineKind)
    ensures
        kind@ == classify_spec(line.spec_bytes()),
{
    classify_bytes(line.as_bytes())
}

} // verus!
