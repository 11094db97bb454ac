//! What a `bash -c` tool call hands back to the model: its captured output,
//! cut to a size limit, and its exit code, framed as a JSON object.
use vstd::prelude::*;
use vstd::utf8::{valid_utf8, decode_utf8};
use crate::text::{push_str, owned, take_chars, hex_digit, signed_decimal, push_signed_decimal, decimal, digits_value, lemma_decimal, lemma_hex_digit};

verus! {

/// The most bytes of stdout or stderr that are kept.
pub const MAX_OUTPUT: usize = 8192;

/// The line appended to an output that was cut.
pub const TRUNCATION_MARK: &'static str = "\n...[truncated]";

/// The outcome of one command.
pub struct ToolResult {
    pub stdout: String,
    pub stderr: String,
    pub exit_code: i32,
}

/// The number of bytes UTF-8 takes for `c`.
pub open spec fn char_width(c: char) -> nat {
    if (c as u32) < 0x80 {
        1
    } else if (c as u32) < 0x800 {
        2
    } else if (c as u32) < 0x10000 {
        3
    } else {
        4
    }
}

/// The length in bytes of the UTF-8 encoding of `s`.
pub open spec fn byte_len(s: Seq<char>) -> nat
    decreases s.len(),
{
    if s.len() == 0 {
        0
    } else {
        byte_len(s.drop_last()) + char_width(s.last())
    }
}

/// Byte offset `n` of `s` falls between two characters.
pub open spec fn is_boundary(s: Seq<char>, n: nat) -> bool {
    exists|k: int| 0 <= k <= s.len() && byte_len(#[trigger] s.take(k)) == n
}

/// `k` is the number of leading characters of `s` that fit in `n` bytes: the
/// first `k` fit, and either that is all of `s` or one more does not fit.
pub open spec fn fits_within(s: Seq<char>, n: nat, k: int) -> bool {
    &&& 0 <= k <= s.len()
    &&& byte_len(s.take(k)) <= n
    &&& (k == s.len() || byte_len(s.take(k + 1)) > n)
}

/// The number of leading characters of `s` that fit in `n` bytes.
pub open spec fn chars_within(s: Seq<char>, n: nat) -> int {
    choose|k: int| fits_within(s, n, k)
}

/// `s` as it is kept: unchanged when it fits in `MAX_OUTPUT` bytes, otherwise
/// the longest run of its leading characters that fits in `MAX_OUTPUT` bytes
/// (the cut falls on the last character boundary at or before byte
/// `MAX_OUTPUT`), followed by the truncation mark.
pub open spec fn kept_output(s: Seq<char>) -> Seq<char> {
    if byte_len(s) <= MAX_OUTPUT {
        s
    } else {
        s.take(chars_within(s, MAX_OUTPUT as nat)) + TRUNCATION_MARK@
    }
}

proof fn lemma_byte_len_step(s: Seq<char>, i: int)
    requires
        0 <= i < s.len(),
    ensures
        byte_len(s.take(i + 1)) == byte_len(s.take(i)) + char_width(s[i]),
{
    assert(s.take(i + 1).drop_last() == s.take(i));
}

proof fn lemma_byte_len_strictly_grows(s: Seq<char>, j: int, i: int)
    requires
        0 <= j < i <= s.len(),
    ensures
        byte_len(s.take(j)) < byte_len(s.take(i)),
    decreases i - j,
{
    lemma_byte_len_step(s, i - 1);
    if j < i - 1 {
        lemma_byte_len_strictly_grows(s, j, i - 1);
    }
}

proof fn lemma_byte_len_full(s: Seq<char>)
    ensures
        s.take(s.len() as int) == s,
{
}

/// Only one number of leading characters fits.
proof fn lemma_fits_within(s: Seq<char>, n: nat, k: int)
    requires
        fits_within(s, n, k),
    ensures
        fits_within(s, n, chars_within(s, n)),
        chars_within(s, n) == k,
{
    let c = chars_within(s, n);
    if c < k {
        if c + 1 < k {
            lemma_byte_len_strictly_grows(s, c + 1, k);
        }
    } else if k < c {
        if k + 1 < c {
            lemma_byte_len_strictly_grows(s, k + 1, c);
        }
    }
}

proof fn lemma_fits_within_exists(s: Seq<char>, n: nat)
    ensures
        exists|k: int| fits_within(s, n, k),
    decreases s.len(),
{
    lemma_byte_len_full(s);
    if byte_len(s) <= n {
        assert(fits_within(s, n, s.len() as int));
    } else {
        let d = s.drop_last();
        lemma_fits_within_exists(d, n);
        let k = choose|k: int| fits_within(d, n, k);
        assert(d.take(k) == s.take(k));
        if k < d.len() {
            assert(d.take(k + 1) == s.take(k + 1));
            assert(fits_within(s, n, k));
        } else {
            assert(d == s.take(k));
            assert(fits_within(s, n, k));
        }
    }
}

/// Keeps at most `MAX_OUTPUT` bytes of a command's output, cutting at the last
/// character boundary at or before byte `MAX_OUTPUT` and marking the cut.
pub fn truncate(s: String) -> (r: String)
    ensures
        r@ == kept_output(s@),
{
    let mut bytes: usize = 0;
    let mut over = false;
    let mut idx: usize = 0;
    for c in it: s.as_str().chars()
        invariant
            it.seq() == s@,
            idx <= bytes <= MAX_OUTPUT,
            bytes == byte_len(s@.take(idx as int)),
            !over ==> idx == it.index(),
            over ==> idx < it.index() && fits_within(s@, MAX_OUTPUT as nat, idx as int),
    {
        let ghost i = it.index() as int;
        proof {
            lemma_byte_len_step(s@, i);
        }
        if !over {
            let w: usize = if (c as u32) < 0x80 {
                1
            } else if (c as u32) < 0x800 {
                2
            } else if (c as u32) < 0x10000 {
                3
            } else {
                4
            };
            if bytes + w > MAX_OUTPUT {
                over = true;
            } else {
                bytes = bytes + w;
                idx = idx + 1;
            }
        }
    }
    proof {
        lemma_byte_len_full(s@);
    }
    if !over {
        s
    } else {
        proof {
            lemma_fits_within(s@, MAX_OUTPUT as nat, idx as int);
            if idx + 1 < s@.len() {
                lemma_byte_len_strictly_grows(s@, idx + 1, s@.len() as int);
            }
        }
        let mut r = take_chars(s.as_str(), idx);
        push_str(&mut r, TRUNCATION_MARK);
        r
    }
}

proof fn lemma_byte_len_concat(a: Seq<char>, b: Seq<char>)
    ensures
        byte_len(a + b) == byte_len(a) + byte_len(b),
    decreases b.len(),
{
    if b.len() > 0 {
        assert((a + b).drop_last() == a + b.drop_last());
        lemma_byte_len_concat(a, b.drop_last());
    } else {
        assert(a + b == a);
    }
}

proof fn lemma_byte_len_ascii(s: Seq<char>)
    requires
        forall|i: int| 0 <= i < s.len() ==> (#[trigger] s[i] as u32) < 0x80,
    ensures
        byte_len(s) == s.len(),
    decreases s.len(),
{
    if s.len() > 0 {
        lemma_byte_len_ascii(s.drop_last());
    }
}

/// What is kept of a command's output is at most `MAX_OUTPUT` bytes plus the
/// truncation mark: the output itself when it fits, else the longest prefix
/// of whole characters within `MAX_OUTPUT` bytes followed by the mark, which
/// is exactly the first `MAX_OUTPUT` bytes when byte `MAX_OUTPUT` is a
/// character boundary.
pub proof fn lemma_kept_output(s: Seq<char>)
    ensures
        byte_len(kept_output(s)) <= MAX_OUTPUT + 15,
        byte_len(s) <= MAX_OUTPUT ==> kept_output(s) == s,
        byte_len(s) > MAX_OUTPUT ==> {
            let k = chars_within(s, MAX_OUTPUT as nat);
            &&& 0 <= k < s.len()
            &&& byte_len(s.take(k)) <= MAX_OUTPUT < byte_len(s.take(k + 1))
            &&& kept_output(s) == s.take(k) + TRUNCATION_MARK@
            &&& is_boundary(s, MAX_OUTPUT as nat) ==> byte_len(s.take(k)) == MAX_OUTPUT
        },
{
    reveal_strlit("\n...[truncated]");
    let mark = TRUNCATION_MARK@;
    assert(mark.len() == 15);
    lemma_byte_len_ascii(mark);
    if byte_len(s) > MAX_OUTPUT {
        lemma_fits_within_exists(s, MAX_OUTPUT as nat);
        let k0 = choose|k: int| fits_within(s, MAX_OUTPUT as nat, k);
        lemma_fits_within(s, MAX_OUTPUT as nat, k0);
        let k = chars_within(s, MAX_OUTPUT as nat);
        lemma_byte_len_full(s);
        lemma_byte_len_concat(s.take(k), mark);
        if is_boundary(s, MAX_OUTPUT as nat) {
            let b = choose|b: int| 0 <= b <= s.len() && byte_len(#[trigger] s.take(b)) == MAX_OUTPUT;
            if b < k {
                lemma_byte_len_strictly_grows(s, b, k);
            } else if k < b {
                if k + 1 < b {
                    lemma_byte_len_strictly_grows(s, k + 1, b);
                }
            }
        }
    }
}

/// The text that `String::from_utf8_lossy` makes of `bytes`.
pub uninterp spec fn utf8_lossy(bytes: Seq<u8>) -> Seq<char>;

/// Decodes bytes as UTF-8, with U+FFFD for each invalid sequence
/// (`String::from_utf8_lossy`). Claimed: the result is the named function of
/// the bytes, and valid UTF-8 is decoded as it stands.
#[verifier::external_body]
fn decode_lossy(bytes: &[u8]) -> (r: String)
    ensures
        r@ == utf8_lossy(bytes@),
        valid_utf8(bytes@) ==> r@ == decode_utf8(bytes@),
{
    String::from_utf8_lossy(bytes).into_owned()
}

/// The result of a command that ran: its output decoded and kept as
/// `kept_output` says, and its exit code, or -1 when it has none (killed by a
/// signal).
pub fn tool_result(stdout: &[u8], stderr: &[u8], code: Option<i32>) -> (t: ToolResult)
    ensures
        t.stdout@ == kept_output(utf8_lossy(stdout@)),
        t.stderr@ == kept_output(utf8_lossy(stderr@)),
        t.exit_code == match code {
            Some(c) => c,
            None => -1i32,
        },
{
    let out = decode_lossy(stdout);
    let err = decode_lossy(stderr);
    let exit_code = match code {
        Some(c) => c,
        None => -1,
    };
    ToolResult { stdout: truncate(out), stderr: truncate(err), exit_code }
}

/// The result reported when `bash` could not be started: no output, the
/// reason on stderr, exit code -1.
pub fn spawn_failure(reason: &str) -> (r: ToolResult)
    ensures
        r.stdout@ == Seq::<char>::empty(),
        r.stderr@ == "failed to spawn bash: "@ + reason@,
        r.exit_code == -1,
{
    let mut stderr = owned("failed to spawn bash: ");
    push_str(&mut stderr, reason);
    ToolResult { stdout: String::new(), stderr, exit_code: -1 }
}

/// How JSON writes `c` inside a string literal.
pub open spec fn json_escape(c: char) -> Seq<char> {
    if c == '"' {
        seq!['\\', '"']
    } else if c == '\\' {
        seq!['\\', '\\']
    } else if c == '\x08' {
        seq!['\\', 'b']
    } else if c == '\t' {
        seq!['\\', 't']
    } else if c == '\n' {
        seq!['\\', 'n']
    } else if c == '\x0c' {
        seq!['\\', 'f']
    } else if c == '\r' {
        seq!['\\', 'r']
    } else if (c as u32) < 0x20 {
        seq!['\\', 'u', '0', '0', hex_digit((c as u32 / 16) as nat), hex_digit((c as u32 % 16) as nat)]
    } else {
        seq![c]
    }
}

/// The characters of `s`, each escaped for a JSON string literal.
pub open spec fn json_escaped(s: Seq<char>) -> Seq<char>
    decreases s.len(),
{
    if s.len() == 0 {
        Seq::empty()
    } else {
        json_escaped(s.drop_last()) + json_escape(s.last())
    }
}

/// `s` as a JSON string literal.
pub open spec fn json_string(s: Seq<char>) -> Seq<char> {
    seq!['"'] + json_escaped(s) + seq!['"']
}

#[verifier::external_type_specification]
#[verifier::external_body]
pub struct ExJsonError(serde_json::Error);

/// Writes a string as a JSON string literal (`serde_json::to_string` on a
/// `&str`). Claimed: it succeeds, and it quotes the string with `"`,
/// escapes `"` and `\` with a backslash, writes the control characters below
/// U+0020 as `\b`, `\t`, `\n`, `\f`, `\r` or `\u00xx`, and every other
/// character as it stands.
#[verifier::external_body]
fn quote_json(s: &str) -> (r: Result<String, serde_json::Error>)
    ensures
        r is Ok,
        r->Ok_0@ == json_string(s@),
{
    serde_json::to_string(s)
}

/// The JSON text serde writes for a `ToolResult`: its fields in order.
pub open spec fn tool_result_json(t: ToolResult) -> Seq<char> {
    "{\"stdout\":"@ + json_string(t.stdout@) + ",\"stderr\":"@ + json_string(t.stderr@)
        + ",\"exit_code\":"@ + signed_decimal(t.exit_code as int) + "}"@
}

proof fn lemma_escaped_concat(a: Seq<char>, b: Seq<char>)
    ensures
        json_escaped(a + b) == json_escaped(a) + json_escaped(b),
    decreases b.len(),
{
    if b.len() == 0 {
        assert(a + b =~= a);
        assert(json_escaped(a) + json_escaped(b) =~= json_escaped(a));
    } else {
        lemma_escaped_concat(a, b.drop_last());
        assert((a + b).drop_last() =~= a + b.drop_last());
        assert((a + b).last() == b.last());
        assert(json_escaped(a) + json_escaped(b) =~= json_escaped(a) + json_escaped(b.drop_last())
            + json_escape(b.last()));
    }
}

proof fn lemma_escaped_front(a: Seq<char>)
    requires
        a.len() > 0,
    ensures
        json_escaped(a) == json_escape(a[0]) + json_escaped(a.drop_first()),
{
    let h = seq![a[0]];
    assert(h + a.drop_first() =~= a);
    lemma_escaped_concat(h, a.drop_first());
    assert(h.drop_last() =~= Seq::<char>::empty());
    assert(h.last() == a[0]);
    assert(json_escaped(h.drop_last()) =~= Seq::<char>::empty());
    assert(json_escaped(h) == json_escaped(h.drop_last()) + json_escape(h.last()));
    assert(json_escaped(h) =~= json_escape(a[0]));
}

/// An escaped character is never a bare `"`.
proof fn lemma_escape_first(c: char)
    ensures
        json_escape(c).len() >= 1,
        json_escape(c)[0] != '"',
        json_escape(c)[0] == '\\' <==> json_escape(c).len() > 1,
{
}

/// The escape of a character, followed by anything, tells which character it
/// was.
proof fn lemma_escape_unique(c1: char, c2: char, u: Seq<char>, v: Seq<char>)
    requires
        json_escape(c1) + u == json_escape(c2) + v,
    ensures
        c1 == c2,
{
    let e1 = json_escape(c1);
    let e2 = json_escape(c2);
    let w = e1 + u;
    lemma_escape_first(c1);
    lemma_escape_first(c2);
    assert(w[0] == e1[0]);
    assert(w[0] == e2[0]);
    if e1.len() > 1 {
        assert(w[1] == e1[1]);
        assert(w[1] == e2[1]);
        if e1[1] == 'u' {
            assert(w[4] == e1[4] && w[5] == e1[5]);
            assert(w[4] == e2[4] && w[5] == e2[5]);
            let (a1, b1) = ((c1 as u32 / 16) as nat, (c1 as u32 % 16) as nat);
            let (a2, b2) = ((c2 as u32 / 16) as nat, (c2 as u32 % 16) as nat);
            lemma_hex_digit(a1, a2);
            lemma_hex_digit(b1, b2);
            assert(c1 as u32 == c2 as u32);
        }
    }
}

/// A JSON string literal ends at its closing quote: what it holds, and what
/// follows it, can be read back.
proof fn lemma_string_unique(a: Seq<char>, b: Seq<char>, x: Seq<char>, y: Seq<char>)
    requires
        json_escaped(a) + seq!['"'] + x == json_escaped(b) + seq!['"'] + y,
    ensures
        a == b,
        x == y,
    decreases a.len() + b.len(),
{
    let w = json_escaped(a) + seq!['"'] + x;
    if a.len() == 0 {
        assert(json_escaped(a) =~= Seq::<char>::empty());
        assert(w[0] == '"');
        if b.len() > 0 {
            lemma_escaped_front(b);
            lemma_escape_first(b[0]);
            assert(w[0] == json_escape(b[0])[0]);
        }
        assert(json_escaped(b) =~= Seq::<char>::empty());
        assert(x =~= w.drop_first());
        assert(y =~= w.drop_first());
        assert(a =~= b);
    } else if b.len() == 0 {
        assert(json_escaped(b) =~= Seq::<char>::empty());
        assert(w[0] == '"');
        lemma_escaped_front(a);
        lemma_escape_first(a[0]);
        assert(w[0] == json_escape(a[0])[0]);
    } else {
        lemma_escaped_front(a);
        lemma_escaped_front(b);
        let u = json_escaped(a.drop_first()) + seq!['"'] + x;
        let v = json_escaped(b.drop_first()) + seq!['"'] + y;
        assert(w =~= json_escape(a[0]) + u);
        assert(w =~= json_escape(b[0]) + v);
        lemma_escape_unique(a[0], b[0], u, v);
        let k = json_escape(a[0]).len() as int;
        assert(u =~= w.subrange(k, w.len() as int));
        assert(v =~= w.subrange(k, w.len() as int));
        lemma_string_unique(a.drop_first(), b.drop_first(), x, y);
        assert(a =~= seq![a[0]] + a.drop_first());
        assert(b =~= seq![b[0]] + b.drop_first());
    }
}

/// Different integers are written differently.
proof fn lemma_signed_decimal_unique(m: int, n: int)
    requires
        signed_decimal(m) == signed_decimal(n),
    ensures
        m == n,
{
    let dm = if m < 0 { (-m) as nat } else { m as nat };
    let dn = if n < 0 { (-n) as nat } else { n as nat };
    lemma_decimal(dm);
    lemma_decimal(dn);
    let s = signed_decimal(m);
    if m < 0 && n < 0 {
        assert(decimal(dm) =~= s.drop_first());
        assert(decimal(dn) =~= s.drop_first());
    } else if m < 0 {
        assert(s[0] == '-');
        assert('0' <= decimal(dn)[0] <= '9');
    } else if n < 0 {
        assert(s[0] == decimal(dm)[0]);
        assert('0' <= decimal(dm)[0] <= '9');
    }
}

/// The JSON handed to the model can be read back: two results with the same
/// JSON have the same stdout, the same stderr and the same exit code, so none
/// of them is left out or changed; and the object starts with the `stdout`
/// member holding the result's stdout as a JSON string.
pub proof fn lemma_tool_result_json_reads_back(t1: ToolResult, t2: ToolResult)
    ensures
        tool_result_json(t1) == tool_result_json(t2) ==> t1.stdout@ == t2.stdout@ && t1.stderr@
            == t2.stderr@ && t1.exit_code == t2.exit_code,
        tool_result_json(t1).take(10 + json_string(t1.stdout@).len() as int) == "{\"stdout\":"@
            + json_string(t1.stdout@),
{
    reveal_strlit("{\"stdout\":");
    reveal_strlit(",\"stderr\":");
    reveal_strlit(",\"exit_code\":");
    reveal_strlit("}");
    let j1 = tool_result_json(t1);
    assert(j1.take(10 + json_string(t1.stdout@).len() as int) =~= "{\"stdout\":"@ + json_string(t1.stdout@));
    if tool_result_json(t1) == tool_result_json(t2) {
        let tail1 = ",\"stderr\":"@ + json_string(t1.stderr@) + ",\"exit_code\":"@ + signed_decimal(
            t1.exit_code as int,
        ) + "}"@;
        let tail2 = ",\"stderr\":"@ + json_string(t2.stderr@) + ",\"exit_code\":"@ + signed_decimal(
            t2.exit_code as int,
        ) + "}"@;
        assert(j1.subrange(11, j1.len() as int) =~= json_escaped(t1.stdout@) + seq!['"'] + tail1);
        assert(j1.subrange(11, j1.len() as int) =~= json_escaped(t2.stdout@) + seq!['"'] + tail2);
        lemma_string_unique(t1.stdout@, t2.stdout@, tail1, tail2);
        let end1 = ",\"exit_code\":"@ + signed_decimal(t1.exit_code as int) + "}"@;
        let end2 = ",\"exit_code\":"@ + signed_decimal(t2.exit_code as int) + "}"@;
        assert(tail1.subrange(11, tail1.len() as int) =~= json_escaped(t1.stderr@) + seq!['"'] + end1);
        assert(tail2.subrange(11, tail2.len() as int) =~= json_escaped(t2.stderr@) + seq!['"'] + end2);
        lemma_string_unique(t1.stderr@, t2.stderr@, end1, end2);
        assert(signed_decimal(t1.exit_code as int) =~= end1.subrange(13, end1.len() - 1));
        assert(signed_decimal(t2.exit_code as int) =~= end2.subrange(13, end2.len() - 1));
        lemma_signed_decimal_unique(t1.exit_code as int, t2.exit_code as int);
    }
}

/// Serializes a tool result as the JSON object the model receives.
pub fn to_json(t: &ToolResult) -> (r: String)
    ensures
        r@ == tool_result_json(*t),
{
    let out = quote_json(t.stdout.as_str()).unwrap();
    let err = quote_json(t.stderr.as_str()).unwrap();
    let mut r = owned("{\"stdout\":");
    push_str(&mut r, out.as_str());
    push_str(&mut r, ",\"stderr\":");
    push_str(&mut r, err.as_str());
    push_str(&mut r, ",\"exit_code\":");
    push_signed_decimal(&mut r, t.exit_code as i64);
    push_str(&mut r, "}");
    r
}

} // verus!
