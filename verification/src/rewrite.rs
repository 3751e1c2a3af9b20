use vstd::prelude::*;

use crate::text::{has_prefix, is_space, is_space_char, lemma_tok_len_chars, lemma_tok_len_is,
    lemma_ws_len_chars, lemma_ws_len_is, str_eq, str_has_prefix, tok_len, ws_len};

verus! {

// A config line is read as [leading whitespace][first token][whitespace]
// [second token][rest]; these give the boundaries of those parts.
pub open spec fn lws_end(line: Seq<char>) -> int {
    ws_len(line) as int
}

pub open spec fn tok1_end(line: Seq<char>) -> int {
    lws_end(line) + tok_len(line.skip(lws_end(line)))
}

pub open spec fn ws2_end(line: Seq<char>) -> int {
    tok1_end(line) + ws_len(line.skip(tok1_end(line)))
}

pub open spec fn tok2_end(line: Seq<char>) -> int {
    ws2_end(line) + tok_len(line.skip(ws2_end(line)))
}

/// The line's first token.
pub open spec fn tok1(line: Seq<char>) -> Seq<char> {
    line.subrange(lws_end(line), tok1_end(line))
}

/// The line's second token.
pub open spec fn tok2(line: Seq<char>) -> Seq<char> {
    line.subrange(ws2_end(line), tok2_end(line))
}

/// A block-header line: the header keyword as its first token, with a name
/// after it.
pub open spec fn is_header_line(line: Seq<char>) -> bool {
    tok1(line) == "Host"@ && tok2(line).len() > 0
}

/// The block name a header line declares.
pub open spec fn header_name(line: Seq<char>) -> Seq<char> {
    tok2(line)
}

/// A value line: the directive keyword as its first token, with a value
/// after it.
pub open spec fn is_hostname_line(line: Seq<char>) -> bool {
    tok1(line) == "Hostname"@ && tok2(line).len() > 0
}

/// The value line rewritten to carry `value`: leading whitespace untouched,
/// the keyword and a single space, the new value, and whatever followed the
/// old value.
pub open spec fn rewritten_line(line: Seq<char>, value: Seq<char>) -> Seq<char> {
    line.take(lws_end(line)) + "Hostname "@ + value + line.skip(tok2_end(line))
}

/// Only header lines change the scanning state: it becomes whether the
/// declared name starts with the configured prefix.
pub open spec fn next_state(state: bool, line: Seq<char>, prefix: Seq<char>) -> bool {
    if is_header_line(line) {
        has_prefix(header_name(line), prefix)
    } else {
        state
    }
}

/// What one line becomes: header lines and lines outside a matching block
/// pass through unchanged; a value line inside a matching block is rewritten.
pub open spec fn output_line(state: bool, line: Seq<char>, value: Seq<char>) -> Seq<char> {
    if is_header_line(line) {
        line
    } else if state && is_hostname_line(line) {
        rewritten_line(line, value)
    } else {
        line
    }
}

/// Whether the scan is inside a matching block just before line `k`.  Before
/// the first line there is no match.
pub open spec fn state_before(lines: Seq<Seq<char>>, prefix: Seq<char>, k: int) -> bool
    decreases k,
{
    if k <= 0 {
        false
    } else {
        next_state(state_before(lines, prefix, k - 1), lines[k - 1], prefix)
    }
}

/// The whole single forward pass.
pub open spec fn rewrite_lines_spec(
    lines: Seq<Seq<char>>,
    prefix: Seq<char>,
    value: Seq<char>,
) -> Seq<Seq<char>> {
    Seq::new(lines.len(), |i: int| output_line(state_before(lines, prefix, i), lines[i], value))
}

/// First position at or after `from` holding a non-whitespace character.
fn scan_ws(s: &str, from: usize) -> (r: usize)
    requires
        from <= s@.len(),
    ensures
        from <= r <= s@.len(),
        r - from == ws_len(s@.skip(from as int)),
{
    let n = s.unicode_len();
    let mut i: usize = from;
    while i < n && is_space_char(s.get_char(i))
        invariant
            from <= i <= n,
            n == s@.len(),
            forall|k: int| from <= k < i ==> is_space(s@[k]),
        decreases n - i,
    {
        i = i + 1;
    }
    proof {
        let t = s@.skip(from as int);
        assert forall|k: int| 0 <= k < i - from implies is_space(t[k]) by {
            assert(t[k] == s@[from + k]);
        }
        if i - from < t.len() {
            assert(t[i - from] == s@[i as int]);
        }
        lemma_ws_len_is(t, i - from);
    }
    i
}

/// First position at or after `from` holding a whitespace character.
fn scan_tok(s: &str, from: usize) -> (r: usize)
    requires
        from <= s@.len(),
    ensures
        from <= r <= s@.len(),
        r - from == tok_len(s@.skip(from as int)),
{
    let n = s.unicode_len();
    let mut i: usize = from;
    while i < n && !is_space_char(s.get_char(i))
        invariant
            from <= i <= n,
            n == s@.len(),
            forall|k: int| from <= k < i ==> !is_space(s@[k]),
        decreases n - i,
    {
        i = i + 1;
    }
    proof {
        let t = s@.skip(from as int);
        assert forall|k: int| 0 <= k < i - from implies !is_space(t[k]) by {
            assert(t[k] == s@[from + k]);
        }
        if i - from < t.len() {
            assert(t[i - from] == s@[i as int]);
        }
        lemma_tok_len_is(t, i - from);
    }
    i
}

/// Processes one line: the state after it, and what it becomes.
fn process_line(line: &str, state: bool, host_prefix: &str, hostname: &str) -> (r: (bool, String))
    ensures
        r.0 == next_state(state, line@, host_prefix@),
        r.1@ == output_line(state, line@, hostname@),
{
    let n = line.unicode_len();
    let a = scan_ws(line, 0);
    let b = scan_tok(line, a);
    let c = scan_ws(line, b);
    let d = scan_tok(line, c);
    proof {
        assert(line@.skip(0) =~= line@);
        assert(a == lws_end(line@));
        assert(b == tok1_end(line@));
        assert(c == ws2_end(line@));
        assert(d == tok2_end(line@));
    }
    let t1 = line.substring_char(a, b);
    proof {
        assert(t1@ == tok1(line@));
    }
    if str_eq(t1, "Host") && d > c {
        let name = line.substring_char(c, d);
        proof {
            assert(name@ == tok2(line@));
        }
        let new_state = str_has_prefix(name, host_prefix);
        (new_state, line.to_owned())
    } else if state && str_eq(t1, "Hostname") && d > c {
        proof {
            reveal_strlit("Hostname ");
        }
        let out = line.substring_char(0, a).to_owned().concat("Hostname ").concat(
            hostname,
        ).concat(line.substring_char(d, n));
        proof {
            assert(out@ =~= rewritten_line(line@, hostname@));
        }
        (state, out)
    } else {
        (state, line.to_owned())
    }
}

/// The single forward pass over a config file's lines.  Header lines reset
/// the in-block state and pass through unchanged; inside a matching block
/// each value line is rewritten to carry `hostname`; every other line passes
/// through untouched.
pub fn rewrite_config_lines(lines: &Vec<String>, host_prefix: &str, hostname: &str) -> (r: Vec<
    String,
>)
    ensures
        r.deep_view() == rewrite_lines_spec(lines.deep_view(), host_prefix@, hostname@),
{
    let mut out: Vec<String> = Vec::new();
    let mut state = false;
    let mut i: usize = 0;
    while i < lines.len()
        invariant
            0 <= i <= lines@.len(),
            out@.len() == i,
            state == state_before(lines.deep_view(), host_prefix@, i as int),
            forall|k: int| 0 <= k < i ==> out.deep_view()[k] == output_line(
                state_before(lines.deep_view(), host_prefix@, k),
                lines.deep_view()[k],
                hostname@,
            ),
        decreases lines@.len() - i,
    {
        proof {
            assert(lines.deep_view()[i as int] == lines@[i as int]@);
        }
        let pl = process_line(lines[i].as_str(), state, host_prefix, hostname);
        let ghost pre = out.deep_view();
        out.push(pl.1);
        proof {
            assert(out.deep_view() =~~= pre.push(pl.1@));
        }
        state = pl.0;
        i = i + 1;
    }
    proof {
        assert(out.deep_view() =~~= rewrite_lines_spec(lines.deep_view(), host_prefix@, hostname@));
    }
    out
}

proof fn lemma_state_stays_false(lines: Seq<Seq<char>>, prefix: Seq<char>, k: int)
    requires
        0 <= k <= lines.len(),
        forall|i: int| 0 <= i < lines.len() ==> !(is_header_line(#[trigger] lines[i])
            && has_prefix(header_name(lines[i]), prefix)),
    ensures
        !state_before(lines, prefix, k),
    decreases k,
{
    if k > 0 {
        lemma_state_stays_false(lines, prefix, k - 1);
    }
}

/// On a file with no block header whose name starts with `prefix`, the
/// rewrite touches nothing: the output is the input, line for line.
pub proof fn lemma_rewrite_no_match(lines: Seq<Seq<char>>, prefix: Seq<char>, value: Seq<char>)
    requires
        forall|i: int| 0 <= i < lines.len() ==> !(is_header_line(#[trigger] lines[i])
            && has_prefix(header_name(lines[i]), prefix)),
    ensures
        rewrite_lines_spec(lines, prefix, value) == lines,
{
    let out = rewrite_lines_spec(lines, prefix, value);
    assert forall|i: int| 0 <= i < lines.len() implies out[i] == lines[i] by {
        lemma_state_stays_false(lines, prefix, i);
    }
    assert(out =~= lines);
}

/// A rewritten value line is a fixed point: it is still a value line, it is
/// no header line, and rewriting it again with the same value changes
/// nothing.  This needs the value to be one non-blank word.
proof fn lemma_rewritten_fixpoint(line: Seq<char>, value: Seq<char>)
    requires
        is_hostname_line(line),
        value.len() > 0,
        forall|k: int| 0 <= k < value.len() ==> !is_space(#[trigger] value[k]),
    ensures
        !is_header_line(rewritten_line(line, value)),
        is_hostname_line(rewritten_line(line, value)),
        rewritten_line(rewritten_line(line, value), value) == rewritten_line(line, value),
{
    reveal_strlit("Hostname ");
    reveal_strlit("Hostname");
    reveal_strlit("Host");
    lemma_ws_len_chars(line);
    let lws = lws_end(line);
    lemma_tok_len_chars(line.skip(lws));
    lemma_ws_len_chars(line.skip(tok1_end(line)));
    lemma_tok_len_chars(line.skip(ws2_end(line)));
    let kw = "Hostname "@;
    let pre = line.take(lws);
    let rest = line.skip(tok2_end(line));
    let rl = rewritten_line(line, value);
    assert(kw.len() == 9);
    assert(rl == pre + kw + value + rest);
    assert(rl.len() == lws + 9 + value.len() + rest.len());
    // the leading whitespace is kept, then the keyword's first letter stops it
    assert forall|k: int| 0 <= k < lws implies is_space(rl[k]) by {
        assert(rl[k] == line[k]);
    }
    assert(rl[lws] == 'H');
    lemma_ws_len_is(rl, lws);
    assert(lws_end(rl) == lws);
    // the first token of the rewritten line is the keyword
    let t = rl.skip(lws);
    assert forall|j: int| 0 <= j < 8 implies !is_space(t[j]) by {
        assert(t[j] == kw[j]);
    }
    assert(t[8] == kw[8]);
    assert(is_space(t[8]));
    lemma_tok_len_is(t, 8);
    assert(tok1_end(rl) == lws + 8);
    assert(tok1(rl) =~= "Hostname"@);
    // one space, then the value as the second token
    let u = rl.skip(lws + 8);
    assert(u[0] == kw[8]);
    assert(u.len() > 1 && u[1] == value[0]);
    lemma_ws_len_is(u, 1);
    assert(ws2_end(rl) == lws + 9);
    let w = rl.skip(lws + 9);
    assert forall|j: int| 0 <= j < value.len() implies !is_space(w[j]) by {
        assert(w[j] == value[j]);
    }
    if rest.len() > 0 {
        assert(w[value.len() as int] == rest[0]);
        assert(rest[0] == line[tok2_end(line)]);
        assert(tok_len(line.skip(ws2_end(line))) > 0);
        assert(is_space(line[tok2_end(line)]));
    }
    lemma_tok_len_is(w, value.len() as int);
    assert(tok2_end(rl) == lws + 9 + value.len());
    assert(tok2(rl) =~= value);
    // so it is a value line and not a header line
    assert(is_hostname_line(rl));
    assert("Host"@.len() == 4);
    assert(!is_header_line(rl));
    // and rewriting it again reassembles the same segments
    assert(rl.take(lws_end(rl)) =~= pre);
    assert(rl.skip(tok2_end(rl)) =~= rest);
    assert(rewritten_line(rl, value) == rl);
}

proof fn lemma_second_pass_state(
    lines: Seq<Seq<char>>,
    prefix: Seq<char>,
    value: Seq<char>,
    k: int,
)
    requires
        0 <= k <= lines.len(),
        value.len() > 0,
        forall|j: int| 0 <= j < value.len() ==> !is_space(#[trigger] value[j]),
    ensures
        state_before(rewrite_lines_spec(lines, prefix, value), prefix, k) == state_before(
            lines,
            prefix,
            k,
        ),
    decreases k,
{
    let out = rewrite_lines_spec(lines, prefix, value);
    if k > 0 {
        lemma_second_pass_state(lines, prefix, value, k - 1);
        let sb = state_before(lines, prefix, k - 1);
        assert(out[k - 1] == output_line(sb, lines[k - 1], value));
        if is_header_line(lines[k - 1]) {
        } else if sb && is_hostname_line(lines[k - 1]) {
            lemma_rewritten_fixpoint(lines[k - 1], value);
        }
    }
}

/// The rewrite is idempotent: a second pass with the same prefix and value
/// returns the first pass's output unchanged, provided the value is one
/// non-blank word (a blank or empty value would itself be split by the
/// second pass's tokenizing).
pub proof fn lemma_rewrite_idempotent(lines: Seq<Seq<char>>, prefix: Seq<char>, value: Seq<char>)
    requires
        value.len() > 0,
        forall|k: int| 0 <= k < value.len() ==> !is_space(#[trigger] value[k]),
    ensures
        rewrite_lines_spec(rewrite_lines_spec(lines, prefix, value), prefix, value)
            == rewrite_lines_spec(lines, prefix, value),
{
    let out = rewrite_lines_spec(lines, prefix, value);
    let out2 = rewrite_lines_spec(out, prefix, value);
    assert forall|i: int| 0 <= i < lines.len() implies out2[i] == out[i] by {
        lemma_second_pass_state(lines, prefix, value, i);
        let sb = state_before(lines, prefix, i);
        assert(out[i] == output_line(sb, lines[i], value));
        if is_header_line(lines[i]) {
        } else if sb && is_hostname_line(lines[i]) {
            lemma_rewritten_fixpoint(lines[i], value);
        }
    }
    assert(out2 =~= out);
}

} // verus!
