use vstd::prelude::*;

verus! {

/// The characters the trimming and tokenizing rules treat as blank.
pub open spec fn is_space(c: char) -> bool {
    c == ' ' || c == '\t' || c == '\n' || c == '\r' || c == '\u{b}' || c == '\u{c}'
}

/// Length of the leading whitespace run of `s`.
pub open spec fn ws_len(s: Seq<char>) -> nat
    decreases s.len(),
{
    if s.len() > 0 && is_space(s.first()) {
        (1 + ws_len(s.drop_first())) as nat
    } else {
        0
    }
}

/// Length of the leading non-whitespace run (the first token) of `s`.
pub open spec fn tok_len(s: Seq<char>) -> nat
    decreases s.len(),
{
    if s.len() > 0 && !is_space(s.first()) {
        (1 + tok_len(s.drop_first())) as nat
    } else {
        0
    }
}

/// Length of the trailing whitespace run of `s`.
pub open spec fn ws_end_len(s: Seq<char>) -> nat
    decreases s.len(),
{
    if s.len() > 0 && is_space(s.last()) {
        (1 + ws_end_len(s.drop_last())) as nat
    } else {
        0
    }
}

/// `s` with leading and trailing whitespace removed.
pub open spec fn trim_spec(s: Seq<char>) -> Seq<char> {
    if ws_len(s) == s.len() {
        Seq::empty()
    } else {
        s.subrange(ws_len(s) as int, s.len() - ws_end_len(s))
    }
}

/// `p` is an initial segment of `s`.
pub open spec fn has_prefix(s: Seq<char>, p: Seq<char>) -> bool {
    p.len() <= s.len() && s.take(p.len() as int) == p
}

pub proof fn lemma_ws_len_is(s: Seq<char>, i: int)
    requires
        0 <= i <= s.len(),
        forall|k: int| 0 <= k < i ==> is_space(s[k]),
        i < s.len() ==> !is_space(s[i]),
    ensures
        ws_len(s) == i,
    decreases s.len(),
{
    if i == 0 {
        if s.len() > 0 {
            assert(s.first() == s[0]);
        }
    } else {
        assert(is_space(s[0]));
        let t = s.drop_first();
        assert forall|k: int| 0 <= k < i - 1 implies is_space(t[k]) by {
            assert(t[k] == s[k + 1]);
        }
        if i - 1 < t.len() {
            assert(t[i - 1] == s[i]);
        }
        lemma_ws_len_is(t, i - 1);
    }
}

pub proof fn lemma_tok_len_is(s: Seq<char>, i: int)
    requires
        0 <= i <= s.len(),
        forall|k: int| 0 <= k < i ==> !is_space(s[k]),
        i < s.len() ==> is_space(s[i]),
    ensures
        tok_len(s) == i,
    decreases s.len(),
{
    if i == 0 {
        if s.len() > 0 {
            assert(s.first() == s[0]);
        }
    } else {
        assert(!is_space(s[0]));
        let t = s.drop_first();
        assert forall|k: int| 0 <= k < i - 1 implies !is_space(t[k]) by {
            assert(t[k] == s[k + 1]);
        }
        if i - 1 < t.len() {
            assert(t[i - 1] == s[i]);
        }
        lemma_tok_len_is(t, i - 1);
    }
}

pub proof fn lemma_ws_len_chars(s: Seq<char>)
    ensures
        ws_len(s) <= s.len(),
        forall|k: int| 0 <= k < ws_len(s) ==> is_space(s[k]),
        ws_len(s) < s.len() ==> !is_space(s[ws_len(s) as int]),
    decreases s.len(),
{
    if s.len() > 0 && is_space(s.first()) {
        let t = s.drop_first();
        lemma_ws_len_chars(t);
        assert forall|k: int| 0 <= k < ws_len(s) implies is_space(s[k]) by {
            if k > 0 {
                assert(t[k - 1] == s[k]);
            }
        }
        if ws_len(s) < s.len() {
            assert(t[ws_len(t) as int] == s[ws_len(s) as int]);
        }
    } else {
        if s.len() > 0 {
            assert(s.first() == s[0]);
        }
    }
}

pub proof fn lemma_tok_len_chars(s: Seq<char>)
    ensures
        tok_len(s) <= s.len(),
        forall|k: int| 0 <= k < tok_len(s) ==> !is_space(s[k]),
        tok_len(s) < s.len() ==> is_space(s[tok_len(s) as int]),
    decreases s.len(),
{
    if s.len() > 0 && !is_space(s.first()) {
        let t = s.drop_first();
        lemma_tok_len_chars(t);
        assert forall|k: int| 0 <= k < tok_len(s) implies !is_space(s[k]) by {
            if k > 0 {
                assert(t[k - 1] == s[k]);
            }
        }
        if tok_len(s) < s.len() {
            assert(t[tok_len(t) as int] == s[tok_len(s) as int]);
        }
    } else {
        if s.len() > 0 {
            assert(s.first() == s[0]);
        }
    }
}

pub proof fn lemma_ws_end_len_is(s: Seq<char>, j: int)
    requires
        0 <= j <= s.len(),
        forall|k: int| s.len() - j <= k < s.len() ==> is_space(s[k]),
        j < s.len() ==> !is_space(s[s.len() - j - 1]),
    ensures
        ws_end_len(s) == j,
    decreases s.len(),
{
    if j == 0 {
        if s.len() > 0 {
            assert(s.last() == s[s.len() - 1]);
        }
    } else {
        assert(is_space(s[s.len() - 1]));
        let t = s.drop_last();
        assert forall|k: int| t.len() - (j - 1) <= k < t.len() implies is_space(t[k]) by {
            assert(t[k] == s[k]);
        }
        if j - 1 < t.len() {
            assert(t[t.len() - (j - 1) - 1] == s[s.len() - j - 1]);
        }
        lemma_ws_end_len_is(t, j - 1);
    }
}

pub fn is_space_char(c: char) -> (r: bool)
    ensures
        r == is_space(c),
{
    c == ' ' || c == '\t' || c == '\n' || c == '\r' || c == '\u{b}' || c == '\u{c}'
}

/// Removes leading and trailing whitespace, as a marker file's single line is
/// read.
pub fn trim(s: &str) -> (r: String)
    ensures
        r@ == trim_spec(s@),
{
    let n = s.unicode_len();
    let mut i: usize = 0;
    while i < n && is_space_char(s.get_char(i))
        invariant
            0 <= i <= n,
            n == s@.len(),
            forall|k: int| 0 <= k < i ==> is_space(s@[k]),
        decreases n - i,
    {
        i = i + 1;
    }
    if i == n {
        proof {
            lemma_ws_len_is(s@, n as int);
        }
        String::new()
    } else {
        let mut j: usize = n - 1;
        while j > i && is_space_char(s.get_char(j))
            invariant
                i <= j < n,
                n == s@.len(),
                !is_space(s@[i as int]),
                forall|k: int| j < k < n ==> is_space(s@[k]),
            decreases j,
        {
            j = j - 1;
        }
        proof {
            lemma_ws_len_is(s@, i as int);
            lemma_ws_end_len_is(s@, n - 1 - j);
        }
        let r = s.substring_char(i, j + 1);
        r.to_owned()
    }
}

/// Character-for-character string equality.
pub fn str_eq(a: &str, b: &str) -> (r: bool)
    ensures
        r == (a@ == b@),
{
    let n = a.unicode_len();
    if n != b.unicode_len() {
        return false;
    }
    let mut i: usize = 0;
    while i < n
        invariant
            0 <= i <= n,
            n == a@.len(),
            n == b@.len(),
            forall|k: int| 0 <= k < i ==> a@[k] == b@[k],
        decreases n - i,
    {
        if a.get_char(i) != b.get_char(i) {
            return false;
        }
        i = i + 1;
    }
    proof {
        assert(a@ =~= b@);
    }
    true
}

/// Does `s` start with `p`, character for character?
pub fn str_has_prefix(s: &str, p: &str) -> (r: bool)
    ensures
        r == has_prefix(s@, p@),
{
    let np = p.unicode_len();
    if np > s.unicode_len() {
        return false;
    }
    let mut i: usize = 0;
    while i < np
        invariant
            0 <= i <= np,
            np == p@.len(),
            np <= s@.len(),
            forall|k: int| 0 <= k < i ==> s@[k] == p@[k],
        decreases np - i,
    {
        if s.get_char(i) != p.get_char(i) {
            return false;
        }
        i = i + 1;
    }
    proof {
        assert(s@.take(p@.len() as int) =~= p@);
    }
    true
}

pub open spec fn is_digit(c: char) -> bool {
    c == '0' || c == '1' || c == '2' || c == '3' || c == '4' || c == '5' || c == '6' || c == '7'
        || c == '8' || c == '9'
}

pub open spec fn digit_val(c: char) -> nat {
    if c == '0' {
        0
    } else if c == '1' {
        1
    } else if c == '2' {
        2
    } else if c == '3' {
        3
    } else if c == '4' {
        4
    } else if c == '5' {
        5
    } else if c == '6' {
        6
    } else if c == '7' {
        7
    } else if c == '8' {
        8
    } else {
        9
    }
}

pub open spec fn digit_char(d: nat) -> char {
    if d == 0 {
        '0'
    } else if d == 1 {
        '1'
    } else if d == 2 {
        '2'
    } else if d == 3 {
        '3'
    } else if d == 4 {
        '4'
    } else if d == 5 {
        '5'
    } else if d == 6 {
        '6'
    } else if d == 7 {
        '7'
    } else if d == 8 {
        '8'
    } else {
        '9'
    }
}

/// The decimal rendering of `n`, most significant digit first.
pub open spec fn dec_spec(n: nat) -> Seq<char>
    decreases n,
{
    if n < 10 {
        seq![digit_char(n)]
    } else {
        dec_spec(n / 10).push(digit_char(n % 10))
    }
}

/// The numeric value of a digit string, read in decimal.
pub open spec fn dec_val(s: Seq<char>) -> nat
    decreases s.len(),
{
    if s.len() == 0 {
        0
    } else {
        dec_val(s.drop_last()) * 10 + digit_val(s.last())
    }
}

pub open spec fn all_digits(s: Seq<char>) -> bool {
    forall|k: int| 0 <= k < s.len() ==> is_digit(s[k])
}

pub proof fn lemma_dec_val_take_succ(s: Seq<char>, k: int)
    requires
        0 <= k < s.len(),
    ensures
        dec_val(s.take(k + 1)) == dec_val(s.take(k)) * 10 + digit_val(s[k]),
{
    assert(s.take(k + 1).drop_last() =~= s.take(k));
    assert(s.take(k + 1).last() == s[k]);
}

pub proof fn lemma_dec_val_take_le(s: Seq<char>, k: int)
    requires
        0 <= k <= s.len(),
    ensures
        dec_val(s.take(k)) <= dec_val(s),
    decreases s.len() - k,
{
    if k == s.len() {
        assert(s.take(k) =~= s);
    } else {
        lemma_dec_val_take_succ(s, k);
        lemma_dec_val_take_le(s, k + 1);
    }
}

fn digit_str(d: usize) -> (r: &'static str)
    requires
        d < 10,
    ensures
        r@ == seq![digit_char(d as nat)],
{
    if d == 0 {
        proof {
            reveal_strlit("0");
        }
        assert("0"@ =~= seq![digit_char(0)]);
        "0"
    } else if d == 1 {
        proof {
            reveal_strlit("1");
        }
        assert("1"@ =~= seq![digit_char(1)]);
        "1"
    } else if d == 2 {
        proof {
            reveal_strlit("2");
        }
        assert("2"@ =~= seq![digit_char(2)]);
        "2"
    } else if d == 3 {
        proof {
            reveal_strlit("3");
        }
        assert("3"@ =~= seq![digit_char(3)]);
        "3"
    } else if d == 4 {
        proof {
            reveal_strlit("4");
        }
        assert("4"@ =~= seq![digit_char(4)]);
        "4"
    } else if d == 5 {
        proof {
            reveal_strlit("5");
        }
        assert("5"@ =~= seq![digit_char(5)]);
        "5"
    } else if d == 6 {
        proof {
            reveal_strlit("6");
        }
        assert("6"@ =~= seq![digit_char(6)]);
        "6"
    } else if d == 7 {
        proof {
            reveal_strlit("7");
        }
        assert("7"@ =~= seq![digit_char(7)]);
        "7"
    } else if d == 8 {
        proof {
            reveal_strlit("8");
        }
        assert("8"@ =~= seq![digit_char(8)]);
        "8"
    } else {
        proof {
            reveal_strlit("9");
        }
        assert("9"@ =~= seq![digit_char(9)]);
        "9"
    }
}

/// Renders `n` in decimal, as the chooser writes an entry's index.
pub fn usize_to_string(n: usize) -> (r: String)
    ensures
        r@ == dec_spec(n as nat),
    decreases n,
{
    if n < 10 {
        String::from_str(digit_str(n))
    } else {
        let q = usize_to_string(n / 10);
        let r = q.concat(digit_str(n % 10));
        proof {
            assert(r@ =~= dec_spec((n / 10) as nat).push(digit_char((n % 10) as nat)));
        }
        r
    }
}

} // verus!
