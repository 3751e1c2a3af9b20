use vstd::prelude::*;

use crate::errors::SyncError;
use crate::text::{all_digits, dec_spec, dec_val, digit_val, is_digit, lemma_dec_val_take_le,
    lemma_dec_val_take_succ, usize_to_string};

verus! {

/// One entry handed to the filter: the label prefixed with its original
/// index, so the index survives the filter's display transformation.
pub open spec fn entry_spec(i: int, label: Seq<char>) -> Seq<char> {
    dec_spec(i as nat) + seq![' '] + label
}

/// The filter's input built from the first `k` labels: entries separated by
/// nul characters, with no separator before the first.
pub open spec fn input_upto(labels: Seq<Seq<char>>, k: int) -> Seq<char>
    decreases k,
{
    if k <= 0 {
        Seq::empty()
    } else if k == 1 {
        entry_spec(0, labels[0])
    } else {
        input_upto(labels, k - 1) + seq!['\u{0}'] + entry_spec(k - 1, labels[k - 1])
    }
}

/// The whole stream written to the filtering subprocess.
pub open spec fn choice_input_spec(labels: Seq<Seq<char>>) -> Seq<char> {
    input_upto(labels, labels.len() as int)
}

/// Formats the labeled list for the filtering subprocess.  The caller feeds
/// the result to the subprocess and drains its output concurrently.
pub fn choice_input(labels: &Vec<String>) -> (r: String)
    ensures
        r@ == choice_input_spec(labels.deep_view()),
{
    proof {
        reveal_strlit(" ");
        reveal_strlit("\u{0}");
    }
    let mut r = String::new();
    let n = labels.len();
    let mut i: usize = 0;
    while i < n
        invariant
            0 <= i <= n,
            n == labels@.len(),
            r@ == input_upto(labels.deep_view(), i as int),
        decreases n - i,
    {
        proof {
            reveal_strlit(" ");
            reveal_strlit("\u{0}");
        }
        if i > 0 {
            r.append("\u{0}");
        }
        let num = usize_to_string(i);
        r.append(num.as_str());
        r.append(" ");
        r.append(labels[i].as_str());
        proof {
            assert(labels.deep_view()[i as int] == labels@[i as int]@);
            assert(r@ =~= input_upto(labels.deep_view(), i + 1));
        }
        i = i + 1;
    }
    r
}

/// How many characters come before the first `stop` (the whole length when
/// `stop` does not occur).
pub open spec fn until_char_len(s: Seq<char>, stop: char) -> nat
    decreases s.len(),
{
    if s.len() > 0 && s.first() != stop {
        (1 + until_char_len(s.drop_first(), stop)) as nat
    } else {
        0
    }
}

pub proof fn lemma_until_char_is(s: Seq<char>, stop: char, i: int)
    requires
        0 <= i <= s.len(),
        forall|k: int| 0 <= k < i ==> s[k] != stop,
        i < s.len() ==> s[i] == stop,
    ensures
        until_char_len(s, stop) == i,
    decreases s.len(),
{
    if i == 0 {
        if s.len() > 0 {
            assert(s.first() == s[0]);
        }
    } else {
        assert(s[0] != stop);
        let t = s.drop_first();
        assert forall|k: int| 0 <= k < i - 1 implies t[k] != stop by {
            assert(t[k] == s[k + 1]);
        }
        if i - 1 < t.len() {
            assert(t[i - 1] == s[i]);
        }
        lemma_until_char_is(t, stop, i - 1);
    }
}

/// The leading index field of the filter's output: the first record is what
/// comes before the first nul, and the field is that record's part before
/// its first space.
pub open spec fn index_field(s: Seq<char>) -> Seq<char> {
    let rec = s.take(until_char_len(s, '\u{0}') as int);
    rec.take(until_char_len(rec, ' ') as int)
}

fn is_digit_char(c: char) -> (r: bool)
    ensures
        r == is_digit(c),
{
    c == '0' || c == '1' || c == '2' || c == '3' || c == '4' || c == '5' || c == '6' || c == '7'
        || c == '8' || c == '9'
}

fn digit_of(c: char) -> (r: usize)
    requires
        is_digit(c),
    ensures
        r as nat == digit_val(c),
        r < 10,
{
    if c == '0' {
        0
    } else if c == '1' {
        1
    } else if c == '2' {
        2
    } else if c == '3' {
        3
    } else if c == '4' {
        4
    } else if c == '5' {
        5
    } else if c == '6' {
        6
    } else if c == '7' {
        7
    } else if c == '8' {
        8
    } else {
        9
    }
}

/// Recovers the chosen index from the filter's raw output.  Empty output is
/// the user aborting the selection, reported as `NoSelection`; a leading
/// field that is not a decimal index below `count` is reported as
/// `MalformedChoice` carrying that field.
pub fn parse_choice(output: &str, count: usize) -> (r: Result<usize, SyncError>)
    ensures
        output@.len() == 0 ==> r == Err::<usize, SyncError>(SyncError::NoSelection),
        output@.len() > 0 ==> {
            let f = index_field(output@);
            if f.len() > 0 && all_digits(f) && dec_val(f) < count {
                r matches Ok(i) && i as nat == dec_val(f)
            } else {
                r matches Err(e) && (e matches SyncError::MalformedChoice { field } && field@
                    == f)
            }
        },
{
    let n = output.unicode_len();
    if n == 0 {
        return Err(SyncError::NoSelection);
    }
    let mut e: usize = 0;
    while e < n && output.get_char(e) != '\u{0}'
        invariant
            0 <= e <= n,
            n == output@.len(),
            forall|k: int| 0 <= k < e ==> output@[k] != '\u{0}',
        decreases n - e,
    {
        e = e + 1;
    }
    proof {
        lemma_until_char_is(output@, '\u{0}', e as int);
    }
    let ghost rec = output@.take(e as int);
    let mut m: usize = 0;
    while m < e && output.get_char(m) != ' '
        invariant
            0 <= m <= e <= n,
            n == output@.len(),
            forall|k: int| 0 <= k < m ==> output@[k] != ' ',
        decreases e - m,
    {
        m = m + 1;
    }
    proof {
        assert forall|k: int| 0 <= k < m implies rec[k] != ' ' by {
            assert(rec[k] == output@[k]);
        }
        if (m as int) < rec.len() {
            assert(rec[m as int] == output@[m as int]);
        }
        lemma_until_char_is(rec, ' ', m as int);
        assert(index_field(output@) =~= output@.take(m as int));
    }
    let ghost f = index_field(output@);
    if m == 0 {
        let field = output.substring_char(0, m).to_owned();
        return Err(SyncError::MalformedChoice { field });
    }
    let mut acc: usize = 0;
    let mut k: usize = 0;
    while k < m
        invariant
            0 <= k <= m <= n,
            n == output@.len(),
            f == index_field(output@),
            f =~= output@.take(m as int),
            m > 0,
            forall|j: int| 0 <= j < k ==> is_digit(output@[j]),
            acc as nat == dec_val(output@.take(k as int)),
        decreases m - k,
    {
        let c = output.get_char(k);
        if !is_digit_char(c) {
            proof {
                assert(f[k as int] == output@[k as int]);
                assert(!all_digits(f));
            }
            let field = output.substring_char(0, m).to_owned();
            return Err(SyncError::MalformedChoice { field });
        }
        let d = digit_of(c);
        if acc > (usize::MAX - d) / 10 {
            proof {
                let mx = usize::MAX as int;
                let dd = d as int;
                let q = (mx - dd) / 10;
                assert(mx - dd == 10 * q + (mx - dd) % 10);
                assert(0 <= (mx - dd) % 10 < 10);
                assert(acc * 10 + d > usize::MAX);
                lemma_dec_val_take_succ(output@, k as int);
                assert(dec_val(output@.take(k + 1)) > usize::MAX);
                assert(output@.take(m as int).take(k + 1) =~= output@.take(k + 1));
                lemma_dec_val_take_le(output@.take(m as int), k + 1);
                assert(dec_val(f) > usize::MAX);
            }
            let field = output.substring_char(0, m).to_owned();
            return Err(SyncError::MalformedChoice { field });
        }
        proof {
            lemma_dec_val_take_succ(output@, k as int);
        }
        acc = acc * 10 + d;
        k = k + 1;
    }
    proof {
        assert(f =~= output@.take(m as int));
        assert(all_digits(f));
    }
    if acc < count {
        Ok(acc)
    } else {
        let field = output.substring_char(0, m).to_owned();
        Err(SyncError::MalformedChoice { field })
    }
}

/// The line shown for one machine in the interactive chooser: its name, its
/// identifier, and its state in brackets.
pub fn format_vm_label(name: &str, id: &str, state: &str) -> (r: String)
    ensures
        r@ == name@ + seq![' '] + id@ + seq![' ', '['] + state@ + seq![']'],
{
    proof {
        reveal_strlit(" ");
        reveal_strlit(" [");
        reveal_strlit("]");
    }
    let r = name.to_owned().concat(" ").concat(id).concat(" [").concat(state).concat("]");
    proof {
        assert(r@ =~= name@ + seq![' '] + id@ + seq![' ', '['] + state@ + seq![']']);
    }
    r
}

} // verus!
