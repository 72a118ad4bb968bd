//! Message formatting: positional placeholders `{0}`, `{1}`, … replaced by
//! the given arguments, one placeholder index at a time in ascending
//! order, each pass replacing every occurrence left to right.

use vstd::prelude::*;
use vstd::string::StrSliceExecFns;
use vstd::string::StringExecFns;

verus! {

/// The views of a sequence of string slices.
pub open spec fn str_views(ts: Seq<&str>) -> Seq<Seq<char>> {
    ts.map_values(|t: &str| t@)
}

/// `pat` occurs in `s` starting exactly at offset `i`.
pub open spec fn char_matches_at(s: Seq<char>, pat: Seq<char>, i: int) -> bool {
    &&& 0 <= i
    &&& i + pat.len() <= s.len()
    &&& forall|k: int| 0 <= k < pat.len() ==> s[i + k] == pat[k]
}

/// The suffix of `s` from offset `i` with every occurrence of `pat`
/// replaced by `rep`, scanning left to right without overlap.
pub open spec fn replace_chars_from(s: Seq<char>, pat: Seq<char>, rep: Seq<char>, i: int) -> Seq<
    char,
>
    recommends
        0 <= i,
        1 <= pat.len(),
    decreases s.len() + 1 - i,
    when 0 <= i && 1 <= pat.len()
{
    if i >= s.len() {
        Seq::empty()
    } else if char_matches_at(s, pat, i) {
        rep + replace_chars_from(s, pat, rep, i + pat.len())
    } else {
        seq![s[i]] + replace_chars_from(s, pat, rep, i + 1)
    }
}

/// `s` with every occurrence of `pat` replaced by `rep`.
pub open spec fn replace_all_chars(s: Seq<char>, pat: Seq<char>, rep: Seq<char>) -> Seq<char> {
    replace_chars_from(s, pat, rep, 0)
}

/// The decimal digit character for `d`.
pub open spec fn digit_char(d: int) -> char {
    if d == 0 {
        '0'
    } else if d == 1 {
        '1'
    } else if d == 2 {
        '2'
    } else if d == 3 {
        '3'
    } else if d == 4 {
        '4'
    } else if d == 5 {
        '5'
    } else if d == 6 {
        '6'
    } else if d == 7 {
        '7'
    } else if d == 8 {
        '8'
    } else {
        '9'
    }
}

/// The decimal digits of `n`, most significant first.
pub open spec fn decimal_chars(n: int) -> Seq<char>
    recommends
        0 <= n,
    decreases n,
{
    if n < 10 {
        seq![digit_char(n)]
    } else {
        decimal_chars(n / 10) + seq![digit_char(n % 10)]
    }
}

/// The placeholder for argument `i`: `{`, its decimal index, `}`.
pub open spec fn placeholder(i: int) -> Seq<char> {
    seq!['{'] + decimal_chars(i) + seq!['}']
}

/// A decimal rendering has at least one digit.
pub proof fn lemma_decimal_len(n: int)
    ensures
        decimal_chars(n).len() >= 1,
    decreases n,
{
    if n >= 10 {
        lemma_decimal_len(n / 10);
    }
}

/// `msg` with the placeholders for arguments `i`, `i + 1`, … replaced in
/// ascending index order by the corresponding argument.  A later pass
/// runs over the outcome of the earlier ones, as sequential replacement
/// does.
pub open spec fn format_spec(msg: Seq<char>, args: Seq<Seq<char>>, i: int) -> Seq<char>
    recommends
        0 <= i,
    decreases args.len() - i,
{
    if i < 0 || i >= args.len() {
        msg
    } else {
        format_spec(replace_all_chars(msg, placeholder(i), args[i]), args, i + 1)
    }
}

/// `msg` with `{0}`, `{1}`, … replaced by the arguments in order.
pub open spec fn format_message_spec(msg: Seq<char>, args: Seq<Seq<char>>) -> Seq<char> {
    format_spec(msg, args, 0)
}

/// Whether `pat` occurs in `s` starting exactly at offset `i`.
fn str_match_at(s: &str, pat: &str, i: usize) -> (r: bool)
    ensures
        r == char_matches_at(s@, pat@, i as int),
{
    let n: usize = s.unicode_len();
    let m: usize = pat.unicode_len();
    if i > n || m > n - i {
        return false;
    }
    let mut k: usize = 0;
    while k < m
        invariant
            0 <= k <= m,
            n == s@.len(),
            m == pat@.len(),
            i + m <= n,
            forall|t: int| 0 <= t < k ==> s@[i + t] == pat@[t],
        decreases m - k,
    {
        if s.get_char(i + k) != pat.get_char(k) {
            return false;
        }
        k = k + 1;
    }
    true
}

/// `s` with every occurrence of `pat` replaced by `rep`, left to right.
fn replace_all(s: &str, pat: &str, rep: &str) -> (r: String)
    requires
        1 <= pat@.len(),
    ensures
        r@ == replace_all_chars(s@, pat@, rep@),
{
    let n: usize = s.unicode_len();
    let m: usize = pat.unicode_len();
    let mut out: String = String::new();
    let mut seg: usize = 0;
    let mut i: usize = 0;
    proof {
        assert(out@ + s@.subrange(0, 0) + replace_chars_from(s@, pat@, rep@, 0)
            =~= replace_chars_from(s@, pat@, rep@, 0));
    }
    while i < n
        invariant
            0 <= seg <= i <= n,
            n == s@.len(),
            m == pat@.len(),
            1 <= m,
            out@ + s@.subrange(seg as int, i as int) + replace_chars_from(s@, pat@, rep@, i as int)
                == replace_chars_from(s@, pat@, rep@, 0),
        decreases n - i,
    {
        let ghost prev = out@;
        if str_match_at(s, pat, i) {
            out.append(s.substring_char(seg, i));
            out.append(rep);
            proof {
                assert(out@ =~= prev + s@.subrange(seg as int, i as int) + rep@);
                assert(out@ + s@.subrange(i + m, i + m as int) + replace_chars_from(
                    s@,
                    pat@,
                    rep@,
                    i + m as int,
                ) =~= prev + s@.subrange(seg as int, i as int) + (rep@ + replace_chars_from(
                    s@,
                    pat@,
                    rep@,
                    i + m as int,
                )));
            }
            i = i + m;
            seg = i;
        } else {
            proof {
                assert(prev + s@.subrange(seg as int, i + 1 as int) + replace_chars_from(
                    s@,
                    pat@,
                    rep@,
                    i + 1 as int,
                ) =~= prev + s@.subrange(seg as int, i as int) + (seq![s@[i as int]]
                    + replace_chars_from(s@, pat@, rep@, i + 1 as int)));
            }
            i = i + 1;
        }
    }
    let ghost prev = out@;
    out.append(s.substring_char(seg, n));
    proof {
        assert(out@ =~= prev + s@.subrange(seg as int, n as int) + replace_chars_from(
            s@,
            pat@,
            rep@,
            n as int,
        ));
    }
    out
}

/// The decimal digit string for `d`.
fn digit_str(d: usize) -> (r: &'static str)
    requires
        d < 10,
    ensures
        r@ == seq![digit_char(d as int)],
{
    proof {
        reveal_strlit("0");
        reveal_strlit("1");
        reveal_strlit("2");
        reveal_strlit("3");
        reveal_strlit("4");
        reveal_strlit("5");
        reveal_strlit("6");
        reveal_strlit("7");
        reveal_strlit("8");
        reveal_strlit("9");
    }
    if d == 0 {
        "0"
    } else if d == 1 {
        "1"
    } else if d == 2 {
        "2"
    } else if d == 3 {
        "3"
    } else if d == 4 {
        "4"
    } else if d == 5 {
        "5"
    } else if d == 6 {
        "6"
    } else if d == 7 {
        "7"
    } else if d == 8 {
        "8"
    } else {
        "9"
    }
}

/// The decimal rendering of `n`.
fn decimal_string(n: usize) -> (r: String)
    ensures
        r@ == decimal_chars(n as int),
    decreases n,
{
    if n < 10 {
        digit_str(n).to_owned()
    } else {
        let mut r: String = decimal_string(n / 10);
        r.append(digit_str(n % 10));
        proof {
            assert(r@ =~= decimal_chars(n as int));
        }
        r
    }
}

/// The placeholder string for argument `i`.
fn build_placeholder(i: usize) -> (r: String)
    ensures
        r@ == placeholder(i as int),
{
    proof {
        reveal_strlit("{");
        reveal_strlit("}");
    }
    let mut r: String = "{".to_owned();
    let digits: String = decimal_string(i);
    r.append(digits.as_str());
    r.append("}");
    proof {
        assert(r@ =~= placeholder(i as int));
    }
    r
}

/// The user-facing message texts and their formatter.
pub struct Messages;

impl Messages {
    /// Format `message` by substituting `{0}`, `{1}`, … with `args` in
    /// ascending index order.
    pub fn format_message(message: &str, args: &[&str]) -> (r: String)
        ensures
            r@ == format_message_spec(message@, str_views(args@)),
    {
        let mut msg: String = message.to_owned();
        let mut i: usize = 0;
        while i < args.len()
            invariant
                0 <= i <= args@.len(),
                format_spec(msg@, str_views(args@), i as int) == format_spec(
                    message@,
                    str_views(args@),
                    0,
                ),
            decreases args@.len() - i,
        {
            let ph: String = build_placeholder(i);
            proof {
                lemma_decimal_len(i as int);
            }
            let rep: &str = args[i];
            proof {
                assert(rep@ == str_views(args@)[i as int]);
            }
            let newmsg: String = replace_all(msg.as_str(), ph.as_str(), rep);
            msg = newmsg;
            i = i + 1;
        }
        msg
    }
}

} // verus!
