//! Text primitives: string equality, decimal rendering of process ids and
//! intervals, and decimal parsing of a stored process id.

use vstd::prelude::*;
use vstd::string::*;

verus! {

/// The whitespace characters recognized around a stored process id.
pub open spec fn is_space_char(c: char) -> bool {
    c == ' ' || c == '\t' || c == '\n' || c == '\r'
}

/// Exec test for `is_space_char`.
pub fn is_space(c: char) -> (r: bool)
    ensures
        r == is_space_char(c),
{
    c == ' ' || c == '\t' || c == '\n' || c == '\r'
}

/// A decimal digit character.
pub open spec fn is_digit_char(c: char) -> bool {
    c == '0' || c == '1' || c == '2' || c == '3' || c == '4' || c == '5' || c == '6' || c == '7'
        || c == '8' || c == '9'
}

/// The numeric value of a decimal digit character; zero elsewhere.
pub open spec fn digit_val(c: char) -> nat {
    if c == '1' {
        1
    } else if c == '2' {
        2
    } else if c == '3' {
        3
    } else if c == '4' {
        4
    } else if c == '5' {
        5
    } else if c == '6' {
        6
    } else if c == '7' {
        7
    } else if c == '8' {
        8
    } else if c == '9' {
        9
    } else {
        0
    }
}

/// The decimal digit character for a value below ten; '0' elsewhere.
pub open spec fn digit_char(d: nat) -> char {
    if d == 1 {
        '1'
    } else if d == 2 {
        '2'
    } else if d == 3 {
        '3'
    } else if d == 4 {
        '4'
    } else if d == 5 {
        '5'
    } else if d == 6 {
        '6'
    } else if d == 7 {
        '7'
    } else if d == 8 {
        '8'
    } else if d == 9 {
        '9'
    } else {
        '0'
    }
}

/// The canonical decimal rendering of a natural number: no sign, no leading
/// zeros except for the number zero itself.
pub open spec fn dec_render(n: nat) -> Seq<char>
    decreases n,
{
    if n < 10 {
        seq![digit_char(n)]
    } else {
        dec_render(n / 10) + seq![digit_char(n % 10)]
    }
}

/// String equality, decided character by character.
pub fn str_eq(a: &str, b: &str) -> (r: bool)
    ensures
        r == (a@ == b@),
{
    let alen = a.unicode_len();
    let blen = b.unicode_len();
    if alen != blen {
        proof {
            assert(a@ != b@) by {
                if a@ == b@ {
                    assert(a@.len() == b@.len());
                }
            }
        }
        return false;
    }
    let mut i: usize = 0;
    while i < alen
        invariant
            alen == a@.len(),
            alen == b@.len(),
            i <= alen,
            forall|j: int| 0 <= j < i ==> a@[j] == b@[j],
        decreases alen - i,
    {
        let ca = a.get_char(i);
        let cb = b.get_char(i);
        if ca != cb {
            return false;
        }
        i = i + 1;
    }
    proof {
        assert(a@ =~= b@);
    }
    true
}

/// The one-character string for a decimal digit.
fn digit_str(d: u64) -> (r: &'static str)
    requires
        d < 10,
    ensures
        r@ == seq![digit_char(d as nat)],
{
    let r: &'static str = if d == 0 {
        "0"
    } else if d == 1 {
        "1"
    } else if d == 2 {
        "2"
    } else if d == 3 {
        "3"
    } else if d == 4 {
        "4"
    } else if d == 5 {
        "5"
    } else if d == 6 {
        "6"
    } else if d == 7 {
        "7"
    } else if d == 8 {
        "8"
    } else {
        "9"
    };
    proof {
        reveal_strlit("0");
        reveal_strlit("1");
        reveal_strlit("2");
        reveal_strlit("3");
        reveal_strlit("4");
        reveal_strlit("5");
        reveal_strlit("6");
        reveal_strlit("7");
        reveal_strlit("8");
        reveal_strlit("9");
        assert(r@ =~= seq![digit_char(d as nat)]);
    }
    r
}

/// Renders a number in decimal, as stored in a watcher record and as passed
/// on a spawned watcher's command line.
pub fn u64_to_string(n: u64) -> (r: String)
    ensures
        r@ == dec_render(n as nat),
    decreases n,
{
    if n < 10 {
        let r = digit_str(n).to_owned();
        proof {
            assert(r@ =~= dec_render(n as nat));
        }
        r
    } else {
        let mut s = u64_to_string(n / 10);
        s.append(digit_str(n % 10));
        proof {
            assert(s@ =~= dec_render(n as nat));
        }
        s
    }
}

/// A sequence with its leading whitespace removed.
pub open spec fn drop_leading_spaces(s: Seq<char>) -> Seq<char>
    decreases s.len(),
{
    if s.len() > 0 && is_space_char(s[0]) {
        drop_leading_spaces(s.subrange(1, s.len() as int))
    } else {
        s
    }
}

/// A sequence with its trailing whitespace removed.
pub open spec fn drop_trailing_spaces(s: Seq<char>) -> Seq<char>
    decreases s.len(),
{
    if s.len() > 0 && is_space_char(s[s.len() - 1]) {
        drop_trailing_spaces(s.subrange(0, s.len() - 1))
    } else {
        s
    }
}

/// A sequence with whitespace removed from both ends.
pub open spec fn trim_spaces(s: Seq<char>) -> Seq<char> {
    drop_trailing_spaces(drop_leading_spaces(s))
}

/// Every character is a decimal digit.
pub open spec fn all_digits(s: Seq<char>) -> bool {
    forall|i: int| 0 <= i < s.len() ==> is_digit_char(s[i])
}

/// The value of a sequence of decimal digits, most significant first.
pub open spec fn dec_val(s: Seq<char>) -> nat
    decreases s.len(),
{
    if s.len() == 0 {
        0
    } else {
        dec_val(s.drop_last()) * 10 + digit_val(s.last())
    }
}

/// What a stored process id parses to: the content trimmed of surrounding
/// whitespace must be a nonempty run of decimal digits whose value fits.
pub open spec fn spec_parse_pid(s: Seq<char>) -> Option<u32> {
    let t = trim_spaces(s);
    if t.len() > 0 && all_digits(t) && dec_val(t) <= u32::MAX {
        Some(dec_val(t) as u32)
    } else {
        None
    }
}

proof fn lemma_drop_leading_at(s: Seq<char>, k: int)
    requires
        0 <= k <= s.len(),
        forall|j: int| 0 <= j < k ==> is_space_char(s[j]),
        k == s.len() || !is_space_char(s[k]),
    ensures
        drop_leading_spaces(s) == s.subrange(k, s.len() as int),
    decreases k,
{
    if k == 0 {
        assert(s.subrange(0, s.len() as int) =~= s);
    } else {
        let s1 = s.subrange(1, s.len() as int);
        lemma_drop_leading_at(s1, k - 1);
        assert(s1.subrange(k - 1, s1.len() as int) =~= s.subrange(k, s.len() as int));
    }
}

proof fn lemma_drop_trailing_at(s: Seq<char>, k: int)
    requires
        0 <= k <= s.len(),
        forall|j: int| k <= j < s.len() ==> is_space_char(s[j]),
        k == 0 || !is_space_char(s[k - 1]),
    ensures
        drop_trailing_spaces(s) == s.subrange(0, k),
    decreases s.len() - k,
{
    if k == s.len() {
        assert(s.subrange(0, s.len() as int) =~= s);
    } else {
        let s1 = s.subrange(0, s.len() - 1);
        lemma_drop_trailing_at(s1, k);
        assert(s1.subrange(0, k) =~= s.subrange(0, k));
    }
}

/// Growing a digit run can only grow its value.
proof fn lemma_dec_val_prefix(s: Seq<char>, k: int)
    requires
        0 <= k <= s.len(),
    ensures
        dec_val(s) >= dec_val(s.subrange(0, k)),
    decreases s.len(),
{
    if k < s.len() {
        let s1 = s.drop_last();
        assert(s1.subrange(0, k) =~= s.subrange(0, k));
        lemma_dec_val_prefix(s1, k);
        assert(dec_val(s1) * 10 >= dec_val(s1)) by (nonlinear_arith);
    } else {
        assert(s.subrange(0, k) =~= s);
    }
}

/// Parses a stored process id: optional surrounding whitespace around a
/// nonempty run of decimal digits whose value fits in 32 bits.
pub fn parse_pid(s: &str) -> (r: Option<u32>)
    ensures
        r == spec_parse_pid(s@),
{
    let len = s.unicode_len();
    let mut lo: usize = 0;
    while lo < len && is_space(s.get_char(lo))
        invariant
            len == s@.len(),
            lo <= len,
            forall|j: int| 0 <= j < lo ==> is_space_char(s@[j]),
        decreases len - lo,
    {
        lo = lo + 1;
    }
    let mut hi: usize = len;
    while hi > lo && is_space(s.get_char(hi - 1))
        invariant
            len == s@.len(),
            lo <= hi <= len,
            forall|j: int| 0 <= j < lo ==> is_space_char(s@[j]),
            forall|j: int| hi <= j < len ==> is_space_char(s@[j]),
        decreases hi,
    {
        hi = hi - 1;
    }
    proof {
        lemma_drop_leading_at(s@, lo as int);
        let rest = s@.subrange(lo as int, len as int);
        lemma_drop_trailing_at(rest, hi - lo);
        assert(rest.subrange(0, hi - lo) =~= s@.subrange(lo as int, hi as int));
        assert(trim_spaces(s@) == s@.subrange(lo as int, hi as int));
    }
    let ghost t = s@.subrange(lo as int, hi as int);
    if lo == hi {
        return None;
    }
    let mut acc: u64 = 0;
    let mut i: usize = lo;
    while i < hi
        invariant
            len == s@.len(),
            lo <= i <= hi <= len,
            t == s@.subrange(lo as int, hi as int),
            trim_spaces(s@) == t,
            lo < hi,
            forall|j: int| lo <= j < i ==> is_digit_char(s@[j]),
            acc == dec_val(s@.subrange(lo as int, i as int)),
            acc <= u32::MAX,
        decreases hi - i,
    {
        let c = s.get_char(i);
        let d: u64 = match c {
            '0' => 0,
            '1' => 1,
            '2' => 2,
            '3' => 3,
            '4' => 4,
            '5' => 5,
            '6' => 6,
            '7' => 7,
            '8' => 8,
            '9' => 9,
            _ => {
                proof {
                    assert(t[i - lo] == s@[i as int]);
                    assert(!is_digit_char(t[i - lo]));
                    assert(!all_digits(t));
                }
                return None;
            },
        };
        let next: u64 = acc * 10 + d;
        proof {
            let p = s@.subrange(lo as int, i as int);
            let p1 = s@.subrange(lo as int, i + 1);
            assert(p1.drop_last() =~= p);
            assert(p1.last() == s@[i as int]);
            assert(digit_val(s@[i as int]) == d);
            assert(dec_val(p1) == next);
        }
        if next > 0xffff_ffff {
            proof {
                let p1 = s@.subrange(lo as int, i + 1);
                assert(p1 =~= t.subrange(0, i + 1 - lo));
                lemma_dec_val_prefix(t, i + 1 - lo);
                assert(dec_val(t) > u32::MAX);
            }
            return None;
        }
        acc = next;
        i = i + 1;
    }
    proof {
        assert(s@.subrange(lo as int, i as int) =~= t);
        assert(forall|j: int| 0 <= j < t.len() ==> t[j] == s@[lo + j]);
        assert(all_digits(t));
    }
    Some(acc as u32)
}

proof fn lemma_dec_render_digits(n: nat)
    ensures
        dec_render(n).len() > 0,
        all_digits(dec_render(n)),
    decreases n,
{
    if n < 10 {
        assert(is_digit_char(digit_char(n)));
    } else {
        lemma_dec_render_digits(n / 10);
        let r = dec_render(n / 10) + seq![digit_char(n % 10)];
        assert(is_digit_char(digit_char(n % 10)));
        assert forall|i: int| 0 <= i < r.len() implies is_digit_char(r[i]) by {
            if i < dec_render(n / 10).len() {
                assert(r[i] == dec_render(n / 10)[i]);
            }
        }
    }
}

proof fn lemma_dec_val_render(n: nat)
    ensures
        dec_val(dec_render(n)) == n,
    decreases n,
{
    if n < 10 {
        assert(dec_render(n) =~= seq![digit_char(n)]);
        assert(seq![digit_char(n)].drop_last() =~= Seq::<char>::empty());
        assert(dec_val(Seq::<char>::empty()) == 0);
        assert(dec_val(seq![digit_char(n)]) == digit_val(digit_char(n)));
        assert(digit_val(digit_char(n)) == n);
    } else {
        lemma_dec_val_render(n / 10);
        lemma_dec_render_digits(n / 10);
        let r = dec_render(n);
        assert(r == dec_render(n / 10) + seq![digit_char(n % 10)]);
        assert(r.len() > 0);
        assert(r.drop_last() =~= dec_render(n / 10));
        assert(r.last() == digit_char(n % 10));
        assert(dec_val(r) == dec_val(r.drop_last()) * 10 + digit_val(r.last()));
        assert(dec_val(r.drop_last()) == n / 10);
        assert(digit_val(digit_char(n % 10)) == n % 10);
        vstd::arithmetic::div_mod::lemma_fundamental_div_mod(n as int, 10);
        assert(n == (n / 10) * 10 + n % 10);
    }
}

/// The round trip of a stored process id: the decimal text that `create`
/// renders parses back to exactly the same id.
pub proof fn lemma_pid_text_round_trip(pid: u32)
    ensures
        spec_parse_pid(dec_render(pid as nat)) == Some(pid),
{
    let r = dec_render(pid as nat);
    lemma_dec_render_digits(pid as nat);
    lemma_dec_val_render(pid as nat);
    assert(!is_space_char(r[0]));
    assert(!is_space_char(r[r.len() - 1]));
    assert(drop_leading_spaces(r) == r);
    assert(drop_trailing_spaces(r) == r);
}

/// One step per character: whitespace closes the current token (if any),
/// every other character extends it; a trailing token is closed at the end.
pub open spec fn split_ws_rec(s: Seq<char>, cur: Seq<char>, acc: Seq<Seq<char>>) -> Seq<
    Seq<char>,
>
    decreases s.len(),
{
    if s.len() == 0 {
        if cur.len() > 0 {
            acc.push(cur)
        } else {
            acc
        }
    } else if is_space_char(s[0]) {
        if cur.len() > 0 {
            split_ws_rec(s.subrange(1, s.len() as int), Seq::empty(), acc.push(cur))
        } else {
            split_ws_rec(s.subrange(1, s.len() as int), cur, acc)
        }
    } else {
        split_ws_rec(s.subrange(1, s.len() as int), cur.push(s[0]), acc)
    }
}

/// The whitespace-separated tokens of a sequence, in order.
pub open spec fn split_whitespace_seq(s: Seq<char>) -> Seq<Seq<char>> {
    split_ws_rec(s, Seq::empty(), Seq::empty())
}

proof fn lemma_scan_token(s: Seq<char>, i: int, j: int, cur: Seq<char>, acc: Seq<Seq<char>>)
    requires
        0 <= i <= j <= s.len(),
        forall|k: int| i <= k < j ==> !is_space_char(s[k]),
    ensures
        split_ws_rec(s.subrange(i, s.len() as int), cur, acc) == split_ws_rec(
            s.subrange(j, s.len() as int),
            cur + s.subrange(i, j),
            acc,
        ),
    decreases j - i,
{
    if i == j {
        assert(cur + s.subrange(i, j) =~= cur);
    } else {
        let rest = s.subrange(i, s.len() as int);
        assert(rest[0] == s[i]);
        assert(rest.subrange(1, rest.len() as int) =~= s.subrange(i + 1, s.len() as int));
        lemma_scan_token(s, i + 1, j, cur.push(s[i]), acc);
        assert(cur.push(s[i]) + s.subrange(i + 1, j) =~= cur + s.subrange(i, j));
    }
}

/// Splits a flag string on whitespace, as the flags are handed verbatim to
/// the external tool.
pub fn split_flags(s: &str) -> (r: Vec<String>)
    ensures
        r@.map_values(|x: String| x@) == split_whitespace_seq(s@),
{
    let len = s.unicode_len();
    let mut out: Vec<String> = Vec::new();
    let mut i: usize = 0;
    proof {
        assert(s@.subrange(0, len as int) =~= s@);
        assert(out@.map_values(|x: String| x@) =~= Seq::<Seq<char>>::empty());
    }
    while i < len
        invariant
            len == s@.len(),
            i <= len,
            split_ws_rec(
                s@.subrange(i as int, len as int),
                Seq::empty(),
                out@.map_values(|x: String| x@),
            ) == split_whitespace_seq(s@),
        decreases len - i,
    {
        let c = s.get_char(i);
        if is_space(c) {
            proof {
                let rest = s@.subrange(i as int, len as int);
                assert(rest[0] == s@[i as int]);
                assert(rest.subrange(1, rest.len() as int) =~= s@.subrange(i + 1, len as int));
            }
            i = i + 1;
        } else {
            let start = i;
            let mut j = i;
            while j < len && !is_space(s.get_char(j))
                invariant
                    len == s@.len(),
                    start <= j <= len,
                    forall|k: int| start <= k < j ==> !is_space_char(s@[k]),
                decreases len - j,
            {
                j = j + 1;
            }
            let tok = s.substring_char(start, j).to_owned();
            let ghost acc = out@.map_values(|x: String| x@);
            let ghost cur = s@.subrange(start as int, j as int);
            proof {
                lemma_scan_token(s@, start as int, j as int, Seq::empty(), acc);
                assert(Seq::empty() + cur =~= cur);
                assert(cur.len() > 0);
                if j < len {
                    let rj = s@.subrange(j as int, len as int);
                    assert(rj[0] == s@[j as int]);
                    assert(rj.subrange(1, rj.len() as int) =~= s@.subrange(j + 1, len as int));
                }
            }
            out.push(tok);
            proof {
                assert(out@.map_values(|x: String| x@) =~= acc.push(cur));
            }
            i = j;
        }
    }
    proof {
        assert(s@.subrange(len as int, len as int) =~= Seq::<char>::empty());
    }
    out
}

} // verus!
