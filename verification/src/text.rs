//! Text utilities the session engine is built on: splitting a submitted line
//! into words, printing integers, padding table columns, substring search,
//! and parsing a signed integer argument.
use vstd::prelude::*;

verus! {

/// Characters treated as blank when a submitted line is split into words.
pub open spec fn is_blank(c: char) -> bool {
    c == ' ' || c == '\t' || c == '\n' || c == '\r'
}

/// The words of `s`, split on blanks; `cur` is the word read so far.
pub open spec fn split_blanks_acc(s: Seq<char>, cur: Seq<char>) -> Seq<Seq<char>>
    decreases s.len(),
{
    if s.len() == 0 {
        if cur.len() == 0 {
            Seq::empty()
        } else {
            seq![cur]
        }
    } else if is_blank(s[0]) {
        if cur.len() == 0 {
            split_blanks_acc(s.drop_first(), Seq::empty())
        } else {
            seq![cur] + split_blanks_acc(s.drop_first(), Seq::empty())
        }
    } else {
        split_blanks_acc(s.drop_first(), cur.push(s[0]))
    }
}

/// The words of `s`: maximal runs of non-blank characters, in order.
pub open spec fn split_blanks(s: Seq<char>) -> Seq<Seq<char>> {
    split_blanks_acc(s, Seq::empty())
}

/// The views of a sequence of strings.
pub open spec fn views_of(ts: Seq<String>) -> Seq<Seq<char>> {
    ts.map_values(|t: String| t@)
}

pub(crate) proof fn lemma_views_of_push(ts: Seq<String>, t: String)
    ensures
        views_of(ts.push(t)) =~= views_of(ts).push(t@),
{
}

/// Splits a line on blanks into its words.
pub fn tokenize(line: &str) -> (toks: Vec<String>)
    ensures
        views_of(toks@) =~= split_blanks(line@),
{
    let n = line.unicode_len();
    let mut toks: Vec<String> = Vec::new();
    let mut cur: String = String::new();
    let mut i: usize = 0;
    proof {
        assert(line@.skip(0) =~= line@);
        assert(views_of(toks@) + split_blanks_acc(line@, cur@) =~= split_blanks_acc(line@, cur@));
    }
    while i < n
        invariant
            n == line@.len(),
            i <= n,
            split_blanks(line@) == views_of(toks@) + split_blanks_acc(line@.skip(i as int), cur@),
        decreases n - i,
    {
        proof {
            assert(line@.skip(i as int).drop_first() =~= line@.skip(i as int + 1));
            assert(line@.skip(i as int)[0] == line@[i as int]);
        }
        let ghost pre_toks = toks@;
        let ghost pre_cur = cur@;
        let ghost rest = line@.skip(i as int + 1);
        let c = line.get_char(i);
        if c == ' ' || c == '\t' || c == '\n' || c == '\r' {
            if cur.as_str().unicode_len() > 0 {
                toks.push(cur);
                cur = String::new();
                proof {
                    lemma_views_of_push(pre_toks, toks@[toks@.len() - 1]);
                    assert(split_blanks_acc(line@.skip(i as int), pre_cur) == seq![pre_cur]
                        + split_blanks_acc(rest, Seq::empty()));
                    assert(views_of(pre_toks) + (seq![pre_cur] + split_blanks_acc(rest, Seq::empty()))
                        =~= views_of(toks@) + split_blanks_acc(rest, cur@));
                    assert(split_blanks(line@) == views_of(toks@) + split_blanks_acc(rest, cur@));
                }
            } else {
                proof {
                    assert(cur@ =~= Seq::<char>::empty());
                    assert(split_blanks(line@) == views_of(toks@) + split_blanks_acc(rest, cur@));
                }
            }
        } else {
            let piece = line.substring_char(i, i + 1);
            proof {
                assert(piece@ =~= seq![line@[i as int]]);
                assert(cur@ + piece@ =~= cur@.push(line@[i as int]));
            }
            cur.append(piece);
            proof {
                assert(cur@ == pre_cur.push(line@[i as int]));
                assert(split_blanks_acc(line@.skip(i as int), pre_cur)
                    == split_blanks_acc(rest, cur@));
                assert(split_blanks(line@) == views_of(toks@) + split_blanks_acc(rest, cur@));
            }
        }
        i += 1;
    }
    proof {
        assert(line@.skip(n as int) =~= Seq::<char>::empty());
    }
    if cur.as_str().unicode_len() > 0 {
        let ghost pre_toks = toks@;
        let ghost pre_cur = cur@;
        toks.push(cur);
        proof {
            lemma_views_of_push(pre_toks, toks@[toks@.len() - 1]);
            assert(views_of(pre_toks) + seq![pre_cur] =~= views_of(toks@));
        }
    } else {
        proof {
            assert(views_of(toks@) + Seq::<Seq<char>>::empty() =~= views_of(toks@));
        }
    }
    toks
}

/// The character for one decimal digit.
pub open spec fn digit_char(d: int) -> char {
    if d == 0 {
        '0'
    } else if d == 1 {
        '1'
    } else if d == 2 {
        '2'
    } else if d == 3 {
        '3'
    } else if d == 4 {
        '4'
    } else if d == 5 {
        '5'
    } else if d == 6 {
        '6'
    } else if d == 7 {
        '7'
    } else if d == 8 {
        '8'
    } else {
        '9'
    }
}

/// The decimal digits of `n`, most significant first, no leading zeros.
pub open spec fn dec_of(n: nat) -> Seq<char>
    decreases n,
{
    if n < 10 {
        seq![digit_char(n as int)]
    } else {
        dec_of(n / 10).push(digit_char((n % 10) as int))
    }
}

/// Relies on the decimal `Display` of `u64`, which std documents.
#[verifier::external_body]
pub fn u64_str(n: u64) -> (r: String)
    ensures
        r@ == dec_of(n as nat),
{
    n.to_string()
}

/// The decimal digits of an integer, with a leading minus when negative.
pub open spec fn dec_int_of(n: int) -> Seq<char> {
    if n < 0 {
        seq!['-'] + dec_of((-n) as nat)
    } else {
        dec_of(n as nat)
    }
}

/// Prints a signed integer in decimal.
pub fn i32_str(n: i32) -> (r: String)
    ensures
        r@ == dec_int_of(n as int),
{
    if n >= 0 {
        let r = u64_str(n as u64);
        r
    } else {
        let mag: i64 = -(n as i64);
        let mut r = String::from_str("-");
        let digits = u64_str(mag as u64);
        r.append(digits.as_str());
        proof {
            reveal_strlit("-");
            assert("-"@ =~= seq!['-']);
        }
        r
    }
}

/// `n` spaces.
pub open spec fn spaces(n: nat) -> Seq<char>
    decreases n,
{
    if n == 0 {
        Seq::empty()
    } else {
        spaces((n - 1) as nat).push(' ')
    }
}

/// `s` left-aligned in a column of width `w`.
pub open spec fn pad_to(s: Seq<char>, w: nat) -> Seq<char> {
    if s.len() >= w {
        s
    } else {
        s + spaces((w - s.len()) as nat)
    }
}

/// Pads `s` on the right with spaces to width `w`; longer input is unchanged.
pub fn pad(s: &str, w: usize) -> (r: String)
    ensures
        r@ == pad_to(s@, w as nat),
{
    let n = s.unicode_len();
    let mut r = String::from_str(s);
    if n >= w {
        return r;
    }
    let mut j: usize = 0;
    proof {
        assert(r@ + spaces(0) =~= r@);
    }
    while j < w - n
        invariant
            n == s@.len(),
            n < w <= usize::MAX,
            j <= w - n,
            r@ == s@ + spaces(j as nat),
        decreases w - n - j,
    {
        let ghost pre = r@;
        r.append(" ");
        j += 1;
        proof {
            reveal_strlit(" ");
            assert(" "@ =~= seq![' ']);
            assert(pre + " "@ =~= s@ + spaces(j as nat));
        }
    }
    r
}

/// `p` occurs in `s` starting at position `i`.
pub open spec fn match_at(s: Seq<char>, p: Seq<char>, i: int) -> bool {
    0 <= i && i + p.len() <= s.len() && s.subrange(i, i + p.len() as int) == p
}

/// `p` occurs somewhere in `s`.
pub open spec fn has_sub(s: Seq<char>, p: Seq<char>) -> bool {
    exists|i: int| match_at(s, p, i)
}

/// Whether `p` occurs in `s` as a contiguous run of characters.
pub fn contains_sub(s: &str, p: &str) -> (r: bool)
    ensures
        r == has_sub(s@, p@),
{
    let n = s.unicode_len();
    let m = p.unicode_len();
    if m > n {
        proof {
            assert(forall|i: int| !match_at(s@, p@, i));
        }
        return false;
    }
    if m == 0 {
        proof {
            assert(s@.subrange(0, 0) =~= p@);
            assert(match_at(s@, p@, 0));
        }
        return true;
    }
    let mut i: usize = 0;
    while i <= n - m
        invariant
            0 < m <= n,
            n == s@.len(),
            m == p@.len(),
            i <= n - m + 1,
            forall|k: int| 0 <= k < i ==> !match_at(s@, p@, k),
        decreases n - i,
    {
        let mut j: usize = 0;
        let mut ok = true;
        while j < m && ok
            invariant
                i + m <= n,
                n == s@.len(),
                m == p@.len(),
                j <= m,
                ok ==> forall|t: int| 0 <= t < j ==> s@[i + t] == p@[t],
                !ok ==> !match_at(s@, p@, i as int),
            decreases m - j + (if ok {
                1int
            } else {
                0int
            }),
        {
            if s.get_char(i + j) != p.get_char(j) {
                proof {
                    if match_at(s@, p@, i as int) {
                        assert(s@.subrange(i as int, i + m as int)[j as int] == p@[j as int]);
                    }
                }
                ok = false;
            } else {
                j += 1;
            }
        }
        if ok {
            proof {
                assert(s@.subrange(i as int, i + m as int) =~= p@);
                assert(match_at(s@, p@, i as int));
            }
            return true;
        }
        i += 1;
    }
    proof {
        assert(forall|k: int| match_at(s@, p@, k) ==> 0 <= k <= n - m);
        assert(forall|k: int| !match_at(s@, p@, k));
    }
    false
}

/// A decimal digit.
pub open spec fn is_digit(c: char) -> bool {
    48 <= c as int && c as int <= 57
}

/// The value of one digit character.
pub open spec fn digit_val(c: char) -> int {
    c as int - 48
}

/// Every character of `s` is a digit.
pub open spec fn all_digits(s: Seq<char>) -> bool {
    forall|i: int| 0 <= i < s.len() ==> is_digit(#[trigger] s[i])
}

/// The value of a digit string, most significant digit first.
pub open spec fn dec_val(s: Seq<char>) -> int
    decreases s.len(),
{
    if s.len() == 0 {
        0
    } else {
        dec_val(s.drop_last()) * 10 + digit_val(s.last())
    }
}

/// A sign character.
pub open spec fn is_sign(c: char) -> bool {
    c == '-' || c == '+'
}

/// `s` is a decimal integer: digits, with one optional leading sign.
pub open spec fn is_int_token(s: Seq<char>) -> bool {
    if s.len() > 0 && is_sign(s[0]) {
        s.len() >= 2 && all_digits(s.skip(1))
    } else {
        s.len() >= 1 && all_digits(s)
    }
}

/// The value a decimal integer token denotes.
pub open spec fn int_token_val(s: Seq<char>) -> int {
    if s.len() > 0 && s[0] == '-' {
        -dec_val(s.skip(1))
    } else if s.len() > 0 && s[0] == '+' {
        dec_val(s.skip(1))
    } else {
        dec_val(s)
    }
}

proof fn lemma_dec_val_nonneg(s: Seq<char>)
    requires
        all_digits(s),
    ensures
        dec_val(s) >= 0,
    decreases s.len(),
{
    if s.len() > 0 {
        assert(all_digits(s.drop_last()));
        lemma_dec_val_nonneg(s.drop_last());
    }
}

proof fn lemma_dec_val_prefix(s: Seq<char>, i: int)
    requires
        all_digits(s),
        0 <= i <= s.len(),
    ensures
        dec_val(s.take(i)) <= dec_val(s),
    decreases s.len() - i,
{
    if i < s.len() {
        lemma_dec_val_prefix(s, i + 1);
        assert(s.take(i + 1).drop_last() =~= s.take(i));
        assert(all_digits(s.take(i)));
        lemma_dec_val_nonneg(s.take(i));
        assert(dec_val(s.take(i + 1)) == dec_val(s.take(i)) * 10 + digit_val(s.take(i + 1).last()));
    } else {
        assert(s.take(i) =~= s);
    }
}

/// Parses a decimal integer with an optional leading sign, exactly the
/// tokens `is_int_token` admits whose value fits in an `i32`.
pub fn parse_i32(s: &str) -> (r: Option<i32>)
    ensures
        r is Some <==> is_int_token(s@) && i32::MIN <= int_token_val(s@) <= i32::MAX,
        r is Some ==> r->0 as int == int_token_val(s@),
{
    let n = s.unicode_len();
    if n == 0 {
        return None;
    }
    let c0 = s.get_char(0);
    let neg = c0 == '-';
    let plus = c0 == '+';
    let start: usize = if neg || plus {
        1
    } else {
        0
    };
    if start >= n {
        return None;
    }
    let ghost d = s@.skip(start as int);
    proof {
        if !(neg || plus) {
            assert(s@.skip(0) =~= s@);
        }
    }
    let bound: u64 = if neg {
        2147483648
    } else {
        2147483647
    };
    let mut acc: u64 = 0;
    let mut i: usize = start;
    proof {
        assert(d.take(0) =~= Seq::<char>::empty());
    }
    while i < n
        invariant
            start <= i <= n,
            n == s@.len(),
            start < n,
            neg == (s@[0] == '-'),
            plus == (s@[0] == '+'),
            start == (if neg || plus {
                1int
            } else {
                0int
            }),
            d == s@.skip(start as int),
            all_digits(d.take(i - start)),
            acc == dec_val(d.take(i - start)),
            acc <= bound,
            bound == (if neg {
                2147483648u64
            } else {
                2147483647u64
            }),
        decreases n - i,
    {
        let c = s.get_char(i);
        let cv = c as u32;
        proof {
            assert(d[i - start] == s@[i as int]);
        }
        if cv < 48 || cv > 57 {
            proof {
                assert(!is_digit(d[i - start]));
            }
            return None;
        }
        let dv: u64 = (cv - 48) as u64;
        proof {
            assert(d.take(i - start + 1).drop_last() =~= d.take(i - start));
            assert(d.take(i - start + 1).last() == s@[i as int]);
            assert(all_digits(d.take(i - start + 1)));
            assert(digit_val(s@[i as int]) == dv as int);
            assert(dec_val(d.take(i - start + 1)) == acc * 10 + dv);
        }
        let nacc: u64 = acc * 10 + dv;
        if nacc > bound {
            proof {
                if all_digits(d) {
                    lemma_dec_val_prefix(d, i - start + 1);
                    assert(dec_val(d) >= nacc > bound);
                    if neg {
                        assert(s@.skip(1) == d);
                        assert(int_token_val(s@) == -dec_val(d));
                        assert(int_token_val(s@) < i32::MIN);
                    } else if plus {
                        assert(s@.skip(1) == d);
                        assert(int_token_val(s@) == dec_val(d));
                        assert(int_token_val(s@) > i32::MAX);
                    } else {
                        assert(d == s@);
                        assert(int_token_val(s@) == dec_val(d));
                        assert(int_token_val(s@) > i32::MAX);
                    }
                } else {
                    assert(!is_int_token(s@));
                }
            }
            return None;
        }
        acc = nacc;
        i += 1;
    }
    proof {
        assert(d.take(n - start) =~= d);
        assert(s@.skip(1) == d || !(neg || plus));
    }
    if neg {
        let v: i64 = -(acc as i64);
        Some(v as i32)
    } else {
        Some(acc as i32)
    }
}

/// Relies on `String::push` of std: appends exactly one character.
#[verifier::external_body]
pub fn push_char(s: &mut String, c: char)
    ensures
        final(s)@ == old(s)@.push(c),
{
    s.push(c)
}

/// Relies on `String::pop` of std: removes the last character, if any.
#[verifier::external_body]
pub fn pop_char(s: &mut String) -> (r: Option<char>)
    ensures
        old(s)@.len() == 0 ==> final(s)@ == old(s)@ && r is None,
        old(s)@.len() > 0 ==> final(s)@ == old(s)@.drop_last() && r == Some(old(s)@.last()),
{
    s.pop()
}

} // verus!
