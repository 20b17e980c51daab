//! Verified text utilities for the listing parser: whitespace field
//! splitting, line splitting, substring search, decimal parsing and
//! formatting, and space-joining of fields.

use vstd::prelude::*;

verus! {

/// Characters that separate fields in the listing tool's tabular output.
pub open spec fn is_ws(c: char) -> bool {
    c == ' ' || c == '\t' || c == '\r' || c == '\n'
}

/// The delimiter a scan stops at.
#[derive(Clone, Copy, PartialEq, Eq, Structural, Debug)]
pub enum Delim {
    Field,
    Line,
    Space,
}

/// Whether `c` stops a scan for delimiter `d`.
pub open spec fn stops(c: char, d: Delim) -> bool {
    match d {
        Delim::Field => is_ws(c),
        Delim::Line => c == '\n',
        Delim::Space => c == ' ',
    }
}

/// Index of the first character of `s` that stops a scan for `d`
/// (the length of `s` if none does).
pub open spec fn scan_end(s: Seq<char>, d: Delim) -> nat
    decreases s.len(),
{
    if s.len() == 0 || stops(s[0], d) {
        0
    } else {
        1 + scan_end(s.subrange(1, s.len() as int), d)
    }
}

pub proof fn lemma_scan_end_le(s: Seq<char>, d: Delim)
    ensures
        scan_end(s, d) <= s.len(),
    decreases s.len(),
{
    if s.len() == 0 || stops(s[0], d) {
    } else {
        lemma_scan_end_le(s.subrange(1, s.len() as int), d);
    }
}

/// `scan_end` is the unique boundary: no stop character before it, and a
/// stop character (or the end of the sequence) at it.
pub proof fn lemma_scan_end_at(s: Seq<char>, d: Delim, k: int)
    requires
        0 <= k <= s.len(),
        forall|m: int| 0 <= m < k ==> !stops(s[m], d),
        k == s.len() || stops(s[k], d),
    ensures
        scan_end(s, d) == k,
    decreases s.len(),
{
    if s.len() == 0 || stops(s[0], d) {
        assert(k == 0);
    } else {
        let t = s.subrange(1, s.len() as int);
        assert(k >= 1);
        assert forall|m: int| 0 <= m < k - 1 implies !stops(t[m], d) by {
            assert(t[m] == s[m + 1]);
        }
        if k - 1 < t.len() {
            assert(t[k - 1] == s[k]);
        }
        lemma_scan_end_at(t, d, k - 1);
    }
}

/// The whitespace-separated fields of `s`, in order, each nonempty.
pub open spec fn split_ws(s: Seq<char>) -> Seq<Seq<char>>
    decreases s.len(),
    via split_ws_dec
{
    if s.len() == 0 {
        Seq::empty()
    } else if is_ws(s[0]) {
        split_ws(s.subrange(1, s.len() as int))
    } else {
        seq![s.subrange(0, scan_end(s, Delim::Field) as int)] + split_ws(
            s.subrange(scan_end(s, Delim::Field) as int, s.len() as int),
        )
    }
}

#[via_fn]
proof fn split_ws_dec(s: Seq<char>) {
    lemma_scan_end_le(s, Delim::Field);
}

/// The views of a sequence of strings.
pub open spec fn views_of(v: Seq<String>) -> Seq<Seq<char>> {
    v.map_values(|x: String| x@)
}

/// Whether `c` is a field separator, decided in executable code.
pub fn is_ws_exec(c: char) -> (r: bool)
    ensures
        r == is_ws(c),
{
    c == ' ' || c == '\t' || c == '\r' || c == '\n'
}

/// Splits `s` on runs of whitespace, as the listing parser requires.
pub fn split_fields(s: &str) -> (r: Vec<String>)
    ensures
        views_of(r@) == split_ws(s@),
{
    let n = s.unicode_len();
    let mut r: Vec<String> = Vec::new();
    let mut i: usize = 0;
    proof {
        assert(s@.subrange(0, n as int) =~= s@);
        assert(views_of(r@) + split_ws(s@) =~= split_ws(s@));
    }
    while i < n
        invariant
            n == s@.len(),
            i <= n,
            split_ws(s@) == views_of(r@) + split_ws(s@.subrange(i as int, n as int)),
        decreases n - i,
    {
        let c = s.get_char(i);
        if is_ws_exec(c) {
            proof {
                let t = s@.subrange(i as int, n as int);
                assert(t.subrange(1, t.len() as int) =~= s@.subrange(i + 1, n as int));
            }
            i += 1;
        } else {
            let mut j: usize = i + 1;
            while j < n && !is_ws_exec(s.get_char(j))
                invariant
                    n == s@.len(),
                    i < j <= n,
                    forall|m: int| i <= m < j ==> !is_ws(s@[m]),
                    j == n || !is_ws(s@[j as int]) || j > i,
                decreases n - j,
            {
                j += 1;
            }
            let tok = String::from_str(s.substring_char(i, j));
            proof {
                let t = s@.subrange(i as int, n as int);
                lemma_scan_end_at(t, Delim::Field, j - i);
                assert(t.subrange(0, (j - i) as int) =~= s@.subrange(i as int, j as int));
                assert(t.subrange((j - i) as int, t.len() as int) =~= s@.subrange(
                    j as int,
                    n as int,
                ));
                assert(views_of(r@.push(tok)) =~= views_of(r@).push(tok@));
                assert(views_of(r@) + seq![tok@] + split_ws(s@.subrange(j as int, n as int))
                    =~= views_of(r@.push(tok)) + split_ws(s@.subrange(j as int, n as int)));
            }
            r.push(tok);
            i = j;
        }
    }
    proof {
        assert(s@.subrange(n as int, n as int) =~= Seq::<char>::empty());
        assert(views_of(r@) + Seq::<Seq<char>>::empty() =~= views_of(r@));
    }
    r
}

/// Removes one trailing carriage return, as the line splitter does.
pub open spec fn strip_cr(l: Seq<char>) -> Seq<char> {
    if l.len() > 0 && l[l.len() - 1] == '\r' {
        l.subrange(0, l.len() - 1)
    } else {
        l
    }
}

/// The lines of `s`: maximal stretches between newlines, each with a
/// trailing carriage return removed, and no final empty line after a
/// terminating newline.
pub open spec fn split_lines(s: Seq<char>) -> Seq<Seq<char>>
    decreases s.len(),
    via split_lines_dec
{
    if s.len() == 0 {
        Seq::empty()
    } else {
        let e = scan_end(s, Delim::Line) as int;
        if e == s.len() {
            seq![strip_cr(s)]
        } else {
            seq![strip_cr(s.subrange(0, e))] + split_lines(s.subrange(e + 1, s.len() as int))
        }
    }
}

#[via_fn]
proof fn split_lines_dec(s: Seq<char>) {
    lemma_scan_end_le(s, Delim::Line);
}

/// Splits `s` into lines, as the listing parser reads the tool's output.
pub fn to_lines(s: &str) -> (r: Vec<String>)
    ensures
        views_of(r@) == split_lines(s@),
{
    let n = s.unicode_len();
    let mut r: Vec<String> = Vec::new();
    let mut i: usize = 0;
    proof {
        assert(s@.subrange(0, n as int) =~= s@);
        assert(views_of(r@) + split_lines(s@) =~= split_lines(s@));
    }
    while i < n
        invariant
            n == s@.len(),
            i <= n,
            split_lines(s@) == views_of(r@) + split_lines(s@.subrange(i as int, n as int)),
        decreases n - i,
    {
        let mut j: usize = i;
        while j < n && s.get_char(j) != '\n'
            invariant
                n == s@.len(),
                i <= j <= n,
                forall|m: int| i <= m < j ==> s@[m] != '\n',
            decreases n - j,
        {
            j += 1;
        }
        let line = if j > i && s.get_char(j - 1) == '\r' {
            String::from_str(s.substring_char(i, j - 1))
        } else {
            String::from_str(s.substring_char(i, j))
        };
        proof {
            let t = s@.subrange(i as int, n as int);
            lemma_scan_end_at(t, Delim::Line, j - i);
            assert(t.subrange(0, (j - i) as int) =~= s@.subrange(i as int, j as int));
            if j > i && s@[j - 1] == '\r' {
                assert(s@.subrange(i as int, j - 1) =~= s@.subrange(i as int, j as int).subrange(
                    0,
                    (j - i - 1) as int,
                ));
            }
            assert(line@ == strip_cr(s@.subrange(i as int, j as int)));
            if (j - i) < t.len() {
                assert(t.subrange(j - i + 1, t.len() as int) =~= s@.subrange(j + 1, n as int));
            } else {
                assert(t =~= s@.subrange(i as int, j as int));
            }
            assert(views_of(r@.push(line)) =~= views_of(r@).push(line@));
            assert(views_of(r@) + seq![line@] + split_lines(s@.subrange(j + 1, n as int))
                =~= views_of(r@.push(line)) + split_lines(s@.subrange(j + 1, n as int)));
            assert(views_of(r@) + seq![line@] =~= views_of(r@.push(line)));
        }
        r.push(line);
        i = if j < n {
            j + 1
        } else {
            j
        };
    }
    proof {
        assert(s@.subrange(n as int, n as int) =~= Seq::<char>::empty());
        assert(views_of(r@) + Seq::<Seq<char>>::empty() =~= views_of(r@));
    }
    r
}

/// Everything after the header line of a listing.
pub open spec fn body_of(lines: Seq<Seq<char>>) -> Seq<Seq<char>> {
    if lines.len() == 0 {
        lines
    } else {
        lines.subrange(1, lines.len() as int)
    }
}

/// `n` occurs in `h` starting at index `i`.
pub open spec fn contains_at(h: Seq<char>, n: Seq<char>, i: int) -> bool {
    0 <= i && i + n.len() <= h.len() && h.subrange(i, i + n.len() as int) == n
}

/// `n` occurs somewhere in `h`.
pub open spec fn has_substr(h: Seq<char>, n: Seq<char>) -> bool {
    exists|i: int| contains_at(h, n, i)
}

/// Naive substring search, proved equivalent to `has_substr`.
pub fn find_substr(h: &str, n: &str) -> (r: bool)
    ensures
        r == has_substr(h@, n@),
{
    let hn = h.unicode_len();
    let nn = n.unicode_len();
    if nn > hn {
        proof {
            assert forall|i: int| !contains_at(h@, n@, i) by {}
        }
        return false;
    }
    if nn == 0 {
        proof {
            assert(h@.subrange(0, 0) =~= n@);
            assert(contains_at(h@, n@, 0));
        }
        return true;
    }
    let mut i: usize = 0;
    while i <= hn - nn
        invariant
            hn == h@.len(),
            nn == n@.len(),
            0 < nn <= hn,
            i <= hn - nn + 1,
            forall|ii: int| 0 <= ii < i ==> !contains_at(h@, n@, ii),
        decreases hn - nn - i + 1,
    {
        let mut j: usize = 0;
        let mut ok = true;
        while j < nn && ok
            invariant
                hn == h@.len(),
                nn == n@.len(),
                nn <= hn,
                i <= hn - nn,
                j <= nn,
                ok ==> forall|m: int| 0 <= m < j ==> h@[i + m] == n@[m],
                !ok ==> !contains_at(h@, n@, i as int),
            decreases nn - j + (if ok {
                1int
            } else {
                0int
            }),
        {
            if h.get_char(i + j) != n.get_char(j) {
                proof {
                    assert(!contains_at(h@, n@, i as int)) by {
                        if contains_at(h@, n@, i as int) {
                            assert(h@.subrange(i as int, i + nn as int)[j as int] == n@[j as int]);
                        }
                    }
                }
                ok = false;
            } else {
                j += 1;
            }
        }
        if ok {
            proof {
                assert(h@.subrange(i as int, i + nn as int) =~= n@);
                assert(contains_at(h@, n@, i as int));
            }
            return true;
        }
        i += 1;
    }
    proof {
        assert forall|ii: int| !contains_at(h@, n@, ii) by {
            if 0 <= ii <= hn - nn {
                assert(!contains_at(h@, n@, ii));
            }
        }
    }
    false
}

/// A decimal digit.
pub open spec fn is_digit(c: char) -> bool {
    48 <= c as int && c as int <= 57
}

/// The value of a decimal digit.
pub open spec fn digit_val(c: char) -> nat {
    (c as int - 48) as nat
}

/// Every character of `s` is a decimal digit.
pub open spec fn all_digits(s: Seq<char>) -> bool {
    forall|i: int| 0 <= i < s.len() ==> is_digit(#[trigger] s[i])
}

/// The number denoted by a sequence of decimal digits, most significant
/// first.
pub open spec fn digits_val(s: Seq<char>) -> nat
    decreases s.len(),
{
    if s.len() == 0 {
        0
    } else {
        digits_val(s.subrange(0, s.len() - 1)) * 10 + digit_val(s[s.len() - 1])
    }
}

/// The number a string denotes, if it is one or more decimal digits and
/// nothing else.
pub open spec fn parse_dec(s: Seq<char>) -> Option<nat> {
    if s.len() > 0 && all_digits(s) {
        Some(digits_val(s))
    } else {
        None
    }
}

/// The process id a field denotes, if any.
pub open spec fn dec_u32(s: Seq<char>) -> Option<u32> {
    if s.len() > 0 && all_digits(s) && digits_val(s) <= u32::MAX {
        Some(digits_val(s) as u32)
    } else {
        None
    }
}

/// The port number a token denotes, if any.
pub open spec fn dec_u16(s: Seq<char>) -> Option<u16> {
    if s.len() > 0 && all_digits(s) && digits_val(s) <= u16::MAX {
        Some(digits_val(s) as u16)
    } else {
        None
    }
}

/// Parses a decimal number of at most `bound`; `bound` itself must fit in
/// 32 bits so that the running value cannot overflow the accumulator.
pub fn parse_dec_bounded(s: &str, bound: u64) -> (r: Option<u64>)
    requires
        bound <= u32::MAX,
    ensures
        r matches Some(v) ==> s@.len() > 0 && all_digits(s@) && digits_val(s@) == v && v <= bound,
        r is None ==> !(s@.len() > 0 && all_digits(s@) && digits_val(s@) <= bound),
{
    let n = s.unicode_len();
    if n == 0 {
        return None;
    }
    let mut acc: u64 = 0;
    let mut over: bool = false;
    let mut i: usize = 0;
    proof {
        assert(s@.subrange(0, 0) =~= Seq::<char>::empty());
    }
    while i < n
        invariant
            n == s@.len(),
            i <= n,
            forall|m: int| 0 <= m < i ==> is_digit(#[trigger] s@[m]),
            !over ==> acc == digits_val(s@.subrange(0, i as int)) && acc <= bound,
            over ==> digits_val(s@.subrange(0, i as int)) > bound,
            bound <= u32::MAX,
        decreases n - i,
    {
        let c = s.get_char(i);
        let cv = c as u32;
        if !(48 <= cv && cv <= 57) {
            return None;
        }
        let d = (cv - 48) as u64;
        proof {
            let pre = s@.subrange(0, i as int);
            let ext = s@.subrange(0, i + 1);
            assert(ext.subrange(0, ext.len() - 1) =~= pre);
            assert(ext[ext.len() - 1] == s@[i as int]);
            assert(digits_val(ext) == digits_val(pre) * 10 + digit_val(s@[i as int]));
        }
        if over {
            proof {
                let pre = digits_val(s@.subrange(0, i as int));
                assert(pre * 10 >= pre) by (nonlinear_arith)
                    requires
                        pre >= 0,
                ;
            }
        } else {
            let next = acc * 10 + d;
            if next > bound {
                over = true;
            } else {
                acc = next;
            }
        }
        i += 1;
    }
    proof {
        assert(s@.subrange(0, n as int) =~= s@);
    }
    if over {
        None
    } else {
        Some(acc)
    }
}

/// Parses a process id, as the listing parser reads field 1.
pub fn parse_u32(s: &str) -> (r: Option<u32>)
    ensures
        r == dec_u32(s@),
{
    match parse_dec_bounded(s, 0xFFFF_FFFFu64) {
        Some(v) => Some(v as u32),
        None => None,
    }
}

/// Parses a port number, as the listing parser reads the descriptor.
pub fn parse_u16(s: &str) -> (r: Option<u16>)
    ensures
        r == dec_u16(s@),
{
    match parse_dec_bounded(s, 0xFFFFu64) {
        Some(v) => Some(v as u16),
        None => None,
    }
}

/// The character for a single decimal digit.
pub open spec fn digit_char(d: nat) -> char {
    if d == 0 {
        '0'
    } else if d == 1 {
        '1'
    } else if d == 2 {
        '2'
    } else if d == 3 {
        '3'
    } else if d == 4 {
        '4'
    } else if d == 5 {
        '5'
    } else if d == 6 {
        '6'
    } else if d == 7 {
        '7'
    } else if d == 8 {
        '8'
    } else {
        '9'
    }
}

/// The decimal rendering of `v`, most significant digit first, with no
/// leading zeros.
pub open spec fn dec_chars(v: nat) -> Seq<char>
    decreases v,
{
    if v < 10 {
        seq![digit_char(v)]
    } else {
        dec_chars(v / 10).push(digit_char(v % 10))
    }
}

fn digit_str(d: u16) -> (r: &'static str)
    requires
        d < 10,
    ensures
        r@ == seq![digit_char(d as nat)],
{
    if d == 0 {
        proof {
            reveal_strlit("0");
        }
        let r = "0";
        assert(r@ =~= seq![digit_char(d as nat)]);
        r
    } else if d == 1 {
        proof {
            reveal_strlit("1");
        }
        let r = "1";
        assert(r@ =~= seq![digit_char(d as nat)]);
        r
    } else if d == 2 {
        proof {
            reveal_strlit("2");
        }
        let r = "2";
        assert(r@ =~= seq![digit_char(d as nat)]);
        r
    } else if d == 3 {
        proof {
            reveal_strlit("3");
        }
        let r = "3";
        assert(r@ =~= seq![digit_char(d as nat)]);
        r
    } else if d == 4 {
        proof {
            reveal_strlit("4");
        }
        let r = "4";
        assert(r@ =~= seq![digit_char(d as nat)]);
        r
    } else if d == 5 {
        proof {
            reveal_strlit("5");
        }
        let r = "5";
        assert(r@ =~= seq![digit_char(d as nat)]);
        r
    } else if d == 6 {
        proof {
            reveal_strlit("6");
        }
        let r = "6";
        assert(r@ =~= seq![digit_char(d as nat)]);
        r
    } else if d == 7 {
        proof {
            reveal_strlit("7");
        }
        let r = "7";
        assert(r@ =~= seq![digit_char(d as nat)]);
        r
    } else if d == 8 {
        proof {
            reveal_strlit("8");
        }
        let r = "8";
        assert(r@ =~= seq![digit_char(d as nat)]);
        r
    } else {
        proof {
            reveal_strlit("9");
        }
        let r = "9";
        assert(r@ =~= seq![digit_char(d as nat)]);
        r
    }
}

/// Renders a port number in decimal, for user-facing messages.
pub fn u16_to_string(v: u16) -> (r: String)
    ensures
        r@ == dec_chars(v as nat),
    decreases v,
{
    if v < 10 {
        String::from_str(digit_str(v))
    } else {
        let mut s = u16_to_string(v / 10);
        s.append(digit_str(v % 10));
        proof {
            assert(dec_chars((v / 10) as nat) + seq![digit_char((v % 10) as nat)] =~= dec_chars(
                (v / 10) as nat,
            ).push(digit_char((v % 10) as nat)));
        }
        s
    }
}

/// What follows the last colon of `s` (all of `s` if it has none), as the
/// listing parser isolates the port part of a socket descriptor.
pub open spec fn after_last_colon(s: Seq<char>) -> Seq<char>
    decreases s.len(),
{
    if s.len() == 0 {
        s
    } else if s[s.len() - 1] == ':' {
        Seq::empty()
    } else {
        after_last_colon(s.subrange(0, s.len() - 1)).push(s[s.len() - 1])
    }
}

proof fn lemma_alc_none(s: Seq<char>)
    requires
        forall|m: int| 0 <= m < s.len() ==> s[m] != ':',
    ensures
        after_last_colon(s) == s,
    decreases s.len(),
{
    if s.len() == 0 {
    } else {
        let t = s.subrange(0, s.len() - 1);
        lemma_alc_none(t);
        assert(t.push(s[s.len() - 1]) =~= s);
    }
}

proof fn lemma_alc_at(s: Seq<char>, p: int)
    requires
        0 <= p < s.len(),
        s[p] == ':',
        forall|m: int| p < m < s.len() ==> s[m] != ':',
    ensures
        after_last_colon(s) == s.subrange(p + 1, s.len() as int),
    decreases s.len(),
{
    if p == s.len() - 1 {
        assert(s.subrange(p + 1, s.len() as int) =~= Seq::<char>::empty());
    } else {
        let t = s.subrange(0, s.len() - 1);
        assert(t[p] == s[p]);
        lemma_alc_at(t, p);
        assert(t.subrange(p + 1, t.len() as int).push(s[s.len() - 1]) =~= s.subrange(
            p + 1,
            s.len() as int,
        ));
    }
}

/// Extracts what follows the last colon, or all of `s` without one.
pub fn suffix_after_last_colon(s: &str) -> (r: String)
    ensures
        r@ == after_last_colon(s@),
{
    let n = s.unicode_len();
    let mut k: usize = n;
    while k > 0
        invariant
            n == s@.len(),
            k <= n,
            forall|m: int| k <= m < n ==> s@[m] != ':',
        decreases k,
    {
        if s.get_char(k - 1) == ':' {
            let r = String::from_str(s.substring_char(k, n));
            proof {
                lemma_alc_at(s@, k - 1);
            }
            return r;
        }
        k -= 1;
    }
    let r = String::from_str(s.substring_char(0, n));
    proof {
        lemma_alc_none(s@);
        assert(s@.subrange(0, n as int) =~= s@);
    }
    r
}

/// The prefix of `s` before its first space (all of `s` without one).
pub open spec fn before_space(s: Seq<char>) -> Seq<char> {
    s.subrange(0, scan_end(s, Delim::Space) as int)
}

/// Extracts the token before the first space, as the listing parser
/// isolates the port token of a socket descriptor.
pub fn prefix_before_space(s: &str) -> (r: String)
    ensures
        r@ == before_space(s@),
{
    let n = s.unicode_len();
    let mut j: usize = 0;
    while j < n && s.get_char(j) != ' '
        invariant
            n == s@.len(),
            j <= n,
            forall|m: int| 0 <= m < j ==> s@[m] != ' ',
        decreases n - j,
    {
        j += 1;
    }
    proof {
        lemma_scan_end_at(s@, Delim::Space, j as int);
    }
    String::from_str(s.substring_char(0, j))
}

/// The fields joined with single spaces, as the parser rebuilds the
/// descriptor column from the split fields.
pub open spec fn join_ws(parts: Seq<Seq<char>>) -> Seq<char>
    decreases parts.len(),
{
    if parts.len() == 0 {
        Seq::empty()
    } else if parts.len() == 1 {
        parts[0]
    } else {
        join_ws(parts.subrange(0, parts.len() - 1)) + seq![' '] + parts[parts.len() - 1]
    }
}

/// Joins `parts[start..]` with single spaces.
pub fn join_from(parts: &Vec<String>, start: usize) -> (r: String)
    requires
        start <= parts@.len(),
    ensures
        r@ == join_ws(views_of(parts@).subrange(start as int, parts@.len() as int)),
{
    let mut acc = String::new();
    let mut i: usize = start;
    proof {
        reveal_strlit(" ");
        assert(views_of(parts@).subrange(start as int, start as int) =~= Seq::<Seq<char>>::empty());
    }
    while i < parts.len()
        invariant
            start <= i <= parts@.len(),
            acc@ == join_ws(views_of(parts@).subrange(start as int, i as int)),
        decreases parts@.len() - i,
    {
        if i > start {
            acc.append(" ");
            proof {
                reveal_strlit(" ");
                assert(" "@ =~= seq![' ']);
            }
        }
        acc.append(parts[i].as_str());
        proof {
            let vs = views_of(parts@);
            assert(vs.subrange(start as int, i + 1).subrange(0, (i - start) as int) =~= vs.subrange(
                start as int,
                i as int,
            ));
            assert(vs.subrange(start as int, i + 1)[i - start] == parts@[i as int]@);
        }
        i += 1;
    }
    acc
}

} // verus!
