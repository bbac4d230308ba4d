//! The text shown for a refused program: where the message places the fault, the source
//! line there, and a caret under the column.
use vstd::prelude::*;
use crate::codegen::strings_view;
use crate::text::{chars_of, string_of_range, push_char, append_str, append_decimal, decimal, char_is_whitespace, unicode_white_space};

verus! {

pub open spec fn is_digit(c: char) -> bool {
    '0' <= c && c <= '9'
}

pub open spec fn all_digits(s: Seq<char>) -> bool {
    forall|i: int| 0 <= i < s.len() ==> is_digit(#[trigger] s[i])
}

/// The value of a run of decimal digits.
pub open spec fn digits_value(s: Seq<char>) -> nat
    decreases s.len(),
{
    if s.len() == 0 {
        0
    } else {
        digits_value(s.drop_last()) * 10 + ((s.last() as int) - ('0' as int)) as nat
    }
}

/// The number `s` spells, if it is a non-empty run of digits whose value fits a `usize`.
pub open spec fn number_in(s: Seq<char>) -> Option<nat> {
    if s.len() > 0 && all_digits(s) && digits_value(s) <= usize::MAX { Some(digits_value(s)) } else { None }
}

/// The first position of `c` in `s`, or -1.
pub open spec fn char_pos(s: Seq<char>, c: char) -> int
    decreases s.len(),
{
    if s.len() == 0 {
        -1
    } else if s[0] == c {
        0
    } else {
        let r = char_pos(s.drop_first(), c);
        if r < 0 { -1 } else { r + 1 }
    }
}

pub proof fn lemma_char_pos(s: Seq<char>, c: char)
    ensures
        -1 <= char_pos(s, c) < s.len(),
        char_pos(s, c) == -1 <==> forall|j: int| 0 <= j < s.len() ==> s[j] != c,
        char_pos(s, c) >= 0 ==> s[char_pos(s, c)] == c && forall|j: int| 0 <= j < char_pos(s, c) ==> s[j] != c,
    decreases s.len(),
{
    if s.len() > 0 {
        lemma_char_pos(s.drop_first(), c);
        if s[0] != c {
            assert forall|j: int| 1 <= j < s.len() implies s[j] == s.drop_first()[j - 1] by {}
        }
    }
}

/// `[line:col]` read at `idx`: after the `[`, up to the first `]`, two numbers split by one `:`.
/// Gives the line, the column and where the `]` is, counted from after the `[`.
pub open spec fn loc_at(m: Seq<char>, idx: int) -> Option<(nat, nat, int)> {
    if 0 <= idx < m.len() && m[idx] == '[' {
        let rem = m.skip(idx + 1);
        let e = char_pos(rem, ']');
        if e >= 0 {
            let pos = rem.take(e);
            let c = char_pos(pos, ':');
            if c >= 0 && char_pos(pos.skip(c + 1), ':') < 0 {
                match (number_in(pos.take(c)), number_in(pos.skip(c + 1))) {
                    (Some(l), Some(co)) => Some((l, co, e)),
                    _ => None,
                }
            } else {
                None
            }
        } else {
            None
        }
    } else {
        None
    }
}

/// The last location in `m` at or before position `i`, with the position of its `[`.
pub open spec fn find_location(m: Seq<char>, i: int) -> Option<(int, nat, nat, int)>
    decreases i + 1,
{
    if i < 0 {
        None
    } else {
        match loc_at(m, i) {
            Some((l, c, e)) => Some((i, l, c, e)),
            None => find_location(m, i - 1),
        }
    }
}

proof fn lemma_find_location(m: Seq<char>, i: int)
    ensures
        find_location(m, i) matches Some((j, l, c, e)) ==> 0 <= j <= i && loc_at(m, j) == Some((l, c, e)),
    decreases i + 1,
{
    if i >= 0 && loc_at(m, i) is None {
        lemma_find_location(m, i - 1);
    }
}

/// The last `[line:col]` of a message.
pub open spec fn error_location(m: Seq<char>) -> Option<(int, nat, nat, int)> {
    find_location(m, m.len() - 1)
}

/// The lines of `s` from `i` on, `cur` being the part of a line already read: lines end at
/// `\n`, a `\r` before it is dropped, and a last line needs no `\n`.
pub open spec fn lines_from(s: Seq<char>, i: int, cur: Seq<char>) -> Seq<Seq<char>>
    decreases s.len() - i,
{
    if i < 0 || i >= s.len() {
        if cur.len() > 0 { seq![cur] } else { Seq::empty() }
    } else if s[i] == '\n' {
        let line = if cur.len() > 0 && cur.last() == '\r' { cur.drop_last() } else { cur };
        seq![line] + lines_from(s, i + 1, Seq::empty())
    } else {
        lines_from(s, i + 1, cur.push(s[i]))
    }
}

pub open spec fn lines_of(s: Seq<char>) -> Seq<Seq<char>> {
    lines_from(s, 0, Seq::empty())
}

pub open spec fn trim_start(s: Seq<char>) -> Seq<char>
    decreases s.len(),
{
    if s.len() > 0 && unicode_white_space(s[0]) { trim_start(s.drop_first()) } else { s }
}

pub open spec fn trim_end(s: Seq<char>) -> Seq<char>
    decreases s.len(),
{
    if s.len() > 0 && unicode_white_space(s.last()) { trim_end(s.drop_last()) } else { s }
}

/// `s` without leading and trailing white space.
pub open spec fn trim_ws(s: Seq<char>) -> Seq<char> {
    trim_end(trim_start(s))
}

pub open spec fn spaces(n: nat) -> Seq<char>
    decreases n,
{
    if n == 0 { Seq::empty() } else { spaces((n - 1) as nat) + seq![' '] }
}

/// Right-aligned in five columns.
pub open spec fn pad_left5(d: Seq<char>) -> Seq<char> {
    if d.len() < 5 { spaces((5 - d.len()) as nat) + d } else { d }
}

pub open spec fn fallback_text(path: Seq<char>, m: Seq<char>) -> Seq<char> {
    "\x1b[1;31mError\x1b[0m in "@ + path + ": "@ + m + "\n"@
}

/// The report of an error message `m` about the source `content` of the file `path`: with
/// a location whose line exists, the line and a caret under the column; else the message.
pub open spec fn report_text(path: Seq<char>, content: Seq<char>, m: Seq<char>) -> Seq<char> {
    match error_location(m) {
        Some((idx, line, col, e)) => {
            let lines = lines_of(content);
            if line > 0 && line <= lines.len() {
                let src = lines[line - 1];
                let msg = trim_ws(m.skip(idx + 1).skip(e + 1));
                let pad = spaces(7 + col);
                "\n\x1b[1;31mError\x1b[0m in "@ + path + ":"@ + decimal(line) + ":"@ + decimal(col) + "\n"@ + " "@
                    + pad_left5(decimal(line)) + " | "@ + src + "\n"@ + pad + " \x1b[1;31m^\x1b[0m\n"@ + pad
                    + " \x1b[1;31m"@ + msg + "\x1b[0m\n"@ + "\n"@
            } else {
                fallback_text(path, m)
            }
        },
        None => fallback_text(path, m),
    }
}

/// The first position of `c` in `v[from..to]`, counted from `from`.
fn find_char(v: &Vec<char>, from: usize, to: usize, c: char) -> (r: Option<usize>)
    requires
        from <= to <= v@.len(),
    ensures
        match r {
            Some(j) => char_pos(v@.subrange(from as int, to as int), c) == j as int,
            None => char_pos(v@.subrange(from as int, to as int), c) == -1,
        },
{
    let ghost s = v@.subrange(from as int, to as int);
    proof {
        lemma_char_pos(s, c);
    }
    let mut j: usize = from;
    while j < to
        invariant
            from <= j <= to <= v@.len(),
            s == v@.subrange(from as int, to as int),
            -1 <= char_pos(s, c) < s.len(),
            char_pos(s, c) == -1 <==> forall|x: int| 0 <= x < s.len() ==> s[x] != c,
            char_pos(s, c) >= 0 ==> s[char_pos(s, c)] == c,
            forall|x: int| 0 <= x < j - from ==> s[x] != c,
        decreases to - j,
    {
        if v[j] == c {
            proof {
                lemma_char_pos(s, c);
                let r = char_pos(s, c);
                assert(s[j - from] == c);
                if r > j - from {
                    assert(s[j - from] != c);
                }
            }
            return Some(j - from);
        }
        j = j + 1;
    }
    None
}

proof fn lemma_digits_mono(s: Seq<char>, k: int)
    requires
        0 <= k <= s.len(),
        all_digits(s),
    ensures
        digits_value(s.take(k)) <= digits_value(s),
    decreases s.len() - k,
{
    if k < s.len() {
        let t = s.take(k + 1);
        assert(t.drop_last() =~= s.take(k));
        assert(is_digit(t.last()));
        assert(digits_value(t) == digits_value(t.drop_last()) * 10 + ((t.last() as int) - ('0' as int)) as nat);
        lemma_digits_mono(s, k + 1);
    } else {
        assert(s.take(k) =~= s);
    }
}

/// The number `v[from..to]` spells.
fn parse_number(v: &Vec<char>, from: usize, to: usize) -> (r: Option<usize>)
    requires
        from <= to <= v@.len(),
    ensures
        match r {
            Some(n) => number_in(v@.subrange(from as int, to as int)) == Some(n as nat),
            None => number_in(v@.subrange(from as int, to as int)) is None,
        },
{
    let ghost s = v@.subrange(from as int, to as int);
    if from == to {
        return None;
    }
    let mut acc: usize = 0;
    let mut j: usize = from;
    while j < to
        invariant
            from <= j <= to <= v@.len(),
            s == v@.subrange(from as int, to as int),
            all_digits(s.take(j - from)),
            acc == digits_value(s.take(j - from)),
        decreases to - j,
    {
        let c = v[j];
        let ghost t = s.take(j - from + 1);
        assert(t.drop_last() =~= s.take(j - from));
        assert(t.last() == c);
        if c < '0' || c > '9' {
            assert(!is_digit(s[j - from]));
            return None;
        }
        let d = (c as u32 - '0' as u32) as usize;
        assert(d == (c as int) - ('0' as int));
        if acc > (usize::MAX - d) / 10 {
            proof {
                assert(acc * 10 + d > usize::MAX) by (nonlinear_arith)
                    requires
                        acc > (usize::MAX - d) / 10,
                        d <= 9,
                ;
                assert(all_digits(t));
                if all_digits(s) {
                    lemma_digits_mono(s, j - from + 1);
                }
            }
            return None;
        }
        assert(acc * 10 + d <= usize::MAX) by (nonlinear_arith)
            requires
                acc <= (usize::MAX - d) / 10,
                d <= 9,
        ;
        acc = acc * 10 + d;
        assert(all_digits(t));
        j = j + 1;
    }
    assert(s.take(to - from) =~= s);
    Some(acc)
}

/// The location read at `idx`, where `v[idx]` is `[`.
fn loc_here(v: &Vec<char>, idx: usize) -> (r: Option<(usize, usize, usize)>)
    requires
        idx < v@.len(),
    ensures
        match r {
            Some((l, c, e)) => loc_at(v@, idx as int) == Some((l as nat, c as nat, e as int)),
            None => loc_at(v@, idx as int) is None,
        },
{
    if v[idx] != '[' {
        return None;
    }
    let n = v.len();
    let start = idx + 1;
    let ghost rem = v@.skip(start as int);
    assert(rem =~= v@.subrange(start as int, n as int));
    let e = match find_char(v, start, n, ']') {
        Some(e) => e,
        None => {
            return None;
        },
    };
    proof {
        lemma_char_pos(rem, ']');
    }
    let close = start + e;
    let ghost pos = rem.take(e as int);
    assert(pos =~= v@.subrange(start as int, close as int));
    let c = match find_char(v, start, close, ':') {
        Some(c) => c,
        None => {
            return None;
        },
    };
    proof {
        lemma_char_pos(pos, ':');
    }
    let colon = start + c;
    assert(pos.skip(c + 1) =~= v@.subrange(colon + 1, close as int));
    assert(pos.take(c as int) =~= v@.subrange(start as int, colon as int));
    match find_char(v, colon + 1, close, ':') {
        Some(_) => {
            return None;
        },
        None => {},
    }
    let line = match parse_number(v, start, colon) {
        Some(l) => l,
        None => {
            return None;
        },
    };
    let col = match parse_number(v, colon + 1, close) {
        Some(x) => x,
        None => {
            return None;
        },
    };
    Some((line, col, e))
}

/// The last location of a message: the position of its `[`, the line, the column, and
/// where the `]` is counted from after the `[`.
fn locate(v: &Vec<char>) -> (r: Option<(usize, usize, usize, usize)>)
    ensures
        match r {
            Some((i, l, c, e)) => error_location(v@) == Some((i as int, l as nat, c as nat, e as int)),
            None => error_location(v@) is None,
        },
{
    let mut k = v.len();
    while k > 0
        invariant
            k <= v@.len(),
            error_location(v@) == find_location(v@, k - 1),
        decreases k,
    {
        k = k - 1;
        match loc_here(v, k) {
            Some((l, c, e)) => {
                return Some((k, l, c, e));
            },
            None => {},
        }
    }
    None
}

/// The line and column of the last `[line:col]` in an error message.
pub fn error_position(err_msg: &str) -> (r: Option<(usize, usize)>)
    ensures
        match r {
            Some((l, c)) => error_location(err_msg@) matches Some((_, l2, c2, _)) && l2 == l && c2 == c,
            None => error_location(err_msg@) is None,
        },
{
    let v = chars_of(err_msg);
    match locate(&v) {
        Some((_, l, c, _)) => Some((l, c)),
        None => None,
    }
}

/// The lines of a text.
pub fn lines_text(s: &str) -> (r: Vec<String>)
    ensures
        strings_view(r@) == lines_of(s@),
{
    let v = chars_of(s);
    let mut r: Vec<String> = Vec::new();
    let mut cur: Vec<char> = Vec::new();
    let mut i: usize = 0;
    while i < v.len()
        invariant
            i <= v@.len(),
            v@ == s@,
            strings_view(r@) + lines_from(v@, i as int, cur@) == lines_of(s@),
        decreases v.len() - i,
    {
        let ghost before = strings_view(r@);
        let ghost c0 = cur@;
        if v[i] == '\n' {
            let mut end = cur.len();
            if end > 0 && cur[end - 1] == '\r' {
                end = end - 1;
            }
            let line = string_of_range(&cur, 0, end);
            let ghost lv = if c0.len() > 0 && c0.last() == '\r' { c0.drop_last() } else { c0 };
            assert(line@ =~= lv);
            r.push(line);
            assert(strings_view(r@) =~= before.push(lv));
            assert(before + (seq![lv] + lines_from(v@, i + 1, Seq::empty())) =~= before.push(lv) + lines_from(v@, i + 1, Seq::empty()));
            cur = Vec::new();
            assert(cur@ =~= Seq::<char>::empty());
        } else {
            cur.push(v[i]);
        }
        i = i + 1;
    }
    if cur.len() > 0 {
        let ghost before = strings_view(r@);
        let line = string_of_range(&cur, 0, cur.len());
        assert(line@ =~= cur@);
        r.push(line);
        assert(strings_view(r@) =~= before.push(cur@));
        assert(before + seq![cur@] =~= before.push(cur@));
    } else {
        assert(strings_view(r@) + Seq::<Seq<char>>::empty() =~= strings_view(r@));
    }
    r
}

/// `v[from..]` without leading and trailing white space.
fn trimmed_tail(v: &Vec<char>, from: usize) -> (r: String)
    requires
        from <= v@.len(),
    ensures
        r@ == trim_ws(v@.skip(from as int)),
{
    let n = v.len();
    let mut a = from;
    assert(v@.skip(a as int) =~= v@.subrange(from as int, n as int));
    while a < n && char_is_whitespace(v[a])
        invariant
            from <= a <= n,
            n == v@.len(),
            trim_start(v@.skip(from as int)) == trim_start(v@.subrange(a as int, n as int)),
        decreases n - a,
    {
        assert(v@.subrange(a as int, n as int).drop_first() =~= v@.subrange(a + 1, n as int));
        a = a + 1;
    }
    let ghost t = v@.subrange(a as int, n as int);
    assert(trim_start(t) == t);
    let mut b = n;
    assert(t =~= v@.subrange(a as int, b as int));
    while b > a && char_is_whitespace(v[b - 1])
        invariant
            a <= b <= n,
            n == v@.len(),
            trim_end(t) == trim_end(v@.subrange(a as int, b as int)),
        decreases b,
    {
        assert(v@.subrange(a as int, b as int).drop_last() =~= v@.subrange(a as int, b - 1));
        b = b - 1;
    }
    string_of_range(v, a, b)
}

fn push_spaces(s: &mut String, n: usize)
    ensures
        final(s)@ == old(s)@ + spaces(n as nat),
{
    let ghost s0 = s@;
    let mut k: usize = 0;
    while k < n
        invariant
            k <= n,
            s@ == s0 + spaces(k as nat),
        decreases n - k,
    {
        push_char(s, ' ');
        assert(s@ =~= s0 + spaces((k + 1) as nat));
        k = k + 1;
    }
}

/// What is shown for the error `err_msg` about the file `path` with source `content`.
pub fn error_report(path: &str, content: &str, err_msg: &str) -> (r: String)
    ensures
        r@ == report_text(path@, content@, err_msg@),
{
    let v = chars_of(err_msg);
    match locate(&v) {
        Some((idx, line, col, e)) => {
            let lines = lines_text(content);
            if line > 0 && line <= lines.len() {
                let mut r = String::new();
                append_str(&mut r, "\n\x1b[1;31mError\x1b[0m in ");
                r.append(path);
                append_str(&mut r, ":");
                append_decimal(&mut r, line);
                append_str(&mut r, ":");
                append_decimal(&mut r, col);
                append_str(&mut r, "\n");
                append_str(&mut r, " ");
                let mut num = String::new();
                append_decimal(&mut num, line);
                let digits = chars_of(num.as_str());
                if digits.len() < 5 {
                    push_spaces(&mut r, 5 - digits.len());
                }
                r.append(num.as_str());
                append_str(&mut r, " | ");
                r.append(lines[line - 1].as_str());
                append_str(&mut r, "\n");
                let mut pad = String::new();
                push_spaces(&mut pad, 7);
                let ghost p7 = pad@;
                let mut k: usize = 0;
                while k < col
                    invariant
                        k <= col,
                        pad@ == spaces((7 + k) as nat),
                    decreases col - k,
                {
                    push_char(&mut pad, ' ');
                    k = k + 1;
                }
                r.append(pad.as_str());
                append_str(&mut r, " \x1b[1;31m^\x1b[0m\n");
                r.append(pad.as_str());
                append_str(&mut r, " \x1b[1;31m");
                proof {
                    lemma_find_location(v@, v@.len() - 1);
                    lemma_char_pos(v@.skip(idx + 1), ']');
                }
                let vlen = v.len();
                assert(idx + 1 + e + 1 <= vlen);
                let msg = trimmed_tail(&v, idx + 1 + e + 1);
                assert(v@.skip(idx + 1).skip(e + 1) =~= v@.skip(idx + 1 + e + 1));
                r.append(msg.as_str());
                append_str(&mut r, "\x1b[0m\n");
                append_str(&mut r, "\n");
                assert(r@ =~= report_text(path@, content@, err_msg@));
                return r;
            }
        },
        None => {},
    }
    let mut r = String::new();
    append_str(&mut r, "\x1b[1;31mError\x1b[0m in ");
    r.append(path);
    append_str(&mut r, ": ");
    r.append(err_msg);
    append_str(&mut r, "\n");
    assert(r@ =~= fallback_text(path@, err_msg@));
    r
}

} // verus!
