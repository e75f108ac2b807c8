use vstd::prelude::*;

verus! {

use vstd::string::StrSliceExecFns;
use vstd::string::StringExecFns;

/// Relies on str's `PartialEq`: two string slices are equal exactly when
/// their character contents are equal.
#[verifier::external_body]
pub fn str_eq(a: &str, b: &str) -> (r: bool)
    ensures
        r == (a@ == b@),
{
    a == b
}

/// Relies on `String::push`: appends the character to the end of the string.
#[verifier::external_body]
pub fn push_char(s: &mut String, c: char) -> (r: ())
    ensures
        final(s)@ == old(s)@.push(c),
{
    s.push(c)
}

/// What `char::is_uppercase` returns: the Unicode uppercase property,
/// a function of the character alone.
pub uninterp spec fn is_uppercase_char(c: char) -> bool;

/// Relies on `char::is_uppercase`: true exactly for characters with the
/// Unicode uppercase property; the result depends on the character alone.
#[verifier::external_body]
pub fn char_is_uppercase(c: char) -> (r: bool)
    ensures
        r == is_uppercase_char(c),
{
    c.is_uppercase()
}

pub fn string_eq(a: &String, b: &str) -> (r: bool)
    ensures
        r == (a@ == b@),
{
    str_eq(a.as_str(), b)
}

/// The characters of a string, in order.
pub fn to_chars(s: &str) -> (v: Vec<char>)
    ensures
        v@ == s@,
{
    let n = s.unicode_len();
    let mut v: Vec<char> = Vec::new();
    let mut i: usize = 0;
    while i < n
        invariant
            n == s@.len(),
            i <= n,
            v@ == s@.subrange(0, i as int),
        decreases n - i,
    {
        v.push(s.get_char(i));
        i = i + 1;
        proof {
            assert(v@ =~= s@.subrange(0, i as int));
        }
    }
    proof {
        assert(s@.subrange(0, n as int) =~= s@);
    }
    v
}

/// A string holding exactly the given characters.
pub fn chars_to_string(v: &Vec<char>) -> (s: String)
    ensures
        s@ == v@,
{
    let mut s = String::new();
    let mut i: usize = 0;
    while i < v.len()
        invariant
            i <= v@.len(),
            s@ == v@.subrange(0, i as int),
        decreases v@.len() - i,
    {
        push_char(&mut s, v[i]);
        i = i + 1;
        proof {
            assert(s@ =~= v@.subrange(0, i as int));
        }
    }
    proof {
        assert(v@.subrange(0, v@.len() as int) =~= v@);
    }
    s
}

pub open spec fn digit_char(d: nat) -> char {
    ((48 + (d % 10)) as u8) as char
}

/// The decimal numeral of `n`, most significant digit first.
pub open spec fn dec_str(n: nat) -> Seq<char>
    decreases n,
{
    if n < 10 {
        seq![digit_char(n)]
    } else {
        dec_str(n / 10) + seq![digit_char(n % 10)]
    }
}

/// The decimal numeral of `n` as a string.
pub fn usize_to_string(n: usize) -> (s: String)
    ensures
        s@ == dec_str(n as nat),
{
    let mut digits: Vec<char> = Vec::new();
    let mut m: usize = n;
    proof {
        assert(dec_str(n as nat) =~= dec_str(n as nat) + digits@);
    }
    while m >= 10
        invariant
            dec_str(n as nat) == dec_str(m as nat) + digits@,
        decreases m,
    {
        let d: u8 = (m % 10) as u8;
        let c: char = (48 + d) as char;
        let ghost prev = digits@;
        proof {
            assert(c == digit_char(m as nat % 10));
            assert(dec_str(m as nat) == dec_str(m as nat / 10) + seq![digit_char(m as nat % 10)]);
        }
        digits.insert(0, c);
        m = m / 10;
        proof {
            assert(digits@ =~= seq![c] + prev);
            assert(dec_str(n as nat) =~= dec_str(m as nat) + digits@);
        }
    }
    let d: u8 = (m % 10) as u8;
    let c: char = (48 + d) as char;
    let ghost prev = digits@;
    digits.insert(0, c);
    proof {
        assert(c == digit_char(m as nat));
        assert(dec_str(m as nat) == seq![digit_char(m as nat)]);
        assert(digits@ =~= seq![c] + prev);
        assert(dec_str(n as nat) =~= digits@);
    }
    chars_to_string(&digits)
}

pub open spec fn is_ws(c: char) -> bool {
    c == ' ' || c == '\t' || c == '\r' || c == '\n' || c == '\u{000B}' || c == '\u{000C}'
}

pub fn char_is_ws(c: char) -> (r: bool)
    ensures
        r == is_ws(c),
{
    c == ' ' || c == '\t' || c == '\r' || c == '\n' || c == '\u{000B}' || c == '\u{000C}'
}

/// `s` with leading whitespace removed.
pub open spec fn trim_front(s: Seq<char>) -> Seq<char>
    decreases s.len(),
{
    if s.len() > 0 && is_ws(s[0]) {
        trim_front(s.drop_first())
    } else {
        s
    }
}

/// `s` with trailing whitespace removed.
pub open spec fn trim_back(s: Seq<char>) -> Seq<char>
    decreases s.len(),
{
    if s.len() > 0 && is_ws(s[s.len() - 1]) {
        trim_back(s.drop_last())
    } else {
        s
    }
}

/// `s` with leading and trailing whitespace removed.
pub open spec fn spec_trim(s: Seq<char>) -> Seq<char> {
    trim_back(trim_front(s))
}

/// The characters of `v` from `lo` to `hi`, with surrounding whitespace
/// kept out; `trim` is this on the whole of `v`.
pub fn trim_chars(v: &Vec<char>) -> (r: Vec<char>)
    ensures
        r@ == spec_trim(v@),
{
    let mut lo: usize = 0;
    proof {
        assert(v@.subrange(0, v@.len() as int) =~= v@);
    }
    while lo < v.len() && char_is_ws(v[lo])
        invariant
            lo <= v@.len(),
            trim_front(v@) == trim_front(v@.subrange(lo as int, v@.len() as int)),
        decreases v@.len() - lo,
    {
        proof {
            assert(v@.subrange(lo as int, v@.len() as int).drop_first() =~= v@.subrange(
                lo as int + 1,
                v@.len() as int,
            ));
        }
        lo = lo + 1;
    }
    let mut hi: usize = v.len();
    proof {
        assert(v@.subrange(lo as int, v@.len() as int) =~= v@.subrange(lo as int, hi as int));
        let tail = v@.subrange(lo as int, v@.len() as int);
        if tail.len() > 0 {
            assert(!is_ws(tail[0]));
        }
        assert(trim_front(tail) == tail);
    }
    while hi > lo && char_is_ws(v[hi - 1])
        invariant
            lo <= hi <= v@.len(),
            spec_trim(v@) == trim_back(v@.subrange(lo as int, hi as int)),
            lo < v@.len() ==> !is_ws(v@[lo as int]),
        decreases hi,
    {
        proof {
            let cur = v@.subrange(lo as int, hi as int);
            assert(cur.len() > 0 && is_ws(cur[cur.len() - 1]));
            assert(cur.drop_last() =~= v@.subrange(lo as int, hi as int - 1));
        }
        hi = hi - 1;
    }
    let mut out: Vec<char> = Vec::new();
    let mut i: usize = lo;
    while i < hi
        invariant
            lo <= i <= hi <= v@.len(),
            out@ == v@.subrange(lo as int, i as int),
        decreases hi - i,
    {
        out.push(v[i]);
        i = i + 1;
        proof {
            assert(v@.subrange(lo as int, i - 1).push(v@[i - 1]) =~= v@.subrange(lo as int, i as int));
        }
    }
    proof {
        let cur = v@.subrange(lo as int, hi as int);
        if cur.len() > 0 {
            assert(!is_ws(cur[cur.len() - 1]));
            assert(!is_ws(cur[0]));
        }
        assert(trim_back(cur) == cur);
        assert(trim_front(cur) == cur);
    }
    out
}

/// The trimmed form of `s`.
pub fn trim_str(s: &str) -> (r: String)
    ensures
        r@ == spec_trim(s@),
{
    let v = to_chars(s);
    let t = trim_chars(&v);
    chars_to_string(&t)
}

/// The lines of `s`, reading on from position `i` with `cur` the part of the
/// current line already read and `acc` the lines already complete: lines are
/// split at a newline, a carriage return directly before the newline is kept
/// out, and a final empty line is kept out.
pub open spec fn lines_from(s: Seq<char>, i: int, cur: Seq<char>, acc: Seq<Seq<char>>) -> Seq<
    Seq<char>,
>
    decreases s.len() - i,
{
    if i < 0 || i >= s.len() {
        if cur.len() > 0 {
            acc.push(cur)
        } else {
            acc
        }
    } else if s[i] == '\n' {
        let line = if cur.len() > 0 && cur[cur.len() - 1] == '\r' {
            cur.drop_last()
        } else {
            cur
        };
        lines_from(s, i + 1, Seq::empty(), acc.push(line))
    } else {
        lines_from(s, i + 1, cur.push(s[i]), acc)
    }
}

/// The lines of `s`, as `str::lines` yields them.
pub open spec fn spec_lines(s: Seq<char>) -> Seq<Seq<char>> {
    lines_from(s, 0, Seq::empty(), Seq::empty())
}

/// The lines of the source text, in order.
pub fn split_lines(s: &str) -> (r: Vec<String>)
    ensures
        r@.map_values(|l: String| l@) == spec_lines(s@),
{
    let v = to_chars(s);
    let mut acc: Vec<String> = Vec::new();
    let mut cur: Vec<char> = Vec::new();
    let mut i: usize = 0;
    proof {
        assert(acc@.map_values(|l: String| l@) =~= Seq::<Seq<char>>::empty());
    }
    while i < v.len()
        invariant
            i <= v@.len(),
            v@ == s@,
            lines_from(s@, i as int, cur@, acc@.map_values(|l: String| l@)) == spec_lines(s@),
        decreases v@.len() - i,
    {
        let c = v[i];
        if c == '\n' {
            let mut line = cur;
            if line.len() > 0 && line[line.len() - 1] == '\r' {
                line.pop();
            }
            let ghost prev = acc@.map_values(|l: String| l@);
            acc.push(chars_to_string(&line));
            proof {
                assert(acc@.map_values(|l: String| l@) =~= prev.push(line@));
            }
            cur = Vec::new();
        } else {
            cur.push(c);
        }
        i = i + 1;
    }
    if cur.len() > 0 {
        let ghost prev = acc@.map_values(|l: String| l@);
        acc.push(chars_to_string(&cur));
        proof {
            assert(acc@.map_values(|l: String| l@) =~= prev.push(cur@));
        }
    }
    acc
}

/// `s` with each character replaced as `f` maps it, considering the first
/// `n` characters.
pub open spec fn map_chars(s: Seq<char>, n: int, f: spec_fn(char) -> Seq<char>) -> Seq<char>
    decreases n,
{
    if n <= 0 {
        Seq::empty()
    } else {
        map_chars(s, n - 1, f) + f(s[n - 1])
    }
}

/// One character of a name made safe for a graph node identifier.
pub open spec fn sanitize_one(c: char) -> Seq<char> {
    if c == ' ' || c == '.' || c == '<' || c == '>' || c == '[' || c == ']' || c == '(' || c == ')'
        || c == '-' || c == '+' {
        seq!['_']
    } else {
        seq![c]
    }
}

/// The name with every separator character replaced by an underscore.
pub fn sanitize_name(name: &str) -> (r: String)
    ensures
        r@ == map_chars(name@, name@.len() as int, |c: char| sanitize_one(c)),
{
    let v = to_chars(name);
    let mut out: Vec<char> = Vec::new();
    let mut i: usize = 0;
    while i < v.len()
        invariant
            i <= v@.len(),
            v@ == name@,
            out@ == map_chars(name@, i as int, |c: char| sanitize_one(c)),
        decreases v@.len() - i,
    {
        let c = v[i];
        if c == ' ' || c == '.' || c == '<' || c == '>' || c == '[' || c == ']' || c == '(' || c
            == ')' || c == '-' || c == '+' {
            out.push('_');
        } else {
            out.push(c);
        }
        i = i + 1;
        proof {
            assert(out@ =~= map_chars(name@, i as int, |ch: char| sanitize_one(ch)));
        }
    }
    chars_to_string(&out)
}

/// One character with a dot replaced by an underscore.
pub open spec fn undot_one(c: char) -> Seq<char> {
    if c == '.' {
        seq!['_']
    } else {
        seq![c]
    }
}

/// The name with every dot replaced by an underscore.
pub fn replace_dots(name: &str) -> (r: String)
    ensures
        r@ == map_chars(name@, name@.len() as int, |c: char| undot_one(c)),
{
    let v = to_chars(name);
    let mut out: Vec<char> = Vec::new();
    let mut i: usize = 0;
    while i < v.len()
        invariant
            i <= v@.len(),
            v@ == name@,
            out@ == map_chars(name@, i as int, |c: char| undot_one(c)),
        decreases v@.len() - i,
    {
        let c = v[i];
        if c == '.' {
            out.push('_');
        } else {
            out.push(c);
        }
        i = i + 1;
        proof {
            assert(out@ =~= map_chars(name@, i as int, |ch: char| undot_one(ch)));
        }
    }
    chars_to_string(&out)
}

/// One character of a label with quotes and braces escaped.
pub open spec fn escape_one(c: char) -> Seq<char> {
    if c == '"' {
        seq!['\\', '"']
    } else if c == '{' {
        seq!['\\', '{']
    } else if c == '}' {
        seq!['\\', '}']
    } else if c == '|' {
        seq!['\\', '|']
    } else {
        seq![c]
    }
}

/// The label with quotes, braces and bars escaped for graph output.
pub fn escape_label(text: &str) -> (r: String)
    ensures
        r@ == map_chars(text@, text@.len() as int, |c: char| escape_one(c)),
{
    let v = to_chars(text);
    let mut out: Vec<char> = Vec::new();
    let mut i: usize = 0;
    while i < v.len()
        invariant
            i <= v@.len(),
            v@ == text@,
            out@ == map_chars(text@, i as int, |c: char| escape_one(c)),
        decreases v@.len() - i,
    {
        let c = v[i];
        if c == '"' {
            out.push('\\');
            out.push('"');
        } else if c == '{' {
            out.push('\\');
            out.push('{');
        } else if c == '}' {
            out.push('\\');
            out.push('}');
        } else if c == '|' {
            out.push('\\');
            out.push('|');
        } else {
            out.push(c);
        }
        i = i + 1;
        proof {
            assert(out@ =~= map_chars(text@, i as int, |ch: char| escape_one(ch)));
        }
    }
    chars_to_string(&out)
}

/// One character of a quote-only escape.
pub open spec fn escape_quote_one(c: char) -> Seq<char> {
    if c == '"' {
        seq!['\\', '"']
    } else {
        seq![c]
    }
}

/// The label with double quotes escaped.
pub fn escape_quotes(text: &str) -> (r: String)
    ensures
        r@ == map_chars(text@, text@.len() as int, |c: char| escape_quote_one(c)),
{
    let v = to_chars(text);
    let mut out: Vec<char> = Vec::new();
    let mut i: usize = 0;
    while i < v.len()
        invariant
            i <= v@.len(),
            v@ == text@,
            out@ == map_chars(text@, i as int, |c: char| escape_quote_one(c)),
        decreases v@.len() - i,
    {
        let c = v[i];
        if c == '"' {
            out.push('\\');
            out.push('"');
        } else {
            out.push(c);
        }
        i = i + 1;
        proof {
            assert(out@ =~= map_chars(text@, i as int, |ch: char| escape_quote_one(ch)));
        }
    }
    chars_to_string(&out)
}

/// Whether the first character of `s` is an uppercase letter.
pub fn starts_uppercase(s: &str) -> (r: bool)
    ensures
        r == (s@.len() > 0 && is_uppercase_char(s@[0])),
{
    if s.unicode_len() == 0 {
        false
    } else {
        char_is_uppercase(s.get_char(0))
    }
}

} // verus!
