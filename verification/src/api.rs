use vstd::prelude::*;

verus! {

use crate::compare::{analyze_mistakes, spec_mistakes};
use crate::dict::{Dict, dict_wf, lemma_get_entry, spec_keys};
use crate::mistake::{Mistake, MistakeV};
use crate::model::{Class, DClassV, DiagV, Diagram, Method};
use crate::strings::{chars_to_string, is_ws, spec_lines, split_lines, str_eq, to_chars};
use vstd::string::StringExecFns;

/// A character of an identifier or keyword.
pub open spec fn is_word_char(c: char) -> bool {
    ('a' <= c && c <= 'z') || ('A' <= c && c <= 'Z') || ('0' <= c && c <= '9') || c == '_'
}

/// A character an identifier may start with.
pub open spec fn is_ident_start(c: char) -> bool {
    ('a' <= c && c <= 'z') || ('A' <= c && c <= 'Z') || c == '_'
}

/// A character of a textual type, generics and arrays included.
pub open spec fn is_type_char(c: char) -> bool {
    is_word_char(c) || c == '<' || c == '>' || c == '[' || c == ']'
}

/// Whether a token may start at `p`: the line's start, or no word
/// character directly before.
pub open spec fn start_boundary(s: Seq<char>, p: int) -> bool {
    p == 0 || !is_word_char(s[p - 1])
}

/// The end of the whitespace run at `j`.
pub open spec fn scan_ws(s: Seq<char>, j: int) -> int
    decreases s.len() - j,
{
    if j < 0 || j >= s.len() || !is_ws(s[j]) {
        j
    } else {
        scan_ws(s, j + 1)
    }
}

/// The end of the word-character run at `j`.
pub open spec fn scan_word(s: Seq<char>, j: int) -> int
    decreases s.len() - j,
{
    if j < 0 || j >= s.len() || !is_word_char(s[j]) {
        j
    } else {
        scan_word(s, j + 1)
    }
}

/// The end of the type-character run at `j`.
pub open spec fn scan_type(s: Seq<char>, j: int) -> int
    decreases s.len() - j,
{
    if j < 0 || j >= s.len() || !is_type_char(s[j]) {
        j
    } else {
        scan_type(s, j + 1)
    }
}

/// The first class name a line declares: a word `class` at a token
/// boundary, whitespace, then an identifier.
pub open spec fn class_scan(s: Seq<char>, p: int) -> Option<Seq<char>>
    decreases s.len() - p,
{
    if p < 0 || p + 5 > s.len() {
        None
    } else if start_boundary(s, p) && s.subrange(p, p + 5) == "class"@ && p + 5 < s.len() && is_ws(
        s[p + 5],
    ) && scan_ws(s, p + 5) < s.len() && is_ident_start(s[scan_ws(s, p + 5)]) {
        let q = scan_ws(s, p + 5);
        Some(s.subrange(q, scan_word(s, q)))
    } else {
        class_scan(s, p + 1)
    }
}

/// A method name at `q` after the optional modifiers: a type token,
/// whitespace, the captured identifier, optional whitespace, and an
/// opening parenthesis.
pub open spec fn try_type(s: Seq<char>, q: int) -> Option<Seq<char>> {
    let k = scan_type(s, q);
    if k == q || k >= s.len() || !is_ws(s[k]) {
        None
    } else {
        let q3 = scan_ws(s, k);
        if q3 >= s.len() || !is_ident_start(s[q3]) {
            None
        } else {
            let e = scan_word(s, q3);
            let q4 = scan_ws(s, e);
            if q4 < s.len() && s[q4] == '(' {
                Some(s.subrange(q3, e))
            } else {
                None
            }
        }
    }
}

/// As `try_type`, preferring to read a `static` with whitespace first.
pub open spec fn try_static(s: Seq<char>, q: int) -> Option<Seq<char>> {
    if 0 <= q && q + 6 < s.len() && s.subrange(q, q + 6) == "static"@ && is_ws(s[q + 6]) {
        match try_type(s, scan_ws(s, q + 6)) {
            Some(c) => Some(c),
            None => try_type(s, q),
        }
    } else {
        try_type(s, q)
    }
}

/// The end of a visibility keyword at `p`, if one stands there.
pub open spec fn vis_end(s: Seq<char>, p: int) -> Option<int> {
    if 0 <= p && p + 6 <= s.len() && s.subrange(p, p + 6) == "public"@ {
        Some(p + 6)
    } else if 0 <= p && p + 7 <= s.len() && s.subrange(p, p + 7) == "private"@ {
        Some(p + 7)
    } else if 0 <= p && p + 9 <= s.len() && s.subrange(p, p + 9) == "protected"@ {
        Some(p + 9)
    } else {
        None
    }
}

/// A method signature starting at `p`: an optional visibility keyword,
/// an optional `static`, a type, and the captured name before `(`.
pub open spec fn try_at(s: Seq<char>, p: int) -> Option<Seq<char>> {
    match vis_end(s, p) {
        Some(ve) => match try_static(s, scan_ws(s, ve)) {
            Some(c) => Some(c),
            None => try_static(s, p),
        },
        None => try_static(s, p),
    }
}

/// The first method name a line declares.
pub open spec fn method_scan(s: Seq<char>, p: int) -> Option<Seq<char>>
    decreases s.len() - p,
{
    if p < 0 || p >= s.len() {
        None
    } else if start_boundary(s, p) {
        match try_at(s, p) {
            Some(c) => Some(c),
            None => method_scan(s, p + 1),
        }
    } else {
        method_scan(s, p + 1)
    }
}

/// The scanner's state: each seen class's methods, the classes in first
/// appearance order, and the class the scan is inside.
#[verifier::ext_equal]
pub ghost struct ScanV {
    pub methods: Map<Seq<char>, Seq<Seq<char>>>,
    pub names: Seq<Seq<char>>,
    pub cur: Option<Seq<char>>,
}

/// One line's effect: a class declaration opens (or reopens) that class;
/// inside a class, a method signature joins its methods.
pub open spec fn scan_line(st: ScanV, line: Seq<char>) -> ScanV {
    match class_scan(line, 0) {
        Some(name) => ScanV {
            methods: st.methods.insert(
                name,
                if st.methods.contains_key(name) {
                    st.methods[name]
                } else {
                    Seq::empty()
                },
            ),
            names: if st.methods.contains_key(name) {
                st.names
            } else {
                st.names.push(name)
            },
            cur: Some(name),
        },
        None => match st.cur {
            Some(cn) => match method_scan(line, 0) {
                Some(m) => if st.methods.contains_key(cn) {
                    ScanV { methods: st.methods.insert(cn, st.methods[cn].push(m)), ..st }
                } else {
                    st
                },
                None => st,
            },
            None => st,
        },
    }
}

/// The state after the first `n` lines.
pub open spec fn scan_lines(lines: Seq<Seq<char>>, n: int) -> ScanV
    decreases n,
{
    if n <= 0 {
        ScanV { methods: Map::empty(), names: Seq::empty(), cur: None }
    } else {
        scan_line(scan_lines(lines, n - 1), lines[n - 1])
    }
}

/// The diagram one source text induces: its scanned classes with their
/// methods, in first appearance order, and no relationships.
pub open spec fn spec_diagram(code: Seq<char>) -> DiagV {
    let st = scan_lines(spec_lines(code), spec_lines(code).len() as int);
    DiagV {
        classes: st.names.map_values(
            |n: Seq<char>|
                DClassV {
                    name: n,
                    methods: if st.methods.contains_key(n) {
                        st.methods[n]
                    } else {
                        Seq::empty()
                    },
                },
        ),
        rels: Seq::empty(),
    }
}

fn char_is_word(c: char) -> (r: bool)
    ensures
        r == is_word_char(c),
{
    ('a' <= c && c <= 'z') || ('A' <= c && c <= 'Z') || ('0' <= c && c <= '9') || c == '_'
}

fn char_is_ident_start(c: char) -> (r: bool)
    ensures
        r == is_ident_start(c),
{
    ('a' <= c && c <= 'z') || ('A' <= c && c <= 'Z') || c == '_'
}

fn char_is_type(c: char) -> (r: bool)
    ensures
        r == is_type_char(c),
{
    char_is_word(c) || c == '<' || c == '>' || c == '[' || c == ']'
}

fn scan_ws_exec(v: &Vec<char>, j: usize) -> (r: usize)
    requires
        j <= v@.len(),
    ensures
        r == scan_ws(v@, j as int),
        j <= r <= v@.len(),
    decreases v@.len() - j,
{
    if j >= v.len() || !crate::strings::char_is_ws(v[j]) {
        j
    } else {
        scan_ws_exec(v, j + 1)
    }
}

fn scan_word_exec(v: &Vec<char>, j: usize) -> (r: usize)
    requires
        j <= v@.len(),
    ensures
        r == scan_word(v@, j as int),
        j <= r <= v@.len(),
    decreases v@.len() - j,
{
    if j >= v.len() || !char_is_word(v[j]) {
        j
    } else {
        scan_word_exec(v, j + 1)
    }
}

fn scan_type_exec(v: &Vec<char>, j: usize) -> (r: usize)
    requires
        j <= v@.len(),
    ensures
        r == scan_type(v@, j as int),
        j <= r <= v@.len(),
    decreases v@.len() - j,
{
    if j >= v.len() || !char_is_type(v[j]) {
        j
    } else {
        scan_type_exec(v, j + 1)
    }
}

/// Whether the characters of `w` stand at position `p`.
fn word_at(v: &Vec<char>, p: usize, w: &str) -> (r: bool)
    ensures
        r == (p + w@.len() <= v@.len() && v@.subrange(p as int, p as int + w@.len()) == w@),
{
    let wc = to_chars(w);
    if p > v.len() || wc.len() > v.len() - p {
        return false;
    }
    let mut i: usize = 0;
    while i < wc.len()
        invariant
            i <= wc@.len(),
            wc@ == w@,
            p + wc@.len() <= v@.len(),
            v@.subrange(p as int, p as int + i) == w@.subrange(0, i as int),
        decreases wc@.len() - i,
    {
        if v[p + i] != wc[i] {
            proof {
                assert(v@.subrange(p as int, p as int + w@.len())[i as int] != w@[i as int]);
            }
            return false;
        }
        i = i + 1;
        proof {
            assert(v@.subrange(p as int, p as int + i) =~= w@.subrange(0, i as int));
        }
    }
    proof {
        assert(v@.subrange(p as int, p as int + w@.len()) =~= w@);
    }
    true
}

/// The captured slice between `a` and `b`.
fn slice_of(v: &Vec<char>, a: usize, b: usize) -> (r: String)
    requires
        a <= b <= v@.len(),
    ensures
        r@ == v@.subrange(a as int, b as int),
{
    let mut out: Vec<char> = Vec::new();
    let mut i: usize = a;
    while i < b
        invariant
            a <= i <= b <= v@.len(),
            out@ == v@.subrange(a as int, i as int),
        decreases b - i,
    {
        out.push(v[i]);
        i = i + 1;
        proof {
            assert(out@ =~= v@.subrange(a as int, i as int));
        }
    }
    chars_to_string(&out)
}

fn try_type_exec(v: &Vec<char>, q: usize) -> (r: Option<String>)
    requires
        q <= v@.len(),
    ensures
        match r {
            Some(c) => try_type(v@, q as int) == Some(c@),
            None => try_type(v@, q as int) is None,
        },
{
    let k = scan_type_exec(v, q);
    if k == q || k >= v.len() || !crate::strings::char_is_ws(v[k]) {
        None
    } else {
        let q3 = scan_ws_exec(v, k);
        if q3 >= v.len() || !char_is_ident_start(v[q3]) {
            None
        } else {
            let e = scan_word_exec(v, q3);
            let q4 = scan_ws_exec(v, e);
            if q4 < v.len() && v[q4] == '(' {
                Some(slice_of(v, q3, e))
            } else {
                None
            }
        }
    }
}

fn try_static_exec(v: &Vec<char>, q: usize) -> (r: Option<String>)
    requires
        q <= v@.len(),
    ensures
        match r {
            Some(c) => try_static(v@, q as int) == Some(c@),
            None => try_static(v@, q as int) is None,
        },
{
    proof {
        reveal_strlit("static");
        assert(("static"@).len() == 6);
    }
    if v.len() - q > 6 && word_at(v, q, "static") && crate::strings::char_is_ws(v[q + 6]) {
        let q2 = scan_ws_exec(v, q + 6);
        match try_type_exec(v, q2) {
            Some(c) => Some(c),
            None => try_type_exec(v, q),
        }
    } else {
        try_type_exec(v, q)
    }
}

fn try_at_exec(v: &Vec<char>, p: usize) -> (r: Option<String>)
    requires
        p <= v@.len(),
    ensures
        match r {
            Some(c) => try_at(v@, p as int) == Some(c@),
            None => try_at(v@, p as int) is None,
        },
{
    let total = v.len();
    proof {
        assert(total == v@.len());
        reveal_strlit("public");
        reveal_strlit("private");
        reveal_strlit("protected");
        assert(("public"@).len() == 6);
        assert(("private"@).len() == 7);
        assert(("protected"@).len() == 9);
        assert(("public"@)[1] == 'u');
        assert(("private"@)[1] == 'r');
        assert(("protected"@)[1] == 'r');
        assert(("private"@)[2] == 'i');
        assert(("protected"@)[2] == 'o');
    }
    let ve: Option<usize> = if word_at(v, p, "public") {
        Some(p + 6)
    } else if word_at(v, p, "private") {
        Some(p + 7)
    } else if word_at(v, p, "protected") {
        Some(p + 9)
    } else {
        None
    };
    match ve {
        Some(ve) => {
            let q = scan_ws_exec(v, ve);
            match try_static_exec(v, q) {
                Some(c) => Some(c),
                None => try_static_exec(v, p),
            }
        },
        None => try_static_exec(v, p),
    }
}

/// The first class name a line declares, if any.
fn class_name_in(v: &Vec<char>) -> (r: Option<String>)
    ensures
        match r {
            Some(c) => class_scan(v@, 0) == Some(c@),
            None => class_scan(v@, 0) is None,
        },
{
    class_scan_from(v, 0)
}

fn class_scan_from(v: &Vec<char>, p: usize) -> (r: Option<String>)
    requires
        p <= v@.len(),
    ensures
        match r {
            Some(c) => class_scan(v@, p as int) == Some(c@),
            None => class_scan(v@, p as int) is None,
        },
    decreases v@.len() - p,
{
    proof {
        reveal_strlit("class");
        assert(("class"@).len() == 5);
    }
    if v.len() < 5 || p > v.len() - 5 {
        return None;
    }
    let boundary = p == 0 || !char_is_word(v[p - 1]);
    if boundary && word_at(v, p, "class") && v.len() - p > 5 && crate::strings::char_is_ws(
        v[p + 5],
    ) {
        let q = scan_ws_exec(v, p + 5);
        if q < v.len() && char_is_ident_start(v[q]) {
            let e = scan_word_exec(v, q);
            return Some(slice_of(v, q, e));
        }
    }
    class_scan_from(v, p + 1)
}

/// The first method name a line declares, if any.
fn method_name_in(v: &Vec<char>) -> (r: Option<String>)
    ensures
        match r {
            Some(c) => method_scan(v@, 0) == Some(c@),
            None => method_scan(v@, 0) is None,
        },
{
    method_scan_from(v, 0)
}

fn method_scan_from(v: &Vec<char>, p: usize) -> (r: Option<String>)
    requires
        p <= v@.len(),
    ensures
        match r {
            Some(c) => method_scan(v@, p as int) == Some(c@),
            None => method_scan(v@, p as int) is None,
        },
    decreases v@.len() - p,
{
    if p >= v.len() {
        return None;
    }
    let boundary = p == 0 || !char_is_word(v[p - 1]);
    if boundary {
        match try_at_exec(v, p) {
            Some(c) => Some(c),
            None => method_scan_from(v, p + 1),
        }
    } else {
        method_scan_from(v, p + 1)
    }
}

/// The diagram the source induces: a lightweight line scan for class
/// headers and method signatures, no relationships.
pub fn diagram_from_code(source: &str) -> (r: Diagram)
    ensures
        r@ == spec_diagram(source@),
{
    let lines = split_lines(source);
    let ghost lv = lines@.map_values(|l: String| l@);
    let mut table: Dict<Vec<String>> = Dict::new();
    let mut current: Option<String> = None;
    proof {
        assert(crate::exec_flow::strs_map_view(table) =~= scan_lines(lv, 0).methods);
        assert(spec_keys(table) =~= scan_lines(lv, 0).names);
    }
    let mut i: usize = 0;
    while i < lines.len()
        invariant
            i <= lines@.len(),
            lv == lines@.map_values(|l: String| l@),
            lv.len() == lines@.len(),
            dict_wf(table),
            crate::exec_flow::strs_map_view(table) == scan_lines(lv, i as int).methods,
            spec_keys(table) == scan_lines(lv, i as int).names,
            (match current {
                Some(c) => scan_lines(lv, i as int).cur == Some(c@),
                None => scan_lines(lv, i as int).cur is None,
            }),
        decreases lines@.len() - i,
    {
        proof {
            assert(lv[i as int] == lines@[i as int]@);
        }
        let v = to_chars(lines[i].as_str());
        match class_name_in(&v) {
            Some(name) => {
                let existing: Vec<String> = match table.get(name.as_str()) {
                    Some(ms) => clone_names(ms),
                    None => Vec::new(),
                };
                let ghost pre = table;
                proof {
                    assert(existing@.map_values(|s: String| s@) =~= (
                    if crate::exec_flow::strs_map_view(pre).contains_key(name@) {
                        crate::exec_flow::strs_map_view(pre)[name@]
                    } else {
                        Seq::<Seq<char>>::empty()
                    }));
                }
                table.insert(name.clone(), existing);
                current = Some(name);
                proof {
                    assert(crate::exec_flow::strs_map_view(table) =~= scan_lines(
                        lv,
                        i + 1,
                    ).methods);
                    assert(spec_keys(table) =~= scan_lines(lv, i + 1).names);
                }
            },
            None => {
                match &current {
                    Some(cn) => {
                        match method_name_in(&v) {
                            Some(m) => {
                                match table.get(cn.as_str()) {
                                    Some(ms) => {
                                        let ghost pre = table;
                                        let mut ms2 = clone_names(ms);
                                        ms2.push(m);
                                        proof {
                                            assert(ms2@.map_values(|s: String| s@)
                                                =~= crate::exec_flow::strs_map_view(
                                                pre,
                                            )[cn@].push(ms2@.last()@));
                                        }
                                        table.insert(cn.clone(), ms2);
                                        proof {
                                            assert(crate::exec_flow::strs_map_view(table)
                                                =~= scan_lines(lv, i + 1).methods);
                                            assert(spec_keys(table) =~= scan_lines(
                                                lv,
                                                i + 1,
                                            ).names);
                                        }
                                    },
                                    None => {},
                                }
                            },
                            None => {},
                        }
                    },
                    None => {},
                }
            },
        }
        i = i + 1;
    }
    let ghost st = scan_lines(lv, lv.len() as int);
    let mut classes: Vec<Class> = Vec::new();
    proof {
        assert(classes@.map_values(|c: Class| c@) =~= spec_diagram(source@).classes.take(0));
    }
    let mut j: usize = 0;
    while j < table.entries.len()
        invariant
            j <= table.entries@.len(),
            dict_wf(table),
            crate::exec_flow::strs_map_view(table) == st.methods,
            spec_keys(table) == st.names,
            st.names.len() == table.entries@.len(),
            spec_diagram(source@).classes.len() == st.names.len(),
            classes@.map_values(|c: Class| c@) == spec_diagram(source@).classes.take(j as int),
        decreases table.entries@.len() - j,
    {
        let ghost prev = classes@.map_values(|c: Class| c@);
        proof {
            lemma_get_entry(table, j as int);
            assert(st.names[j as int] == table.entries@[j as int].key@);
        }
        let mut methods: Vec<Method> = Vec::new();
        let names = &table.entries[j].val;
        proof {
            assert(methods@.map_values(|m: Method| m.name@) =~= names@.map_values(
                |s: String| s@,
            ).take(0));
        }
        let mut k: usize = 0;
        while k < names.len()
            invariant
                k <= names@.len(),
                methods@.map_values(|m: Method| m.name@) == names@.map_values(
                    |s: String| s@,
                ).take(k as int),
            decreases names@.len() - k,
        {
            let ghost mprev = methods@.map_values(|m: Method| m.name@);
            methods.push(Method { name: names[k].clone() });
            k = k + 1;
            proof {
                assert(methods@.map_values(|m: Method| m.name@) =~= mprev.push(
                    names@[k - 1]@,
                ));
                assert(mprev.push(names@[k - 1]@) =~= names@.map_values(|s: String| s@).take(
                    k as int,
                ));
            }
        }
        proof {
            assert(names@.map_values(|s: String| s@).take(names@.len() as int) =~= names@.map_values(
                |s: String| s@,
            ));
        }
        let c = Class { name: table.entries[j].key.clone(), methods };
        proof {
            assert(c@ =~= spec_diagram(source@).classes[j as int]);
        }
        classes.push(c);
        j = j + 1;
        proof {
            assert(classes@.map_values(|x: Class| x@) =~= prev.push(c@));
            assert(prev.push(c@) =~= spec_diagram(source@).classes.take(j as int));
        }
    }
    let r = Diagram { classes, relationships: Vec::new() };
    proof {
        assert(spec_diagram(source@).classes.take(st.names.len() as int) =~= spec_diagram(
            source@,
        ).classes);
        assert(r@ =~= spec_diagram(source@));
    }
    r
}

/// Fresh copies of the given names.
fn clone_names(v: &Vec<String>) -> (r: Vec<String>)
    ensures
        r@ == v@,
{
    let mut out: Vec<String> = Vec::new();
    let mut i: usize = 0;
    while i < v.len()
        invariant
            i <= v@.len(),
            out@ == v@.subrange(0, i as int),
        decreases v@.len() - i,
    {
        out.push(v[i].clone());
        i = i + 1;
        proof {
            assert(out@ =~= v@.subrange(0, i as int));
        }
    }
    proof {
        assert(v@.subrange(0, v@.len() as int) =~= v@);
    }
    out
}

/// Compares the diagram the code induces with the drawn one and lists the
/// mistakes found.
pub fn compare_from_code_and_student(source_code: &str, student: &Diagram) -> (r: Vec<Mistake>)
    ensures
        r@.map_values(|m: Mistake| m@) == spec_mistakes(spec_diagram(source_code@), student@),
{
    let correct = diagram_from_code(source_code);
    analyze_mistakes(&correct, student)
}

} // verus!
