//! Reading the declarations of a GLSL source: its vertex inputs, uniforms, 2D samplers and
//! fragment outputs, found by their `layout` qualifiers.

use vstd::prelude::*;
use crate::text::{decimal, owned, push_char, push_decimal, push_str, text_chars};
use crate::shader::{ShaderProgramAttribute, ShaderProgramOutput, ShaderProgramScalarUniform, ShaderProgramTexture2d};

verus! {

/// The kind of declaration to look for.
#[derive(Clone, Copy, PartialEq, Eq, Structural)]
pub enum ShaderProgramVariableType {
    In,
    Uniform,
    Sampler2d,
    Output,
}

/// A declaration found in a source: the name of a vertex input or uniform, the binding and
/// name of a 2D sampler, or the name and type of an output.
pub enum ShaderProgramInputFindResult {
    In(String),
    Uniform(String),
    Sampler2d(u32, String),
    Output(String, String),
}

/// A found declaration, with its texts as character sequences.
pub enum Found {
    In(Seq<char>),
    Uniform(Seq<char>),
    Sampler2d(u32, Seq<char>),
    Output(Seq<char>, Seq<char>),
}

/// The texts of a found declaration.
pub open spec fn found_of(r: ShaderProgramInputFindResult) -> Found {
    match r {
        ShaderProgramInputFindResult::In(n) => Found::In(n@),
        ShaderProgramInputFindResult::Uniform(n) => Found::Uniform(n@),
        ShaderProgramInputFindResult::Sampler2d(b, n) => Found::Sampler2d(b, n@),
        ShaderProgramInputFindResult::Output(n, f) => Found::Output(n@, f@),
    }
}

/// `c` is white space as `char::is_whitespace` counts it: a character with the Unicode
/// `White_Space` property.
pub open spec fn is_space(c: char) -> bool {
    let u = c as u32;
    ||| 0x09 <= u <= 0x0D
    ||| u == 0x20
    ||| u == 0x85
    ||| u == 0xA0
    ||| u == 0x1680
    ||| 0x2000 <= u <= 0x200A
    ||| u == 0x2028
    ||| u == 0x2029
    ||| u == 0x202F
    ||| u == 0x205F
    ||| u == 0x3000
}

/// The text that introduces a declaration of kind `kind` at location `n`.
pub open spec fn input_pattern(kind: ShaderProgramVariableType, n: nat) -> Seq<char> {
    match kind {
        ShaderProgramVariableType::In => "layout (location = "@ + decimal(n) + ") in "@,
        ShaderProgramVariableType::Uniform => "layout (location = "@ + decimal(n) + ") uniform "@,
        ShaderProgramVariableType::Output => "layout (location = "@ + decimal(n) + ") out "@,
        ShaderProgramVariableType::Sampler2d => ", location = "@ + decimal(n) + ") uniform sampler2D "@,
    }
}

/// `pat` occurs in `text` at position `i`.
pub open spec fn occurs_at(text: Seq<char>, pat: Seq<char>, i: int) -> bool {
    &&& 0 <= i
    &&& i + pat.len() <= text.len()
    &&& text.subrange(i, i + pat.len()) == pat
}

/// `i` is the last position at which `pat` occurs in `text`.
pub open spec fn is_last_occurrence(text: Seq<char>, pat: Seq<char>, i: int) -> bool {
    &&& occurs_at(text, pat, i)
    &&& forall|j: int| i < j ==> !#[trigger] occurs_at(text, pat, j)
}

/// The last position at which `pat` occurs in `text`, if it occurs.
pub open spec fn last_occurrence(text: Seq<char>, pat: Seq<char>) -> Option<int> {
    if exists|i: int| is_last_occurrence(text, pat, i) {
        Some(choose|i: int| is_last_occurrence(text, pat, i))
    } else {
        None
    }
}

/// `j` is the first semicolon of `text` at or after `from`.
pub open spec fn is_next_semicolon(text: Seq<char>, from: int, j: int) -> bool {
    &&& from <= j < text.len()
    &&& text[j] == ';'
    &&& forall|k: int| from <= k < j ==> text[k] != ';'
}

/// The first semicolon of `text` at or after `from`, if there is one.
pub open spec fn next_semicolon(text: Seq<char>, from: int) -> Option<int> {
    if exists|j: int| is_next_semicolon(text, from, j) {
        Some(choose|j: int| is_next_semicolon(text, from, j))
    } else {
        None
    }
}

/// `s` without its trailing white space.
pub open spec fn trim_end(s: Seq<char>) -> Seq<char>
    decreases s.len(),
{
    if s.len() > 0 && is_space(s.last()) {
        trim_end(s.drop_last())
    } else {
        s
    }
}

/// `s` without its leading white space.
pub open spec fn trim_start(s: Seq<char>) -> Seq<char>
    decreases s.len(),
{
    if s.len() > 0 && is_space(s[0]) {
        trim_start(s.drop_first())
    } else {
        s
    }
}

/// Where the run of non-space characters that ends `t` starts.
pub open spec fn word_start(t: Seq<char>) -> nat
    decreases t.len(),
{
    if t.len() == 0 {
        0
    } else if is_space(t.last()) {
        t.len()
    } else {
        word_start(t.drop_last())
    }
}

/// The last white-space separated word of `s`, if it has one.
pub open spec fn last_word(s: Seq<char>) -> Option<Seq<char>> {
    let t = trim_end(s);
    if t.len() == 0 {
        None
    } else {
        Some(t.skip(word_start(t) as int))
    }
}

/// `s` up to its last white-space separated word.
pub open spec fn before_last_word(s: Seq<char>) -> Seq<char> {
    let t = trim_end(s);
    t.take(word_start(t) as int)
}

/// Every character of `d` is a decimal digit.
pub open spec fn all_digits(d: Seq<char>) -> bool {
    forall|i: int| 0 <= i < d.len() ==> '0' <= #[trigger] d[i] <= '9'
}

/// The number that the decimal digits `d` write.
pub open spec fn digits_value(d: Seq<char>) -> nat
    decreases d.len(),
{
    if d.len() == 0 {
        0
    } else {
        digits_value(d.drop_last()) * 10 + ((d.last() as int) - ('0' as int)) as nat
    }
}

/// `s` read as a `u32` the way `str::parse` reads one: an optional `+`, then one or more
/// decimal digits.
pub open spec fn parse_u32(s: Seq<char>) -> Option<u32> {
    let d = if s.len() > 0 && s[0] == '+' {
        s.drop_first()
    } else {
        s
    };
    parse_digits(d)
}

/// The decimal digits `d` read as a `u32`, if they are one or more digits and fit.
pub open spec fn parse_digits(d: Seq<char>) -> Option<u32> {
    if d.len() > 0 && all_digits(d) && digits_value(d) <= u32::MAX {
        Some(digits_value(d) as u32)
    } else {
        None
    }
}

/// Some sampler found so far is named `name` with a binding other than `binding`.
pub open spec fn sampler_conflict(found: Seq<Found>, name: Seq<char>, binding: u32) -> bool {
    exists|k: int| 0 <= k < found.len() && (#[trigger] found[k] matches Found::Sampler2d(b, n) && n == name && b != binding)
}

/// Some sampler found so far is named `name`.
pub open spec fn sampler_listed(found: Seq<Found>, name: Seq<char>) -> bool {
    exists|k: int| 0 <= k < found.len() && (#[trigger] found[k] matches Found::Sampler2d(_, n) && n == name)
}

/// What looking for the declaration of kind `kind` at location `n` adds to `found`, or
/// `None` where the search fails: a declaration without a semicolon after it, or a sampler
/// whose binding cannot be read or contradicts an earlier one.
pub open spec fn scan_location(
    text: Seq<char>,
    kind: ShaderProgramVariableType,
    n: nat,
    found: Seq<Found>,
) -> Option<Seq<Found>> {
    let pat = input_pattern(kind, n);
    match last_occurrence(text, pat) {
        None => Some(found),
        Some(i) => {
            let start = i + pat.len();
            match next_semicolon(text, start) {
                None => None,
                Some(semi) => {
                    let decl = text.subrange(start, semi);
                    match last_word(decl) {
                        None => Some(found),
                        Some(w) => match kind {
                            ShaderProgramVariableType::In => Some(found.push(Found::In(w))),
                            ShaderProgramVariableType::Uniform => Some(found.push(Found::Uniform(w))),
                            ShaderProgramVariableType::Output => match last_word(before_last_word(decl)) {
                                Some(f) => Some(found.push(Found::Output(w, f))),
                                None => Some(found),
                            },
                            ShaderProgramVariableType::Sampler2d => if i < 2 {
                                None
                            } else {
                                match parse_u32(trim_start(trim_end(text.subrange(i - 2, i)))) {
                                    None => None,
                                    Some(b) => if sampler_conflict(found, w, b) {
                                        None
                                    } else if sampler_listed(found, w) {
                                        Some(found)
                                    } else {
                                        Some(found.push(Found::Sampler2d(b, w)))
                                    },
                                }
                            },
                        },
                    }
                },
            }
        },
    }
}

/// The declarations of kind `kind` at locations `min` up to `n`, in order of location, or
/// `None` where the search fails.
pub open spec fn scan_locations(text: Seq<char>, kind: ShaderProgramVariableType, min: nat, n: nat) -> Option<Seq<Found>>
    decreases n,
{
    if n <= min {
        Some(Seq::empty())
    } else {
        match scan_locations(text, kind, min, (n - 1) as nat) {
            None => None,
            Some(found) => scan_location(text, kind, (n - 1) as nat, found),
        }
    }
}


fn occurs_at_exec(text: &Vec<char>, pat: &Vec<char>, i: usize) -> (r: bool)
    requires
        i + pat@.len() <= text@.len(),
    ensures
        r == occurs_at(text@, pat@, i as int),
{
    let n = pat.len();
    let tl = text.len();
    let mut k: usize = 0;
    while k < n
        invariant
            n == pat@.len(),
            tl == text@.len(),
            i + n <= text@.len(),
            k <= n,
            forall|q: int| 0 <= q < k ==> text@[i + q] == pat@[q],
        decreases n - k,
    {
        if text[i + k] != pat[k] {
            assert(text@.subrange(i as int, i + n)[k as int] != pat@[k as int]);
            return false;
        }
        k += 1;
    }
    assert(text@.subrange(i as int, i + n) =~= pat@);
    true
}

/// The last position at which `pat` occurs in `text`.
fn rfind(text: &Vec<char>, pat: &Vec<char>) -> (r: Option<usize>)
    ensures
        match r {
            Some(i) => last_occurrence(text@, pat@) == Some(i as int),
            None => last_occurrence(text@, pat@) is None,
        },
{
    if pat.len() > text.len() {
        proof {
            assert forall|i: int| !is_last_occurrence(text@, pat@, i) by {}
        }
        return None;
    }
    let mut i: usize = text.len() - pat.len();
    loop
        invariant
            pat@.len() <= text@.len(),
            i <= text@.len() - pat@.len(),
            forall|j: int| i < j ==> !#[trigger] occurs_at(text@, pat@, j),
        decreases i,
    {
        if occurs_at_exec(text, pat, i) {
            proof {
                assert(is_last_occurrence(text@, pat@, i as int));
                let c = choose|c: int| is_last_occurrence(text@, pat@, c);
                if c != i as int {
                    if c < i as int {
                        assert(!occurs_at(text@, pat@, i as int));
                    } else {
                        assert(!occurs_at(text@, pat@, c));
                    }
                }
            }
            return Some(i);
        }
        if i == 0 {
            proof {
                assert forall|c: int| !is_last_occurrence(text@, pat@, c) by {
                    if c >= 0 {
                        assert(!occurs_at(text@, pat@, c));
                    }
                }
            }
            return None;
        }
        i -= 1;
    }
}

/// The first semicolon of `text` at or after `from`.
fn find_semicolon(text: &Vec<char>, from: usize) -> (r: Option<usize>)
    ensures
        match r {
            Some(j) => next_semicolon(text@, from as int) == Some(j as int),
            None => next_semicolon(text@, from as int) is None,
        },
{
    let n = text.len();
    let mut j: usize = from;
    while j < n
        invariant
            n == text@.len(),
            from <= j || n <= j,
            forall|k: int| from <= k < j ==> text@[k] != ';',
        decreases n - j,
    {
        if text[j] == ';' {
            proof {
                assert(is_next_semicolon(text@, from as int, j as int));
                let c = choose|c: int| is_next_semicolon(text@, from as int, c);
                if c != j as int {
                    if c < j as int {
                        assert(text@[c] != ';');
                    } else {
                        assert(text@[j as int] != ';');
                    }
                }
            }
            return Some(j);
        }
        j += 1;
    }
    proof {
        assert forall|c: int| !is_next_semicolon(text@, from as int, c) by {
            if from <= c < n {
                assert(text@[c] != ';');
            }
        }
    }
    None
}

fn is_space_exec(c: char) -> (r: bool)
    ensures
        r == is_space(c),
{
    let u = c as u32;
    (0x09 <= u && u <= 0x0D) || u == 0x20 || u == 0x85 || u == 0xA0 || u == 0x1680 || (0x2000 <= u && u <= 0x200A)
        || u == 0x2028 || u == 0x2029 || u == 0x202F || u == 0x205F || u == 0x3000
}

/// The end of `text[a..e]` without its trailing white space.
fn trimmed_end(text: &Vec<char>, a: usize, e: usize) -> (r: usize)
    requires
        a <= e <= text@.len(),
    ensures
        a <= r <= e,
        trim_end(text@.subrange(a as int, e as int)) == text@.subrange(a as int, r as int),
{
    let mut k: usize = e;
    while k > a && is_space_exec(text[k - 1])
        invariant
            a <= k <= e <= text@.len(),
            trim_end(text@.subrange(a as int, e as int)) == trim_end(text@.subrange(a as int, k as int)),
        decreases k,
    {
        proof {
            let t = text@.subrange(a as int, k as int);
            assert(t.drop_last() =~= text@.subrange(a as int, k - 1));
            assert(t.last() == text@[k - 1]);
        }
        k -= 1;
    }
    proof {
        let t = text@.subrange(a as int, k as int);
        if k > a {
            assert(t.last() == text@[k - 1]);
        }
    }
    k
}

/// The start of `text[a..e]` without its leading white space.
fn trimmed_start(text: &Vec<char>, a: usize, e: usize) -> (r: usize)
    requires
        a <= e <= text@.len(),
    ensures
        a <= r <= e,
        trim_start(text@.subrange(a as int, e as int)) == text@.subrange(r as int, e as int),
{
    let mut k: usize = a;
    while k < e && is_space_exec(text[k])
        invariant
            a <= k <= e <= text@.len(),
            trim_start(text@.subrange(a as int, e as int)) == trim_start(text@.subrange(k as int, e as int)),
        decreases e - k,
    {
        proof {
            let t = text@.subrange(k as int, e as int);
            assert(t.drop_first() =~= text@.subrange(k + 1, e as int));
            assert(t[0] == text@[k as int]);
        }
        k += 1;
    }
    proof {
        let t = text@.subrange(k as int, e as int);
        if k < e {
            assert(t[0] == text@[k as int]);
        }
    }
    k
}

/// Where the word that ends `text[a..e]` starts.
fn word_begin(text: &Vec<char>, a: usize, e: usize) -> (r: usize)
    requires
        a <= e <= text@.len(),
    ensures
        a <= r <= e,
        word_start(text@.subrange(a as int, e as int)) == r - a,
{
    let mut k: usize = e;
    while k > a && !is_space_exec(text[k - 1])
        invariant
            a <= k <= e <= text@.len(),
            word_start(text@.subrange(a as int, e as int)) == word_start(text@.subrange(a as int, k as int)),
        decreases k,
    {
        proof {
            let t = text@.subrange(a as int, k as int);
            assert(t.drop_last() =~= text@.subrange(a as int, k - 1));
            assert(t.last() == text@[k - 1]);
        }
        k -= 1;
    }
    proof {
        let t = text@.subrange(a as int, k as int);
        if k > a {
            assert(t.last() == text@[k - 1]);
        }
    }
    k
}

/// The bounds of the last word of `text[a..e]`, if it has one.
fn last_word_bounds(text: &Vec<char>, a: usize, e: usize) -> (r: Option<(usize, usize)>)
    requires
        a <= e <= text@.len(),
    ensures
        match r {
            Some((w, t)) => a <= w <= t <= e && last_word(text@.subrange(a as int, e as int)) == Some(
                text@.subrange(w as int, t as int),
            ) && before_last_word(text@.subrange(a as int, e as int)) == text@.subrange(a as int, w as int),
            None => last_word(text@.subrange(a as int, e as int)) is None,
        },
{
    let t = trimmed_end(text, a, e);
    if t == a {
        return None;
    }
    let w = word_begin(text, a, t);
    proof {
        let tt = text@.subrange(a as int, t as int);
        assert(tt.skip(w - a) =~= text@.subrange(w as int, t as int));
        assert(tt.take(w - a) =~= text@.subrange(a as int, w as int));
    }
    Some((w, t))
}

/// The text `text[a..e]`.
fn string_of(text: &Vec<char>, a: usize, e: usize) -> (r: String)
    requires
        a <= e <= text@.len(),
    ensures
        r@ == text@.subrange(a as int, e as int),
{
    let mut s = String::new();
    let mut k: usize = a;
    while k < e
        invariant
            a <= k <= e <= text@.len(),
            s@ == text@.subrange(a as int, k as int),
        decreases e - k,
    {
        push_char(&mut s, text[k]);
        assert(text@.subrange(a as int, k + 1) =~= text@.subrange(a as int, k as int).push(text@[k as int]));
        k += 1;
    }
    s
}


/// The texts of found declarations.
pub open spec fn founds(v: Seq<ShaderProgramInputFindResult>) -> Seq<Found> {
    v.map_values(|x: ShaderProgramInputFindResult| found_of(x))
}

fn pattern_chars(kind: ShaderProgramVariableType, n: u32) -> (r: Vec<char>)
    ensures
        r@ == input_pattern(kind, n as nat),
{
    let mut s = match kind {
        ShaderProgramVariableType::Sampler2d => owned(", location = "),
        _ => owned("layout (location = "),
    };
    push_decimal(&mut s, n as u64);
    match kind {
        ShaderProgramVariableType::In => push_str(&mut s, ") in "),
        ShaderProgramVariableType::Uniform => push_str(&mut s, ") uniform "),
        ShaderProgramVariableType::Output => push_str(&mut s, ") out "),
        ShaderProgramVariableType::Sampler2d => push_str(&mut s, ") uniform sampler2D "),
    }
    text_chars(s.as_str())
}

/// `text[p..q]`, at most two characters, read as `parse_u32` reads it.
fn parse_binding(text: &Vec<char>, p: usize, q: usize) -> (r: Option<u32>)
    requires
        p <= q <= text@.len(),
        q - p <= 2,
    ensures
        r == parse_u32(text@.subrange(p as int, q as int)),
{
    let ghost s = text@.subrange(p as int, q as int);
    assert(s.len() > 0 ==> s[0] == text@[p as int]);
    let mut a = p;
    if a < q && text[a] == '+' {
        a += 1;
        assert(s.drop_first() =~= text@.subrange(a as int, q as int));
    } else {
        assert(s =~= text@.subrange(a as int, q as int));
    }
    let ghost d = text@.subrange(a as int, q as int);
    assert(parse_u32(s) == parse_digits(d));
    if a == q {
        return None;
    }
    let mut value: u32 = 0;
    let mut k = a;
    while k < q
        invariant
            a <= k <= q <= text@.len(),
            q - a <= 2,
            d == text@.subrange(a as int, q as int),
            s == text@.subrange(p as int, q as int),
            parse_u32(s) == parse_digits(d),
            all_digits(text@.subrange(a as int, k as int)),
            value == digits_value(text@.subrange(a as int, k as int)),
            value <= 99,
            k - a == 0 ==> value == 0,
            k - a <= 1 ==> value <= 9,
        decreases q - k,
    {
        let c = text[k];
        if c < '0' || c > '9' {
            assert(d[k - a] == c);
            return None;
        }
        let ghost before = text@.subrange(a as int, k as int);
        let ghost after = text@.subrange(a as int, k + 1);
        assert(after.drop_last() =~= before);
        assert(after.last() == c);
        value = value * 10 + ((c as u32) - ('0' as u32));
        k += 1;
    }
    assert(text@.subrange(a as int, q as int) =~= d);
    Some(value)
}

/// Whether a sampler found so far is named `name` with another binding, and whether one is
/// named `name` at all.
fn sampler_status(found: &Vec<ShaderProgramInputFindResult>, name: &String, binding: u32) -> (r: (bool, bool))
    ensures
        r.0 == sampler_conflict(founds(found@), name@, binding),
        r.1 == sampler_listed(founds(found@), name@),
{
    let ghost f = founds(found@);
    let mut conflict = false;
    let mut listed = false;
    let n = found.len();
    let mut k: usize = 0;
    while k < n
        invariant
            n == found@.len(),
            f == founds(found@),
            k <= n,
            conflict == exists|j: int| 0 <= j < k && (#[trigger] f[j] matches Found::Sampler2d(b, m) && m == name@ && b != binding),
            listed == exists|j: int| 0 <= j < k && (#[trigger] f[j] matches Found::Sampler2d(_, m) && m == name@),
        decreases n - k,
    {
        match &found[k] {
            ShaderProgramInputFindResult::Sampler2d(b, m) => {
                if m.eq(name) {
                    listed = true;
                    if *b != binding {
                        conflict = true;
                    }
                }
            },
            _ => {},
        }
        assert(f[k as int] == found_of(found@[k as int]));
        k += 1;
    }
    (conflict, listed)
}

fn scan_location_exec(
    text: &Vec<char>,
    kind: ShaderProgramVariableType,
    n: u32,
    found: &mut Vec<ShaderProgramInputFindResult>,
) -> (ok: bool)
    ensures
        ok == scan_location(text@, kind, n as nat, founds(old(found)@)) is Some,
        ok ==> founds(final(found)@) == scan_location(text@, kind, n as nat, founds(old(found)@))->0,
{
    let ghost f = founds(found@);
    let pat = pattern_chars(kind, n);
    let i = match rfind(text, &pat) {
        None => {
            return true;
        },
        Some(i) => i,
    };
    assert(is_last_occurrence(text@, pat@, i as int));
    let tl = text.len();
    assert(i + pat@.len() <= tl);
    let start = i + pat.len();
    let semi = match find_semicolon(text, start) {
        None => {
            return false;
        },
        Some(j) => j,
    };
    let (w, t) = match last_word_bounds(text, start, semi) {
        None => {
            return true;
        },
        Some(b) => b,
    };
    let word = string_of(text, w, t);
    match kind {
        ShaderProgramVariableType::In => {
            found.push(ShaderProgramInputFindResult::In(word));
            assert(founds(found@) =~= f.push(Found::In(word@)));
        },
        ShaderProgramVariableType::Uniform => {
            found.push(ShaderProgramInputFindResult::Uniform(word));
            assert(founds(found@) =~= f.push(Found::Uniform(word@)));
        },
        ShaderProgramVariableType::Output => {
            match last_word_bounds(text, start, w) {
                Some((w2, t2)) => {
                    let format = string_of(text, w2, t2);
                    found.push(ShaderProgramInputFindResult::Output(word, format));
                    assert(founds(found@) =~= f.push(Found::Output(word@, format@)));
                },
                None => {},
            }
        },
        ShaderProgramVariableType::Sampler2d => {
            if i < 2 {
                return false;
            }
            let e = trimmed_end(text, i - 2, i);
            let p = trimmed_start(text, i - 2, e);
            let binding = match parse_binding(text, p, e) {
                None => {
                    return false;
                },
                Some(b) => b,
            };
            let (conflict, listed) = sampler_status(found, &word, binding);
            if conflict {
                return false;
            }
            if !listed {
                found.push(ShaderProgramInputFindResult::Sampler2d(binding, word));
                assert(founds(found@) =~= f.push(Found::Sampler2d(binding, word@)));
            }
        },
    }
    true
}

proof fn lemma_scan_prefix(text: Seq<char>, kind: ShaderProgramVariableType, min: nat, k: nat, max: nat)
    requires
        k <= max,
        scan_locations(text, kind, min, max) is Some,
    ensures
        scan_locations(text, kind, min, k) is Some,
    decreases max - k,
{
    if k < max {
        lemma_scan_prefix(text, kind, min, (k + 1) as nat, max);
        if k + 1 > min {
            assert(scan_locations(text, kind, min, (k + 1) as nat) is Some);
        }
    }
}

/// Finds, for every location from `location_min` up to `location_max`, the last declaration
/// of kind `input_type` at that location: the word before its semicolon (with, for an
/// output, the word before that, its type, and for a sampler its binding, which the two
/// characters before `, location` give). A sampler already found under the same name is
/// not added again.
pub fn find_shader_program_inputs(
    file: &str,
    input_type: ShaderProgramVariableType,
    location_min: u32,
    location_max: u32,
) -> (r: Vec<ShaderProgramInputFindResult>)
    requires
        scan_locations(file@, input_type, location_min as nat, location_max as nat) is Some,
    ensures
        founds(r@) == scan_locations(file@, input_type, location_min as nat, location_max as nat)->0,
{
    let text = text_chars(file);
    let mut inputs: Vec<ShaderProgramInputFindResult> = Vec::new();
    if location_min >= location_max {
        assert(founds(inputs@) =~= Seq::<Found>::empty());
        return inputs;
    }
    let mut n = location_min;
    assert(founds(inputs@) =~= Seq::<Found>::empty());
    while n < location_max
        invariant
            text@ == file@,
            location_min <= n <= location_max,
            scan_locations(file@, input_type, location_min as nat, location_max as nat) is Some,
            scan_locations(file@, input_type, location_min as nat, n as nat) is Some,
            founds(inputs@) == scan_locations(file@, input_type, location_min as nat, n as nat)->0,
        decreases location_max - n,
    {
        proof {
            lemma_scan_prefix(file@, input_type, location_min as nat, (n + 1) as nat, location_max as nat);
        }
        let ok = scan_location_exec(&text, input_type, n, &mut inputs);
        assert(ok);
        n += 1;
    }
    inputs
}

/// What `find_shader_program_inputs` finds, or `None` where the search fails: a declaration
/// without a semicolon after it, or a sampler whose binding cannot be read or that is
/// listed under another binding already.
pub fn try_find_shader_program_inputs(
    file: &str,
    input_type: ShaderProgramVariableType,
    location_min: u32,
    location_max: u32,
) -> (r: Option<Vec<ShaderProgramInputFindResult>>)
    requires
    ensures
        match r {
            Some(v) => scan_locations(file@, input_type, location_min as nat, location_max as nat) == Some(founds(v@)),
            None => scan_locations(file@, input_type, location_min as nat, location_max as nat) is None,
        },
{
    let text = text_chars(file);
    let mut inputs: Vec<ShaderProgramInputFindResult> = Vec::new();
    assert(founds(inputs@) =~= Seq::<Found>::empty());
    if location_min >= location_max {
        return Some(inputs);
    }
    let mut n = location_min;
    while n < location_max
        invariant
            text@ == file@,
            location_min <= n <= location_max,
            scan_locations(file@, input_type, location_min as nat, n as nat) == Some(founds(inputs@)),
        decreases location_max - n,
    {
        let ok = scan_location_exec(&text, input_type, n, &mut inputs);
        if !ok {
            proof {
                assert(scan_locations(file@, input_type, location_min as nat, (n + 1) as nat) is None);
                if scan_locations(file@, input_type, location_min as nat, location_max as nat) is Some {
                    lemma_scan_prefix(file@, input_type, location_min as nat, (n + 1) as nat, location_max as nat);
                }
            }
            return None;
        }
        n += 1;
    }
    Some(inputs)
}


/// Every source can be searched for samplers at locations 10 to 49.
pub open spec fn sampler_sources_ok(files: Seq<&str>) -> bool {
    forall|i: int|
        0 <= i < files.len() ==> #[trigger] scan_locations(
            files[i]@,
            ShaderProgramVariableType::Sampler2d,
            10,
            50,
        ) is Some
}

/// `acc` with the samplers of `found` whose names it does not hold yet, in order.
pub open spec fn merge_samplers(acc: Seq<(u32, Seq<char>)>, found: Seq<Found>) -> Seq<(u32, Seq<char>)>
    decreases found.len(),
{
    if found.len() == 0 {
        acc
    } else {
        let before = merge_samplers(acc, found.drop_last());
        match found.last() {
            Found::Sampler2d(b, n) => if exists|k: int| 0 <= k < before.len() && (#[trigger] before[k]).1 == n {
                before
            } else {
                before.push((b, n))
            },
            _ => before,
        }
    }
}

/// The samplers of a program whose stages have the sources `files`: binding and name,
/// each name once, in the order they are first found.
pub open spec fn program_samplers(files: Seq<Seq<char>>) -> Seq<(u32, Seq<char>)>
    decreases files.len(),
{
    if files.len() == 0 {
        Seq::empty()
    } else {
        merge_samplers(
            program_samplers(files.drop_last()),
            scan_locations(files.last(), ShaderProgramVariableType::Sampler2d, 10, 50)->0,
        )
    }
}

/// The binding and name of each sampler.
pub open spec fn sampler_entries(v: Seq<ShaderProgramTexture2d>) -> Seq<(u32, Seq<char>)> {
    v.map_values(|t: ShaderProgramTexture2d| (t.binding, t.name@))
}

fn sampler_named(list: &Vec<ShaderProgramTexture2d>, name: &String) -> (r: bool)
    ensures
        r == exists|k: int| 0 <= k < list@.len() && (#[trigger] sampler_entries(list@)[k]).1 == name@,
{
    let n = list.len();
    let mut k: usize = 0;
    while k < n
        invariant
            n == list@.len(),
            k <= n,
            forall|q: int| 0 <= q < k ==> (#[trigger] sampler_entries(list@)[q]).1 != name@,
        decreases n - k,
    {
        if list[k].name.eq(name) {
            assert(sampler_entries(list@)[k as int].1 == name@);
            return true;
        }
        k += 1;
    }
    false
}

/// The 2D samplers that the sources `files` declare at locations 10 to 49, each name once
/// with the binding it is first found with, in the order they are found.
pub fn create_shader_program_2d_samplers(files: Vec<&str>, filenames: Vec<&str>) -> (r: Vec<ShaderProgramTexture2d>)
    requires
        files@.len() == filenames@.len(),
        sampler_sources_ok(files@),
    ensures
        sampler_entries(r@) == program_samplers(files@.map_values(|f: &str| f@)),
{
    let ghost texts = files@.map_values(|f: &str| f@);
    let mut list: Vec<ShaderProgramTexture2d> = Vec::new();
    let n = files.len();
    let mut i: usize = 0;
    assert(texts.take(0) =~= Seq::<Seq<char>>::empty());
    assert(sampler_entries(list@) =~= Seq::<(u32, Seq<char>)>::empty());
    while i < n
        invariant
            n == files@.len(),
            i <= n,
            texts == files@.map_values(|f: &str| f@),
            sampler_sources_ok(files@),
            sampler_entries(list@) == program_samplers(texts.take(i as int)),
        decreases n - i,
    {
        let found = find_shader_program_inputs(files[i], ShaderProgramVariableType::Sampler2d, 10, 50);
        let ghost fs = founds(found@);
        let ghost start = sampler_entries(list@);
        let m = found.len();
        let mut k: usize = 0;
        assert(fs.take(0) =~= Seq::<Found>::empty());
        while k < m
            invariant
                m == found@.len(),
                k <= m,
                fs == founds(found@),
                sampler_entries(list@) == merge_samplers(start, fs.take(k as int)),
            decreases m - k,
        {
            let ghost before = sampler_entries(list@);
            assert(fs.take(k + 1).drop_last() =~= fs.take(k as int));
            assert(fs.take(k + 1).last() == found_of(found@[k as int]));
            match &found[k] {
                ShaderProgramInputFindResult::Sampler2d(binding, name) => {
                    if !sampler_named(&list, name) {
                        list.push(ShaderProgramTexture2d { binding: *binding, name: name.clone() });
                        assert(sampler_entries(list@) =~= before.push((*binding, name@)));
                    }
                },
                _ => {},
            }
            k += 1;
        }
        assert(fs.take(m as int) =~= fs);
        assert(texts.take(i + 1).drop_last() =~= texts.take(i as int));
        assert(texts.take(i + 1).last() == files@[i as int]@);
        i += 1;
    }
    assert(texts.take(n as int) =~= texts);
    list
}

/// `acc` with the outputs of `found` whose names it does not hold yet, in order.
pub open spec fn merge_outputs(acc: Seq<(Seq<char>, Seq<char>)>, found: Seq<Found>) -> Seq<(Seq<char>, Seq<char>)>
    decreases found.len(),
{
    if found.len() == 0 {
        acc
    } else {
        let before = merge_outputs(acc, found.drop_last());
        match found.last() {
            Found::Output(n, f) => if exists|k: int| 0 <= k < before.len() && (#[trigger] before[k]).0 == n {
                before
            } else {
                before.push((n, f))
            },
            _ => before,
        }
    }
}

/// The name and format of each output.
pub open spec fn output_entries(v: Seq<ShaderProgramOutput>) -> Seq<(Seq<char>, Seq<char>)> {
    v.map_values(|o: ShaderProgramOutput| (o.name@, o.format@))
}

/// The outputs that the fragment source `file` declares at locations 0 to 7, each name
/// once, in order of location.
pub fn create_shader_program_outputs(file: &str) -> (r: Vec<ShaderProgramOutput>)
    requires
        scan_locations(file@, ShaderProgramVariableType::Output, 0, 8) is Some,
    ensures
        output_entries(r@) == merge_outputs(
            Seq::empty(),
            scan_locations(file@, ShaderProgramVariableType::Output, 0, 8)->0,
        ),
{
    let found = find_shader_program_inputs(file, ShaderProgramVariableType::Output, 0, 8);
    let ghost fs = founds(found@);
    let mut list: Vec<ShaderProgramOutput> = Vec::new();
    let m = found.len();
    let mut k: usize = 0;
    assert(fs.take(0) =~= Seq::<Found>::empty());
    assert(output_entries(list@) =~= Seq::<(Seq<char>, Seq<char>)>::empty());
    while k < m
        invariant
            m == found@.len(),
            k <= m,
            fs == founds(found@),
            output_entries(list@) == merge_outputs(Seq::empty(), fs.take(k as int)),
        decreases m - k,
    {
        let ghost before = output_entries(list@);
        assert(fs.take(k + 1).drop_last() =~= fs.take(k as int));
        assert(fs.take(k + 1).last() == found_of(found@[k as int]));
        match &found[k] {
            ShaderProgramInputFindResult::Output(name, format) => {
                let mut listed = false;
                let n = list.len();
                let mut q: usize = 0;
                while q < n
                    invariant
                        n == list@.len(),
                        q <= n,
                        listed == exists|j: int| 0 <= j < q && (#[trigger] output_entries(list@)[j]).0 == name@,
                    decreases n - q,
                {
                    if list[q].name.eq(name) {
                        listed = true;
                    }
                    assert(output_entries(list@)[q as int].0 == list@[q as int].name@);
                    q += 1;
                }
                if !listed {
                    list.push(ShaderProgramOutput { name: name.clone(), format: format.clone() });
                    assert(output_entries(list@) =~= before.push((name@, format@)));
                }
            },
            _ => {},
        }
        k += 1;
    }
    assert(fs.take(m as int) =~= fs);
    list
}

/// Records a vertex attribute of a program at the location the device gave it; a location
/// of -1 means the program has no such attribute, and nothing is recorded. Returns whether
/// the attribute was missing.
pub fn record_attribute(attributes: &mut Vec<ShaderProgramAttribute>, name: String, location: i32) -> (missing: bool)
    ensures
        missing == (location == -1),
        missing ==> final(attributes)@ == old(attributes)@,
        !missing ==> final(attributes)@.len() == old(attributes)@.len() + 1
            && final(attributes)@.drop_last() == old(attributes)@
            && final(attributes)@.last().location == location as u32
            && final(attributes)@.last().name@ == name@,
{
    if location != -1 {
        attributes.push(ShaderProgramAttribute { location: location as u32, name });
        assert(attributes@.drop_last() =~= old(attributes)@);
        false
    } else {
        true
    }
}

/// Whether a scalar uniform named `name` is recorded already.
pub fn scalar_uniform_listed(uniforms: &Vec<ShaderProgramScalarUniform>, name: &String) -> (r: bool)
    ensures
        r == exists|k: int| 0 <= k < uniforms@.len() && (#[trigger] uniforms@[k]).name@ == name@,
{
    let n = uniforms.len();
    let mut k: usize = 0;
    while k < n
        invariant
            n == uniforms@.len(),
            k <= n,
            forall|q: int| 0 <= q < k ==> (#[trigger] uniforms@[q]).name@ != name@,
        decreases n - k,
    {
        if uniforms[k].name.eq(name) {
            return true;
        }
        k += 1;
    }
    false
}

/// Records a scalar uniform of a program at the location the device gave it; a location of
/// -1 means the program has no such uniform, and nothing is recorded. Returns whether the
/// uniform was missing.
pub fn record_scalar_uniform(uniforms: &mut Vec<ShaderProgramScalarUniform>, name: String, location: i32) -> (missing: bool)
    ensures
        missing == (location == -1),
        missing ==> final(uniforms)@ == old(uniforms)@,
        !missing ==> final(uniforms)@.len() == old(uniforms)@.len() + 1
            && final(uniforms)@.drop_last() == old(uniforms)@
            && final(uniforms)@.last().location == location as u32
            && final(uniforms)@.last().name@ == name@,
{
    if location != -1 {
        uniforms.push(ShaderProgramScalarUniform { location: location as u32, name });
        assert(uniforms@.drop_last() =~= old(uniforms)@);
        false
    } else {
        true
    }
}

} // verus!
