//! Character-level string helpers with exact specifications over `Seq<char>`.
use vstd::prelude::*;

verus! {

/// Relies on `String::push`: appends one character at the end.
#[verifier::external_body]
pub(crate) fn push_char(s: &mut String, c: char)
    ensures
        final(s)@ == old(s)@.push(c),
{
    s.push(c);
}

/// The characters of `s`, in order.
pub fn chars_of(s: &str) -> (r: Vec<char>)
    ensures
        r@ == s@,
{
    let mut out: Vec<char> = Vec::new();
    for c in it: s.chars()
        invariant
            it.seq() == s@,
            out@ == it.seq().take(it.index() as int),
    {
        out.push(c);
    }
    out
}


/// The views of a sequence of strings.
pub open spec fn views(v: Seq<String>) -> Seq<Seq<char>> {
    v.map_values(|a: String| a@)
}

/// `p` occurs in `s` starting at index `i`.
pub open spec fn occurs_at(s: Seq<char>, i: int, p: Seq<char>) -> bool {
    0 <= i && i + p.len() <= s.len() && s.subrange(i, i + p.len()) == p
}

/// `t` with its `k`-th, `k+1`-th, ... `{}` slots filled from `args`, in order;
/// a slot with no argument left is dropped.
pub open spec fn fill_slots_from(t: Seq<char>, args: Seq<Seq<char>>, k: int) -> Seq<char>
    decreases t.len(),
{
    if t.len() == 0 {
        seq![]
    } else if t.len() >= 2 && t[0] == '{' && t[1] == '}' {
        (if 0 <= k < args.len() { args[k] } else { seq![] }) + fill_slots_from(t.skip(2), args, k + 1)
    } else {
        seq![t[0]] + fill_slots_from(t.skip(1), args, k)
    }
}

/// `t` with each `{}` slot filled by the next argument.
pub open spec fn fill_slots(t: Seq<char>, args: Seq<Seq<char>>) -> Seq<char> {
    fill_slots_from(t, args, 0)
}

/// `s` with every non-overlapping occurrence of `pat`, scanned from the left,
/// replaced by `rep`.
pub open spec fn replaced(s: Seq<char>, pat: Seq<char>, rep: Seq<char>) -> Seq<char>
    decreases s.len(),
{
    if s.len() == 0 {
        seq![]
    } else if pat.len() > 0 && occurs_at(s, 0, pat) {
        rep + replaced(s.skip(pat.len() as int), pat, rep)
    } else {
        seq![s[0]] + replaced(s.skip(1), pat, rep)
    }
}

/// A string made of the characters `v[from..to]`.
pub fn string_of(v: &Vec<char>, from: usize, to: usize) -> (r: String)
    requires
        from <= to <= v.len(),
    ensures
        r@ == v@.subrange(from as int, to as int),
{
    let mut out = String::new();
    let mut i = from;
    while i < to
        invariant
            from <= i <= to <= v.len(),
            out@ == v@.subrange(from as int, i as int),
        decreases to - i,
    {
        push_char(&mut out, v[i]);
        assert(v@.subrange(from as int, i + 1) == v@.subrange(from as int, i as int).push(v@[i as int]));
        i = i + 1;
    }
    out
}

/// Whether `p` occurs in `s` at index `i`.
pub fn occurs_at_exec(s: &Vec<char>, i: usize, p: &Vec<char>) -> (r: bool)
    ensures
        r == occurs_at(s@, i as int, p@),
{
    if p.len() > s.len() || i > s.len() - p.len() {
        return false;
    }
    let mut j: usize = 0;
    while j < p.len()
        invariant
            i + p.len() <= s.len(),
            j <= p.len(),
            forall|m: int| 0 <= m < j ==> s@[i + m] == p@[m],
        decreases p.len() - j,
    {
        if s[i + j] != p[j] {
            assert(s@.subrange(i as int, i + p.len())[j as int] != p@[j as int]);
            return false;
        }
        j = j + 1;
    }
    assert(s@.subrange(i as int, i + p.len()) =~= p@);
    true
}

/// Fills each `{}` slot of `t` with the next of `args`, like `format!` with
/// positional `{}` arguments.
pub fn fill_slots_exec(t: &str, args: &Vec<String>) -> (r: String)
    ensures
        r@ == fill_slots(t@, views(args@)),
{
    let tv = chars_of(t);
    let ghost a = views(args@);
    let mut out = String::new();
    let mut i: usize = 0;
    let mut k: usize = 0;
    assert(tv@.skip(0) =~= tv@);
    assert(out@ + fill_slots(t@, a) =~= fill_slots(t@, a));
    while i < tv.len()
        invariant
            tv@ == t@,
            a == views(args@),
            i <= tv.len(),
            k <= i,
            out@ + fill_slots_from(tv@.skip(i as int), a, k as int) == fill_slots(t@, a),
        decreases tv.len() - i,
    {
        let ghost rest = tv@.skip(i as int);
        if i + 1 < tv.len() && tv[i] == '{' && tv[i + 1] == '}' {
            assert(rest.skip(2) =~= tv@.skip(i + 2));
            let ghost before = out@;
            let ghost tail = fill_slots_from(tv@.skip(i + 2), a, k + 1);
            if k < args.len() {
                out.append(args[k].as_str());
                assert(out@ + tail =~= before + (a[k as int] + tail));
            } else {
                assert(out@ + tail =~= before + (seq![] + tail));
            }
            assert(out@ + fill_slots_from(tv@.skip(i + 2), a, k + 1) == fill_slots(t@, a));
            i = i + 2;
            k = k + 1;
        } else {
            assert(rest.skip(1) =~= tv@.skip(i + 1));
            let ghost before = out@;
            push_char(&mut out, tv[i]);
            assert(out@ + fill_slots_from(tv@.skip(i + 1), a, k as int) =~= before + (seq![tv@[i as int]] + fill_slots_from(tv@.skip(i + 1), a, k as int)));
            assert(out@ + fill_slots_from(tv@.skip(i + 1), a, k as int) == fill_slots(t@, a));
            i = i + 1;
        }
    }
    assert(tv@.skip(i as int) =~= seq![]);
    out
}

/// `str::replace` on a non-empty pattern: every non-overlapping occurrence of
/// `pat`, scanned from the left, becomes `rep`.
pub fn replace_all(s: &str, pat: &str, rep: &str) -> (r: String)
    requires
        pat@.len() > 0,
    ensures
        r@ == replaced(s@, pat@, rep@),
{
    let sv = chars_of(s);
    let pv = chars_of(pat);
    let mut out = String::new();
    let mut i: usize = 0;
    assert(sv@.skip(0) =~= sv@);
    assert(out@ + replaced(s@, pat@, rep@) =~= replaced(s@, pat@, rep@));
    while i < sv.len()
        invariant
            sv@ == s@,
            pv@ == pat@,
            pv@.len() > 0,
            i <= sv.len(),
            out@ + replaced(sv@.skip(i as int), pv@, rep@) == replaced(s@, pat@, rep@),
        decreases sv.len() - i,
    {
        let ghost rest = sv@.skip(i as int);
        if occurs_at_exec(&sv, i, &pv) {
            assert(rest.subrange(0, pv@.len() as int) =~= sv@.subrange(i as int, i + pv@.len()));
            assert(rest.skip(pv@.len() as int) =~= sv@.skip(i + pv@.len()));
            let ghost before = out@;
            out.append(rep);
            assert(out@ + replaced(sv@.skip(i + pv@.len()), pv@, rep@) =~= before + (rep@ + replaced(sv@.skip(i + pv@.len()), pv@, rep@)));
            assert(out@ + replaced(sv@.skip(i + pv@.len()), pv@, rep@) == replaced(s@, pat@, rep@));
            i = i + pv.len();
        } else {
            assert(pv@.len() <= rest.len() ==> rest.subrange(0, pv@.len() as int) =~= sv@.subrange(i as int, i + pv@.len()));
            assert(rest.skip(1) =~= sv@.skip(i + 1));
            let ghost before = out@;
            push_char(&mut out, sv[i]);
            assert(out@ + replaced(sv@.skip(i + 1), pv@, rep@) =~= before + (seq![sv@[i as int]] + replaced(sv@.skip(i + 1), pv@, rep@)));
            assert(out@ + replaced(sv@.skip(i + 1), pv@, rep@) == replaced(s@, pat@, rep@));
            i = i + 1;
        }
    }
    assert(sv@.skip(i as int) =~= seq![]);
    out
}

/// Unicode `White_Space`, the characters that `str::trim` removes.
pub open spec fn is_white_space(c: char) -> bool {
    let u = c as u32;
    (0x09 <= u <= 0x0D) || u == 0x20 || u == 0x85 || u == 0xA0 || u == 0x1680 || (0x2000 <= u
        <= 0x200A) || u == 0x2028 || u == 0x2029 || u == 0x202F || u == 0x205F || u == 0x3000
}

/// Whether `c` is white space.
pub fn is_white_space_exec(c: char) -> (r: bool)
    ensures
        r == is_white_space(c),
{
    let u = c as u32;
    (0x09 <= u && u <= 0x0D) || u == 0x20 || u == 0x85 || u == 0xA0 || u == 0x1680 || (0x2000 <= u
        && u <= 0x200A) || u == 0x2028 || u == 0x2029 || u == 0x202F || u == 0x205F || u == 0x3000
}

/// `s` without its leading white space.
pub open spec fn trim_start(s: Seq<char>) -> Seq<char>
    decreases s.len(),
{
    if s.len() > 0 && is_white_space(s[0]) {
        trim_start(s.skip(1))
    } else {
        s
    }
}

/// `s` without its trailing white space.
pub open spec fn trim_end(s: Seq<char>) -> Seq<char>
    decreases s.len(),
{
    if s.len() > 0 && is_white_space(s.last()) {
        trim_end(s.drop_last())
    } else {
        s
    }
}

/// `s` without leading and trailing white space.
pub open spec fn trimmed(s: Seq<char>) -> Seq<char> {
    trim_end(trim_start(s))
}

/// `s` without the trailing copies of `c`.
pub open spec fn trim_end_char(s: Seq<char>, c: char) -> Seq<char>
    decreases s.len(),
{
    if s.len() > 0 && s.last() == c {
        trim_end_char(s.drop_last(), c)
    } else {
        s
    }
}

/// `str::trim`: `s` without leading and trailing white space.
pub fn trim(s: &str) -> (r: String)
    ensures
        r@ == trimmed(s@),
{
    let v = chars_of(s);
    let mut i: usize = 0;
    assert(v@.skip(0) =~= v@);
    while i < v.len() && is_white_space_exec(v[i])
        invariant
            v@ == s@,
            i <= v.len(),
            trim_start(v@.skip(i as int)) == trim_start(s@),
        decreases v.len() - i,
    {
        assert(v@.skip(i as int).skip(1) =~= v@.skip(i + 1));
        i = i + 1;
    }
    let mut j: usize = v.len();
    assert(v@.skip(i as int) =~= v@.subrange(i as int, j as int));
    while j > i && is_white_space_exec(v[j - 1])
        invariant
            v@ == s@,
            i <= j <= v.len(),
            trim_start(s@) == v@.skip(i as int),
            trim_end(v@.subrange(i as int, j as int)) == trimmed(s@),
        decreases j - i,
    {
        assert(v@.subrange(i as int, j as int).drop_last() =~= v@.subrange(i as int, j - 1));
        j = j - 1;
    }
    string_of(&v, i, j)
}

/// `str::trim_end_matches` on one character: `s` without the trailing
/// copies of `c`.
pub fn trim_end_matching(s: &str, c: char) -> (r: String)
    ensures
        r@ == trim_end_char(s@, c),
{
    let v = chars_of(s);
    let mut j: usize = v.len();
    assert(v@.subrange(0, j as int) =~= v@);
    while j > 0 && v[j - 1] == c
        invariant
            v@ == s@,
            j <= v.len(),
            trim_end_char(v@.subrange(0, j as int), c) == trim_end_char(s@, c),
        decreases j,
    {
        assert(v@.subrange(0, j as int).drop_last() =~= v@.subrange(0, j - 1));
        j = j - 1;
    }
    string_of(&v, 0, j)
}

/// The index of the first of `tokens[j..]` that is non-empty and begins `s`,
/// or -1 where there is none.
pub open spec fn first_token(s: Seq<char>, tokens: Seq<Seq<char>>, j: int) -> int
    decreases tokens.len() - j,
{
    if j < 0 || j >= tokens.len() {
        -1
    } else if tokens[j].len() > 0 && occurs_at(s, 0, tokens[j]) {
        j
    } else {
        first_token(s, tokens, j + 1)
    }
}

proof fn lemma_first_token(s: Seq<char>, tokens: Seq<Seq<char>>, k: int)
    requires
        first_token(s, tokens, k) >= 0,
    ensures
        ({
            let j = first_token(s, tokens, k);
            0 <= j < tokens.len() && tokens[j].len() > 0 && occurs_at(s, 0, tokens[j])
        }),
    decreases tokens.len() - k,
{
    if 0 <= k < tokens.len() && !(tokens[k].len() > 0 && occurs_at(s, 0, tokens[k])) {
        lemma_first_token(s, tokens, k + 1);
    }
}

/// `s` scanned once from the left: where a token begins, the first such
/// token is replaced by its value; other characters are kept. Values are
/// not scanned again.
pub open spec fn substituted(s: Seq<char>, tokens: Seq<Seq<char>>, values: Seq<Seq<char>>) -> Seq<char>
    decreases s.len(),
{
    let j = first_token(s, tokens, 0);
    if s.len() == 0 {
        seq![]
    } else if 0 <= j < values.len() && j < tokens.len() && 0 < tokens[j].len() <= s.len() {
        values[j] + substituted(s.skip(tokens[j].len() as int), tokens, values)
    } else {
        seq![s[0]] + substituted(s.skip(1), tokens, values)
    }
}

/// `s` holds `{{`, the start of a placeholder token.
pub open spec fn has_placeholder(s: Seq<char>) -> bool {
    exists|i: int| 0 <= i && i + 1 < s.len() && s[i] == '{' && #[trigger] s[i + 1] == '{'
}

/// Whether `s` still holds `{{`.
pub fn has_placeholder_exec(s: &str) -> (r: bool)
    ensures
        r == has_placeholder(s@),
{
    let v = chars_of(s);
    let mut i: usize = 0;
    while v.len() > 0 && i < v.len() - 1
        invariant
            v@ == s@,
            forall|k: int| 0 <= k < i && k + 1 < v@.len() ==> !(v@[k] == '{' && #[trigger] v@[k + 1] == '{'),
        decreases v.len() - i,
    {
        if v[i] == '{' && v[i + 1] == '{' {
            return true;
        }
        i = i + 1;
    }
    false
}

/// Fills template `t` in one pass: each place where a token of `tokens`
/// begins gets the value at the same position of `values`.
pub fn fill_template(t: &str, tokens: &Vec<String>, values: &Vec<String>) -> (r: String)
    requires
        tokens.len() == values.len(),
    ensures
        r@ == substituted(t@, views(tokens@), views(values@)),
{
    let tv = chars_of(t);
    let ghost toks = views(tokens@);
    let ghost vals = views(values@);
    let mut tokv: Vec<Vec<char>> = Vec::new();
    for j in 0..tokens.len()
        invariant
            toks == views(tokens@),
            tokv@.len() == j,
            forall|m: int| 0 <= m < j ==> (#[trigger] tokv@[m])@ == toks[m],
    {
        tokv.push(chars_of(tokens[j].as_str()));
    }
    let mut out = String::new();
    let mut i: usize = 0;
    assert(tv@.skip(0) =~= tv@);
    assert(out@ + substituted(t@, toks, vals) =~= substituted(t@, toks, vals));
    while i < tv.len()
        invariant
            tv@ == t@,
            toks == views(tokens@),
            vals == views(values@),
            tokens.len() == values.len(),
            tokv@.len() == tokens.len(),
            forall|m: int| 0 <= m < tokens.len() ==> (#[trigger] tokv@[m])@ == toks[m],
            i <= tv.len(),
            out@ + substituted(tv@.skip(i as int), toks, vals) == substituted(t@, toks, vals),
        decreases tv.len() - i,
    {
        let ghost rest = tv@.skip(i as int);
        let mut j: usize = 0;
        let mut found = false;
        while j < tokv.len() && !found
            invariant
                tv@ == t@,
                rest == tv@.skip(i as int),
                i < tv.len(),
                tokv@.len() == tokens.len(),
                toks.len() == tokens.len(),
                forall|m: int| 0 <= m < tokens.len() ==> (#[trigger] tokv@[m])@ == toks[m],
                j <= tokv.len(),
                found ==> j < tokv.len() && first_token(rest, toks, 0) == j as int,
                !found ==> first_token(rest, toks, 0) == first_token(rest, toks, j as int),
            decreases tokv.len() - j, if found { 0int } else { 1int },
        {
            let m = occurs_at_exec(&tv, i, &tokv[j]);
            let tj = &tokv[j];
            proof {
                let p = toks[j as int];
                if p.len() <= rest.len() {
                    assert(rest.subrange(0, p.len() as int) =~= tv@.subrange(i as int, i + p.len()));
                }
            }
            if m && tj.len() > 0 {
                found = true;
            } else {
                j = j + 1;
            }
        }
        if found {
            proof {
                lemma_first_token(rest, toks, 0);
            }
            let len = tokv[j].len();
            assert(rest.skip(toks[j as int].len() as int) =~= tv@.skip(i + len));
            let ghost before = out@;
            out.append(values[j].as_str());
            assert(out@ + substituted(tv@.skip(i + len), toks, vals) =~= before + (vals[j as int]
                + substituted(tv@.skip(i + len), toks, vals)));
            i = i + len;
        } else {
            assert(rest.skip(1) =~= tv@.skip(i + 1));
            let ghost before = out@;
            push_char(&mut out, tv[i]);
            assert(out@ + substituted(tv@.skip(i + 1), toks, vals) =~= before + (seq![tv@[i as int]]
                + substituted(tv@.skip(i + 1), toks, vals)));
            i = i + 1;
        }
    }
    assert(tv@.skip(i as int) =~= seq![]);
    out
}

/// Every `{{` in `t` begins one of the non-empty `tokens`.
pub open spec fn placeholders_known(t: Seq<char>, tokens: Seq<Seq<char>>) -> bool {
    forall|i: int|
        0 <= i && i + 1 < t.len() && t[i] == '{' && #[trigger] t[i + 1] == '{' ==> exists|j: int|
            0 <= j < tokens.len() && tokens[j].len() > 0 && #[trigger] occurs_at(t, i, tokens[j])
}

/// No character of any of `values` is `{`.
pub open spec fn values_without_brace(values: Seq<Seq<char>>) -> bool {
    forall|j: int, k: int| 0 <= j < values.len() && 0 <= k < values[j].len() ==> #[trigger] values[j][k] != '{'
}

proof fn lemma_first_token_found(s: Seq<char>, tokens: Seq<Seq<char>>, k: int, j: int)
    requires
        0 <= k <= j < tokens.len(),
        tokens[j].len() > 0,
        occurs_at(s, 0, tokens[j]),
    ensures
        0 <= first_token(s, tokens, k) <= j,
    decreases j - k,
{
    if !(tokens[k].len() > 0 && occurs_at(s, 0, tokens[k])) {
        lemma_first_token_found(s, tokens, k + 1, j);
    }
}

proof fn lemma_known_suffix(t: Seq<char>, tokens: Seq<Seq<char>>, m: int)
    requires
        placeholders_known(t, tokens),
        0 <= m <= t.len(),
    ensures
        placeholders_known(t.skip(m), tokens),
{
    let u = t.skip(m);
    assert forall|i: int| 0 <= i && i + 1 < u.len() && u[i] == '{' && #[trigger] u[i + 1] == '{' implies exists|j: int|
        0 <= j < tokens.len() && tokens[j].len() > 0 && #[trigger] occurs_at(u, i, tokens[j]) by {
        assert(t[m + i] == '{' && t[m + i + 1] == '{');
        let j = choose|j: int| 0 <= j < tokens.len() && tokens[j].len() > 0 && #[trigger] occurs_at(t, m + i, tokens[j]);
        assert(u.subrange(i, i + tokens[j].len()) =~= t.subrange(m + i, m + i + tokens[j].len()));
        assert(occurs_at(u, i, tokens[j]));
    }
}

/// Each of `tokens` is non-empty and opens with `{`.
pub open spec fn tokens_open_with_brace(tokens: Seq<Seq<char>>) -> bool {
    forall|j: int| 0 <= j < tokens.len() ==> (#[trigger] tokens[j]).len() > 0 && tokens[j][0] == '{'
}

proof fn lemma_substituted_clean(s: Seq<char>, tokens: Seq<Seq<char>>, values: Seq<Seq<char>>)
    requires
        tokens.len() == values.len(),
        tokens_open_with_brace(tokens),
        placeholders_known(s, tokens),
        values_without_brace(values),
    ensures
        !has_placeholder(substituted(s, tokens, values)),
        substituted(s, tokens, values).len() > 0 && substituted(s, tokens, values)[0] == '{' ==> s.len() > 0
            && s[0] == '{',
    decreases s.len(),
{
    if s.len() > 0 {
        let j = first_token(s, tokens, 0);
        let out = substituted(s, tokens, values);
        if 0 <= j < values.len() && j < tokens.len() && 0 < tokens[j].len() <= s.len() {
            let n = tokens[j].len() as int;
            lemma_known_suffix(s, tokens, n);
            lemma_substituted_clean(s.skip(n), tokens, values);
            let v = values[j];
            let rest = substituted(s.skip(n), tokens, values);
            assert(out == v + rest);
            assert(v.len() > 0 ==> v[v.len() - 1] != '{');
            assert forall|i: int| 0 <= i && i + 1 < out.len() && out[i] == '{' implies #[trigger] out[i + 1] != '{' by {
                if i < v.len() {
                    assert(v[i] == out[i]);
                } else {
                    let k = i - v.len();
                    assert(out[i] == rest[k]);
                    assert(out[i + 1] == rest[k + 1]);
                }
            }
            if out.len() > 0 && out[0] == '{' {
                if v.len() > 0 {
                    assert(v[0] == out[0]);
                } else {
                    lemma_first_token(s, tokens, 0);
                    assert(s.subrange(0, n)[0] == s[0]);
                }
            }
        } else {
            lemma_known_suffix(s, tokens, 1);
            lemma_substituted_clean(s.skip(1), tokens, values);
            let rest = substituted(s.skip(1), tokens, values);
            assert(out == seq![s[0]] + rest);
            if out.len() > 1 && out[0] == '{' && out[1] == '{' {
                assert(rest[0] == '{');
                assert(s.skip(1)[0] == s[1]);
                assert(s[0] == '{' && s[0int + 1] == '{');
                let jj = choose|jj: int| 0 <= jj < tokens.len() && tokens[jj].len() > 0 && #[trigger] occurs_at(s, 0, tokens[jj]);
                lemma_first_token_found(s, tokens, 0, jj);
                lemma_first_token(s, tokens, 0);
                assert(false);
            }
            assert forall|i: int| 0 <= i && i + 1 < out.len() && out[i] == '{' implies #[trigger] out[i + 1] != '{' by {
                if i > 0 {
                    let k = i - 1;
                    assert(out[i] == rest[k]);
                    assert(out[i + 1] == rest[k + 1]);
                }
            }
        }
    }
}

/// A template whose every `{{` begins one of the tokens, filled with values
/// that hold no `{`, keeps no placeholder: each token is replaced.
pub proof fn lemma_fill_leaves_no_placeholder(t: Seq<char>, tokens: Seq<Seq<char>>, values: Seq<Seq<char>>)
    requires
        tokens.len() == values.len(),
        tokens_open_with_brace(tokens),
        placeholders_known(t, tokens),
        values_without_brace(values),
    ensures
        !has_placeholder(substituted(t, tokens, values)),
{
    lemma_substituted_clean(t, tokens, values);
}

} // verus!
