//! Interpolation of variable references in configuration text.
//!
//! A reference is written `$NAME`, `${NAME}` or `${NAME:-default}`, where a
//! name is one or more ASCII letters, digits or underscores; `$$` stands for
//! a literal `$`. A reference to a known variable is replaced by its value;
//! an unknown one falls back to its default when one is given, else it is
//! replaced by nothing and a warning is recorded. Text that opens a
//! reference without completing one is kept as it stands.

use crate::symbols::SymbolTable;
use vstd::prelude::*;

verus! {

/// An ASCII letter, digit or underscore: the characters a name is made of.
pub open spec fn is_word_char(c: char) -> bool {
    let u = c as u32;
    (97 <= u && u <= 122) || (65 <= u && u <= 90) || (48 <= u && u <= 57) || u == 95
}

fn word_char(c: char) -> (b: bool)
    ensures
        b == is_word_char(c),
{
    let u = c as u32;
    (97 <= u && u <= 122) || (65 <= u && u <= 90) || (48 <= u && u <= 57) || u == 95
}

/// The number of leading name characters.
pub open spec fn word_prefix_len(s: Seq<char>) -> int
    decreases s.len(),
{
    if s.len() > 0 && is_word_char(s[0]) {
        1 + word_prefix_len(s.skip(1))
    } else {
        0
    }
}

/// The number of leading characters before a closing brace.
pub open spec fn default_prefix_len(s: Seq<char>) -> int
    decreases s.len(),
{
    if s.len() > 0 && s[0] != '}' {
        1 + default_prefix_len(s.skip(1))
    } else {
        0
    }
}

proof fn lemma_word_prefix_len_bounds(s: Seq<char>)
    ensures
        0 <= word_prefix_len(s) <= s.len(),
    decreases s.len(),
{
    if s.len() > 0 && is_word_char(s[0]) {
        lemma_word_prefix_len_bounds(s.skip(1));
    }
}

proof fn lemma_default_prefix_len_bounds(s: Seq<char>)
    ensures
        0 <= default_prefix_len(s) <= s.len(),
    decreases s.len(),
{
    if s.len() > 0 && s[0] != '}' {
        lemma_default_prefix_len_bounds(s.skip(1));
    }
}

proof fn lemma_word_step(s: Seq<char>, j: int)
    requires
        0 <= j < s.len(),
    ensures
        word_prefix_len(s.skip(j)) == if is_word_char(s[j]) {
            1 + word_prefix_len(s.skip(j + 1))
        } else {
            0
        },
{
    assert(s.skip(j)[0] == s[j]);
    assert(s.skip(j).skip(1) =~= s.skip(j + 1));
}

proof fn lemma_default_step(s: Seq<char>, j: int)
    requires
        0 <= j < s.len(),
    ensures
        default_prefix_len(s.skip(j)) == if s[j] != '}' {
            1 + default_prefix_len(s.skip(j + 1))
        } else {
            0
        },
{
    assert(s.skip(j)[0] == s[j]);
    assert(s.skip(j).skip(1) =~= s.skip(j + 1));
}

/// The warning recorded for a reference to an unknown variable without a
/// default.
pub open spec fn warning_text(name: Seq<char>) -> Seq<char> {
    "Unknown env var in config. name = \""@ + name + "\""@
}

/// How many characters the reference (or lone `$`) starting at the front of
/// `s` spans; `s` is a suffix whose first character is `$`. A `$` that opens
/// no complete reference spans just itself.
pub open spec fn token_len(s: Seq<char>) -> int {
    if s.len() >= 2 && s[1] == '$' {
        2
    } else if s.len() >= 2 && is_word_char(s[1]) {
        1 + word_prefix_len(s.skip(1))
    } else if s.len() >= 2 && s[1] == '{' {
        brace_token_len(s)
    } else {
        1
    }
}

/// The span of a `${...}` form: the whole reference when it is complete,
/// else just the `$`.
pub open spec fn brace_token_len(s: Seq<char>) -> int {
    let n = word_prefix_len(s.skip(2));
    if n > 0 && 2 + n < s.len() && s[2 + n] == '}' {
        3 + n
    } else if n > 0 && 2 + n + 1 < s.len() && s[2 + n] == ':' && s[2 + n + 1] == '-' {
        let d = default_prefix_len(s.skip(2 + n + 2));
        if 2 + n + 2 + d < s.len() {
            3 + n + 2 + d
        } else {
            1
        }
    } else {
        1
    }
}

/// What the reference starting at the front of `s` is replaced by.
pub open spec fn token_out(s: Seq<char>, vars: Map<Seq<char>, Seq<char>>) -> Seq<char> {
    if s.len() >= 2 && s[1] == '$' {
        "$"@
    } else if s.len() >= 2 && is_word_char(s[1]) {
        let name = s.subrange(1, 1 + word_prefix_len(s.skip(1)));
        if vars.contains_key(name) {
            vars[name]
        } else {
            Seq::empty()
        }
    } else if s.len() >= 2 && s[1] == '{' {
        brace_token_out(s, vars)
    } else {
        "$"@
    }
}

/// What a `${...}` form is replaced by: the variable's value when known,
/// else the default when one is given, else nothing; an incomplete form
/// keeps its `$`.
pub open spec fn brace_token_out(s: Seq<char>, vars: Map<Seq<char>, Seq<char>>) -> Seq<char> {
    let n = word_prefix_len(s.skip(2));
    let name = s.subrange(2, 2 + n);
    if n > 0 && 2 + n < s.len() && s[2 + n] == '}' {
        if vars.contains_key(name) {
            vars[name]
        } else {
            Seq::empty()
        }
    } else if n > 0 && 2 + n + 1 < s.len() && s[2 + n] == ':' && s[2 + n + 1] == '-' {
        let d = default_prefix_len(s.skip(2 + n + 2));
        if 2 + n + 2 + d < s.len() {
            if vars.contains_key(name) {
                vars[name]
            } else if d > 0 {
                s.subrange(2 + n + 2, 2 + n + 2 + d)
            } else {
                Seq::empty()
            }
        } else {
            "$"@
        }
    } else {
        "$"@
    }
}

/// The warnings the reference starting at the front of `s` records: one,
/// when it names an unknown variable and carries no default, else none.
pub open spec fn token_warns(s: Seq<char>, vars: Map<Seq<char>, Seq<char>>) -> Seq<Seq<char>> {
    if s.len() >= 2 && s[1] == '$' {
        Seq::empty()
    } else if s.len() >= 2 && is_word_char(s[1]) {
        let name = s.subrange(1, 1 + word_prefix_len(s.skip(1)));
        if vars.contains_key(name) {
            Seq::empty()
        } else {
            seq![warning_text(name)]
        }
    } else if s.len() >= 2 && s[1] == '{' {
        brace_token_warns(s, vars)
    } else {
        Seq::empty()
    }
}

/// The warnings a `${...}` form records.
pub open spec fn brace_token_warns(s: Seq<char>, vars: Map<Seq<char>, Seq<char>>) -> Seq<
    Seq<char>,
> {
    let n = word_prefix_len(s.skip(2));
    let name = s.subrange(2, 2 + n);
    if n > 0 && 2 + n < s.len() && s[2 + n] == '}' {
        if vars.contains_key(name) {
            Seq::empty()
        } else {
            seq![warning_text(name)]
        }
    } else if n > 0 && 2 + n + 1 < s.len() && s[2 + n] == ':' && s[2 + n + 1] == '-' {
        let d = default_prefix_len(s.skip(2 + n + 2));
        if 2 + n + 2 + d < s.len() && !vars.contains_key(name) && d == 0 {
            seq![warning_text(name)]
        } else {
            Seq::empty()
        }
    } else {
        Seq::empty()
    }
}

proof fn lemma_token_len_bounds(s: Seq<char>)
    requires
        s.len() > 0,
        s[0] == '$',
    ensures
        1 <= token_len(s) <= s.len(),
{
    lemma_word_prefix_len_bounds(s.skip(1));
    lemma_word_prefix_len_bounds(s.skip(2));
    let n = word_prefix_len(s.skip(2));
    lemma_default_prefix_len_bounds(s.skip(2 + n + 2));
}

/// The text with every variable reference replaced.
pub open spec fn interpolated(s: Seq<char>, vars: Map<Seq<char>, Seq<char>>) -> Seq<char>
    decreases s.len(),
    via interpolated_decreases
{
    if s.len() == 0 {
        Seq::empty()
    } else if s[0] != '$' {
        seq![s[0]] + interpolated(s.skip(1), vars)
    } else {
        token_out(s, vars) + interpolated(s.skip(token_len(s)), vars)
    }
}

#[via_fn]
proof fn interpolated_decreases(s: Seq<char>, vars: Map<Seq<char>, Seq<char>>) {
    if s.len() > 0 && s[0] == '$' {
        lemma_token_len_bounds(s);
    }
}

/// The warnings recorded while interpolating the text, in order.
pub open spec fn interpolated_warnings(s: Seq<char>, vars: Map<Seq<char>, Seq<char>>) -> Seq<
    Seq<char>,
>
    decreases s.len(),
    via interpolated_warnings_decreases
{
    if s.len() == 0 {
        Seq::empty()
    } else if s[0] != '$' {
        interpolated_warnings(s.skip(1), vars)
    } else {
        token_warns(s, vars) + interpolated_warnings(s.skip(token_len(s)), vars)
    }
}

#[via_fn]
proof fn interpolated_warnings_decreases(s: Seq<char>, vars: Map<Seq<char>, Seq<char>>) {
    if s.len() > 0 && s[0] == '$' {
        lemma_token_len_bounds(s);
    }
}

/// The variable table, by the text of each value.
pub open spec fn text_views(m: Map<Seq<char>, String>) -> Map<Seq<char>, Seq<char>> {
    Map::new(|k: Seq<char>| m.contains_key(k), |k: Seq<char>| m[k]@)
}

/// Scans the name characters from `from` on.
fn scan_word(s: &str, from: usize) -> (e: usize)
    requires
        from <= s@.len(),
    ensures
        from <= e <= s@.len(),
        e - from == word_prefix_len(s@.skip(from as int)),
{
    let n = s.unicode_len();
    let mut j: usize = from;
    loop
        invariant_except_break
            n == s@.len(),
            from <= j <= n,
            word_prefix_len(s@.skip(from as int)) == j - from + word_prefix_len(
                s@.skip(j as int),
            ),
        ensures
            from <= j <= n,
            j - from == word_prefix_len(s@.skip(from as int)),
        decreases n - j,
    {
        if j == n {
            proof {
                assert(s@.skip(j as int).len() == 0);
            }
            break ;
        }
        let c = s.get_char(j);
        proof {
            lemma_word_step(s@, j as int);
        }
        if !word_char(c) {
            break ;
        }
        j = j + 1;
    }
    j
}

/// Scans up to the closing brace from `from` on; the result is the position
/// of the first closing brace, or the end when there is none.
fn scan_default(s: &str, from: usize) -> (e: usize)
    requires
        from <= s@.len(),
    ensures
        from <= e <= s@.len(),
        e - from == default_prefix_len(s@.skip(from as int)),
{
    let n = s.unicode_len();
    let mut j: usize = from;
    loop
        invariant_except_break
            n == s@.len(),
            from <= j <= n,
            default_prefix_len(s@.skip(from as int)) == j - from + default_prefix_len(
                s@.skip(j as int),
            ),
        ensures
            from <= j <= n,
            j - from == default_prefix_len(s@.skip(from as int)),
        decreases n - j,
    {
        if j == n {
            proof {
                assert(s@.skip(j as int).len() == 0);
            }
            break ;
        }
        let c = s.get_char(j);
        proof {
            lemma_default_step(s@, j as int);
        }
        if c == '}' {
            break ;
        }
        j = j + 1;
    }
    j
}

/// One interpolation step, on the emitted text: when the suffix at `i`
/// opens with a piece that interpolates to `piece` followed by the suffix
/// at `i + c`, the text emitted so far grows by exactly `piece`.
proof fn lemma_step_out(
    all: Seq<char>,
    i: int,
    c: int,
    vars: Map<Seq<char>, Seq<char>>,
    out0: Seq<char>,
    piece: Seq<char>,
)
    requires
        0 <= i,
        0 < c,
        i + c <= all.len(),
        interpolated(all.skip(i), vars) == piece + interpolated(all.skip(i).skip(c), vars),
    ensures
        out0 + interpolated(all.skip(i), vars) == (out0 + piece) + interpolated(
            all.skip(i + c),
            vars,
        ),
{
    assert(all.skip(i).skip(c) =~= all.skip(i + c));
    assert(out0 + (piece + interpolated(all.skip(i + c), vars)) =~= (out0 + piece)
        + interpolated(all.skip(i + c), vars));
}

/// One interpolation step, on the recorded warnings.
proof fn lemma_step_warns(
    all: Seq<char>,
    i: int,
    c: int,
    vars: Map<Seq<char>, Seq<char>>,
    w0: Seq<Seq<char>>,
    piece: Seq<Seq<char>>,
)
    requires
        0 <= i,
        0 < c,
        i + c <= all.len(),
        interpolated_warnings(all.skip(i), vars) == piece + interpolated_warnings(
            all.skip(i).skip(c),
            vars,
        ),
    ensures
        w0 + interpolated_warnings(all.skip(i), vars) == (w0 + piece) + interpolated_warnings(
            all.skip(i + c),
            vars,
        ),
{
    assert(all.skip(i).skip(c) =~= all.skip(i + c));
    assert(w0 + (piece + interpolated_warnings(all.skip(i + c), vars)) =~= (w0 + piece)
        + interpolated_warnings(all.skip(i + c), vars));
}

/// Records the warning for a reference to `name` that nothing resolved.
fn push_warning(warnings: &mut Vec<String>, name: &str)
    ensures
        final(warnings).deep_view() == old(warnings).deep_view() + seq![warning_text(name@)],
{
    let mut msg = String::from_str("Unknown env var in config. name = \"");
    msg.append(name);
    msg.append("\"");
    proof {
        assert(msg@ == warning_text(name@));
    }
    warnings.push(msg);
    proof {
        assert(warnings.deep_view() =~= old(warnings).deep_view() + seq![warning_text(name@)]);
    }
}

/// Replaces every variable reference in `input` by its value under `vars`,
/// recording one warning for each reference to an unknown variable that
/// carries no default.
pub fn interpolate(input: &str, vars: &SymbolTable<String>, warnings: &mut Vec<String>) -> (r:
    String)
    ensures
        r@ == interpolated(input@, text_views(vars@)),
        final(warnings).deep_view() == old(warnings).deep_view() + interpolated_warnings(
            input@,
            text_views(vars@),
        ),
{
    let ghost vm = text_views(vars@);
    let ghost all = input@;
    let n = input.unicode_len();
    let mut out = String::new();
    let mut i: usize = 0;
    proof {
        assert(all.skip(0) =~= all);
        assert(out@ + interpolated(all, vm) =~= interpolated(all, vm));
        assert(warnings.deep_view() + interpolated_warnings(all, vm) =~= warnings.deep_view()
            + interpolated_warnings(all, vm));
    }
    while i < n
        invariant
            n == all.len(),
            all == input@,
            i <= n,
            vm == text_views(vars@),
            out@ + interpolated(all.skip(i as int), vm) == interpolated(all, vm),
            warnings.deep_view() + interpolated_warnings(all.skip(i as int), vm) == old(
                warnings,
            ).deep_view() + interpolated_warnings(all, vm),
        decreases n - i,
    {
        let ghost t = all.skip(i as int);
        let ghost out0 = out@;
        let ghost warns0 = warnings.deep_view();
        proof {
            assert(t.len() == n - i);
            assert(t[0] == all[i as int]);
        }
        let c = input.get_char(i);
        if c != '$' {
            out.append(input.substring_char(i, i + 1));
            proof {
                assert(all.subrange(i as int, i as int + 1) =~= seq![t[0]]);
                assert(t.skip(1) =~= all.skip(i as int + 1));
                assert(interpolated(t, vm) == seq![t[0]] + interpolated(t.skip(1), vm));
                assert(interpolated_warnings(t, vm) == Seq::<Seq<char>>::empty()
                    + interpolated_warnings(t.skip(1), vm)) by {
                    assert(Seq::<Seq<char>>::empty() + interpolated_warnings(t.skip(1), vm)
                        =~= interpolated_warnings(t.skip(1), vm));
                }
                lemma_step_out(all, i as int, 1, vm, out0, seq![t[0]]);
                lemma_step_warns(all, i as int, 1, vm, warns0, Seq::<Seq<char>>::empty());
                assert(warns0 + Seq::<Seq<char>>::empty() =~= warns0);
            }
            i = i + 1;
        } else {
            proof {
                lemma_token_len_bounds(t);
                assert(interpolated(t, vm) == token_out(t, vm) + interpolated(
                    t.skip(token_len(t)),
                    vm,
                ));
                assert(interpolated_warnings(t, vm) == token_warns(t, vm)
                    + interpolated_warnings(t.skip(token_len(t)), vm));
            }
            let ghost tlen = token_len(t);
            if i + 1 >= n {
                // a lone `$` at the end of the text
                out.append("$");
                proof {
                    assert(t.len() == 1);
                    assert(tlen == 1);
                    assert(token_out(t, vm) == "$"@);
                    assert(token_warns(t, vm) == Seq::<Seq<char>>::empty());
                    lemma_step_out(all, i as int, 1, vm, out0, "$"@);
                    lemma_step_warns(all, i as int, 1, vm, warns0, Seq::<Seq<char>>::empty());
                    assert(warns0 + Seq::<Seq<char>>::empty() =~= warns0);
                }
                i = i + 1;
            } else {
                let c1 = input.get_char(i + 1);
                proof {
                    assert(t[1] == all[i as int + 1]);
                    assert(t.len() >= 2);
                }
                if c1 == '$' {
                    // `$$` stands for a literal `$`
                    out.append("$");
                    proof {
                        assert(tlen == 2);
                        assert(token_out(t, vm) == "$"@);
                        assert(token_warns(t, vm) == Seq::<Seq<char>>::empty());
                        lemma_step_out(all, i as int, 2, vm, out0, "$"@);
                        lemma_step_warns(all, i as int, 2, vm, warns0, Seq::<Seq<char>>::empty());
                        assert(warns0 + Seq::<Seq<char>>::empty() =~= warns0);
                    }
                    i = i + 2;
                } else if word_char(c1) {
                    // `$NAME`
                    let e = scan_word(input, i + 1);
                    proof {
                        assert(t.skip(1) =~= all.skip(i as int + 1));
                        assert(word_prefix_len(t.skip(1)) == e - (i + 1));
                        assert(tlen == e - i);
                        assert(t.subrange(1, 1 + word_prefix_len(t.skip(1))) =~= all.subrange(
                            i as int + 1,
                            e as int,
                        ));
                    }
                    let name_str = input.substring_char(i + 1, e);
                    let name = name_str.to_owned();
                    let ghost nm = t.subrange(1, 1 + word_prefix_len(t.skip(1)));
                    proof {
                        assert(name@ == nm);
                    }
                    match vars.lookup(&name) {
                        Some(v) => {
                            out.append(v.as_str());
                            proof {
                                assert(vm.contains_key(nm) && vm[nm] == v@);
                                assert(token_out(t, vm) == v@);
                                assert(token_warns(t, vm) == Seq::<Seq<char>>::empty());
                                lemma_step_out(all, i as int, e - i, vm, out0, v@);
                                lemma_step_warns(all, i as int, e - i, vm, warns0, Seq::<
                                    Seq<char>,
                                >::empty());
                                assert(warns0 + Seq::<Seq<char>>::empty() =~= warns0);
                            }
                        },
                        None => {
                            push_warning(warnings, name_str);
                            proof {
                                assert(!vm.contains_key(nm));
                                assert(token_out(t, vm) == Seq::<char>::empty());
                                assert(token_warns(t, vm) == seq![warning_text(nm)]);
                                lemma_step_out(all, i as int, e - i, vm, out0, Seq::<
                                    char,
                                >::empty());
                                lemma_step_warns(all, i as int, e - i, vm, warns0, seq![
                                    warning_text(nm),
                                ]);
                                assert(out0 + Seq::<char>::empty() =~= out0);
                            }
                        },
                    }
                    i = e;
                } else if c1 == '{' {
                    let ws = scan_word(input, i + 2);
                    let ghost nn = word_prefix_len(t.skip(2));
                    proof {
                        assert(t.skip(2) =~= all.skip(i as int + 2));
                        assert(nn == ws - (i + 2));
                    }
                    if ws == i + 2 {
                        // `${` with no name: kept as it stands
                        out.append("$");
                        proof {
                            assert(tlen == 1);
                            assert(token_out(t, vm) == "$"@);
                            assert(token_warns(t, vm) == Seq::<Seq<char>>::empty());
                            lemma_step_out(all, i as int, 1, vm, out0, "$"@);
                            lemma_step_warns(all, i as int, 1, vm, warns0, Seq::<
                                Seq<char>,
                            >::empty());
                            assert(warns0 + Seq::<Seq<char>>::empty() =~= warns0);
                        }
                        i = i + 1;
                    } else {
                        let name_str = input.substring_char(i + 2, ws);
                        let name = name_str.to_owned();
                        let ghost nm = t.subrange(2, 2 + nn);
                        proof {
                            assert(nm =~= all.subrange(i as int + 2, ws as int));
                            assert(name@ == nm);
                        }
                        if ws < n && input.get_char(ws) == '}' {
                            // `${NAME}`
                            proof {
                                assert(t[2 + nn] == all[ws as int]);
                                assert(tlen == 3 + nn);
                            }
                            match vars.lookup(&name) {
                                Some(v) => {
                                    out.append(v.as_str());
                                    proof {
                                        assert(vm.contains_key(nm) && vm[nm] == v@);
                                        assert(token_out(t, vm) == v@);
                                        assert(token_warns(t, vm) == Seq::<Seq<char>>::empty());
                                        lemma_step_out(all, i as int, 3 + nn, vm, out0, v@);
                                        lemma_step_warns(all, i as int, 3 + nn, vm, warns0, Seq::<
                                            Seq<char>,
                                        >::empty());
                                        assert(warns0 + Seq::<Seq<char>>::empty() =~= warns0);
                                    }
                                },
                                None => {
                                    push_warning(warnings, name_str);
                                    proof {
                                        assert(!vm.contains_key(nm));
                                        assert(token_out(t, vm) == Seq::<char>::empty());
                                        assert(token_warns(t, vm) == seq![warning_text(nm)]);
                                        lemma_step_out(all, i as int, 3 + nn, vm, out0, Seq::<
                                            char,
                                        >::empty());
                                        lemma_step_warns(all, i as int, 3 + nn, vm, warns0, seq![
                                            warning_text(nm),
                                        ]);
                                        assert(out0 + Seq::<char>::empty() =~= out0);
                                    }
                                },
                            }
                            i = ws + 1;
                        } else if ws < n && input.get_char(ws) == ':' && ws + 1 < n
                            && input.get_char(ws + 1) == '-' {
                            // `${NAME:-default}`, when the brace closes
                            let de = scan_default(input, ws + 2);
                            let ghost dd = default_prefix_len(t.skip(2 + nn + 2));
                            proof {
                                assert(t[2 + nn] == all[ws as int]);
                                assert(t[2 + nn + 1] == all[ws as int + 1]);
                                assert(t.skip(2 + nn + 2) =~= all.skip(ws as int + 2));
                                assert(dd == de - (ws + 2));
                            }
                            if de < n {
                                proof {
                                    assert(2 + nn + 2 + dd < t.len());
                                    assert(tlen == 3 + nn + 2 + dd);
                                }
                                match vars.lookup(&name) {
                                    Some(v) => {
                                        out.append(v.as_str());
                                        proof {
                                            assert(vm.contains_key(nm) && vm[nm] == v@);
                                            assert(token_out(t, vm) == v@);
                                            assert(token_warns(t, vm) == Seq::<
                                                Seq<char>,
                                            >::empty());
                                            lemma_step_out(
                                                all,
                                                i as int,
                                                tlen,
                                                vm,
                                                out0,
                                                v@,
                                            );
                                            lemma_step_warns(all, i as int, tlen, vm, warns0, Seq::<
                                                Seq<char>,
                                            >::empty());
                                            assert(warns0 + Seq::<Seq<char>>::empty() =~= warns0);
                                        }
                                    },
                                    None => {
                                        if de > ws + 2 {
                                            out.append(input.substring_char(ws + 2, de));
                                            proof {
                                                assert(!vm.contains_key(nm));
                                                assert(t.subrange(2 + nn + 2, 2 + nn + 2 + dd)
                                                    =~= all.subrange(ws as int + 2, de as int));
                                                assert(token_out(t, vm) == all.subrange(
                                                    ws as int + 2,
                                                    de as int,
                                                ));
                                                assert(token_warns(t, vm) == Seq::<
                                                    Seq<char>,
                                                >::empty());
                                                lemma_step_out(
                                                    all,
                                                    i as int,
                                                    tlen,
                                                    vm,
                                                    out0,
                                                    all.subrange(ws as int + 2, de as int),
                                                );
                                                lemma_step_warns(
                                                    all,
                                                    i as int,
                                                    tlen,
                                                    vm,
                                                    warns0,
                                                    Seq::<Seq<char>>::empty(),
                                                );
                                                assert(warns0 + Seq::<Seq<char>>::empty()
                                                    =~= warns0);
                                            }
                                        } else {
                                            push_warning(warnings, name_str);
                                            proof {
                                                assert(!vm.contains_key(nm));
                                                assert(dd == 0);
                                                assert(token_out(t, vm) == Seq::<char>::empty());
                                                assert(token_warns(t, vm) == seq![
                                                    warning_text(nm),
                                                ]);
                                                lemma_step_out(all, i as int, tlen, vm, out0, Seq::<
                                                    char,
                                                >::empty());
                                                lemma_step_warns(
                                                    all,
                                                    i as int,
                                                    tlen,
                                                    vm,
                                                    warns0,
                                                    seq![warning_text(nm)],
                                                );
                                                assert(out0 + Seq::<char>::empty() =~= out0);
                                            }
                                        }
                                    },
                                }
                                i = de + 1;
                            } else {
                                // no closing brace: kept as it stands
                                out.append("$");
                                proof {
                                    assert(2 + nn + 2 + dd >= t.len());
                                    assert(tlen == 1);
                                    assert(token_out(t, vm) == "$"@);
                                    assert(token_warns(t, vm) == Seq::<Seq<char>>::empty());
                                    lemma_step_out(all, i as int, 1, vm, out0, "$"@);
                                    lemma_step_warns(all, i as int, 1, vm, warns0, Seq::<
                                        Seq<char>,
                                    >::empty());
                                    assert(warns0 + Seq::<Seq<char>>::empty() =~= warns0);
                                }
                                i = i + 1;
                            }
                        } else {
                            // the name is followed by neither `}` nor `:-`
                            out.append("$");
                            proof {
                                if ws < n {
                                    assert(t[2 + nn] == all[ws as int]);
                                }
                                if ws + 1 < n {
                                    assert(t[2 + nn + 1] == all[ws as int + 1]);
                                }
                                assert(tlen == 1);
                                assert(token_out(t, vm) == "$"@);
                                assert(token_warns(t, vm) == Seq::<Seq<char>>::empty());
                                lemma_step_out(all, i as int, 1, vm, out0, "$"@);
                                lemma_step_warns(all, i as int, 1, vm, warns0, Seq::<
                                    Seq<char>,
                                >::empty());
                                assert(warns0 + Seq::<Seq<char>>::empty() =~= warns0);
                            }
                            i = i + 1;
                        }
                    }
                } else {
                    // `$` followed by an ordinary character: kept as it stands
                    out.append("$");
                    proof {
                        assert(tlen == 1);
                        assert(token_out(t, vm) == "$"@);
                        assert(token_warns(t, vm) == Seq::<Seq<char>>::empty());
                        lemma_step_out(all, i as int, 1, vm, out0, "$"@);
                        lemma_step_warns(all, i as int, 1, vm, warns0, Seq::<Seq<char>>::empty());
                        assert(warns0 + Seq::<Seq<char>>::empty() =~= warns0);
                    }
                    i = i + 1;
                }
            }
        }
    }
    proof {
        assert(all.skip(n as int).len() == 0);
        assert(out@ + Seq::<char>::empty() =~= out@);
        assert(warnings.deep_view() + Seq::<Seq<char>>::empty() =~= warnings.deep_view());
    }
    out
}

} // verus!
