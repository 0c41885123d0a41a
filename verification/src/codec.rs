//! Encoding and decoding of the JSON preference file.
//!
//! The preference file holds a single JSON object with one field,
//! `default_store_path`, whose value is either a string or `null`.
//! Encoding produces exactly that shape; decoding accepts it back
//! (with the usual JSON string escapes) and rejects everything else.

use vstd::prelude::*;

verus! {

/// One hexadecimal digit, lower case.
pub open spec fn hex_digit(n: nat) -> char {
    if n == 0 { '0' } else if n == 1 { '1' } else if n == 2 { '2' } else if n == 3 { '3' }
    else if n == 4 { '4' } else if n == 5 { '5' } else if n == 6 { '6' } else if n == 7 { '7' }
    else if n == 8 { '8' } else if n == 9 { '9' } else if n == 10 { 'a' } else if n == 11 { 'b' }
    else if n == 12 { 'c' } else if n == 13 { 'd' } else if n == 14 { 'e' } else { 'f' }
}

/// How one character appears inside a JSON string literal: quotes and
/// backslashes are escaped, control characters become `\u00XX`, and every
/// other character stands for itself.
pub open spec fn escaped_char(c: char) -> Seq<char> {
    if c == '"' {
        seq!['\\', '"']
    } else if c == '\\' {
        seq!['\\', '\\']
    } else if (c as u32) < 0x20 {
        seq!['\\', 'u', '0', '0', hex_digit((c as u32 / 16) as nat), hex_digit((c as u32 % 16) as nat)]
    } else {
        seq![c]
    }
}

/// The body of a JSON string literal holding the characters of `s`.
pub open spec fn escape_chars(s: Seq<char>) -> Seq<char>
    decreases s.len(),
{
    if s.len() == 0 {
        Seq::<char>::empty()
    } else {
        escaped_char(s[0]) + escape_chars(s.drop_first())
    }
}

/// A lower-case hexadecimal digit.
pub open spec fn is_hex_lower(c: char) -> bool {
    (48 <= c as u32 && c as u32 <= 57) || (97 <= c as u32 && c as u32 <= 102)
}

/// The value of a lower-case hexadecimal digit.
pub open spec fn hex_val(c: char) -> nat {
    if 48 <= c as u32 && c as u32 <= 57 {
        (c as u32 - 48) as nat
    } else {
        (c as u32 - 87) as nat
    }
}

/// The character a single-letter JSON escape stands for, if the letter is one.
pub open spec fn short_escape(c: char) -> Option<char> {
    if c == '"' {
        Some('"')
    } else if c == '\\' {
        Some('\\')
    } else if c == '/' {
        Some('/')
    } else if c == 'n' {
        Some('\n')
    } else if c == 't' {
        Some('\t')
    } else if c == 'r' {
        Some('\r')
    } else if c == 'b' {
        Some('\u{0008}')
    } else if c == 'f' {
        Some('\u{000c}')
    } else {
        None
    }
}

/// Put one decoded character in front of the rest of a decoding, if the
/// rest is meaningful.
pub open spec fn prepend(c: char, rest: Option<Seq<char>>) -> Option<Seq<char>> {
    match rest {
        Some(r) => Some(seq![c] + r),
        None => None,
    }
}

/// What the body of a JSON string literal denotes: the inverse of
/// [`escape_chars`], also accepting the single-letter escapes and `\u00XX`
/// forms that other writers of the same format use. A stray quote, a bare
/// control character or an unknown escape makes the body meaningless.
pub open spec fn unescape_chars(t: Seq<char>) -> Option<Seq<char>>
    decreases t.len(),
{
    if t.len() == 0 {
        Some(Seq::<char>::empty())
    } else if t[0] == '\\' {
        if t.len() >= 2 && short_escape(t[1]) is Some {
            prepend(short_escape(t[1])->Some_0, unescape_chars(t.skip(2)))
        } else if t.len() >= 6 && t[1] == 'u' && t[2] == '0' && t[3] == '0' && is_hex_lower(t[4])
            && is_hex_lower(t[5]) {
            prepend(((hex_val(t[4]) * 16 + hex_val(t[5])) as u8) as char, unescape_chars(t.skip(6)))
        } else {
            None
        }
    } else if t[0] == '"' || (t[0] as u32) < 0x20 {
        None
    } else {
        prepend(t[0], unescape_chars(t.skip(1)))
    }
}

/// Escaping a string and reading the escaped form back yields the original,
/// character for character.
pub proof fn lemma_unescape_escape(s: Seq<char>)
    ensures
        unescape_chars(escape_chars(s)) == Some(s),
    decreases s.len(),
{
    if s.len() == 0 {
        assert(s =~= Seq::<char>::empty());
    } else {
        let c = s[0];
        let rest = s.drop_first();
        lemma_unescape_escape(rest);
        let e = escaped_char(c);
        let er = escape_chars(rest);
        let t = escape_chars(s);
        assert(t == e + er);
        if c == '"' || c == '\\' {
            assert(t.skip(2) =~= er);
            assert(unescape_chars(t) == Some(seq![c] + rest));
            assert(seq![c] + rest =~= s);
        } else if (c as u32) < 0x20 {
            let v = c as u32;
            lemma_hex_digit((v / 16) as nat);
            lemma_hex_digit((v % 16) as nat);
            assert(t.skip(6) =~= er);
            assert(hex_val(t[4]) * 16 + hex_val(t[5]) == v) by {
                vstd::arithmetic::div_mod::lemma_fundamental_div_mod(v as int, 16);
            }
            assert(((v as u8) as char) == c) by {
                vstd::utf8::char_u32_cast(c, v);
            }
            assert(unescape_chars(t) == Some(seq![c] + rest));
            assert(seq![c] + rest =~= s);
        } else {
            assert(t.skip(1) =~= er);
            assert(unescape_chars(t) == Some(seq![c] + rest));
            assert(seq![c] + rest =~= s);
        }
    }
}

/// The sixteen digit characters carry their own values and are digits.
pub proof fn lemma_hex_digit(n: nat)
    requires
        n < 16,
    ensures
        is_hex_lower(hex_digit(n)),
        hex_val(hex_digit(n)) == n,
{
}

/// Everything of the preference file before the value of the one field.
pub open spec fn prefs_prefix() -> Seq<char> {
    "{\n  \"default_store_path\": "@
}

/// Everything of the preference file after the value of the one field.
pub open spec fn prefs_suffix() -> Seq<char> {
    "\n}"@
}

pub open spec fn null_text() -> Seq<char> {
    "null"@
}

/// The whole preference file for a given default path: one pretty-printed
/// JSON object whose single field holds the path as a string, or `null`.
pub open spec fn prefs_json(path: Option<Seq<char>>) -> Seq<char> {
    prefs_prefix() + (match path {
        None => null_text(),
        Some(s) => seq!['"'] + escape_chars(s) + seq!['"'],
    }) + prefs_suffix()
}

/// What a preference file's text denotes. `None` means the text is not a
/// well-formed preference file; `Some(p)` means it holds the default path
/// `p` (itself optional, since the field may be `null`).
pub open spec fn parse_prefs_json(s: Seq<char>) -> Option<Option<Seq<char>>> {
    let pre = prefs_prefix();
    let suf = prefs_suffix();
    if s.len() >= pre.len() + suf.len() && s.take(pre.len() as int) == pre && s.skip(
        s.len() - suf.len(),
    ) == suf {
        let mid = s.subrange(pre.len() as int, s.len() - suf.len());
        if mid == null_text() {
            Some(None)
        } else if mid.len() >= 2 && mid[0] == '"' && mid[mid.len() - 1] == '"' {
            match unescape_chars(mid.subrange(1, mid.len() - 1)) {
                Some(u) => Some(Some(u)),
                None => None,
            }
        } else {
            None
        }
    } else {
        None
    }
}

/// Encoding a default path and parsing the text back yields that same path:
/// the preference file is read exactly as it was written.
pub proof fn lemma_parse_prefs_encode(path: Option<Seq<char>>)
    ensures
        parse_prefs_json(prefs_json(path)) == Some(path),
{
    reveal_strlit("{\n  \"default_store_path\": ");
    reveal_strlit("\n}");
    reveal_strlit("null");
    let pre = prefs_prefix();
    let suf = prefs_suffix();
    let mid = match path {
        None => null_text(),
        Some(s0) => seq!['"'] + escape_chars(s0) + seq!['"'],
    };
    let s = prefs_json(path);
    assert(s == pre + mid + suf);
    assert(s.take(pre.len() as int) =~= pre);
    assert(s.skip(s.len() - suf.len()) =~= suf);
    assert(s.subrange(pre.len() as int, s.len() - suf.len()) =~= mid);
    match path {
        None => {},
        Some(s0) => {
            assert(mid[0] == '"');
            assert(null_text()[0] == 'n');
            assert(mid != null_text());
            assert(mid[mid.len() - 1] == '"');
            assert(mid.subrange(1, mid.len() - 1) =~= escape_chars(s0));
            lemma_unescape_escape(s0);
        },
    }
}

/// Escaping one more character appends that character's escape.
pub proof fn lemma_escape_chars_push(s: Seq<char>, c: char)
    ensures
        escape_chars(s.push(c)) == escape_chars(s) + escaped_char(c),
    decreases s.len(),
{
    if s.len() == 0 {
        assert(s.push(c)[0] == c);
        assert(s.push(c).drop_first() =~= Seq::<char>::empty());
        assert(escape_chars(s.push(c)) == escaped_char(c) + escape_chars(Seq::<char>::empty()));
        assert(escaped_char(c) + Seq::<char>::empty() =~= escaped_char(c));
        assert(escape_chars(s) + escaped_char(c) =~= escaped_char(c));
    } else {
        lemma_escape_chars_push(s.drop_first(), c);
        assert(s.push(c).drop_first() =~= s.drop_first().push(c));
        assert(escape_chars(s.push(c)) == escaped_char(s[0]) + escape_chars(s.drop_first().push(c)));
        assert(escaped_char(s[0]) + (escape_chars(s.drop_first()) + escaped_char(c)) =~= (
        escaped_char(s[0]) + escape_chars(s.drop_first())) + escaped_char(c));
    }
}

/// The characters of a string, in order.
pub(crate) fn chars_of(s: &str) -> (r: Vec<char>)
    ensures
        r@ == s@,
{
    let n = s.unicode_len();
    let mut r: Vec<char> = Vec::new();
    let mut i: usize = 0;
    while i < n
        invariant
            i <= n,
            n == s@.len(),
            r@ == s@.take(i as int),
        decreases n - i,
    {
        r.push(s.get_char(i));
        proof {
            assert(s@.take(i + 1 as int) =~= s@.take(i as int).push(s@[i as int]));
        }
        i += 1;
    }
    proof {
        assert(s@.take(n as int) =~= s@);
    }
    r
}

/// Relies on `core::iter::Iterator::collect` for `String`: collecting an
/// iterator of characters builds the string of exactly those characters,
/// in order.
#[verifier::external_body]
fn string_of_chars(v: &Vec<char>) -> (r: String)
    ensures
        r@ == v@,
{
    v.iter().collect()
}

/// One lower-case hexadecimal digit, as a character.
fn hex_digit_exec(n: u8) -> (c: char)
    requires
        n < 16,
    ensures
        c == hex_digit(n as nat),
{
    if n == 0 { '0' } else if n == 1 { '1' } else if n == 2 { '2' } else if n == 3 { '3' }
    else if n == 4 { '4' } else if n == 5 { '5' } else if n == 6 { '6' } else if n == 7 { '7' }
    else if n == 8 { '8' } else if n == 9 { '9' } else if n == 10 { 'a' } else if n == 11 { 'b' }
    else if n == 12 { 'c' } else if n == 13 { 'd' } else if n == 14 { 'e' } else { 'f' }
}

/// Append the escape of `c` to `out`.
fn push_escaped(out: &mut Vec<char>, c: char)
    ensures
        final(out)@ == old(out)@ + escaped_char(c),
{
    if c == '"' {
        out.push('\\');
        out.push('"');
    } else if c == '\\' {
        out.push('\\');
        out.push('\\');
    } else {
        let v = c as u32;
        if v < 0x20 {
            out.push('\\');
            out.push('u');
            out.push('0');
            out.push('0');
            out.push(hex_digit_exec((v / 16) as u8));
            out.push(hex_digit_exec((v % 16) as u8));
        } else {
            out.push(c);
        }
    }
    proof {
        assert(out@ =~= old(out)@ + escaped_char(c));
    }
}

/// The full text of the preference file recording the given default path.
pub fn encode_prefs_text(path: Option<&String>) -> (r: String)
    ensures
        r@ == prefs_json(match path {
            Some(p) => Some(p@),
            None => None,
        }),
{
    let ghost path_view: Option<Seq<char>> = match path {
        Some(p) => Some(p@),
        None => None,
    };
    let mut out: Vec<char> = chars_of("{\n  \"default_store_path\": ");
    match path {
        None => {
            let mut tail = chars_of("null");
            out.append(&mut tail);
        },
        Some(p) => {
            out.push('"');
            let cs = chars_of(p.as_str());
            let n = cs.len();
            let mut i: usize = 0;
            while i < n
                invariant
                    i <= n,
                    n == cs@.len(),
                    cs@ == p@,
                    out@ == prefs_prefix() + seq!['"'] + escape_chars(p@.take(i as int)),
                decreases n - i,
            {
                push_escaped(&mut out, cs[i]);
                proof {
                    assert(p@.take(i + 1 as int) =~= p@.take(i as int).push(p@[i as int]));
                    lemma_escape_chars_push(p@.take(i as int), p@[i as int]);
                    assert(out@ =~= prefs_prefix() + seq!['"'] + escape_chars(p@.take(i + 1 as int)));
                }
                i += 1;
            }
            proof {
                assert(p@.take(n as int) =~= p@);
            }
            out.push('"');
        },
    }
    let mut sfx = chars_of("\n}");
    out.append(&mut sfx);
    let r = string_of_chars(&out);
    proof {
        assert(r@ =~= prefs_json(path_view));
    }
    r
}

/// The value of a lower-case hexadecimal digit.
fn hex_val_exec(c: char) -> (r: u8)
    requires
        is_hex_lower(c),
    ensures
        r as nat == hex_val(c),
{
    let v = c as u32;
    if v <= 57 {
        (v - 48) as u8
    } else {
        (v - 87) as u8
    }
}

/// The character a single-letter JSON escape stands for, if the letter is one.
fn short_escape_exec(c: char) -> (r: Option<char>)
    ensures
        r == short_escape(c),
{
    if c == '"' {
        Some('"')
    } else if c == '\\' {
        Some('\\')
    } else if c == '/' {
        Some('/')
    } else if c == 'n' {
        Some('\n')
    } else if c == 't' {
        Some('\t')
    } else if c == 'r' {
        Some('\r')
    } else if c == 'b' {
        Some('\u{0008}')
    } else if c == 'f' {
        Some('\u{000c}')
    } else {
        None
    }
}

pub open spec fn with_prefix(p: Seq<char>, rest: Option<Seq<char>>) -> Option<Seq<char>> {
    match rest {
        Some(r) => Some(p + r),
        None => None,
    }
}

/// Read a JSON string-literal body back into the characters it denotes,
/// or report that it is not a well-formed body.
fn unescape(t: &Vec<char>) -> (r: Option<Vec<char>>)
    ensures
        match r {
            Some(v) => unescape_chars(t@) == Some(v@),
            None => unescape_chars(t@) is None,
        },
{
    let n = t.len();
    let mut out: Vec<char> = Vec::new();
    let mut i: usize = 0;
    proof {
        assert(t@.skip(0) =~= t@);
        if unescape_chars(t@) is Some {
            assert(Seq::<char>::empty() + unescape_chars(t@)->Some_0 =~= unescape_chars(
                t@,
            )->Some_0);
        }
    }
    while i < n
        invariant
            i <= n,
            n == t@.len(),
            unescape_chars(t@) == with_prefix(out@, unescape_chars(t@.skip(i as int))),
        decreases n - i,
    {
        let ghost pending = t@.skip(i as int);
        let c = t[i];
        assert(pending[0] == c);
        if c == '\\' {
            if i + 1 >= n {
                assert(pending.len() == 1);
                return None;
            }
            let d = t[i + 1];
            assert(pending[1] == d);
            match short_escape_exec(d) {
                Some(u) => {
                    out.push(u);
                    proof {
                        assert(t@.skip(i + 2 as int) =~= pending.skip(2));
                        lemma_with_prefix_step(out@.drop_last(), u, unescape_chars(pending.skip(2)));
                    }
                    i = i + 2;
                },
                None => {
                    if d != 'u' {
                        return None;
                    }
                    if n - i < 6 {
                        assert(pending.len() < 6);
                        return None;
                    }
                    assert(pending[2] == t@[i + 2]);
                    assert(pending[3] == t@[i + 3]);
                    assert(pending[4] == t@[i + 4]);
                    assert(pending[5] == t@[i + 5]);
                    if t[i + 2] != '0' || t[i + 3] != '0' {
                        return None;
                    }
                    let h1 = t[i + 4];
                    let h2 = t[i + 5];
                    let h1v = c_is_hex(h1);
                    let h2v = c_is_hex(h2);
                    if !h1v || !h2v {
                        return None;
                    }
                    let v: u8 = hex_val_exec(h1) * 16 + hex_val_exec(h2);
                    out.push(v as char);
                    proof {
                        assert(t@.skip(i + 6 as int) =~= pending.skip(6));
                        lemma_with_prefix_step(
                            out@.drop_last(),
                            v as char,
                            unescape_chars(pending.skip(6)),
                        );
                    }
                    i = i + 6;
                },
            }
        } else if c == '"' {
            return None;
        } else if (c as u32) < 0x20 {
            return None;
        } else {
            out.push(c);
            proof {
                assert(t@.skip(i + 1 as int) =~= pending.skip(1));
                lemma_with_prefix_step(out@.drop_last(), c, unescape_chars(pending.skip(1)));
            }
            i = i + 1;
        }
    }
    proof {
        assert(t@.skip(n as int) =~= Seq::<char>::empty());
        assert(out@ + Seq::<char>::empty() =~= out@);
    }
    Some(out)
}

/// Consuming one decoded character moves it from the pending suffix onto the
/// accumulated prefix.
proof fn lemma_with_prefix_step(p: Seq<char>, c: char, rest: Option<Seq<char>>)
    ensures
        with_prefix(p, prepend(c, rest)) == with_prefix(p.push(c), rest),
{
    match rest {
        Some(r) => {
            assert(p + (seq![c] + r) =~= p.push(c) + r);
        },
        None => {},
    }
}

/// Whether a character is a lower-case hexadecimal digit.
fn c_is_hex(c: char) -> (r: bool)
    ensures
        r == is_hex_lower(c),
{
    let v = c as u32;
    (48 <= v && v <= 57) || (97 <= v && v <= 102)
}

/// Read a preference file's text. `None` means the text is not a
/// well-formed preference file; `Some(p)` hands back the recorded default
/// path, itself absent when the field is `null`.
#[verifier::loop_isolation(false)]
pub fn parse_prefs_text(s: &str) -> (r: Option<Option<String>>)
    ensures
        r.deep_view() == parse_prefs_json(s@),
{
    let t = chars_of(s);
    let pre = chars_of("{\n  \"default_store_path\": ");
    let suf = chars_of("\n}");
    let n = t.len();
    let np = pre.len();
    let ns = suf.len();
    if n < np || n - np < ns {
        return None;
    }
    let mut i: usize = 0;
    while i < np
        invariant
            i <= np,
            np == pre@.len(),
            n == t@.len(),
            np <= n,
            pre@ == prefs_prefix(),
            forall|j: int| 0 <= j < i ==> t@[j] == pre@[j],
        decreases np - i,
    {
        if t[i] != pre[i] {
            proof {
                assert(t@.take(np as int)[i as int] != pre@[i as int]);
            }
            return None;
        }
        i += 1;
    }
    proof {
        assert(t@.take(np as int) =~= pre@);
    }
    let mut j: usize = 0;
    while j < ns
        invariant
            j <= ns,
            ns == suf@.len(),
            n == t@.len(),
            np <= n,
            ns <= n - np,
            suf@ == prefs_suffix(),
            forall|k: int| 0 <= k < j ==> t@[n - ns + k] == suf@[k],
        decreases ns - j,
    {
        if t[n - ns + j] != suf[j] {
            proof {
                assert(t@.skip((n - ns) as int)[j as int] != suf@[j as int]);
            }
            return None;
        }
        j += 1;
    }
    proof {
        assert(t@.skip((n - ns) as int) =~= suf@);
    }
    let mut mid: Vec<char> = Vec::new();
    let mut k: usize = np;
    while k < n - ns
        invariant
            np <= k <= n - ns,
            ns <= n - np,
            n == t@.len(),
            mid@ == t@.subrange(np as int, k as int),
        decreases n - ns - k,
    {
        mid.push(t[k]);
        proof {
            assert(t@.subrange(np as int, k + 1 as int) =~= t@.subrange(
                np as int,
                k as int,
            ).push(t@[k as int]));
        }
        k += 1;
    }
    let ghost midv = t@.subrange(np as int, (n - ns) as int);
    let m = mid.len();
    let nul = chars_of("null");
    if m == nul.len() {
        let mut all_eq = true;
        let mut q: usize = 0;
        while q < m
            invariant
                q <= m,
                m == mid@.len(),
                m == nul@.len(),
                all_eq == (forall|x: int| 0 <= x < q ==> mid@[x] == nul@[x]),
            decreases m - q,
        {
            if mid[q] != nul[q] {
                all_eq = false;
            }
            q += 1;
        }
        if all_eq {
            proof {
                assert(midv =~= null_text());
            }
            return Some(None);
        }
    }
    proof {
        assert(midv != null_text());
    }
    if m < 2 {
        return None;
    }
    let open_ok = mid[0] == '"';
    let close_ok = mid[m - 1] == '"';
    if !open_ok || !close_ok {
        return None;
    }
    let mut inner: Vec<char> = Vec::new();
    let mut q: usize = 1;
    while q < m - 1
        invariant
            1 <= q <= m - 1,
            2 <= m == mid@.len(),
            inner@ == mid@.subrange(1, q as int),
        decreases m - 1 - q,
    {
        inner.push(mid[q]);
        proof {
            assert(mid@.subrange(1, q + 1 as int) =~= mid@.subrange(1, q as int).push(
                mid@[q as int],
            ));
        }
        q += 1;
    }
    proof {
        assert(inner@ =~= midv.subrange(1, midv.len() - 1));
    }
    match unescape(&inner) {
        Some(u) => {
            let us = string_of_chars(&u);
            Some(Some(us))
        },
        None => None,
    }
}

} // verus!
