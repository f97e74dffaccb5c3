//! String utilities: lexicographic ordering, sorting, substring search
//! and the small character rewritings the pipeline needs.

use vstd::prelude::*;

verus! {

/// Strict lexicographic order on character sequences, by code point.
pub open spec fn chars_lt(a: Seq<char>, b: Seq<char>) -> bool
    decreases a.len(),
{
    if b.len() == 0 {
        false
    } else if a.len() == 0 {
        true
    } else if a[0] == b[0] {
        chars_lt(a.drop_first(), b.drop_first())
    } else {
        (a[0] as u32) < (b[0] as u32)
    }
}

proof fn lemma_chars_lt_irreflexive(a: Seq<char>)
    ensures
        !chars_lt(a, a),
    decreases a.len(),
{
    if a.len() > 0 {
        lemma_chars_lt_irreflexive(a.drop_first());
    }
}

proof fn lemma_chars_lt_connected(a: Seq<char>, b: Seq<char>)
    ensures
        a != b ==> chars_lt(a, b) || chars_lt(b, a),
    decreases a.len(),
{
    if a.len() == 0 && b.len() == 0 {
        assert(a =~= b);
    } else if a.len() > 0 && b.len() > 0 && a[0] == b[0] {
        lemma_chars_lt_connected(a.drop_first(), b.drop_first());
        assert(chars_lt(a, b) == chars_lt(a.drop_first(), b.drop_first()));
        assert(chars_lt(b, a) == chars_lt(b.drop_first(), a.drop_first()));
        if a.drop_first() == b.drop_first() {
            assert(a.len() == b.len());
            assert forall|i: int| 0 <= i < a.len() implies a[i] == b[i] by {
                if i > 0 {
                    assert(a[i] == a.drop_first()[i - 1]);
                    assert(b[i] == b.drop_first()[i - 1]);
                }
            }
            assert(a =~= b);
        }
    } else if a.len() > 0 && b.len() > 0 {
        assert((a[0] as u32) < (b[0] as u32) || (b[0] as u32) < (a[0] as u32)) by {
            vstd::utf8::char_u32_cast(a[0], a[0] as u32);
            vstd::utf8::char_u32_cast(b[0], b[0] as u32);
        }
    }
}

proof fn lemma_chars_lt_transitive(a: Seq<char>, b: Seq<char>, c: Seq<char>)
    ensures
        chars_lt(a, b) && chars_lt(b, c) ==> chars_lt(a, c),
    decreases a.len(),
{
    if a.len() > 0 && b.len() > 0 && c.len() > 0 {
        lemma_chars_lt_transitive(a.drop_first(), b.drop_first(), c.drop_first());
    }
}

/// The views of a sequence of strings.
pub open spec fn views_of(v: Seq<String>) -> Seq<Seq<char>> {
    v.map_values(|s: String| s@)
}

/// Strictly ascending in `chars_lt`: sorted and free of duplicates.
pub open spec fn strictly_sorted(s: Seq<Seq<char>>) -> bool {
    forall|k: int, l: int| 0 <= k < l < s.len() ==> chars_lt(s[k], s[l])
}

proof fn lemma_insert_contains<A>(s: Seq<A>, i: int, a: A, x: A)
    requires
        0 <= i <= s.len(),
    ensures
        s.insert(i, a).contains(x) <==> (x == a || s.contains(x)),
{
    s.insert_ensures(i, a);
    let t = s.insert(i, a);
    if t.contains(x) {
        let k = choose|k: int| 0 <= k < t.len() && t[k] == x;
        if k < i {
            assert(s[k] == x);
        } else if k > i {
            assert(s[k - 1] == x);
        }
    }
    if x == a {
        assert(t[i] == x);
    } else if s.contains(x) {
        let k = choose|k: int| 0 <= k < s.len() && s[k] == x;
        if k < i {
            assert(t[k] == x);
        } else {
            assert(t[k + 1] == x);
        }
    }
}

/// Compares two strings in the lexicographic order `chars_lt`.
pub fn str_lt(a: &str, b: &str) -> (r: bool)
    ensures
        r == chars_lt(a@, b@),
{
    let alen = a.unicode_len();
    let blen = b.unicode_len();
    let mut i: usize = 0;
    proof {
        assert(a@.skip(0) =~= a@);
        assert(b@.skip(0) =~= b@);
    }
    loop
        invariant
            i <= alen,
            i <= blen,
            alen == a@.len(),
            blen == b@.len(),
            chars_lt(a@, b@) == chars_lt(a@.skip(i as int), b@.skip(i as int)),
        decreases alen - i,
    {
        if i == alen {
            return i < blen;
        }
        if i == blen {
            return false;
        }
        let ca = a.get_char(i);
        let cb = b.get_char(i);
        proof {
            assert(a@.skip(i as int)[0] == a@[i as int]);
            assert(b@.skip(i as int)[0] == b@[i as int]);
            assert(a@.skip(i as int).drop_first() =~= a@.skip(i as int + 1));
            assert(b@.skip(i as int).drop_first() =~= b@.skip(i as int + 1));
        }
        if ca != cb {
            return (ca as u32) < (cb as u32);
        }
        i = i + 1;
    }
}

/// Character-for-character string equality.
pub fn str_eq(a: &str, b: &str) -> (r: bool)
    ensures
        r == (a@ == b@),
{
    let alen = a.unicode_len();
    let blen = b.unicode_len();
    if alen != blen {
        return false;
    }
    let mut i: usize = 0;
    while i < alen
        invariant
            i <= alen,
            alen == a@.len(),
            alen == b@.len(),
            forall|k: int| 0 <= k < i ==> a@[k] == b@[k],
        decreases alen - i,
    {
        if a.get_char(i) != b.get_char(i) {
            return false;
        }
        i = i + 1;
    }
    proof {
        assert(a@ =~= b@);
    }
    true
}

/// Linear search for a string value among the given strings.
pub fn contains_string(v: &Vec<String>, s: &str) -> (r: bool)
    ensures
        r == views_of(v@).contains(s@),
{
    let mut i: usize = 0;
    while i < v.len()
        invariant
            i <= v@.len(),
            forall|k: int| 0 <= k < i ==> views_of(v@)[k] != s@,
        decreases v@.len() - i,
    {
        if str_eq(v[i].as_str(), s) {
            proof {
                assert(views_of(v@)[i as int] == s@);
            }
            return true;
        }
        i = i + 1;
    }
    false
}

/// Sorts the given strings lexicographically and removes duplicates.
///
/// The result is the unique strictly ascending sequence holding exactly
/// the string values of the input.
pub fn sorted_unique_strings(v: &Vec<String>) -> (r: Vec<String>)
    ensures
        strictly_sorted(views_of(r@)),
        forall|x: Seq<char>| views_of(r@).contains(x) <==> views_of(v@).contains(x),
{
    let mut out: Vec<String> = Vec::new();
    let mut i: usize = 0;
    proof {
        assert(views_of(v@.take(0)) =~= Seq::<Seq<char>>::empty());
        assert(views_of(out@) =~= Seq::<Seq<char>>::empty());
    }
    while i < v.len()
        invariant
            i <= v@.len(),
            strictly_sorted(views_of(out@)),
            forall|x: Seq<char>|
                views_of(out@).contains(x) <==> views_of(v@.take(i as int)).contains(x),
        decreases v@.len() - i,
    {
        let x = v[i].clone();
        let ghost prev_out = out@;
        let mut j: usize = 0;
        while j < out.len() && str_lt(out[j].as_str(), x.as_str())
            invariant
                j <= out@.len(),
                out@ == prev_out,
                x@ == v@[i as int]@,
                forall|k: int| 0 <= k < j ==> chars_lt(views_of(out@)[k], x@),
            decreases out@.len() - j,
        {
            j = j + 1;
        }
        let duplicate = j < out.len() && out[j].eq(&x);
        proof {
            if j < out@.len() && !duplicate {
                lemma_chars_lt_connected(views_of(out@)[j as int], x@);
                assert(chars_lt(x@, views_of(out@)[j as int]));
            }
        }
        if !duplicate {
            out.insert(j, x);
            proof {
                let xv = v@[i as int]@;
                let ov = views_of(prev_out);
                let nv = views_of(out@);
                prev_out.insert_ensures(j as int, v@[i as int]);
                ov.insert_ensures(j as int, xv);
                assert forall|k: int| 0 <= k < nv.len() implies nv[k] == ov.insert(
                    j as int,
                    xv,
                )[k] by {
                    assert(nv[k] == out@[k]@);
                }
                assert(nv =~= ov.insert(j as int, xv));
                assert forall|k: int, l: int| 0 <= k < l < nv.len() implies chars_lt(
                    nv[k],
                    nv[l],
                ) by {
                    if k == j && l > j + 1 {
                        lemma_chars_lt_transitive(xv, ov[j as int], ov[l - 1]);
                    }
                }
            }
        }
        proof {
            let ov = views_of(prev_out);
            let nv = views_of(out@);
            assert(views_of(v@.take(i as int + 1)) =~= views_of(v@.take(i as int)).push(
                v@[i as int]@,
            ));
            assert forall|y: Seq<char>| nv.contains(y) <==> views_of(
                v@.take(i as int + 1),
            ).contains(y) by {
                if !duplicate {
                    lemma_insert_contains(ov, j as int, v@[i as int]@, y);
                }
                seq_push_contains(views_of(v@.take(i as int)), v@[i as int]@, y);
                if duplicate {
                    assert(ov.contains(v@[i as int]@)) by {
                        assert(ov[j as int] == v@[i as int]@);
                    }
                }
            }
        }
        i = i + 1;
    }
    proof {
        assert(v@.take(i as int) =~= v@);
    }
    out
}

/// A strictly sorted sequence is determined by the set of its elements:
/// two strictly sorted sequences holding the same values are equal.
pub proof fn lemma_strictly_sorted_unique(s: Seq<Seq<char>>, t: Seq<Seq<char>>)
    requires
        strictly_sorted(s),
        strictly_sorted(t),
        forall|x: Seq<char>| s.contains(x) <==> t.contains(x),
    ensures
        s =~= t,
    decreases s.len(),
{
    if s.len() == 0 {
        if t.len() > 0 {
            assert(s.contains(t[0]));
        }
    } else if t.len() == 0 {
        assert(t.contains(s[0]));
    } else {
        assert(s.contains(s[0]));
        assert(t.contains(t[0]));
        let j = choose|j: int| 0 <= j < t.len() && t[j] == s[0];
        let i = choose|i: int| 0 <= i < s.len() && s[i] == t[0];
        assert(s[0] == t[0]) by {
            if j > 0 {
                assert(chars_lt(t[0], t[j]));
            }
            if i > 0 {
                assert(chars_lt(s[0], s[i]));
            }
            if i == 0 || j == 0 {
            } else {
                lemma_chars_lt_transitive(s[0], s[i], t[j]);
                lemma_chars_lt_irreflexive(s[0]);
            }
        }
        assert forall|x: Seq<char>| s.drop_first().contains(x) <==> t.drop_first().contains(
            x,
        ) by {
            lemma_strict_drop_first_contains(s, x);
            lemma_strict_drop_first_contains(t, x);
        }
        assert(strictly_sorted(s.drop_first())) by {
            assert(forall|k: int, l: int|
                0 <= k < l < s.drop_first().len() ==> s.drop_first()[k] == s[k + 1]
                    && s.drop_first()[l] == s[l + 1]);
        }
        assert(strictly_sorted(t.drop_first())) by {
            assert(forall|k: int, l: int|
                0 <= k < l < t.drop_first().len() ==> t.drop_first()[k] == t[k + 1]
                    && t.drop_first()[l] == t[l + 1]);
        }
        lemma_strictly_sorted_unique(s.drop_first(), t.drop_first());
        assert forall|k: int| 0 <= k < s.len() implies s[k] == t[k] by {
            if k > 0 {
                assert(s.drop_first()[k - 1] == t.drop_first()[k - 1]);
            }
        }
    }
}

/// In a strictly sorted sequence the head stands nowhere else, so a value
/// lies behind the head exactly when it lies in the sequence and is not
/// the head.
proof fn lemma_strict_drop_first_contains(s: Seq<Seq<char>>, x: Seq<char>)
    requires
        strictly_sorted(s),
        s.len() > 0,
    ensures
        s.drop_first().contains(x) <==> (s.contains(x) && x != s[0]),
{
    if s.drop_first().contains(x) {
        let k = choose|k: int| 0 <= k < s.drop_first().len() && s.drop_first()[k] == x;
        assert(s[k + 1] == x);
        assert(chars_lt(s[0], s[k + 1]));
        lemma_chars_lt_irreflexive(s[0]);
    }
    if s.contains(x) && x != s[0] {
        let k = choose|k: int| 0 <= k < s.len() && s[k] == x;
        assert(k > 0);
        assert(s.drop_first()[k - 1] == x);
    }
}

/// Whether `n` occurs as a contiguous run of characters inside `h`.
pub open spec fn has_substring(h: Seq<char>, n: Seq<char>) -> bool {
    exists|i: int| 0 <= i <= h.len() - n.len() && #[trigger] h.subrange(i, i + n.len()) =~= n
}

/// Substring search: whether `n` occurs anywhere inside `h`.
pub fn contains_str(h: &str, n: &str) -> (r: bool)
    ensures
        r == has_substring(h@, n@),
{
    let hlen = h.unicode_len();
    let nlen = n.unicode_len();
    if nlen > hlen {
        return false;
    }
    let mut i: usize = 0;
    while i <= hlen - nlen
        invariant
            nlen <= hlen,
            hlen == h@.len(),
            nlen == n@.len(),
            i <= hlen - nlen + 1,
            forall|k: int| 0 <= k < i ==> !(#[trigger] h@.subrange(k, k + n@.len()) =~= n@),
        decreases hlen - nlen - i + 1,
    {
        let mut j: usize = 0;
        let mut matches = true;
        while j < nlen
            invariant
                i + nlen <= hlen,
                hlen == h@.len(),
                nlen == n@.len(),
                j <= nlen,
                matches ==> h@.subrange(i as int, i + n@.len()).take(j as int) =~= n@.take(
                    j as int,
                ),
                !matches ==> !(h@.subrange(i as int, i + n@.len()) =~= n@),
            decreases nlen - j,
        {
            let hc = h.get_char(i + j);
            let nc = n.get_char(j);
            if hc != nc {
                proof {
                    assert(h@.subrange(i as int, i + n@.len())[j as int] != n@[j as int]);
                }
                matches = false;
                j = nlen;
            } else {
                j = j + 1;
            }
        }
        if matches {
            proof {
                assert(n@.take(nlen as int) =~= n@);
                assert(h@.subrange(i as int, i + n@.len()).take(nlen as int) =~= h@.subrange(
                    i as int,
                    i + n@.len(),
                ));
            }
            return true;
        }
        i = i + 1;
    }
    false
}

/// Relies on `String::push`: appends exactly the given character.
#[verifier::external_body]
pub fn push_char(s: &mut String, c: char)
    ensures
        final(s)@ == old(s)@.push(c),
{
    s.push(c);
}

/// The lowercase hexadecimal digit for a value below 16.
pub open spec fn hex_digit(d: u32) -> char {
    if d < 10 {
        ((d + 48) as u8) as char
    } else {
        ((d + 87) as u8) as char
    }
}

/// The lowercase hexadecimal digits of `u`, most significant first,
/// without leading zeros.
pub open spec fn hex_digits(u: u32) -> Seq<char>
    decreases u,
{
    if u < 16 {
        seq![hex_digit(u)]
    } else {
        hex_digits(u / 16).push(hex_digit(u % 16))
    }
}

pub fn push_hex_digits(s: &mut String, u: u32)
    ensures
        final(s)@ == old(s)@ + hex_digits(u),
    decreases u,
{
    if u < 16 {
        let d = if u < 10 {
            ((u + 48) as u8) as char
        } else {
            ((u + 87) as u8) as char
        };
        push_char(s, d);
        proof {
            assert(final(s)@ =~= old(s)@ + hex_digits(u));
        }
    } else {
        push_hex_digits(s, u / 16);
        let m = u % 16;
        let d = if m < 10 {
            ((m + 48) as u8) as char
        } else {
            ((m + 87) as u8) as char
        };
        push_char(s, d);
        proof {
            assert(final(s)@ =~= old(s)@ + hex_digits(u));
        }
    }
}

/// How a single character appears under Rust's default string escaping:
/// the common control characters and the quoting characters get a
/// backslash form, printable ASCII stands as itself, and everything else
/// becomes a `\u{..}` escape with lowercase hexadecimal digits.
pub open spec fn escape_char(c: char) -> Seq<char> {
    if c == '\t' {
        "\\t"@
    } else if c == '\r' {
        "\\r"@
    } else if c == '\n' {
        "\\n"@
    } else if c == '\\' {
        "\\\\"@
    } else if c == '\'' {
        "\\'"@
    } else if c == '"' {
        "\\\""@
    } else if 0x20 <= (c as u32) && (c as u32) <= 0x7e {
        seq![c]
    } else {
        "\\u{"@ + hex_digits(c as u32) + "}"@
    }
}

/// A whole character sequence under Rust's default string escaping.
pub open spec fn escape_chars(s: Seq<char>) -> Seq<char>
    decreases s.len(),
{
    if s.len() == 0 {
        Seq::empty()
    } else {
        escape_char(s[0]) + escape_chars(s.drop_first())
    }
}

proof fn lemma_escape_chars_push(s: Seq<char>, c: char)
    ensures
        escape_chars(s.push(c)) =~= escape_chars(s) + escape_char(c),
    decreases s.len(),
{
    if s.len() == 0 {
        assert(s.push(c)[0] == c);
        assert(s.push(c).drop_first() =~= Seq::<char>::empty());
        assert(escape_chars(s.push(c)) == escape_char(c) + escape_chars(s.push(c).drop_first()));
        assert(escape_chars(s.push(c).drop_first()) =~= Seq::<char>::empty());
        assert(escape_char(c) + Seq::<char>::empty() =~= Seq::<char>::empty() + escape_char(c));
    } else {
        assert(s.push(c)[0] == s[0]);
        assert(s.push(c).drop_first() =~= s.drop_first().push(c));
        lemma_escape_chars_push(s.drop_first(), c);
        assert(escape_chars(s.push(c)) == escape_char(s[0]) + escape_chars(
            s.drop_first().push(c),
        ));
        assert(escape_char(s[0]) + (escape_chars(s.drop_first()) + escape_char(c)) =~= (escape_char(
            s[0],
        ) + escape_chars(s.drop_first())) + escape_char(c));
    }
}

fn push_escaped_char(s: &mut String, c: char)
    ensures
        final(s)@ == old(s)@ + escape_char(c),
{
    let u = c as u32;
    if c == '\t' {
        s.append("\\t");
    } else if c == '\r' {
        s.append("\\r");
    } else if c == '\n' {
        s.append("\\n");
    } else if c == '\\' {
        s.append("\\\\");
    } else if c == '\'' {
        s.append("\\'");
    } else if c == '"' {
        s.append("\\\"");
    } else if 0x20 <= u && u <= 0x7e {
        push_char(s, c);
        proof {
            assert(old(s)@.push(c) =~= old(s)@ + seq![c]);
        }
    } else {
        s.append("\\u{");
        push_hex_digits(s, u);
        s.append("}");
        proof {
            assert(final(s)@ =~= old(s)@ + escape_char(c));
        }
    }
}

/// Escapes a string as Rust's default escaping would, so that the result
/// can be embedded inside a generated string literal.
pub fn escape_default_string(s: &str) -> (r: String)
    ensures
        r@ == escape_chars(s@),
{
    let len = s.unicode_len();
    let mut r = String::new();
    let mut i: usize = 0;
    proof {
        assert(s@.take(0) =~= Seq::<char>::empty());
    }
    while i < len
        invariant
            i <= len,
            len == s@.len(),
            r@ == escape_chars(s@.take(i as int)),
        decreases len - i,
    {
        let c = s.get_char(i);
        push_escaped_char(&mut r, c);
        proof {
            assert(s@.take(i as int + 1) =~= s@.take(i as int).push(s@[i as int]));
            lemma_escape_chars_push(s@.take(i as int), s@[i as int]);
        }
        i = i + 1;
    }
    proof {
        assert(s@.take(len as int) =~= s@);
    }
    r
}

/// How a feature name character appears in the activation environment:
/// a dash becomes an underscore and ASCII lowercase becomes uppercase.
pub open spec fn env_char(c: char) -> char {
    if c == '-' {
        '_'
    } else if 97 <= (c as u32) && (c as u32) <= 122 {
        (((c as u32) - 32) as u8) as char
    } else {
        c
    }
}

/// The activation-environment key suffix for a feature name: dashes
/// replaced by underscores and ASCII letters uppercased.
pub fn feature_env_name(f: &str) -> (r: String)
    ensures
        r@ == f@.map_values(|c: char| env_char(c)),
{
    let len = f.unicode_len();
    let mut r = String::new();
    let mut i: usize = 0;
    while i < len
        invariant
            i <= len,
            len == f@.len(),
            r@ =~= f@.take(i as int).map_values(|c: char| env_char(c)),
        decreases len - i,
    {
        let c = f.get_char(i);
        let u = c as u32;
        if c == '-' {
            push_char(&mut r, '_');
        } else if 97 <= u && u <= 122 {
            push_char(&mut r, ((u - 32) as u8) as char);
        } else {
            push_char(&mut r, c);
        }
        proof {
            assert(r@ =~= f@.take(i as int + 1).map_values(|c: char| env_char(c)));
        }
        i = i + 1;
    }
    proof {
        assert(f@.take(len as int) =~= f@);
    }
    r
}

/// A dash rewritten to an underscore; other characters stand unchanged.
pub open spec fn dash_char(c: char) -> char {
    if c == '-' {
        '_'
    } else {
        c
    }
}

/// The string with every dash replaced by an underscore.
pub fn replace_dashes(s: &str) -> (r: String)
    ensures
        r@ == s@.map_values(|c: char| dash_char(c)),
{
    let len = s.unicode_len();
    let mut r = String::new();
    let mut i: usize = 0;
    while i < len
        invariant
            i <= len,
            len == s@.len(),
            r@ =~= s@.take(i as int).map_values(|c: char| dash_char(c)),
        decreases len - i,
    {
        let c = s.get_char(i);
        if c == '-' {
            push_char(&mut r, '_');
        } else {
            push_char(&mut r, c);
        }
        proof {
            assert(r@ =~= s@.take(i as int + 1).map_values(|c: char| dash_char(c)));
        }
        i = i + 1;
    }
    proof {
        assert(s@.take(len as int) =~= s@);
    }
    r
}

/// A string of `n` copies of the character `c`.
pub fn repeat_char(c: char, n: usize) -> (r: String)
    ensures
        r@ == Seq::new(n as nat, |i: int| c),
{
    let mut r = String::new();
    let mut i: usize = 0;
    while i < n
        invariant
            i <= n,
            r@ =~= Seq::new(i as nat, |k: int| c),
        decreases n - i,
    {
        push_char(&mut r, c);
        proof {
            assert(r@ =~= Seq::new(i as nat + 1, |k: int| c));
        }
        i = i + 1;
    }
    r
}

pub proof fn seq_push_contains<A>(s: Seq<A>, a: A, x: A)
    ensures
        s.push(a).contains(x) <==> (x == a || s.contains(x)),
{
    let t = s.push(a);
    if t.contains(x) {
        let k = choose|k: int| 0 <= k < t.len() && t[k] == x;
        if k < s.len() {
            assert(s[k] == x);
        }
    }
    if x == a {
        assert(t[s.len() as int] == x);
    } else if s.contains(x) {
        let k = choose|k: int| 0 <= k < s.len() && s[k] == x;
        assert(t[k] == x);
    }
}

} // verus!
