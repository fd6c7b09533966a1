use vstd::prelude::*;
use vstd::string::StrSliceExecFns;
use vstd::string::StringExecFns;

verus! {

// ---------------------------------------------------------------------
// The wire text, character by character.
//
// The spec functions below define the grammar of the protocol's JSON
// payloads: what the encoder emits (no whitespace, the common escapes)
// and what the decoder accepts (the same, plus whitespace between
// tokens). The executable functions mirror them exactly.
// ---------------------------------------------------------------------

pub open spec fn is_ws_char(c: char) -> bool {
    c == ' ' || c == '\n' || c == '\r' || c == '\t'
}

/// The input with its leading whitespace removed.
pub open spec fn ws(s: Seq<char>) -> Seq<char>
    decreases s.len(),
{
    if s.len() > 0 && is_ws_char(s[0]) {
        ws(s.drop_first())
    } else {
        s
    }
}

/// Consume an exact literal.
pub open spec fn lit(s: Seq<char>, l: Seq<char>) -> Option<Seq<char>> {
    if l.len() <= s.len() && s.take(l.len() as int) == l {
        Some(s.skip(l.len() as int))
    } else {
        None
    }
}

/// Consume one structural character, with whitespace before it.
pub open spec fn tok(s: Seq<char>, c: char) -> Option<Seq<char>> {
    let t = ws(s);
    if t.len() > 0 && t[0] == c {
        Some(t.drop_first())
    } else {
        None
    }
}

/// An object field up to its value: the leading `{` or `,`, the quoted
/// key, and the `:`, each with whitespace allowed before it.
pub open spec fn p_field(s: Seq<char>, lead: char, name: Seq<char>) -> Option<Seq<char>> {
    match tok(s, lead) {
        None => None,
        Some(s1) => {
            let t = ws(s1);
            match lit(t, name) {
                None => None,
                Some(s2) => tok(s2, ':'),
            }
        },
    }
}

/// What the encoder emits for an object field up to its value.
pub open spec fn enc_field(lead: char, name: Seq<char>, v: Seq<char>) -> Seq<char> {
    seq![lead] + name + seq![':'] + v
}

// ---------------------------------------------------------------------
// Strings.
// ---------------------------------------------------------------------

/// Characters the encoder writes as a two-character escape.
pub open spec fn is_esc_special(c: char) -> bool {
    c == '"' || c == '\\' || c == '\n' || c == '\r' || c == '\t' || c == '\u{8}' || c == '\u{c}'
}

pub open spec fn esc_char(c: char) -> Seq<char> {
    if c == '"' {
        seq!['\\', '"']
    } else if c == '\\' {
        seq!['\\', '\\']
    } else if c == '\n' {
        seq!['\\', 'n']
    } else if c == '\r' {
        seq!['\\', 'r']
    } else if c == '\t' {
        seq!['\\', 't']
    } else if c == '\u{8}' {
        seq!['\\', 'b']
    } else if c == '\u{c}' {
        seq!['\\', 'f']
    } else {
        seq![c]
    }
}

pub open spec fn esc_str(s: Seq<char>) -> Seq<char>
    decreases s.len(),
{
    if s.len() == 0 {
        Seq::empty()
    } else {
        esc_char(s[0]) + esc_str(s.drop_first())
    }
}

/// A string value as the encoder emits it.
pub open spec fn quoted(s: Seq<char>) -> Seq<char> {
    seq!['"'] + esc_str(s) + seq!['"']
}

pub open spec fn unesc_char(c: char) -> Option<char> {
    if c == '"' {
        Some('"')
    } else if c == '\\' {
        Some('\\')
    } else if c == '/' {
        Some('/')
    } else if c == 'n' {
        Some('\n')
    } else if c == 'r' {
        Some('\r')
    } else if c == 't' {
        Some('\t')
    } else if c == 'b' {
        Some('\u{8}')
    } else if c == 'f' {
        Some('\u{c}')
    } else {
        None
    }
}

/// The body of a string value, after its opening quote: everything up
/// to the closing quote, with escapes resolved.
pub open spec fn p_strbody(s: Seq<char>, acc: Seq<char>) -> Option<(Seq<char>, Seq<char>)>
    decreases s.len(),
{
    if s.len() == 0 {
        None
    } else if s[0] == '"' {
        Some((acc, s.drop_first()))
    } else if s[0] == '\\' {
        if s.len() >= 2 {
            match unesc_char(s[1]) {
                Some(c) => p_strbody(s.skip(2), acc.push(c)),
                None => None,
            }
        } else {
            None
        }
    } else {
        p_strbody(s.drop_first(), acc.push(s[0]))
    }
}

/// A string value, with whitespace before it.
pub open spec fn p_string(s: Seq<char>) -> Option<(Seq<char>, Seq<char>)> {
    let t = ws(s);
    if t.len() > 0 && t[0] == '"' {
        p_strbody(t.drop_first(), Seq::empty())
    } else {
        None
    }
}

// ---------------------------------------------------------------------
// Numbers.
// ---------------------------------------------------------------------

pub open spec fn is_digit(c: char) -> bool {
    c == '0' || c == '1' || c == '2' || c == '3' || c == '4' || c == '5' || c == '6' || c == '7'
        || c == '8' || c == '9'
}

pub open spec fn digit_char(n: nat) -> char {
    if n == 0 {
        '0'
    } else if n == 1 {
        '1'
    } else if n == 2 {
        '2'
    } else if n == 3 {
        '3'
    } else if n == 4 {
        '4'
    } else if n == 5 {
        '5'
    } else if n == 6 {
        '6'
    } else if n == 7 {
        '7'
    } else if n == 8 {
        '8'
    } else {
        '9'
    }
}

pub open spec fn digit_val(c: char) -> nat {
    if c == '0' {
        0
    } else if c == '1' {
        1
    } else if c == '2' {
        2
    } else if c == '3' {
        3
    } else if c == '4' {
        4
    } else if c == '5' {
        5
    } else if c == '6' {
        6
    } else if c == '7' {
        7
    } else if c == '8' {
        8
    } else {
        9
    }
}

/// The decimal digits of `n`, most significant first.
pub open spec fn dec_u64(n: nat) -> Seq<char>
    decreases n,
{
    if n < 10 {
        seq![digit_char(n)]
    } else {
        dec_u64(n / 10).push(digit_char(n % 10))
    }
}

pub open spec fn dec_i32(n: int) -> Seq<char> {
    if n < 0 {
        seq!['-'] + dec_u64((-n) as nat)
    } else {
        dec_u64(n as nat)
    }
}

/// The maximal digit prefix of the input, and what follows it.
pub open spec fn p_digits(s: Seq<char>) -> (Seq<char>, Seq<char>)
    decreases s.len(),
{
    if s.len() > 0 && is_digit(s[0]) {
        let (d, r) = p_digits(s.drop_first());
        (seq![s[0]] + d, r)
    } else {
        (Seq::empty(), s)
    }
}

pub open spec fn val_digits(d: Seq<char>) -> nat
    decreases d.len(),
{
    if d.len() == 0 {
        0
    } else {
        val_digits(d.drop_last()) * 10 + digit_val(d.last())
    }
}

/// An unsigned decimal, with whitespace before it; rejected when it
/// does not fit.
pub open spec fn p_u64(s: Seq<char>) -> Option<(u64, Seq<char>)> {
    let t = ws(s);
    let (d, r) = p_digits(t);
    if d.len() > 0 && val_digits(d) <= u64::MAX {
        Some((val_digits(d) as u64, r))
    } else {
        None
    }
}

/// A signed decimal, with whitespace before it; rejected when it does
/// not fit.
pub open spec fn p_i32(s: Seq<char>) -> Option<(i32, Seq<char>)> {
    let t = ws(s);
    if t.len() > 0 && t[0] == '-' {
        let (d, r) = p_digits(t.drop_first());
        if d.len() > 0 && val_digits(d) <= 0x8000_0000 {
            Some(((-(val_digits(d) as int)) as i32, r))
        } else {
            None
        }
    } else {
        let (d, r) = p_digits(t);
        if d.len() > 0 && val_digits(d) <= 0x7FFF_FFFF {
            Some((val_digits(d) as i32, r))
        } else {
            None
        }
    }
}

// ---------------------------------------------------------------------
// Booleans, null, and optional values.
// ---------------------------------------------------------------------

pub open spec fn enc_bool(b: bool) -> Seq<char> {
    if b {
        "true"@
    } else {
        "false"@
    }
}

pub open spec fn p_bool(s: Seq<char>) -> Option<(bool, Seq<char>)> {
    let t = ws(s);
    match lit(t, "true"@) {
        Some(r) => Some((true, r)),
        None => match lit(t, "false"@) {
            Some(r) => Some((false, r)),
            None => None,
        },
    }
}

pub open spec fn enc_opt_str(o: Option<Seq<char>>) -> Seq<char> {
    match o {
        None => "null"@,
        Some(s) => quoted(s),
    }
}

pub open spec fn p_opt_str(s: Seq<char>) -> Option<(Option<Seq<char>>, Seq<char>)> {
    let t = ws(s);
    match lit(t, "null"@) {
        Some(r) => Some((None, r)),
        None => match p_string(s) {
            Some((sv, r)) => Some((Some(sv), r)),
            None => None,
        },
    }
}

pub open spec fn enc_opt_u64(o: Option<u64>) -> Seq<char> {
    match o {
        None => "null"@,
        Some(n) => dec_u64(n as nat),
    }
}

pub open spec fn p_opt_u64(s: Seq<char>) -> Option<(Option<u64>, Seq<char>)> {
    let t = ws(s);
    match lit(t, "null"@) {
        Some(r) => Some((None, r)),
        None => match p_u64(s) {
            Some((n, r)) => Some((Some(n), r)),
            None => None,
        },
    }
}

pub open spec fn enc_opt_bool(o: Option<bool>) -> Seq<char> {
    match o {
        None => "null"@,
        Some(b) => enc_bool(b),
    }
}

pub open spec fn p_opt_bool(s: Seq<char>) -> Option<(Option<bool>, Seq<char>)> {
    let t = ws(s);
    match lit(t, "null"@) {
        Some(r) => Some((None, r)),
        None => match p_bool(s) {
            Some((b, r)) => Some((Some(b), r)),
            None => None,
        },
    }
}

// ---------------------------------------------------------------------
// The decoder inverts the encoder, piece by piece.
// ---------------------------------------------------------------------

pub proof fn lemma_ws_plain(s: Seq<char>)
    requires
        s.len() == 0 || !is_ws_char(s[0]),
    ensures
        ws(s) == s,
{
}

pub proof fn lemma_lit_prefix(l: Seq<char>, rest: Seq<char>)
    ensures
        lit(l + rest, l) == Some(rest),
{
    assert((l + rest).take(l.len() as int) =~= l);
    assert((l + rest).skip(l.len() as int) =~= rest);
}

pub proof fn lemma_tok_prefix(c: char, rest: Seq<char>)
    requires
        !is_ws_char(c),
    ensures
        tok(seq![c] + rest, c) == Some(rest),
{
    let s = seq![c] + rest;
    lemma_ws_plain(s);
    assert(s.drop_first() =~= rest);
}

pub proof fn lemma_field_prefix(lead: char, name: Seq<char>, v: Seq<char>, rest: Seq<char>)
    requires
        !is_ws_char(lead),
        name.len() > 0,
        !is_ws_char(name[0]),
    ensures
        p_field(enc_field(lead, name, v) + rest, lead, name) == Some(v + rest),
{
    let s = enc_field(lead, name, v) + rest;
    let after_lead = name + (seq![':'] + (v + rest));
    assert(s =~= seq![lead] + after_lead);
    lemma_tok_prefix(lead, after_lead);
    lemma_ws_plain(after_lead);
    lemma_lit_prefix(name, seq![':'] + (v + rest));
    lemma_tok_prefix(':', v + rest);
}

pub proof fn lemma_strbody_roundtrip(sv: Seq<char>, rest: Seq<char>, acc: Seq<char>)
    ensures
        p_strbody(esc_str(sv) + (seq!['"'] + rest), acc) == Some((acc + sv, rest)),
    decreases sv.len(),
{
    let s = esc_str(sv) + (seq!['"'] + rest);
    if sv.len() == 0 {
        assert(s =~= seq!['"'] + rest);
        assert(s.drop_first() =~= rest);
        assert(acc + sv =~= acc);
    } else {
        let c = sv[0];
        let e = esc_char(c);
        assert(esc_str(sv) == e + esc_str(sv.drop_first()));
        let s_next = esc_str(sv.drop_first()) + (seq!['"'] + rest);
        lemma_strbody_roundtrip(sv.drop_first(), rest, acc.push(c));
        assert(acc.push(c) + sv.drop_first() =~= acc + sv);
        if is_esc_special(c) {
            assert(e.len() == 2 && e[0] == '\\' && unesc_char(e[1]) == Some(c));
            assert(s =~= seq![e[0], e[1]] + s_next);
            assert(s.len() >= 2 && s[0] == '\\' && s[1] == e[1]);
            assert(s.skip(2) =~= s_next);
        } else {
            assert(e =~= seq![c]);
            assert(s =~= seq![c] + s_next);
            assert(c != '"' && c != '\\');
            assert(s.drop_first() =~= s_next);
        }
    }
}

pub proof fn lemma_string_roundtrip(sv: Seq<char>, rest: Seq<char>)
    ensures
        p_string(quoted(sv) + rest) == Some((sv, rest)),
{
    let s = quoted(sv) + rest;
    assert(s =~= seq!['"'] + (esc_str(sv) + (seq!['"'] + rest)));
    lemma_ws_plain(s);
    assert(s.drop_first() =~= esc_str(sv) + (seq!['"'] + rest));
    lemma_strbody_roundtrip(sv, rest, Seq::empty());
    assert(Seq::<char>::empty() + sv =~= sv);
}

pub proof fn lemma_dec_u64_digits(n: nat)
    ensures
        dec_u64(n).len() > 0,
        forall|k: int| 0 <= k < dec_u64(n).len() ==> is_digit(#[trigger] dec_u64(n)[k]),
    decreases n,
{
    if n >= 10 {
        lemma_dec_u64_digits(n / 10);
    }
}

proof fn lemma_digit_roundtrip(k: nat)
    requires
        k < 10,
    ensures
        digit_val(digit_char(k)) == k,
{
}

pub proof fn lemma_val_dec_u64(n: nat)
    ensures
        val_digits(dec_u64(n)) == n,
    decreases n,
{
    if n < 10 {
        let d = seq![digit_char(n)];
        assert(d.drop_last() =~= Seq::<char>::empty());
        assert(val_digits(Seq::<char>::empty()) == 0);
        lemma_digit_roundtrip(n);
    } else {
        lemma_val_dec_u64(n / 10);
        let d = dec_u64(n / 10).push(digit_char(n % 10));
        assert(d.drop_last() =~= dec_u64(n / 10));
        lemma_digit_roundtrip(n % 10);
    }
}

pub proof fn lemma_p_digits_exact(d: Seq<char>, rest: Seq<char>)
    requires
        forall|k: int| 0 <= k < d.len() ==> is_digit(#[trigger] d[k]),
        rest.len() == 0 || !is_digit(rest[0]),
    ensures
        p_digits(d + rest) == (d, rest),
    decreases d.len(),
{
    if d.len() == 0 {
        assert(d + rest =~= rest);
    } else {
        assert((d + rest)[0] == d[0]);
        assert((d + rest).drop_first() =~= d.drop_first() + rest);
        lemma_p_digits_exact(d.drop_first(), rest);
        assert(seq![(d + rest)[0]] + d.drop_first() =~= d);
    }
}

pub proof fn lemma_u64_roundtrip(n: u64, rest: Seq<char>)
    requires
        rest.len() == 0 || !is_digit(rest[0]),
    ensures
        p_u64(dec_u64(n as nat) + rest) == Some((n, rest)),
{
    let d = dec_u64(n as nat);
    lemma_dec_u64_digits(n as nat);
    lemma_val_dec_u64(n as nat);
    assert((d + rest)[0] == d[0]);
    lemma_ws_plain(d + rest);
    lemma_p_digits_exact(d, rest);
}

pub proof fn lemma_i32_roundtrip(x: i32, rest: Seq<char>)
    requires
        rest.len() == 0 || !is_digit(rest[0]),
    ensures
        p_i32(dec_i32(x as int) + rest) == Some((x, rest)),
{
    if x < 0 {
        let mag = (-(x as int)) as nat;
        let d = dec_u64(mag);
        lemma_dec_u64_digits(mag);
        lemma_val_dec_u64(mag);
        let s = dec_i32(x as int) + rest;
        assert(s =~= seq!['-'] + (d + rest));
        lemma_ws_plain(s);
        assert(s.drop_first() =~= d + rest);
        lemma_p_digits_exact(d, rest);
    } else {
        let d = dec_u64(x as nat);
        lemma_dec_u64_digits(x as nat);
        lemma_val_dec_u64(x as nat);
        assert((d + rest)[0] == d[0]);
        lemma_ws_plain(d + rest);
        lemma_p_digits_exact(d, rest);
    }
}

pub proof fn lemma_bool_roundtrip(b: bool, rest: Seq<char>)
    ensures
        p_bool(enc_bool(b) + rest) == Some((b, rest)),
{
    reveal_strlit("true");
    reveal_strlit("false");
    let s = enc_bool(b) + rest;
    assert(s[0] == enc_bool(b)[0]);
    lemma_ws_plain(s);
    if b {
        lemma_lit_prefix("true"@, rest);
    } else {
        assert(lit(s, "true"@) is None) by {
            if lit(s, "true"@) is Some {
                assert(s.take(4)[0] == 't');
            }
        }
        lemma_lit_prefix("false"@, rest);
    }
}

pub proof fn lemma_opt_str_roundtrip(o: Option<Seq<char>>, rest: Seq<char>)
    ensures
        p_opt_str(enc_opt_str(o) + rest) == Some((o, rest)),
{
    reveal_strlit("null");
    let s = enc_opt_str(o) + rest;
    assert(s[0] == enc_opt_str(o)[0]);
    lemma_ws_plain(s);
    match o {
        None => {
            lemma_lit_prefix("null"@, rest);
        },
        Some(sv) => {
            assert(lit(s, "null"@) is None) by {
                if lit(s, "null"@) is Some {
                    assert(s.take(4)[0] == 'n');
                }
            }
            lemma_string_roundtrip(sv, rest);
        },
    }
}

pub proof fn lemma_opt_u64_roundtrip(o: Option<u64>, rest: Seq<char>)
    requires
        rest.len() == 0 || !is_digit(rest[0]),
    ensures
        p_opt_u64(enc_opt_u64(o) + rest) == Some((o, rest)),
{
    reveal_strlit("null");
    let s = enc_opt_u64(o) + rest;
    match o {
        None => {
            assert(s[0] == enc_opt_u64(o)[0]);
            lemma_ws_plain(s);
            lemma_lit_prefix("null"@, rest);
        },
        Some(n) => {
            lemma_dec_u64_digits(n as nat);
            assert(s[0] == enc_opt_u64(o)[0]);
            lemma_ws_plain(s);
            assert(lit(s, "null"@) is None) by {
                if lit(s, "null"@) is Some {
                    assert(s.take(4)[0] == 'n');
                }
            }
            lemma_u64_roundtrip(n, rest);
        },
    }
}

pub proof fn lemma_opt_bool_roundtrip(o: Option<bool>, rest: Seq<char>)
    ensures
        p_opt_bool(enc_opt_bool(o) + rest) == Some((o, rest)),
{
    reveal_strlit("null");
    reveal_strlit("true");
    reveal_strlit("false");
    let s = enc_opt_bool(o) + rest;
    assert(s[0] == enc_opt_bool(o)[0]);
    lemma_ws_plain(s);
    match o {
        None => {
            lemma_lit_prefix("null"@, rest);
        },
        Some(b) => {
            assert(lit(s, "null"@) is None) by {
                if lit(s, "null"@) is Some {
                    assert(s.take(4)[0] == 'n');
                }
            }
            lemma_bool_roundtrip(b, rest);
        },
    }
}

/// Escaping text that holds no character in need of one leaves it as
/// it stands (the case of every tag, key, and role name).
pub proof fn lemma_esc_str_plain(s: Seq<char>)
    requires
        forall|k: int| 0 <= k < s.len() ==> !is_esc_special(#[trigger] s[k]),
    ensures
        esc_str(s) == s,
    decreases s.len(),
{
    if s.len() > 0 {
        lemma_esc_str_plain(s.drop_first());
        assert(esc_char(s[0]) =~= seq![s[0]]);
        assert(seq![s[0]] + s.drop_first() =~= s);
    }
}

// Reassociation of concatenation chains, over opaque sequences, so
// that flattening an encoded form never unfolds the pieces.

pub proof fn lemma_flat2(a1: Seq<char>, a2: Seq<char>, t: Seq<char>)
    ensures
        (a1 + a2) + t == a1 + (a2 + t),
{
    assert((a1 + a2) + t =~= a1 + (a2 + t));
}

pub proof fn lemma_flat3(a1: Seq<char>, a2: Seq<char>, a3: Seq<char>, t: Seq<char>)
    ensures
        ((a1 + a2) + a3) + t == a1 + (a2 + (a3 + t)),
{
    assert(((a1 + a2) + a3) + t =~= a1 + (a2 + (a3 + t)));
}

pub proof fn lemma_flat4(a1: Seq<char>, a2: Seq<char>, a3: Seq<char>, a4: Seq<char>, t: Seq<char>)
    ensures
        (((a1 + a2) + a3) + a4) + t == a1 + (a2 + (a3 + (a4 + t))),
{
    assert((((a1 + a2) + a3) + a4) + t =~= a1 + (a2 + (a3 + (a4 + t))));
}

pub proof fn lemma_flat6(
    a1: Seq<char>,
    a2: Seq<char>,
    a3: Seq<char>,
    a4: Seq<char>,
    a5: Seq<char>,
    a6: Seq<char>,
    t: Seq<char>,
)
    ensures
        (((((a1 + a2) + a3) + a4) + a5) + a6) + t == a1 + (a2 + (a3 + (a4 + (a5 + (a6 + t))))),
{
    assert((((((a1 + a2) + a3) + a4) + a5) + a6) + t =~= a1 + (a2 + (a3 + (a4 + (a5 + (a6
        + t))))));
}

pub proof fn lemma_flat7(
    a1: Seq<char>,
    a2: Seq<char>,
    a3: Seq<char>,
    a4: Seq<char>,
    a5: Seq<char>,
    a6: Seq<char>,
    a7: Seq<char>,
    t: Seq<char>,
)
    ensures
        ((((((a1 + a2) + a3) + a4) + a5) + a6) + a7) + t == a1 + (a2 + (a3 + (a4 + (a5 + (a6 + (a7
            + t)))))),
{
    assert(((((((a1 + a2) + a3) + a4) + a5) + a6) + a7) + t =~= a1 + (a2 + (a3 + (a4 + (a5 + (a6
        + (a7 + t)))))));
}

pub proof fn lemma_flat9(
    a1: Seq<char>,
    a2: Seq<char>,
    a3: Seq<char>,
    a4: Seq<char>,
    a5: Seq<char>,
    a6: Seq<char>,
    a7: Seq<char>,
    a8: Seq<char>,
    a9: Seq<char>,
    t: Seq<char>,
)
    ensures
        ((((((((a1 + a2) + a3) + a4) + a5) + a6) + a7) + a8) + a9) + t == a1 + (a2 + (a3 + (a4 + (
        a5 + (a6 + (a7 + (a8 + (a9 + t)))))))),
{
    assert(((((((((a1 + a2) + a3) + a4) + a5) + a6) + a7) + a8) + a9) + t =~= a1 + (a2 + (a3 + (a4
        + (a5 + (a6 + (a7 + (a8 + (a9 + t)))))))));
}

pub proof fn lemma_val_prefix_le(d: Seq<char>, k: int)
    requires
        0 <= k <= d.len(),
    ensures
        val_digits(d.take(k)) <= val_digits(d),
    decreases d.len(),
{
    if k < d.len() {
        lemma_val_prefix_le(d.drop_last(), k);
        assert(d.drop_last().take(k) =~= d.take(k));
    } else {
        assert(d.take(k) =~= d);
    }
}

// ---------------------------------------------------------------------
// The executable mirror of the grammar.
// ---------------------------------------------------------------------

/// Relies on `String::push`: appends the given character to the end of
/// the string.
#[verifier::external_body]
pub(crate) fn push_char(s: &mut String, c: char)
    ensures
        final(s)@ == old(s)@.push(c),
{
    s.push(c);
}

pub(crate) fn chars_of(s: &str) -> (v: Vec<char>)
    ensures
        v@ == s@,
{
    let n = s.unicode_len();
    let mut v: Vec<char> = Vec::new();
    let mut i: usize = 0;
    while i < n
        invariant
            n == s@.len(),
            0 <= i <= n,
            v@ == s@.take(i as int),
        decreases n - i,
    {
        let c = s.get_char(i);
        v.push(c);
        proof {
            assert(s@.take(i + 1) =~= s@.take(i as int).push(s@[i as int]));
        }
        i = i + 1;
    }
    proof {
        assert(s@.take(n as int) =~= s@);
    }
    v
}

pub(crate) fn x_ws(v: &Vec<char>, i: usize) -> (j: usize)
    requires
        i <= v@.len(),
    ensures
        i <= j <= v@.len(),
        v@.skip(j as int) == ws(v@.skip(i as int)),
{
    let mut j = i;
    while j < v.len() && (v[j] == ' ' || v[j] == '\n' || v[j] == '\r' || v[j] == '\t')
        invariant
            i <= j <= v@.len(),
            ws(v@.skip(i as int)) == ws(v@.skip(j as int)),
        decreases v@.len() - j,
    {
        proof {
            assert(v@.skip(j as int)[0] == v@[j as int]);
            assert(v@.skip(j as int).drop_first() =~= v@.skip(j as int + 1));
        }
        j = j + 1;
    }
    proof {
        if j < v@.len() {
            assert(v@.skip(j as int)[0] == v@[j as int]);
        }
        lemma_ws_plain(v@.skip(j as int));
    }
    j
}

pub(crate) fn x_lit(v: &Vec<char>, i: usize, l: &str) -> (r: Option<usize>)
    requires
        i <= v@.len(),
    ensures
        match r {
            Some(j) => i <= j <= v@.len() && lit(v@.skip(i as int), l@) == Some(
                v@.skip(j as int),
            ),
            None => lit(v@.skip(i as int), l@) is None,
        },
{
    let ll = l.unicode_len();
    if v.len() - i < ll {
        proof {
            assert(v@.skip(i as int).len() < l@.len());
        }
        return None;
    }
    let end: usize = i + ll;
    let mut k: usize = 0;
    while k < ll
        invariant
            0 <= k <= ll,
            ll == l@.len(),
            end == i + ll,
            i + ll <= v@.len(),
            forall|t: int| 0 <= t < k ==> v@[i + t] == l@[t],
        decreases ll - k,
    {
        let a = v[i + k];
        let b = l.get_char(k);
        if a != b {
            proof {
                let s = v@.skip(i as int);
                if lit(s, l@) is Some {
                    assert(s.take(l@.len() as int)[k as int] == l@[k as int]);
                    assert(s[k as int] == v@[i + k]);
                }
            }
            return None;
        }
        k = k + 1;
    }
    proof {
        let s = v@.skip(i as int);
        assert(s.take(l@.len() as int) =~= l@);
        assert(s.skip(l@.len() as int) =~= v@.skip(i + ll));
    }
    Some(i + ll)
}

pub(crate) fn x_tok(v: &Vec<char>, i: usize, c: char) -> (r: Option<usize>)
    requires
        i <= v@.len(),
    ensures
        match r {
            Some(j) => i <= j <= v@.len() && tok(v@.skip(i as int), c) == Some(
                v@.skip(j as int),
            ),
            None => tok(v@.skip(i as int), c) is None,
        },
{
    let j = x_ws(v, i);
    if j < v.len() && v[j] == c {
        proof {
            assert(v@.skip(j as int)[0] == v@[j as int]);
            assert(v@.skip(j as int).drop_first() =~= v@.skip(j as int + 1));
        }
        Some(j + 1)
    } else {
        proof {
            if j < v@.len() {
                assert(v@.skip(j as int)[0] == v@[j as int]);
            }
        }
        None
    }
}

pub(crate) fn x_field(v: &Vec<char>, i: usize, lead: char, name: &str) -> (r: Option<usize>)
    requires
        i <= v@.len(),
    ensures
        match r {
            Some(j) => i <= j <= v@.len() && p_field(v@.skip(i as int), lead, name@) == Some(
                v@.skip(j as int),
            ),
            None => p_field(v@.skip(i as int), lead, name@) is None,
        },
{
    match x_tok(v, i, lead) {
        None => None,
        Some(j1) => {
            let j2 = x_ws(v, j1);
            match x_lit(v, j2, name) {
                None => None,
                Some(j3) => x_tok(v, j3, ':'),
            }
        },
    }
}

fn x_unesc(c: char) -> (r: Option<char>)
    ensures
        r == unesc_char(c),
{
    if c == '"' {
        Some('"')
    } else if c == '\\' {
        Some('\\')
    } else if c == '/' {
        Some('/')
    } else if c == 'n' {
        Some('\n')
    } else if c == 'r' {
        Some('\r')
    } else if c == 't' {
        Some('\t')
    } else if c == 'b' {
        Some('\u{8}')
    } else if c == 'f' {
        Some('\u{c}')
    } else {
        None
    }
}

fn x_strbody(v: &Vec<char>, i: usize, acc: String) -> (r: Option<(String, usize)>)
    requires
        i <= v@.len(),
    ensures
        match r {
            Some(p) => i <= p.1 <= v@.len() && p_strbody(v@.skip(i as int), acc@) == Some(
                (p.0@, v@.skip(p.1 as int)),
            ),
            None => p_strbody(v@.skip(i as int), acc@) is None,
        },
    decreases v@.len() - i,
{
    if i == v.len() {
        return None;
    }
    let c = v[i];
    proof {
        assert(v@.skip(i as int)[0] == c);
        assert(v@.skip(i as int).drop_first() =~= v@.skip(i as int + 1));
    }
    if c == '"' {
        return Some((acc, i + 1));
    }
    if c == '\\' {
        if i + 1 == v.len() {
            proof {
                assert(v@.skip(i as int).len() < 2);
            }
            return None;
        }
        let e = v[i + 1];
        proof {
            assert(v@.skip(i as int)[1] == e);
            assert(v@.skip(i as int).skip(2) =~= v@.skip(i as int + 2));
        }
        match x_unesc(e) {
            None => None,
            Some(cc) => {
                let mut acc2 = acc;
                push_char(&mut acc2, cc);
                x_strbody(v, i + 2, acc2)
            },
        }
    } else {
        let mut acc2 = acc;
        push_char(&mut acc2, c);
        x_strbody(v, i + 1, acc2)
    }
}

pub(crate) fn x_string(v: &Vec<char>, i: usize) -> (r: Option<(String, usize)>)
    requires
        i <= v@.len(),
    ensures
        match r {
            Some(p) => i <= p.1 <= v@.len() && p_string(v@.skip(i as int)) == Some(
                (p.0@, v@.skip(p.1 as int)),
            ),
            None => p_string(v@.skip(i as int)) is None,
        },
{
    let j = x_ws(v, i);
    if j < v.len() && v[j] == '"' {
        proof {
            assert(v@.skip(j as int)[0] == v@[j as int]);
            assert(v@.skip(j as int).drop_first() =~= v@.skip(j as int + 1));
        }
        x_strbody(v, j + 1, String::new())
    } else {
        proof {
            if j < v@.len() {
                assert(v@.skip(j as int)[0] == v@[j as int]);
            }
        }
        None
    }
}

fn x_digit_val(c: char) -> (r: u64)
    requires
        is_digit(c),
    ensures
        r == digit_val(c),
{
    if c == '0' {
        0
    } else if c == '1' {
        1
    } else if c == '2' {
        2
    } else if c == '3' {
        3
    } else if c == '4' {
        4
    } else if c == '5' {
        5
    } else if c == '6' {
        6
    } else if c == '7' {
        7
    } else if c == '8' {
        8
    } else {
        9
    }
}

/// The maximal digit run from `i` on, as a value; `None` when there is
/// no digit or the value does not fit.
fn x_digits(v: &Vec<char>, i: usize) -> (r: Option<(u64, usize)>)
    requires
        i <= v@.len(),
    ensures
        ({
            let (d, rest) = p_digits(v@.skip(i as int));
            match r {
                Some(p) => i <= p.1 <= v@.len() && d.len() > 0 && p.0 == val_digits(d)
                    && v@.skip(p.1 as int) == rest,
                None => d.len() == 0 || val_digits(d) > u64::MAX,
            }
        }),
{
    let mut e = i;
    while e < v.len() && (v[e] == '0' || v[e] == '1' || v[e] == '2' || v[e] == '3' || v[e] == '4'
        || v[e] == '5' || v[e] == '6' || v[e] == '7' || v[e] == '8' || v[e] == '9')
        invariant
            i <= e <= v@.len(),
            forall|t: int| i <= t < e ==> is_digit(#[trigger] v@[t]),
        decreases v@.len() - e,
    {
        e = e + 1;
    }
    let ghost d = v@.subrange(i as int, e as int);
    let ghost rest = v@.skip(e as int);
    proof {
        assert(v@.skip(i as int) =~= d + rest);
        assert(forall|k: int| 0 <= k < d.len() ==> is_digit(#[trigger] d[k]));
        if e < v@.len() {
            assert(rest[0] == v@[e as int]);
        }
        lemma_p_digits_exact(d, rest);
    }
    if e == i {
        return None;
    }
    let mut acc: u64 = 0;
    let mut k = i;
    while k < e
        invariant
            i < e,
            i <= k <= e,
            e <= v@.len(),
            d == v@.subrange(i as int, e as int),
            p_digits(v@.skip(i as int)) == (d, v@.skip(e as int)),
            forall|t: int| i <= t < e ==> is_digit(#[trigger] v@[t]),
            acc == val_digits(v@.subrange(i as int, k as int)),
        decreases e - k,
    {
        let dv = x_digit_val(v[k]);
        proof {
            assert(v@.subrange(i as int, k as int + 1).drop_last() =~= v@.subrange(
                i as int,
                k as int,
            ));
            assert(v@.subrange(i as int, k as int + 1).last() == v@[k as int]);
            assert(v@.subrange(i as int, k as int + 1) =~= d.take(k as int + 1 - i));
        }
        let step = match acc.checked_mul(10) {
            Some(m) => m.checked_add(dv),
            None => None,
        };
        match step {
            None => {
                proof {
                    assert(val_digits(v@.subrange(i as int, k as int + 1)) == acc * 10 + dv);
                    assert(acc * 10 + dv > u64::MAX);
                    lemma_val_prefix_le(d, k as int + 1 - i);
                    assert(val_digits(d.take(k as int + 1 - i)) > u64::MAX);
                    assert(val_digits(d) >= val_digits(d.take(k as int + 1 - i)));
                    assert(val_digits(d) > u64::MAX);
                }
                return None;
            },
            Some(a2) => {
                acc = a2;
            },
        }
        k = k + 1;
    }
    proof {
        assert(v@.subrange(i as int, e as int) =~= d);
    }
    Some((acc, e))
}

pub(crate) fn x_u64(v: &Vec<char>, i: usize) -> (r: Option<(u64, usize)>)
    requires
        i <= v@.len(),
    ensures
        match r {
            Some(p) => i <= p.1 <= v@.len() && p_u64(v@.skip(i as int)) == Some(
                (p.0, v@.skip(p.1 as int)),
            ),
            None => p_u64(v@.skip(i as int)) is None,
        },
{
    let j = x_ws(v, i);
    match x_digits(v, j) {
        None => None,
        Some((x, j2)) => Some((x, j2)),
    }
}

pub(crate) fn x_i32(v: &Vec<char>, i: usize) -> (r: Option<(i32, usize)>)
    requires
        i <= v@.len(),
    ensures
        match r {
            Some(p) => i <= p.1 <= v@.len() && p_i32(v@.skip(i as int)) == Some(
                (p.0, v@.skip(p.1 as int)),
            ),
            None => p_i32(v@.skip(i as int)) is None,
        },
{
    let j = x_ws(v, i);
    if j < v.len() && v[j] == '-' {
        proof {
            assert(v@.skip(j as int)[0] == v@[j as int]);
            assert(v@.skip(j as int).drop_first() =~= v@.skip(j as int + 1));
        }
        match x_digits(v, j + 1) {
            None => None,
            Some((x, j2)) => {
                if x <= 0x8000_0000u64 {
                    let xi: i32 = if x == 0x8000_0000u64 {
                        i32::MIN
                    } else {
                        -(x as i32)
                    };
                    Some((xi, j2))
                } else {
                    None
                }
            },
        }
    } else {
        proof {
            if j < v@.len() {
                assert(v@.skip(j as int)[0] == v@[j as int]);
            }
        }
        match x_digits(v, j) {
            None => None,
            Some((x, j2)) => {
                if x <= 0x7FFF_FFFFu64 {
                    Some((x as i32, j2))
                } else {
                    None
                }
            },
        }
    }
}

pub(crate) fn x_bool(v: &Vec<char>, i: usize) -> (r: Option<(bool, usize)>)
    requires
        i <= v@.len(),
    ensures
        match r {
            Some(p) => i <= p.1 <= v@.len() && p_bool(v@.skip(i as int)) == Some(
                (p.0, v@.skip(p.1 as int)),
            ),
            None => p_bool(v@.skip(i as int)) is None,
        },
{
    let j = x_ws(v, i);
    match x_lit(v, j, "true") {
        Some(j2) => Some((true, j2)),
        None => match x_lit(v, j, "false") {
            Some(j2) => Some((false, j2)),
            None => None,
        },
    }
}

/// The view of an optional string.
pub open spec fn opt_str_view(o: Option<String>) -> Option<Seq<char>> {
    match o {
        Some(s) => Some(s@),
        None => None,
    }
}

pub(crate) fn x_opt_str(v: &Vec<char>, i: usize) -> (r: Option<(Option<String>, usize)>)
    requires
        i <= v@.len(),
    ensures
        match r {
            Some(p) => i <= p.1 <= v@.len() && p_opt_str(v@.skip(i as int)) == Some(
                (opt_str_view(p.0), v@.skip(p.1 as int)),
            ),
            None => p_opt_str(v@.skip(i as int)) is None,
        },
{
    let j = x_ws(v, i);
    match x_lit(v, j, "null") {
        Some(j2) => Some((None, j2)),
        None => match x_string(v, i) {
            Some((sv, j2)) => Some((Some(sv), j2)),
            None => None,
        },
    }
}

pub(crate) fn x_opt_u64(v: &Vec<char>, i: usize) -> (r: Option<(Option<u64>, usize)>)
    requires
        i <= v@.len(),
    ensures
        match r {
            Some(p) => i <= p.1 <= v@.len() && p_opt_u64(v@.skip(i as int)) == Some(
                (p.0, v@.skip(p.1 as int)),
            ),
            None => p_opt_u64(v@.skip(i as int)) is None,
        },
{
    let j = x_ws(v, i);
    match x_lit(v, j, "null") {
        Some(j2) => Some((None, j2)),
        None => match x_u64(v, i) {
            Some((n, j2)) => Some((Some(n), j2)),
            None => None,
        },
    }
}

// ---------------------------------------------------------------------
// The executable encoder pieces.
// ---------------------------------------------------------------------

pub proof fn lemma_esc_str_snoc(s: Seq<char>, c: char)
    ensures
        esc_str(s.push(c)) == esc_str(s) + esc_char(c),
    decreases s.len(),
{
    if s.len() == 0 {
        assert(s.push(c)[0] == c);
        assert(s.push(c).drop_first() =~= Seq::<char>::empty());
        assert(esc_str(Seq::<char>::empty()) == Seq::<char>::empty());
        assert(esc_str(s.push(c)) == esc_char(c) + esc_str(Seq::<char>::empty()));
        assert(esc_char(c) + Seq::<char>::empty() =~= esc_char(c));
        assert(esc_str(s) + esc_char(c) =~= esc_char(c));
    } else {
        assert(s.push(c)[0] == s[0]);
        assert(s.push(c).drop_first() =~= s.drop_first().push(c));
        lemma_esc_str_snoc(s.drop_first(), c);
        assert(esc_char(s[0]) + (esc_str(s.drop_first()) + esc_char(c)) =~= (esc_char(s[0])
            + esc_str(s.drop_first())) + esc_char(c));
    }
}

fn x_digit_char(n: u64) -> (r: char)
    requires
        n < 10,
    ensures
        r == digit_char(n as nat),
{
    if n == 0 {
        '0'
    } else if n == 1 {
        '1'
    } else if n == 2 {
        '2'
    } else if n == 3 {
        '3'
    } else if n == 4 {
        '4'
    } else if n == 5 {
        '5'
    } else if n == 6 {
        '6'
    } else if n == 7 {
        '7'
    } else if n == 8 {
        '8'
    } else {
        '9'
    }
}

pub(crate) fn append_u64(out: &mut String, x: u64)
    ensures
        final(out)@ == old(out)@ + dec_u64(x as nat),
    decreases x,
{
    if x < 10 {
        let c = x_digit_char(x);
        push_char(out, c);
        proof {
            assert(old(out)@.push(c) =~= old(out)@ + seq![c]);
        }
    } else {
        append_u64(out, x / 10);
        let c = x_digit_char(x % 10);
        push_char(out, c);
        proof {
            assert((old(out)@ + dec_u64((x / 10) as nat)).push(c) =~= old(out)@ + dec_u64(
                (x / 10) as nat,
            ).push(c));
        }
    }
}

pub(crate) fn append_i32(out: &mut String, x: i32)
    ensures
        final(out)@ == old(out)@ + dec_i32(x as int),
{
    if x < 0 {
        push_char(out, '-');
        let mag: u64 = if x == i32::MIN {
            2147483648u64
        } else {
            (-x) as u64
        };
        proof {
            assert(mag == (-(x as int)) as nat);
        }
        append_u64(out, mag);
        proof {
            assert(old(out)@.push('-') + dec_u64(mag as nat) =~= old(out)@ + (seq!['-'] + dec_u64(
                (-(x as int)) as nat,
            )));
        }
    } else {
        append_u64(out, x as u64);
    }
}

pub(crate) fn append_bool(out: &mut String, b: bool)
    ensures
        final(out)@ == old(out)@ + enc_bool(b),
{
    if b {
        out.append("true");
    } else {
        out.append("false");
    }
}

/// Writes a string value: quoted, with the encoder's escapes.
pub(crate) fn append_quoted(out: &mut String, s: &String)
    ensures
        final(out)@ == old(out)@ + quoted(s@),
{
    push_char(out, '"');
    let n = s.as_str().unicode_len();
    let mut i: usize = 0;
    while i < n
        invariant
            n == s@.len(),
            0 <= i <= n,
            out@ == old(out)@ + seq!['"'] + esc_str(s@.take(i as int)),
        decreases n - i,
    {
        let c = s.as_str().get_char(i);
        if c == '"' {
            out.append("\\\"");
            proof {
                reveal_strlit("\\\"");
                assert(("\\\"")@ =~= esc_char(c));
            }
        } else if c == '\\' {
            out.append("\\\\");
            proof {
                reveal_strlit("\\\\");
                assert(("\\\\")@ =~= esc_char(c));
            }
        } else if c == '\n' {
            out.append("\\n");
            proof {
                reveal_strlit("\\n");
                assert(("\\n")@ =~= esc_char(c));
            }
        } else if c == '\r' {
            out.append("\\r");
            proof {
                reveal_strlit("\\r");
                assert(("\\r")@ =~= esc_char(c));
            }
        } else if c == '\t' {
            out.append("\\t");
            proof {
                reveal_strlit("\\t");
                assert(("\\t")@ =~= esc_char(c));
            }
        } else if c == '\u{8}' {
            out.append("\\b");
            proof {
                reveal_strlit("\\b");
                assert(("\\b")@ =~= esc_char(c));
            }
        } else if c == '\u{c}' {
            out.append("\\f");
            proof {
                reveal_strlit("\\f");
                assert(("\\f")@ =~= esc_char(c));
            }
        } else {
            push_char(out, c);
            proof {
                assert(esc_char(c) =~= seq![c]);
            }
        }
        proof {
            lemma_esc_str_snoc(s@.take(i as int), s@[i as int]);
            assert(s@.take(i as int).push(s@[i as int]) =~= s@.take(i + 1));
            assert(out@ =~= old(out)@ + seq!['"'] + esc_str(s@.take(i + 1)));
        }
        i = i + 1;
    }
    push_char(out, '"');
    proof {
        assert(s@.take(n as int) =~= s@);
        assert(out@ =~= old(out)@ + quoted(s@));
    }
}

/// Writes a literal value that needs no escaping (a tag or role name).
pub(crate) fn append_plain_quoted(out: &mut String, l: &str)
    requires
        forall|k: int| 0 <= k < l@.len() ==> !is_esc_special(#[trigger] l@[k]),
    ensures
        final(out)@ == old(out)@ + quoted(l@),
{
    push_char(out, '"');
    out.append(l);
    push_char(out, '"');
    proof {
        lemma_esc_str_plain(l@);
        assert((old(out)@.push('"') + l@).push('"') =~= old(out)@ + quoted(l@));
    }
}

pub(crate) fn append_opt_str(out: &mut String, o: &Option<String>)
    ensures
        final(out)@ == old(out)@ + enc_opt_str(opt_str_view(*o)),
{
    match o {
        None => {
            out.append("null");
        },
        Some(s) => {
            append_quoted(out, s);
        },
    }
}

pub(crate) fn append_opt_u64(out: &mut String, o: Option<u64>)
    ensures
        final(out)@ == old(out)@ + enc_opt_u64(o),
{
    match o {
        None => {
            out.append("null");
        },
        Some(n) => {
            append_u64(out, n);
        },
    }
}

pub(crate) fn append_opt_bool(out: &mut String, o: Option<bool>)
    ensures
        final(out)@ == old(out)@ + enc_opt_bool(o),
{
    match o {
        None => {
            out.append("null");
        },
        Some(b) => {
            append_bool(out, b);
        },
    }
}

pub(crate) fn x_opt_bool(v: &Vec<char>, i: usize) -> (r: Option<(Option<bool>, usize)>)
    requires
        i <= v@.len(),
    ensures
        match r {
            Some(p) => i <= p.1 <= v@.len() && p_opt_bool(v@.skip(i as int)) == Some(
                (p.0, v@.skip(p.1 as int)),
            ),
            None => p_opt_bool(v@.skip(i as int)) is None,
        },
{
    let j = x_ws(v, i);
    match x_lit(v, j, "null") {
        Some(j2) => Some((None, j2)),
        None => match x_bool(v, i) {
            Some((b, j2)) => Some((Some(b), j2)),
            None => None,
        },
    }
}

} // verus!
