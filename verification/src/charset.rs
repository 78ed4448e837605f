//! The two reserved-character sets of the target dialect, and the escaping
//! transformation on a single text payload.
//!
//! In ordinary text every character of the normal set must be preceded by a
//! backslash; inside code spans and code blocks only the backtick and the
//! backslash are reserved. A payload of exactly one character is exempt,
//! because the serializer already escapes single characters correctly on its
//! own and a second backslash would double-escape them.

use vstd::prelude::*;

verus! {

/// The characters that are syntactically reserved in ordinary text of the
/// target dialect.
pub open spec fn is_normal_reserved(c: char) -> bool {
    ||| c == '_'
    ||| c == '*'
    ||| c == '['
    ||| c == ']'
    ||| c == '('
    ||| c == ')'
    ||| c == '~'
    ||| c == '`'
    ||| c == '>'
    ||| c == '#'
    ||| c == '+'
    ||| c == '-'
    ||| c == '='
    ||| c == '|'
    ||| c == '{'
    ||| c == '}'
    ||| c == '.'
    ||| c == '!'
    ||| c == '\\'
}

/// The characters that are reserved inside code spans and code blocks.
pub open spec fn is_code_reserved(c: char) -> bool {
    c == '`' || c == '\\'
}

/// Which set applies: the code set in code context, the normal set elsewhere.
pub open spec fn is_reserved(c: char, code: bool) -> bool {
    if code {
        is_code_reserved(c)
    } else {
        is_normal_reserved(c)
    }
}

/// How one character is emitted: a backslash is inserted immediately before a
/// reserved character; any other character stands alone.
pub open spec fn escape_char(c: char, code: bool) -> Seq<char> {
    if is_reserved(c, code) {
        seq!['\\', c]
    } else {
        seq![c]
    }
}

/// The escaping transformation on a character sequence: each character is
/// replaced by its escaped form, in order.
pub open spec fn escape_chars(s: Seq<char>, code: bool) -> Seq<char>
    decreases s.len(),
{
    if s.len() == 0 {
        Seq::empty()
    } else {
        escape_char(s[0], code) + escape_chars(s.drop_first(), code)
    }
}

/// What the escaper does to one event payload: payloads of exactly one
/// character are left untouched, every other payload is escaped.
pub open spec fn escape_payload_spec(s: Seq<char>, code: bool) -> Seq<char> {
    if s.len() == 1 {
        s
    } else {
        escape_chars(s, code)
    }
}

/// Escaping distributes over concatenation.
pub proof fn lemma_escape_chars_concat(a: Seq<char>, b: Seq<char>, code: bool)
    ensures
        escape_chars(a + b, code) == escape_chars(a, code) + escape_chars(b, code),
    decreases a.len(),
{
    if a.len() == 0 {
        assert(a + b =~= b);
        assert(escape_chars(a, code) + escape_chars(b, code) =~= escape_chars(b, code));
    } else {
        assert((a + b)[0] == a[0]);
        assert((a + b).drop_first() =~= a.drop_first() + b);
        lemma_escape_chars_concat(a.drop_first(), b, code);
        assert(escape_char(a[0], code) + (escape_chars(a.drop_first(), code) + escape_chars(
            b,
            code,
        )) =~= (escape_char(a[0], code) + escape_chars(a.drop_first(), code)) + escape_chars(
            b,
            code,
        ));
    }
}

/// A sequence without reserved characters is left exactly as it is.
pub proof fn lemma_escape_chars_no_reserved(s: Seq<char>, code: bool)
    requires
        forall|i: int| 0 <= i < s.len() ==> !is_reserved(#[trigger] s[i], code),
    ensures
        escape_chars(s, code) == s,
    decreases s.len(),
{
    if s.len() == 0 {
        assert(escape_chars(s, code) =~= s);
    } else {
        lemma_escape_chars_no_reserved(s.drop_first(), code);
        assert(escape_chars(s, code) =~= seq![s[0]] + s.drop_first());
        assert(seq![s[0]] + s.drop_first() =~= s);
    }
}

fn char_is_reserved(c: char, code: bool) -> (r: bool)
    ensures
        r == is_reserved(c, code),
{
    if code {
        c == '`' || c == '\\'
    } else {
        c == '_' || c == '*' || c == '[' || c == ']' || c == '(' || c == ')' || c == '~' || c
            == '`' || c == '>' || c == '#' || c == '+' || c == '-' || c == '=' || c == '|' || c
            == '{' || c == '}' || c == '.' || c == '!' || c == '\\'
    }
}

/// Relies on String::push: appends the given character to the end of the
/// string.
#[verifier::external_body]
fn push_char(s: &mut String, c: char)
    ensures
        final(s)@ == old(s)@.push(c),
{
    s.push(c);
}

/// The characters of a string slice, in order, as a vector.
fn chars_of(s: &str) -> (r: Vec<char>)
    ensures
        r@ == s@,
{
    let mut r: Vec<char> = Vec::new();
    for c in it: s.chars()
        invariant
            r@ == it.history(),
    {
        r.push(c);
    }
    proof {
        assert(r@ =~= s@);
    }
    r
}

/// Escapes one event payload for the given context: inserts a backslash
/// before every reserved character, except that a payload of exactly one
/// character is returned unchanged.
pub fn escape_payload(s: &str, code: bool) -> (r: String)
    ensures
        r@ == escape_payload_spec(s@, code),
{
    let chars = chars_of(s);
    if chars.len() == 1 {
        return s.to_owned();
    }
    let mut out = String::new();
    let n = chars.len();
    for i in 0..n
        invariant
            chars@ == s@,
            n == chars.len(),
            out@ == escape_chars(s@.take(i as int), code),
    {
        let c = chars[i];
        proof {
            assert(s@.take(i + 1) =~= s@.take(i as int) + seq![s@[i as int]]);
            lemma_escape_chars_concat(s@.take(i as int), seq![s@[i as int]], code);
            assert(seq![s@[i as int]].drop_first() =~= Seq::<char>::empty());
            assert(escape_chars(seq![s@[i as int]], code) == escape_char(s@[i as int], code)
                + escape_chars(Seq::<char>::empty(), code));
            assert(escape_char(s@[i as int], code) + escape_chars(Seq::<char>::empty(), code)
                =~= escape_char(s@[i as int], code));
        }
        if char_is_reserved(c, code) {
            push_char(&mut out, '\\');
        }
        push_char(&mut out, c);
        proof {
            if is_reserved(c, code) {
                assert(out@ =~= escape_chars(s@.take(i as int), code) + seq!['\\', c]);
            } else {
                assert(out@ =~= escape_chars(s@.take(i as int), code) + seq![c]);
            }
        }
    }
    proof {
        assert(s@.take(n as int) =~= s@);
    }
    out
}

} // verus!
