//! Small verified text utilities: decimal parsing, newline replacement for
//! the HTML renderings, and lexicographic comparison.

use vstd::prelude::*;

use crate::codec::{all_dec_digits, digit_val, digits_val_acc, is_dec_digit};

verus! {

/// The number a decimal string denotes: an optional leading plus sign, then
/// at least one digit, denoting a value that fits in usize; anything else
/// denotes nothing.
pub open spec fn spec_parse_usize(s: Seq<char>) -> Option<usize> {
    let body = if s.len() > 0 && s[0] == '+' {
        s.drop_first()
    } else {
        s
    };
    if body.len() > 0 && all_dec_digits(body) && digits_val_acc(body, 0) <= usize::MAX {
        Option::Some(digits_val_acc(body, 0) as usize)
    } else {
        Option::None
    }
}

/// Reads a task number the way the command parser does: an optional plus
/// sign, then decimal digits.
pub fn parse_task_id(id_str: &str) -> (r: Option<usize>)
    ensures
        r == spec_parse_usize(id_str@),
{
    let total = id_str.unicode_len();
    let start: usize = if total > 0 && id_str.get_char(0) == '+' {
        1
    } else {
        0
    };
    let ghost body = if id_str@.len() > 0 && id_str@[0] == '+' {
        id_str@.drop_first()
    } else {
        id_str@
    };
    proof {
        assert(body =~= id_str@.subrange(start as int, total as int));
    }
    if start >= total {
        return Option::None;
    }
    let mut i = start;
    let mut acc: usize = 0;
    proof {
        assert(body.subrange(0, body.len() as int) =~= body);
    }
    while i < total
        invariant
            start <= i <= total,
            total == id_str@.len(),
            start < total,
            body == id_str@.subrange(start as int, total as int),
            body == (if id_str@.len() > 0 && id_str@[0] == '+' {
                id_str@.drop_first()
            } else {
                id_str@
            }),
            forall|k: int| 0 <= k < i - start ==> is_dec_digit(#[trigger] body[k]),
            digits_val_acc(body, 0) == digits_val_acc(
                body.subrange(i - start, body.len() as int),
                acc as nat,
            ),
        decreases total - i,
    {
        let c = id_str.get_char(i);
        let u = c as u32;
        if u < 48 || u > 57 {
            proof {
                assert(c as int == u as int);
                assert(body[i - start] == id_str@[i as int]);
                assert(!is_dec_digit(body[i - start]));
                assert(!all_dec_digits(body));
            }
            return Option::None;
        }
        let d = (u - 48) as usize;
        proof {
            assert(c as int == u as int);
            assert(body[i - start] == id_str@[i as int]);
            assert(is_dec_digit(body[i - start]));
            assert(digit_val(body[i - start]) == d as nat);
            assert(body.subrange(i - start, body.len() as int).drop_first() =~= body.subrange(
                i + 1 - start,
                body.len() as int,
            ));
        }
        if acc > (usize::MAX - d) / 10 {
            proof {
                let rest = body.subrange(i - start, body.len() as int);
                assert(rest[0] == body[i - start]);
                assert(digits_val_acc(rest, acc as nat) == digits_val_acc(
                    rest.drop_first(),
                    acc as nat * 10 + digit_val(rest[0]),
                ));
                crate::codec::lemma_digits_val_acc_lower(rest.drop_first(), acc as nat * 10 + d as nat);
                assert(acc as nat * 10 + d as nat > usize::MAX) by (nonlinear_arith)
                    requires
                        acc > (usize::MAX - d) / 10,
                        d < 10,
                ;
                assert(digits_val_acc(body, 0) > usize::MAX);
            }
            return Option::None;
        }
        acc = acc * 10 + d;
        i = i + 1;
    }
    proof {
        assert(body.subrange(total - start, body.len() as int) =~= Seq::<char>::empty());
        assert(forall|k: int| 0 <= k < body.len() ==> is_dec_digit(#[trigger] body[k]));
    }
    Option::Some(acc)
}


/// Whether a name holds a path separator or a parent-directory step, which a
/// snapshot name handed in by a user must not.
pub open spec fn spec_has_path_chars(s: Seq<char>) -> bool {
    (exists|i: int| 0 <= i < s.len() && s[i] == '/') || (exists|i: int|
        0 <= i && i + 1 < s.len() && #[trigger] s[i] == '.' && s[i + 1] == '.')
}

/// Decides whether a name holds a path separator or a parent-directory step.
pub fn has_path_chars(s: &str) -> (r: bool)
    ensures
        r == spec_has_path_chars(s@),
{
    let total = s.unicode_len();
    let mut i: usize = 0;
    while i < total
        invariant
            0 <= i <= total,
            total == s@.len(),
            forall|k: int| 0 <= k < i ==> #[trigger] s@[k] != '/',
            forall|k: int| 0 <= k && k + 1 < s@.len() && k + 1 <= i ==> !(#[trigger] s@[k] == '.'
                && s@[k + 1] == '.'),
        decreases total - i,
    {
        let c = s.get_char(i);
        if c == '/' {
            return true;
        }
        if c == '.' && i + 1 < total && s.get_char(i + 1) == '.' {
            return true;
        }
        i = i + 1;
    }
    false
}

/// The text with every newline written as an HTML line break.
pub open spec fn spec_replace_newlines(s: Seq<char>, k: int) -> Seq<char>
    decreases s.len() - k,
{
    if k < 0 || k >= s.len() {
        Seq::empty()
    } else if s[k] == '\n' {
        "<br>"@ + spec_replace_newlines(s, k + 1)
    } else {
        seq![s[k]] + spec_replace_newlines(s, k + 1)
    }
}

/// A run of characters without a newline passes through unchanged.
proof fn lemma_replace_chunk(s: Seq<char>, p: int, q: int)
    requires
        0 <= p <= q <= s.len(),
        forall|k: int| p <= k < q ==> #[trigger] s[k] != '\n',
    ensures
        spec_replace_newlines(s, p) == s.subrange(p, q) + spec_replace_newlines(s, q),
    decreases q - p,
{
    if p == q {
        assert(s.subrange(p, q) =~= Seq::<char>::empty());
        assert(s.subrange(p, q) + spec_replace_newlines(s, q) =~= spec_replace_newlines(s, q));
    } else {
        lemma_replace_chunk(s, p + 1, q);
        assert(spec_replace_newlines(s, p) =~= s.subrange(p, q) + spec_replace_newlines(s, q));
    }
}

/// Writes the text with every newline replaced by `<br>`, as the HTML
/// renderings need it.
pub fn replace_newlines(s: &str) -> (r: String)
    ensures
        r@ == spec_replace_newlines(s@, 0),
{
    let total = s.unicode_len();
    let mut out = String::new();
    let mut p: usize = 0;
    while p < total
        invariant
            0 <= p <= total,
            total == s@.len(),
            spec_replace_newlines(s@, 0) == out@ + spec_replace_newlines(s@, p as int),
        decreases total - p,
    {
        // Find the next newline at or after p.
        let mut q = p;
        while q < total && s.get_char(q) != '\n'
            invariant
                p <= q <= total,
                total == s@.len(),
                forall|k: int| p <= k < q ==> #[trigger] s@[k] != '\n',
            decreases total - q,
        {
            q = q + 1;
        }
        proof {
            lemma_replace_chunk(s@, p as int, q as int);
        }
        out.append(s.substring_char(p, q));
        if q < total {
            out.append("<br>");
            proof {
                assert(spec_replace_newlines(s@, 0) =~= out@ + spec_replace_newlines(
                    s@,
                    q + 1 as int,
                ));
            }
            p = q + 1;
        } else {
            proof {
                assert(spec_replace_newlines(s@, 0) =~= out@ + spec_replace_newlines(
                    s@,
                    q as int,
                ));
            }
            p = q;
        }
    }
    proof {
        assert(spec_replace_newlines(s@, 0) =~= out@);
    }
    out
}

/// Whether two texts are the same sequence of characters.
pub fn str_eq(a: &str, b: &str) -> (r: bool)
    ensures
        r == (a@ == b@),
{
    let a_len = a.unicode_len();
    let b_len = b.unicode_len();
    if a_len != b_len {
        return false;
    }
    let mut i: usize = 0;
    while i < a_len
        invariant
            0 <= i <= a_len,
            a_len == a@.len(),
            a_len == b@.len(),
            forall|k: int| 0 <= k < i ==> a@[k] == b@[k],
        decreases a_len - i,
    {
        if a.get_char(i) != b.get_char(i) {
            return false;
        }
        i = i + 1;
    }
    proof {
        assert(a@ =~= b@);
    }
    true
}

/// Lexicographic order on texts, by code point.
pub open spec fn spec_str_le(a: Seq<char>, b: Seq<char>) -> bool
    decreases a.len(),
{
    if a.len() == 0 {
        true
    } else if b.len() == 0 {
        false
    } else if a[0] == b[0] {
        spec_str_le(a.drop_first(), b.drop_first())
    } else {
        (a[0] as int) < (b[0] as int)
    }
}

/// The lexicographic order is total.
pub proof fn lemma_str_le_total(a: Seq<char>, b: Seq<char>)
    ensures
        spec_str_le(a, b) || spec_str_le(b, a),
    decreases a.len(),
{
    if a.len() > 0 && b.len() > 0 && a[0] == b[0] {
        lemma_str_le_total(a.drop_first(), b.drop_first());
    }
}


/// The lexicographic order is transitive.
pub proof fn lemma_str_le_trans(a: Seq<char>, b: Seq<char>, c: Seq<char>)
    requires
        spec_str_le(a, b),
        spec_str_le(b, c),
    ensures
        spec_str_le(a, c),
    decreases a.len(),
{
    if a.len() > 0 && b.len() > 0 && c.len() > 0 && a[0] == b[0] && b[0] == c[0] {
        lemma_str_le_trans(a.drop_first(), b.drop_first(), c.drop_first());
    }
}

/// Decides the lexicographic order on two texts.
pub fn str_le(a: &str, b: &str) -> (r: bool)
    ensures
        r == spec_str_le(a@, b@),
{
    let a_len = a.unicode_len();
    let b_len = b.unicode_len();
    let mut i: usize = 0;
    proof {
        assert(a@.subrange(0, a_len as int) =~= a@);
        assert(b@.subrange(0, b_len as int) =~= b@);
    }
    loop
        invariant
            0 <= i <= a_len,
            i <= b_len,
            a_len == a@.len(),
            b_len == b@.len(),
            spec_str_le(a@, b@) == spec_str_le(
                a@.subrange(i as int, a_len as int),
                b@.subrange(i as int, b_len as int),
            ),
        decreases a_len - i,
    {
        if i >= a_len {
            proof {
                assert(a@.subrange(i as int, a_len as int) =~= Seq::<char>::empty());
            }
            return true;
        }
        if i >= b_len {
            proof {
                assert(b@.subrange(i as int, b_len as int) =~= Seq::<char>::empty());
                assert(a@.subrange(i as int, a_len as int).len() > 0);
            }
            return false;
        }
        let ca = a.get_char(i);
        let cb = b.get_char(i);
        proof {
            let sa = a@.subrange(i as int, a_len as int);
            let sb = b@.subrange(i as int, b_len as int);
            assert(sa[0] == a@[i as int]);
            assert(sb[0] == b@[i as int]);
            assert(sa.drop_first() =~= a@.subrange(i + 1 as int, a_len as int));
            assert(sb.drop_first() =~= b@.subrange(i + 1 as int, b_len as int));
        }
        if ca != cb {
            return (ca as u32) < (cb as u32);
        }
        i = i + 1;
    }
}

} // verus!
