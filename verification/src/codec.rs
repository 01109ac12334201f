//! Length-prefixed text encoding used for every record this crate persists.
//!
//! A field is written as its character count in decimal, a `:`, then the
//! characters themselves; an optional field carries a one-character tag
//! (`s` for present, `n` for absent). Decoding is proved to invert encoding.

use vstd::prelude::*;

verus! {

pub open spec fn is_dec_digit(c: char) -> bool {
    48 <= c as int && c as int <= 57
}

pub open spec fn digit_val(c: char) -> nat {
    (c as int - 48) as nat
}

/// The decimal digit character for a value below ten.
pub open spec fn dec_digit(d: nat) -> char {
    if d == 0 {
        '0'
    } else if d == 1 {
        '1'
    } else if d == 2 {
        '2'
    } else if d == 3 {
        '3'
    } else if d == 4 {
        '4'
    } else if d == 5 {
        '5'
    } else if d == 6 {
        '6'
    } else if d == 7 {
        '7'
    } else if d == 8 {
        '8'
    } else {
        '9'
    }
}

/// The decimal digit string of a number, most significant digit first.
pub open spec fn spec_digits(n: nat) -> Seq<char>
    decreases n,
{
    if n < 10 {
        seq![dec_digit(n)]
    } else {
        spec_digits(n / 10).push(dec_digit(n % 10))
    }
}

/// The encoding of one field: its length in decimal, a colon, the characters.
pub open spec fn spec_emit_str(s: Seq<char>) -> Seq<char> {
    spec_digits(s.len()) + seq![':'] + s
}

/// The encoding of one optional field: a presence tag, then the field if any.
pub open spec fn spec_emit_opt(o: Option<Seq<char>>) -> Seq<char> {
    match o {
        Option::None => seq!['n'],
        Option::Some(s) => seq!['s'] + spec_emit_str(s),
    }
}

/// Reads a decimal length ending in a colon, starting at `i` with the partial
/// value `acc`; yields the value and the position after the colon.
pub open spec fn spec_parse_len(s: Seq<char>, i: int, acc: nat) -> Option<(nat, int)>
    decreases s.len() - i,
{
    if i < 0 || i >= s.len() {
        Option::None
    } else if s[i] == ':' {
        Option::Some((acc, i + 1))
    } else if is_dec_digit(s[i]) {
        spec_parse_len(s, i + 1, acc * 10 + digit_val(s[i]))
    } else {
        Option::None
    }
}

/// Reads one field starting at `i`: its length, the colon, then that many
/// characters; yields the field and the position after it.
pub open spec fn spec_parse_str(s: Seq<char>, i: int) -> Option<(Seq<char>, int)> {
    match spec_parse_len(s, i, 0) {
        Option::None => Option::None,
        Option::Some((n, j)) => if j + n <= s.len() {
            Option::Some((s.subrange(j, j + n), j + n as int))
        } else {
            Option::None
        },
    }
}

/// Reads one optional field starting at `i`.
pub open spec fn spec_parse_opt(s: Seq<char>, i: int) -> Option<(Option<Seq<char>>, int)> {
    if 0 <= i < s.len() && s[i] == 'n' {
        Option::Some((Option::None, i + 1))
    } else if 0 <= i < s.len() && s[i] == 's' {
        match spec_parse_str(s, i + 1) {
            Option::None => Option::None,
            Option::Some((f, j)) => Option::Some((Option::Some(f), j)),
        }
    } else {
        Option::None
    }
}

/// The value of a digit string read left to right onto a partial value.
pub open spec fn digits_val_acc(d: Seq<char>, acc: nat) -> nat
    decreases d.len(),
{
    if d.len() == 0 {
        acc
    } else {
        digits_val_acc(d.drop_first(), acc * 10 + digit_val(d[0]))
    }
}

pub open spec fn all_dec_digits(d: Seq<char>) -> bool {
    forall|i: int| 0 <= i < d.len() ==> is_dec_digit(#[trigger] d[i])
}

pub proof fn lemma_digits_shape(n: nat)
    ensures
        spec_digits(n).len() >= 1,
        all_dec_digits(spec_digits(n)),
    decreases n,
{
    if n >= 10 {
        lemma_digits_shape(n / 10);
        assert forall|i: int| 0 <= i < spec_digits(n).len() implies is_dec_digit(
            #[trigger] spec_digits(n)[i],
        ) by {
            if i < spec_digits(n / 10).len() {
                assert(spec_digits(n)[i] == spec_digits(n / 10)[i]);
            }
        }
    }
}

/// Appending a digit multiplies the value read so far by ten.
proof fn lemma_digits_val_push(d: Seq<char>, c: char, acc: nat)
    ensures
        digits_val_acc(d.push(c), acc) == digits_val_acc(d, acc) * 10 + digit_val(c),
    decreases d.len(),
{
    if d.len() == 0 {
        assert(d.push(c)[0] == c);
        assert(d.push(c).drop_first() =~= Seq::<char>::empty());
        assert(digits_val_acc(d.push(c), acc)
            == digits_val_acc(d.push(c).drop_first(), acc * 10 + digit_val(c)));
    } else {
        assert(d.push(c)[0] == d[0]);
        assert(d.push(c).drop_first() =~= d.drop_first().push(c));
        lemma_digits_val_push(d.drop_first(), c, acc * 10 + digit_val(d[0]));
        assert(digits_val_acc(d.push(c), acc)
            == digits_val_acc(d.drop_first().push(c), acc * 10 + digit_val(d[0])));
    }
}

/// The digit string of a number reads back as that number.
pub proof fn lemma_digits_val(n: nat)
    ensures
        digits_val_acc(spec_digits(n), 0) == n,
    decreases n,
{
    if n < 10 {
        assert(seq![dec_digit(n)][0] == dec_digit(n));
        assert(seq![dec_digit(n)].drop_first() =~= Seq::<char>::empty());
        assert(digit_val(dec_digit(n)) == n);
        assert(digits_val_acc(spec_digits(n), 0)
            == digits_val_acc(seq![dec_digit(n)].drop_first(), digit_val(dec_digit(n))));
    } else {
        lemma_digits_val(n / 10);
        lemma_digits_val_push(spec_digits(n / 10), dec_digit(n % 10), 0);
        assert(digit_val(dec_digit(n % 10)) == n % 10);
        assert(n / 10 * 10 + n % 10 == n) by (nonlinear_arith);
    }
}

/// A digit string's value is never below the partial value it started from.
pub proof fn lemma_digits_val_acc_lower(d: Seq<char>, acc: nat)
    ensures
        digits_val_acc(d, acc) >= acc,
    decreases d.len(),
{
    if d.len() > 0 {
        lemma_digits_val_acc_lower(d.drop_first(), acc * 10 + digit_val(d[0]));
    }
}

/// A parsed length is never below the partial value it started from.
pub proof fn lemma_parse_len_lower(s: Seq<char>, i: int, acc: nat)
    ensures
        spec_parse_len(s, i, acc) matches Option::Some((n, _)) ==> n >= acc,
        spec_parse_len(s, i, acc) matches Option::Some((_, j)) ==> j >= i + 1,
    decreases s.len() - i,
{
    if 0 <= i < s.len() && s[i] != ':' && is_dec_digit(s[i]) {
        lemma_parse_len_lower(s, i + 1, acc * 10 + digit_val(s[i]));
    }
}

/// Reading a digit run that ends in a colon yields the run's value.
proof fn lemma_parse_digit_run(s: Seq<char>, i: int, d: Seq<char>, acc: nat)
    requires
        0 <= i,
        i + d.len() + 1 <= s.len(),
        all_dec_digits(d),
        s.subrange(i, i + d.len()) == d,
        s[i + d.len()] == ':',
    ensures
        spec_parse_len(s, i, acc) == Option::Some((digits_val_acc(d, acc), i + d.len() + 1)),
    decreases d.len(),
{
    if d.len() == 0 {
        assert(s[i] == ':');
    } else {
        assert(s[i] == d[0]);
        assert(is_dec_digit(d[0]));
        assert(!(d[0] == ':'));
        assert(s.subrange(i + 1, i + 1 + d.drop_first().len()) =~= d.drop_first());
        lemma_parse_digit_run(s, i + 1, d.drop_first(), acc * 10 + digit_val(d[0]));
    }
}

/// Wherever a window of the text equals the encoding of a field, parsing at
/// the window's start yields exactly that field and stops at the window's end.
pub proof fn lemma_parse_emit(s: Seq<char>, i: int, payload: Seq<char>)
    requires
        0 <= i,
        i + spec_emit_str(payload).len() <= s.len(),
        s.subrange(i, i + spec_emit_str(payload).len()) == spec_emit_str(payload),
    ensures
        spec_parse_str(s, i) == Option::Some((payload, i + spec_emit_str(payload).len())),
{
    let d = spec_digits(payload.len());
    let e = spec_emit_str(payload);
    lemma_digits_shape(payload.len());
    lemma_digits_val(payload.len());
    assert forall|k: int| 0 <= k < d.len() implies s.subrange(i, i + d.len())[k] == d[k] by {
        assert(s.subrange(i, i + e.len())[k] == s[i + k]);
        assert(s.subrange(i, i + d.len())[k] == s[i + k]);
        assert(e[k] == d[k]);
    }
    assert(s.subrange(i, i + d.len()) =~= d);
    assert(s.subrange(i, i + e.len())[d.len() as int] == s[i + d.len()]);
    assert(e[d.len() as int] == ':');
    lemma_parse_digit_run(s, i, d, 0);
    let j = i + d.len() + 1;
    assert(spec_parse_len(s, i, 0) == Option::Some((payload.len(), j)));
    assert forall|m: int| 0 <= m < payload.len() implies
        s.subrange(j, j + payload.len())[m] == payload[m] by {
        assert(s.subrange(i, i + e.len())[d.len() + 1 + m] == s[i + (d.len() + 1 + m)]);
        assert(s.subrange(j, j + payload.len())[m] == s[j + m]);
        assert(e[d.len() + 1 + m] == payload[m]);
    }
    assert(s.subrange(j, j + payload.len()) =~= payload);
}

/// The optional-field analogue of the emit/parse inversion.
pub proof fn lemma_parse_emit_opt(s: Seq<char>, i: int, o: Option<Seq<char>>)
    requires
        0 <= i,
        i + spec_emit_opt(o).len() <= s.len(),
        s.subrange(i, i + spec_emit_opt(o).len()) == spec_emit_opt(o),
    ensures
        spec_parse_opt(s, i) == Option::Some((o, i + spec_emit_opt(o).len())),
{
    let e = spec_emit_opt(o);
    assert(s.subrange(i, i + e.len())[0] == s[i]);
    match o {
        Option::None => {
            assert(e[0] == 'n');
        },
        Option::Some(payload) => {
            let w = spec_emit_str(payload);
            assert(e[0] == 's');
            assert forall|m: int| 0 <= m < w.len() implies
                s.subrange(i + 1, i + 1 + w.len())[m] == w[m] by {
                assert(s.subrange(i, i + e.len())[1 + m] == s[i + 1 + m]);
                assert(e[1 + m] == w[m]);
            }
            assert(s.subrange(i + 1, i + 1 + w.len()) =~= w);
            lemma_parse_emit(s, i + 1, payload);
        },
    }
}


/// A window that equals a concatenation splits into windows that equal the
/// parts.
pub proof fn lemma_window_split(s: Seq<char>, i: int, a: Seq<char>, b: Seq<char>)
    requires
        0 <= i,
        i + a.len() + b.len() <= s.len(),
        s.subrange(i, i + a.len() + b.len()) == a + b,
    ensures
        s.subrange(i, i + a.len()) == a,
        s.subrange(i + a.len(), i + a.len() + b.len()) == b,
{
    let w = s.subrange(i, i + a.len() + b.len());
    assert forall|m: int| 0 <= m < a.len() implies s.subrange(i, i + a.len())[m] == a[m] by {
        assert(w[m] == s[i + m]);
        assert(s.subrange(i, i + a.len())[m] == s[i + m]);
        assert((a + b)[m] == a[m]);
    }
    assert(s.subrange(i, i + a.len()) =~= a);
    assert forall|m: int| 0 <= m < b.len() implies s.subrange(
        i + a.len(),
        i + a.len() + b.len(),
    )[m] == b[m] by {
        assert(w[a.len() + m] == s[i + a.len() + m]);
        assert(s.subrange(i + a.len(), i + a.len() + b.len())[m] == s[i + a.len() + m]);
        assert((a + b)[a.len() + m] == b[m]);
    }
    assert(s.subrange(i + a.len(), i + a.len() + b.len()) =~= b);
}

/// The decimal digit string of a value below ten.
fn digit_str(d: usize) -> (r: &'static str)
    requires
        d < 10,
    ensures
        r@ == seq![dec_digit(d as nat)],
{
    let r = if d == 0 {
        "0"
    } else if d == 1 {
        "1"
    } else if d == 2 {
        "2"
    } else if d == 3 {
        "3"
    } else if d == 4 {
        "4"
    } else if d == 5 {
        "5"
    } else if d == 6 {
        "6"
    } else if d == 7 {
        "7"
    } else if d == 8 {
        "8"
    } else {
        "9"
    };
    proof {
        reveal_strlit("0");
        reveal_strlit("1");
        reveal_strlit("2");
        reveal_strlit("3");
        reveal_strlit("4");
        reveal_strlit("5");
        reveal_strlit("6");
        reveal_strlit("7");
        reveal_strlit("8");
        reveal_strlit("9");
        assert(r@ =~= seq![dec_digit(d as nat)]);
    }
    r
}

/// Appends the decimal digits of `n`.
pub fn append_digits(out: &mut String, n: usize)
    ensures
        final(out)@ == old(out)@ + spec_digits(n as nat),
    decreases n,
{
    if n < 10 {
        out.append(digit_str(n));
        proof {
            assert(out@ =~= old(out)@ + spec_digits(n as nat));
        }
    } else {
        append_digits(out, n / 10);
        out.append(digit_str(n % 10));
        proof {
            assert(out@ =~= old(out)@ + spec_digits(n as nat));
        }
    }
}

/// Appends one encoded field.
pub fn append_field(out: &mut String, s: &str)
    ensures
        final(out)@ == old(out)@ + spec_emit_str(s@),
{
    let n = s.unicode_len();
    append_digits(out, n);
    out.append(":");
    out.append(s);
    proof {
        reveal_strlit(":");
        assert(":"@ =~= seq![':']);
        assert(out@ =~= old(out)@ + spec_emit_str(s@));
    }
}

/// The sequences an optional string denotes.
pub open spec fn opt_view(o: Option<String>) -> Option<Seq<char>> {
    match o {
        Option::None => Option::None,
        Option::Some(s) => Option::Some(s@),
    }
}

/// Appends one encoded optional field.
pub fn append_opt_field(out: &mut String, o: &Option<String>)
    ensures
        final(out)@ == old(out)@ + spec_emit_opt(opt_view(*o)),
{
    proof {
        reveal_strlit("n");
        reveal_strlit("s");
        assert("n"@ =~= seq!['n']);
        assert("s"@ =~= seq!['s']);
    }
    match o {
        Option::None => {
            out.append("n");
            proof {
                assert(out@ =~= old(out)@ + spec_emit_opt(opt_view(*o)));
            }
        },
        Option::Some(s) => {
            out.append("s");
            append_field(out, s.as_str());
            proof {
                assert(out@ =~= old(out)@ + spec_emit_opt(opt_view(*o)));
            }
        },
    }
}

/// Reads one field at position `i`, exactly as the parsing function says:
/// the field and the position after it, or nothing where the text does not
/// carry a well-formed field.
pub fn parse_field_at(s: &str, i: usize) -> (r: Option<(String, usize)>)
    ensures
        match r {
            Option::Some((f, j)) => {
                &&& spec_parse_str(s@, i as int) == Option::Some((f@, j as int))
                &&& i <= j <= s@.len()
            },
            Option::None => spec_parse_str(s@, i as int) is None,
        },
{
    let total = s.unicode_len();
    if i >= total {
        return Option::None;
    }
    let mut j = i;
    let mut acc: usize = 0;
    while j < total
        invariant
            i <= j <= total,
            total == s@.len(),
            acc <= total,
            spec_parse_len(s@, i as int, 0) == spec_parse_len(s@, j as int, acc as nat),
        decreases total - j,
    {
        let c = s.get_char(j);
        if c == ':' {
            // The length prefix is complete: acc characters are announced.
            let after = j + 1;
            if acc > total - after {
                return Option::None;
            }
            let f = s.substring_char(after, after + acc).to_owned();
            proof {
                assert(s@.subrange(after as int, after + acc) =~= f@);
            }
            return Option::Some((f, after + acc));
        }
        let u = c as u32;
        if u < 48 || u > 57 {
            proof {
                assert(c as int == u as int);
            }
            return Option::None;
        }
        let d = (u - 48) as usize;
        proof {
            assert(c as int == u as int);
            assert(is_dec_digit(s@[j as int]));
            assert(digit_val(s@[j as int]) == d as nat);
        }
        if acc > total / 10 || d > total || acc * 10 > total - d {
            // The length read so far already exceeds what the text can hold,
            // so the announced length cannot fit either.
            proof {
                let full: nat = acc as nat * 10 + d as nat;
                assert(spec_parse_len(s@, j as int, acc as nat)
                    == spec_parse_len(s@, j as int + 1, full));
                lemma_parse_len_lower(s@, j as int + 1, full);
                assert(full > total) by (nonlinear_arith)
                    requires
                        acc > total / 10 || d > total || acc as nat * 10 > total - d,
                        acc <= total,
                        d < 10,
                        0 <= total,
                        full == acc as nat * 10 + d as nat,
                ;
            }
            return Option::None;
        }
        acc = acc * 10 + d;
        j = j + 1;
    }
    Option::None
}

/// Reads one optional field at position `i`.
pub fn parse_opt_field_at(s: &str, i: usize) -> (r: Option<(Option<String>, usize)>)
    ensures
        match r {
            Option::Some((f, j)) => {
                &&& spec_parse_opt(s@, i as int) == Option::Some((opt_view(f), j as int))
                &&& i <= j <= s@.len()
            },
            Option::None => spec_parse_opt(s@, i as int) is None,
        },
{
    let total = s.unicode_len();
    if i >= total {
        return Option::None;
    }
    let c = s.get_char(i);
    if c == 'n' {
        Option::Some((Option::None, i + 1))
    } else if c == 's' {
        match parse_field_at(s, i + 1) {
            Option::None => Option::None,
            Option::Some((f, j)) => Option::Some((Option::Some(f), j)),
        }
    } else {
        Option::None
    }
}

} // verus!
