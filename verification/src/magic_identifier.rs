//! Deterministic mangling of a descriptive label into a syntactically valid
//! synthetic identifier. The same label always yields the same identifier;
//! ASCII letters and digits pass through, every other character is spelled as
//! `$` + its code in hexadecimal + `$`, so distinct labels stay apart.

use vstd::prelude::*;
use vstd::string::StringExecFns;

use crate::text::{chars_to_string, hex_digit, hex_seq, str_chars, u32_to_hex};

verus! {

/// A character kept verbatim by the mangler: an ASCII letter or digit.
pub open spec fn is_kept_char(c: char) -> bool {
    (48 <= c as u32 && c as u32 <= 57) || (65 <= c as u32 && c as u32 <= 90) || (97 <= c as u32
        && c as u32 <= 122)
}

/// A character that may stand in a synthetic identifier.
pub open spec fn is_ident_char(c: char) -> bool {
    is_kept_char(c) || c == '_' || c == '$'
}

/// A non-empty identifier that starts with `_` and holds only identifier
/// characters.
pub open spec fn is_valid_ident(s: Seq<char>) -> bool {
    &&& s.len() > 0
    &&& s[0] == '_'
    &&& forall|i: int| 0 <= i < s.len() ==> is_ident_char(#[trigger] s[i])
}

/// The encoding of one label character.
pub open spec fn mangle_char(c: char) -> Seq<char> {
    if is_kept_char(c) {
        seq![c]
    } else {
        seq!['$'] + hex_seq(c as u32 as nat) + seq!['$']
    }
}

/// The encoding of a whole label, character by character.
pub open spec fn mangle_chars(s: Seq<char>) -> Seq<char>
    decreases s.len(),
{
    if s.len() == 0 {
        Seq::empty()
    } else {
        mangle_chars(s.drop_last()) + mangle_char(s.last())
    }
}

/// The mangled identifier for a label.
pub open spec fn mangle_spec(label: Seq<char>) -> Seq<char> {
    "__TURBOPACK__"@ + mangle_chars(label) + "__"@
}

/// Mangles a descriptive label into a synthetic identifier.
pub fn mangle(label: &str) -> (r: String)
    ensures
        r@ == mangle_spec(label@),
{
    let chars = str_chars(label);
    let mut body: Vec<char> = Vec::new();
    let mut i: usize = 0;
    while i < chars.len()
        invariant
            i <= chars@.len(),
            chars@ == label@,
            body@ == mangle_chars(label@.take(i as int)),
        decreases chars@.len() - i,
    {
        let c = chars[i];
        let ghost pre = body@;
        if is_kept(c) {
            body.push(c);
            proof {
                assert(body@ =~= pre + mangle_char(c));
            }
        } else {
            body.push('$');
            let mut hex = u32_to_hex(c as u32);
            body.append(&mut hex);
            body.push('$');
            proof {
                assert(body@ =~= pre + mangle_char(c));
            }
        }
        proof {
            assert(label@.take(i + 1 as int).drop_last() =~= label@.take(i as int));
            assert(label@.take(i + 1 as int).last() == label@[i as int]);
        }
        i = i + 1;
    }
    proof {
        assert(label@.take(chars@.len() as int) =~= label@);
    }
    let body_string = chars_to_string(body);
    let mut out = String::from_str("__TURBOPACK__");
    out.append(body_string.as_str());
    out.append("__");
    out
}

/// Whether the mangler keeps this character verbatim.
fn is_kept(c: char) -> (r: bool)
    ensures
        r == is_kept_char(c),
{
    let n = c as u32;
    (48 <= n && n <= 57) || (65 <= n && n <= 90) || (97 <= n && n <= 122)
}

/// A hexadecimal rendering is non-empty and made of kept characters only.
proof fn lemma_hex_seq_kept_chars(n: nat)
    ensures
        hex_seq(n).len() >= 1,
        forall|i: int| 0 <= i < hex_seq(n).len() ==> is_kept_char(#[trigger] hex_seq(n)[i]),
    decreases n,
{
    if n < 16 {
        assert(hex_digit(n) as u32 == if n < 10 {
            48 + n
        } else {
            87 + n
        });
        assert(is_kept_char(hex_digit(n)));
        assert(hex_seq(n) =~= seq![hex_digit(n)]);
    } else {
        lemma_hex_seq_kept_chars(n / 16);
        assert(hex_digit(n % 16) as u32 == if n % 16 < 10 {
            48 + n % 16
        } else {
            87 + n % 16
        });
        assert(is_kept_char(hex_digit(n % 16)));
        let left = hex_seq(n / 16);
        assert forall|i: int| 0 <= i < hex_seq(n).len() implies is_kept_char(
            #[trigger] hex_seq(n)[i],
        ) by {
            if i < left.len() {
                assert(hex_seq(n)[i] == left[i]);
            } else {
                assert(hex_seq(n)[i] == hex_digit(n % 16));
            }
        }
    }
}

/// Every character that `mangle_chars` emits is an identifier character.
proof fn lemma_mangle_chars_ident_chars(s: Seq<char>)
    ensures
        forall|i: int| 0 <= i < mangle_chars(s).len() ==> is_ident_char(
            #[trigger] mangle_chars(s)[i],
        ),
    decreases s.len(),
{
    if s.len() > 0 {
        lemma_mangle_chars_ident_chars(s.drop_last());
        lemma_hex_seq_kept_chars(s.last() as u32 as nat);
        let left = mangle_chars(s.drop_last());
        let right = mangle_char(s.last());
        assert forall|i: int| 0 <= i < mangle_chars(s).len() implies is_ident_char(
            #[trigger] mangle_chars(s)[i],
        ) by {
            if i < left.len() {
                assert(mangle_chars(s)[i] == left[i]);
            } else {
                assert(mangle_chars(s)[i] == right[i - left.len()]);
                if !is_kept_char(s.last()) {
                    let h = hex_seq(s.last() as u32 as nat);
                    let j = i - left.len();
                    if 1 <= j < 1 + h.len() {
                        assert(right[j] == h[j - 1]);
                    }
                }
            }
        }
    }
}

/// The numeric value of one hexadecimal digit character.
spec fn hex_digit_val(c: char) -> nat {
    if 48 <= c as u32 && c as u32 <= 57 {
        (c as u32 - 48) as nat
    } else {
        (c as u32 - 87) as nat
    }
}

/// The numeric value of a hexadecimal digit sequence.
spec fn hex_val(s: Seq<char>) -> nat
    decreases s.len(),
{
    if s.len() == 0 {
        0
    } else {
        hex_val(s.drop_last()) * 16 + hex_digit_val(s.last())
    }
}

/// Rendering a number in hexadecimal and reading it back is the identity.
proof fn lemma_hex_seq_val(n: nat)
    ensures
        hex_val(hex_seq(n)) == n,
    decreases n,
{
    assert(hex_val(Seq::<char>::empty()) == 0);
    if n < 16 {
        assert(hex_seq(n) =~= seq![hex_digit(n)]);
        assert(hex_seq(n).drop_last() =~= Seq::<char>::empty());
        assert(hex_digit(n) as u32 == if n < 10 {
            48 + n
        } else {
            87 + n
        });
        assert(hex_digit_val(hex_digit(n)) == n);
    } else {
        lemma_hex_seq_val(n / 16);
        let h = hex_seq(n);
        assert(h.drop_last() =~= hex_seq(n / 16));
        assert(h.last() == hex_digit(n % 16));
        assert(hex_digit(n % 16) as u32 == if n % 16 < 10 {
            48 + n % 16
        } else {
            87 + n % 16
        });
        assert(hex_digit_val(hex_digit(n % 16)) == n % 16);
        assert((n / 16) * 16 + n % 16 == n) by (nonlinear_arith);
    }
}

/// The largest index below `i` holding `'$'`, or a negative value when there
/// is none.
spec fn last_dollar_before(s: Seq<char>, i: int) -> int
    decreases i,
{
    if i <= 0 {
        -1
    } else if s[i - 1] == '$' {
        i - 1
    } else {
        last_dollar_before(s, i - 1)
    }
}

/// A `'$'` at `j` with none between it and `i` is what the backward scan
/// finds.
proof fn lemma_last_dollar_at(s: Seq<char>, i: int, j: int)
    requires
        0 <= j < i <= s.len(),
        s[j] == '$',
        forall|k: int| j < k < i ==> s[k] != '$',
    ensures
        last_dollar_before(s, i) == j,
    decreases i,
{
    if j < i - 1 {
        assert(s[i - 1] != '$');
        lemma_last_dollar_at(s, i - 1, j);
    }
}

/// The scalar values of a character sequence.
spec fn scalars_of(s: Seq<char>) -> Seq<int> {
    s.map_values(|c: char| c as u32 as int)
}

/// Reads an encoded label back as scalar values: a trailing kept character
/// stands for itself, and a trailing `'$'` closes a hexadecimal escape opened
/// by the nearest `'$'` before it.
spec fn decode_chars(s: Seq<char>) -> Seq<int>
    decreases s.len(),
{
    if s.len() == 0 {
        Seq::empty()
    } else if s.last() != '$' {
        decode_chars(s.drop_last()).push(s.last() as u32 as int)
    } else {
        let j = last_dollar_before(s, s.len() - 1);
        if 0 <= j && j < s.len() - 1 {
            decode_chars(s.take(j)).push(hex_val(s.subrange(j + 1, s.len() - 1)) as int)
        } else {
            Seq::empty()
        }
    }
}

/// Decoding undoes encoding: the per-character escape scheme is uniquely
/// readable.
proof fn lemma_decode_mangle_chars(x: Seq<char>)
    ensures
        decode_chars(mangle_chars(x)) == scalars_of(x),
    decreases x.len(),
{
    if x.len() > 0 {
        let d = x.drop_last();
        let c = x.last();
        let e0 = mangle_chars(d);
        let e = mangle_chars(x);
        lemma_decode_mangle_chars(d);
        lemma_mangle_chars_ident_chars(d);
        if is_kept_char(c) {
            assert(e =~= e0.push(c));
            assert(e.last() == c);
            assert(c as u32 != 36);
            assert(c != '$');
            assert(e.drop_last() =~= e0);
            assert(decode_chars(e) =~= scalars_of(d).push(c as u32 as int));
            assert(x =~= d.push(c));
            assert(scalars_of(x) =~= scalars_of(d).push(c as u32 as int));
        } else {
            let n = c as u32 as nat;
            let h = hex_seq(n);
            lemma_hex_seq_kept_chars(n);
            lemma_hex_seq_val(n);
            assert(e =~= e0 + seq!['$'] + h + seq!['$']);
            let j = e0.len() as int;
            assert(e[j] == '$');
            assert(e.last() == '$');
            assert(e.len() == e0.len() + h.len() + 2);
            assert forall|k: int| j < k < e.len() - 1 implies e[k] != '$' by {
                assert(e[k] == h[k - j - 1]);
                assert(is_kept_char(h[k - j - 1]));
                assert(h[k - j - 1] as u32 != 36);
            }
            lemma_last_dollar_at(e, e.len() - 1, j);
            assert(e.take(j) =~= e0);
            assert(e.subrange(j + 1, e.len() - 1) =~= h);
            assert(hex_val(h) == n);
            assert(decode_chars(e) =~= scalars_of(d).push(c as u32 as int));
            assert(x =~= d.push(c));
            assert(scalars_of(x) =~= scalars_of(d).push(c as u32 as int));
        }
    }
}

/// The mangling contract on distinctness: distinct labels are mangled to
/// distinct identifiers.
pub proof fn lemma_mangle_injective(a: Seq<char>, b: Seq<char>)
    requires
        mangle_spec(a) == mangle_spec(b),
    ensures
        a == b,
{
    let p = "__TURBOPACK__"@;
    let q = "__"@;
    let ea = mangle_chars(a);
    let eb = mangle_chars(b);
    assert((p + ea + q).len() == (p + eb + q).len());
    assert(ea.len() == eb.len());
    assert forall|i: int| 0 <= i < ea.len() implies ea[i] == eb[i] by {
        assert((p + ea + q)[p.len() + i] == ea[i]);
        assert((p + eb + q)[p.len() + i] == eb[i]);
    }
    assert(ea =~= eb);
    lemma_decode_mangle_chars(a);
    lemma_decode_mangle_chars(b);
    assert(scalars_of(a) == scalars_of(b));
    assert(a.len() == scalars_of(a).len());
    assert forall|i: int| 0 <= i < a.len() implies a[i] == b[i] by {
        assert(scalars_of(a)[i] == a[i] as u32 as int);
        assert(scalars_of(b)[i] == b[i] as u32 as int);
        assert(a[i] as u32 == b[i] as u32);
        vstd::utf8::char_u32_cast(a[i], a[i] as u32);
        vstd::utf8::char_u32_cast(b[i], b[i] as u32);
    }
    assert(a =~= b);
}

/// The mangling contract on shape: the identifier for any label is non-empty,
/// starts with `_`, and holds only identifier characters.
pub proof fn lemma_mangle_valid_ident(label: Seq<char>)
    ensures
        is_valid_ident(mangle_spec(label)),
{
    reveal_strlit("__TURBOPACK__");
    reveal_strlit("__");
    lemma_mangle_chars_ident_chars(label);
    assert forall|i: int| 0 <= i < mangle_spec(label).len() implies is_ident_char(
        #[trigger] mangle_spec(label)[i],
    ) by {
        let p = "__TURBOPACK__"@;
        let m = mangle_chars(label);
        if i < p.len() {
            assert(mangle_spec(label)[i] == p[i]);
        } else if i < p.len() + m.len() {
            assert(mangle_spec(label)[i] == m[i - p.len()]);
        } else {
            assert(mangle_spec(label)[i] == "__"@[i - p.len() - m.len()]);
        }
    }
}

} // verus!
