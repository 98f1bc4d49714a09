//! The textual codec: canonical display (leading zeros suppressed) and
//! fixed-width parsing (short input left-padded with zero digits).

use vstd::prelude::*;
use vstd::string::StrSliceExecFns;
use vstd::string::StringExecFns;
use crate::trit::Bal3;
use crate::errors::ParseBalTernError;
use crate::value::{seq_val, lemma_seq_val_all_zero, lemma_seq_val_injective};

verus! {

/// The digit sequence with its leading zero digits removed.
pub open spec fn trim_zeros(s: Seq<Bal3>) -> Seq<Bal3>
    decreases s.len(),
{
    if s.len() > 0 && s[0] == Bal3::Zero {
        trim_zeros(s.drop_first())
    } else {
        s
    }
}

/// The characters of a digit sequence, most significant digit first.
pub open spec fn char_seq(s: Seq<Bal3>) -> Seq<char> {
    s.map_values(|t: Bal3| t.spec_char())
}

/// What displaying a digit sequence yields: its characters, with the
/// leading zeros suppressed.  The all-zero sequence displays as the
/// empty string.
pub open spec fn display_chars(s: Seq<Bal3>) -> Seq<char> {
    char_seq(trim_zeros(s))
}

/// Whether `c` is one of the three digit characters.
pub open spec fn is_trit_char(c: char) -> bool {
    c == 'T' || c == '0' || c == '1'
}

/// The digit a (valid) digit character denotes.
pub open spec fn trit_of_char(c: char) -> Bal3 {
    if c == 'T' {
        Bal3::NegativeOne
    } else if c == '1' {
        Bal3::One
    } else {
        Bal3::Zero
    }
}

/// The digits of a string of length at most `n`, left-padded with zero
/// digits to exactly `n`.
pub open spec fn pad_left(s: Seq<char>, n: nat) -> Seq<Bal3> {
    Seq::new(
        n,
        |i: int|
            if i < n - s.len() {
                Bal3::Zero
            } else {
                trit_of_char(s[i - (n - s.len())])
            },
    )
}

/// What parsing a string yields at width `n`.  The empty string is
/// rejected; an overlong string is rejected with the overflow kind its
/// leading character determines (or `InvalidChar` when that character is
/// not a digit); a string holding any character outside `{T, 0, 1}` is
/// rejected; everything else is accepted, left-padded to `n` digits.
pub open spec fn spec_parse(s: Seq<char>, n: nat) -> Result<Seq<Bal3>, ParseBalTernError> {
    if s.len() == 0 {
        Err(ParseBalTernError::Empty)
    } else if s.len() > n {
        if s[0] == 'T' {
            Err(ParseBalTernError::NegOverflow)
        } else if s[0] == '1' {
            Err(ParseBalTernError::PosOverflow)
        } else {
            Err(ParseBalTernError::InvalidChar)
        }
    } else if exists|i: int| 0 <= i < s.len() && !(#[trigger] is_trit_char(s[i])) {
        Err(ParseBalTernError::InvalidChar)
    } else {
        Ok(pad_left(s, n))
    }
}

/// A digit's character is valid and parses back to the digit.
proof fn lemma_char_roundtrip(t: Bal3)
    ensures
        is_trit_char(t.spec_char()),
        trit_of_char(t.spec_char()) == t,
{
    match t {
        Bal3::One => {},
        Bal3::Zero => {},
        Bal3::NegativeOne => {},
    }
}

/// Trimming removes exactly the leading zero digits.
proof fn lemma_trim_prefix(s: Seq<Bal3>, k: int)
    requires
        0 <= k <= s.len(),
        forall|i: int| 0 <= i < k ==> s[i] == Bal3::Zero,
        k < s.len() ==> s[k] != Bal3::Zero,
    ensures
        trim_zeros(s) == s.subrange(k, s.len() as int),
    decreases k,
{
    if k == 0 {
        assert(s =~= s.subrange(0, s.len() as int));
    } else {
        lemma_trim_prefix(s.drop_first(), k - 1);
        assert(s.drop_first().subrange(k - 1, s.drop_first().len() as int) =~= s.subrange(
            k,
            s.len() as int,
        ));
    }
}

/// Trimming an all-zero sequence leaves nothing.
proof fn lemma_trim_all_zero(s: Seq<Bal3>)
    requires
        forall|i: int| 0 <= i < s.len() ==> s[i] == Bal3::Zero,
    ensures
        trim_zeros(s).len() == 0,
    decreases s.len(),
{
    if s.len() > 0 {
        lemma_trim_all_zero(s.drop_first());
    }
}

/// A leading zero digit does not change the denoted value.
pub proof fn lemma_leading_zero(s: Seq<Bal3>)
    requires
        s.len() >= 1,
        s[0] == Bal3::Zero,
    ensures
        seq_val(s) == seq_val(s.drop_first()),
    decreases s.len(),
{
    if s.len() == 1 {
        assert(s.drop_last() =~= s.drop_first());
    } else {
        lemma_leading_zero(s.drop_last());
        assert(s.drop_last().drop_first() =~= s.drop_first().drop_last());
        assert(s.drop_first().last() == s.last());
    }
}

/// The integer zero displays as the empty string.
pub proof fn lemma_display_zero(s: Seq<Bal3>)
    requires
        seq_val(s) == 0,
    ensures
        display_chars(s) == Seq::<char>::empty(),
{
    let z = Seq::new(s.len(), |i: int| Bal3::Zero);
    lemma_seq_val_all_zero(z);
    lemma_seq_val_injective(s, z);
    lemma_trim_all_zero(s);
    assert(char_seq(trim_zeros(s)) =~= Seq::<char>::empty());
}

/// Displaying and re-parsing recovers a nonzero value exactly: the parse
/// reconstitutes the leading zeros the display suppressed.
pub proof fn lemma_parse_display_roundtrip(s: Seq<Bal3>, n: nat)
    requires
        s.len() == n,
        seq_val(s) != 0,
    ensures
        spec_parse(display_chars(s), n) == Ok::<Seq<Bal3>, ParseBalTernError>(s),
    decreases n,
{
    if n == 0 {
        assert(false);
    } else if s[0] != Bal3::Zero {
        let d = char_seq(s);
        assert(trim_zeros(s) == s);
        assert(d.len() == n);
        assert(forall|j: int| 0 <= j < n ==> #[trigger] is_trit_char(d[j])) by {
            assert forall|j: int| 0 <= j < n implies #[trigger] is_trit_char(d[j]) by {
                lemma_char_roundtrip(s[j]);
            }
        }
        assert(spec_parse(d, n) == Ok::<Seq<Bal3>, ParseBalTernError>(pad_left(d, n)));
        assert(pad_left(d, n) =~= s) by {
            assert forall|j: int| 0 <= j < n implies pad_left(d, n)[j] == s[j] by {
                lemma_char_roundtrip(s[j]);
            }
        }
    } else {
        let tail = s.drop_first();
        lemma_leading_zero(s);
        lemma_parse_display_roundtrip(tail, (n - 1) as nat);
        assert(trim_zeros(s) == trim_zeros(tail));
        let d = display_chars(s);
        assert(spec_parse(d, (n - 1) as nat) == Ok::<Seq<Bal3>, ParseBalTernError>(
            pad_left(d, (n - 1) as nat),
        ));
        assert(pad_left(d, (n - 1) as nat) == tail);
        assert(1 <= d.len() <= n - 1);
        assert(spec_parse(d, n) == Ok::<Seq<Bal3>, ParseBalTernError>(pad_left(d, n)));
        assert(pad_left(d, n) =~= s) by {
            assert(forall|j: int| 1 <= j < n ==> s[j] == tail[j - 1]);
            assert(forall|j: int| 0 <= j < n - 1 ==> pad_left(d, (n - 1) as nat)[j]
                == tail[j]);
            assert forall|j: int| 0 <= j < n implies pad_left(d, n)[j] == s[j] by {
                if j >= 1 {
                    assert(pad_left(d, n)[j] == pad_left(d, (n - 1) as nat)[j - 1]);
                }
            }
        }
    }
}

/// The canonical string of a digit sequence: each digit's character, most
/// significant first, with leading `0` characters stripped.
pub fn render(digits: &Vec<Bal3>) -> (r: String)
    ensures
        r@ == display_chars(digits@),
{
    proof {
        reveal_strlit("1");
        reveal_strlit("0");
        reveal_strlit("T");
    }
    let n = digits.len();
    let mut start: usize = 0;
    while start < n && digits[start] == Bal3::Zero
        invariant
            start <= n == digits@.len(),
            forall|i: int| 0 <= i < start ==> digits@[i] == Bal3::Zero,
        decreases n - start,
    {
        start = start + 1;
    }
    proof {
        lemma_trim_prefix(digits@, start as int);
    }
    let mut out = String::new();
    let mut i: usize = start;
    while i < n
        invariant
            start <= i <= n == digits@.len(),
            out@ == char_seq(digits@.subrange(start as int, i as int)),
        decreases n - i,
    {
        proof {
            reveal_strlit("1");
            reveal_strlit("0");
            reveal_strlit("T");
        }
        let t = digits[i];
        match t {
            Bal3::One => out.append("1"),
            Bal3::Zero => out.append("0"),
            Bal3::NegativeOne => out.append("T"),
        }
        proof {
            assert(out@ =~= char_seq(digits@.subrange(start as int, i + 1))) by {
                let prev = digits@.subrange(start as int, i as int);
                let cur = digits@.subrange(start as int, i + 1);
                assert(cur.len() == prev.len() + 1);
                assert(forall|j: int| 0 <= j < prev.len() ==> cur[j] == prev[j]);
                assert(cur[i - start] == digits@[i as int]);
            }
        }
        i = i + 1;
    }
    proof {
        assert(digits@.subrange(start as int, n as int) == trim_zeros(digits@));
    }
    out
}

/// Parse a string into exactly `width` digits, left-padding with zeros,
/// following `spec_parse` in every case.
pub fn parse_trits(s: &str, width: usize) -> (r: Result<Vec<Bal3>, ParseBalTernError>)
    ensures
        match r {
            Ok(v) => spec_parse(s@, width as nat) == Ok::<Seq<Bal3>, ParseBalTernError>(v@)
                && v@.len() == width,
            Err(e) => spec_parse(s@, width as nat) == Err::<Seq<Bal3>, ParseBalTernError>(e),
        },
{
    let len = s.unicode_len();
    if len == 0 {
        return Err(ParseBalTernError::Empty);
    }
    if len > width {
        let c0 = s.get_char(0);
        if c0 == 'T' {
            return Err(ParseBalTernError::NegOverflow);
        } else if c0 == '1' {
            return Err(ParseBalTernError::PosOverflow);
        } else {
            return Err(ParseBalTernError::InvalidChar);
        }
    }
    let zeros = width - len;
    let mut v: Vec<Bal3> = Vec::new();
    let mut j: usize = 0;
    while j < width
        invariant
            j <= width,
            v@.len() == j,
            forall|q: int| 0 <= q < j ==> v@[q] == Bal3::Zero,
        decreases width - j,
    {
        v.push(Bal3::Zero);
        j = j + 1;
    }
    let mut i: usize = 0;
    while i < len
        invariant
            i <= len == s@.len(),
            len <= width == v@.len(),
            zeros == width - len,
            forall|q: int| 0 <= q < i ==> is_trit_char(s@[q]),
            forall|q: int| 0 <= q < zeros ==> v@[q] == Bal3::Zero,
            forall|q: int| zeros <= q < zeros + i ==> v@[q] == trit_of_char(s@[q - zeros]),
        decreases len - i,
    {
        let c = s.get_char(i);
        if c == 'T' {
            v.set(zeros + i, Bal3::NegativeOne);
        } else if c == '0' {
            v.set(zeros + i, Bal3::Zero);
        } else if c == '1' {
            v.set(zeros + i, Bal3::One);
        } else {
            proof {
                assert(!is_trit_char(s@[i as int]));
            }
            return Err(ParseBalTernError::InvalidChar);
        }
        i = i + 1;
    }
    proof {
        assert(forall|q: int| 0 <= q < s@.len() ==> #[trigger] is_trit_char(s@[q]));
        assert(v@ =~= pad_left(s@, width as nat));
    }
    Ok(v)
}

} // verus!
