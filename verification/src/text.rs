//! Escape-sequence normalization for inline request content.
//!
//! Inline content given on the command line may carry literal two-character
//! escape sequences (`\n`, `\t`, ...). Normalization rewrites each of a fixed
//! set of six sequences into the single character it stands for, as six
//! successive global replacement passes, in a fixed order. Content read from
//! a file or from standard input is never normalized.

use vstd::prelude::*;
use vstd::string::*;

verus! {

/// The result of replacing, left to right and without overlap, every
/// occurrence of `pat` in `s` by `rep`.
pub open spec fn replaced(s: Seq<char>, pat: Seq<char>, rep: Seq<char>) -> Seq<char>
    decreases s.len(),
{
    if pat.len() == 0 || s.len() < pat.len() {
        s
    } else if s.take(pat.len() as int) == pat {
        rep + replaced(s.skip(pat.len() as int), pat, rep)
    } else {
        seq![s[0]] + replaced(s.skip(1), pat, rep)
    }
}

/// The six replacement passes, in the order they are applied: `\r`, `\n`,
/// `\t`, `\\`, `\"`, `\'`, each rewritten to its single-character meaning.
/// The set is deliberately partial: any other sequence passes through
/// unchanged, and later passes run over the output of earlier ones.
pub open spec fn normalized(s: Seq<char>) -> Seq<char> {
    let s1 = replaced(s, seq!['\\', 'r'], seq!['\r']);
    let s2 = replaced(s1, seq!['\\', 'n'], seq!['\n']);
    let s3 = replaced(s2, seq!['\\', 't'], seq!['\t']);
    let s4 = replaced(s3, seq!['\\', '\\'], seq!['\\']);
    let s5 = replaced(s4, seq!['\\', '"'], seq!['"']);
    replaced(s5, seq!['\\', '\''], seq!['\''])
}

/// One replacement pass over `s`: every occurrence of the two-character
/// pattern `p0 p1` becomes `rep`.
fn replace_pair(s: &str, p0: char, p1: char, rep: &str) -> (r: String)
    ensures
        r@ == replaced(s@, seq![p0, p1], rep@),
{
    let ghost pat = seq![p0, p1];
    let n = s.unicode_len();
    let mut out = String::new();
    let mut i: usize = 0;
    proof {
        assert(s@.skip(0) =~= s@);
        assert(out@ + replaced(s@, pat, rep@) =~= replaced(s@, pat, rep@));
    }
    while i < n
        invariant
            pat == seq![p0, p1],
            i <= n,
            n == s@.len(),
            out@ + replaced(s@.skip(i as int), pat, rep@) == replaced(s@, pat, rep@),
        decreases n - i,
    {
        let ghost t = s@.skip(i as int);
        if i + 1 < n && s.get_char(i) == p0 && s.get_char(i + 1) == p1 {
            out.append(rep);
            proof {
                assert(t[0] == s@[i as int]);
                assert(t[1] == s@[i + 1]);
                assert(t.take(2) =~= pat);
                assert(replaced(t, pat, rep@) == rep@ + replaced(t.skip(2), pat, rep@));
                assert(t.skip(2) =~= s@.skip(i + 2));
            }
            i = i + 2;
        } else {
            let piece = s.substring_char(i, i + 1);
            out.append(piece);
            proof {
                assert(piece@ =~= seq![s@[i as int]]);
                if i + 1 < n {
                    assert(t.take(2)[0] == s@[i as int]);
                    assert(t.take(2)[1] == s@[i + 1]);
                    assert(t.take(2) != pat);
                    assert(replaced(t, pat, rep@) == seq![t[0]] + replaced(t.skip(1), pat, rep@));
                } else {
                    assert(t.len() == 1);
                    assert(replaced(t, pat, rep@) == t);
                    assert(t =~= seq![s@[i as int]]);
                    assert(replaced(t.skip(1), pat, rep@) == t.skip(1));
                }
                assert(t.skip(1) =~= s@.skip(i + 1));
            }
            i = i + 1;
        }
    }
    proof {
        assert(s@.skip(n as int) =~= Seq::<char>::empty());
        assert(replaced(Seq::<char>::empty(), pat, rep@) == Seq::<char>::empty());
        assert(out@ + Seq::<char>::empty() =~= out@);
    }
    out
}

/// Applies the six escape-replacement passes to `content`, in order.
pub fn normalize_text(content: String) -> (r: String)
    ensures
        r@ == normalized(content@),
{
    proof {
        reveal_strlit("\r");
        reveal_strlit("\n");
        reveal_strlit("\t");
        reveal_strlit("\\");
        reveal_strlit("\"");
        reveal_strlit("'");
    }
    let s1 = replace_pair(content.as_str(), '\\', 'r', "\r");
    let s2 = replace_pair(s1.as_str(), '\\', 'n', "\n");
    let s3 = replace_pair(s2.as_str(), '\\', 't', "\t");
    let s4 = replace_pair(s3.as_str(), '\\', '\\', "\\");
    let s5 = replace_pair(s4.as_str(), '\\', '"', "\"");
    let s6 = replace_pair(s5.as_str(), '\\', '\'', "'");
    proof {
        assert("\r"@ =~= seq!['\r']);
        assert("\n"@ =~= seq!['\n']);
        assert("\t"@ =~= seq!['\t']);
        assert("\\"@ =~= seq!['\\']);
        assert("\""@ =~= seq!['"']);
        assert("'"@ =~= seq!['\'']);
    }
    s6
}

/// What str::to_lowercase returns for a string with these characters.
pub uninterp spec fn lower_of(s: Seq<char>) -> Seq<char>;

/// What str::to_uppercase returns for a string with these characters.
pub uninterp spec fn upper_of(s: Seq<char>) -> Seq<char>;

/// What str::trim returns for a string with these characters.
pub uninterp spec fn trim_of(s: Seq<char>) -> Seq<char>;

/// Relies on str::to_lowercase: the lowercase mapping of a string, a function
/// of its characters alone.
#[verifier::external_body]
pub(crate) fn to_lowercase_string(s: &str) -> (r: String)
    ensures
        r@ == lower_of(s@),
{
    s.to_lowercase()
}

/// Relies on str::to_uppercase: the uppercase mapping of a string, a function
/// of its characters alone.
#[verifier::external_body]
pub(crate) fn to_uppercase_string(s: &str) -> (r: String)
    ensures
        r@ == upper_of(s@),
{
    s.to_uppercase()
}

/// Relies on str::trim: the input with leading and trailing whitespace
/// removed, a function of its characters alone.
#[verifier::external_body]
pub(crate) fn trim_str(s: &str) -> (r: &str)
    ensures
        r@ == trim_of(s@),
{
    s.trim()
}

/// Replacement leaves `s` unchanged when the first pattern character never
/// occurs in `s`.
proof fn lemma_replaced_absent(s: Seq<char>, pat: Seq<char>, rep: Seq<char>)
    requires
        pat.len() > 0,
        forall|i: int| 0 <= i < s.len() ==> s[i] != pat[0],
    ensures
        replaced(s, pat, rep) == s,
    decreases s.len(),
{
    if s.len() < pat.len() {
    } else if s.take(pat.len() as int) == pat {
        assert(s.take(pat.len() as int)[0] == s[0]);
        assert(false);
    } else {
        assert(forall|i: int| 0 <= i < s.skip(1).len() ==> s.skip(1)[i] != pat[0]);
        lemma_replaced_absent(s.skip(1), pat, rep);
        assert(replaced(s, pat, rep) == seq![s[0]] + s.skip(1));
        assert(seq![s[0]] + s.skip(1) =~= s);
    }
}

/// Normalization is the identity on text that holds no backslash: none of
/// the six passes can fire, so the input comes back unchanged.
pub proof fn lemma_normalized_plain(s: Seq<char>)
    requires
        forall|i: int| 0 <= i < s.len() ==> s[i] != '\\',
    ensures
        normalized(s) == s,
{
    lemma_replaced_absent(s, seq!['\\', 'r'], seq!['\r']);
    lemma_replaced_absent(s, seq!['\\', 'n'], seq!['\n']);
    lemma_replaced_absent(s, seq!['\\', 't'], seq!['\t']);
    lemma_replaced_absent(s, seq!['\\', '\\'], seq!['\\']);
    lemma_replaced_absent(s, seq!['\\', '"'], seq!['"']);
    lemma_replaced_absent(s, seq!['\\', '\''], seq!['\'']);
}

} // verus!
