//! Target-address parsing.
//!
//! A target string has the shape `[scheme://]host[:port][/path...]`. The
//! parser splits on the literal `://` separator: one resulting piece means
//! no scheme, two mean the first piece (lowercased) is the scheme, and more
//! than two is a malformed address. The remainder is split on `/`: the first
//! segment is the host address (with any port left verbatim), and the path
//! is every later segment rejoined with a leading `/` (empty segments kept),
//! defaulting to `/` when the remainder holds no slash.

use vstd::prelude::*;
use vstd::string::*;

verus! {

/// What a user-supplied target string parses into. The scheme is recognized
/// but deliberately never consulted for connection behavior: no default port
/// is substituted and no scheme-specific handling exists.
pub struct ParsedAddress {
    pub scheme: Option<String>,
    pub address: String,
    pub path: String,
}

/// The one way an address can be rejected: more than one `://` separator.
#[derive(Debug)]
pub enum AddressError {
    TooManySchemeSeparators,
}

/// Whether `sep` occurs in `s` beginning at position `k`.
pub open spec fn match_at(s: Seq<char>, sep: Seq<char>, k: int) -> bool {
    &&& 0 <= k
    &&& k + sep.len() <= s.len()
    &&& s.subrange(k, k + sep.len() as int) == sep
}

/// The pieces of `s` between occurrences of `sep`, scanning left to right
/// without overlap; always at least one piece, and empty pieces are kept.
pub open spec fn split_on(s: Seq<char>, sep: Seq<char>) -> Seq<Seq<char>>
    decreases s.len(),
{
    if sep.len() == 0 || s.len() < sep.len() {
        seq![s]
    } else if s.take(sep.len() as int) == sep {
        seq![Seq::<char>::empty()] + split_on(s.skip(sep.len() as int), sep)
    } else {
        let rest = split_on(s.skip(1), sep);
        seq![seq![s[0]] + rest[0]] + rest.skip(1)
    }
}

pub proof fn lemma_split_on_nonempty(s: Seq<char>, sep: Seq<char>)
    ensures
        split_on(s, sep).len() >= 1,
    decreases s.len(),
{
    if sep.len() == 0 || s.len() < sep.len() {
    } else if s.take(sep.len() as int) == sep {
        lemma_split_on_nonempty(s.skip(sep.len() as int), sep);
    } else {
        lemma_split_on_nonempty(s.skip(1), sep);
    }
}

/// A match in the suffix `s.skip(j)` is a match in `s`, shifted by `j`.
proof fn lemma_match_at_skip(s: Seq<char>, sep: Seq<char>, j: int, k: int)
    requires
        0 <= j <= s.len(),
    ensures
        match_at(s.skip(j), sep, k) <==> (0 <= k && match_at(s, sep, j + k)),
{
    if 0 <= k && k + sep.len() <= s.len() - j {
        assert(s.skip(j).subrange(k, k + sep.len() as int) =~= s.subrange(
            j + k,
            j + k + sep.len() as int,
        ));
    }
}

/// When `sep` occurs nowhere in `s`, the split is the single piece `s`.
proof fn lemma_split_on_no_match(s: Seq<char>, sep: Seq<char>)
    requires
        sep.len() >= 1,
        forall|k: int| !match_at(s, sep, k),
    ensures
        split_on(s, sep) == seq![s],
    decreases s.len(),
{
    if s.len() < sep.len() {
    } else {
        assert(!match_at(s, sep, 0));
        assert(s.take(sep.len() as int) == s.subrange(0, sep.len() as int));
        assert(s.take(sep.len() as int) != sep);
        assert forall|k: int| !match_at(s.skip(1), sep, k) by {
            lemma_match_at_skip(s, sep, 1, k);
        }
        lemma_split_on_no_match(s.skip(1), sep);
        let rest = split_on(s.skip(1), sep);
        assert(rest == seq![s.skip(1)]);
        assert(split_on(s, sep) == seq![seq![s[0]] + s.skip(1)] + rest.skip(1));
        assert(seq![s[0]] + s.skip(1) =~= s);
        assert(rest.skip(1) =~= Seq::<Seq<char>>::empty());
        assert(seq![s] + Seq::<Seq<char>>::empty() =~= seq![s]);
    }
}

/// When the leftmost occurrence of `sep` in `s` begins at `d`, the split is
/// the piece before `d` followed by the split of what comes after the
/// separator.
proof fn lemma_split_on_first_match(s: Seq<char>, sep: Seq<char>, d: int)
    requires
        sep.len() >= 1,
        match_at(s, sep, d),
        forall|k: int| k < d ==> !match_at(s, sep, k),
    ensures
        split_on(s, sep) == seq![s.take(d)] + split_on(s.skip(d + sep.len() as int), sep),
    decreases d,
{
    if d == 0 {
        assert(s.take(sep.len() as int) =~= s.subrange(0, sep.len() as int));
        assert(split_on(s, sep) == seq![Seq::<char>::empty()] + split_on(
            s.skip(sep.len() as int),
            sep,
        ));
        assert(s.take(0) =~= Seq::<char>::empty());
    } else {
        assert(!match_at(s, sep, 0));
        assert(s.take(sep.len() as int) == s.subrange(0, sep.len() as int));
        assert(s.take(sep.len() as int) != sep);
        assert(match_at(s.skip(1), sep, d - 1)) by {
            lemma_match_at_skip(s, sep, 1, d - 1);
        }
        assert forall|k: int| k < d - 1 implies !match_at(s.skip(1), sep, k) by {
            lemma_match_at_skip(s, sep, 1, k);
        }
        lemma_split_on_first_match(s.skip(1), sep, d - 1);
        let rest = split_on(s.skip(1), sep);
        assert(s.skip(1).skip(d - 1 + sep.len() as int) =~= s.skip(d + sep.len() as int));
        assert(rest == seq![s.skip(1).take(d - 1)] + split_on(s.skip(d + sep.len() as int), sep));
        assert(split_on(s, sep) == seq![seq![s[0]] + rest[0]] + rest.skip(1));
        assert(seq![s[0]] + s.skip(1).take(d - 1) =~= s.take(d));
        assert(rest.skip(1) =~= split_on(s.skip(d + sep.len() as int), sep));
    }
}

/// Whether `sep` occurs in `s` beginning at position `i`.
fn matches_at(s: &str, slen: usize, i: usize, sep: &str, plen: usize) -> (r: bool)
    requires
        slen == s@.len(),
        plen == sep@.len(),
        i <= slen,
        plen >= 1,
    ensures
        r == match_at(s@, sep@, i as int),
{
    if plen > slen - i {
        return false;
    }
    let mut j: usize = 0;
    while j < plen
        invariant
            j <= plen,
            slen == s@.len(),
            plen == sep@.len(),
            i + plen <= slen,
            forall|m: int| 0 <= m < j ==> s@[i + m] == sep@[m],
        decreases plen - j,
    {
        if s.get_char(i + j) != sep.get_char(j) {
            proof {
                assert(s@.subrange(i as int, i + plen)[j as int] == s@[i + j]);
                assert(s@.subrange(i as int, i + plen) != sep@);
            }
            return false;
        }
        j = j + 1;
    }
    proof {
        assert(s@.subrange(i as int, i + plen) =~= sep@);
    }
    true
}

/// The pieces of `s` between occurrences of `sep`, as owned strings.
fn split_str(s: &str, sep: &str) -> (r: Vec<String>)
    requires
        sep@.len() >= 1,
    ensures
        r.deep_view() == split_on(s@, sep@),
{
    let n = s.unicode_len();
    let plen = sep.unicode_len();
    let mut pieces: Vec<String> = Vec::new();
    let mut start: usize = 0;
    let mut i: usize = 0;
    proof {
        assert(pieces.deep_view() =~= Seq::<Seq<char>>::empty());
        assert(s@.skip(0) =~= s@);
        assert(Seq::<Seq<char>>::empty() + split_on(s@, sep@) =~= split_on(s@, sep@));
    }
    while plen <= n - i
        invariant
            n == s@.len(),
            plen == sep@.len(),
            plen >= 1,
            start <= i <= n,
            split_on(s@, sep@) == pieces.deep_view() + split_on(s@.skip(start as int), sep@),
            forall|k: int| start <= k < i ==> !match_at(s@, sep@, k),
        decreases n - i,
    {
        if matches_at(s, n, i, sep, plen) {
            let piece = s.substring_char(start, i).to_owned();
            let ghost dv0 = pieces.deep_view();
            pieces.push(piece);
            proof {
                assert(pieces.deep_view() =~= dv0 + seq![piece@]);
                let t = s@.skip(start as int);
                assert(match_at(t, sep@, i - start)) by {
                    lemma_match_at_skip(s@, sep@, start as int, i - start);
                }
                assert forall|k: int| k < i - start implies !match_at(t, sep@, k) by {
                    lemma_match_at_skip(s@, sep@, start as int, k);
                }
                lemma_split_on_first_match(t, sep@, i - start);
                assert(t.take(i - start) =~= s@.subrange(start as int, i as int));
                assert(t.skip(i - start + sep@.len() as int) =~= s@.skip(i + sep@.len()));
                assert(piece@ == s@.subrange(start as int, i as int));
                assert(pieces.deep_view() + split_on(s@.skip(i + sep@.len()), sep@) =~= dv0 + (seq![
                    t.take(i - start),
                ] + split_on(t.skip(i - start + sep@.len() as int), sep@)));
            }
            i = i + plen;
            start = i;
        } else {
            i = i + 1;
        }
    }
    let last = s.substring_char(start, n).to_owned();
    let ghost dv0 = pieces.deep_view();
    pieces.push(last);
    proof {
        let t = s@.skip(start as int);
        assert forall|k: int| !match_at(t, sep@, k) by {
            lemma_match_at_skip(s@, sep@, start as int, k);
        }
        lemma_split_on_no_match(t, sep@);
        assert(t =~= s@.subrange(start as int, n as int));
        assert(last@ == t);
        assert(pieces.deep_view() =~= dv0 + seq![t]);
        assert(dv0 + seq![t] =~= dv0 + split_on(t, sep@));
    }
    pieces
}

/// The path that the parser rebuilds from the segments after the host:
/// each later segment prefixed with `/` and concatenated, or the single
/// character `/` when there is no later segment.
pub open spec fn slash_join(segs: Seq<Seq<char>>) -> Seq<char>
    decreases segs.len(),
{
    if segs.len() == 0 {
        Seq::<char>::empty()
    } else {
        seq!['/'] + segs[0] + slash_join(segs.skip(1))
    }
}

/// The request path for the given `/`-split segments of the remainder: the
/// host segment drops away and the rest rejoin behind leading slashes.
pub open spec fn path_of(segs: Seq<Seq<char>>) -> Seq<char> {
    if segs.len() <= 1 {
        seq!['/']
    } else {
        slash_join(segs.skip(1))
    }
}

proof fn lemma_slash_join_snoc(segs: Seq<Seq<char>>, x: Seq<char>)
    ensures
        slash_join(segs.push(x)) == slash_join(segs) + seq!['/'] + x,
    decreases segs.len(),
{
    assert(slash_join(Seq::<Seq<char>>::empty()) == Seq::<char>::empty());
    if segs.len() == 0 {
        assert(segs.push(x).len() == 1);
        assert(segs.push(x)[0] == x);
        assert(segs.push(x).skip(1) =~= Seq::<Seq<char>>::empty());
        assert(slash_join(segs.push(x)) == seq!['/'] + x + Seq::<char>::empty());
        assert(seq!['/'] + x + Seq::<char>::empty() =~= Seq::<char>::empty() + seq!['/'] + x);
    } else {
        assert(segs.push(x).skip(1) =~= segs.skip(1).push(x));
        lemma_slash_join_snoc(segs.skip(1), x);
        assert(segs.push(x)[0] == segs[0]);
        assert(seq!['/'] + segs[0] + (slash_join(segs.skip(1)) + seq!['/'] + x) =~= (seq!['/']
            + segs[0] + slash_join(segs.skip(1))) + seq!['/'] + x);
    }
}

/// The malformed-address diagnostic, carrying the original input verbatim.
pub fn address_error_message(addr: &str) -> (r: String)
    ensures
        r@ == "Error: Couldn't parse address: "@ + addr@,
{
    let mut m = "Error: Couldn't parse address: ".to_owned();
    m.append(addr);
    m
}

/// Splits `addr` into scheme, host address and path.
///
/// The split on `://` decides the scheme: absent for one piece, the first
/// piece lowercased for two, and an error for more. The last piece is then
/// split on `/`: its first segment is the host address and the rest rejoin,
/// each with a leading `/`, into the path (`/` when none follow).
pub fn address_parser(addr: &str) -> (r: Result<ParsedAddress, AddressError>)
    ensures
        ({
            let pieces = split_on(addr@, seq![':', '/', '/']);
            let segs = split_on(pieces.last(), seq!['/']);
            &&& r is Err <==> pieces.len() > 2
            &&& r is Ok ==> {
                let p = r->Ok_0;
                &&& p.scheme is Some <==> pieces.len() == 2
                &&& pieces.len() == 2 ==> p.scheme->0@ == crate::text::lower_of(pieces[0])
                &&& p.address@ == segs[0]
                &&& p.path@ == path_of(segs)
            }
        }),
{
    proof {
        reveal_strlit("://");
        reveal_strlit("/");
        assert("://"@ =~= seq![':', '/', '/']);
        assert("/"@ =~= seq!['/']);
    }
    let pieces = split_str(addr, "://");
    proof {
        lemma_split_on_nonempty(addr@, seq![':', '/', '/']);
    }
    if pieces.len() > 2 {
        return Err(AddressError::TooManySchemeSeparators);
    }
    let scheme: Option<String> = if pieces.len() == 2 {
        Some(crate::text::to_lowercase_string(pieces[0].as_str()))
    } else {
        None
    };
    let rest = &pieces[pieces.len() - 1];
    proof {
        assert(rest@ == split_on(addr@, seq![':', '/', '/']).last());
    }
    let segs = split_str(rest.as_str(), "/");
    proof {
        lemma_split_on_nonempty(rest@, seq!['/']);
    }
    let address = segs[0].clone();
    let path: String = if segs.len() == 1 {
        proof {
            reveal_strlit("/");
        }
        "/".to_owned()
    } else {
        let ghost gsegs = segs.deep_view();
        let mut p = String::new();
        let mut k: usize = 1;
        proof {
            assert(gsegs.subrange(1, 1) =~= Seq::<Seq<char>>::empty());
            assert(p@ =~= slash_join(gsegs.subrange(1, 1)));
        }
        while k < segs.len()
            invariant
                1 <= k <= segs.len(),
                gsegs == segs.deep_view(),
                p@ == slash_join(gsegs.subrange(1, k as int)),
            decreases segs.len() - k,
        {
            proof {
                reveal_strlit("/");
            }
            p.append("/");
            p.append(segs[k].as_str());
            proof {
                lemma_slash_join_snoc(gsegs.subrange(1, k as int), gsegs[k as int]);
                assert(gsegs.subrange(1, k + 1) =~= gsegs.subrange(1, k as int).push(
                    gsegs[k as int],
                ));
                assert("/"@ =~= seq!['/']);
            }
            k = k + 1;
        }
        proof {
            assert(gsegs.subrange(1, gsegs.len() as int) =~= gsegs.skip(1));
        }
        p
    };
    proof {
        assert(segs.deep_view()[0] == split_on(rest@, seq!['/'])[0]);
    }
    Ok(ParsedAddress { scheme, address, path })
}

} // verus!
