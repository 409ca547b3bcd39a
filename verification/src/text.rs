//! Text utilities: extracting a domain from a URL, and building the link
//! identifiers used by the domain-keyed registry.

use vstd::prelude::*;

verus! {

/// Position of the first occurrence of the scheme marker `://` in `u`.
pub open spec fn find_scheme_marker(u: Seq<char>) -> Option<int>
    decreases u.len(),
{
    if u.len() < 3 {
        None
    } else if u[0] == ':' && u[1] == '/' && u[2] == '/' {
        Some(0int)
    } else {
        shift_found(find_scheme_marker(u.drop_first()), 1)
    }
}

/// Shifts a found position by `i`.
pub open spec fn shift_found(r: Option<int>, i: int) -> Option<int> {
    match r {
        Some(k) => Some(k + i),
        None => None,
    }
}

/// `u` without its scheme: everything after the first `://`, or all of `u`
/// when it has no scheme marker.
pub open spec fn strip_scheme(u: Seq<char>) -> Seq<char> {
    match find_scheme_marker(u) {
        Some(i) => u.skip(i + 3),
        None => u,
    }
}

/// `u` without a leading `www.`.
pub open spec fn strip_www(u: Seq<char>) -> Seq<char> {
    if u.len() >= 4 && u[0] == 'w' && u[1] == 'w' && u[2] == 'w' && u[3] == '.' {
        u.skip(4)
    } else {
        u
    }
}

/// The longest prefix of `u` before a `/`.
pub open spec fn until_slash(u: Seq<char>) -> Seq<char>
    decreases u.len(),
{
    if u.len() == 0 {
        Seq::empty()
    } else if u[0] == '/' {
        Seq::empty()
    } else {
        seq![u[0]] + until_slash(u.drop_first())
    }
}

/// The domain of a URL: the text after the scheme marker and a leading
/// `www.`, up to the first `/`.
pub open spec fn domain_of(u: Seq<char>) -> Seq<char> {
    until_slash(strip_www(strip_scheme(u)))
}

/// Finds the first occurrence of the scheme marker `://`.
fn find_scheme(u: &str) -> (r: Option<usize>)
    ensures
        match r {
            Some(i) => find_scheme_marker(u@) == Some(i as int) && i + 3 <= u@.len(),
            None => find_scheme_marker(u@) is None,
        },
{
    let n = u.unicode_len();
    if n < 3 {
        return None;
    }
    let mut i: usize = 0;
    proof {
        assert(u@.skip(0) =~= u@);
    }
    while i < n - 2
        invariant
            n == u@.len(),
            3 <= n,
            i <= n,
            find_scheme_marker(u@) == shift_found(
                find_scheme_marker(u@.skip(i as int)),
                i as int,
            ),
        decreases n - i,
    {
        let c0 = u.get_char(i);
        let c1 = u.get_char(i + 1);
        let c2 = u.get_char(i + 2);
        proof {
            assert(u@.skip(i as int)[0] == u@[i as int]);
            assert(u@.skip(i as int)[1] == u@[i as int + 1]);
            assert(u@.skip(i as int)[2] == u@[i as int + 2]);
            assert(u@.skip(i as int).drop_first() =~= u@.skip(i as int + 1));
        }
        if c0 == ':' && c1 == '/' && c2 == '/' {
            return Some(i);
        }
        i = i + 1;
    }
    proof {
        assert(u@.skip(i as int).len() < 3);
    }
    None
}

/// The longest prefix of `u` before a `/`.
fn cut_at_slash<'a>(u: &'a str) -> (r: &'a str)
    ensures
        r@ == until_slash(u@),
{
    let n = u.unicode_len();
    let mut i: usize = 0;
    proof {
        assert(u@.skip(0) =~= u@);
        assert(u@.take(0) + until_slash(u@) =~= until_slash(u@));
    }
    while i < n
        invariant
            n == u@.len(),
            i <= n,
            until_slash(u@) == u@.take(i as int) + until_slash(u@.skip(i as int)),
        decreases n - i,
    {
        let c = u.get_char(i);
        proof {
            assert(u@.skip(i as int)[0] == u@[i as int]);
            assert(u@.skip(i as int).drop_first() =~= u@.skip(i as int + 1));
        }
        if c == '/' {
            let r = u.substring_char(0, i);
            proof {
                assert(r@ =~= u@.take(i as int));
                assert(u@.take(i as int) + until_slash(u@.skip(i as int)) =~= u@.take(i as int));
            }
            return r;
        }
        proof {
            assert(u@.take(i as int) + (seq![u@[i as int]] + until_slash(u@.skip(i as int + 1)))
                =~= u@.take(i as int + 1) + until_slash(u@.skip(i as int + 1)));
        }
        i = i + 1;
    }
    proof {
        assert(u@.skip(n as int) =~= Seq::<char>::empty());
        assert(u@.take(n as int) + until_slash(Seq::<char>::empty()) =~= u@);
    }
    u
}

/// Extracts the domain from a URL: the text after the scheme marker and a
/// leading `www.`, up to the first `/`.
pub fn extract_domain_from_url(url: &str) -> (r: String)
    ensures
        r@ == domain_of(url@),
{
    let n = url.unicode_len();
    let rest: &str = match find_scheme(url) {
        Some(i) => {
            let s = url.substring_char(i + 3, n);
            proof {
                assert(s@ =~= url@.skip(i as int + 3));
            }
            s
        },
        None => url,
    };
    let m = rest.unicode_len();
    let host: &str = if m >= 4 && rest.get_char(0) == 'w' && rest.get_char(1) == 'w'
        && rest.get_char(2) == 'w' && rest.get_char(3) == '.' {
        let h = rest.substring_char(4, m);
        proof {
            assert(h@ =~= rest@.skip(4));
        }
        h
    } else {
        rest
    };
    let dom = cut_at_slash(host);
    dom.to_owned()
}

/// What an organisation name, already lowercased, turns into in links to
/// company profiles: dots are removed and spaces become dashes.
pub open spec fn link_id_chars(s: Seq<char>) -> Seq<char>
    decreases s.len(),
{
    if s.len() == 0 {
        Seq::empty()
    } else {
        let rest = link_id_chars(s.drop_first());
        if s[0] == '.' {
            rest
        } else if s[0] == ' ' {
            seq!['-'] + rest
        } else {
            seq![s[0]] + rest
        }
    }
}

/// The sequence of characters that lowercasing a text yields. The result of
/// `str::to_lowercase` depends on the characters of its argument alone.
pub uninterp spec fn lower_of(s: Seq<char>) -> Seq<char>;

/// Relies on str::to_lowercase: returns the lowercase equivalent of the text,
/// determined by the Unicode lowercasing tables; an empty text stays empty.
#[verifier::external_body]
pub(crate) fn lowercase(s: &str) -> (r: String)
    ensures
        r@ == lower_of(s@),
        s@.len() == 0 ==> r@.len() == 0,
{
    s.to_lowercase()
}

/// Relies on String::push: appends the given character to the end.
#[verifier::external_body]
fn push_char(s: &mut String, c: char)
    ensures
        final(s)@ == old(s)@.push(c),
{
    s.push(c);
}

/// Turns an already-lowercased organisation name into the identifier used in
/// links to company profiles: dots are removed and spaces become dashes.
pub fn link_id_from_lowered(lowered: &str) -> (r: String)
    ensures
        r@ == link_id_chars(lowered@),
{
    let n = lowered.unicode_len();
    let mut out = String::new();
    let mut i: usize = 0;
    proof {
        assert(lowered@.skip(0) =~= lowered@);
        assert(Seq::<char>::empty() + link_id_chars(lowered@) =~= link_id_chars(lowered@));
    }
    while i < n
        invariant
            n == lowered@.len(),
            i <= n,
            link_id_chars(lowered@) == out@ + link_id_chars(lowered@.skip(i as int)),
        decreases n - i,
    {
        let c = lowered.get_char(i);
        proof {
            assert(lowered@.skip(i as int)[0] == lowered@[i as int]);
            assert(lowered@.skip(i as int).drop_first() =~= lowered@.skip(i as int + 1));
        }
        if c == '.' {
        } else if c == ' ' {
            proof {
                assert(out@ + (seq!['-'] + link_id_chars(lowered@.skip(i as int + 1))) =~= out@.push(
                    '-',
                ) + link_id_chars(lowered@.skip(i as int + 1)));
            }
            push_char(&mut out, '-');
        } else {
            proof {
                assert(out@ + (seq![lowered@[i as int]] + link_id_chars(
                    lowered@.skip(i as int + 1),
                )) =~= out@.push(lowered@[i as int]) + link_id_chars(lowered@.skip(i as int + 1)));
            }
            push_char(&mut out, c);
        }
        i = i + 1;
    }
    proof {
        assert(lowered@.skip(n as int) =~= Seq::<char>::empty());
        assert(out@ + link_id_chars(Seq::<char>::empty()) =~= out@);
    }
    out
}

} // verus!
