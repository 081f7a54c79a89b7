//! Comma-separated token lists of the negotiation headers.
use vstd::prelude::*;

verus! {

/// The views of a sequence of string slices.
pub open spec fn views(v: Seq<&str>) -> Seq<Seq<char>> {
    v.map_values(|s: &str| s@)
}

/// The pieces of `s` between commas, as `str::split(",")` yields them:
/// never empty, and one more than the number of commas.
pub open spec fn split_commas(s: Seq<char>) -> Seq<Seq<char>>
    decreases s.len(),
{
    if s.len() == 0 {
        seq![seq![]]
    } else {
        let init = split_commas(s.drop_last());
        if s.last() == ',' {
            init.push(seq![])
        } else {
            init.update(init.len() - 1, init.last().push(s.last()))
        }
    }
}

/// Unicode White_Space, the set that `char::is_whitespace` tests.
pub open spec fn is_white_space(c: char) -> bool {
    ||| '\t' <= c <= '\r'
    ||| c == ' '
    ||| c == '\u{85}'
    ||| c == '\u{a0}'
    ||| c == '\u{1680}'
    ||| '\u{2000}' <= c <= '\u{200a}'
    ||| c == '\u{2028}'
    ||| c == '\u{2029}'
    ||| c == '\u{202f}'
    ||| c == '\u{205f}'
    ||| c == '\u{3000}'
}

/// `s` without its leading white space.
pub open spec fn trim_start(s: Seq<char>) -> Seq<char>
    decreases s.len(),
{
    if s.len() > 0 && is_white_space(s[0]) {
        trim_start(s.drop_first())
    } else {
        s
    }
}

/// `s` without its trailing white space.
pub open spec fn trim_end(s: Seq<char>) -> Seq<char>
    decreases s.len(),
{
    if s.len() > 0 && is_white_space(s.last()) {
        trim_end(s.drop_last())
    } else {
        s
    }
}

/// `s` without leading and trailing white space.
pub open spec fn trim(s: Seq<char>) -> Seq<char> {
    trim_end(trim_start(s))
}

/// The extension tokens of a list of pieces: pieces that carry parameters
/// (hold a `;`) are dropped, the others are trimmed.
pub open spec fn plain_extensions(pieces: Seq<Seq<char>>) -> Seq<Seq<char>>
    decreases pieces.len(),
{
    if pieces.len() == 0 {
        seq![]
    } else {
        let rest = plain_extensions(pieces.drop_last());
        if pieces.last().contains(';') {
            rest
        } else {
            rest.push(trim(pieces.last()))
        }
    }
}

/// The extension tokens of all values of `Sec-WebSocket-Extensions`, value
/// after value, left to right within each.
pub open spec fn extensions_of(values: Seq<Seq<char>>) -> Seq<Seq<char>>
    decreases values.len(),
{
    if values.len() == 0 {
        seq![]
    } else {
        extensions_of(values.drop_last()) + plain_extensions(split_commas(values.last()))
    }
}

/// The protocol tokens of all values of `Sec-WebSocket-Protocol`: every
/// piece, trimmed, value after value.
pub open spec fn protocols_of(values: Seq<Seq<char>>) -> Seq<Seq<char>>
    decreases values.len(),
{
    if values.len() == 0 {
        seq![]
    } else {
        protocols_of(values.drop_last()) + split_commas(values.last()).map_values(
            |p: Seq<char>| trim(p),
        )
    }
}

/// Relies on `str::trim`: leading and trailing White_Space removed.
#[verifier::external_body]
fn trim_str<'a>(s: &'a str) -> (r: &'a str)
    ensures
        r@ == trim(s@),
{
    s.trim()
}

/// Whether `s` holds a `;`.
pub fn has_semicolon(s: &str) -> (r: bool)
    ensures
        r == s@.contains(';'),
{
    let n = s.unicode_len();
    let mut i: usize = 0;
    while i < n
        invariant
            n == s@.len(),
            i <= n,
            forall|k: int| 0 <= k < i ==> s@[k] != ';',
        decreases n - i,
    {
        if s.get_char(i) == ';' {
            return true;
        }
        i += 1;
    }
    false
}

/// The pieces of `s` between commas.
pub fn split_commas_str<'a>(s: &'a str) -> (r: Vec<&'a str>)
    ensures
        views(r@) == split_commas(s@),
{
    let n = s.unicode_len();
    let mut out: Vec<&'a str> = Vec::new();
    let mut start: usize = 0;
    let mut i: usize = 0;
    proof {
        assert(s@.take(0) =~= Seq::<char>::empty());
        assert(s@.subrange(0, 0) =~= Seq::<char>::empty());
        assert(views(out@) =~= Seq::<Seq<char>>::empty());
        assert(split_commas(s@.take(0)) =~= views(out@).push(s@.subrange(0, 0)));
    }
    while i < n
        invariant
            n == s@.len(),
            start <= i <= n,
            split_commas(s@.take(i as int)) == views(out@).push(s@.subrange(start as int, i as int)),
        decreases n - i,
    {
        let c = s.get_char(i);
        let ghost prev = s@.take(i as int);
        assert(s@.take(i + 1).drop_last() =~= prev);
        assert(s@.take(i + 1).last() == c);
        if c == ',' {
            let piece = s.substring_char(start, i);
            proof {
                assert(views(out@.push(piece)) =~= views(out@).push(piece@));
            }
            out.push(piece);
            start = i + 1;
            assert(s@.subrange(start as int, start as int) =~= Seq::<char>::empty());
        } else {
            assert(s@.subrange(start as int, i + 1) =~= s@.subrange(start as int, i as int).push(c));
            assert(split_commas(s@.take(i + 1)) =~= views(out@).push(s@.subrange(start as int, i + 1)));
        }
        i += 1;
    }
    let last = s.substring_char(start, n);
    proof {
        assert(s@.take(n as int) =~= s@);
        assert(views(out@.push(last)) =~= views(out@).push(last@));
    }
    out.push(last);
    out
}

/// The extension tokens of the values of `Sec-WebSocket-Extensions`.
pub fn parse_extensions<'a>(values: &Vec<&'a str>) -> (r: Vec<&'a str>)
    ensures
        views(r@) == extensions_of(views(values@)),
{
    let mut out: Vec<&'a str> = Vec::new();
    let mut i: usize = 0;
    proof {
        assert(views(values@).take(0) =~= Seq::<Seq<char>>::empty());
        assert(views(out@) =~= Seq::<Seq<char>>::empty());
    }
    while i < values.len()
        invariant
            i <= values@.len(),
            views(out@) == extensions_of(views(values@).take(i as int)),
        decreases values@.len() - i,
    {
        let pieces = split_commas_str(values[i]);
        let ghost before = views(out@);
        let mut j: usize = 0;
        proof {
            assert(views(pieces@).take(0) =~= Seq::<Seq<char>>::empty());
            assert(before + plain_extensions(views(pieces@).take(0)) =~= before);
        }
        while j < pieces.len()
            invariant
                j <= pieces@.len(),
                views(out@) == before + plain_extensions(views(pieces@).take(j as int)),
            decreases pieces@.len() - j,
        {
            let piece = pieces[j];
            proof {
                assert(views(pieces@).take(j + 1).drop_last() =~= views(pieces@).take(j as int));
                assert(views(pieces@).take(j + 1).last() == piece@);
            }
            if !has_semicolon(piece) {
                let token = trim_str(piece);
                proof {
                    assert(views(out@.push(token)) =~= views(out@).push(token@));
                    assert(before + plain_extensions(views(pieces@).take(j + 1)) =~= (before
                        + plain_extensions(views(pieces@).take(j as int))).push(token@));
                }
                out.push(token);
            }
            j += 1;
        }
        proof {
            assert(views(pieces@).take(pieces@.len() as int) =~= views(pieces@));
            assert(views(values@).take(i + 1).drop_last() =~= views(values@).take(i as int));
            assert(views(values@).take(i + 1).last() == values@[i as int]@);
        }
        i += 1;
    }
    proof {
        assert(views(values@).take(values@.len() as int) =~= views(values@));
    }
    out
}

/// The protocol tokens of the values of `Sec-WebSocket-Protocol`.
pub fn parse_protocols<'a>(values: &Vec<&'a str>) -> (r: Vec<&'a str>)
    ensures
        views(r@) == protocols_of(views(values@)),
{
    let mut out: Vec<&'a str> = Vec::new();
    let mut i: usize = 0;
    proof {
        assert(views(values@).take(0) =~= Seq::<Seq<char>>::empty());
        assert(views(out@) =~= Seq::<Seq<char>>::empty());
    }
    while i < values.len()
        invariant
            i <= values@.len(),
            views(out@) == protocols_of(views(values@).take(i as int)),
        decreases values@.len() - i,
    {
        let pieces = split_commas_str(values[i]);
        let ghost before = views(out@);
        let ghost trimmed = views(pieces@).map_values(|p: Seq<char>| trim(p));
        let mut j: usize = 0;
        proof {
            assert(before + trimmed.take(0) =~= before);
        }
        while j < pieces.len()
            invariant
                j <= pieces@.len(),
                trimmed == views(pieces@).map_values(|p: Seq<char>| trim(p)),
                views(out@) == before + trimmed.take(j as int),
            decreases pieces@.len() - j,
        {
            let token = trim_str(pieces[j]);
            proof {
                assert(views(out@.push(token)) =~= views(out@).push(token@));
                assert(before + trimmed.take(j + 1) =~= (before + trimmed.take(j as int)).push(
                    token@,
                ));
            }
            out.push(token);
            j += 1;
        }
        proof {
            assert(trimmed.take(pieces@.len() as int) =~= trimmed);
            assert(views(values@).take(i + 1).drop_last() =~= views(values@).take(i as int));
            assert(views(values@).take(i + 1).last() == values@[i as int]@);
        }
        i += 1;
    }
    proof {
        assert(views(values@).take(values@.len() as int) =~= views(values@));
    }
    out
}

} // verus!
