//! Verified helpers over strings viewed as sequences of characters: trimming,
//! equality, prefix tests, splitting on a separator, and joining.

use vstd::prelude::*;

verus! {

/// Whitespace as the protocol treats it: the characters that may surround a
/// command on a line read from a client.
pub open spec fn is_ws_char(c: char) -> bool {
    c == ' ' || c == '\t' || c == '\n' || c == '\r'
}

pub open spec fn spec_trim_front(s: Seq<char>) -> Seq<char>
    decreases s.len(),
{
    if s.len() > 0 && is_ws_char(s[0]) {
        spec_trim_front(s.drop_first())
    } else {
        s
    }
}

pub open spec fn spec_trim_back(s: Seq<char>) -> Seq<char>
    decreases s.len(),
{
    if s.len() > 0 && is_ws_char(s.last()) {
        spec_trim_back(s.drop_last())
    } else {
        s
    }
}

/// The view of a line once surrounding whitespace is removed.
pub open spec fn spec_trim(s: Seq<char>) -> Seq<char> {
    spec_trim_back(spec_trim_front(s))
}

fn is_ws(c: char) -> (r: bool)
    ensures
        r == is_ws_char(c),
{
    c == ' ' || c == '\t' || c == '\n' || c == '\r'
}

fn trim_front(s: &str) -> (r: String)
    ensures
        r@ == spec_trim_front(s@),
    decreases s@.len(),
{
    let n = s.unicode_len();
    if n > 0 && is_ws(s.get_char(0)) {
        let rest = s.substring_char(1, n);
        proof {
            assert(rest@ =~= s@.drop_first());
        }
        trim_front(rest)
    } else {
        String::from_str(s)
    }
}

fn trim_back(s: &str) -> (r: String)
    ensures
        r@ == spec_trim_back(s@),
    decreases s@.len(),
{
    let n = s.unicode_len();
    if n > 0 && is_ws(s.get_char(n - 1)) {
        let rest = s.substring_char(0, n - 1);
        proof {
            assert(rest@ =~= s@.drop_last());
        }
        trim_back(rest)
    } else {
        String::from_str(s)
    }
}

/// Removes leading and trailing whitespace from a line.
pub fn trim(s: &str) -> (r: String)
    ensures
        r@ == spec_trim(s@),
{
    let front = trim_front(s);
    trim_back(front.as_str())
}

/// Character-for-character string equality.
pub fn str_eq(a: &str, b: &str) -> (r: bool)
    ensures
        r == (a@ == b@),
{
    let an = a.unicode_len();
    let bn = b.unicode_len();
    if an != bn {
        return false;
    }
    let mut i: usize = 0;
    while i < an
        invariant
            an == a@.len(),
            an == b@.len(),
            i <= an,
            forall|j: int| 0 <= j < i ==> a@[j] == b@[j],
        decreases an - i,
    {
        if a.get_char(i) != b.get_char(i) {
            return false;
        }
        i = i + 1;
    }
    proof {
        assert(a@ =~= b@);
    }
    true
}

/// Whether `p` is a prefix of `s`.
pub open spec fn spec_starts_with(s: Seq<char>, p: Seq<char>) -> bool {
    p.len() <= s.len() && s.subrange(0, p.len() as int) == p
}

/// Whether `s` begins with the prefix `p`.
pub fn starts_with(s: &str, p: &str) -> (r: bool)
    ensures
        r == spec_starts_with(s@, p@),
{
    let sn = s.unicode_len();
    let pn = p.unicode_len();
    if pn > sn {
        proof {
            assert(!spec_starts_with(s@, p@));
        }
        return false;
    }
    let mut i: usize = 0;
    while i < pn
        invariant
            sn == s@.len(),
            pn == p@.len(),
            pn <= sn,
            i <= pn,
            forall|j: int| 0 <= j < i ==> s@[j] == p@[j],
        decreases pn - i,
    {
        if s.get_char(i) != p.get_char(i) {
            proof {
                assert(s@.subrange(0, p@.len() as int)[i as int] != p@[i as int]);
            }
            return false;
        }
        i = i + 1;
    }
    proof {
        assert(s@.subrange(0, p@.len() as int) =~= p@);
    }
    true
}

/// The pieces of `s` delimited by the separator `sep`: always at least one
/// piece, and one more piece for every occurrence of the separator.
pub open spec fn spec_split(s: Seq<char>, sep: char) -> Seq<Seq<char>>
    decreases s.len(),
{
    if s.len() == 0 {
        seq![Seq::<char>::empty()]
    } else if s[0] == sep {
        seq![Seq::<char>::empty()] + spec_split(s.drop_first(), sep)
    } else {
        let rest = spec_split(s.drop_first(), sep);
        seq![seq![s[0]] + rest[0]] + rest.drop_first()
    }
}

pub proof fn lemma_split_len(s: Seq<char>, sep: char)
    ensures
        spec_split(s, sep).len() >= 1,
    decreases s.len(),
{
    if s.len() > 0 {
        lemma_split_len(s.drop_first(), sep);
    }
}

/// Splits `s` at every occurrence of `sep`.
pub fn split_char(s: &str, sep: char) -> (r: Vec<String>)
    ensures
        r.deep_view() == spec_split(s@, sep),
        r.len() >= 1,
    decreases s@.len(),
{
    let n = s.unicode_len();
    if n == 0 {
        let mut out: Vec<String> = Vec::new();
        out.push(String::new());
        proof {
            assert(out.deep_view() =~~= spec_split(s@, sep));
        }
        out
    } else {
        let c0 = s.get_char(0);
        let rest = s.substring_char(1, n);
        proof {
            assert(rest@ =~= s@.drop_first());
        }
        let mut tail = split_char(rest, sep);
        if c0 == sep {
            tail.insert(0, String::new());
            proof {
                assert(tail.deep_view() =~~= spec_split(s@, sep));
            }
            tail
        } else {
            proof {
                lemma_split_len(rest@, sep);
            }
            let old_first = tail.remove(0);
            let head = s.substring_char(0, 1);
            let new_first = String::from_str(head).concat(old_first.as_str());
            proof {
                assert(head@ =~= seq![s@[0]]);
            }
            tail.insert(0, new_first);
            proof {
                assert(tail.deep_view() =~~= spec_split(s@, sep));
            }
            tail
        }
    }
}

/// The pieces of `parts` concatenated with `sep` between consecutive pieces.
pub open spec fn spec_join(parts: Seq<Seq<char>>, sep: Seq<char>) -> Seq<char>
    decreases parts.len(),
{
    if parts.len() == 0 {
        Seq::<char>::empty()
    } else if parts.len() == 1 {
        parts[0]
    } else {
        parts[0] + sep + spec_join(parts.drop_first(), sep)
    }
}

fn join_from(parts: &Vec<String>, sep: &str, i: usize) -> (r: String)
    requires
        i <= parts.len(),
    ensures
        r@ == spec_join(parts.deep_view().skip(i as int), sep@),
    decreases parts.len() - i,
{
    if i >= parts.len() {
        proof {
            assert(parts.deep_view().skip(i as int) =~= Seq::<Seq<char>>::empty());
        }
        String::new()
    } else if i == parts.len() - 1 {
        let r = parts[i].clone();
        proof {
            assert(parts.deep_view().skip(i as int) =~= seq![parts@[i as int]@]);
        }
        r
    } else {
        let mut out = parts[i].clone();
        out.append(sep);
        let rest = join_from(parts, sep, i + 1);
        out.append(rest.as_str());
        proof {
            assert(parts.deep_view().skip(i as int).drop_first() =~= parts.deep_view().skip(
                i as int + 1,
            ));
            assert(parts.deep_view().skip(i as int)[0] == parts@[i as int]@);
        }
        out
    }
}

/// At most the first three pieces of `s` split on `sep`: like splitting, but
/// any third piece keeps the remainder whole, separators included.
pub open spec fn spec_splitn3(s: Seq<char>, sep: char) -> Seq<Seq<char>> {
    let ps = spec_split(s, sep);
    if ps.len() <= 3 {
        ps
    } else {
        seq![ps[0], ps[1], spec_join(ps.skip(2), seq![sep])]
    }
}

/// Splits `s` on `sep` into at most three pieces. `sep_str` is the separator
/// as a one-character string.
pub fn splitn3_char(s: &str, sep: char, sep_str: &str) -> (r: Vec<String>)
    requires
        sep_str@ == seq![sep],
    ensures
        r.deep_view() == spec_splitn3(s@, sep),
        1 <= r.len() <= 3,
{
    let mut ps = split_char(s, sep);
    if ps.len() <= 3 {
        ps
    } else {
        let ghost whole = ps.deep_view();
        let tail = ps.split_off(2);
        proof {
            assert(tail.deep_view() =~= whole.skip(2));
        }
        let rest = join_with(&tail, sep_str);
        ps.push(rest);
        proof {
            assert(ps.deep_view() =~~= spec_splitn3(s@, sep));
        }
        ps
    }
}

/// Joins the strings in `parts` with `sep` between consecutive elements.
pub fn join_with(parts: &Vec<String>, sep: &str) -> (r: String)
    ensures
        r@ == spec_join(parts.deep_view(), sep@),
{
    let r = join_from(parts, sep, 0);
    proof {
        assert(parts.deep_view().skip(0) =~= parts.deep_view());
    }
    r
}

} // verus!
