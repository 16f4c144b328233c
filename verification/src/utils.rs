//! Character-level string utilities: splitting a request-target on `/`,
//! joining segments back, and plain string equality.

use vstd::prelude::*;

verus! {

use vstd::string::StrSliceExecFns;
use vstd::string::StringExecFns;

/// Splitting a character sequence on `/`: every segment is kept, empty
/// segments included, so the result always holds at least one segment.
pub open spec fn spec_split_slash(s: Seq<char>) -> Seq<Seq<char>>
    decreases s.len(),
{
    if s.len() == 0 {
        seq![Seq::<char>::empty()]
    } else if s[0] == '/' {
        seq![Seq::<char>::empty()] + spec_split_slash(s.drop_first())
    } else {
        let r = spec_split_slash(s.drop_first());
        seq![seq![s[0]] + r[0]] + r.drop_first()
    }
}

pub proof fn lemma_split_slash_len(s: Seq<char>)
    ensures
        spec_split_slash(s).len() >= 1,
    decreases s.len(),
{
    if s.len() == 0 {
    } else {
        lemma_split_slash_len(s.drop_first());
    }
}

/// Splits `path` on `/`, keeping empty segments, as the request-target of a
/// request-line is split into its path segments.
pub fn split_path(path: &str) -> (r: Vec<String>)
    ensures
        r.deep_view() == spec_split_slash(path@),
        r.len() >= 1,
    decreases path@.len(),
{
    let n = path.unicode_len();
    if n == 0 {
        let mut r: Vec<String> = Vec::new();
        r.push(String::new());
        proof {
            assert(r.deep_view() =~= spec_split_slash(path@));
        }
        r
    } else {
        let c = path.get_char(0);
        let rest = path.substring_char(1, n);
        let mut r = split_path(rest);
        if c == '/' {
            r.insert(0, String::new());
            proof {
                assert(r.deep_view() =~= spec_split_slash(path@));
            }
            r
        } else {
            let head = path.substring_char(0, 1);
            let mut first = String::from_str(head);
            first.append(r[0].as_str());
            r.set(0, first);
            proof {
                assert(seq![path@[0]] =~= path@.subrange(0, 1));
                assert(r.deep_view() =~= spec_split_slash(path@));
            }
            r
        }
    }
}

/// Joining segments with `/` between them: the inverse of splitting.
pub open spec fn spec_join_slash(ss: Seq<Seq<char>>) -> Seq<char>
    decreases ss.len(),
{
    if ss.len() == 0 {
        Seq::empty()
    } else if ss.len() == 1 {
        ss[0]
    } else {
        ss[0] + seq!['/'] + spec_join_slash(ss.drop_first())
    }
}

/// Joining the segments that splitting produced gives back the split
/// string exactly: no data is lost by splitting a request-target.
pub proof fn lemma_join_split_slash(s: Seq<char>)
    ensures
        spec_join_slash(spec_split_slash(s)) == s,
    decreases s.len(),
{
    if s.len() == 0 {
        assert(spec_join_slash(spec_split_slash(s)) =~= s);
    } else {
        let rest = s.drop_first();
        lemma_join_split_slash(rest);
        lemma_split_slash_len(rest);
        let r = spec_split_slash(rest);
        if s[0] == '/' {
            assert(spec_split_slash(s).drop_first() =~= r);
            assert(spec_join_slash(spec_split_slash(s)) =~= s);
        } else {
            if r.len() == 1 {
                assert(spec_join_slash(r) == r[0]);
                assert(spec_join_slash(spec_split_slash(s)) =~= s);
            } else {
                let sp = spec_split_slash(s);
                assert(sp.drop_first() =~= r.drop_first());
                assert(sp.len() == r.len());
                assert(sp[0] == seq![s[0]] + r[0]);
                assert(spec_join_slash(sp) == sp[0] + seq!['/'] + spec_join_slash(
                    sp.drop_first()));
                assert(spec_join_slash(r) == r[0] + seq!['/'] + spec_join_slash(
                    r.drop_first()));
                assert(spec_join_slash(sp) =~= seq![s[0]] + rest);
                assert(seq![s[0]] + rest =~= s);
            }
        }
    }
}

fn join_from(parts: &Vec<String>, i: usize) -> (r: String)
    requires
        i <= parts.len(),
    ensures
        r@ == spec_join_slash(parts.deep_view().skip(i as int)),
    decreases parts.len() - i,
{
    proof {
        reveal_strlit("/");
    }
    if i >= parts.len() {
        proof {
            assert(parts.deep_view().skip(i as int) =~= Seq::<Seq<char>>::empty());
        }
        String::new()
    } else if i + 1 == parts.len() {
        proof {
            assert(parts.deep_view().skip(i as int).len() == 1);
            assert(parts.deep_view().skip(i as int)[0] == parts.deep_view()[i as int]);
        }
        parts[i].clone()
    } else {
        let mut s = parts[i].clone();
        s.append("/");
        let rest = join_from(parts, i + 1);
        s.append(rest.as_str());
        proof {
            let ss = parts.deep_view().skip(i as int);
            assert(ss.drop_first() =~= parts.deep_view().skip(i as int + 1));
            assert(s@ =~= spec_join_slash(ss));
        }
        s
    }
}

/// Joins path segments with `/`, undoing `split_path`.
pub fn join_slash(parts: &Vec<String>) -> (r: String)
    ensures
        r@ == spec_join_slash(parts.deep_view()),
{
    let r = join_from(parts, 0);
    proof {
        assert(parts.deep_view().skip(0) =~= parts.deep_view());
    }
    r
}

/// Token separators of a request-line.
pub open spec fn is_wsp(c: char) -> bool {
    c == ' ' || c == '\t'
}

/// The whitespace-separated tokens of a line, in order, never empty.
pub open spec fn spec_tokens(s: Seq<char>) -> Seq<Seq<char>>
    decreases s.len(),
{
    if s.len() == 0 {
        Seq::empty()
    } else if is_wsp(s[0]) {
        spec_tokens(s.drop_first())
    } else {
        let r = spec_tokens(s.drop_first());
        if s.len() > 1 && !is_wsp(s[1]) {
            seq![seq![s[0]] + r[0]] + r.drop_first()
        } else {
            seq![seq![s[0]]] + r
        }
    }
}

/// Splits a line into its whitespace-separated tokens.
pub fn tokenize(s: &str) -> (r: Vec<String>)
    ensures
        r.deep_view() == spec_tokens(s@),
    decreases s@.len(),
{
    let n = s.unicode_len();
    if n == 0 {
        let r: Vec<String> = Vec::new();
        proof {
            assert(r.deep_view() =~= spec_tokens(s@));
        }
        r
    } else {
        let c = s.get_char(0);
        let rest = s.substring_char(1, n);
        if c == ' ' || c == '\t' {
            tokenize(rest)
        } else {
            let mut r = tokenize(rest);
            let head = s.substring_char(0, 1);
            let cont = if n > 1 {
                let c1 = s.get_char(1);
                c1 != ' ' && c1 != '\t'
            } else {
                false
            };
            if cont {
                assert(spec_tokens(rest@).len() >= 1);
                let mut first = String::from_str(head);
                first.append(r[0].as_str());
                r.set(0, first);
                proof {
                    assert(head@ =~= seq![s@[0]]);
                    assert(r.deep_view() =~= spec_tokens(s@));
                }
                r
            } else {
                r.insert(0, String::from_str(head));
                proof {
                    assert(head@ =~= seq![s@[0]]);
                    assert(r.deep_view() =~= spec_tokens(s@));
                }
                r
            }
        }
    }
}

/// The position of the first `: ` separator in a header line, or a
/// negative value when the line holds none.
pub open spec fn find_colon_space(s: Seq<char>) -> int
    decreases s.len(),
{
    if s.len() < 2 {
        -1
    } else if s[0] == ':' && s[1] == ' ' {
        0
    } else {
        let r = find_colon_space(s.drop_first());
        if r < 0 {
            -1
        } else {
            r + 1
        }
    }
}

/// Where `find_colon_space` points, a `: ` stands, and none stands
/// earlier; where it finds none, no position holds one.
pub proof fn lemma_find_colon_space(s: Seq<char>)
    ensures
        find_colon_space(s) >= 0 ==> {
            let i = find_colon_space(s);
            &&& i + 2 <= s.len()
            &&& s[i] == ':'
            &&& s[i + 1] == ' '
            &&& forall|j: int| 0 <= j < i ==> !(#[trigger] s[j] == ':' && s[j + 1] == ' ')
        },
        find_colon_space(s) < 0 ==> forall|j: int|
            0 <= j && j + 2 <= s.len() ==> !(#[trigger] s[j] == ':' && s[j + 1] == ' '),
    decreases s.len(),
{
    if s.len() < 2 {
    } else if s[0] == ':' && s[1] == ' ' {
    } else {
        let rest = s.drop_first();
        lemma_find_colon_space(rest);
        if find_colon_space(rest) >= 0 {
            let i = find_colon_space(s);
            assert(s[i] == rest[i - 1]);
            assert(s[i + 1] == rest[i]);
            assert forall|j: int| 0 <= j < i implies !(#[trigger] s[j] == ':' && s[j + 1]
                == ' ') by {
                if j > 0 {
                    assert(rest[j - 1] == s[j]);
                    assert(rest[j] == s[j + 1]);
                }
            }
        } else {
            assert forall|j: int| 0 <= j && j + 2 <= s.len() implies !(#[trigger] s[j] == ':'
                && s[j + 1] == ' ') by {
                if j > 0 {
                    assert(rest[j - 1] == s[j]);
                    assert(rest[j] == s[j + 1]);
                }
            }
        }
    }
}

/// A header line split on its first `: ` into name and value, or nothing
/// for a line with no separator.
pub open spec fn spec_header_split(s: Seq<char>) -> Option<(Seq<char>, Seq<char>)> {
    let i = find_colon_space(s);
    if i < 0 {
        None
    } else {
        Some((s.subrange(0, i), s.subrange(i + 2, s.len() as int)))
    }
}

fn find_cs(s: &str) -> (r: Option<usize>)
    ensures
        match r {
            Some(i) => i == find_colon_space(s@),
            None => find_colon_space(s@) < 0,
        },
    decreases s@.len(),
{
    let n = s.unicode_len();
    if n < 2 {
        None
    } else if s.get_char(0) == ':' && s.get_char(1) == ' ' {
        Some(0)
    } else {
        let rest = s.substring_char(1, n);
        match find_cs(rest) {
            None => None,
            Some(i) => {
                proof {
                    lemma_find_colon_space(rest@);
                }
                Some(i + 1)
            },
        }
    }
}

/// Splits a header line on the first `: ` into its name and value.
pub fn split_header_line(line: &str) -> (r: Option<(String, String)>)
    ensures
        match r {
            Some(kv) => spec_header_split(line@) == Some((kv.0@, kv.1@)),
            None => spec_header_split(line@) is None,
        },
{
    let n = line.unicode_len();
    match find_cs(line) {
        None => None,
        Some(i) => {
            proof {
                lemma_find_colon_space(line@);
            }
            let k = line.substring_char(0, i);
            let v = line.substring_char(i + 2, n);
            Some((String::from_str(k), String::from_str(v)))
        },
    }
}

/// Equality of two strings, character by character.
pub fn str_eq(a: &str, b: &str) -> (r: bool)
    ensures
        r == (a@ == b@),
{
    let la = a.unicode_len();
    let lb = b.unicode_len();
    if la != lb {
        return false;
    }
    let mut i: usize = 0;
    while i < la
        invariant
            la == a@.len(),
            la == b@.len(),
            i <= la,
            forall|j: int| 0 <= j < i ==> a@[j] == b@[j],
        decreases la - i,
    {
        if a.get_char(i) != b.get_char(i) {
            return false;
        }
        i += 1;
    }
    proof {
        assert(a@ =~= b@);
    }
    true
}

} // verus!
