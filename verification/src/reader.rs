//! The archive reader's decision core: what to do with a path or an
//! archive entry, judged purely by its name.  The streaming itself —
//! opening files, walking archives, spilling entries to temporary
//! files — is I/O and lives outside the library; it hands every name
//! to this function and follows its answer.
use vstd::prelude::*;

use crate::text::str_chars;

verus! {

/// What the reader does with an entry: read it as a document, recurse
/// into it as a nested archive, or pass it over.
#[derive(Debug, Clone, Copy, PartialEq, Eq, Structural)]
pub enum PathKind {
    Xml,
    Zip,
    Other,
}

/// The suffix after the last occurrence of `c`, or the whole text when
/// `c` does not occur.
pub open spec fn after_last(s: Seq<char>, c: char) -> Seq<char>
    decreases s.len(),
{
    if s.len() == 0 {
        s
    } else if s.last() == c {
        Seq::empty()
    } else {
        after_last(s.drop_last(), c).push(s.last())
    }
}

/// The name has a dot somewhere past its first character, so it has an
/// extension at all.
pub open spec fn has_extension(base: Seq<char>) -> bool {
    exists|i: int| 1 <= i < base.len() && base[i] == '.'
}

pub open spec fn ascii_lower(c: char) -> char {
    if 'A' <= c <= 'Z' {
        ((c as int) + 32) as char
    } else {
        c
    }
}

/// The text equals the (lowercase) pattern up to ASCII case.
pub open spec fn lower_is(s: Seq<char>, pat: Seq<char>) -> bool {
    s.len() == pat.len() && forall|i: int| 0 <= i < s.len() ==> ascii_lower(#[trigger] s[i]) == pat[i]
}

/// How an entry name is classified: by the extension of its final path
/// component, compared without regard to ASCII case.
pub open spec fn spec_classify(name: Seq<char>) -> PathKind {
    let base = after_last(name, '/');
    if !has_extension(base) {
        PathKind::Other
    } else {
        let ext = after_last(base, '.');
        if lower_is(ext, seq!['x', 'm', 'l']) {
            PathKind::Xml
        } else if lower_is(ext, seq!['z', 'i', 'p']) {
            PathKind::Zip
        } else {
            PathKind::Other
        }
    }
}

proof fn lemma_after_last_at(s: Seq<char>, c: char, k: int)
    requires
        0 <= k < s.len(),
        s[k] == c,
        forall|j: int| k < j < s.len() ==> s[j] != c,
    ensures
        after_last(s, c) =~= s.subrange(k + 1, s.len() as int),
    decreases s.len(),
{
    if s.last() == c {
        assert(k == s.len() - 1);
    } else {
        assert(k < s.len() - 1);
        lemma_after_last_at(s.drop_last(), c, k);
        assert(after_last(s, c) =~= s.drop_last().subrange(k + 1, s.len() - 1).push(s.last()));
    }
}

proof fn lemma_after_last_none(s: Seq<char>, c: char)
    requires
        forall|j: int| 0 <= j < s.len() ==> s[j] != c,
    ensures
        after_last(s, c) =~= s,
    decreases s.len(),
{
    if s.len() > 0 {
        lemma_after_last_none(s.drop_last(), c);
    }
}

/// The last index where `c` occurs, if it occurs at all.
#[verifier::loop_isolation(false)]
fn last_index_of(v: &Vec<char>, c: char) -> (r: Option<usize>)
    ensures
        r matches Some(k) ==> 0 <= k < v@.len() && v@[k as int] == c && (forall|j: int|
            k < j < v@.len() ==> v@[j] != c),
        r is None ==> forall|j: int| 0 <= j < v@.len() ==> v@[j] != c,
{
    let mut i: usize = v.len();
    while i > 0
        invariant
            0 <= i <= v@.len(),
            forall|j: int| i <= j < v@.len() ==> v@[j] != c,
        decreases i,
    {
        i = i - 1;
        if v[i] == c {
            return Some(i);
        }
    }
    None
}

fn lower_char(c: char) -> (r: char)
    ensures
        r == ascii_lower(c),
{
    match c {
        'A' => 'a',
        'B' => 'b',
        'C' => 'c',
        'D' => 'd',
        'E' => 'e',
        'F' => 'f',
        'G' => 'g',
        'H' => 'h',
        'I' => 'i',
        'J' => 'j',
        'K' => 'k',
        'L' => 'l',
        'M' => 'm',
        'N' => 'n',
        'O' => 'o',
        'P' => 'p',
        'Q' => 'q',
        'R' => 'r',
        'S' => 's',
        'T' => 't',
        'U' => 'u',
        'V' => 'v',
        'W' => 'w',
        'X' => 'x',
        'Y' => 'y',
        'Z' => 'z',
        _ => c,
    }
}

#[verifier::loop_isolation(false)]
fn lower_matches(v: &Vec<char>, from: usize, pat: &Vec<char>) -> (r: bool)
    requires
        from <= v@.len(),
    ensures
        r == lower_is(v@.skip(from as int), pat@),
{
    let n = v.len() - from;
    if n != pat.len() {
        return false;
    }
    let mut i: usize = 0;
    while i < n
        invariant
            0 <= i <= n,
            n == v@.len() - from,
            n == pat@.len(),
            forall|k: int| 0 <= k < i ==> ascii_lower(#[trigger] v@.skip(from as int)[k]) == pat@[k],
        decreases n - i,
    {
        if lower_char(v[from + i]) != pat[i] {
            proof {
                assert(v@.skip(from as int)[i as int] == v@[from + i]);
            }
            return false;
        }
        i = i + 1;
    }
    true
}

/// Decide what an entry name is: a document, a nested archive, or
/// something to pass over.
pub fn classify_entry_name(name: &str) -> (r: PathKind)
    ensures
        r == spec_classify(name@),
{
    let cs = str_chars(name);
    let base_start: usize = match last_index_of(&cs, '/') {
        Some(k) => {
            proof {
                lemma_after_last_at(cs@, '/', k as int);
            }
            k + 1
        },
        None => {
            proof {
                lemma_after_last_none(cs@, '/');
            }
            0
        },
    };
    let ghost base = after_last(name@, '/');
    proof {
        assert(base =~= cs@.skip(base_start as int));
    }
    let mut bv: Vec<char> = Vec::new();
    let mut i: usize = base_start;
    while i < cs.len()
        invariant
            base_start <= i <= cs@.len(),
            bv@ =~= cs@.subrange(base_start as int, i as int),
        decreases cs@.len() - i,
    {
        bv.push(cs[i]);
        proof {
            assert(cs@.subrange(base_start as int, i + 1) =~= cs@.subrange(
                base_start as int,
                i as int,
            ).push(cs@[i as int]));
        }
        i = i + 1;
    }
    proof {
        assert(bv@ =~= base);
    }
    let dot: Option<usize> = last_index_of(&bv, '.');
    let dot_at: usize = match dot {
        Some(k) if k >= 1 => k,
        _ => {
            proof {
                if dot is Some {
                    assert(!has_extension(base)) by {
                        assert(forall|j: int|
                            1 <= j < base.len() ==> base[j] != '.');
                    }
                } else {
                    assert(!has_extension(base));
                }
            }
            return PathKind::Other;
        },
    };
    proof {
        assert(has_extension(base));
        lemma_after_last_at(base, '.', dot_at as int);
    }
    let ext_start: usize = dot_at + 1;
    let xml_pat: Vec<char> = vec!['x', 'm', 'l'];
    let zip_pat: Vec<char> = vec!['z', 'i', 'p'];
    proof {
        assert(xml_pat@ =~= seq!['x', 'm', 'l']);
        assert(zip_pat@ =~= seq!['z', 'i', 'p']);
    }
    if lower_matches(&bv, ext_start, &xml_pat) {
        PathKind::Xml
    } else if lower_matches(&bv, ext_start, &zip_pat) {
        PathKind::Zip
    } else {
        PathKind::Other
    }
}

} // verus!
